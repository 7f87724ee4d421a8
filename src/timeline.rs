//! The event log: append, sorted insertion and read-only queries.
use vstd::prelude::*;

use crate::event::{ChronoEvent, UvoxId};

verus! {

/// Every event's tick is at most the tick of every later event.
pub open spec fn tick_sorted(s: Seq<ChronoEvent>) -> bool {
    forall|i: int, j: int| 0 <= i < j < s.len() ==> s[i].tick() <= s[j].tick()
}

/// The events of `s` whose tick lies in `[start, end]`, in the order of `s`.
pub open spec fn in_tick_range(s: Seq<ChronoEvent>, start: i64, end: i64) -> Seq<ChronoEvent>
    decreases s.len(),
{
    if s.len() == 0 {
        Seq::empty()
    } else {
        let rest = in_tick_range(s.drop_last(), start, end);
        if start <= s.last().tick() && s.last().tick() <= end {
            rest.push(s.last())
        } else {
            rest
        }
    }
}

/// The events of `s` that carry tick `k`, in the order of `s`.
pub open spec fn with_tick(s: Seq<ChronoEvent>, k: i64) -> Seq<ChronoEvent> {
    in_tick_range(s, k, k)
}

/// The events of `s` located at `id`, in the order of `s`.
pub open spec fn at_location(s: Seq<ChronoEvent>, id: UvoxId) -> Seq<ChronoEvent>
    decreases s.len(),
{
    if s.len() == 0 {
        Seq::empty()
    } else {
        let rest = at_location(s.drop_last(), id);
        if s.last().id == id {
            rest.push(s.last())
        } else {
            rest
        }
    }
}

/// The events that the references in `v` point to.
pub open spec fn referents(v: Seq<&ChronoEvent>) -> Seq<ChronoEvent> {
    v.map_values(|e: &ChronoEvent| *e)
}

/// `e` placed into `s` just after the last of the trailing events whose tick
/// is at most `e`'s: the step of a stable insertion sort.
pub open spec fn place(s: Seq<ChronoEvent>, e: ChronoEvent) -> Seq<ChronoEvent>
    decreases s.len(),
{
    if s.len() == 0 {
        seq![e]
    } else if s.last().tick() <= e.tick() {
        s.push(e)
    } else {
        place(s.drop_last(), e).push(s.last())
    }
}

/// `s` stably sorted by tick.
pub open spec fn sort_by_tick(s: Seq<ChronoEvent>) -> Seq<ChronoEvent>
    decreases s.len(),
{
    if s.len() == 0 {
        s
    } else {
        place(sort_by_tick(s.drop_last()), s.last())
    }
}

proof fn lemma_range_push(s: Seq<ChronoEvent>, x: ChronoEvent, start: i64, end: i64)
    ensures
        in_tick_range(s.push(x), start, end) == if start <= x.tick() && x.tick() <= end {
            in_tick_range(s, start, end).push(x)
        } else {
            in_tick_range(s, start, end)
        },
{
    assert(s.push(x).drop_last() =~= s);
}

proof fn lemma_location_push(s: Seq<ChronoEvent>, x: ChronoEvent, id: UvoxId)
    ensures
        at_location(s.push(x), id) == if x.id == id {
            at_location(s, id).push(x)
        } else {
            at_location(s, id)
        },
{
    assert(s.push(x).drop_last() =~= s);
}

proof fn lemma_place_len(s: Seq<ChronoEvent>, e: ChronoEvent)
    ensures
        place(s, e).len() == s.len() + 1,
    decreases s.len(),
{
    if s.len() > 0 && s.last().tick() > e.tick() {
        lemma_place_len(s.drop_last(), e);
    }
}

proof fn lemma_place_bounded(s: Seq<ChronoEvent>, e: ChronoEvent, b: i64)
    requires
        forall|i: int| 0 <= i < s.len() ==> s[i].tick() <= b,
        e.tick() <= b,
    ensures
        forall|i: int| 0 <= i < place(s, e).len() ==> place(s, e)[i].tick() <= b,
    decreases s.len(),
{
    lemma_place_len(s, e);
    if s.len() > 0 && s.last().tick() > e.tick() {
        lemma_place_bounded(s.drop_last(), e, b);
        lemma_place_len(s.drop_last(), e);
    }
}

proof fn lemma_place_sorted(s: Seq<ChronoEvent>, e: ChronoEvent)
    requires
        tick_sorted(s),
    ensures
        tick_sorted(place(s, e)),
    decreases s.len(),
{
    lemma_place_len(s, e);
    if s.len() > 0 && s.last().tick() > e.tick() {
        let t = s.drop_last();
        lemma_place_sorted(t, e);
        lemma_place_bounded(t, e, s.last().tick());
        lemma_place_len(t, e);
    }
}

proof fn lemma_place_same_tick(s: Seq<ChronoEvent>, e: ChronoEvent, k: i64)
    ensures
        with_tick(place(s, e), k) == with_tick(s.push(e), k),
    decreases s.len(),
{
    if s.len() == 0 {
        assert(place(s, e) =~= s.push(e));
    } else if s.last().tick() > e.tick() {
        let t = s.drop_last();
        let l = s.last();
        assert(s =~= t.push(l));
        lemma_place_same_tick(t, e, k);
        lemma_range_push(place(t, e), l, k, k);
        lemma_range_push(t, e, k, k);
        lemma_range_push(s, e, k, k);
        lemma_range_push(t, l, k, k);
    }
}

proof fn lemma_sort_props(s: Seq<ChronoEvent>)
    ensures
        tick_sorted(sort_by_tick(s)),
        sort_by_tick(s).len() == s.len(),
        forall|k: i64| #[trigger] with_tick(sort_by_tick(s), k) == with_tick(s, k),
    decreases s.len(),
{
    if s.len() > 0 {
        let t = s.drop_last();
        let l = s.last();
        assert(s =~= t.push(l));
        lemma_sort_props(t);
        lemma_place_sorted(sort_by_tick(t), l);
        lemma_place_len(sort_by_tick(t), l);
        assert forall|k: i64| #[trigger] with_tick(sort_by_tick(s), k) == with_tick(s, k) by {
            lemma_place_same_tick(sort_by_tick(t), l, k);
            lemma_range_push(sort_by_tick(t), l, k, k);
            lemma_range_push(t, l, k, k);
            assert(with_tick(sort_by_tick(t), k) == with_tick(t, k));
            assert(sort_by_tick(s) == place(sort_by_tick(t), l));
            assert(with_tick(s, k) == with_tick(t.push(l), k));
        }
    }
}

/// An ordered sequence of events.
pub struct Timeline {
    pub events: Vec<ChronoEvent>,
}

impl Timeline {
    pub fn new() -> (r: Timeline)
        ensures
            r.events@ == Seq::<ChronoEvent>::empty(),
    {
        Timeline { events: Vec::new() }
    }

    /// Appends `event` at the end, with no regard to order.
    pub fn push(&mut self, event: ChronoEvent)
        ensures
            final(self).events@ == old(self).events@.push(event),
    {
        self.events.push(event);
    }

    /// Appends `event`, then stably re-sorts the whole sequence by tick: the
    /// result is in tick order, and the events of each tick keep the order
    /// they had (with `event` last among its tick).
    pub fn insert(&mut self, event: ChronoEvent)
        requires
            old(self).events.len() < usize::MAX,
        ensures
            final(self).events@.len() == old(self).events@.len() + 1,
            tick_sorted(final(self).events@),
            forall|k: i64|
                #[trigger] with_tick(final(self).events@, k) == with_tick(
                    old(self).events@.push(event),
                    k,
                ),
    {
        self.events.push(event);
        let ghost orig = self.events@;
        let n = self.events.len();
        let mut i: usize = 0;
        while i < n
            invariant
                0 <= i <= n,
                n == orig.len(),
                self.events@.len() == n,
                self.events@.subrange(0, i as int) == sort_by_tick(orig.subrange(0, i as int)),
                self.events@.subrange(i as int, n as int) == orig.subrange(i as int, n as int),
            decreases n - i,
        {
            let ghost sp = self.events@.subrange(0, i as int);
            proof {
                lemma_sort_props(orig.subrange(0, i as int));
                assert(orig.subrange(0, i as int + 1).drop_last() =~= orig.subrange(0, i as int));
                assert(orig.subrange(0, i as int + 1).last() == orig[i as int]);
                assert(self.events@[i as int] == orig.subrange(i as int, n as int)[0]);
            }
            let ghost pre = self.events@;
            let e = self.events.remove(i);
            let ghost mid = self.events@;
            proof {
                assert(sp.subrange(0, i as int) =~= sp);
                assert(sp.subrange(i as int, i as int) =~= Seq::<ChronoEvent>::empty());
                assert(place(sp, e) =~= place(sp.subrange(0, i as int), e) + sp.subrange(
                    i as int,
                    i as int,
                ));
                assert(mid.subrange(0, i as int) =~= sp);
                assert forall|m: int| i <= m < n - 1 implies mid[m] == orig[m + 1] by {
                    assert(mid[m] == pre[m + 1]);
                    assert(pre[m + 1] == pre.subrange(i as int, n as int)[m + 1 - i]);
                }
            }
            let mut j: usize = i;
            while j > 0 && self.events[j - 1].t.nanos > e.t.nanos
                invariant
                    0 <= j <= i < n,
                    self.events@ == mid,
                    mid.len() == n - 1,
                    mid.subrange(0, i as int) == sp,
                    place(sp, e) == place(sp.subrange(0, j as int), e) + sp.subrange(
                        j as int,
                        i as int,
                    ),
                decreases j,
            {
                proof {
                    let p = sp.subrange(0, j as int);
                    assert(p.drop_last() =~= sp.subrange(0, j - 1));
                    assert(p.last() == sp[j - 1]);
                    assert(sp.subrange(j - 1, i as int) =~= seq![sp[j - 1]] + sp.subrange(
                        j as int,
                        i as int,
                    ));
                    assert(place(p, e) == place(sp.subrange(0, j - 1), e).push(sp[j - 1]));
                    assert(place(sp.subrange(0, j - 1), e).push(sp[j - 1]) + sp.subrange(
                        j as int,
                        i as int,
                    ) =~= place(sp.subrange(0, j - 1), e) + sp.subrange(j - 1, i as int));
                }
                j = j - 1;
            }
            proof {
                let p = sp.subrange(0, j as int);
                if j == 0 {
                    assert(place(p, e) =~= p.push(e));
                } else {
                    assert(p.last() == sp[j - 1]);
                }
                assert(place(p, e) == p.push(e));
            }
            let ghost before = self.events@;
            self.events.insert(j, e);
            proof {
                assert(self.events@.subrange(0, i + 1) =~= place(sp, e));
                assert(self.events@.subrange(i + 1, n as int) =~= before.subrange(
                    i as int,
                    n - 1,
                ));
                assert(before.subrange(i as int, n - 1) =~= orig.subrange(i + 1, n as int));
                assert(self.events@.subrange(i + 1, n as int) =~= orig.subrange(
                    i + 1,
                    n as int,
                ));
            }
            i = i + 1;
        }
        proof {
            assert(self.events@ =~= self.events@.subrange(0, n as int));
            assert(orig =~= orig.subrange(0, n as int));
            lemma_sort_props(orig);
        }
    }

    /// The stored events, in stored order.
    pub fn iter_chronological(&self) -> (r: &[ChronoEvent])
        ensures
            r@ == self.events@,
    {
        self.events.as_slice()
    }

    /// The events whose tick lies in `[start_ns, end_ns]`, bounds included,
    /// in stored order.
    pub fn query_time_range(&self, start_ns: i64, end_ns: i64) -> (r: Vec<&ChronoEvent>)
        ensures
            referents(r@) == in_tick_range(self.events@, start_ns, end_ns),
    {
        let mut r: Vec<&ChronoEvent> = Vec::new();
        assert(referents(r@) =~= Seq::<ChronoEvent>::empty());
        let mut i: usize = 0;
        while i < self.events.len()
            invariant
                0 <= i <= self.events@.len(),
                referents(r@) == in_tick_range(self.events@.subrange(0, i as int), start_ns, end_ns),
            decreases self.events@.len() - i,
        {
            let e = &self.events[i];
            proof {
                assert(self.events@.subrange(0, i + 1) =~= self.events@.subrange(
                    0,
                    i as int,
                ).push(*e));
                lemma_range_push(self.events@.subrange(0, i as int), *e, start_ns, end_ns);
            }
            if start_ns <= e.t.nanos && e.t.nanos <= end_ns {
                let ghost before = r@;
                r.push(e);
                assert(referents(r@) =~= referents(before).push(*e));
            }
            i = i + 1;
        }
        proof {
            assert(self.events@ =~= self.events@.subrange(0, self.events@.len() as int));
        }
        r
    }

    /// The events located at `id`, in stored order.
    pub fn query_by_id(&self, id: &UvoxId) -> (r: Vec<&ChronoEvent>)
        ensures
            referents(r@) == at_location(self.events@, *id),
    {
        let mut r: Vec<&ChronoEvent> = Vec::new();
        assert(referents(r@) =~= Seq::<ChronoEvent>::empty());
        let mut i: usize = 0;
        while i < self.events.len()
            invariant
                0 <= i <= self.events@.len(),
                referents(r@) == at_location(self.events@.subrange(0, i as int), *id),
            decreases self.events@.len() - i,
        {
            let e = &self.events[i];
            proof {
                assert(self.events@.subrange(0, i + 1) =~= self.events@.subrange(
                    0,
                    i as int,
                ).push(*e));
                lemma_location_push(self.events@.subrange(0, i as int), *e, *id);
            }
            if e.id == *id {
                let ghost before = r@;
                r.push(e);
                assert(referents(r@) =~= referents(before).push(*e));
            }
            i = i + 1;
        }
        proof {
            assert(self.events@ =~= self.events@.subrange(0, self.events@.len() as int));
        }
        r
    }

    pub fn len(&self) -> (r: usize)
        ensures
            r == self.events@.len(),
    {
        self.events.len()
    }

    pub fn is_empty(&self) -> (r: bool)
        ensures
            r == (self.events@.len() == 0),
    {
        self.events.len() == 0
    }
}

} // verus!

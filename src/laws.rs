//! Properties that hold of every timeline, proved over the specifications of
//! the queries and the playback engines.
use vstd::prelude::*;

use crate::event::{Cartesian, ChronoEvent, EventKind, UvoxId};
use crate::playback::{fresh_state, replay};
use crate::timeline::{at_location, in_tick_range};

verus! {

proof fn lemma_push_contains(r: Seq<ChronoEvent>, l: ChronoEvent, x: ChronoEvent)
    ensures
        r.push(l).contains(x) <==> (r.contains(x) || x == l),
{
    if r.push(l).contains(x) && x != l {
        let w = choose|w: int| 0 <= w < r.push(l).len() && r.push(l)[w] == x;
        assert(r[w] == x);
    }
    if r.contains(x) {
        let w = choose|w: int| 0 <= w < r.len() && r[w] == x;
        assert(r.push(l)[w] == x);
    }
    assert(r.push(l)[r.len() as int] == l);
}

/// A time-range query keeps exactly the events whose tick lies in
/// `[start, end]`, bounds included, and nothing else.
pub proof fn lemma_time_range_exact(s: Seq<ChronoEvent>, start: i64, end: i64)
    ensures
        forall|x: ChronoEvent|
            #[trigger] in_tick_range(s, start, end).contains(x) <==> (s.contains(x) && start
                <= x.tick() && x.tick() <= end),
    decreases s.len(),
{
    if s.len() > 0 {
        let t = s.drop_last();
        let l = s.last();
        lemma_time_range_exact(t, start, end);
        assert(s =~= t.push(l));
        assert forall|x: ChronoEvent|
            #[trigger] in_tick_range(s, start, end).contains(x) <==> (s.contains(x) && start
                <= x.tick() && x.tick() <= end) by {
            assert(in_tick_range(t, start, end).contains(x) == (t.contains(x) && start
                <= x.tick() && x.tick() <= end));
            lemma_push_contains(t, l, x);
            lemma_push_contains(in_tick_range(t, start, end), l, x);
        }
    }
}

/// A query by identifier keeps exactly the events located at `id`, and
/// nothing else.
pub proof fn lemma_location_exact(s: Seq<ChronoEvent>, id: UvoxId)
    ensures
        forall|x: ChronoEvent|
            #[trigger] at_location(s, id).contains(x) <==> (s.contains(x) && x.id == id),
    decreases s.len(),
{
    if s.len() > 0 {
        let t = s.drop_last();
        let l = s.last();
        lemma_location_exact(t, id);
        assert(s =~= t.push(l));
        assert forall|x: ChronoEvent|
            #[trigger] at_location(s, id).contains(x) <==> (s.contains(x) && x.id == id) by {
            assert(at_location(t, id).contains(x) == (t.contains(x) && x.id == id));
            lemma_push_contains(t, l, x);
            lemma_push_contains(at_location(t, id), l, x);
        }
    }
}

/// An event other than `Spawn` for an entity that the processed prefix never
/// spawned leaves the whole state map unchanged.
pub proof fn lemma_missing_entity_unchanged(prefix: Seq<ChronoEvent>, e: ChronoEvent)
    requires
        !replay(prefix).contains_key(e.id),
        !(e.kind is Spawn),
    ensures
        replay(prefix.push(e)) == replay(prefix),
{
    assert(prefix.push(e).drop_last() =~= prefix);
}

/// A second `Spawn` of an entity, after a move, resets its state: the
/// position is back at the origin and the move's effect is gone.
pub proof fn lemma_respawn_resets(
    prefix: Seq<ChronoEvent>,
    first: ChronoEvent,
    step: ChronoEvent,
    second: ChronoEvent,
)
    requires
        first.kind is Spawn,
        step.kind is Move,
        second.kind is Spawn,
        first.id == step.id,
        step.id == second.id,
    ensures
        replay(prefix.push(first).push(step).push(second))[second.id] == fresh_state(),
        replay(prefix.push(first).push(step).push(second))[second.id].pos == (Cartesian {
            x: 0,
            y: 0,
            z: 0,
        }),
{
    let s = prefix.push(first).push(step).push(second);
    assert(s.drop_last() =~= prefix.push(first).push(step));
}

} // verus!

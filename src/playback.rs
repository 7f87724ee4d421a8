//! The two reconstruction engines: full playback, and playback up to a
//! cutoff tick with interpolation of an in-flight move.
use vstd::prelude::*;

use crate::event::{Cartesian, ChronoEvent, EventKind, UvoxId};
use crate::state::{EntityState, StateMap};
use crate::timeline::Timeline;

verus! {

/// Temperature of a freshly spawned entity: 20 degrees Celsius.
pub const ROOM_TEMPERATURE: i64 = 20_000_000;

/// Pressure of a freshly spawned entity: one standard atmosphere.
pub const STANDARD_PRESSURE: i64 = 101_325_000_000;

/// `v` clamped to the range of `i64`.
pub open spec fn clamp(v: int) -> i64 {
    if v > i64::MAX {
        i64::MAX
    } else if v < i64::MIN {
        i64::MIN
    } else {
        v as i64
    }
}

/// Component-wise saturating sum.
pub open spec fn offset_by(p: Cartesian, d: Cartesian) -> Cartesian {
    Cartesian { x: clamp(p.x + d.x), y: clamp(p.y + d.y), z: clamp(p.z + d.z) }
}

/// The state that a `Spawn` creates: at the origin, alive, at room
/// temperature and standard pressure.
pub open spec fn fresh_state() -> EntityState {
    EntityState {
        pos: Cartesian { x: 0, y: 0, z: 0 },
        alive: true,
        temperature: ROOM_TEMPERATURE,
        pressure: STANDARD_PRESSURE,
    }
}

/// What an event of kind `k` does to an existing state. `Spawn` is handled
/// by `apply`; the extension kinds and `Custom` leave the state as it is.
pub open spec fn effect(s: EntityState, k: EventKind) -> EntityState {
    match k {
        EventKind::Despawn => EntityState { alive: false, ..s },
        EventKind::Move { offset } => EntityState { pos: offset_by(s.pos, offset), ..s },
        EventKind::Teleport { new_pos } => EntityState { pos: new_pos, ..s },
        EventKind::TemperatureChange { delta_c } => EntityState {
            temperature: clamp(s.temperature + delta_c),
            ..s
        },
        EventKind::PressureChange { delta_pa } => EntityState {
            pressure: clamp(s.pressure + delta_pa),
            ..s
        },
        _ => s,
    }
}

/// One step of the fold: a `Spawn` (re)creates the entity's state; any other
/// event changes an existing state and is ignored for an unknown entity.
pub open spec fn apply(m: Map<UvoxId, EntityState>, e: ChronoEvent) -> Map<UvoxId, EntityState> {
    if e.kind is Spawn {
        m.insert(e.id, fresh_state())
    } else if m.contains_key(e.id) {
        m.insert(e.id, effect(m[e.id], e.kind))
    } else {
        m
    }
}

/// The fold of `apply` over `s`, from an empty map, in order.
pub open spec fn replay(s: Seq<ChronoEvent>) -> Map<UvoxId, EntityState>
    decreases s.len(),
{
    if s.len() == 0 {
        Map::empty()
    } else {
        apply(replay(s.drop_last()), s.last())
    }
}

/// The index of the first event at or after `i` whose tick exceeds
/// `cutoff`, or the length of `s` if there is none.
pub open spec fn first_after(s: Seq<ChronoEvent>, cutoff: i64, i: int) -> int
    decreases s.len() - i,
{
    if i < 0 || i >= s.len() {
        s.len() as int
    } else if s[i].tick() > cutoff {
        i
    } else {
        first_after(s, cutoff, i + 1)
    }
}

/// The largest index below `j` of an event located at `id`, or -1.
pub open spec fn last_index_at(s: Seq<ChronoEvent>, id: UvoxId, j: int) -> int
    decreases j,
{
    if j <= 0 {
        -1
    } else if s[j - 1].id == id {
        j - 1
    } else {
        last_index_at(s, id, j - 1)
    }
}

/// The point `num / den` of the way from `a` to `b`, rounded toward `a`.
pub open spec fn lerp(a: i64, b: i64, num: int, den: int) -> i64 {
    if b >= a {
        (a + (num * (b - a)) / den) as i64
    } else {
        (a - (num * (a - b)) / den) as i64
    }
}

/// Component-wise `lerp`.
pub open spec fn lerp3(a: Cartesian, b: Cartesian, num: int, den: int) -> Cartesian {
    Cartesian { x: lerp(a.x, b.x, num, den), y: lerp(a.y, b.y, num, den), z: lerp(a.z, b.z, num, den) }
}

/// The correction made when playback stops at `s[k]`, the first event past
/// `cutoff`: if `s[k]` is a move, the last applied event for its entity is a
/// move too, and the entity has a state, its position becomes the point
/// between the two moves' offsets that the cutoff marks between their ticks.
pub open spec fn crossing(
    m: Map<UvoxId, EntityState>,
    s: Seq<ChronoEvent>,
    k: int,
    cutoff: i64,
) -> Map<UvoxId, EntityState> {
    let e = s[k];
    let p = last_index_at(s, e.id, k);
    if p >= 0 && m.contains_key(e.id) {
        match s[p].kind {
            EventKind::Move { offset: a } => match e.kind {
                EventKind::Move { offset: b } => m.insert(
                    e.id,
                    EntityState {
                        pos: lerp3(a, b, cutoff - s[p].tick(), e.tick() - s[p].tick()),
                        ..m[e.id]
                    },
                ),
                _ => m,
            },
            _ => m,
        }
    } else {
        m
    }
}

/// The state of the world at `cutoff`: the fold of the events before the
/// first one past `cutoff`, corrected at that event by `crossing`.
pub open spec fn replay_until(s: Seq<ChronoEvent>, cutoff: i64) -> Map<UvoxId, EntityState> {
    let k = first_after(s, cutoff, 0);
    let m = replay(s.subrange(0, k));
    if k < s.len() {
        crossing(m, s, k, cutoff)
    } else {
        m
    }
}

fn sat_add(a: i64, b: i64) -> (r: i64)
    ensures
        r == clamp(a + b),
{
    let v: i128 = a as i128 + b as i128;
    if v > i64::MAX as i128 {
        i64::MAX
    } else if v < i64::MIN as i128 {
        i64::MIN
    } else {
        v as i64
    }
}

fn fresh() -> (r: EntityState)
    ensures
        r == fresh_state(),
{
    EntityState {
        pos: Cartesian { x: 0, y: 0, z: 0 },
        alive: true,
        temperature: ROOM_TEMPERATURE,
        pressure: STANDARD_PRESSURE,
    }
}

fn effect_of(s: EntityState, k: &EventKind) -> (r: EntityState)
    ensures
        r == effect(s, *k),
{
    match k {
        EventKind::Despawn => EntityState { alive: false, ..s },
        EventKind::Move { offset } => EntityState {
            pos: Cartesian {
                x: sat_add(s.pos.x, offset.x),
                y: sat_add(s.pos.y, offset.y),
                z: sat_add(s.pos.z, offset.z),
            },
            ..s
        },
        EventKind::Teleport { new_pos } => EntityState { pos: *new_pos, ..s },
        EventKind::TemperatureChange { delta_c } => EntityState {
            temperature: sat_add(s.temperature, *delta_c),
            ..s
        },
        EventKind::PressureChange { delta_pa } => EntityState {
            pressure: sat_add(s.pressure, *delta_pa),
            ..s
        },
        _ => s,
    }
}

/// Applies one event to `m` as the fold does.
pub fn apply_event(m: &mut StateMap, e: &ChronoEvent)
    requires
        old(m).wf(),
    ensures
        final(m).wf(),
        final(m)@ == apply(old(m)@, *e),
{
    match &e.kind {
        EventKind::Spawn => {
            m.set(e.id, fresh());
        },
        _ => {
            match m.get(&e.id) {
                Some(s) => {
                    let next = effect_of(*s, &e.kind);
                    m.set(e.id, next);
                },
                None => {},
            }
        },
    }
}

proof fn lemma_replay_step(s: Seq<ChronoEvent>, i: int)
    requires
        0 <= i < s.len(),
    ensures
        replay(s.subrange(0, i + 1)) == apply(replay(s.subrange(0, i)), s[i]),
{
    assert(s.subrange(0, i + 1).drop_last() =~= s.subrange(0, i));
}

/// `lerp` on machine integers; `num / den` lies in `[0, 1)`.
fn lerp_exec(a: i64, b: i64, num: u128, den: u128) -> (r: i64)
    requires
        num < den,
        den <= u64::MAX,
    ensures
        r == lerp(a, b, num as int, den as int),
{
    let d: u128 = if b >= a {
        (b as i128 - a as i128) as u128
    } else {
        (a as i128 - b as i128) as u128
    };
    proof {
        assert(num * d <= (u64::MAX as int) * (u64::MAX as int)) by (nonlinear_arith)
            requires
                0 <= num <= u64::MAX,
                0 <= d <= u64::MAX,
        ;
        assert(num * d <= den * d) by (nonlinear_arith)
            requires
                0 <= num < den,
                0 <= d,
        ;
        vstd::arithmetic::div_mod::lemma_div_is_ordered((num * d) as int, (den * d) as int, den as int);
        vstd::arithmetic::div_mod::lemma_div_multiples_vanish(d as int, den as int);
        assert((den * d) as int == den as int * d as int);
        assert(d as int * den as int == den as int * d as int) by (nonlinear_arith);
    }
    let q: u128 = num * d / den;
    if b >= a {
        (a as i128 + q as i128) as i64
    } else {
        (a as i128 - q as i128) as i64
    }
}

/// The index of the last event located at `id` among the first `k`.
fn last_index_before(events: &Vec<ChronoEvent>, id: &UvoxId, k: usize) -> (r: Option<usize>)
    requires
        k <= events@.len(),
    ensures
        r is None ==> last_index_at(events@, *id, k as int) == -1,
        r matches Some(p) ==> p < k && p as int == last_index_at(events@, *id, k as int),
{
    let mut j: usize = k;
    while j > 0
        invariant
            0 <= j <= k <= events@.len(),
            last_index_at(events@, *id, k as int) == last_index_at(events@, *id, j as int),
        decreases j,
    {
        if events[j - 1].id == *id {
            return Some(j - 1);
        }
        j = j - 1;
    }
    None
}

impl Timeline {
    /// Folds every event, in stored order, into a map from identifier to
    /// state.
    pub fn playback(&self) -> (r: StateMap)
        ensures
            r.wf(),
            r@ == replay(self.events@),
    {
        let mut m = StateMap::new();
        let mut i: usize = 0;
        while i < self.events.len()
            invariant
                0 <= i <= self.events@.len(),
                m.wf(),
                m@ == replay(self.events@.subrange(0, i as int)),
            decreases self.events@.len() - i,
        {
            proof {
                lemma_replay_step(self.events@, i as int);
            }
            apply_event(&mut m, &self.events[i]);
            i = i + 1;
        }
        proof {
            assert(self.events@ =~= self.events@.subrange(0, self.events@.len() as int));
        }
        m
    }

    /// The state of the world at `cutoff_ns`: events are applied in stored
    /// order up to the first one whose tick exceeds the cutoff; if that event
    /// and the last applied event of the same entity are both moves, the
    /// entity's position is set to the point between their offsets that the
    /// cutoff marks between their ticks. Meaningful on a tick-sorted timeline.
    pub fn playback_until(&self, cutoff_ns: i64) -> (r: StateMap)
        ensures
            r.wf(),
            r@ == replay_until(self.events@, cutoff_ns),
    {
        let ghost s = self.events@;
        let n = self.events.len();
        let mut m = StateMap::new();
        let mut i: usize = 0;
        while i < n && self.events[i].t.nanos <= cutoff_ns
            invariant
                0 <= i <= n,
                n == s.len(),
                s == self.events@,
                m.wf(),
                m@ == replay(s.subrange(0, i as int)),
                forall|j: int| 0 <= j < i ==> s[j].tick() <= cutoff_ns,
                first_after(s, cutoff_ns, 0) == first_after(s, cutoff_ns, i as int),
            decreases n - i,
        {
            proof {
                lemma_replay_step(s, i as int);
            }
            apply_event(&mut m, &self.events[i]);
            i = i + 1;
        }
        assert(first_after(s, cutoff_ns, 0) == i);
        if i < n {
            let e = &self.events[i];
            if let EventKind::Move { offset: b } = &e.kind {
                if let Some(p) = last_index_before(&self.events, &e.id, i) {
                    let prev = &self.events[p];
                    if let EventKind::Move { offset: a } = &prev.kind {
                        if let Some(st) = m.get(&e.id) {
                            let num = (cutoff_ns as i128 - prev.t.nanos as i128) as u128;
                            let den = (e.t.nanos as i128 - prev.t.nanos as i128) as u128;
                            let pos = Cartesian {
                                x: lerp_exec(a.x, b.x, num, den),
                                y: lerp_exec(a.y, b.y, num, den),
                                z: lerp_exec(a.z, b.z, num, den),
                            };
                            let next = EntityState { pos, ..*st };
                            m.set(e.id, next);
                        }
                    }
                }
            }
        }
        m
    }
}

} // verus!

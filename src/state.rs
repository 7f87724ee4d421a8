//! Per-entity derived state, and the map from identifier to state that the
//! playback engines build.
use vstd::prelude::*;

use crate::event::{Cartesian, UvoxId};

verus! {

/// What playback knows of one entity.
#[derive(Clone, Copy, Debug, PartialEq, Eq, Structural)]
pub struct EntityState {
    pub pos: Cartesian,
    pub alive: bool,
    /// Degrees Celsius, fixed-point millionths.
    pub temperature: i64,
    /// Pascals, fixed-point millionths.
    pub pressure: i64,
}

/// A map from identifier to entity state, each identifier at most once, in
/// the order in which identifiers were first added.
pub struct StateMap {
    entries: Vec<(UvoxId, EntityState)>,
    model: Ghost<Map<UvoxId, EntityState>>,
}

impl View for StateMap {
    type V = Map<UvoxId, EntityState>;

    closed spec fn view(&self) -> Map<UvoxId, EntityState> {
        self.model@
    }
}

impl StateMap {
    /// Entries have distinct identifiers and agree with the model, which
    /// holds no other key.
    pub closed spec fn wf(&self) -> bool {
        &&& forall|i: int, j: int|
            0 <= i < j < self.entries@.len() ==> self.entries@[i].0 != self.entries@[j].0
        &&& forall|i: int|
            0 <= i < self.entries@.len() ==> {
                &&& #[trigger] self.model@.contains_key(self.entries@[i].0)
                &&& self.model@[self.entries@[i].0] == self.entries@[i].1
            }
        &&& forall|k: UvoxId| #[trigger]
            self.model@.contains_key(k) ==> exists|i: int|
                0 <= i < self.entries@.len() && #[trigger] self.entries@[i].0 == k
    }

    pub fn new() -> (r: StateMap)
        ensures
            r.wf(),
            r@ == Map::<UvoxId, EntityState>::empty(),
    {
        StateMap { entries: Vec::new(), model: Ghost(Map::empty()) }
    }

    fn find(&self, id: &UvoxId) -> (r: Option<usize>)
        requires
            self.wf(),
        ensures
            r is None <==> !self@.contains_key(*id),
            r matches Some(i) ==> i < self.entries@.len() && self.entries@[i as int].0 == *id,
    {
        let mut i: usize = 0;
        while i < self.entries.len()
            invariant
                0 <= i <= self.entries@.len(),
                self.wf(),
                forall|m: int| 0 <= m < i ==> self.entries@[m].0 != *id,
            decreases self.entries@.len() - i,
        {
            if self.entries[i].0 == *id {
                assert(self.model@.contains_key(self.entries@[i as int].0));
                return Some(i);
            }
            i = i + 1;
        }
        None
    }

    /// The state recorded for `id`, if any.
    pub fn get(&self, id: &UvoxId) -> (r: Option<&EntityState>)
        requires
            self.wf(),
        ensures
            r is Some <==> self@.contains_key(*id),
            r matches Some(s) ==> *s == self@[*id],
    {
        match self.find(id) {
            Some(i) => Some(&self.entries[i].1),
            None => None,
        }
    }

    /// Whether a state is recorded for `id`.
    pub fn contains(&self, id: &UvoxId) -> (r: bool)
        requires
            self.wf(),
        ensures
            r == self@.contains_key(*id),
    {
        self.find(id).is_some()
    }

    /// Records `state` for `id`, replacing any earlier state.
    pub fn set(&mut self, id: UvoxId, state: EntityState)
        requires
            old(self).wf(),
        ensures
            final(self).wf(),
            final(self)@ == old(self)@.insert(id, state),
    {
        let ghost at: int;
        match self.find(&id) {
            Some(i) => {
                self.entries.set(i, (id, state));
                proof {
                    at = i as int;
                }
            },
            None => {
                self.entries.push((id, state));
                proof {
                    at = self.entries@.len() - 1;
                }
            },
        }
        self.model = Ghost(self.model@.insert(id, state));
        proof {
            let oe = old(self).entries@;
            let ne = self.entries@;
            assert(ne[at].0 == id);
            assert forall|i: int| 0 <= i < ne.len() && i != at implies ne[i] == oe[i] && ne[i].0
                != id by {
                if i < oe.len() && oe[i].0 == id {
                    assert(old(self).model@.contains_key(oe[i].0));
                }
            }
            assert forall|i: int, j: int| 0 <= i < j < ne.len() implies ne[i].0 != ne[j].0 by {}
            assert forall|i: int| 0 <= i < ne.len() implies {
                &&& #[trigger] self.model@.contains_key(ne[i].0)
                &&& self.model@[ne[i].0] == ne[i].1
            } by {
                if i != at {
                    assert(old(self).model@.contains_key(oe[i].0));
                }
            }
            assert forall|k: UvoxId| #[trigger]
                self.model@.contains_key(k) implies exists|i: int|
                    0 <= i < self.entries@.len() && #[trigger] self.entries@[i].0 == k by {
                if k == id {
                    assert(self.entries@[at].0 == k);
                } else {
                    assert(old(self).model@.contains_key(k));
                    let w = choose|i: int|
                        0 <= i < old(self).entries@.len() && old(self).entries@[i].0 == k;
                    assert(self.entries@[w].0 == k);
                }
            }
        }
    }
}

} // verus!

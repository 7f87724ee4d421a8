//! Events: where, when and what happened.
use vstd::prelude::*;

verus! {

/// Number of fixed-point steps in one whole unit: every scalar of this crate
/// counts millionths (a position of `5 * SCALE` is five units along the axis).
pub const SCALE: i64 = 1_000_000;

/// Declares `serde_json::Value`, carried through events as an opaque payload.
#[verifier::external_type_specification]
#[verifier::external_body]
pub struct ExJsonValue(serde_json::Value);

/// A spatial identifier: reference frame, radius in micrometres and two
/// angular codes. Two identifiers name the same entity iff all fields agree.
#[derive(Clone, Copy, Debug, PartialEq, Eq, Hash, Structural)]
pub struct UvoxId {
    pub frame_id: u64,
    pub r_um: u64,
    pub lat_code: i64,
    pub lon_code: i64,
}

impl UvoxId {
    pub fn new(frame_id: u64, r_um: u64, lat_code: i64, lon_code: i64) -> (r: UvoxId)
        ensures
            r == (UvoxId { frame_id, r_um, lat_code, lon_code }),
    {
        UvoxId { frame_id, r_um, lat_code, lon_code }
    }

    /// An identifier in the Earth frame (frame 0).
    pub fn earth(r_um: u64, lat_code: i64, lon_code: i64) -> (r: UvoxId)
        ensures
            r == (UvoxId { frame_id: 0, r_um, lat_code, lon_code }),
    {
        UvoxId { frame_id: 0, r_um, lat_code, lon_code }
    }
}

/// An instant, as a signed count of nanosecond ticks.
#[derive(Clone, Copy, Debug, PartialEq, Eq, Hash, Structural)]
pub struct TimeDelta {
    pub nanos: i64,
}

impl TimeDelta {
    pub fn from_nanos(nanos: i64) -> (r: TimeDelta)
        ensures
            r.nanos == nanos,
    {
        TimeDelta { nanos }
    }

    /// The tick count in nanoseconds.
    pub fn ticks(&self) -> (r: i64)
        ensures
            r == self.nanos,
    {
        self.nanos
    }

    /// The instant now, measured from the Unix epoch.
    pub fn from_now() -> (r: TimeDelta) {
        TimeDelta { nanos: nanos_since_epoch() }
    }
}

/// Relies on `tdt::core::TimeDelta::from_now` and `ticks("nanoseconds")`:
/// the nanoseconds from the Unix epoch to the current clock reading. Nothing
/// is promised of the value, which depends on the clock.
#[verifier::external_body]
fn nanos_since_epoch() -> (r: i64) {
    tdt::core::TimeDelta::from_now().ticks("nanoseconds")
}

/// A vector of three fixed-point components (millionths of a unit).
#[derive(Clone, Copy, Debug, PartialEq, Eq, Hash, Structural)]
pub struct Cartesian {
    pub x: i64,
    pub y: i64,
    pub z: i64,
}

impl Cartesian {
    pub fn new(x: i64, y: i64, z: i64) -> (r: Cartesian)
        ensures
            r == (Cartesian { x, y, z }),
    {
        Cartesian { x, y, z }
    }

    pub fn origin() -> (r: Cartesian)
        ensures
            r == (Cartesian { x: 0, y: 0, z: 0 }),
    {
        Cartesian { x: 0, y: 0, z: 0 }
    }
}

/// What happened to an entity. Peer identifiers are UUIDs held as their
/// 128-bit value; scalars are fixed-point millionths.
#[derive(Clone, Debug, PartialEq, Eq)]
pub enum EventKind {
    Spawn,
    Despawn,
    Move { offset: Cartesian },
    Teleport { new_pos: Cartesian },
    TemperatureChange { delta_c: i64 },
    PressureChange { delta_pa: i64 },
    Radiation { dose: i64 },
    Shock { g: i64 },
    Degrade { rate: i64 },
    Leak { severity: i64 },
    Fracture { plane: String },
    Bond { with: u128 },
    Unbond { from: u128 },
    Transfer { to: u128, what: String, amount: i64 },
    Custom(String),
}

/// Something that happened at a place and an instant, with an optional
/// payload that the engines never read.
#[derive(Clone, Debug)]
pub struct ChronoEvent {
    pub id: UvoxId,
    pub t: TimeDelta,
    pub kind: EventKind,
    pub payload: Option<serde_json::Value>,
}

impl ChronoEvent {
    pub fn new(id: UvoxId, t: TimeDelta, kind: EventKind) -> (r: ChronoEvent)
        ensures
            r == (ChronoEvent { id, t, kind, payload: None }),
    {
        ChronoEvent { id, t, kind, payload: None }
    }

    /// The tick count of the event's instant.
    pub open spec fn tick(&self) -> i64 {
        self.t.nanos
    }

    /// A `Spawn` at the identifier of frame 1 with all other fields zero,
    /// stamped with the current instant, without payload.
    pub fn dummy() -> (r: ChronoEvent)
        ensures
            r.id == (UvoxId { frame_id: 1, r_um: 0, lat_code: 0, lon_code: 0 }),
            r.kind == EventKind::Spawn,
            r.payload is None,
    {
        ChronoEvent {
            id: UvoxId { frame_id: 1, r_um: 0, lat_code: 0, lon_code: 0 },
            t: TimeDelta::from_now(),
            kind: EventKind::Spawn,
            payload: None,
        }
    }
}

/// Events compare by tick alone: two events at the same instant are equal
/// for ordering purposes whatever their location or kind.
impl PartialEq for ChronoEvent {
    fn eq(&self, other: &ChronoEvent) -> (r: bool) {
        self.t.nanos == other.t.nanos
    }
}

impl vstd::std_specs::cmp::PartialEqSpecImpl for ChronoEvent {
    open spec fn obeys_eq_spec() -> bool {
        true
    }

    open spec fn eq_spec(&self, other: &ChronoEvent) -> bool {
        self.t.nanos == other.t.nanos
    }
}

/// Events are ordered by tick alone.
impl PartialOrd for ChronoEvent {
    fn partial_cmp(&self, other: &ChronoEvent) -> (r: Option<core::cmp::Ordering>) {
        if self.t.nanos < other.t.nanos {
            Some(core::cmp::Ordering::Less)
        } else if self.t.nanos > other.t.nanos {
            Some(core::cmp::Ordering::Greater)
        } else {
            Some(core::cmp::Ordering::Equal)
        }
    }
}

impl vstd::std_specs::cmp::PartialOrdSpecImpl for ChronoEvent {
    open spec fn obeys_partial_cmp_spec() -> bool {
        true
    }

    open spec fn partial_cmp_spec(&self, other: &ChronoEvent) -> Option<core::cmp::Ordering> {
        if self.t.nanos < other.t.nanos {
            Some(core::cmp::Ordering::Less)
        } else if self.t.nanos > other.t.nanos {
            Some(core::cmp::Ordering::Greater)
        } else {
            Some(core::cmp::Ordering::Equal)
        }
    }
}

} // verus!

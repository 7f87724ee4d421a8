//! Reconstruction of entity state from an append-only log of located,
//! timestamped events.
//!
//! A [`Timeline`] holds [`ChronoEvent`]s; it can be kept in tick order by
//! sorted insertion, filtered by tick range or by location, and folded into a
//! [`StateMap`] either over its whole length or up to a cutoff tick, with
//! linear interpolation of an in-flight move across the cutoff.
//!
//! Scalars (positions, offsets, temperatures, pressures and the extension
//! quantities) are fixed-point integers counting millionths of a unit; see
//! [`SCALE`].
pub mod event;
pub mod laws;
pub mod persist;
pub mod playback;
pub mod state;
pub mod timeline;

pub use event::{Cartesian, ChronoEvent, EventKind, TimeDelta, UvoxId, SCALE};
pub use state::{EntityState, StateMap};
pub use playback::{ROOM_TEMPERATURE, STANDARD_PRESSURE};
pub use persist::{event_id_from, event_id_from_parsed, ChronovoxError};
pub use timeline::Timeline;




//! A verified model of the Temporal.Instant and Temporal.ZonedDateTime
//! built-ins of an ECMAScript engine heap: handles into the heap, the
//! abstract operations that read options objects, and the calls into
//! `temporal_rs` that compute with instants.
pub mod conversion;
pub mod duration;
pub mod gc;
pub mod heap;
pub mod instant;
pub mod options;
pub mod temporal;
pub mod value;
pub mod zoned_date_time;

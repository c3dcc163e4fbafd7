//! A deterministic, interval-based timer that produces timestamped events on a
//! logical clock, with an optional inclusive stop time and explicit cancellation.

pub mod ids;
pub mod event;
pub mod timer;
pub mod laws;

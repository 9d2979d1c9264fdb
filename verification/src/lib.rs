//! Core logic of a small time-zone conversion utility.
//!
//! The library normalizes user-entered clock values into the canonical
//! 24-hour wire format, builds the outbound request payload for the remote
//! conversion service, and turns the service's response back into the
//! 12-hour display strings that the surrounding application shows.

pub mod clock;
pub mod date;
pub mod digits;
pub mod jsonval;
pub mod request;
pub mod response;
pub mod ui;

//! Controller-state pipeline and wire protocol of a hand-held vehicle controller.
//!
//! The crate holds the parts of the controller that decide something: the
//! eight-byte wire format, the sampling rules (debounce, latch, change
//! detection) and the composition of the frames that follow a snapshot.
//! Reading pins, waiting and broadcasting are left to the caller.

pub mod esda_controls;
pub mod esda_interface;
pub mod esda_wireless;
pub mod peripheral_extensions;

//! Userspace translator core for a graphics-tablet input device: decodes
//! fixed-layout 64-byte reports and turns them into semantic input events
//! (key presses, stylus buttons, absolute axes, pressure, touch) for a
//! virtual input device sink.
//!
//! The crate holds the report decoder and the stateful edge-detecting
//! dispatcher. Opening the USB device and registering virtual input devices
//! are left to the surrounding program; the dispatcher hands back the exact
//! sequence of (kind, code, value) triples to emit on each sink.

pub mod dispatcher;
pub mod events;
pub mod laws;
pub mod mapping;
pub mod report;

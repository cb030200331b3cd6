//! Input-merge engine for combining several physical gamepads into one
//! virtual controller: the per-axis and per-frame merge policy, the
//! slot-discovery and validation rules, and the per-tick merge step of the
//! poll loop. All I/O (querying physical pads, publishing the virtual pad)
//! is left to the surrounding program, which hands this library plain values.

pub mod discovery;
pub mod merge;
pub mod pad;
pub mod refresh;

//! Real-time engine for an instrument built from floppy-disk drives.
//!
//! The library holds the device-side logic: musical notes and their pitch in
//! scheduler ticks, the per-drive step/direction synthesis, the shift-register
//! output model, the length-prefixed message framing, the connection state
//! machine with its routing table, and the tick scheduler's deadline rule.
//! On the host side it turns the tracks of a MIDI file into one stream of
//! note events at absolute times.
use vstd::prelude::*;

pub mod client;
pub mod floppy_drive;
pub mod midi;
pub mod framing;
pub mod note;
pub mod proto;
pub mod roster;
pub mod scheduler;
pub mod shift_register;

verus! {

/// Period of the real-time scheduler, in microseconds.
pub const TIMER_RESOLUTION_US: u64 = 20;

} // verus!

//! Messages exchanged between the host and the device.
use vstd::prelude::*;
use std::collections::BTreeMap;

verus! {

/// A message from the host to the device.
#[derive(Debug)]
pub enum FloppierS2CMessage {
    Hello,
    SetConfig(SetConfig),
    MidiEvent(MidiEvent),
    End,
}

/// A message from the device to the host.
#[derive(Clone, Debug, PartialEq, Eq)]
pub enum FloppierC2SMessage {
    HelloAck,
    SetConfigAck,
    Ready,
    MidiEventAck,
    EndAck,
    Error(String),
}

/// Routing of notes: track number, then channel number, to drive indices.
pub type TrackMap = BTreeMap<u16, BTreeMap<u8, Vec<u8>>>;

/// The configuration of a session.
#[derive(Debug)]
pub struct SetConfig {
    /// Strategy to use to resolve parallel notes.
    pub parallel_mode: ParallelMode,
    /// Whether the drive heads sweep across the disk while playing.
    pub movement: bool,
    /// The number of drives in the stack.
    pub drive_count: u8,
    /// Map of track numbers to tracks, which map channel numbers to drives.
    pub tracks: TrackMap,
}

/// Strategy to resolve notes that sound together.
#[derive(Clone, Copy, Debug, PartialEq, Eq, Structural)]
pub enum ParallelMode {
    /// Use only the first note in the chord.
    Collapse,
    /// Synthesize a chord by combining the notes.
    Synthesize,
    /// Distribute the notes across the available drives.
    Distribute,
}

impl Default for ParallelMode {
    fn default() -> (r: ParallelMode)
        ensures
            r == ParallelMode::Collapse,
    {
        ParallelMode::Collapse
    }
}

/// A MIDI event sent to the device.
#[derive(Clone, Copy, Debug, PartialEq, Eq, Structural)]
pub struct MidiEvent {
    pub track: u16,
    pub channel: u8,
    pub message: LimitedMidiMessage,
}

/// The MIDI messages that can be sent to the device.
#[derive(Clone, Copy, Debug, PartialEq, Eq, Structural)]
pub enum LimitedMidiMessage {
    NoteOn { note: u8, velocity: u8 },
    NoteOff { note: u8, velocity: u8 },
    ProgramChange { program: u8 },
    ControlChange { control: u8, value: u8 },
    PitchBend { value: i16 },
}

} // verus!

//! The chain of SN74HC595 shift registers that carries one byte per drive.
//!
//! Bytes are shifted in most significant bit first; a pulse of the storage
//! clock then makes everything shifted since the last pulse appear on the
//! outputs at once. The output-enable line is active low.
use crate::floppy_drive::{state_byte, DriveState};
use vstd::prelude::*;

verus! {

/// Number of registers in a full chain.
pub const CHAIN_LENGTH: usize = 8;

/// Bit `i` of a byte.
pub open spec fn bit(b: u8, i: u8) -> bool {
    (b >> i) & 1 == 1
}

/// The byte with its bits in reverse order: the drive wiring takes the bits
/// of a drive's byte in the opposite order to the one they are shifted in.
pub open spec fn reversed_bits(b: u8) -> u8 {
    ((b & 1) << 7u8) | ((b & 2) << 5u8) | ((b & 4) << 3u8) | ((b & 8) << 1u8) | ((b & 16) >> 1u8)
        | ((b & 32) >> 3u8) | ((b & 64) >> 5u8) | ((b & 128) >> 7u8)
}

/// Reverses the order of the bits of a byte.
pub fn reverse_bits(b: u8) -> (r: u8)
    ensures
        r == reversed_bits(b),
        forall|i: u8| i < 8 ==> bit(r, i) == bit(b, (7 - i) as u8),
{
    let r = ((b & 1) << 7u8) | ((b & 2) << 5u8) | ((b & 4) << 3u8) | ((b & 8) << 1u8) | ((b & 16)
        >> 1u8) | ((b & 32) >> 3u8) | ((b & 64) >> 5u8) | ((b & 128) >> 7u8);
    assert(forall|i: u8| i < 8 ==> ((r >> i) & 1 == 1) == ((b >> (7 - i) as u8) & 1 == 1))
        by (bit_vector)
        requires
            r == ((b & 1) << 7u8) | ((b & 2) << 5u8) | ((b & 4) << 3u8) | ((b & 8) << 1u8) | ((b
                & 16) >> 1u8) | ((b & 32) >> 3u8) | ((b & 64) >> 5u8) | ((b & 128) >> 7u8),
    ;
    r
}

/// The state of the register chain: whether the outputs are enabled, the
/// bytes shifted in since the last latch, in the order they were shifted,
/// and the bytes on the outputs.
pub struct ShiftRegisterView {
    pub output_enabled: bool,
    pub shifted: Seq<u8>,
    pub latched: Seq<u8>,
}

/// The register chain, as seen from the scheduler.
pub struct SN74HC595 {
    output_enabled: bool,
    shifted: Vec<u8>,
    latched: Vec<u8>,
}

impl View for SN74HC595 {
    type V = ShiftRegisterView;

    closed spec fn view(&self) -> ShiftRegisterView {
        ShiftRegisterView {
            output_enabled: self.output_enabled,
            shifted: self.shifted@,
            latched: self.latched@,
        }
    }
}

impl SN74HC595 {
    /// A chain with its outputs disabled and nothing shifted or latched.
    pub fn new() -> (r: SN74HC595)
        ensures
            r@ == (ShiftRegisterView {
                output_enabled: false,
                shifted: Seq::empty(),
                latched: Seq::empty(),
            }),
    {
        SN74HC595 { output_enabled: false, shifted: Vec::new(), latched: Vec::new() }
    }

    /// Enables or disables all outputs at once.
    pub fn set_output_enabled(&mut self, enabled: bool)
        ensures
            final(self)@ == (ShiftRegisterView { output_enabled: enabled, ..old(self)@ }),
    {
        self.output_enabled = enabled;
    }

    /// Level of the active-low output-enable line: high while the outputs
    /// are disabled.
    pub fn output_enable_level(&self) -> (r: bool)
        ensures
            r == !self@.output_enabled,
    {
        !self.output_enabled
    }

    /// Shifts one drive's byte into the chain, in the bit order the wiring
    /// needs.
    pub fn write_byte(&mut self, data: u8)
        ensures
            final(self)@ == (ShiftRegisterView {
                shifted: old(self)@.shifted.push(reversed_bits(data)),
                ..old(self)@
            }),
    {
        let b = reverse_bits(data);
        self.shifted.push(b);
    }

    /// Pulses the storage clock: what was shifted in since the last pulse
    /// appears on the outputs.
    pub fn pulse_storage_clock(&mut self)
        ensures
            final(self)@ == (ShiftRegisterView {
                shifted: Seq::empty(),
                latched: old(self)@.shifted,
                ..old(self)@
            }),
    {
        let mut shifted: Vec<u8> = Vec::new();
        core::mem::swap(&mut shifted, &mut self.shifted);
        self.latched = shifted;
    }

    /// Shifts the same byte into every register of a full chain.
    pub fn write_byte_to_all(&mut self, data: u8)
        ensures
            final(self)@.output_enabled == old(self)@.output_enabled,
            final(self)@.latched == old(self)@.latched,
            final(self)@.shifted == old(self)@.shifted + Seq::new(
                CHAIN_LENGTH as nat,
                |i: int| reversed_bits(data),
            ),
    {
        let mut i: usize = 0;
        while i < CHAIN_LENGTH
            invariant
                i <= CHAIN_LENGTH,
                self@.output_enabled == old(self)@.output_enabled,
                self@.latched == old(self)@.latched,
                self@.shifted == old(self)@.shifted + Seq::new(
                    i as nat,
                    |k: int| reversed_bits(data),
                ),
            decreases CHAIN_LENGTH - i,
        {
            self.write_byte(data);
            i = i + 1;
            proof {
                assert(self@.shifted =~= old(self)@.shifted + Seq::new(
                    i as nat,
                    |k: int| reversed_bits(data),
                ));
            }
        }
    }

    /// Shifts one byte into each register of a full chain, in order.
    pub fn write_bytes(&mut self, data: &[u8; 8])
        ensures
            final(self)@.output_enabled == old(self)@.output_enabled,
            final(self)@.latched == old(self)@.latched,
            final(self)@.shifted == old(self)@.shifted + data@.map_values(
                |b: u8| reversed_bits(b),
            ),
    {
        let mut i: usize = 0;
        while i < CHAIN_LENGTH
            invariant
                i <= CHAIN_LENGTH,
                data@.len() == CHAIN_LENGTH,
                self@.output_enabled == old(self)@.output_enabled,
                self@.latched == old(self)@.latched,
                self@.shifted == old(self)@.shifted + data@.subrange(0, i as int).map_values(
                    |b: u8| reversed_bits(b),
                ),
            decreases CHAIN_LENGTH - i,
        {
            self.write_byte(data[i]);
            i = i + 1;
            proof {
                assert(self@.shifted =~= old(self)@.shifted + data@.subrange(
                    0,
                    i as int,
                ).map_values(|b: u8| reversed_bits(b)));
            }
        }
        proof {
            assert(data@.subrange(0, CHAIN_LENGTH as int) =~= data@);
        }
    }

    /// Shifts the same drive state into each of `count` drives' registers,
    /// then latches, so that every drive shows it at once.
    pub fn latch_state_to_all(&mut self, state: DriveState, count: usize)
        ensures
            final(self)@ == (ShiftRegisterView {
                shifted: Seq::empty(),
                latched: old(self)@.shifted + Seq::new(
                    count as nat,
                    |i: int| reversed_bits(state_byte(state)),
                ),
                ..old(self)@
            }),
    {
        let byte = state.to_byte();
        let mut i: usize = 0;
        while i < count
            invariant
                i <= count,
                byte == state_byte(state),
                self@.output_enabled == old(self)@.output_enabled,
                self@.latched == old(self)@.latched,
                self@.shifted == old(self)@.shifted + Seq::new(
                    i as nat,
                    |k: int| reversed_bits(state_byte(state)),
                ),
            decreases count - i,
        {
            self.write_byte(byte);
            i = i + 1;
            proof {
                assert(self@.shifted =~= old(self)@.shifted + Seq::new(
                    i as nat,
                    |k: int| reversed_bits(state_byte(state)),
                ));
            }
        }
        self.pulse_storage_clock();
    }

    /// The bytes on the outputs, in the order they were shifted in.
    pub fn outputs(&self) -> (r: Vec<u8>)
        ensures
            r@ == self@.latched,
    {
        self.latched.clone()
    }
}

} // verus!

//! Musical notes identified by their MIDI key number.
use vstd::arithmetic::power2::{lemma_pow2_pos, lemma_pow2_strictly_increases, pow2};
use vstd::prelude::*;

verus! {

/// Highest key number that MIDI can express.
pub const MAX_KEY: u8 = 127;

/// Lowest key that a drive can sound (C1, about 33 Hz).
pub const LOWEST_PLAYABLE_KEY: u8 = 24;

/// Highest key that a drive can sound (B5, about 988 Hz).
pub const HIGHEST_PLAYABLE_KEY: u8 = 83;

/// Half-period of each pitch class in the lowest MIDI octave (keys 0 to 11),
/// in scheduler ticks scaled by 64: `64 * 25_000 / f`, rounded, for the
/// frequency `f` in Hz of equal temperament with A4 = 440 Hz. One tick is
/// 20 µs, so a half-period of `h` ticks is `25_000 / f`.
pub open spec fn octave_base(pitch_class: nat) -> nat {
    if pitch_class == 0 {
        195700
    } else if pitch_class == 1 {
        184716
    } else if pitch_class == 2 {
        174348
    } else if pitch_class == 3 {
        164563
    } else if pitch_class == 4 {
        155327
    } else if pitch_class == 5 {
        146609
    } else if pitch_class == 6 {
        138380
    } else if pitch_class == 7 {
        130614
    } else if pitch_class == 8 {
        123283
    } else if pitch_class == 9 {
        116364
    } else if pitch_class == 10 {
        109833
    } else {
        103668
    }
}

/// Half-period of a key in scheduler ticks: the octave base halved once per
/// octave above the lowest one, rounded to the nearest tick.
pub open spec fn half_ticks_of(key: nat) -> nat {
    let octave = key / 12;
    ((octave_base(key % 12) + pow2(octave + 5)) / pow2(octave + 6)) as nat
}

/// Whether a drive can sound the key.
pub open spec fn playable_key(key: nat) -> bool {
    LOWEST_PLAYABLE_KEY <= key <= HIGHEST_PLAYABLE_KEY
}

/// A pitch, given by its MIDI key number (0 to 127).
#[derive(Clone, Copy, Debug, PartialEq, Eq, Structural)]
pub struct Note {
    key: u8,
}

impl Note {
    #[verifier::type_invariant]
    spec fn key_in_range(self) -> bool {
        self.key <= MAX_KEY
    }

    /// The key number of the note.
    pub closed spec fn spec_key(self) -> nat {
        self.key as nat
    }

    /// The note of a key number.
    pub closed spec fn spec_from_key(key: u8) -> Note {
        Note { key }
    }

    /// The note for a MIDI key number; `None` above 127.
    pub fn from_key(key: u8) -> (r: Option<Note>)
        ensures
            key <= MAX_KEY <==> r is Some,
            r is Some ==> r == Some(Note::spec_from_key(key)),
            r matches Some(n) ==> n.spec_key() == key,
    {
        if key <= MAX_KEY {
            Some(Note { key })
        } else {
            None
        }
    }

    /// The key number of the note.
    pub fn key(&self) -> (r: u8)
        ensures
            r == self.spec_key(),
            r <= MAX_KEY,
    {
        proof {
            use_type_invariant(self);
        }
        self.key
    }

    /// Whether a drive can sound this note.
    pub fn is_playable(&self) -> (r: bool)
        ensures
            r == playable_key(self.spec_key()),
    {
        LOWEST_PLAYABLE_KEY <= self.key && self.key <= HIGHEST_PLAYABLE_KEY
    }

    /// Number of scheduler ticks per half-period of the note's square wave.
    pub fn half_ticks(&self) -> (r: u32)
        ensures
            r == half_ticks_of(self.spec_key()),
            r >= 1,
    {
        proof {
            use_type_invariant(self);
        }
        let pitch_class = self.key % 12;
        let octave = self.key / 12;
        let base: u32 = octave_base_exec(pitch_class);
        let mut half: u32 = 32;
        let mut i: u8 = 0;
        proof {
            lemma_pow2_16();
        }
        while i < octave
            invariant
                i <= octave <= 10,
                half == pow2(i as nat + 5),
            decreases octave - i,
        {
            proof {
                lemma_pow2_unfold(i as nat + 6);
                lemma_pow2_strictly_increases(i as nat + 6, 16);
                lemma_pow2_16();
            }
            half = half * 2;
            i = i + 1;
        }
        proof {
            lemma_pow2_unfold(octave as nat + 6);
            lemma_pow2_strictly_increases(octave as nat + 6, 17);
            lemma_pow2_16();
            lemma_pow2_unfold(17);
            lemma_pow2_pos(octave as nat + 5);
        }
        let full: u32 = half * 2;
        let r = (base + half) / full;
        proof {
            assert(full <= 65536) by {
                if octave < 10 {
                    lemma_pow2_strictly_increases(octave as nat + 6, 16);
                }
            }
            assert(base >= 65536);
            assert(r >= 1) by (nonlinear_arith)
                requires
                    r as int == (base as int + half as int) / (full as int),
                    full <= 65536,
                    base >= 65536,
                    full > 0,
            ;
        }
        r
    }
}

/// Every key has a half-period of at least one tick and under 4096 ticks.
pub proof fn lemma_half_ticks_positive(key: nat)
    requires
        key <= MAX_KEY,
    ensures
        1 <= half_ticks_of(key) < 4096,
{
    let octave = key / 12;
    let base = octave_base(key % 12);
    lemma_pow2_16();
    lemma_pow2_pos(octave + 5);
    lemma_pow2_unfold(octave + 6);
    if octave < 10 {
        lemma_pow2_strictly_increases(octave + 6, 16);
    }
    let full = pow2(octave + 6);
    let half = pow2(octave + 5);
    assert(base >= 65536);
    assert((base + half) / full >= 1) by (nonlinear_arith)
        requires
            full <= 65536,
            base >= 65536,
            full > 0,
            half >= 0,
    ;
    if octave > 0 {
        lemma_pow2_strictly_increases(6, octave + 6);
    }
    vstd::arithmetic::power2::lemma2_to64();
    assert(half < full);
    assert((base + half) / full < 4096) by (nonlinear_arith)
        requires
            full >= 64,
            base <= 195700,
            half < full,
    ;
}

proof fn lemma_pow2_unfold(e: nat)
    requires
        e >= 1,
    ensures
        pow2(e) == 2 * pow2((e - 1) as nat),
{
    vstd::arithmetic::power2::lemma_pow2_adds((e - 1) as nat, 1);
    vstd::arithmetic::power2::lemma2_to64();
}

proof fn lemma_pow2_16()
    ensures
        pow2(16) == 65536,
        pow2(5) == 32,
{
    vstd::arithmetic::power2::lemma2_to64();
}

fn octave_base_exec(pitch_class: u8) -> (r: u32)
    requires
        pitch_class < 12,
    ensures
        r == octave_base(pitch_class as nat),
        r >= 65536,
{
    match pitch_class {
        0 => 195700,
        1 => 184716,
        2 => 174348,
        3 => 164563,
        4 => 155327,
        5 => 146609,
        6 => 138380,
        7 => 130614,
        8 => 123283,
        9 => 116364,
        10 => 109833,
        _ => 103668,
    }
}

} // verus!

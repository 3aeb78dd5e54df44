//! One floppy drive: turns an optional note into step and direction pulses,
//! one output sample per scheduler tick, while keeping the head in bounds.
use crate::note::{half_ticks_of, lemma_half_ticks_positive, playable_key, Note};
use vstd::prelude::*;

verus! {

/// Number of tracks on a disk.
pub const NUM_TRACKS: u8 = 80;

/// Upper head position when the head sweeps across the disk.
pub const MAX_POSITION_MOVEMENT: u8 = 156;

/// Lower head position when the head sweeps across the disk.
pub const MIN_POSITION_MOVEMENT: u8 = 2;

/// Upper head position when the head dithers around the middle track.
pub const MAX_POSITION_STILL: u8 = 81;

/// Lower head position when the head dithers around the middle track.
pub const MIN_POSITION_STILL: u8 = 79;

/// Direction of head travel.
#[derive(Clone, Copy, Debug, PartialEq, Eq, Structural)]
pub enum Direction {
    Forward,
    Reverse,
}

impl Direction {
    pub open spec fn spec_inverse(self) -> Direction {
        match self {
            Direction::Forward => Direction::Reverse,
            Direction::Reverse => Direction::Forward,
        }
    }

    /// The opposite direction.
    pub fn inverse(self) -> (r: Direction)
        ensures
            r == self.spec_inverse(),
    {
        match self {
            Direction::Forward => Direction::Reverse,
            Direction::Reverse => Direction::Forward,
        }
    }
}

impl Default for Direction {
    fn default() -> (r: Direction)
        ensures
            r == Direction::Forward,
    {
        Direction::Forward
    }
}

/// The output of one drive for one tick.
#[derive(Clone, Copy, Debug, PartialEq, Eq, Structural)]
pub struct DriveState {
    /// Whether the drive's select line is asserted.
    pub drive_select: bool,
    /// Level of the step line.
    pub step: bool,
    /// Level of the direction line.
    pub direction: Direction,
}

/// The bus byte of a drive state: bit 0 is the inverted select line, bit 1
/// the inverted step line and bit 2 the direction (set for `Reverse`); the
/// select and step lines are active low.
pub open spec fn state_byte(s: DriveState) -> u8 {
    ((if s.drive_select { 0u8 } else { 1u8 }) + (if s.step { 0u8 } else { 2u8 }) + (
    if s.direction == Direction::Reverse {
        4u8
    } else {
        0u8
    })) as u8
}

impl DriveState {
    /// Packs the state into its bus byte.
    pub fn to_byte(&self) -> (r: u8)
        ensures
            r == state_byte(*self),
            r < 8,
    {
        let mut byte: u8 = 0;
        if !self.drive_select {
            byte = byte + 1;
        }
        if !self.step {
            byte = byte + 2;
        }
        if self.direction == Direction::Reverse {
            byte = byte + 4;
        }
        byte
    }
}

impl Default for DriveState {
    fn default() -> (r: DriveState)
        ensures
            r == (DriveState { drive_select: false, step: false, direction: Direction::Forward }),
    {
        DriveState { drive_select: false, step: false, direction: Direction::Forward }
    }
}

impl From<DriveState> for u8 {
    fn from(value: DriveState) -> (r: u8) {
        value.to_byte()
    }
}

impl vstd::std_specs::convert::FromSpecImpl<DriveState> for u8 {
    open spec fn obeys_from_spec() -> bool {
        true
    }

    open spec fn from_spec(v: DriveState) -> u8 {
        state_byte(v)
    }
}

/// Lowest head position for the amplitude mode.
pub open spec fn min_position(movement: bool) -> u8 {
    if movement {
        MIN_POSITION_MOVEMENT
    } else {
        MIN_POSITION_STILL
    }
}

/// Highest head position for the amplitude mode.
pub open spec fn max_position(movement: bool) -> u8 {
    if movement {
        MAX_POSITION_MOVEMENT
    } else {
        MAX_POSITION_STILL
    }
}

/// Counter that counts up by one and stays at its largest value.
pub open spec fn count_up(n: u32) -> u32 {
    if n < u32::MAX {
        (n + 1) as u32
    } else {
        n
    }
}

/// The mathematical state of a drive.
pub struct DriveView {
    /// The note being sounded, if any.
    pub note: Option<Note>,
    /// Ticks since the note was set.
    pub note_tick: u32,
    /// Level of the step line.
    pub step: bool,
    /// Ticks since the last step toggle, while selected.
    pub period_tick: u32,
    /// Head position, two units per track.
    pub position: u8,
    /// Direction of head travel.
    pub direction: Direction,
    /// Ticks since the last change of direction.
    pub direction_tick: u32,
    /// Wide sweep (`true`) or narrow dither (`false`).
    pub movement: bool,
}

impl DriveView {
    /// The states that the drive can be in: the head lies within the bounds
    /// of its amplitude mode, and a note held is playable and inside its
    /// half-period.
    pub open spec fn inv(self) -> bool {
        &&& self.in_bounds()
        &&& self.note matches Some(n) ==> {
            &&& playable_key(n.spec_key())
            &&& self.period_tick < half_ticks_of(n.spec_key())
        }
    }

    /// Whether the head lies within the bounds of its amplitude mode.
    pub open spec fn in_bounds(self) -> bool {
        min_position(self.movement) <= self.position <= max_position(self.movement)
    }

    /// The direction after the bounce rule: reverse at or beyond the upper
    /// bound, forward at the lower bound, else unchanged.
    pub open spec fn bounced_direction(self) -> Direction {
        if self.position >= max_position(self.movement) {
            Direction::Reverse
        } else if self.position == min_position(self.movement) {
            Direction::Forward
        } else {
            self.direction
        }
    }

    /// One step toggle: bounce, move the head one unit, flip the step line.
    pub open spec fn toggled(self) -> DriveView {
        let bounce = self.position >= max_position(self.movement) || self.position == min_position(
            self.movement,
        );
        let dir = self.bounced_direction();
        DriveView {
            direction: dir,
            direction_tick: if bounce {
                0
            } else {
                self.direction_tick
            },
            position: if dir == Direction::Forward {
                (self.position + 1) as u8
            } else {
                (self.position - 1) as u8
            },
            step: !self.step,
            ..self
        }
    }

    /// The drive after a new note is set: an unplayable note counts as none,
    /// the counters restart, and a low step line is toggled high.
    pub open spec fn with_note(self, note: Option<Note>) -> DriveView {
        let kept = match note {
            Some(n) => if playable_key(n.spec_key()) {
                Some(n)
            } else {
                None
            },
            None => None,
        };
        let reset = DriveView {
            note: kept,
            period_tick: 0,
            note_tick: 0,
            direction_tick: 0,
            ..self
        };
        if reset.step {
            reset
        } else {
            reset.toggled()
        }
    }

    /// One scheduler tick: the drive after it and the state it outputs.
    pub open spec fn ticked(self) -> (DriveView, DriveState) {
        match self.note {
            None => (
                self,
                DriveState { drive_select: false, step: self.step, direction: self.direction },
            ),
            Some(n) => {
                let note_tick = count_up(self.note_tick);
                let select = note_tick > 1;
                let counted = DriveView {
                    note_tick,
                    direction_tick: count_up(self.direction_tick),
                    ..self
                };
                let after = if !select {
                    counted
                } else if counted.period_tick + 1 >= half_ticks_of(n.spec_key()) {
                    DriveView { period_tick: 0, ..counted.toggled() }
                } else {
                    DriveView { period_tick: (counted.period_tick + 1) as u32, ..counted }
                };
                let direction = if after.direction_tick > 2 {
                    after.direction
                } else {
                    after.direction.spec_inverse()
                };
                (after, DriveState { drive_select: select, step: after.step, direction })
            },
        }
    }
}

/// One floppy drive of the instrument.
#[derive(Clone, Copy, Debug)]
pub struct FloppyDrive {
    current_note: Option<Note>,
    current_note_tick: u32,
    current_state: bool,
    current_period_tick: u32,
    current_position: u8,
    current_direction: Direction,
    current_direction_tick: u32,
    movement: bool,
}

impl View for FloppyDrive {
    type V = DriveView;

    closed spec fn view(&self) -> DriveView {
        DriveView {
            note: self.current_note,
            note_tick: self.current_note_tick,
            step: self.current_state,
            period_tick: self.current_period_tick,
            position: self.current_position,
            direction: self.current_direction,
            direction_tick: self.current_direction_tick,
            movement: self.movement,
        }
    }
}

impl FloppyDrive {
    /// A drive with no note, its head at the lower bound of its amplitude
    /// mode.
    pub fn new(movement: bool) -> (r: FloppyDrive)
        ensures
            r@ == (DriveView {
                note: None,
                note_tick: 0,
                step: false,
                period_tick: 0,
                position: min_position(movement),
                direction: Direction::Forward,
                direction_tick: 0,
                movement,
            }),
            r@.inv(),
    {
        let start = if movement {
            MIN_POSITION_MOVEMENT
        } else {
            MIN_POSITION_STILL
        };
        FloppyDrive {
            current_note: None,
            current_note_tick: 0,
            current_period_tick: 0,
            current_position: start,
            current_state: false,
            current_direction: Direction::Forward,
            current_direction_tick: 0,
            movement,
        }
    }

    /// The head position, two units per track.
    pub fn position(&self) -> (r: u8)
        ensures
            r == self@.position,
    {
        self.current_position
    }

    /// Sets the note to sound, or silences the drive with `None`.
    pub fn set_note(&mut self, note: Option<Note>)
        requires
            old(self)@.inv(),
        ensures
            final(self)@ == old(self)@.with_note(note),
            final(self)@.step,
            final(self)@.inv(),
    {
        let kept = match note {
            Some(n) => if n.is_playable() {
                Some(n)
            } else {
                None
            },
            None => None,
        };
        proof {
            if let Some(n) = kept {
                lemma_half_ticks_positive(n.spec_key());
            }
        }
        self.current_note = kept;
        self.current_period_tick = 0;
        self.current_note_tick = 0;
        self.current_direction_tick = 0;
        if !self.current_state {
            self.toggle_step();
        }
    }

    /// Samples the drive for one scheduler tick.
    pub fn tick(&mut self) -> (r: DriveState)
        requires
            old(self)@.inv(),
        ensures
            (final(self)@, r) == old(self)@.ticked(),
            final(self)@.inv(),
    {
        let note = match self.current_note {
            None => {
                return DriveState {
                    drive_select: false,
                    step: self.current_state,
                    direction: self.current_direction,
                };
            },
            Some(n) => n,
        };
        self.current_note_tick = self.current_note_tick.saturating_add(1);
        self.current_direction_tick = self.current_direction_tick.saturating_add(1);
        let drive_select = self.current_note_tick > 1;
        if drive_select {
            let half = note.half_ticks();
            if self.current_period_tick + 1 >= half {
                self.toggle_step();
                self.current_period_tick = 0;
            } else {
                self.current_period_tick = self.current_period_tick + 1;
            }
        }
        let direction = if self.current_direction_tick > 2 {
            self.current_direction
        } else {
            self.current_direction.inverse()
        };
        DriveState { drive_select, step: self.current_state, direction }
    }

    fn toggle_step(&mut self)
        requires
            old(self)@.in_bounds(),
        ensures
            final(self)@ == old(self)@.toggled(),
    {
        let (min_position, max_position) = if self.movement {
            (MIN_POSITION_MOVEMENT, MAX_POSITION_MOVEMENT)
        } else {
            (MIN_POSITION_STILL, MAX_POSITION_STILL)
        };
        if self.current_position >= max_position {
            self.current_direction = Direction::Reverse;
            self.current_direction_tick = 0;
        } else if self.current_position == min_position {
            self.current_direction = Direction::Forward;
            self.current_direction_tick = 0;
        }
        match self.current_direction {
            Direction::Forward => self.current_position = self.current_position + 1,
            Direction::Reverse => self.current_position = self.current_position - 1,
        }
        self.current_state = !self.current_state;
    }
}

/// An operation on a drive: one scheduler tick, or a new note.
pub enum DriveInput {
    Tick,
    SetNote(Option<Note>),
}

/// The drive after a sequence of operations.
pub open spec fn run(d: DriveView, inputs: Seq<DriveInput>) -> DriveView
    decreases inputs.len(),
{
    if inputs.len() == 0 {
        d
    } else {
        let prev = run(d, inputs.drop_last());
        match inputs.last() {
            DriveInput::Tick => prev.ticked().0,
            DriveInput::SetNote(n) => prev.with_note(n),
        }
    }
}

/// The drive after `k` ticks.
pub open spec fn after_ticks(d: DriveView, k: nat) -> DriveView
    decreases k,
{
    if k == 0 {
        d
    } else {
        after_ticks(d, (k - 1) as nat).ticked().0
    }
}

/// A step toggle keeps the head within its bounds.
pub proof fn lemma_toggled_inv(d: DriveView)
    requires
        d.in_bounds(),
    ensures
        d.toggled().in_bounds(),
        d.toggled().period_tick == d.period_tick,
        d.toggled().movement == d.movement,
        d.toggled().note == d.note,
{
}

/// Ticks and new notes keep the drive's invariant.
pub proof fn lemma_inputs_keep_inv(d: DriveView, inputs: Seq<DriveInput>)
    requires
        d.inv(),
    ensures
        run(d, inputs).inv(),
        run(d, inputs).movement == d.movement,
    decreases inputs.len(),
{
    if inputs.len() > 0 {
        let prev = run(d, inputs.drop_last());
        lemma_inputs_keep_inv(d, inputs.drop_last());
        lemma_toggled_inv(prev);
        match inputs.last() {
            DriveInput::Tick => {
                if let Some(n) = prev.note {
                    lemma_half_ticks_positive(n.spec_key());
                    let c = DriveView {
                        note_tick: count_up(prev.note_tick),
                        direction_tick: count_up(prev.direction_tick),
                        ..prev
                    };
                    lemma_toggled_inv(c);
                }
            },
            DriveInput::SetNote(n) => {
                let kept = match n {
                    Some(n) => if playable_key(n.spec_key()) {
                        Some(n)
                    } else {
                        None
                    },
                    None => None,
                };
                let reset = DriveView {
                    note: kept,
                    period_tick: 0,
                    note_tick: 0,
                    direction_tick: 0,
                    ..prev
                };
                if let Some(k) = kept {
                    lemma_half_ticks_positive(k.spec_key());
                }
                lemma_toggled_inv(reset);
            },
        }
    }
}

/// Bounded position: the head of every drive lies within the bounds of its
/// amplitude mode, and stays there through any sequence of ticks and notes.
pub proof fn lemma_position_stays_in_bounds(d: DriveView, inputs: Seq<DriveInput>)
    requires
        d.inv(),
    ensures
        d.in_bounds(),
        run(d, inputs).in_bounds(),
{
    lemma_inputs_keep_inv(d, inputs);
}

/// Direction bounce on a step toggle: at or beyond the upper bound the head
/// turns to reverse and moves down one unit; at the lower bound it turns
/// forward and moves up one unit; either way the direction age restarts and
/// the step line flips.
pub proof fn lemma_toggle_bounce(d: DriveView)
    requires
        d.inv(),
    ensures
        d.position >= max_position(d.movement) ==> {
            &&& d.toggled().direction == Direction::Reverse
            &&& d.toggled().direction_tick == 0
            &&& d.toggled().position == d.position - 1
            &&& d.toggled().step == !d.step
        },
        d.position == min_position(d.movement) ==> {
            &&& d.toggled().direction == Direction::Forward
            &&& d.toggled().direction_tick == 0
            &&& d.toggled().position == d.position + 1
            &&& d.toggled().step == !d.step
        },
{
}

/// Direction bounce: at the upper bound travelling forward, the next tick that
/// moves the head reverses it and moves it down one unit; at the lower bound
/// travelling in reverse, the next tick that moves the head turns it forward
/// and moves it up one unit. A tick that does not move the head keeps the
/// direction.
pub proof fn lemma_direction_bounce(d: DriveView)
    requires
        d.inv(),
    ensures
        ({
            let a = d.ticked().0;
            &&& a.position == d.position ==> a.direction == d.direction
            &&& d.position == max_position(d.movement) && d.direction == Direction::Forward
                && a.position != d.position ==> a.direction == Direction::Reverse && a.position
                == d.position - 1
            &&& d.position == min_position(d.movement) && d.direction == Direction::Reverse
                && a.position != d.position ==> a.direction == Direction::Forward && a.position
                == d.position + 1
        }),
{
}

/// Silence: a drive without a note does not assert its select line, and its
/// state, head position and direction included, does not change.
pub proof fn lemma_silence(d: DriveView)
    requires
        d.note is None,
    ensures
        d.ticked().0 == d,
        !d.ticked().1.drive_select,
        d.ticked().1.step == d.step,
        d.ticked().1.direction == d.direction,
{
}

proof fn lemma_ticks_after_note(d: DriveView, n: Note, k: nat)
    requires
        d.note == Some(n),
        playable_key(n.spec_key()),
        d.note_tick == 0,
        d.period_tick == 0,
        d.step,
    ensures
        ({
            let h = half_ticks_of(n.spec_key());
            let a = after_ticks(d, k + 1);
            &&& a.note == Some(n)
            &&& a.note_tick >= 1
            &&& a.period_tick == k % h
            &&& a.step == ((k / h) % 2 == 0)
        }),
    decreases k,
{
    let h = half_ticks_of(n.spec_key());
    lemma_half_ticks_positive(n.spec_key());
    if k == 0 {
        assert(after_ticks(d, 1) == d.ticked().0);
        assert(0nat % h == 0) by (nonlinear_arith) requires h >= 1;
        assert(0nat / h == 0) by (nonlinear_arith) requires h >= 1;
    } else {
        let k1 = (k - 1) as nat;
        lemma_ticks_after_note(d, n, k1);
        let p = after_ticks(d, k);
        assert(after_ticks(d, k + 1) == p.ticked().0);
        vstd::arithmetic::div_mod::lemma_fundamental_div_mod(k1 as int, h as int);
        let q = k1 / h;
        let r = k1 % h;
        assert(0 <= r < h) by (nonlinear_arith) requires h >= 1, r == k1 % h;
        if r + 1 >= h {
            assert(k == (q + 1) * h) by (nonlinear_arith)
                requires
                    k == k1 + 1,
                    k1 == h * q + r,
                    r + 1 == h,
            ;
            vstd::arithmetic::div_mod::lemma_fundamental_div_mod_converse(
                k as int,
                h as int,
                q + 1int,
                0,
            );
        } else {
            assert(k == q * h + (r + 1)) by (nonlinear_arith)
                requires
                    k == k1 + 1,
                    k1 == h * q + r,
            ;
            vstd::arithmetic::div_mod::lemma_fundamental_div_mod_converse(
                k as int,
                h as int,
                q as int,
                r + 1int,
            );
        }
    }
}

/// Frequency fidelity: once a playable note with half-period `h` ticks is
/// set, the first tick arms the drive and every later tick selects it; after
/// `1 + k` ticks the step line, high when the note was set, has toggled
/// `k / h` times, so it toggles exactly every `h` ticks.
pub proof fn lemma_frequency_fidelity(v: DriveView, n: Note, k: nat)
    requires
        playable_key(n.spec_key()),
    ensures
        ({
            let d = v.with_note(Some(n));
            let h = half_ticks_of(n.spec_key());
            &&& after_ticks(d, k).ticked().1.drive_select == (k > 0)
            &&& after_ticks(d, k + 1).step == ((k / h) % 2 == 0)
        }),
{
    let d = v.with_note(Some(n));
    lemma_ticks_after_note(d, n, k);
    if k > 0 {
        lemma_ticks_after_note(d, n, (k - 1) as nat);
    }
}

} // verus!

//! The device's side of the protocol: connection state, routing of notes to
//! drives, and the tick that samples every drive.
use crate::floppy_drive::{min_position, state_byte, Direction, DriveView, FloppyDrive};
use crate::shift_register::{reversed_bits, ShiftRegisterView, SN74HC595};
use crate::note::Note;
use crate::proto::{FloppierC2SMessage, FloppierS2CMessage, LimitedMidiMessage, SetConfig, TrackMap};
use crate::roster::{
    stack_drives, stack_get, stack_len, stack_new, stack_push, stack_set, MAX_DRIVE_COUNT,
};
use std::collections::BTreeMap;
use vstd::std_specs::iter::IteratorSpec;
use vstd::prelude::*;

verus! {

/// The drive indices that a (track, channel) pair routes to, if the table
/// has a route for it.
pub open spec fn route(tracks: TrackMap, track: u16, channel: u8) -> Option<Seq<u8>> {
    if tracks@.contains_key(track) && tracks@[track]@.contains_key(channel) {
        Some(tracks@[track]@[channel]@)
    } else {
        None
    }
}

/// Whether every drive index of a list is below `count`.
pub open spec fn all_below(list: Seq<u8>, count: nat) -> bool {
    forall|i: int| 0 <= i < list.len() ==> list[i] < count
}

/// Whether a list of drive indices has at most `max_len` entries, each
/// below `count`.
pub open spec fn list_ok(list: Seq<u8>, count: nat, max_len: nat) -> bool {
    all_below(list, count) && list.len() <= max_len
}

/// Whether every list of a channel map has at most `max_len` entries, each
/// below `count`.
pub open spec fn channels_within(channels: BTreeMap<u8, Vec<u8>>, count: nat, max_len: nat) -> bool {
    forall|c: u8| #[trigger] channels@.contains_key(c) ==> list_ok(channels@[c]@, count, max_len)
}

/// Whether every list of a routing table has at most `max_len` entries,
/// each below `count`.
pub open spec fn routes_within(tracks: TrackMap, count: nat, max_len: nat) -> bool {
    forall|t: u16|
        #[trigger] tracks@.contains_key(t) ==> channels_within(tracks@[t], count, max_len)
}

fn list_within(list: &Vec<u8>, count: u8, max_len: usize) -> (r: bool)
    ensures
        r == list_ok(list@, count as nat, max_len as nat),
{
    if list.len() > max_len {
        return false;
    }
    let mut i: usize = 0;
    while i < list.len()
        invariant
            i <= list@.len(),
            forall|k: int| 0 <= k < i ==> list@[k] < count,
        decreases list@.len() - i,
    {
        if list[i] >= count {
            return false;
        }
        i = i + 1;
    }
    true
}

fn channels_fit(channels: &BTreeMap<u8, Vec<u8>>, count: u8, max_len: usize) -> (r: bool)
    ensures
        r == channels_within(*channels, count as nat, max_len as nat),
{
    let ghost items = vstd::std_specs::btree::spec_btree_map_iter(channels).remaining();
    let ghost mut visited: int = 0;
    for (c, list) in it: channels.iter()
        invariant
            it.seq() == items,
            visited == it.index(),
            forall|j: int|
                0 <= j < it.index() ==> list_ok(
                    (*#[trigger] items[j].1)@,
                    count as nat,
                    max_len as nat,
                ),
    {
        proof {
            assert(items[visited] == (c, list));
            assert(channels@.contains_key(*items[visited].0));
        }
        if !list_within(list, count, max_len) {
            return false;
        }
        proof {
            visited = visited + 1;
        }
    }
    proof {
        assert(visited == items.len());
        assert forall|c: u8| #[trigger] channels@.contains_key(c) implies list_ok(
            channels@[c]@,
            count as nat,
            max_len as nat,
        ) by {
            assert(items.contains((&c, &channels@[c])));
            let j = choose|j: int| 0 <= j < items.len() && items[j] == (&c, &channels@[c]);
            assert(list_ok((*items[j].1)@, count as nat, max_len as nat));
        }
    }
    true
}

fn routes_fit(tracks: &TrackMap, count: u8, max_len: usize) -> (r: bool)
    ensures
        r == routes_within(*tracks, count as nat, max_len as nat),
{
    let ghost items = vstd::std_specs::btree::spec_btree_map_iter(tracks).remaining();
    let ghost mut visited: int = 0;
    for (t, channels) in it: tracks.iter()
        invariant
            it.seq() == items,
            visited == it.index(),
            forall|j: int|
                0 <= j < it.index() ==> channels_within(
                    *#[trigger] items[j].1,
                    count as nat,
                    max_len as nat,
                ),
    {
        proof {
            assert(items[visited] == (t, channels));
            assert(tracks@.contains_key(*items[visited].0));
        }
        if !channels_fit(channels, count, max_len) {
            return false;
        }
        proof {
            visited = visited + 1;
        }
    }
    proof {
        assert forall|t: u16| #[trigger] tracks@.contains_key(t) implies channels_within(
            tracks@[t],
            count as nat,
            max_len as nat,
        ) by {
            assert(items.contains((&t, &tracks@[t])));
            let j = choose|j: int| 0 <= j < items.len() && items[j] == (&t, &tracks@[t]);
            assert(channels_within(*items[j].1, count as nat, max_len as nat));
        }
    }
    true
}

fn lookup_route<'a>(tracks: &'a TrackMap, track: u16, channel: u8) -> (r: Option<&'a Vec<u8>>)
    ensures
        r matches Some(l) ==> route(*tracks, track, channel) == Some(l@),
        r is None ==> route(*tracks, track, channel) is None,
{
    match tracks.get(&track) {
        Some(channels) => match channels.get(&channel) {
            Some(list) => Some(list),
            None => None,
        },
        None => None,
    }
}

/// Where the device stands in a session.
#[derive(Clone, Copy, Debug, PartialEq, Eq, Structural)]
pub enum ClientState {
    WaitingForHello,
    WaitingForSetConfig,
    PlayingMidiStream,
}

/// What the device's runtime must do after a message was handled, in order.
#[derive(Clone, Debug, PartialEq, Eq)]
pub enum Action {
    /// Send this message to the host.
    Send(FloppierC2SMessage),
    /// Mask the tick interrupt.
    DisableTicks,
    /// Run the homing sequence on every drive, with ticks masked.
    HomeDrives,
    /// Unmask the tick interrupt.
    EnableTicks,
}

/// A fatal condition: the device reports it to the host and halts.
#[derive(Clone, Copy, Debug, PartialEq, Eq, Structural)]
pub enum Fault {
    /// A configuration arrived outside the handshake.
    UnexpectedSetConfig,
    /// A MIDI event arrived while no song was playing.
    UnexpectedMidiEvent,
    /// An end of song arrived while no song was playing.
    UnexpectedEnd,
    /// A route names a drive index at or above the drive count.
    DriveIndexOutOfRange,
    /// A route lists more drive indices than a device drives.
    RouteTooLong,
    /// The configuration asks for more drives than a device drives.
    TooManyDrives,
    /// A note-on names a key above 127.
    InvalidNote,
    /// A MIDI message kind that the device does not implement.
    Unimplemented,
}

/// The text that the device reports for a fault.
pub open spec fn fault_text(f: Fault) -> Seq<char> {
    match f {
        Fault::UnexpectedSetConfig => "Unexpected set config packet!"@,
        Fault::UnexpectedMidiEvent => "Unexpected midi event packet!"@,
        Fault::UnexpectedEnd => "Unexpected end packet!"@,
        Fault::DriveIndexOutOfRange => "Supplied drive index exceeded drive count!"@,
        Fault::RouteTooLong => "Supplied route exceeded the supported number of drives!"@,
        Fault::TooManyDrives => "Supplied drive count exceeded the supported maximum!"@,
        Fault::InvalidNote => "Supplied note is not a MIDI key!"@,
        Fault::Unimplemented => "Unimplemented MIDI message!"@,
    }
}

impl Fault {
    /// The error message that reports the fault to the host.
    pub fn report(&self) -> (r: FloppierC2SMessage)
        ensures
            r matches FloppierC2SMessage::Error(s) && s@ == fault_text(*self),
    {
        let text = match self {
            Fault::UnexpectedSetConfig => "Unexpected set config packet!",
            Fault::UnexpectedMidiEvent => "Unexpected midi event packet!",
            Fault::UnexpectedEnd => "Unexpected end packet!",
            Fault::DriveIndexOutOfRange => "Supplied drive index exceeded drive count!",
            Fault::RouteTooLong => "Supplied route exceeded the supported number of drives!",
            Fault::TooManyDrives => "Supplied drive count exceeded the supported maximum!",
            Fault::InvalidNote => "Supplied note is not a MIDI key!",
            Fault::Unimplemented => "Unimplemented MIDI message!",
        };
        FloppierC2SMessage::Error(text.to_string())
    }
}

/// A drive as configured: no note, head at the lower bound of its mode.
pub open spec fn fresh_drive(movement: bool) -> DriveView {
    DriveView {
        note: None,
        note_tick: 0,
        step: false,
        period_tick: 0,
        position: min_position(movement),
        direction: Direction::Forward,
        direction_tick: 0,
        movement,
    }
}

/// Every drive with its note cleared.
pub open spec fn silenced(drives: Seq<DriveView>) -> Seq<DriveView> {
    drives.map_values(|d: DriveView| d.with_note(None))
}

/// The drives after setting the note on each listed drive, in list order.
pub open spec fn set_notes(drives: Seq<DriveView>, list: Seq<u8>, note: Option<Note>) -> Seq<
    DriveView,
>
    decreases list.len(),
{
    if list.len() == 0 {
        drives
    } else {
        let prev = set_notes(drives, list.drop_last(), note);
        let i = list.last() as int;
        prev.update(i, prev[i].with_note(note))
    }
}

/// Every drive after one tick.
pub open spec fn ticked_all(drives: Seq<DriveView>) -> Seq<DriveView> {
    drives.map_values(|d: DriveView| d.ticked().0)
}

/// The bytes that one tick shifts into the register chain: each drive's
/// output, packed and bit-reversed for the wiring, in drive order.
pub open spec fn tick_frame(drives: Seq<DriveView>) -> Seq<u8> {
    drives.map_values(|d: DriveView| reversed_bits(state_byte(d.ticked().1)))
}

/// The mathematical state of the device.
pub struct ClientView {
    pub state: ClientState,
    pub tracks: Option<TrackMap>,
    pub drives: Seq<DriveView>,
}

impl ClientView {
    /// The states that the device can be in.
    pub open spec fn inv(self) -> bool {
        &&& forall|i: int| 0 <= i < self.drives.len() ==> (#[trigger] self.drives[i]).inv()
        &&& self.drives.len() <= MAX_DRIVE_COUNT
        &&& self.tracks matches Some(m) ==> routes_within(m, self.drives.len(), MAX_DRIVE_COUNT as nat)
        &&& self.state == ClientState::PlayingMidiStream ==> self.tracks is Some
    }
}

/// Handling one message: the device afterwards and the actions to perform,
/// or the fault that halts the device.
pub open spec fn handle(c: ClientView, msg: FloppierS2CMessage) -> Result<
    (ClientView, Seq<Action>),
    Fault,
> {
    match msg {
        FloppierS2CMessage::Hello => if c.state == ClientState::WaitingForHello {
            Ok(
                (
                    ClientView { state: ClientState::WaitingForSetConfig, ..c },
                    seq![Action::Send(FloppierC2SMessage::HelloAck)],
                ),
            )
        } else {
            Ok(
                (
                    ClientView {
                        state: ClientState::WaitingForSetConfig,
                        drives: silenced(c.drives),
                        ..c
                    },
                    seq![Action::DisableTicks, Action::Send(FloppierC2SMessage::HelloAck)],
                ),
            )
        },
        FloppierS2CMessage::SetConfig(cfg) => if c.state != ClientState::WaitingForSetConfig {
            Err(Fault::UnexpectedSetConfig)
        } else if !routes_within(cfg.tracks, cfg.drive_count as nat, usize::MAX as nat) {
            Err(Fault::DriveIndexOutOfRange)
        } else if !routes_within(cfg.tracks, cfg.drive_count as nat, MAX_DRIVE_COUNT as nat) {
            Err(Fault::RouteTooLong)
        } else if cfg.drive_count > MAX_DRIVE_COUNT {
            Err(Fault::TooManyDrives)
        } else {
            Ok(
                (
                    ClientView {
                        state: ClientState::PlayingMidiStream,
                        tracks: Some(cfg.tracks),
                        drives: Seq::new(cfg.drive_count as nat, |i: int| fresh_drive(cfg.movement)),
                    },
                    seq![
                        Action::Send(FloppierC2SMessage::SetConfigAck),
                        Action::HomeDrives,
                        Action::Send(FloppierC2SMessage::Ready),
                        Action::EnableTicks,
                    ],
                ),
            )
        },
        FloppierS2CMessage::MidiEvent(e) => if c.state != ClientState::PlayingMidiStream {
            Err(Fault::UnexpectedMidiEvent)
        } else {
            let ack = seq![Action::Send(FloppierC2SMessage::MidiEventAck)];
            match e.message {
                LimitedMidiMessage::NoteOn { note, velocity } => match route(
                    c.tracks.unwrap(),
                    e.track,
                    e.channel,
                ) {
                    None => Ok((c, ack)),
                    Some(list) => if velocity == 0 {
                        Ok((ClientView { drives: set_notes(c.drives, list, None), ..c }, ack))
                    } else if note > crate::note::MAX_KEY && list.len() > 0 {
                        Err(Fault::InvalidNote)
                    } else {
                        Ok(
                            (
                                ClientView {
                                    drives: set_notes(
                                        c.drives,
                                        list,
                                        Some(Note::spec_from_key(note)),
                                    ),
                                    ..c
                                },
                                ack,
                            ),
                        )
                    },
                },
                LimitedMidiMessage::NoteOff { .. } => match route(
                    c.tracks.unwrap(),
                    e.track,
                    e.channel,
                ) {
                    None => Ok((c, ack)),
                    Some(list) => Ok(
                        (ClientView { drives: set_notes(c.drives, list, None), ..c }, ack),
                    ),
                },
                _ => Err(Fault::Unimplemented),
            }
        },
        FloppierS2CMessage::End => if c.state != ClientState::PlayingMidiStream {
            Err(Fault::UnexpectedEnd)
        } else {
            Ok(
                (
                    ClientView {
                        state: ClientState::WaitingForHello,
                        drives: silenced(c.drives),
                        ..c
                    },
                    seq![Action::DisableTicks, Action::Send(FloppierC2SMessage::EndAck)],
                ),
            )
        },
    }
}

/// The device: connection state, routing table and the stack of drives.
pub struct Client {
    state: ClientState,
    tracks: Option<TrackMap>,
    drives: heapless::Vec<FloppyDrive, MAX_DRIVE_COUNT>,
}

impl View for Client {
    type V = ClientView;

    closed spec fn view(&self) -> ClientView {
        ClientView {
            state: self.state,
            tracks: self.tracks,
            drives: stack_drives(self.drives).map_values(|d: FloppyDrive| d@),
        }
    }
}

impl Client {
    /// A device waiting for the host's hello, with no drives configured.
    pub fn new() -> (r: Client)
        ensures
            r@ == (ClientView {
                state: ClientState::WaitingForHello,
                tracks: None,
                drives: Seq::empty(),
            }),
            r@.inv(),
    {
        let drives = stack_new();
        let r = Client { state: ClientState::WaitingForHello, tracks: None, drives };
        proof {
            assert(r@.drives =~= Seq::<DriveView>::empty());
        }
        r
    }

    /// The connection state.
    pub fn state(&self) -> (r: ClientState)
        ensures
            r == self@.state,
    {
        self.state
    }

    /// The number of configured drives.
    pub fn drive_count(&self) -> (r: usize)
        ensures
            r == self@.drives.len(),
    {
        stack_len(&self.drives)
    }

    /// A copy of the drive at an index.
    pub fn drive(&self, i: usize) -> (r: FloppyDrive)
        requires
            i < self@.drives.len(),
        ensures
            r@ == self@.drives[i as int],
    {
        stack_get(&self.drives, i)
    }

    /// Handles one message from the host: returns the actions to perform, in
    /// order, or the fault on which the device reports an error and halts.
    /// On a fault the device is left as it was.
    pub fn handle_message(&mut self, msg: FloppierS2CMessage) -> (r: Result<Vec<Action>, Fault>)
        requires
            old(self)@.inv(),
        ensures
            final(self)@.inv(),
            match handle(old(self)@, msg) {
                Ok((v, actions)) => r matches Ok(a) && a@ == actions && final(self)@ == v,
                Err(f) => r == Err::<Vec<Action>, Fault>(f) && final(self)@ == old(self)@,
            },
    {
        match msg {
            FloppierS2CMessage::Hello => {
                let mut actions: Vec<Action> = Vec::new();
                if self.state != ClientState::WaitingForHello {
                    actions.push(Action::DisableTicks);
                    self.silence_all();
                }
                actions.push(Action::Send(FloppierC2SMessage::HelloAck));
                self.state = ClientState::WaitingForSetConfig;
                proof {
                    assert(actions@ =~= handle(old(self)@, msg).unwrap().1);
                }
                Ok(actions)
            },
            FloppierS2CMessage::SetConfig(cfg) => {
                if self.state != ClientState::WaitingForSetConfig {
                    return Err(Fault::UnexpectedSetConfig);
                }
                match self.set_config(cfg) {
                    Err(f) => {
                        return Err(f);
                    },
                    Ok(()) => {},
                }
                self.state = ClientState::PlayingMidiStream;
                let mut actions: Vec<Action> = Vec::new();
                actions.push(Action::Send(FloppierC2SMessage::SetConfigAck));
                actions.push(Action::HomeDrives);
                actions.push(Action::Send(FloppierC2SMessage::Ready));
                actions.push(Action::EnableTicks);
                proof {
                    assert(actions@ =~= handle(old(self)@, msg).unwrap().1);
                }
                Ok(actions)
            },
            FloppierS2CMessage::MidiEvent(event) => {
                if self.state != ClientState::PlayingMidiStream {
                    return Err(Fault::UnexpectedMidiEvent);
                }
                match event.message {
                    LimitedMidiMessage::NoteOn { .. } | LimitedMidiMessage::NoteOff { .. } => {},
                    _ => {
                        return Err(Fault::Unimplemented);
                    },
                }
                let mut actions: Vec<Action> = Vec::new();
                actions.push(Action::Send(FloppierC2SMessage::MidiEventAck));
                let tracks = match &self.tracks {
                    Some(t) => t.clone(),
                    None => {
                        return Ok(actions);
                    },
                };
                match lookup_route(&tracks, event.track, event.channel) {
                    None => {},
                    Some(list) => {
                        match event.message {
                            LimitedMidiMessage::NoteOn { note, velocity } => {
                                if velocity == 0 {
                                    self.apply_note(list, None);
                                } else {
                                    match Note::from_key(note) {
                                        Some(n) => self.apply_note(list, Some(n)),
                                        None => {
                                            if list.len() > 0 {
                                                return Err(Fault::InvalidNote);
                                            }
                                        },
                                    }
                                }
                            },
                            LimitedMidiMessage::NoteOff { .. } => {
                                self.apply_note(list, None);
                            },
                            _ => {},
                        }
                    },
                }
                proof {
                    assert(actions@ =~= handle(old(self)@, msg).unwrap().1);
                }
                Ok(actions)
            },
            FloppierS2CMessage::End => {
                if self.state != ClientState::PlayingMidiStream {
                    return Err(Fault::UnexpectedEnd);
                }
                let mut actions: Vec<Action> = Vec::new();
                actions.push(Action::DisableTicks);
                self.silence_all();
                actions.push(Action::Send(FloppierC2SMessage::EndAck));
                self.state = ClientState::WaitingForHello;
                proof {
                    assert(actions@ =~= handle(old(self)@, msg).unwrap().1);
                }
                Ok(actions)
            },
        }
    }

    /// One scheduler tick: samples every drive in index order, shifts each
    /// output byte into the register chain, then latches once, so that all
    /// drives change their outputs together.
    pub fn tick(&mut self, shift_register: &mut SN74HC595)
        requires
            old(self)@.inv(),
        ensures
            final(self)@ == (ClientView { drives: ticked_all(old(self)@.drives), ..old(self)@ }),
            final(self)@.inv(),
            final(shift_register)@ == (ShiftRegisterView {
                shifted: Seq::empty(),
                latched: old(shift_register)@.shifted + tick_frame(old(self)@.drives),
                ..old(shift_register)@
            }),
    {
        let n = stack_len(&self.drives);
        let mut i: usize = 0;
        while i < n
            invariant
                i <= n,
                n == self@.drives.len(),
                n == old(self)@.drives.len(),
                self.state == old(self).state,
                self.tracks == old(self).tracks,
                forall|k: int| 0 <= k < i ==> self@.drives[k] == old(self)@.drives[k].ticked().0,
                forall|k: int| i <= k < n ==> self@.drives[k] == old(self)@.drives[k],
                forall|k: int| 0 <= k < n ==> (#[trigger] old(self)@.drives[k]).inv(),
                forall|k: int| 0 <= k < n ==> (#[trigger] self@.drives[k]).inv(),
                shift_register@.output_enabled == old(shift_register)@.output_enabled,
                shift_register@.latched == old(shift_register)@.latched,
                shift_register@.shifted == old(shift_register)@.shifted + tick_frame(
                    old(self)@.drives,
                ).take(i as int),
            decreases n - i,
        {
            let ghost before = self@.drives;
            let mut d = stack_get(&self.drives, i);
            assert(d@ == before[i as int]);
            let state = d.tick();
            stack_set(&mut self.drives, i, d);
            assert(self@.drives =~= before.update(i as int, d@));
            shift_register.write_byte(state.to_byte());
            proof {
                assert(tick_frame(old(self)@.drives).take(i + 1) =~= tick_frame(
                    old(self)@.drives,
                ).take(i as int).push(reversed_bits(state_byte(state))));
            }
            i = i + 1;
        }
        proof {
            assert(self@.drives =~= ticked_all(old(self)@.drives));
            assert(tick_frame(old(self)@.drives).take(n as int) =~= tick_frame(old(self)@.drives));
        }
        shift_register.pulse_storage_clock();
    }

    fn silence_all(&mut self)
        requires
            old(self)@.inv(),
        ensures
            final(self)@ == (ClientView { drives: silenced(old(self)@.drives), ..old(self)@ }),
            final(self)@.inv(),
    {
        let n = stack_len(&self.drives);
        let mut i: usize = 0;
        while i < n
            invariant
                i <= n,
                n == self@.drives.len(),
                n == old(self)@.drives.len(),
                self.state == old(self).state,
                self.tracks == old(self).tracks,
                forall|k: int| 0 <= k < i ==> self@.drives[k] == old(self)@.drives[k].with_note(None),
                forall|k: int| i <= k < n ==> self@.drives[k] == old(self)@.drives[k],
                forall|k: int| 0 <= k < n ==> (#[trigger] old(self)@.drives[k]).inv(),
                forall|k: int| 0 <= k < n ==> (#[trigger] self@.drives[k]).inv(),
            decreases n - i,
        {
            let ghost before = self@.drives;
            let mut d = stack_get(&self.drives, i);
            assert(d@ == before[i as int]);
            d.set_note(None);
            stack_set(&mut self.drives, i, d);
            assert(self@.drives =~= before.update(i as int, d@));
            i = i + 1;
        }
        proof {
            assert(self@.drives =~= silenced(old(self)@.drives));
        }
    }

    fn apply_note(&mut self, list: &Vec<u8>, note: Option<Note>)
        requires
            old(self)@.inv(),
            all_below(list@, old(self)@.drives.len()),
        ensures
            final(self)@ == (ClientView {
                drives: set_notes(old(self)@.drives, list@, note),
                ..old(self)@
            }),
            final(self)@.inv(),
    {
        let mut k: usize = 0;
        proof {
            assert(list@.take(0) =~= Seq::<u8>::empty());
        }
        while k < list.len()
            invariant
                k <= list@.len(),
                all_below(list@, old(self)@.drives.len()),
                self@.drives.len() == old(self)@.drives.len(),
                self.state == old(self).state,
                self.tracks == old(self).tracks,
                self@.drives == set_notes(old(self)@.drives, list@.take(k as int), note),
                forall|j: int| 0 <= j < self@.drives.len() ==> (#[trigger] self@.drives[j]).inv(),
            decreases list@.len() - k,
        {
            let i = list[k] as usize;
            let ghost before = self@.drives;
            let mut d = stack_get(&self.drives, i);
            assert(d@ == before[i as int]);
            d.set_note(note);
            stack_set(&mut self.drives, i, d);
            assert(self@.drives =~= before.update(i as int, d@));
            proof {
                assert(list@.take(k + 1).drop_last() =~= list@.take(k as int));
            }
            k = k + 1;
        }
        proof {
            assert(list@.take(list@.len() as int) =~= list@);
        }
    }

    fn set_config(&mut self, cfg: SetConfig) -> (r: Result<(), Fault>)
        requires
            old(self)@.inv(),
        ensures
            !routes_within(cfg.tracks, cfg.drive_count as nat, usize::MAX as nat) ==> r == Err::<
                (),
                Fault,
            >(Fault::DriveIndexOutOfRange) && final(self)@ == old(self)@,
            routes_within(cfg.tracks, cfg.drive_count as nat, usize::MAX as nat) && !routes_within(
                cfg.tracks,
                cfg.drive_count as nat,
                MAX_DRIVE_COUNT as nat,
            ) ==> r == Err::<(), Fault>(Fault::RouteTooLong) && final(self)@ == old(self)@,
            routes_within(cfg.tracks, cfg.drive_count as nat, MAX_DRIVE_COUNT as nat)
                && cfg.drive_count > MAX_DRIVE_COUNT ==> r == Err::<(), Fault>(Fault::TooManyDrives)
                && final(self)@ == old(self)@,
            routes_within(cfg.tracks, cfg.drive_count as nat, MAX_DRIVE_COUNT as nat)
                && cfg.drive_count <= MAX_DRIVE_COUNT ==> r is Ok && final(self)@ == (ClientView {
                tracks: Some(cfg.tracks),
                drives: Seq::new(cfg.drive_count as nat, |i: int| fresh_drive(cfg.movement)),
                ..old(self)@
            }),
            final(self)@.inv(),
    {
        if !routes_fit(&cfg.tracks, cfg.drive_count, usize::MAX) {
            return Err(Fault::DriveIndexOutOfRange);
        }
        if !routes_fit(&cfg.tracks, cfg.drive_count, MAX_DRIVE_COUNT) {
            return Err(Fault::RouteTooLong);
        }
        if cfg.drive_count as usize > MAX_DRIVE_COUNT {
            return Err(Fault::TooManyDrives);
        }
        let mut drives = stack_new();
        let mut i: u8 = 0;
        while i < cfg.drive_count
            invariant
                i <= cfg.drive_count <= MAX_DRIVE_COUNT,
                stack_drives(drives).len() == i,
                forall|k: int|
                    0 <= k < i ==> (#[trigger] stack_drives(drives)[k])@ == fresh_drive(
                        cfg.movement,
                    ),
            decreases cfg.drive_count - i,
        {
            let _rejected = stack_push(&mut drives, FloppyDrive::new(cfg.movement));
            i = i + 1;
        }
        self.tracks = Some(cfg.tracks);
        self.drives = drives;
        proof {
            assert(self@.drives =~= Seq::new(
                cfg.drive_count as nat,
                |i: int| fresh_drive(cfg.movement),
            ));
        }
        Ok(())
    }
}

} // verus!

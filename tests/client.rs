use std::collections::BTreeMap;

use floppier::client::{Action, Client, ClientState, Fault};
use floppier::floppy_drive::{Direction, MAX_POSITION_MOVEMENT, MIN_POSITION_MOVEMENT};
use floppier::note::Note;
use floppier::proto::{
    FloppierC2SMessage, FloppierS2CMessage, LimitedMidiMessage, MidiEvent, ParallelMode,
    SetConfig,
};
use floppier::shift_register::{reverse_bits, SN74HC595};

fn config(drive_count: u8, routes: Vec<u8>) -> FloppierS2CMessage {
    FloppierS2CMessage::SetConfig(SetConfig {
        parallel_mode: ParallelMode::Collapse,
        movement: true,
        drive_count,
        tracks: BTreeMap::from([(1, BTreeMap::from([(1, routes)]))]),
    })
}

fn event(message: LimitedMidiMessage) -> FloppierS2CMessage {
    FloppierS2CMessage::MidiEvent(MidiEvent { track: 1, channel: 1, message })
}

fn playing(drive_count: u8, routes: Vec<u8>) -> Client {
    let mut c = Client::new();
    c.handle_message(FloppierS2CMessage::Hello).unwrap();
    c.handle_message(config(drive_count, routes)).unwrap();
    c
}

#[test]
fn happy_path_session() {
    let mut c = Client::new();
    assert_eq!(c.state(), ClientState::WaitingForHello);
    let a = c.handle_message(FloppierS2CMessage::Hello).unwrap();
    assert_eq!(a, vec![Action::Send(FloppierC2SMessage::HelloAck)]);
    let a = c.handle_message(config(1, vec![0])).unwrap();
    assert_eq!(
        a,
        vec![
            Action::Send(FloppierC2SMessage::SetConfigAck),
            Action::HomeDrives,
            Action::Send(FloppierC2SMessage::Ready),
            Action::EnableTicks,
        ]
    );
    assert_eq!(c.state(), ClientState::PlayingMidiStream);
    assert_eq!(c.drive_count(), 1);
    let a = c
        .handle_message(event(LimitedMidiMessage::NoteOn { note: 60, velocity: 100 }))
        .unwrap();
    assert_eq!(a, vec![Action::Send(FloppierC2SMessage::MidiEventAck)]);

    let h = Note::from_key(60).unwrap().half_ticks() as usize;
    assert_eq!(h, 96);
    let mut sr = SN74HC595::new();
    let mut last_step = true;
    let mut toggles = Vec::new();
    for k in 1..=200 {
        c.tick(&mut sr);
        let byte = reverse_bits(sr.outputs()[0]);
        let step = byte & 0b010 == 0;
        if k >= 2 {
            assert_eq!(byte & 0b001, 0);
        }
        if step != last_step {
            toggles.push(k);
        }
        last_step = step;
    }
    assert_eq!(toggles, vec![1 + h, 1 + 2 * h]);
    let position = c.drive(0).position();
    assert_eq!(position, 5);
    assert!(position >= MIN_POSITION_MOVEMENT && position <= MAX_POSITION_MOVEMENT);

    let a = c.handle_message(FloppierS2CMessage::End).unwrap();
    assert_eq!(
        a,
        vec![Action::DisableTicks, Action::Send(FloppierC2SMessage::EndAck)]
    );
    assert_eq!(c.state(), ClientState::WaitingForHello);
    let mut d = c.drive(0);
    assert!(!d.tick().drive_select);
}

#[test]
fn midi_event_before_hello_is_desync() {
    let mut c = Client::new();
    let r = c.handle_message(event(LimitedMidiMessage::NoteOn { note: 60, velocity: 100 }));
    assert_eq!(r, Err(Fault::UnexpectedMidiEvent));
    assert_eq!(
        Fault::UnexpectedMidiEvent.report(),
        FloppierC2SMessage::Error("Unexpected midi event packet!".to_string())
    );
    assert_eq!(c.state(), ClientState::WaitingForHello);
}

#[test]
fn set_config_and_end_out_of_order() {
    let mut c = Client::new();
    assert_eq!(c.handle_message(config(1, vec![0])), Err(Fault::UnexpectedSetConfig));
    assert_eq!(c.handle_message(FloppierS2CMessage::End), Err(Fault::UnexpectedEnd));
    c.handle_message(FloppierS2CMessage::Hello).unwrap();
    assert_eq!(c.handle_message(FloppierS2CMessage::End), Err(Fault::UnexpectedEnd));
    assert_eq!(
        Fault::UnexpectedSetConfig.report(),
        FloppierC2SMessage::Error("Unexpected set config packet!".to_string())
    );
}

#[test]
fn route_to_missing_drive_is_refused() {
    let mut c = Client::new();
    c.handle_message(FloppierS2CMessage::Hello).unwrap();
    assert_eq!(c.handle_message(config(2, vec![0, 2])), Err(Fault::DriveIndexOutOfRange));
    assert_eq!(c.state(), ClientState::WaitingForSetConfig);
    assert_eq!(c.drive_count(), 0);
}

#[test]
fn too_many_drives_is_refused() {
    let mut c = Client::new();
    c.handle_message(FloppierS2CMessage::Hello).unwrap();
    assert_eq!(c.handle_message(config(9, vec![0])), Err(Fault::TooManyDrives));
    assert!(c.handle_message(config(8, vec![7])).is_ok());
    assert_eq!(c.drive_count(), 8);
}

#[test]
fn hello_while_playing_resets_session() {
    let mut c = playing(2, vec![0, 1]);
    c.handle_message(event(LimitedMidiMessage::NoteOn { note: 60, velocity: 100 }))
        .unwrap();
    let a = c.handle_message(FloppierS2CMessage::Hello).unwrap();
    assert_eq!(
        a,
        vec![Action::DisableTicks, Action::Send(FloppierC2SMessage::HelloAck)]
    );
    assert_eq!(c.state(), ClientState::WaitingForSetConfig);
    let mut d = c.drive(1);
    assert!(!d.tick().drive_select);
}

#[test]
fn note_off_and_zero_velocity_silence() {
    let mut c = playing(1, vec![0]);
    c.handle_message(event(LimitedMidiMessage::NoteOn { note: 60, velocity: 100 }))
        .unwrap();
    c.handle_message(event(LimitedMidiMessage::NoteOff { note: 60, velocity: 0 }))
        .unwrap();
    let mut d = c.drive(0);
    assert!(!d.tick().drive_select);
    c.handle_message(event(LimitedMidiMessage::NoteOn { note: 60, velocity: 100 }))
        .unwrap();
    c.handle_message(event(LimitedMidiMessage::NoteOn { note: 60, velocity: 0 }))
        .unwrap();
    let mut d = c.drive(0);
    assert!(!d.tick().drive_select);
}

#[test]
fn unrouted_event_is_acknowledged() {
    let mut c = playing(1, vec![0]);
    let r = c.handle_message(FloppierS2CMessage::MidiEvent(MidiEvent {
        track: 2,
        channel: 1,
        message: LimitedMidiMessage::NoteOn { note: 60, velocity: 100 },
    }));
    assert_eq!(r, Ok(vec![Action::Send(FloppierC2SMessage::MidiEventAck)]));
    let mut d = c.drive(0);
    assert!(!d.tick().drive_select);
}

#[test]
fn unrouted_unimplemented_message_still_faults() {
    let mut c = playing(1, vec![0]);
    let r = c.handle_message(FloppierS2CMessage::MidiEvent(MidiEvent {
        track: 2,
        channel: 1,
        message: LimitedMidiMessage::PitchBend { value: 3 },
    }));
    assert_eq!(r, Err(Fault::Unimplemented));
}

#[test]
fn route_longer_than_the_stack_is_refused() {
    let mut c = Client::new();
    c.handle_message(FloppierS2CMessage::Hello).unwrap();
    assert_eq!(c.handle_message(config(8, vec![0; 9])), Err(Fault::RouteTooLong));
    assert_eq!(c.handle_message(config(8, vec![1, 9])), Err(Fault::DriveIndexOutOfRange));
    assert!(c.handle_message(config(8, vec![0; 8])).is_ok());
}

#[test]
fn unimplemented_and_invalid_messages_fault() {
    let mut c = playing(1, vec![0]);
    assert_eq!(
        c.handle_message(event(LimitedMidiMessage::ProgramChange { program: 1 })),
        Err(Fault::Unimplemented)
    );
    assert_eq!(
        c.handle_message(event(LimitedMidiMessage::ControlChange { control: 1, value: 2 })),
        Err(Fault::Unimplemented)
    );
    assert_eq!(
        c.handle_message(event(LimitedMidiMessage::NoteOn { note: 200, velocity: 1 })),
        Err(Fault::InvalidNote)
    );
}

#[test]
fn tick_latches_one_byte_per_drive() {
    let mut c = playing(3, vec![1]);
    let mut sr = SN74HC595::new();
    c.tick(&mut sr);
    let out = sr.outputs();
    assert_eq!(out.len(), 3);
    for b in out {
        assert_eq!(reverse_bits(b), 0b011);
    }
    let d = c.drive(0);
    let _ = d;
    assert_eq!(Direction::Forward.inverse(), Direction::Reverse);
}

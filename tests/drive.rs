use floppier::floppy_drive::{
    Direction, DriveState, FloppyDrive, MAX_POSITION_MOVEMENT, MAX_POSITION_STILL,
    MIN_POSITION_STILL,
};
use floppier::note::Note;

fn note(key: u8) -> Note {
    Note::from_key(key).unwrap()
}

#[test]
fn note_keys_and_half_periods() {
    assert!(Note::from_key(127).is_some());
    assert!(Note::from_key(128).is_none());
    assert_eq!(note(60).key(), 60);
    assert_eq!(note(60).half_ticks(), 96);
    assert_eq!(note(69).half_ticks(), 57);
    assert_eq!(note(72).half_ticks(), 48);
    assert_eq!(note(0).half_ticks(), 3058);
    assert_eq!(note(127).half_ticks(), 2);
}

#[test]
fn note_playable_range() {
    assert!(!note(23).is_playable());
    assert!(note(24).is_playable());
    assert!(note(83).is_playable());
    assert!(!note(84).is_playable());
}

#[test]
fn direction_inverse() {
    assert_eq!(Direction::Forward.inverse(), Direction::Reverse);
    assert_eq!(Direction::Reverse.inverse(), Direction::Forward);
    assert_eq!(Direction::default(), Direction::Forward);
}

#[test]
fn drive_state_packing() {
    let all_low = DriveState { drive_select: false, step: false, direction: Direction::Forward };
    assert_eq!(u8::from(all_low), 0b011);
    let active = DriveState { drive_select: true, step: true, direction: Direction::Reverse };
    assert_eq!(u8::from(active), 0b100);
    let stepping = DriveState { drive_select: true, step: false, direction: Direction::Forward };
    assert_eq!(stepping.to_byte(), 0b010);
}

#[test]
fn new_drive_starts_at_lower_bound() {
    assert_eq!(FloppyDrive::new(true).position(), 2);
    assert_eq!(FloppyDrive::new(false).position(), MIN_POSITION_STILL);
}

#[test]
fn silent_drive_holds_still() {
    let mut d = FloppyDrive::new(true);
    for _ in 0..50 {
        let s = d.tick();
        assert!(!s.drive_select);
        assert!(!s.step);
        assert_eq!(s.direction, Direction::Forward);
    }
}

#[test]
fn set_note_raises_step_and_arms_after_one_tick() {
    let mut d = FloppyDrive::new(true);
    d.set_note(Some(note(60)));
    let first = d.tick();
    assert!(!first.drive_select);
    assert!(first.step);
    let second = d.tick();
    assert!(second.drive_select);
}

#[test]
fn unplayable_note_is_silence() {
    let mut d = FloppyDrive::new(true);
    d.set_note(Some(note(100)));
    for _ in 0..10 {
        assert!(!d.tick().drive_select);
    }
}

#[test]
fn step_toggles_every_half_period() {
    let mut d = FloppyDrive::new(true);
    let n = note(72);
    let h = n.half_ticks() as usize;
    d.set_note(Some(n));
    let mut prev = d.tick().step;
    assert!(prev);
    let mut toggles = Vec::new();
    for k in 1..=(h * 25) {
        let s = d.tick();
        assert!(s.drive_select);
        if s.step != prev {
            toggles.push(k);
        }
        prev = s.step;
    }
    assert_eq!(toggles.len(), 25);
    for (i, k) in toggles.iter().enumerate() {
        assert_eq!(*k, h * (i + 1));
    }
}

#[test]
fn direction_output_is_inverted_right_after_a_note() {
    let mut d = FloppyDrive::new(true);
    d.set_note(Some(note(60)));
    assert_eq!(d.tick().direction, Direction::Reverse);
    assert_eq!(d.tick().direction, Direction::Reverse);
    assert_eq!(d.tick().direction, Direction::Forward);
}

#[test]
fn narrow_dither_bounces_between_bounds() {
    let mut d = FloppyDrive::new(false);
    d.set_note(Some(note(83)));
    let h = note(83).half_ticks() as usize;
    let mut reversed = false;
    d.tick();
    d.tick();
    let mut last_dir = d.tick().direction;
    assert_eq!(last_dir, Direction::Forward);
    for _ in 0..(h * 200) {
        let s = d.tick();
        if s.direction == Direction::Reverse && last_dir == Direction::Forward {
            reversed = true;
        }
        last_dir = s.direction;
    }
    assert!(reversed);
    let p = d.position();
    assert!(p >= MIN_POSITION_STILL && p <= MAX_POSITION_STILL);
    assert!(MIN_POSITION_STILL < MAX_POSITION_STILL);
    assert!(MAX_POSITION_STILL < MAX_POSITION_MOVEMENT);
}

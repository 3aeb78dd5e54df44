use floppier::floppy_drive::{Direction, DriveState};
use floppier::scheduler::{homing_sequence, schedule_next_tick, HomingStep, TickSchedule};
use floppier::shift_register::{reverse_bits, SN74HC595};
use floppier::TIMER_RESOLUTION_US;

#[test]
fn overrun_fires_next_tick_at_once() {
    let s = schedule_next_tick(1_000, 1_025, TIMER_RESOLUTION_US);
    assert_eq!(s, TickSchedule { wait_us: 0, overrun_us: Some(5) });
}

#[test]
fn tick_within_budget_waits_for_the_rest() {
    let s = schedule_next_tick(1_000, 1_007, 20);
    assert_eq!(s, TickSchedule { wait_us: 13, overrun_us: None });
    let s = schedule_next_tick(1_000, 1_020, 20);
    assert_eq!(s, TickSchedule { wait_us: 0, overrun_us: None });
}

#[test]
fn timer_wrap_is_measured_modulo() {
    let s = schedule_next_tick(u64::MAX - 4, 10, 20);
    assert_eq!(s, TickSchedule { wait_us: 5, overrun_us: None });
}

#[test]
fn homing_sequence_layout() {
    let steps = homing_sequence();
    assert_eq!(steps.len(), 963);
    match steps[0] {
        HomingStep::Latch(s) => {
            assert!(s.drive_select && s.step);
            assert_eq!(s.direction, Direction::Reverse);
        }
        _ => panic!("first step should latch"),
    }
    assert_eq!(steps[1], HomingStep::Pause(3));
    match steps[2] {
        HomingStep::Latch(s) => assert!(!s.step),
        _ => panic!("third step should latch"),
    }
    assert_eq!(steps[320], HomingStep::Pause(200));
    match steps[321] {
        HomingStep::Latch(s) => assert_eq!(s.direction, Direction::Forward),
        _ => panic!("second sweep should start with a latch"),
    }
    match steps[642] {
        HomingStep::Latch(s) => assert_eq!(s.direction, Direction::Reverse),
        _ => panic!("third sweep should start with a latch"),
    }
    assert_eq!(steps[962], HomingStep::Pause(200));
}

#[test]
fn bits_are_reversed() {
    assert_eq!(reverse_bits(0b0000_0001), 0b1000_0000);
    assert_eq!(reverse_bits(0b0000_0110), 0b0110_0000);
    assert_eq!(reverse_bits(0b1010_0000), 0b0000_0101);
    assert_eq!(reverse_bits(0xff), 0xff);
}

#[test]
fn register_chain_latches_what_was_shifted() {
    let mut sr = SN74HC595::new();
    assert!(sr.output_enable_level());
    sr.set_output_enabled(true);
    assert!(!sr.output_enable_level());
    sr.write_byte(1);
    sr.write_byte(2);
    assert!(sr.outputs().is_empty());
    sr.pulse_storage_clock();
    assert_eq!(sr.outputs(), vec![0x80, 0x40]);
    sr.write_byte_to_all(3);
    sr.pulse_storage_clock();
    assert_eq!(sr.outputs(), vec![0xc0; 8]);
    sr.write_bytes(&[1, 2, 4, 8, 16, 32, 64, 128]);
    sr.pulse_storage_clock();
    assert_eq!(sr.outputs(), vec![128, 64, 32, 16, 8, 4, 2, 1]);
}

#[test]
fn latch_state_to_all_shows_one_byte_per_drive() {
    let mut sr = SN74HC595::new();
    let state = DriveState { drive_select: true, step: false, direction: Direction::Reverse };
    sr.latch_state_to_all(state, 3);
    assert_eq!(sr.outputs(), vec![reverse_bits(0b110); 3]);
    assert_eq!(sr.outputs(), vec![0b0110_0000; 3]);
}

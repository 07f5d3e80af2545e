use blinds_controller::{Direction, FixedFrequencyStepperModulator, HaltingSequencer, HOLD_QUANTITY};
use std::time::Duration;

#[test]
fn modulator_emits_one_pulse_per_count() {
    let mut seq: HaltingSequencer<64> = HaltingSequencer::new_roller(300);
    seq.set_position(2);
    let period = Duration::from_micros(250);
    let mut m = FixedFrequencyStepperModulator::new(period, seq);
    for _ in 0..6 {
        assert_eq!(m.next(), Some((Direction::Retract, period)));
    }
    for _ in 0..HOLD_QUANTITY {
        assert_eq!(m.next(), Some((Direction::Hold, period)));
    }
    assert_eq!(m.next(), None);
    assert_eq!(m.next(), None);
}

#[test]
fn modulator_on_idle_sequencer_is_none() {
    let seq: HaltingSequencer<64> = HaltingSequencer::new_roller(300);
    let mut m = FixedFrequencyStepperModulator::new(Duration::from_millis(1), seq);
    assert_eq!(m.next(), None);
}

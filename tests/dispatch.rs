use blinds_controller::{
    mask_bit, tick_channel, ChannelActions, ChannelInputs, ChannelState, CommandError, CommandOutcome, Controller,
    Direction, GeneratorStatus, HaltingSequencer, IncomingRpcPacket, OutgoingRpcPacket, SharedFlags,
    WindowDressingInstruction, WindowDressingState, HOLD_QUANTITY,
};

const IDLE: ChannelActions =
    ChannelActions { clear_steps: false, enable: None, direction: None, add_steps: None, report_position: false };

fn state(position: u8, tilt: i8) -> WindowDressingState {
    WindowDressingState { position, tilt }
}

fn inputs(now: u64, endstop: bool, reversed: bool, ready: bool, stopped: bool) -> ChannelInputs {
    ChannelInputs { now, endstop, reversed, ready, stopped }
}

fn fresh_channel(direction: Direction, buffered: Option<WindowDressingInstruction>) -> ChannelState {
    ChannelState { next_buffered: buffered, resume_after: 0, last_reversal: 0, direction }
}

fn instr(quality: Direction, quantity: u32) -> WindowDressingInstruction {
    WindowDressingInstruction { quality, quantity, completed_state: state(5, 0) }
}

#[test]
fn endstop_after_guard_resets_channel() {
    let mut seq: HaltingSequencer<64> = HaltingSequencer::new_roller(10_000);
    seq.load_state(&state(10, 0));
    seq.set_position(40);
    let mut st = fresh_channel(Direction::Retract, Some(instr(Direction::Retract, 100)));
    let a = tick_channel(&mut st, &mut seq, &inputs(500_000, true, false, true, false));
    assert_eq!(a, ChannelActions { clear_steps: true, enable: Some(false), report_position: true, ..IDLE });
    assert_eq!(st.next_buffered, None);
    assert_eq!(*seq.get_current_state(), state(100, 0));
}

#[test]
fn endstop_within_guard_is_ignored() {
    let mut seq: HaltingSequencer<64> = HaltingSequencer::new_roller(10_000);
    let mut st = ChannelState { next_buffered: None, resume_after: 0, last_reversal: 1_000_000, direction: Direction::Hold };
    let a = tick_channel(&mut st, &mut seq, &inputs(1_499_999, true, false, false, true));
    assert_eq!(a, IDLE);
    assert_eq!(*seq.get_current_state(), state(0, 0));
}

#[test]
fn busy_generator_gets_nothing() {
    let mut seq: HaltingSequencer<64> = HaltingSequencer::new_roller(10_000);
    seq.set_position(3);
    let mut st = fresh_channel(Direction::Hold, None);
    let a = tick_channel(&mut st, &mut seq, &inputs(10, false, false, false, false));
    assert_eq!(a, IDLE);
    assert_eq!(st, fresh_channel(Direction::Hold, None));
}

#[test]
fn empty_buffer_fetches_grouped_instruction() {
    let mut seq: HaltingSequencer<64> = HaltingSequencer::new_roller(10_000);
    seq.set_position(3);
    let mut st = fresh_channel(Direction::Hold, None);
    let a = tick_channel(&mut st, &mut seq, &inputs(10, false, false, true, true));
    assert_eq!(a, IDLE);
    assert_eq!(
        st.next_buffered,
        Some(WindowDressingInstruction { quality: Direction::Retract, quantity: 300, completed_state: state(3, 0) })
    );
}

#[test]
fn idle_channel_powers_down_when_stopped() {
    let mut seq: HaltingSequencer<64> = HaltingSequencer::new_roller(10_000);
    let mut st = fresh_channel(Direction::Hold, None);
    let a = tick_channel(&mut st, &mut seq, &inputs(10, false, false, true, true));
    assert_eq!(a, ChannelActions { enable: Some(false), ..IDLE });
    let a = tick_channel(&mut st, &mut seq, &inputs(10, false, false, true, false));
    assert_eq!(a, IDLE);
}

#[test]
fn same_direction_is_fed_unconditionally() {
    let mut seq: HaltingSequencer<64> = HaltingSequencer::new_roller(10_000);
    let mut st = fresh_channel(Direction::Extend, Some(instr(Direction::Extend, 700)));
    let a = tick_channel(&mut st, &mut seq, &inputs(10, false, false, true, false));
    assert_eq!(a, ChannelActions { enable: Some(true), add_steps: Some(700), ..IDLE });
    assert_eq!(st.next_buffered, None);
    assert_eq!(st.direction, Direction::Extend);
}

#[test]
fn direction_change_waits_for_stop() {
    let mut seq: HaltingSequencer<64> = HaltingSequencer::new_roller(10_000);
    let buffered = Some(instr(Direction::Retract, 50));
    let mut st = fresh_channel(Direction::Extend, buffered);
    let a = tick_channel(&mut st, &mut seq, &inputs(10, false, false, true, false));
    assert_eq!(a, ChannelActions { enable: Some(true), ..IDLE });
    assert_eq!(st.next_buffered, buffered);
    assert_eq!(st.direction, Direction::Extend);
}

#[test]
fn direction_change_waits_for_resume_deadline() {
    let mut seq: HaltingSequencer<64> = HaltingSequencer::new_roller(10_000);
    let buffered = Some(instr(Direction::Extend, 50));
    let mut st = ChannelState { next_buffered: buffered, resume_after: 2_000, last_reversal: 0, direction: Direction::Hold };
    let a = tick_channel(&mut st, &mut seq, &inputs(2_000, false, false, true, true));
    assert_eq!(a, ChannelActions { enable: Some(true), ..IDLE });
    assert_eq!(st.next_buffered, buffered);
}

#[test]
fn direction_change_sets_pins_by_polarity() {
    let mut seq: HaltingSequencer<64> = HaltingSequencer::new_roller(10_000);
    for (quality, reversed, invert) in [
        (Direction::Retract, false, false),
        (Direction::Retract, true, true),
        (Direction::Extend, false, true),
        (Direction::Extend, true, false),
    ] {
        let mut st = fresh_channel(Direction::Hold, Some(instr(quality, 80)));
        let a = tick_channel(&mut st, &mut seq, &inputs(7_000, false, reversed, true, true));
        assert_eq!(
            a,
            ChannelActions { enable: Some(true), direction: Some(invert), add_steps: Some(80), report_position: true, ..IDLE }
        );
        assert_eq!(st, ChannelState { next_buffered: None, resume_after: 0, last_reversal: 7_000, direction: quality });
    }
}

#[test]
fn hold_sets_a_resume_deadline() {
    let mut seq: HaltingSequencer<64> = HaltingSequencer::new_roller(10_000);
    let mut st = fresh_channel(Direction::Retract, Some(instr(Direction::Hold, HOLD_QUANTITY)));
    let a = tick_channel(&mut st, &mut seq, &inputs(1_000, false, false, true, true));
    assert_eq!(a, ChannelActions { enable: Some(true), report_position: true, ..IDLE });
    // 500 pulses at 1000 per second: half a second
    assert_eq!(st, ChannelState { next_buffered: None, resume_after: 501_000, last_reversal: 1_000, direction: Direction::Hold });
}

#[test]
fn hold_deadline_saturates() {
    let mut seq: HaltingSequencer<64> = HaltingSequencer::new_roller(10_000);
    let mut st = fresh_channel(Direction::Retract, Some(instr(Direction::Hold, 10)));
    tick_channel(&mut st, &mut seq, &inputs(u64::MAX - 1, false, false, true, true));
    assert_eq!(st.resume_after, u64::MAX);
}

#[test]
fn mask_bits() {
    assert!(mask_bit(0b100, 2));
    assert!(!mask_bit(0b100, 1));
    assert!(mask_bit(0x8000, 15));
    assert!(!mask_bit(0, 0));
}

#[test]
fn shared_flags_take_clears() {
    let flags = SharedFlags::new();
    flags.signal_endstop(3);
    flags.signal_endstop(0);
    assert_eq!(flags.take_endstops(), 0b1001);
    assert_eq!(flags.take_endstops(), 0);
    flags.set_reversed(2, true);
    flags.set_reversed(5, true);
    flags.set_reversed(2, false);
    assert_eq!(flags.reversals(), 0b100000);
}

#[test]
fn controller_starts_with_rollers() {
    let c: Controller<1024> = Controller::new(4, 77);
    assert_eq!(c.channel_count(), 4);
    assert_eq!(*c.sequencer(3).get_current_state(), state(0, 0));
    assert_eq!(*c.channel(2), ChannelState { next_buffered: None, resume_after: 77, last_reversal: 77, direction: Direction::Hold });
}

#[test]
fn command_for_missing_channel_is_refused() {
    let mut c: Controller<1024> = Controller::new(4, 0);
    let flags = SharedFlags::new();
    assert_eq!(c.handle_command(&IncomingRpcPacket::Get { channel: 4 }, &flags), Err(CommandError::InvalidChannel));
    assert_eq!(c.handle_command(&IncomingRpcPacket::Home { channel: 200 }, &flags), Err(CommandError::InvalidChannel));
}

#[test]
fn position_above_100_is_refused() {
    let mut c: Controller<1024> = Controller::new(2, 0);
    let flags = SharedFlags::new();
    let set = IncomingRpcPacket::SetTarget { channel: 0, position: Some(101), tilt: Some(3) };
    assert_eq!(c.handle_command(&set, &flags), Err(CommandError::InvalidPosition));
    assert_eq!(*c.sequencer(0).get_desired_state(), state(0, 0));
    let setup = IncomingRpcPacket::Setup {
        channel: 1,
        init: state(150, 0),
        full_cycle_steps: 10,
        reverse: None,
        full_tilt_steps: None,
        sgthrs: None,
    };
    assert_eq!(c.handle_command(&setup, &flags), Err(CommandError::InvalidPosition));
}

#[test]
fn setup_set_get_and_home() {
    let mut c: Controller<1024> = Controller::new(4, 0);
    let flags = SharedFlags::new();
    let setup = IncomingRpcPacket::Setup {
        channel: 1,
        init: state(20, 0),
        full_cycle_steps: 1000,
        reverse: Some(true),
        full_tilt_steps: None,
        sgthrs: Some(7),
    };
    assert_eq!(
        c.handle_command(&setup, &flags),
        Ok(CommandOutcome {
            report: Some(OutgoingRpcPacket::Position { channel: 1, current: state(20, 0), desired: state(20, 0) }),
            stall_guard_threshold: Some(7),
            stall_guard_query: false,
        })
    );
    assert_eq!(flags.reversals(), 0b10);
    let set = IncomingRpcPacket::SetTarget { channel: 1, position: Some(25), tilt: None };
    assert_eq!(
        c.handle_command(&set, &flags).unwrap().report,
        Some(OutgoingRpcPacket::Position { channel: 1, current: state(20, 0), desired: state(25, 0) })
    );
    assert_eq!(
        c.handle_command(&IncomingRpcPacket::Get { channel: 1 }, &flags).unwrap().report,
        Some(OutgoingRpcPacket::Position { channel: 1, current: state(20, 0), desired: state(25, 0) })
    );
    assert_eq!(
        c.handle_command(&IncomingRpcPacket::Home { channel: 2 }, &flags).unwrap().report,
        Some(OutgoingRpcPacket::Position { channel: 2, current: state(0, 90), desired: state(100, 90) })
    );
    assert_eq!(
        c.handle_command(&IncomingRpcPacket::GetStallGuardResult { channel: 3 }, &flags),
        Ok(CommandOutcome { report: None, stall_guard_threshold: None, stall_guard_query: true })
    );
    let clear = IncomingRpcPacket::Setup {
        channel: 1,
        init: state(20, 0),
        full_cycle_steps: 1000,
        reverse: None,
        full_tilt_steps: None,
        sgthrs: None,
    };
    c.handle_command(&clear, &flags).unwrap();
    assert_eq!(flags.reversals(), 0);
}

#[test]
fn controller_ticks_through_a_move() {
    let mut c: Controller<1024> = Controller::new(2, 0);
    let flags = SharedFlags::new();
    let setup = IncomingRpcPacket::Setup {
        channel: 1,
        init: state(20, 0),
        full_cycle_steps: 1000,
        reverse: Some(true),
        full_tilt_steps: None,
        sgthrs: None,
    };
    c.handle_command(&setup, &flags).unwrap();
    c.handle_command(&IncomingRpcPacket::SetTarget { channel: 1, position: Some(25), tilt: None }, &flags).unwrap();
    let status = vec![GeneratorStatus { ready: true, stopped: true }; 2];

    let a = c.tick(0, 0b10, &status, 1_000_000);
    assert_eq!(a, vec![ChannelActions { enable: Some(false), ..IDLE }, IDLE]);
    assert_eq!(
        c.channel(1).next_buffered,
        Some(WindowDressingInstruction { quality: Direction::Retract, quantity: 50, completed_state: state(25, 0) })
    );

    let a = c.tick(0, 0b10, &status, 2_000_000);
    assert_eq!(
        a[1],
        ChannelActions { enable: Some(true), direction: Some(true), add_steps: Some(50), report_position: true, ..IDLE }
    );
    assert_eq!(c.channel(1).last_reversal, 2_000_000);

    // within the guard time the switch is ignored
    c.tick(0b10, 0b10, &status, 2_100_000);
    assert_eq!(*c.sequencer(1).get_current_state(), state(25, 0));

    let a = c.tick(0b10, 0b10, &status, 3_000_000);
    assert_eq!(a[1], ChannelActions { clear_steps: true, enable: Some(false), report_position: true, ..IDLE });
    assert_eq!(c.position_report(1), OutgoingRpcPacket::Position { channel: 1, current: state(0, 0), desired: state(0, 0) });
}

#[test]
fn poll_takes_flags_once() {
    let mut c: Controller<1024> = Controller::new(1, 0);
    let flags = SharedFlags::new();
    c.handle_command(&IncomingRpcPacket::SetTarget { channel: 0, position: Some(30), tilt: None }, &flags).unwrap();
    flags.signal_endstop(0);
    let status = vec![GeneratorStatus { ready: true, stopped: true }];
    let a = c.poll(&flags, &status, 10_000_000);
    assert_eq!(a, vec![ChannelActions { clear_steps: true, enable: Some(false), report_position: true, ..IDLE }]);
    assert_eq!(*c.sequencer(0).get_current_state(), state(100, 0));
    assert_eq!(flags.take_endstops(), 0);
    let a = c.poll(&flags, &status, 11_000_000);
    assert_eq!(a[0].clear_steps, false);
}

#[test]
fn buffered_hold_never_sends_pulses() {
    let mut seq: HaltingSequencer<64> = HaltingSequencer::new_roller(10_000);
    let buffered = Some(instr(Direction::Hold, HOLD_QUANTITY));
    // latched to Hold, generator still busy: the pause waits
    let mut st = fresh_channel(Direction::Hold, buffered);
    let a = tick_channel(&mut st, &mut seq, &inputs(1_000, false, false, true, false));
    assert_eq!(a, ChannelActions { enable: Some(true), ..IDLE });
    assert_eq!(st.next_buffered, buffered);
    // stopped and past the deadline: the pause starts, timed by the clock
    let a = tick_channel(&mut st, &mut seq, &inputs(2_000, false, false, true, true));
    assert_eq!(a, ChannelActions { enable: Some(true), report_position: true, ..IDLE });
    assert_eq!(st, ChannelState { next_buffered: None, resume_after: 502_000, last_reversal: 2_000, direction: Direction::Hold });
}

#[test]
fn endstop_closed_at_boot_sends_no_pulses() {
    let mut c: Controller<1024> = Controller::new(1, 0);
    let flags = SharedFlags::new();
    let status = vec![GeneratorStatus { ready: true, stopped: true }];
    flags.signal_endstop(0);
    let a = c.poll(&flags, &status, 600_000);
    assert!(a[0].clear_steps);
    for t in 1..6u64 {
        let a = c.poll(&flags, &status, 600_000 + t * 250_000);
        assert_eq!(a[0].add_steps, None);
        assert_eq!(a[0].direction, None);
    }
}

#[test]
fn tilt_outside_range_is_refused() {
    let mut c: Controller<1024> = Controller::new(2, 0);
    let flags = SharedFlags::new();
    let set = IncomingRpcPacket::SetTarget { channel: 0, position: Some(10), tilt: Some(91) };
    assert_eq!(c.handle_command(&set, &flags), Err(CommandError::InvalidTilt));
    assert_eq!(*c.sequencer(0).get_desired_state(), state(0, 0));
    let setup = IncomingRpcPacket::Setup {
        channel: 1,
        init: state(10, -91),
        full_cycle_steps: 10,
        reverse: None,
        full_tilt_steps: Some(180),
        sgthrs: None,
    };
    assert_eq!(c.handle_command(&setup, &flags), Err(CommandError::InvalidTilt));
}

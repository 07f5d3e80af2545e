use blinds_controller::{dir_hold, stp_rise, Direction, DriverLines, WindowDressingInstruction, WindowDressingState};

fn instr(quality: Direction, quantity: u32) -> WindowDressingInstruction {
    WindowDressingInstruction { quality, quantity, completed_state: WindowDressingState { position: 1, tilt: 0 } }
}

#[test]
fn dir_hold_levels() {
    assert_eq!(dir_hold(None), DriverLines { enable: true, dir: None });
    assert_eq!(dir_hold(Some(Direction::Extend)), DriverLines { enable: false, dir: Some(true) });
    assert_eq!(dir_hold(Some(Direction::Retract)), DriverLines { enable: false, dir: Some(false) });
    assert_eq!(dir_hold(Some(Direction::Hold)), DriverLines { enable: false, dir: None });
}

#[test]
fn stp_rise_counts_down_then_drops() {
    let mut cur = Some(instr(Direction::Retract, 2));
    assert!(stp_rise(&mut cur));
    assert_eq!(cur, Some(instr(Direction::Retract, 1)));
    assert!(stp_rise(&mut cur));
    assert_eq!(cur, Some(instr(Direction::Retract, 0)));
    assert!(!stp_rise(&mut cur));
    assert_eq!(cur, None);
    assert!(!stp_rise(&mut cur));
}

#[test]
fn stp_rise_pause_spends_counts_without_stepping() {
    let mut cur = Some(instr(Direction::Hold, 1));
    assert!(!stp_rise(&mut cur));
    assert_eq!(cur, Some(instr(Direction::Hold, 0)));
}

use crate::state::{Direction, WindowDressingInstruction};
use vstd::prelude::*;

verus! {

/// Levels for a step/direction driver's lines: `enable` is the level of the active-low
/// enable line, `dir` the level of the direction line where it changes.
#[derive(Clone, Copy, Debug, PartialEq, Eq, Structural)]
pub struct DriverLines {
    pub enable: bool,
    pub dir: Option<bool>,
}

/// The line levels for holding a direction: `None` releases the driver; `Extend` drives the
/// direction line high, `Retract` low, and `Hold` leaves it.
pub fn dir_hold(direction: Option<Direction>) -> (r: DriverLines)
    ensures
        r == (match direction {
            None => DriverLines { enable: true, dir: None },
            Some(Direction::Extend) => DriverLines { enable: false, dir: Some(true) },
            Some(Direction::Retract) => DriverLines { enable: false, dir: Some(false) },
            Some(Direction::Hold) => DriverLines { enable: false, dir: None },
        }),
{
    match direction {
        Some(Direction::Extend) => DriverLines { enable: false, dir: Some(true) },
        Some(Direction::Retract) => DriverLines { enable: false, dir: Some(false) },
        Some(Direction::Hold) => DriverLines { enable: false, dir: None },
        None => DriverLines { enable: true, dir: None },
    }
}

/// The rising half of a software step pulse: spends one count of the instruction in
/// progress and says whether the step line goes high (not for a pause). An instruction
/// with no count left is dropped.
pub fn stp_rise(instr: &mut Option<WindowDressingInstruction>) -> (r: bool)
    ensures
        match *old(instr) {
            Some(i) if i.quantity > 0 => {
                &&& *final(instr) == Some(WindowDressingInstruction { quantity: (i.quantity - 1) as u32, ..i })
                &&& r == (i.quality != Direction::Hold)
            },
            _ => *final(instr) is None && !r,
        },
{
    match *instr {
        Some(i) => {
            if i.quantity == 0 {
                *instr = None;
                false
            } else {
                *instr = Some(WindowDressingInstruction { quantity: i.quantity - 1, ..i });
                i.quality != Direction::Hold
            }
        },
        None => false,
    }
}

} // verus!

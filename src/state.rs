use core::cmp::Ordering;
use vstd::prelude::*;

verus! {

/// Position and slat tilt of a window dressing.
///
/// `position` runs from 0 (closed) to 100 (opened); `tilt` is in degrees, from -90 to 90.
#[derive(Clone, Copy, Debug, PartialEq, Eq, Structural)]
pub struct WindowDressingState {
    pub position: u8,
    pub tilt: i8,
}

/// Motion sense of an instruction. `Retract` opens (raises `position`), `Extend` closes,
/// `Hold` is a timed pause without motion.
#[derive(Clone, Copy, Debug, PartialEq, Eq, Structural)]
pub enum Direction {
    Extend,
    Retract,
    Hold,
}

/// One step of motion: `quantity` pulses in the direction `quality`, after which the
/// dressing is in `completed_state`.
#[derive(Clone, Copy, Debug, PartialEq, Eq, Structural)]
pub struct WindowDressingInstruction {
    pub quality: Direction,
    pub quantity: u32,
    pub completed_state: WindowDressingState,
}

impl WindowDressingState {
    /// Fully closed, slats shut.
    pub fn closed() -> (r: Self)
        ensures
            r == (WindowDressingState { position: 0, tilt: 90 }),
    {
        WindowDressingState { position: 0, tilt: 90 }
    }

    /// Fully opened, slats level.
    pub fn opened() -> (r: Self)
        ensures
            r == (WindowDressingState { position: 100, tilt: 0 }),
    {
        WindowDressingState { position: 100, tilt: 0 }
    }

    /// Position and tilt are in range.
    pub open spec fn is_valid(self) -> bool {
        self.position <= 100 && -90 <= self.tilt <= 90
    }
}

/// Total order on states: by `position` first; at equal `position` a higher `tilt` (more
/// closed slats) sorts lower.
pub open spec fn state_order(a: WindowDressingState, b: WindowDressingState) -> Ordering {
    if a.position == b.position {
        if a.tilt > b.tilt {
            Ordering::Less
        } else if a.tilt == b.tilt {
            Ordering::Equal
        } else {
            Ordering::Greater
        }
    } else if a.position < b.position {
        Ordering::Less
    } else {
        Ordering::Greater
    }
}

impl WindowDressingState {
    /// Compares two states by [`state_order`].
    pub fn order(&self, other: &Self) -> (r: Ordering)
        ensures
            r == state_order(*self, *other),
    {
        if self.position == other.position {
            if self.tilt > other.tilt {
                Ordering::Less
            } else if self.tilt == other.tilt {
                Ordering::Equal
            } else {
                Ordering::Greater
            }
        } else if self.position < other.position {
            Ordering::Less
        } else {
            Ordering::Greater
        }
    }
}

impl PartialOrd for WindowDressingState {
    fn partial_cmp(&self, other: &Self) -> (r: Option<Ordering>) {
        Some(self.order(other))
    }
}

impl vstd::std_specs::cmp::PartialOrdSpecImpl for WindowDressingState {
    open spec fn obeys_partial_cmp_spec() -> bool {
        true
    }

    open spec fn partial_cmp_spec(&self, other: &WindowDressingState) -> Option<Ordering> {
        Some(state_order(*self, *other))
    }
}

impl WindowDressingInstruction {
    /// Folds `rhs` into `self`: the pulse counts add up and the later completed state wins.
    /// Only instructions of one direction can be merged.
    pub fn merge(&mut self, rhs: &WindowDressingInstruction)
        requires
            old(self).quality == rhs.quality,
            old(self).quantity + rhs.quantity <= u32::MAX,
        ensures
            *final(self) == (WindowDressingInstruction {
                quality: rhs.quality,
                quantity: (old(self).quantity + rhs.quantity) as u32,
                completed_state: rhs.completed_state,
            }),
    {
        self.quantity = self.quantity + rhs.quantity;
        self.completed_state = rhs.completed_state;
    }
}

} // verus!

use crate::sequencer::HaltingSequencer;
use crate::state::{Direction, WindowDressingInstruction};
use core::time::Duration;
use vstd::prelude::*;

verus! {

/// Spreads a sequencer's instructions into single pulses of a fixed period.
pub struct FixedFrequencyStepperModulator<const N: usize> {
    pub period: Duration,
    pub sequencer: HaltingSequencer<N>,
    pub cur_instruction: Option<WindowDressingInstruction>,
}

/// Pulses left of the instruction in progress.
pub open spec fn remaining(cur: Option<WindowDressingInstruction>) -> u32 {
    match cur {
        Some(i) => i.quantity,
        None => 0,
    }
}

impl<const N: usize> FixedFrequencyStepperModulator<N> {
    pub fn new(period: Duration, sequencer: HaltingSequencer<N>) -> (r: Self)
        ensures
            r.period == period,
            r.sequencer == sequencer,
            r.cur_instruction is None,
    {
        FixedFrequencyStepperModulator { period, sequencer, cur_instruction: None }
    }

    /// The next pulse: its direction and the period. An exhausted instruction is replaced by
    /// the next grouped one, taken without a count limit.
    pub fn next(&mut self) -> (r: Option<(Direction, Duration)>)
        requires
            old(self).sequencer.wf(),
        ensures
            final(self).sequencer.wf(),
            final(self).period == old(self).period,
            ({
                let (seq, cur) = if remaining(old(self).cur_instruction) == 0 {
                    let (s, g) = old(self).sequencer@.grouped(u32::MAX);
                    (s, g)
                } else {
                    (old(self).sequencer@, old(self).cur_instruction)
                };
                &&& final(self).sequencer@ == seq
                &&& match cur {
                    Some(c) if c.quantity > 0 => {
                        &&& r == Some((c.quality, old(self).period))
                        &&& final(self).cur_instruction == Some(
                            WindowDressingInstruction { quantity: (c.quantity - 1) as u32, ..c },
                        )
                    },
                    _ => r is None && final(self).cur_instruction == cur,
                }
            }),
    {
        let remaining = match &self.cur_instruction {
            Some(i) => i.quantity,
            None => 0,
        };
        if remaining == 0 {
            self.cur_instruction = self.sequencer.get_next_instruction_grouped(u32::MAX);
        }
        match self.cur_instruction {
            Some(cur) => {
                if cur.quantity > 0 {
                    self.cur_instruction = Some(
                        WindowDressingInstruction { quantity: cur.quantity - 1, ..cur },
                    );
                    Some((cur.quality, self.period))
                } else {
                    None
                }
            },
            None => None,
        }
    }
}

} // verus!

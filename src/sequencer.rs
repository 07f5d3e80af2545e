use crate::state::{Direction, WindowDressingInstruction, WindowDressingState};
use std::collections::VecDeque;
use vstd::prelude::*;

verus! {

/// Pulses of the pause that separates two opposite motions, so that a motor that is still
/// slowing down is never driven straight into reverse.
pub const HOLD_QUANTITY: u32 = 500;

/// Default pulse count of a full 0..100 travel, used until the host sends a setup.
pub const DEFAULT_FULL_CYCLE_QUANTITY: u32 = 100_000;

/// The mathematical state of a sequencer.
pub struct SequencerView {
    pub full_cycle_quantity: u32,
    pub full_tilt_quantity: Option<u32>,
    pub queue: Seq<WindowDressingInstruction>,
    pub current: WindowDressingState,
    pub desired: WindowDressingState,
}

pub open spec fn direction_for(opening: bool) -> Direction {
    if opening {
        Direction::Retract
    } else {
        Direction::Extend
    }
}

pub open spec fn hold_at(quantity: u32, s: WindowDressingState) -> WindowDressingInstruction {
    WindowDressingInstruction { quality: Direction::Hold, quantity, completed_state: s }
}

/// Appending to a queue of capacity `cap`: a full queue is left as it is.
pub open spec fn push_bounded(
    q: Seq<WindowDressingInstruction>,
    i: WindowDressingInstruction,
    cap: nat,
) -> Seq<WindowDressingInstruction> {
    if q.len() < cap {
        q.push(i)
    } else {
        q
    }
}

/// `q` followed by `k` one-degree tilt steps from angle `from`, at a fixed `position`.
pub open spec fn tilt_steps(
    q: Seq<WindowDressingInstruction>,
    cap: nat,
    quantity: u32,
    position: u8,
    from: int,
    opening: bool,
    k: nat,
) -> Seq<WindowDressingInstruction>
    decreases k,
{
    if k == 0 {
        q
    } else {
        let tilt = if opening {
            from - k
        } else {
            from + k
        };
        push_bounded(
            tilt_steps(q, cap, quantity, position, from, opening, (k - 1) as nat),
            WindowDressingInstruction {
                quality: direction_for(opening),
                quantity,
                completed_state: WindowDressingState { position, tilt: tilt as i8 },
            },
            cap,
        )
    }
}

/// `q` followed by `k` one-percent travel steps from position `from`, at a fixed `tilt`.
pub open spec fn position_steps(
    q: Seq<WindowDressingInstruction>,
    cap: nat,
    quantity: u32,
    from: int,
    tilt: i8,
    opening: bool,
    k: nat,
) -> Seq<WindowDressingInstruction>
    decreases k,
{
    if k == 0 {
        q
    } else {
        let position = if opening {
            from + k
        } else {
            from - k
        };
        push_bounded(
            position_steps(q, cap, quantity, from, tilt, opening, (k - 1) as nat),
            WindowDressingInstruction {
                quality: direction_for(opening),
                quantity,
                completed_state: WindowDressingState { position: position as u8, tilt },
            },
            cap,
        )
    }
}

pub open spec fn abs_diff(a: int, b: int) -> nat {
    if a >= b {
        (a - b) as nat
    } else {
        (b - a) as nat
    }
}

impl SequencerView {
    /// Every state is in range and the queue fits its capacity.
    pub open spec fn wf(self, cap: nat) -> bool {
        &&& self.queue.len() <= cap
        &&& self.current.is_valid()
        &&& self.desired.is_valid()
        &&& forall|i: int| 0 <= i < self.queue.len() ==> (#[trigger] self.queue[i]).completed_state.is_valid()
    }

    /// The state once every queued instruction has run.
    pub open spec fn tail_state(self) -> WindowDressingState {
        if self.queue.len() > 0 {
            self.queue.last().completed_state
        } else {
            self.current
        }
    }

    pub open spec fn with_queue(self, q: Seq<WindowDressingInstruction>) -> SequencerView {
        SequencerView { queue: q, ..self }
    }

    /// Queues the tilt from angle `from` to angle `to`, which becomes the desired tilt; with
    /// equal angles, or without tilting slats, nothing changes.
    pub open spec fn add_tilt(self, from: i8, to: i8, cap: nat) -> SequencerView {
        if from == to || self.full_tilt_quantity is None {
            self
        } else {
            let opening = to < from;
            let quality = direction_for(opening);
            let position = self.tail_state().position;
            let desired = WindowDressingState { tilt: to, ..self.desired };
            let q = if position == 100 {
                push_bounded(self.queue, hold_at(0, WindowDressingState { position, tilt: to }), cap)
            } else {
                let q1 = if self.queue.len() > 0 && self.queue.last().quality != quality {
                    push_bounded(self.queue, hold_at(HOLD_QUANTITY, self.queue.last().completed_state), cap)
                } else {
                    self.queue
                };
                tilt_steps(
                    q1,
                    cap,
                    (self.full_tilt_quantity.unwrap() / 180) as u32,
                    position,
                    from as int,
                    opening,
                    abs_diff(to as int, from as int),
                )
            };
            SequencerView { queue: q, desired, ..self }
        }
    }

    /// Replaces the queue with the travel from the current position to `target`.
    pub open spec fn set_position(self, target: u8, cap: nat) -> SequencerView {
        let cur = self.current;
        let desired = WindowDressingState { position: target, ..self.desired };
        if target == cur.position {
            SequencerView { queue: Seq::empty(), desired, ..self }
        } else {
            let opening = target > cur.position;
            let quality = direction_for(opening);
            let q1 = if self.queue.len() > 0 && self.queue.last().quality != quality {
                push_bounded(Seq::empty(), hold_at(HOLD_QUANTITY, cur), cap)
            } else {
                Seq::empty()
            };
            let angle: i8 = if opening {
                -90i8
            } else {
                90i8
            };
            let s2 = SequencerView { queue: q1, desired, ..self }.add_tilt(cur.tilt, angle, cap);
            let moving_tilt: i8 = if self.full_tilt_quantity is None {
                0i8
            } else {
                angle
            };
            let q3 = position_steps(
                s2.queue,
                cap,
                (self.full_cycle_quantity / 100) as u32,
                cur.position as int,
                moving_tilt,
                opening,
                abs_diff(target as int, cur.position as int),
            );
            s2.with_queue(q3).add_tilt(moving_tilt, cur.tilt, cap)
        }
    }

    /// With tilting slats, `angle` becomes the desired tilt and the way to it from the
    /// queue's last tilt is queued; without, nothing changes.
    pub open spec fn set_tilt(self, angle: i8, cap: nat) -> SequencerView {
        if self.full_tilt_quantity is None {
            self
        } else {
            SequencerView { desired: WindowDressingState { tilt: angle, ..self.desired }, ..self }.add_tilt(
                self.tail_state().tilt,
                angle,
                cap,
            )
        }
    }

    pub open spec fn set_state(self, s: WindowDressingState, cap: nat) -> SequencerView {
        self.set_position(s.position, cap).set_tilt(s.tilt, cap)
    }

    pub open spec fn load_state(self, s: WindowDressingState) -> SequencerView {
        SequencerView { current: s, desired: s, ..self }
    }

    /// Removing the front instruction, which becomes the current state. A queue emptied by
    /// a motion gets a pause in its place.
    pub open spec fn pop(self) -> (SequencerView, Option<WindowDressingInstruction>) {
        if self.queue.len() == 0 {
            (self, None)
        } else {
            let next = self.queue[0];
            let rest = self.queue.drop_first();
            let q = if rest.len() == 0 && next.quality != Direction::Hold {
                seq![hold_at(HOLD_QUANTITY, next.completed_state)]
            } else {
                rest
            };
            (SequencerView { queue: q, current: next.completed_state, ..self }, Some(next))
        }
    }

    /// A bound on the pops left before the queue stays empty.
    pub open spec fn pops_left(self) -> nat {
        if self.queue.len() > 0 && self.queue.last().quality != Direction::Hold {
            self.queue.len() + 1
        } else {
            self.queue.len()
        }
    }

    /// Merging further instructions into `buf` while the front one has its direction: each
    /// merged one is popped, and merging stops once `buf` reaches the threshold, at an empty
    /// queue, at an instruction of another direction (left where it is) or at a count that
    /// would overflow.
    pub open spec fn group_from(self, buf: WindowDressingInstruction, threshold: u32) -> (
        SequencerView,
        WindowDressingInstruction,
    )
        decreases self.pops_left(),
    {
        if buf.quantity >= threshold || self.queue.len() == 0 || self.queue[0].quality != buf.quality
            || buf.quantity + self.queue[0].quantity > u32::MAX {
            (self, buf)
        } else {
            let (s1, n) = self.pop();
            let next = n.unwrap();
            s1.group_from(
                WindowDressingInstruction {
                    quality: buf.quality,
                    quantity: (buf.quantity + next.quantity) as u32,
                    completed_state: next.completed_state,
                },
                threshold,
            )
        }
    }

    pub open spec fn grouped(self, threshold: u32) -> (SequencerView, Option<WindowDressingInstruction>) {
        let (s1, first) = self.pop();
        match first {
            None => (self, None),
            Some(b) => {
                let (s2, r) = s1.group_from(b, threshold);
                (s2, Some(r))
            },
        }
    }

    /// The extreme that an endstop signal stands for: opened when the dressing was heading
    /// up (or sat at the top), closed otherwise.
    pub open spec fn endstop_reached_opened(self) -> bool {
        if self.current.position == self.desired.position {
            self.current.tilt > self.desired.tilt
        } else {
            self.current.position < self.desired.position || self.current.position == 100
        }
    }

    pub open spec fn trig_endstop(self, cap: nat) -> SequencerView {
        let end = WindowDressingState {
            position: if self.endstop_reached_opened() {
                100u8
            } else {
                0u8
            },
            tilt: if self.full_tilt_quantity is Some {
                90i8
            } else {
                0i8
            },
        };
        SequencerView {
            queue: push_bounded(Seq::empty(), hold_at(HOLD_QUANTITY, end), cap),
            current: end,
            desired: end,
            ..self
        }
    }

    pub open spec fn home_fully_opened(self, cap: nat) -> SequencerView {
        self.load_state(WindowDressingState { position: 0, tilt: 90 }).set_position(100, cap)
    }

    pub open spec fn home_fully_closed(self, cap: nat) -> SequencerView {
        self.load_state(WindowDressingState { position: 100, tilt: 0 }).set_position(0, cap)
    }
}

/// Turns position and tilt targets into a bounded queue of pulse instructions, holding at
/// most `N` of them. Pushing onto a full queue leaves the queue as it was.
pub struct HaltingSequencer<const N: usize> {
    full_cycle_quantity: u32,
    full_tilt_quantity: Option<u32>,
    instructions: VecDeque<WindowDressingInstruction>,
    current_state: WindowDressingState,
    desired_state: WindowDressingState,
}

impl<const N: usize> View for HaltingSequencer<N> {
    type V = SequencerView;

    closed spec fn view(&self) -> SequencerView {
        SequencerView {
            full_cycle_quantity: self.full_cycle_quantity,
            full_tilt_quantity: self.full_tilt_quantity,
            queue: self.instructions@,
            current: self.current_state,
            desired: self.desired_state,
        }
    }
}

impl<const N: usize> HaltingSequencer<N> {
    pub open spec fn wf(&self) -> bool {
        self@.wf(N as nat)
    }

    pub fn new(full_cycle_quantity: u32, full_tilt_quantity: Option<u32>) -> (r: Self)
        ensures
            r.wf(),
            r@ == (SequencerView {
                full_cycle_quantity,
                full_tilt_quantity,
                queue: Seq::empty(),
                current: WindowDressingState { position: 0, tilt: 0 },
                desired: WindowDressingState { position: 0, tilt: 0 },
            }),
    {
        HaltingSequencer {
            full_cycle_quantity,
            full_tilt_quantity,
            instructions: VecDeque::new(),
            current_state: WindowDressingState { position: 0, tilt: 0 },
            desired_state: WindowDressingState { position: 0, tilt: 0 },
        }
    }

    /// A dressing without tilt.
    pub fn new_roller(full_cycle_quantity: u32) -> (r: Self)
        ensures
            r.wf(),
            r@ == (SequencerView {
                full_cycle_quantity,
                full_tilt_quantity: None,
                queue: Seq::empty(),
                current: WindowDressingState { position: 0, tilt: 0 },
                desired: WindowDressingState { position: 0, tilt: 0 },
            }),
    {
        Self::new(full_cycle_quantity, None)
    }

    /// A dressing with tilting slats.
    pub fn new_venetian(full_cycle_quantity: u32, full_tilt_quantity: u32) -> (r: Self)
        ensures
            r.wf(),
            r@ == (SequencerView {
                full_cycle_quantity,
                full_tilt_quantity: Some(full_tilt_quantity),
                queue: Seq::empty(),
                current: WindowDressingState { position: 0, tilt: 0 },
                desired: WindowDressingState { position: 0, tilt: 0 },
            }),
    {
        Self::new(full_cycle_quantity, Some(full_tilt_quantity))
    }

    fn push_back_bounded(&mut self, i: WindowDressingInstruction)
        requires
            old(self).wf(),
            i.completed_state.is_valid(),
        ensures
            final(self).wf(),
            final(self)@ == old(self)@.with_queue(push_bounded(old(self)@.queue, i, N as nat)),
    {
        if self.instructions.len() < N {
            self.instructions.push_back(i);
        }
    }

    /// The state reached once the queue has run: what the last command asked for.
    fn get_tail_state(&self) -> (r: WindowDressingState)
        ensures
            r == self@.tail_state(),
    {
        let len = self.instructions.len();
        if len > 0 {
            self.instructions[len - 1].completed_state
        } else {
            self.current_state
        }
    }

    /// Queues the tilt from `from_angle` to `to_angle`, one degree per instruction.
    fn add_tilt(&mut self, from_angle: i8, to_angle: i8)
        requires
            old(self).wf(),
            -90 <= from_angle <= 90,
            -90 <= to_angle <= 90,
        ensures
            final(self).wf(),
            final(self)@ == old(self)@.add_tilt(from_angle, to_angle, N as nat),
    {
        let full_tilt_quantity = match self.full_tilt_quantity {
            Some(q) => q,
            None => {
                return;
            },
        };
        if from_angle == to_angle {
            return;
        }
        self.desired_state.tilt = to_angle;
        let opening = to_angle < from_angle;
        let quality = if opening {
            Direction::Retract
        } else {
            Direction::Extend
        };
        let position = self.get_tail_state().position;

        if position == 100 {
            self.push_back_bounded(
                WindowDressingInstruction {
                    quality: Direction::Hold,
                    quantity: 0,
                    completed_state: WindowDressingState { position, tilt: to_angle },
                },
            );
            return;
        }
        let len = self.instructions.len();
        if len > 0 {
            let tail = self.instructions[len - 1];
            if tail.quality != quality {
                self.push_back_bounded(
                    WindowDressingInstruction {
                        quality: Direction::Hold,
                        quantity: HOLD_QUANTITY,
                        completed_state: tail.completed_state,
                    },
                );
            }
        }
        let ghost q1 = self@.queue;
        let quantity = full_tilt_quantity / 180;
        let change: i16 = if opening {
            from_angle as i16 - to_angle as i16
        } else {
            to_angle as i16 - from_angle as i16
        };
        let mut k: i16 = 1;
        while k <= change
            invariant
                1 <= k <= change + 1,
                change == abs_diff(to_angle as int, from_angle as int),
                -90 <= from_angle <= 90,
                -90 <= to_angle <= 90,
                opening == (to_angle < from_angle),
                quality == direction_for(opening),
                position <= 100,
                self.wf(),
                self@ == old(self)@.add_tilt(from_angle, to_angle, N as nat).with_queue(self@.queue),
                self@.queue == tilt_steps(q1, N as nat, quantity, position, from_angle as int, opening, (k - 1) as nat),
            decreases change + 1 - k,
        {
            let tilt: i8 = if opening {
                (from_angle as i16 - k) as i8
            } else {
                (from_angle as i16 + k) as i8
            };
            self.push_back_bounded(
                WindowDressingInstruction {
                    quality,
                    quantity,
                    completed_state: WindowDressingState { position, tilt },
                },
            );
            k = k + 1;
        }
    }

    /// Takes the front instruction; it becomes the current state. Once a motion empties
    /// the queue, a pause of [`HOLD_QUANTITY`] pulses is left in it.
    pub fn get_next_instruction(&mut self) -> (r: Option<WindowDressingInstruction>)
        requires
            old(self).wf(),
        ensures
            final(self).wf(),
            (final(self)@, r) == old(self)@.pop(),
    {
        match self.instructions.pop_front() {
            Some(next) => {
                assert(old(self)@.queue[0].completed_state.is_valid());
                self.current_state = next.completed_state;
                if self.instructions.len() == 0 && next.quality != Direction::Hold {
                    self.instructions.push_back(
                        WindowDressingInstruction {
                            quality: Direction::Hold,
                            quantity: HOLD_QUANTITY,
                            completed_state: next.completed_state,
                        },
                    );
                    assert(self.instructions@ =~= seq![hold_at(HOLD_QUANTITY, next.completed_state)]);
                }
                Some(next)
            },
            None => None,
        }
    }

    /// Takes the front instruction merged with those of the same direction behind it, until
    /// the merged count reaches `threshold`. An instruction of another direction stays
    /// where it is, untouched.
    pub fn get_next_instruction_grouped(&mut self, threshold: u32) -> (r: Option<WindowDressingInstruction>)
        requires
            old(self).wf(),
        ensures
            final(self).wf(),
            (final(self)@, r) == old(self)@.grouped(threshold),
            r is None <==> old(self)@.queue.len() == 0,
            r is None ==> final(self)@ == old(self)@,
            r matches Some(g) ==> exists|k: nat|
                #[trigger] merges_front_run(old(self)@.queue, g, k, threshold) && final(self)@ == (SequencerView {
                    queue: popped_queue(old(self)@.queue, k),
                    current: g.completed_state,
                    ..old(self)@
                }),
    {
        proof {
            lemma_grouped_merges_front_run(self@, threshold);
        }
        let first = self.get_next_instruction();
        match first {
            None => None,
            Some(first) => {
                let ghost target = self@.group_from(first, threshold);
                let mut buf = first;
                loop
                    invariant_except_break
                        self.wf(),
                        self@.group_from(buf, threshold) == target,
                    ensures
                        self.wf(),
                        (self@, buf) == target,
                    decreases self@.pops_left(),
                {
                    if buf.quantity >= threshold {
                        break;
                    }
                    let len = self.instructions.len();
                    if len == 0 {
                        break;
                    }
                    let front = self.instructions[0];
                    if front.quality != buf.quality || buf.quantity > u32::MAX - front.quantity {
                        break;
                    }
                    match self.get_next_instruction() {
                        Some(next) => {
                            buf.merge(&next);
                        },
                        None => {
                            break;
                        },
                    }
                }
                Some(buf)
            },
        }
    }

    pub fn get_current_state(&self) -> (r: &WindowDressingState)
        ensures
            *r == self@.current,
    {
        &self.current_state
    }

    pub fn get_desired_state(&self) -> (r: &WindowDressingState)
        ensures
            *r == self@.desired,
    {
        &self.desired_state
    }

    /// Seeds a known position: current and desired state both become `state`.
    pub fn load_state(&mut self, state: &WindowDressingState)
        requires
            old(self).wf(),
            state.is_valid(),
        ensures
            final(self).wf(),
            final(self)@ == old(self)@.load_state(*state),
    {
        self.current_state = *state;
        self.desired_state = *state;
    }
    /// Replaces the queue with the travel from the current position to `opened` percent,
    /// one instruction per percent. A pause comes first where the queued motion ran the
    /// other way; tilting slats turn edge-on for the travel and back after it.
    pub fn set_position(&mut self, opened: u8)
        requires
            old(self).wf(),
            opened <= 100,
        ensures
            final(self).wf(),
            final(self)@ == old(self)@.set_position(opened, N as nat),
    {
        self.desired_state.position = opened;
        let tail = self.instructions.pop_back();
        self.instructions.clear();
        let cur = self.current_state;
        if opened == cur.position {
            return;
        }
        let opening = opened > cur.position;
        let quality = if opening {
            Direction::Retract
        } else {
            Direction::Extend
        };
        if let Some(tail) = tail {
            if tail.quality != quality {
                self.push_back_bounded(
                    WindowDressingInstruction {
                        quality: Direction::Hold,
                        quantity: HOLD_QUANTITY,
                        completed_state: cur,
                    },
                );
            }
        }
        let angle_while_moving: i8 = if opening {
            -90
        } else {
            90
        };
        self.add_tilt(cur.tilt, angle_while_moving);
        let moving_tilt: i8 = if self.full_tilt_quantity.is_none() {
            0
        } else {
            angle_while_moving
        };
        let ghost q2 = self@.queue;
        let ghost s2 = self@;
        let quantity = self.full_cycle_quantity / 100;
        let change: u8 = if opening {
            opened - cur.position
        } else {
            cur.position - opened
        };
        let mut k: u8 = 1;
        while k <= change
            invariant
                1 <= k <= change as int + 1,
                change == abs_diff(opened as int, cur.position as int),
                opening == (opened > cur.position),
                quality == direction_for(opening),
                cur.is_valid(),
                opened <= 100,
                -90 <= moving_tilt <= 90,
                self.wf(),
                self@ == s2.with_queue(self@.queue),
                self@.queue == position_steps(q2, N as nat, quantity, cur.position as int, moving_tilt, opening, (k - 1) as nat),
            decreases change as int + 1 - k,
        {
            let position: u8 = if opening {
                cur.position + k
            } else {
                cur.position - k
            };
            self.push_back_bounded(
                WindowDressingInstruction {
                    quality,
                    quantity,
                    completed_state: WindowDressingState { position, tilt: moving_tilt },
                },
            );
            k = k + 1;
        }
        self.add_tilt(moving_tilt, cur.tilt);
    }

    /// Queues the tilt from the angle the queue ends at to `angle`.
    pub fn set_tilt(&mut self, angle: i8)
        requires
            old(self).wf(),
            -90 <= angle <= 90,
        ensures
            final(self).wf(),
            final(self)@ == old(self)@.set_tilt(angle, N as nat),
            old(self)@.full_tilt_quantity is Some ==> final(self)@.desired.tilt == angle,
    {
        if self.full_tilt_quantity.is_none() {
            return;
        }
        let from = self.get_tail_state().tilt;
        self.desired_state.tilt = angle;
        self.add_tilt(from, angle);
    }

    pub fn set_state(&mut self, state: &WindowDressingState)
        requires
            old(self).wf(),
            state.is_valid(),
        ensures
            final(self).wf(),
            final(self)@ == old(self)@.set_state(*state, N as nat),
            final(self)@.desired.position == state.position,
            old(self)@.full_tilt_quantity is Some ==> final(self)@.desired == *state,
    {
        self.set_position(state.position);
        self.set_tilt(state.tilt);
    }

    /// A limit switch fired: the queue is dropped and current and desired state become the
    /// extreme that was reached, followed by a pause.
    pub fn trig_endstop(&mut self)
        requires
            old(self).wf(),
        ensures
            final(self).wf(),
            final(self)@ == old(self)@.trig_endstop(N as nat),
    {
        self.instructions.clear();
        let opening = if self.current_state.position == self.desired_state.position {
            self.current_state.tilt > self.desired_state.tilt
        } else {
            self.current_state.position < self.desired_state.position || self.current_state.position == 100
        };
        let tilt: i8 = if self.full_tilt_quantity.is_some() {
            90
        } else {
            0
        };
        let end_state = WindowDressingState {
            position: if opening {
                100
            } else {
                0
            },
            tilt,
        };
        self.current_state = end_state;
        self.desired_state = end_state;
        self.push_back_bounded(
            WindowDressingInstruction {
                quality: Direction::Hold,
                quantity: HOLD_QUANTITY,
                completed_state: end_state,
            },
        );
    }

    /// Walks an unknown position up to the opened extreme, by assuming it is closed.
    pub fn home_fully_opened(&mut self)
        requires
            old(self).wf(),
        ensures
            final(self).wf(),
            final(self)@ == old(self)@.home_fully_opened(N as nat),
    {
        self.current_state = WindowDressingState::closed();
        self.desired_state = WindowDressingState::closed();
        self.set_position(WindowDressingState::opened().position);
    }

    /// Walks an unknown position down to the closed extreme, by assuming it is opened.
    pub fn home_fully_closed(&mut self)
        requires
            old(self).wf(),
        ensures
            final(self).wf(),
            final(self)@ == old(self)@.home_fully_closed(N as nat),
    {
        self.current_state = WindowDressingState::opened();
        self.desired_state = WindowDressingState::opened();
        self.set_position(WindowDressingState::closed().position);
    }
}

} // verus!

verus! {

/// All `k` steps are appended when the queue has room for them.
proof fn lemma_position_steps_fit(
    q: Seq<WindowDressingInstruction>,
    cap: nat,
    quantity: u32,
    from: int,
    tilt: i8,
    opening: bool,
    k: nat,
)
    requires
        q.len() + k <= cap,
    ensures
        ({
            let r = position_steps(q, cap, quantity, from, tilt, opening, k);
            &&& r.len() == q.len() + k
            &&& r.subrange(0, q.len() as int) == q
            &&& forall|i: int|
                0 <= i < k ==> #[trigger] r[q.len() + i] == (WindowDressingInstruction {
                    quality: direction_for(opening),
                    quantity,
                    completed_state: WindowDressingState {
                        position: (if opening {
                            from + i + 1
                        } else {
                            from - i - 1
                        }) as u8,
                        tilt,
                    },
                })
        }),
    decreases k,
{
    if k > 0 {
        lemma_position_steps_fit(q, cap, quantity, from, tilt, opening, (k - 1) as nat);
        let prev = position_steps(q, cap, quantity, from, tilt, opening, (k - 1) as nat);
        let r = position_steps(q, cap, quantity, from, tilt, opening, k);
        assert(r == prev.push(r.last()));
        assert(r.subrange(0, q.len() as int) =~= prev.subrange(0, q.len() as int));
        assert forall|i: int| 0 <= i < k implies #[trigger] r[q.len() + i] == (WindowDressingInstruction {
            quality: direction_for(opening),
            quantity,
            completed_state: WindowDressingState {
                position: (if opening {
                    from + i + 1
                } else {
                    from - i - 1
                }) as u8,
                tilt,
            },
        }) by {
            if i < k - 1 {
                assert(r[q.len() + i] == prev[q.len() + i]);
            }
        }
    }
}

/// On a dressing without tilt, moving from position `p` to `target` queues exactly
/// `|target - p|` one-percent steps of `full_cycle_quantity / 100` pulses each, opening
/// (`Retract`) exactly when `target > p`, all at tilt 0, the last one ending at
/// `{target, 0}`. A single pause comes before them exactly when the motion queued before
/// ran the other way. This holds whenever the queue has room for the steps and the pause.
pub proof fn lemma_roller_set_position(s: SequencerView, target: u8, cap: nat)
    requires
        s.wf(cap),
        s.full_tilt_quantity is None,
        target <= 100,
        target != s.current.position,
        cap > abs_diff(target as int, s.current.position as int),
    ensures
        ({
            let r = s.set_position(target, cap);
            let k = abs_diff(target as int, s.current.position as int);
            let opening = target > s.current.position;
            let lead = r.queue.len() - k;
            &&& lead == 0 || lead == 1
            &&& (lead == 1) == (s.queue.len() > 0 && s.queue.last().quality != direction_for(opening))
            &&& lead == 1 ==> r.queue[0] == hold_at(HOLD_QUANTITY, s.current)
            &&& forall|i: int|
                0 <= i < k ==> #[trigger] r.queue[lead + i] == (WindowDressingInstruction {
                    quality: if target > s.current.position {
                        Direction::Retract
                    } else {
                        Direction::Extend
                    },
                    quantity: (s.full_cycle_quantity / 100) as u32,
                    completed_state: WindowDressingState {
                        position: (if opening {
                            s.current.position + i + 1
                        } else {
                            s.current.position - i - 1
                        }) as u8,
                        tilt: 0,
                    },
                })
            &&& r.queue.last().completed_state == (WindowDressingState { position: target, tilt: 0 })
        }),
{
    let k = abs_diff(target as int, s.current.position as int);
    let opening = target > s.current.position;
    let quality = direction_for(opening);
    let desired = WindowDressingState { position: target, ..s.desired };
    let q1 = if s.queue.len() > 0 && s.queue.last().quality != quality {
        push_bounded(Seq::empty(), hold_at(HOLD_QUANTITY, s.current), cap)
    } else {
        Seq::empty()
    };
    lemma_position_steps_fit(
        q1,
        cap,
        (s.full_cycle_quantity / 100) as u32,
        s.current.position as int,
        0i8,
        opening,
        k,
    );
    let r = s.set_position(target, cap);
    let q3 = position_steps(q1, cap, (s.full_cycle_quantity / 100) as u32, s.current.position as int, 0i8, opening, k);
    let s2 = SequencerView { queue: q1, desired, ..s }.add_tilt(s.current.tilt, if opening { -90i8 } else { 90i8 }, cap);
    assert(s2 == SequencerView { queue: q1, desired, ..s });
    assert(r == s2.with_queue(q3));
    assert(r.queue == q3);
    if q1.len() == 1 {
        assert(r.queue[0] == r.queue.subrange(0, 1)[0]);
    }
    assert(r.queue.last() == r.queue[q1.len() + (k - 1)]);
    if opening {
        assert(s.current.position + (k - 1) + 1 == target);
    } else {
        assert(s.current.position - (k - 1) - 1 == target);
    }
}

/// Draining the last queued motion leaves exactly one pause of [`HOLD_QUANTITY`] pulses in
/// the queue, at the state that motion reached.
pub proof fn lemma_drain_leaves_hold(s: SequencerView)
    requires
        s.queue.len() == 1,
        s.queue[0].quality != Direction::Hold,
    ensures
        s.pop().0.queue == seq![hold_at(HOLD_QUANTITY, s.queue[0].completed_state)],
        s.pop().0.current == s.queue[0].completed_state,
{
}

/// A second endstop signal right after one that reached the closed extreme changes
/// neither state nor queue. (After the opened extreme, a repeat reads as reaching the
/// closed one.)
pub proof fn lemma_endstop_repeat(s: SequencerView, cap: nat)
    requires
        s.trig_endstop(cap).current.position == 0,
    ensures
        s.trig_endstop(cap).trig_endstop(cap) == s.trig_endstop(cap),
{
}

} // verus!

verus! {

/// Total pulses of the first `j` instructions of `q`.
pub open spec fn quantity_sum(q: Seq<WindowDressingInstruction>, j: nat) -> int
    decreases j,
{
    if j == 0 {
        0
    } else {
        quantity_sum(q, (j - 1) as nat) + q[j - 1].quantity
    }
}

/// `r` merges the first `k` instructions of `q`, `k >= 1`: all of `r`'s direction, with
/// their pulses summed and the state of the last one. Each one after the first was needed
/// to reach `threshold`, and the run ends only at the end of `q`, at an instruction of
/// another direction, at a count that would overflow, or once `threshold` is reached.
pub open spec fn merges_front_run(q: Seq<WindowDressingInstruction>, r: WindowDressingInstruction, k: nat, threshold: u32) -> bool {
    &&& 1 <= k <= q.len()
    &&& forall|i: int| 0 <= i < k ==> (#[trigger] q[i]).quality == r.quality
    &&& r.quantity == quantity_sum(q, k)
    &&& r.completed_state == q[k - 1].completed_state
    &&& forall|i: nat| 1 <= i < k ==> #[trigger] quantity_sum(q, i) < threshold
    &&& (k == q.len() || q[k as int].quality != r.quality || quantity_sum(q, k) + q[k as int].quantity > u32::MAX
        || quantity_sum(q, k) >= threshold)
}

/// The queue once its first `j` instructions have been popped: a queue emptied by a motion
/// holds a pause in its place.
pub open spec fn popped_queue(q: Seq<WindowDressingInstruction>, j: nat) -> Seq<WindowDressingInstruction> {
    if j < q.len() {
        q.subrange(j as int, q.len() as int)
    } else if q.len() > 0 && q.last().quality != Direction::Hold {
        seq![hold_at(HOLD_QUANTITY, q.last().completed_state)]
    } else {
        Seq::empty()
    }
}

proof fn lemma_group_from_run(
    q: Seq<WindowDressingInstruction>,
    j: nat,
    t: SequencerView,
    buf: WindowDressingInstruction,
    threshold: u32,
) -> (k: nat)
    requires
        1 <= j <= q.len(),
        t.queue == popped_queue(q, j),
        t.current == q[j - 1].completed_state,
        forall|i: int| 0 <= i < j ==> (#[trigger] q[i]).quality == buf.quality,
        buf.quantity == quantity_sum(q, j),
        buf.completed_state == q[j - 1].completed_state,
        forall|i: nat| 1 <= i < j ==> #[trigger] quantity_sum(q, i) < threshold,
    ensures
        merges_front_run(q, t.group_from(buf, threshold).1, k, threshold),
        t.group_from(buf, threshold).0 == (SequencerView {
            queue: popped_queue(q, k),
            current: q[k - 1].completed_state,
            ..t
        }),
    decreases q.len() - j,
{
    let r = t.group_from(buf, threshold);
    if buf.quantity >= threshold || j == q.len() {
        assert(r == (t, buf));
        j
    } else {
        assert(t.queue[0] == q[j as int]);
        let next = q[j as int];
        if next.quality != buf.quality || buf.quantity + next.quantity > u32::MAX {
            assert(r == (t, buf));
            j
        } else {
            let (s1, n) = t.pop();
            assert(n == Some(next));
            assert(s1.queue =~= popped_queue(q, j + 1));
            let merged = WindowDressingInstruction {
                quality: buf.quality,
                quantity: (buf.quantity + next.quantity) as u32,
                completed_state: next.completed_state,
            };
            assert(merged.quantity == quantity_sum(q, j + 1));
            assert(forall|i: int| 0 <= i < j + 1 ==> (#[trigger] q[i]).quality == merged.quality);
            assert(forall|i: nat| 1 <= i < j + 1 ==> #[trigger] quantity_sum(q, i) < threshold);
            lemma_group_from_run(q, j + 1, s1, merged, threshold)
        }
    }
}

/// A grouped instruction merges a run of instructions from the front of the queue, all of
/// one direction: instructions of different directions are never merged, and merging stops
/// as soon as the count reaches `threshold`, so it exceeds `threshold` by less than the
/// last merged instruction. The
/// queue keeps exactly what follows the run (with a pause where the run emptied a queue
/// that ended in a motion), and the current state is where the run ends.
pub proof fn lemma_grouped_merges_front_run(s: SequencerView, threshold: u32)
    ensures
        s.grouped(threshold).1 is None <==> s.queue.len() == 0,
        s.grouped(threshold).1 is None ==> s.grouped(threshold).0 == s,
        s.grouped(threshold).1 matches Some(r) ==> exists|k: nat|
            #[trigger] merges_front_run(s.queue, r, k, threshold) && s.grouped(threshold).0 == (SequencerView {
                queue: popped_queue(s.queue, k),
                current: r.completed_state,
                ..s
            }),
{
    let q = s.queue;
    if q.len() > 0 {
        let (s1, first) = s.pop();
        assert(s1.queue =~= popped_queue(q, 1));
        assert(quantity_sum(q, 0) == 0);
        assert(quantity_sum(q, 1) == q[0].quantity);
        let k = lemma_group_from_run(q, 1, s1, q[0], threshold);
        let r = s.grouped(threshold).1.unwrap();
        assert(merges_front_run(q, r, k, threshold));
    }
}

} // verus!

verus! {

/// All `k` tilt steps are appended when the queue has room for them.
proof fn lemma_tilt_steps_fit(
    q: Seq<WindowDressingInstruction>,
    cap: nat,
    quantity: u32,
    position: u8,
    from: int,
    opening: bool,
    k: nat,
)
    requires
        q.len() + k <= cap,
    ensures
        ({
            let r = tilt_steps(q, cap, quantity, position, from, opening, k);
            &&& r.len() == q.len() + k
            &&& forall|i: int| 0 <= i < q.len() ==> #[trigger] r[i] == q[i]
            &&& forall|i: int|
                0 <= i < k ==> #[trigger] r[q.len() + i] == (WindowDressingInstruction {
                    quality: direction_for(opening),
                    quantity,
                    completed_state: WindowDressingState {
                        position,
                        tilt: (if opening {
                            from - i - 1
                        } else {
                            from + i + 1
                        }) as i8,
                    },
                })
        }),
    decreases k,
{
    if k > 0 {
        lemma_tilt_steps_fit(q, cap, quantity, position, from, opening, (k - 1) as nat);
        let prev = tilt_steps(q, cap, quantity, position, from, opening, (k - 1) as nat);
        let r = tilt_steps(q, cap, quantity, position, from, opening, k);
        assert(r == prev.push(r.last()));
        assert forall|i: int| 0 <= i < k implies #[trigger] r[q.len() + i] == (WindowDressingInstruction {
            quality: direction_for(opening),
            quantity,
            completed_state: WindowDressingState {
                position,
                tilt: (if opening {
                    from - i - 1
                } else {
                    from + i + 1
                }) as i8,
            },
        }) by {
            if i < k - 1 {
                assert(r[q.len() + i] == prev[q.len() + i]);
            }
        }
    }
}

/// The angle slats take while the dressing travels: edge-on, turned the way of the motion.
pub open spec fn travel_tilt(opening: bool) -> i8 {
    if opening {
        -90i8
    } else {
        90i8
    }
}

/// On a dressing with tilting slats and nothing queued, moving from below the top to
/// `target` queues, in this order: one-degree tilt steps from the current tilt to the
/// travel angle (-90 opening, +90 closing), in the direction of the travel; one-percent
/// travel steps at that angle; then, where the slats were turned, the way back to the
/// current tilt. At the top that way back is only recorded (one pause of no pulses);
/// elsewhere it is a pause followed by one-degree steps in the opposite direction. The
/// desired state becomes `target`, at the current tilt where the slats were turned.
pub proof fn lemma_venetian_set_position(s: SequencerView, target: u8, cap: nat)
    requires
        s.wf(cap),
        s.full_tilt_quantity is Some,
        s.queue.len() == 0,
        s.current.position < 100,
        target <= 100,
        target != s.current.position,
        cap >= 2 * abs_diff(travel_tilt(target > s.current.position) as int, s.current.tilt as int) + abs_diff(
            target as int,
            s.current.position as int,
        ) + 1,
    ensures
        ({
            let r = s.set_position(target, cap);
            let cur = s.current;
            let opening = target > cur.position;
            let angle = travel_tilt(opening);
            let a = abs_diff(angle as int, cur.tilt as int) as int;
            let k = abs_diff(target as int, cur.position as int) as int;
            let tilt_quantity = (s.full_tilt_quantity.unwrap() / 180) as u32;
            &&& r.desired == (WindowDressingState {
                position: target,
                tilt: if a == 0 {
                    s.desired.tilt
                } else {
                    cur.tilt
                },
            })
            &&& r.queue.len() == a + k + (if a == 0 {
                0
            } else if target == 100 {
                1
            } else {
                a + 1
            })
            &&& forall|i: int|
                0 <= i < a ==> #[trigger] r.queue[i] == (WindowDressingInstruction {
                    quality: direction_for(opening),
                    quantity: tilt_quantity,
                    completed_state: WindowDressingState {
                        position: cur.position,
                        tilt: (if opening {
                            cur.tilt - i - 1
                        } else {
                            cur.tilt + i + 1
                        }) as i8,
                    },
                })
            &&& forall|i: int|
                0 <= i < k ==> #[trigger] r.queue[a + i] == (WindowDressingInstruction {
                    quality: direction_for(opening),
                    quantity: (s.full_cycle_quantity / 100) as u32,
                    completed_state: WindowDressingState {
                        position: (if opening {
                            cur.position + i + 1
                        } else {
                            cur.position - i - 1
                        }) as u8,
                        tilt: angle,
                    },
                })
            &&& (a > 0 && target == 100) ==> r.queue[a + k] == hold_at(
                0,
                WindowDressingState { position: 100, tilt: cur.tilt },
            )
            &&& (a > 0 && target != 100) ==> r.queue[a + k] == hold_at(
                HOLD_QUANTITY,
                WindowDressingState { position: target, tilt: angle },
            )
            &&& (a > 0 && target != 100) ==> forall|i: int|
                0 <= i < a ==> #[trigger] r.queue[a + k + 1 + i] == (WindowDressingInstruction {
                    quality: direction_for(!opening),
                    quantity: tilt_quantity,
                    completed_state: WindowDressingState {
                        position: target,
                        tilt: (if opening {
                            angle + i + 1
                        } else {
                            angle - i - 1
                        }) as i8,
                    },
                })
        }),
{
    let cur = s.current;
    let opening = target > cur.position;
    let angle = travel_tilt(opening);
    let a = abs_diff(angle as int, cur.tilt as int);
    let k = abs_diff(target as int, cur.position as int);
    let tq = (s.full_tilt_quantity.unwrap() / 180) as u32;
    let fq = (s.full_cycle_quantity / 100) as u32;
    let desired = WindowDressingState { position: target, ..s.desired };
    let s1 = SequencerView { queue: Seq::empty(), desired, ..s };
    assert(s.set_position(target, cap) == s1.add_tilt(cur.tilt, angle, cap).with_queue(
        position_steps(s1.add_tilt(cur.tilt, angle, cap).queue, cap, fq, cur.position as int, angle, opening, k),
    ).add_tilt(angle, cur.tilt, cap));
    let s2 = s1.add_tilt(cur.tilt, angle, cap);
    let qa = tilt_steps(Seq::empty(), cap, tq, cur.position, cur.tilt as int, opening, a);
    lemma_tilt_steps_fit(Seq::empty(), cap, tq, cur.position, cur.tilt as int, opening, a);
    if a > 0 {
        assert(s2.queue == qa);
    } else {
        assert(s2.queue =~= qa);
    }
    assert(a > 0 ==> s2.desired == WindowDressingState { position: target, tilt: angle });
    let qb = position_steps(qa, cap, fq, cur.position as int, angle, opening, k);
    lemma_position_steps_fit(qa, cap, fq, cur.position as int, angle, opening, k);
    assert forall|i: int| 0 <= i < a implies #[trigger] qb[i] == qa[i] by {
        assert(qb[i] == qb.subrange(0, qa.len() as int)[i]);
    }
    let s3 = s2.with_queue(qb);
    let r = s.set_position(target, cap);
    assert(r == s3.add_tilt(angle, cur.tilt, cap));
    if a > 0 {
        assert(s3.tail_state() == qb[a + k - 1].completed_state);
        assert(qb.last() == qb[a + k - 1]);
        if opening {
            assert(cur.position + (k - 1) + 1 == target);
        } else {
            assert(cur.position - (k - 1) - 1 == target);
        }
        if target == 100 {
            let rq = push_bounded(qb, hold_at(0, WindowDressingState { position: 100, tilt: cur.tilt }), cap);
            assert(r.queue == rq);
            assert forall|i: int| 0 <= i < a + k implies #[trigger] r.queue[i] == qb[i] by {
                assert(rq[i] == qb[i]);
            }
        } else {
            let qc = push_bounded(qb, hold_at(HOLD_QUANTITY, qb.last().completed_state), cap);
            assert(qc == qb.push(hold_at(HOLD_QUANTITY, qb.last().completed_state)));
            lemma_tilt_steps_fit(qc, cap, tq, target, angle as int, !opening, a);
            let rq = tilt_steps(qc, cap, tq, target, angle as int, !opening, a);
            assert(r.queue == rq);
            assert forall|i: int| 0 <= i < a + k implies #[trigger] rq[i] == qb[i] by {
                assert(rq[i] == qc[i]);
            }
            assert(rq[(a + k) as int] == qc[(a + k) as int]);
            assert forall|i: int| 0 <= i < a implies #[trigger] rq[a + k + 1 + i] == (WindowDressingInstruction {
                quality: direction_for(!opening),
                quantity: tq,
                completed_state: WindowDressingState {
                    position: target,
                    tilt: (if opening {
                        angle + i + 1
                    } else {
                        angle - i - 1
                    }) as i8,
                },
            }) by {
                assert(rq[qc.len() + i] == rq[a + k + 1 + i]);
            }
        }
    } else {
        assert(r.queue == qb);
    }
    assert forall|i: int| 0 <= i < a + k implies #[trigger] r.queue[i] == qb[i] by {
        if a > 0 && target != 100 {
            let qc = qb.push(hold_at(HOLD_QUANTITY, qb.last().completed_state));
            lemma_tilt_steps_fit(qc, cap, tq, target, angle as int, !opening, a);
            assert(r.queue[i] == qc[i]);
        }
    }
    assert forall|i: int| 0 <= i < a implies #[trigger] r.queue[i] == (WindowDressingInstruction {
        quality: direction_for(opening),
        quantity: tq,
        completed_state: WindowDressingState {
            position: cur.position,
            tilt: (if opening {
                cur.tilt - i - 1
            } else {
                cur.tilt + i + 1
            }) as i8,
        },
    }) by {
        assert(r.queue[i] == qb[i]);
        let e: Seq<WindowDressingInstruction> = Seq::empty();
        assert(qa[e.len() + i] == qa[i]);
    }
    assert forall|i: int| 0 <= i < k implies #[trigger] r.queue[a + i] == qb[qa.len() + i] by {
        assert(r.queue[a + i] == qb[a + i]);
    }
}

} // verus!

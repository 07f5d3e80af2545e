use crate::flags::{channel_bit, mask_bit, SharedFlags, MAX_CHANNELS};
use crate::protocol::{packet_channel, IncomingRpcPacket, OutgoingRpcPacket};
use crate::sequencer::{HaltingSequencer, SequencerView, DEFAULT_FULL_CYCLE_QUANTITY};
use crate::state::{Direction, WindowDressingInstruction, WindowDressingState};
use vstd::prelude::*;

verus! {

/// Pulses per second of the pulse generator.
pub const FREQUENCY: u16 = 1000;

/// After a direction change, limit-switch signals are ignored for this long (microseconds):
/// a switch may bounce as the motor pulls away from it.
pub const ENDSTOP_GUARD_MICROS: u64 = 500_000;

/// What a channel carries from one tick to the next. Times are in microseconds.
#[derive(Clone, Copy, Debug, PartialEq, Eq, Structural)]
pub struct ChannelState {
    /// The grouped instruction waiting to go to the pulse generator.
    pub next_buffered: Option<WindowDressingInstruction>,
    /// End of the pause in progress.
    pub resume_after: u64,
    /// Time of the last direction change.
    pub last_reversal: u64,
    /// The direction the driver is latched to.
    pub direction: Direction,
}

/// What the dispatcher learns of a channel at a tick.
#[derive(Clone, Copy, Debug, PartialEq, Eq, Structural)]
pub struct ChannelInputs {
    pub now: u64,
    /// The limit switch fired since the last tick.
    pub endstop: bool,
    /// The motor of this channel is wired reversed.
    pub reversed: bool,
    /// The pulse generator accepts more pulses.
    pub ready: bool,
    /// The pulse generator has no pulses in flight.
    pub stopped: bool,
}

/// What the board is to do for a channel after a tick, in this order: clear the pulse
/// generator, switch the driver, set the direction line (`true` inverts it), add pulses,
/// report the position.
#[derive(Clone, Copy, Debug, PartialEq, Eq, Structural)]
pub struct ChannelActions {
    pub clear_steps: bool,
    pub enable: Option<bool>,
    pub direction: Option<bool>,
    pub add_steps: Option<u32>,
    pub report_position: bool,
}

/// Pulse-generator readings of one channel.
#[derive(Clone, Copy, Debug, PartialEq, Eq, Structural)]
pub struct GeneratorStatus {
    pub ready: bool,
    pub stopped: bool,
}

pub open spec fn no_actions() -> ChannelActions {
    ChannelActions { clear_steps: false, enable: None, direction: None, add_steps: None, report_position: false }
}

/// A limit-switch signal counts once the guard time since the last reversal has passed.
pub open spec fn endstop_fires(st: ChannelState, inp: ChannelInputs) -> bool {
    inp.endstop && inp.now as int >= st.last_reversal as int + ENDSTOP_GUARD_MICROS as int
}

/// How long a pause of `quantity` pulses lasts, in microseconds.
pub open spec fn hold_micros(quantity: u32) -> int {
    quantity as int * 1_000_000 / FREQUENCY as int
}

pub open spec fn saturate(x: int) -> u64 {
    if x > u64::MAX {
        u64::MAX
    } else {
        x as u64
    }
}

/// One tick of one channel: the new channel state, the new sequencer state and the board
/// actions. A buffered motion in the latched direction goes straight to the pulse
/// generator; any other buffered instruction, a pause included, waits until the generator
/// has stopped and the running pause is over.
pub open spec fn channel_step(st: ChannelState, seq: SequencerView, inp: ChannelInputs, cap: nat) -> (
    ChannelState,
    SequencerView,
    ChannelActions,
) {
    if endstop_fires(st, inp) {
        (
            ChannelState { next_buffered: None, ..st },
            seq.trig_endstop(cap),
            ChannelActions { clear_steps: true, enable: Some(false), report_position: true, ..no_actions() },
        )
    } else if !inp.ready {
        (st, seq, no_actions())
    } else {
        match st.next_buffered {
            Some(instr) => if instr.quality == st.direction && instr.quality != Direction::Hold {
                (
                    ChannelState { next_buffered: None, ..st },
                    seq,
                    ChannelActions { enable: Some(true), add_steps: Some(instr.quantity), ..no_actions() },
                )
            } else if inp.stopped && st.resume_after < inp.now {
                let turned = ChannelState {
                    next_buffered: None,
                    last_reversal: inp.now,
                    direction: instr.quality,
                    ..st
                };
                match instr.quality {
                    Direction::Hold => (
                        ChannelState {
                            resume_after: saturate(inp.now + hold_micros(instr.quantity)),
                            ..turned
                        },
                        seq,
                        ChannelActions { enable: Some(true), report_position: true, ..no_actions() },
                    ),
                    Direction::Retract => (
                        turned,
                        seq,
                        ChannelActions {
                            enable: Some(true),
                            direction: Some(inp.reversed),
                            add_steps: Some(instr.quantity),
                            report_position: true,
                            ..no_actions()
                        },
                    ),
                    Direction::Extend => (
                        turned,
                        seq,
                        ChannelActions {
                            enable: Some(true),
                            direction: Some(!inp.reversed),
                            add_steps: Some(instr.quantity),
                            report_position: true,
                            ..no_actions()
                        },
                    ),
                }
            } else {
                (st, seq, ChannelActions { enable: Some(true), ..no_actions() })
            },
            None => {
                let (s1, g) = seq.grouped(FREQUENCY as u32);
                if g is Some {
                    (ChannelState { next_buffered: g, ..st }, s1, no_actions())
                } else if inp.stopped {
                    (st, s1, ChannelActions { enable: Some(false), ..no_actions() })
                } else {
                    (st, s1, no_actions())
                }
            },
        }
    }
}

/// Runs one tick of one channel.
pub fn tick_channel<const N: usize>(
    st: &mut ChannelState,
    seq: &mut HaltingSequencer<N>,
    inputs: &ChannelInputs,
) -> (r: ChannelActions)
    requires
        old(seq).wf(),
    ensures
        final(seq).wf(),
        (*final(st), final(seq)@, r) == channel_step(*old(st), old(seq)@, *inputs, N as nat),
        // the direction line only changes while no pulse is in flight
        r.direction is Some ==> inputs.stopped,
        final(st).direction != old(st).direction ==> inputs.stopped,
        // a pause is timed by the resume deadline alone: it never sends pulses
        old(st).next_buffered matches Some(b) && b.quality == Direction::Hold ==> r.add_steps is None
            && r.direction is None,
{
    if inputs.endstop && inputs.now >= st.last_reversal && inputs.now - st.last_reversal >= ENDSTOP_GUARD_MICROS {
        seq.trig_endstop();
        st.next_buffered = None;
        return ChannelActions {
            clear_steps: true,
            enable: Some(false),
            direction: None,
            add_steps: None,
            report_position: true,
        };
    }
    let idle = ChannelActions {
        clear_steps: false,
        enable: None,
        direction: None,
        add_steps: None,
        report_position: false,
    };
    if !inputs.ready {
        return idle;
    }
    match st.next_buffered {
        Some(instr) => {
            if instr.quality == st.direction && instr.quality != Direction::Hold {
                st.next_buffered = None;
                ChannelActions { enable: Some(true), add_steps: Some(instr.quantity), ..idle }
            } else if inputs.stopped && st.resume_after < inputs.now {
                st.next_buffered = None;
                st.direction = instr.quality;
                st.last_reversal = inputs.now;
                match instr.quality {
                    Direction::Hold => {
                        let offset: u64 = instr.quantity as u64 * 1_000_000 / FREQUENCY as u64;
                        st.resume_after = inputs.now.saturating_add(offset);
                        ChannelActions { enable: Some(true), report_position: true, ..idle }
                    },
                    Direction::Retract => ChannelActions {
                        enable: Some(true),
                        direction: Some(inputs.reversed),
                        add_steps: Some(instr.quantity),
                        report_position: true,
                        ..idle
                    },
                    Direction::Extend => ChannelActions {
                        enable: Some(true),
                        direction: Some(!inputs.reversed),
                        add_steps: Some(instr.quantity),
                        report_position: true,
                        ..idle
                    },
                }
            } else {
                ChannelActions { enable: Some(true), ..idle }
            }
        },
        None => {
            let next = seq.get_next_instruction_grouped(FREQUENCY as u32);
            if next.is_some() {
                st.next_buffered = next;
                idle
            } else if inputs.stopped {
                ChannelActions { enable: Some(false), ..idle }
            } else {
                idle
            }
        },
    }
}

/// Why a host command was refused. A refused command changes nothing.
#[derive(Clone, Copy, Debug, PartialEq, Eq, Structural)]
pub enum CommandError {
    /// No channel of that number.
    InvalidChannel,
    /// A position above 100.
    InvalidPosition,
    /// A tilt outside -90..=90.
    InvalidTilt,
}

/// What a host command asks of the board beyond the sequencers.
#[derive(Clone, Copy, Debug, PartialEq, Eq, Structural)]
pub struct CommandOutcome {
    /// The report to send back.
    pub report: Option<OutgoingRpcPacket>,
    /// A stall-sensing threshold to program into the channel's driver.
    pub stall_guard_threshold: Option<u8>,
    /// The channel's stall-sensing reading is to be fetched and reported.
    pub stall_guard_query: bool,
}

pub struct ControllerView {
    pub sequencers: Seq<SequencerView>,
    pub channels: Seq<ChannelState>,
}

impl ControllerView {
    pub open spec fn wf(self, cap: nat) -> bool {
        &&& self.sequencers.len() == self.channels.len()
        &&& self.channels.len() <= MAX_CHANNELS
        &&& forall|i: int| 0 <= i < self.sequencers.len() ==> (#[trigger] self.sequencers[i]).wf(cap)
    }

    pub open spec fn position_report(self, channel: u8) -> OutgoingRpcPacket {
        OutgoingRpcPacket::Position {
            channel,
            current: self.sequencers[channel as int].current,
            desired: self.sequencers[channel as int].desired,
        }
    }

    pub open spec fn with_sequencer(self, channel: u8, s: SequencerView) -> ControllerView {
        ControllerView { sequencers: self.sequencers.update(channel as int, s), ..self }
    }
}

pub open spec fn reporting(report: OutgoingRpcPacket) -> CommandOutcome {
    CommandOutcome { report: Some(report), stall_guard_threshold: None, stall_guard_query: false }
}

/// A new position target, if any, then a new tilt target, if any.
pub open spec fn target_applied(s: SequencerView, position: Option<u8>, tilt: Option<i8>, cap: nat) -> SequencerView {
    let s1 = match position {
        Some(p) => s.set_position(p, cap),
        None => s,
    };
    match tilt {
        Some(t) => s1.set_tilt(t, cap),
        None => s1,
    }
}

/// The effect of a host command on the sequencers, and what it asks of the board.
pub open spec fn command_result(v: ControllerView, p: IncomingRpcPacket, cap: nat) -> Result<
    (ControllerView, CommandOutcome),
    CommandError,
> {
    let c = packet_channel(p);
    if c >= v.sequencers.len() {
        Err(CommandError::InvalidChannel)
    } else {
        let s = v.sequencers[c as int];
        match p {
            IncomingRpcPacket::Home { .. } => {
                let v1 = v.with_sequencer(c, s.home_fully_opened(cap));
                Ok((v1, reporting(v1.position_report(c))))
            },
            IncomingRpcPacket::Setup { init, full_cycle_steps, full_tilt_steps, sgthrs, .. } => {
                if init.position > 100 {
                    Err(CommandError::InvalidPosition)
                } else if !(-90 <= init.tilt <= 90) {
                    Err(CommandError::InvalidTilt)
                } else {
                    let fresh = SequencerView {
                        full_cycle_quantity: full_cycle_steps,
                        full_tilt_quantity: full_tilt_steps,
                        queue: Seq::empty(),
                        current: init,
                        desired: init,
                    };
                    let v1 = v.with_sequencer(c, fresh);
                    Ok(
                        (
                            v1,
                            CommandOutcome {
                                report: Some(v1.position_report(c)),
                                stall_guard_threshold: sgthrs,
                                stall_guard_query: false,
                            },
                        ),
                    )
                }
            },
            IncomingRpcPacket::SetTarget { position, tilt, .. } => {
                if position matches Some(pos) && pos > 100 {
                    Err(CommandError::InvalidPosition)
                } else if tilt matches Some(t) && !(-90 <= t <= 90) {
                    Err(CommandError::InvalidTilt)
                } else {
                    let v1 = v.with_sequencer(c, target_applied(s, position, tilt, cap));
                    Ok((v1, reporting(v1.position_report(c))))
                }
            },
            IncomingRpcPacket::Get { .. } => Ok((v, reporting(v.position_report(c)))),
            IncomingRpcPacket::GetStallGuardResult { .. } => Ok(
                (v, CommandOutcome { report: None, stall_guard_threshold: None, stall_guard_query: true }),
            ),
        }
    }
}

/// The inputs of channel `i` at a tick.
pub open spec fn inputs_of(endstops: u16, reversals: u16, status: GeneratorStatus, now: u64, i: nat) -> ChannelInputs {
    ChannelInputs {
        now,
        endstop: channel_bit(endstops, i),
        reversed: channel_bit(reversals, i),
        ready: status.ready,
        stopped: status.stopped,
    }
}

/// Channels `0..count` took one tick each, from `old` to `new` with actions `actions`.
pub open spec fn ticked(
    old: ControllerView,
    new: ControllerView,
    actions: Seq<ChannelActions>,
    endstops: u16,
    reversals: u16,
    status: Seq<GeneratorStatus>,
    now: u64,
    cap: nat,
) -> bool {
    &&& new.sequencers.len() == old.sequencers.len()
    &&& new.channels.len() == old.channels.len()
    &&& actions.len() == old.channels.len()
    &&& forall|i: int|
        0 <= i < old.channels.len() ==> (new.channels[i], new.sequencers[i], #[trigger] actions[i])
            == channel_step(
            old.channels[i],
            old.sequencers[i],
            inputs_of(endstops, reversals, status[i], now, i as nat),
            cap,
        )
}

/// The sequencers and dispatch state of all channels.
pub struct Controller<const N: usize> {
    sequencers: Vec<HaltingSequencer<N>>,
    channels: Vec<ChannelState>,
}

impl<const N: usize> View for Controller<N> {
    type V = ControllerView;

    closed spec fn view(&self) -> ControllerView {
        ControllerView {
            sequencers: self.sequencers@.map_values(|s: HaltingSequencer<N>| s@),
            channels: self.channels@,
        }
    }
}

impl<const N: usize> Controller<N> {
    pub open spec fn wf(&self) -> bool {
        self@.wf(N as nat)
    }

    /// `channel_count` roller channels of the default travel, idle since `now`.
    pub fn new(channel_count: usize, now: u64) -> (r: Self)
        requires
            channel_count <= MAX_CHANNELS,
        ensures
            r.wf(),
            r@.sequencers.len() == channel_count,
            forall|i: int|
                0 <= i < channel_count ==> (#[trigger] r@.sequencers[i]) == (SequencerView {
                    full_cycle_quantity: DEFAULT_FULL_CYCLE_QUANTITY,
                    full_tilt_quantity: None,
                    queue: Seq::empty(),
                    current: WindowDressingState { position: 0, tilt: 0 },
                    desired: WindowDressingState { position: 0, tilt: 0 },
                }) && r@.channels[i] == (ChannelState {
                    next_buffered: None,
                    resume_after: now,
                    last_reversal: now,
                    direction: Direction::Hold,
                }),
    {
        let mut sequencers: Vec<HaltingSequencer<N>> = Vec::new();
        let mut channels: Vec<ChannelState> = Vec::new();
        let mut i: usize = 0;
        while i < channel_count
            invariant
                i <= channel_count <= MAX_CHANNELS,
                sequencers@.len() == i,
                channels@.len() == i,
                forall|j: int|
                    0 <= j < i ==> (#[trigger] sequencers@[j])@ == (SequencerView {
                        full_cycle_quantity: DEFAULT_FULL_CYCLE_QUANTITY,
                        full_tilt_quantity: None,
                        queue: Seq::empty(),
                        current: WindowDressingState { position: 0, tilt: 0 },
                        desired: WindowDressingState { position: 0, tilt: 0 },
                    }) && channels@[j] == (ChannelState {
                        next_buffered: None,
                        resume_after: now,
                        last_reversal: now,
                        direction: Direction::Hold,
                    }),
            decreases channel_count - i,
        {
            sequencers.push(HaltingSequencer::new_roller(DEFAULT_FULL_CYCLE_QUANTITY));
            channels.push(
                ChannelState {
                    next_buffered: None,
                    resume_after: now,
                    last_reversal: now,
                    direction: Direction::Hold,
                },
            );
            i = i + 1;
        }
        Controller { sequencers, channels }
    }

    pub fn channel_count(&self) -> (r: usize)
        ensures
            r == self@.sequencers.len(),
    {
        self.sequencers.len()
    }

    pub fn sequencer(&self, channel: usize) -> (r: &HaltingSequencer<N>)
        requires
            channel < self@.sequencers.len(),
        ensures
            r@ == self@.sequencers[channel as int],
    {
        &self.sequencers[channel]
    }

    pub fn channel(&self, channel: usize) -> (r: &ChannelState)
        requires
            channel < self@.channels.len(),
        ensures
            *r == self@.channels[channel as int],
    {
        &self.channels[channel]
    }

    /// The position report of `channel`.
    pub fn position_report(&self, channel: u8) -> (r: OutgoingRpcPacket)
        requires
            channel < self@.sequencers.len(),
        ensures
            r == self@.position_report(channel),
    {
        let s = &self.sequencers[channel as usize];
        OutgoingRpcPacket::Position {
            channel,
            current: *s.get_current_state(),
            desired: *s.get_desired_state(),
        }
    }
    /// Carries out a host command on the sequencers: homing, a new setup (which also
    /// records the motor's polarity in `flags`), a new target, or a query. A command for a
    /// channel that does not exist, or with a position above 100 or a tilt outside -90..=90,
    /// is refused.
    pub fn handle_command(&mut self, packet: &IncomingRpcPacket, flags: &SharedFlags) -> (r: Result<
        CommandOutcome,
        CommandError,
    >)
        requires
            old(self).wf(),
        ensures
            final(self).wf(),
            match command_result(old(self)@, *packet, N as nat) {
                Ok((v, o)) => r == Ok::<CommandOutcome, CommandError>(o) && final(self)@ == v,
                Err(e) => r == Err::<CommandOutcome, CommandError>(e) && final(self)@ == old(self)@,
            },
    {
        let channel = packet.channel();
        if channel as usize >= self.sequencers.len() {
            return Err(CommandError::InvalidChannel);
        }
        let c = channel as usize;
        let ghost old_seqs = self.sequencers@;
        assert(self@.sequencers[c as int] == old_seqs[c as int]@);
        match *packet {
            IncomingRpcPacket::Home { .. } => {
                self.home_channel(c);
                Ok(
                    CommandOutcome {
                        report: Some(self.position_report(channel)),
                        stall_guard_threshold: None,
                        stall_guard_query: false,
                    },
                )
            },
            IncomingRpcPacket::Setup { init, full_cycle_steps, reverse, full_tilt_steps, sgthrs, .. } => {
                if init.position > 100 {
                    return Err(CommandError::InvalidPosition);
                }
                if init.tilt < -90 || init.tilt > 90 {
                    return Err(CommandError::InvalidTilt);
                }
                let mut fresh = HaltingSequencer::new(full_cycle_steps, full_tilt_steps);
                fresh.load_state(&init);
                self.sequencers.set(c, fresh);
                proof {
                    self.lemma_view_update(old_seqs, c as int);
                }
                let reversed = match reverse {
                    Some(b) => b,
                    None => false,
                };
                flags.set_reversed(channel, reversed);
                Ok(
                    CommandOutcome {
                        report: Some(self.position_report(channel)),
                        stall_guard_threshold: sgthrs,
                        stall_guard_query: false,
                    },
                )
            },
            IncomingRpcPacket::SetTarget { position, tilt, .. } => {
                if let Some(p) = position {
                    if p > 100 {
                        return Err(CommandError::InvalidPosition);
                    }
                }
                if let Some(t) = tilt {
                    if t < -90 || t > 90 {
                        return Err(CommandError::InvalidTilt);
                    }
                }
                self.target_channel(c, position, tilt);
                Ok(
                    CommandOutcome {
                        report: Some(self.position_report(channel)),
                        stall_guard_threshold: None,
                        stall_guard_query: false,
                    },
                )
            },
            IncomingRpcPacket::Get { .. } => Ok(
                CommandOutcome {
                    report: Some(self.position_report(channel)),
                    stall_guard_threshold: None,
                    stall_guard_query: false,
                },
            ),
            IncomingRpcPacket::GetStallGuardResult { .. } => Ok(
                CommandOutcome { report: None, stall_guard_threshold: None, stall_guard_query: true },
            ),
        }
    }

    fn target_channel(&mut self, c: usize, position: Option<u8>, tilt: Option<i8>)
        requires
            old(self).wf(),
            c < old(self)@.sequencers.len(),
            position matches Some(p) ==> p <= 100,
            tilt matches Some(t) ==> -90 <= t <= 90,
        ensures
            final(self).wf(),
            final(self)@ == old(self)@.with_sequencer(
                c as u8,
                target_applied(old(self)@.sequencers[c as int], position, tilt, N as nat),
            ),
    {
        let ghost old_seqs = self.sequencers@;
        assert(self@.sequencers[c as int] == old_seqs[c as int]@);
        if let Some(p) = position {
            self.sequencers[c].set_position(p);
        }
        proof {
            self.lemma_view_update(old_seqs, c as int);
        }
        let ghost mid_seqs = self.sequencers@;
        if let Some(t) = tilt {
            self.sequencers[c].set_tilt(t);
        }
        proof {
            self.lemma_view_update(mid_seqs, c as int);
            assert(self@.sequencers =~= old(self)@.sequencers.update(c as int, self.sequencers@[c as int]@));
        }
    }

    fn home_channel(&mut self, c: usize)
        requires
            old(self).wf(),
            c < old(self)@.sequencers.len(),
        ensures
            final(self).wf(),
            final(self)@ == old(self)@.with_sequencer(c as u8, old(self)@.sequencers[c as int].home_fully_opened(N as nat)),
    {
        let ghost old_seqs = self.sequencers@;
        assert(self@.sequencers[c as int] == old_seqs[c as int]@);
        self.sequencers[c].home_fully_opened();
        proof {
            self.lemma_view_update(old_seqs, c as int);
        }
    }

    proof fn lemma_view_update(&self, before: Seq<HaltingSequencer<N>>, c: int)
        requires
            0 <= c < before.len(),
            self.sequencers@.len() == before.len(),
            forall|j: int| 0 <= j < before.len() && j != c ==> self.sequencers@[j] == before[j],
        ensures
            self@.sequencers == before.map_values(|s: HaltingSequencer<N>| s@).update(
                c,
                self.sequencers@[c]@,
            ),
            forall|j: int| 0 <= j < before.len() && j != c ==> #[trigger] self@.sequencers[j] == before[j]@,
    {
        assert(self@.sequencers =~= before.map_values(|s: HaltingSequencer<N>| s@).update(
            c,
            self.sequencers@[c]@,
        ));
    }

    /// One tick of every channel, with the limit-switch bits `endstops`, the polarity bits
    /// `reversals` and the pulse-generator readings `status` of each channel.
    pub fn tick(&mut self, endstops: u16, reversals: u16, status: &Vec<GeneratorStatus>, now: u64) -> (r: Vec<
        ChannelActions,
    >)
        requires
            old(self).wf(),
            status@.len() == old(self)@.channels.len(),
        ensures
            final(self).wf(),
            ticked(old(self)@, final(self)@, r@, endstops, reversals, status@, now, N as nat),
    {
        let mut actions: Vec<ChannelActions> = Vec::new();
        let count = self.channels.len();
        let mut i: usize = 0;
        while i < count
            invariant
                old(self).wf(),
                self.wf(),
                count == self.channels@.len(),
                count == status@.len(),
                count == old(self)@.channels.len(),
                i <= count,
                actions@.len() == i,
                self@.sequencers.len() == old(self)@.sequencers.len(),
                forall|j: int| i <= j < count ==> #[trigger] self@.channels[j] == old(self)@.channels[j],
                forall|j: int| i <= j < count ==> #[trigger] self@.sequencers[j] == old(self)@.sequencers[j],
                forall|j: int|
                    0 <= j < i ==> (self@.channels[j], self@.sequencers[j], #[trigger] actions@[j])
                        == channel_step(
                        old(self)@.channels[j],
                        old(self)@.sequencers[j],
                        inputs_of(endstops, reversals, status@[j], now, j as nat),
                        N as nat,
                    ),
            decreases count - i,
        {
            let inputs = ChannelInputs {
                now,
                endstop: mask_bit(endstops, i),
                reversed: mask_bit(reversals, i),
                ready: status[i].ready,
                stopped: status[i].stopped,
            };
            let ghost before = self.sequencers@;
            assert(self@.sequencers[i as int] == self.sequencers@[i as int]@);
            let a = tick_channel(&mut self.channels[i], &mut self.sequencers[i], &inputs);
            proof {
                self.lemma_view_update(before, i as int);
            }
            actions.push(a);
            i = i + 1;
        }
        actions
    }

    /// Takes the limit-switch and polarity bits from `flags`, then runs [`Self::tick`].
    pub fn poll(&mut self, flags: &SharedFlags, status: &Vec<GeneratorStatus>, now: u64) -> (r: Vec<
        ChannelActions,
    >)
        requires
            old(self).wf(),
            status@.len() == old(self)@.channels.len(),
        ensures
            final(self).wf(),
            exists|endstops: u16, reversals: u16|
                #[trigger] ticked(old(self)@, final(self)@, r@, endstops, reversals, status@, now, N as nat),
    {
        let endstops = flags.take_endstops();
        let reversals = flags.reversals();
        self.tick(endstops, reversals, status, now)
    }
}

} // verus!

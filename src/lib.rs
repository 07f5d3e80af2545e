//! Motion sequencing and dispatch for motorised window dressings (roller shades and
//! venetian blinds) driven by stepper motors: position and tilt targets become queues of
//! pulse instructions, a per-tick dispatcher feeds them to a pulse generator, and a small
//! framed protocol carries host commands and reports.

pub mod dispatch;
pub mod driver;
pub mod flags;
pub mod modulator;
pub mod protocol;
pub mod sequencer;
pub mod state;

pub use dispatch::{
    tick_channel, ChannelActions, ChannelInputs, ChannelState, CommandError, CommandOutcome, Controller,
    GeneratorStatus, ENDSTOP_GUARD_MICROS, FREQUENCY,
};
pub use driver::{dir_hold, stp_rise, DriverLines};
pub use flags::{mask_bit, SharedFlags, MAX_CHANNELS};
pub use modulator::FixedFrequencyStepperModulator;
pub use protocol::{
    decode_frame, encode_frame, stall_guard_report, FrameError, FrameEvent, FrameReader, IncomingRpcPacket,
    OutgoingRpcPacket, ReaderState, MAX_OUTBOUND_PAYLOAD,
};
pub use sequencer::{HaltingSequencer, DEFAULT_FULL_CYCLE_QUANTITY, HOLD_QUANTITY};
pub use state::{Direction, WindowDressingInstruction, WindowDressingState};

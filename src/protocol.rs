use crate::state::WindowDressingState;
use vstd::prelude::*;

verus! {

/// A command from the host.
#[derive(Clone, Copy, Debug, PartialEq, Eq, Structural)]
pub enum IncomingRpcPacket {
    Home { channel: u8 },
    Setup {
        channel: u8,
        init: WindowDressingState,
        full_cycle_steps: u32,
        reverse: Option<bool>,
        full_tilt_steps: Option<u32>,
        sgthrs: Option<u8>,
    },
    SetTarget { channel: u8, position: Option<u8>, tilt: Option<i8> },
    Get { channel: u8 },
    GetStallGuardResult { channel: u8 },
}

pub open spec fn packet_channel(p: IncomingRpcPacket) -> u8 {
    match p {
        IncomingRpcPacket::Home { channel } => channel,
        IncomingRpcPacket::Setup { channel, .. } => channel,
        IncomingRpcPacket::SetTarget { channel, .. } => channel,
        IncomingRpcPacket::Get { channel } => channel,
        IncomingRpcPacket::GetStallGuardResult { channel } => channel,
    }
}

impl IncomingRpcPacket {
    /// The channel the command is for.
    pub fn channel(&self) -> (r: u8)
        ensures
            r == packet_channel(*self),
    {
        match *self {
            IncomingRpcPacket::Home { channel } => channel,
            IncomingRpcPacket::Setup { channel, .. } => channel,
            IncomingRpcPacket::SetTarget { channel, .. } => channel,
            IncomingRpcPacket::Get { channel } => channel,
            IncomingRpcPacket::GetStallGuardResult { channel } => channel,
        }
    }
}

/// A report to the host.
#[derive(Clone, Copy, Debug, PartialEq, Eq, Structural)]
pub enum OutgoingRpcPacket {
    Ready {},
    Position { channel: u8, current: WindowDressingState, desired: WindowDressingState },
    StallGuardResult { channel: u8, sg_result: u8 },
}

/// The stall-sensing report for `channel`; a reading that failed counts as 0.
pub fn stall_guard_report(channel: u8, reading: Option<u8>) -> (r: OutgoingRpcPacket)
    ensures
        r == (OutgoingRpcPacket::StallGuardResult {
            channel,
            sg_result: match reading {
                Some(v) => v,
                None => 0,
            },
        }),
{
    let sg_result = match reading {
        Some(v) => v,
        None => 0,
    };
    OutgoingRpcPacket::StallGuardResult { channel, sg_result }
}

/// The most payload bytes of an outbound frame: its length byte also counts the CR LF.
pub const MAX_OUTBOUND_PAYLOAD: usize = 253;

pub const CR: u8 = 13;

pub const LF: u8 = 10;

#[derive(Clone, Copy, Debug, PartialEq, Eq, Structural)]
pub enum FrameError {
    /// The payload does not fit behind a one-byte length.
    TooLarge,
}

/// An outbound frame: length byte (payload plus two), payload, CR, LF.
pub open spec fn outbound_frame(payload: Seq<u8>) -> Seq<u8> {
    seq![(payload.len() + 2) as u8] + payload + seq![CR, LF]
}

/// What a host reads out of the bytes of an outbound frame: the payload, with the CR LF
/// that the length byte also counts left off. Bytes after the frame are not looked at.
pub open spec fn outbound_payload(bytes: Seq<u8>) -> Option<Seq<u8>> {
    if bytes.len() >= 1 && bytes[0] >= 2 && bytes.len() >= bytes[0] + 1 && bytes[bytes[0] - 1] == CR
        && bytes[bytes[0] as int] == LF {
        Some(bytes.subrange(1, bytes[0] - 1))
    } else {
        None
    }
}

/// Frames a report payload for the host.
pub fn encode_frame(payload: &[u8]) -> (r: Result<Vec<u8>, FrameError>)
    ensures
        payload@.len() <= MAX_OUTBOUND_PAYLOAD ==> r is Ok && r.unwrap()@ == outbound_frame(payload@),
        payload@.len() > MAX_OUTBOUND_PAYLOAD ==> r == Err::<Vec<u8>, FrameError>(FrameError::TooLarge),
{
    let len = payload.len();
    if len > MAX_OUTBOUND_PAYLOAD {
        return Err(FrameError::TooLarge);
    }
    let mut out: Vec<u8> = Vec::new();
    out.push((len + 2) as u8);
    let mut i: usize = 0;
    while i < len
        invariant
            len == payload@.len(),
            i <= len,
            out@ == seq![(len + 2) as u8] + payload@.subrange(0, i as int),
        decreases len - i,
    {
        out.push(payload[i]);
        i = i + 1;
        assert(out@ =~= seq![(len + 2) as u8] + payload@.subrange(0, i as int));
    }
    out.push(CR);
    out.push(LF);
    assert(out@ =~= outbound_frame(payload@));
    Ok(out)
}

/// Reads the payload of an outbound frame, as a host does.
pub fn decode_frame(bytes: &[u8]) -> (r: Option<Vec<u8>>)
    ensures
        match outbound_payload(bytes@) {
            Some(p) => r is Some && r.unwrap()@ == p,
            None => r is None,
        },
{
    if bytes.len() < 1 {
        return None;
    }
    let declared = bytes[0] as usize;
    if declared < 2 || bytes.len() < declared + 1 || bytes[declared - 1] != CR || bytes[declared] != LF {
        return None;
    }
    let mut out: Vec<u8> = Vec::new();
    let mut i: usize = 1;
    while i < declared - 1
        invariant
            2 <= declared,
            declared + 1 <= bytes@.len(),
            1 <= i <= declared - 1,
            out@ == bytes@.subrange(1, i as int),
        decreases declared - 1 - i,
    {
        out.push(bytes[i]);
        i = i + 1;
        assert(out@ =~= bytes@.subrange(1, i as int));
    }
    Some(out)
}

/// Framing round trip: a host reading a frame that the device wrote gets the payload back.
pub proof fn lemma_outbound_frame_round_trip(payload: Seq<u8>)
    requires
        payload.len() <= MAX_OUTBOUND_PAYLOAD,
    ensures
        outbound_payload(outbound_frame(payload)) == Some(payload),
{
    let f = outbound_frame(payload);
    assert(f[0] == payload.len() + 2);
    assert(f.subrange(1, f[0] - 1) =~= payload);
}

/// What a frame reader waits for.
#[derive(Clone, Copy, Debug, PartialEq, Eq, Structural)]
pub enum ReaderState {
    AwaitLength,
    AwaitPayload { expected: u8 },
}

/// What one inbound byte completes.
#[derive(Debug)]
pub enum FrameEvent {
    /// More bytes are needed.
    Pending,
    /// A zero length byte: the host asks for a device reset.
    Reset,
    /// A whole payload, ready to decode.
    Frame(Vec<u8>),
}

/// Splits the inbound byte stream into frames: a length byte `L`, then `L` payload bytes.
pub struct FrameReader {
    state: ReaderState,
    buf: Vec<u8>,
}

pub struct FrameReaderView {
    pub state: ReaderState,
    pub buf: Seq<u8>,
}

impl View for FrameReader {
    type V = FrameReaderView;

    closed spec fn view(&self) -> FrameReaderView {
        FrameReaderView { state: self.state, buf: self.buf@ }
    }
}

impl FrameReaderView {
    /// Payload bytes are gathered only while a payload is awaited, and fewer than announced.
    pub open spec fn wf(self) -> bool {
        match self.state {
            ReaderState::AwaitLength => self.buf.len() == 0,
            ReaderState::AwaitPayload { expected } => 0 < expected && self.buf.len() < expected,
        }
    }
}

impl FrameReader {
    pub fn new() -> (r: Self)
        ensures
            r@.state == ReaderState::AwaitLength,
            r@.buf.len() == 0,
            r@.wf(),
    {
        FrameReader { state: ReaderState::AwaitLength, buf: Vec::new() }
    }

    /// Feeds one inbound byte.
    pub fn push(&mut self, byte: u8) -> (r: FrameEvent)
        requires
            old(self)@.wf(),
        ensures
            final(self)@.wf(),
            match old(self)@.state {
                ReaderState::AwaitLength => if byte == 0 {
                    r is Reset && final(self)@ == old(self)@
                } else {
                    r is Pending && final(self)@.state == (ReaderState::AwaitPayload { expected: byte })
                        && final(self)@.buf.len() == 0
                },
                ReaderState::AwaitPayload { expected } => if old(self)@.buf.len() + 1 == expected {
                    &&& r matches FrameEvent::Frame(p) && p@ == old(self)@.buf.push(byte)
                    &&& final(self)@.state == ReaderState::AwaitLength
                    &&& final(self)@.buf.len() == 0
                } else {
                    r is Pending && final(self)@ == (FrameReaderView {
                        state: old(self)@.state,
                        buf: old(self)@.buf.push(byte),
                    })
                },
            },
    {
        match self.state {
            ReaderState::AwaitLength => {
                if byte == 0 {
                    FrameEvent::Reset
                } else {
                    self.state = ReaderState::AwaitPayload { expected: byte };
                    FrameEvent::Pending
                }
            },
            ReaderState::AwaitPayload { expected } => {
                self.buf.push(byte);
                if self.buf.len() == expected as usize {
                    let mut payload: Vec<u8> = Vec::new();
                    core::mem::swap(&mut payload, &mut self.buf);
                    self.state = ReaderState::AwaitLength;
                    FrameEvent::Frame(payload)
                } else {
                    FrameEvent::Pending
                }
            },
        }
    }
}

} // verus!

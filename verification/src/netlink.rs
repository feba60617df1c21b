use vstd::prelude::*;

use crate::errors::TransportError;

verus! {

/// Largest frame the transport will serialize or accept.
pub const MAX_NETLINK_BUFFER_LENGTH: usize = 4096;

/// Length of the fixed message header: length, type, flags, sequence, port id.
pub const NLMSG_HEADER_LENGTH: usize = 16;

/// Message type carrying an error (or, with code zero, an acknowledgement).
pub const NLMSG_ERROR: u16 = 2;

/// Message type ending a multi-part response.
pub const NLMSG_DONE: u16 = 3;

pub const NLM_F_REQUEST: u16 = 1;

pub const NLM_F_ACK: u16 = 4;

pub const NLM_F_EXCL: u16 = 0x200;

pub const NLM_F_CREATE: u16 = 0x400;

/// Protocol number of the routing family socket.
pub const NETLINK_ROUTE: i32 = 0;

/// Protocol number of the generic family socket.
pub const NETLINK_GENERIC: i32 = 16;

/// One kernel message: the header fields that matter to this transport and
/// the raw payload that follows the header.
#[derive(Debug, PartialEq)]
pub struct NlMessage {
    pub msg_type: u16,
    pub flags: u16,
    pub seq: u32,
    pub pid: u32,
    pub payload: Vec<u8>,
}

/// Mathematical model of a message.
pub struct NlMessageView {
    pub msg_type: u16,
    pub flags: u16,
    pub seq: u32,
    pub pid: u32,
    pub payload: Seq<u8>,
}

impl View for NlMessage {
    type V = NlMessageView;

    open spec fn view(&self) -> NlMessageView {
        NlMessageView {
            msg_type: self.msg_type,
            flags: self.flags,
            seq: self.seq,
            pid: self.pid,
            payload: self.payload@,
        }
    }
}

pub open spec fn views_of(s: Seq<NlMessage>) -> Seq<NlMessageView> {
    s.map_values(|m: NlMessage| m@)
}

// ---------------------------------------------------------------------------
// Little-endian packing of the header scalars.
// ---------------------------------------------------------------------------

pub open spec fn u16_le(n: u16) -> Seq<u8> {
    seq![(n as int % 256) as u8, (n as int / 256) as u8]
}

pub open spec fn u32_le(n: u32) -> Seq<u8> {
    seq![
        (n as int % 256) as u8,
        (n as int / 0x100 % 256) as u8,
        (n as int / 0x10000 % 256) as u8,
        (n as int / 0x1000000 % 256) as u8,
    ]
}

pub open spec fn le16(b0: u8, b1: u8) -> u16 {
    (b0 as int + 256 * (b1 as int)) as u16
}

pub open spec fn le32(b0: u8, b1: u8, b2: u8, b3: u8) -> u32 {
    (b0 as int + 0x100 * (b1 as int) + 0x10000 * (b2 as int) + 0x1000000 * (b3 as int)) as u32
}

fn push_u16_le(buf: &mut Vec<u8>, n: u16)
    ensures
        final(buf)@ == old(buf)@ + u16_le(n),
{
    buf.push((n % 256) as u8);
    buf.push((n / 256) as u8);
    assert(buf@ =~= old(buf)@ + u16_le(n));
}

fn push_u32_le(buf: &mut Vec<u8>, n: u32)
    ensures
        final(buf)@ == old(buf)@ + u32_le(n),
{
    buf.push((n % 0x100) as u8);
    buf.push((n / 0x100 % 0x100) as u8);
    buf.push((n / 0x10000 % 0x100) as u8);
    buf.push((n / 0x1000000 % 0x100) as u8);
    assert(buf@ =~= old(buf)@ + u32_le(n));
}

pub(crate) fn read_u16_le(buf: &[u8], i: usize) -> (r: u16)
    requires
        i + 2 <= buf@.len(),
    ensures
        r == le16(buf@[i as int], buf@[i + 1]),
{
    buf[i] as u16 + buf[i + 1] as u16 * 256
}

pub(crate) fn read_u32_le(buf: &[u8], i: usize) -> (r: u32)
    requires
        i + 4 <= buf@.len(),
    ensures
        r == le32(buf@[i as int], buf@[i + 1], buf@[i + 2], buf@[i + 3]),
{
    buf[i] as u32 + buf[i + 1] as u32 * 0x100 + buf[i + 2] as u32 * 0x10000 + buf[i + 3] as u32
        * 0x1000000
}

// ---------------------------------------------------------------------------
// Framing: one message on the wire.
// ---------------------------------------------------------------------------

/// The header bytes of a message whose whole frame is `len` bytes long.
pub open spec fn header_bytes(len: u32, msg_type: u16, flags: u16, seq: u32, pid: u32) -> Seq<
    u8,
> {
    u32_le(len) + u16_le(msg_type) + u16_le(flags) + u32_le(seq) + u32_le(pid)
}

/// The full frame of a message: header, then payload.
pub open spec fn frame_of(m: NlMessageView) -> Seq<u8> {
    header_bytes(
        (NLMSG_HEADER_LENGTH + m.payload.len()) as u32,
        m.msg_type,
        m.flags,
        m.seq,
        m.pid,
    ) + m.payload
}

fn encode_frame(m: &NlMessage) -> (r: Vec<u8>)
    requires
        m.payload@.len() + NLMSG_HEADER_LENGTH <= MAX_NETLINK_BUFFER_LENGTH,
    ensures
        r@ == frame_of(m@),
{
    let mut buf: Vec<u8> = Vec::new();
    let total: u32 = (NLMSG_HEADER_LENGTH + m.payload.len()) as u32;
    push_u32_le(&mut buf, total);
    push_u16_le(&mut buf, m.msg_type);
    push_u16_le(&mut buf, m.flags);
    push_u32_le(&mut buf, m.seq);
    push_u32_le(&mut buf, m.pid);
    let mut i: usize = 0;
    while i < m.payload.len()
        invariant
            i <= m.payload@.len(),
            m.payload@.len() + NLMSG_HEADER_LENGTH <= MAX_NETLINK_BUFFER_LENGTH,
            buf@ == header_bytes(
                (NLMSG_HEADER_LENGTH + m.payload@.len()) as u32,
                m.msg_type,
                m.flags,
                m.seq,
                m.pid,
            ) + m.payload@.take(i as int),
        decreases m.payload@.len() - i,
    {
        buf.push(m.payload[i]);
        i = i + 1;
        assert(m.payload@.take(i as int) =~= m.payload@.take(i - 1) + seq![m.payload@[i - 1]]);
    }
    assert(m.payload@.take(m.payload@.len() as int) =~= m.payload@);
    buf
}

// ---------------------------------------------------------------------------
// Response parsing: back-to-back messages inside one datagram.
// ---------------------------------------------------------------------------

/// How one message's payload steers the response drain.
pub enum PayloadKindSpec {
    /// An error message with code zero: a successful acknowledgement.
    Ack,
    /// The end-of-dump marker.
    Done,
    /// An error message with a nonzero code.
    Error(u32),
    /// Any other message: part of the result.
    Inner,
    /// An error message too short to carry a code.
    Short,
}

pub open spec fn classify(msg_type: u16, payload: Seq<u8>) -> PayloadKindSpec {
    if msg_type == NLMSG_ERROR {
        if payload.len() < 4 {
            PayloadKindSpec::Short
        } else {
            let code = le32(payload[0], payload[1], payload[2], payload[3]);
            if code == 0 {
                PayloadKindSpec::Ack
            } else {
                PayloadKindSpec::Error(code)
            }
        }
    } else if msg_type == NLMSG_DONE {
        PayloadKindSpec::Done
    } else {
        PayloadKindSpec::Inner
    }
}

/// Outcome of draining one datagram.
pub enum DrainSpec {
    /// The datagram was exhausted without a terminator: further datagrams
    /// must be read.
    More(Seq<NlMessageView>),
    /// An acknowledgement or done marker ended the request; the terminator
    /// itself is discarded.
    Finished(Seq<NlMessageView>),
    /// An explicit kernel error or malformed bytes.
    Failed(TransportError),
}

/// Parse back-to-back messages by their declared length fields.
pub open spec fn drain_spec(b: Seq<u8>) -> DrainSpec
    decreases b.len(),
{
    if b.len() == 0 {
        DrainSpec::More(Seq::empty())
    } else if b.len() < NLMSG_HEADER_LENGTH {
        DrainSpec::Failed(TransportError::Malformed)
    } else {
        let len = le32(b[0], b[1], b[2], b[3]) as int;
        let msg_type = le16(b[4], b[5]);
        if len < NLMSG_HEADER_LENGTH || len > b.len() {
            DrainSpec::Failed(TransportError::Malformed)
        } else {
            let payload = b.subrange(NLMSG_HEADER_LENGTH as int, len);
            match classify(msg_type, payload) {
                PayloadKindSpec::Short => DrainSpec::Failed(TransportError::Malformed),
                PayloadKindSpec::Ack => DrainSpec::Finished(Seq::empty()),
                PayloadKindSpec::Done => DrainSpec::Finished(Seq::empty()),
                PayloadKindSpec::Error(code) => DrainSpec::Failed(
                    TransportError::Kernel { code },
                ),
                PayloadKindSpec::Inner => {
                    let m = NlMessageView {
                        msg_type,
                        flags: le16(b[6], b[7]),
                        seq: le32(b[8], b[9], b[10], b[11]),
                        pid: le32(b[12], b[13], b[14], b[15]),
                        payload,
                    };
                    match drain_spec(b.skip(len)) {
                        DrainSpec::More(ms) => DrainSpec::More(seq![m] + ms),
                        DrainSpec::Finished(ms) => DrainSpec::Finished(seq![m] + ms),
                        DrainSpec::Failed(e) => DrainSpec::Failed(e),
                    }
                },
            }
        }
    }
}

enum DrainOutcome {
    More,
    Finished,
    Failed(TransportError),
}

fn drain_from(buf: &[u8], offset: usize, out: &mut Vec<NlMessage>) -> (r: DrainOutcome)
    requires
        offset <= buf@.len(),
    ensures
        match drain_spec(buf@.skip(offset as int)) {
            DrainSpec::More(ms) => r is More && views_of(final(out)@) == views_of(old(out)@) + ms,
            DrainSpec::Finished(ms) => r is Finished && views_of(final(out)@) == views_of(
                old(out)@,
            ) + ms,
            DrainSpec::Failed(e) => r matches DrainOutcome::Failed(e2) && e2 == e,
        },
    decreases buf@.len() - offset,
{
    let ghost b = buf@.skip(offset as int);
    let rem = buf.len() - offset;
    if rem == 0 {
        assert(views_of(out@) =~= views_of(out@) + Seq::<NlMessageView>::empty());
        return DrainOutcome::More;
    }
    if rem < NLMSG_HEADER_LENGTH {
        return DrainOutcome::Failed(TransportError::Malformed);
    }
    let len32 = read_u32_le(buf, offset);
    let msg_type = read_u16_le(buf, offset + 4);
    assert(b[0] == buf@[offset as int] && b[1] == buf@[offset + 1] && b[2] == buf@[offset + 2]
        && b[3] == buf@[offset + 3] && b[4] == buf@[offset + 4] && b[5] == buf@[offset + 5]);
    let len = len32 as usize;
    if len < NLMSG_HEADER_LENGTH || len > rem {
        return DrainOutcome::Failed(TransportError::Malformed);
    }
    let ghost payload_spec = b.subrange(NLMSG_HEADER_LENGTH as int, len as int);
    assert(forall|j: int|
        0 <= j < payload_spec.len() ==> payload_spec[j] == buf@[offset + NLMSG_HEADER_LENGTH
            + j]);
    if msg_type == NLMSG_ERROR {
        if len - NLMSG_HEADER_LENGTH < 4 {
            return DrainOutcome::Failed(TransportError::Malformed);
        }
        let code = read_u32_le(buf, offset + NLMSG_HEADER_LENGTH);
        assert(code == le32(payload_spec[0], payload_spec[1], payload_spec[2], payload_spec[3]));
        if code == 0 {
            assert(views_of(out@) =~= views_of(out@) + Seq::<NlMessageView>::empty());
            return DrainOutcome::Finished;
        }
        return DrainOutcome::Failed(TransportError::Kernel { code });
    }
    if msg_type == NLMSG_DONE {
        assert(views_of(out@) =~= views_of(out@) + Seq::<NlMessageView>::empty());
        return DrainOutcome::Finished;
    }
    // An ordinary message: collect it and keep parsing.
    let mut payload: Vec<u8> = Vec::new();
    let mut i: usize = NLMSG_HEADER_LENGTH;
    while i < len
        invariant
            NLMSG_HEADER_LENGTH <= i <= len,
            offset + len <= buf@.len(),
            buf@.len() <= usize::MAX,
            len >= NLMSG_HEADER_LENGTH,
            payload@ == buf@.subrange(offset + NLMSG_HEADER_LENGTH, offset + i),
        decreases len - i,
    {
        payload.push(buf[offset + i]);
        i = i + 1;
        assert(payload@ =~= buf@.subrange(offset + NLMSG_HEADER_LENGTH, offset + i));
    }
    assert(payload@ =~= payload_spec);
    let m = NlMessage {
        msg_type,
        flags: read_u16_le(buf, offset + 6),
        seq: read_u32_le(buf, offset + 8),
        pid: read_u32_le(buf, offset + 12),
        payload,
    };
    let ghost out_before = out@;
    out.push(m);
    assert(views_of(out@) =~= views_of(out_before) + seq![m@]) by {
        assert(views_of(out@) =~= out@.map_values(|x: NlMessage| x@));
    }
    let r2 = drain_from(buf, offset + len, out);
    proof {
        assert(buf@.skip(offset + len) =~= b.skip(len as int));
        match drain_spec(b.skip(len as int)) {
            DrainSpec::More(ms) => {
                assert(views_of(out@) =~= views_of(out_before) + (seq![m@] + ms));
            },
            DrainSpec::Finished(ms) => {
                assert(views_of(out@) =~= views_of(out_before) + (seq![m@] + ms));
            },
            DrainSpec::Failed(e) => {},
        }
    }
    r2
}

// ---------------------------------------------------------------------------
// The request session: send one frame, then drain responses.
// ---------------------------------------------------------------------------

#[derive(Clone, Copy, PartialEq, Eq, Structural, Debug)]
pub enum SessionPhase {
    /// The frame has not been sent yet.
    ToSend,
    /// The frame was sent; responses are being drained.
    Draining,
    /// A terminator arrived; the accumulated messages are the result.
    Finished,
    /// The request failed.
    Failed,
}

/// What the driver of a session must do next.
#[derive(Clone, Copy, PartialEq, Eq, Structural, Debug)]
pub enum IoAction {
    /// Send the frame over the kernel socket.
    Send,
    /// Receive one more datagram.
    Recv,
    /// The session is over; no further socket call may be issued.
    Stop,
}

/// One request/response exchange over a kernel socket. The session holds no
/// socket itself: its driver performs each `IoAction` and reports the outcome
/// back, so correlation stays strictly send-then-drain on one handle.
pub struct NlSession {
    /// Protocol number the socket must be bound to.
    pub protocol: i32,
    /// The serialized request frame.
    pub frame: Vec<u8>,
    /// Messages accumulated from response datagrams.
    pub acc: Vec<NlMessage>,
    pub phase: SessionPhase,
    pub error: Option<TransportError>,
}

pub open spec fn resolved_flags(flags: Option<u16>) -> u16 {
    match flags {
        Some(f) => f,
        None => NLM_F_REQUEST | NLM_F_ACK | NLM_F_EXCL | NLM_F_CREATE,
    }
}

pub open spec fn with_flags(m: NlMessageView, f: u16) -> NlMessageView {
    NlMessageView { flags: f, ..m }
}

/// Start one request: serialize the message into a bounded frame. A message
/// exceeding the maximum frame size fails with an oversize error before any
/// I/O. Default flags are request+ack+exclusive+create unless overridden.
pub fn netlink_request(msg: NlMessage, flags: Option<u16>, protocol: i32) -> (r: Result<
    NlSession,
    TransportError,
>)
    ensures
        msg.payload@.len() + NLMSG_HEADER_LENGTH > MAX_NETLINK_BUFFER_LENGTH ==> r == Err::<
            NlSession,
            _,
        >(TransportError::Oversize { len: msg.payload@.len() as usize }),
        msg.payload@.len() + NLMSG_HEADER_LENGTH <= MAX_NETLINK_BUFFER_LENGTH ==> (r matches Ok(s)
            && s.protocol == protocol && s.phase == SessionPhase::ToSend && s.acc@.len() == 0
            && s.error is None && s.frame@ == frame_of(with_flags(msg@, resolved_flags(flags)))),
{
    if msg.payload.len() > MAX_NETLINK_BUFFER_LENGTH - NLMSG_HEADER_LENGTH {
        return Err(TransportError::Oversize { len: msg.payload.len() });
    }
    let f = match flags {
        Some(f) => f,
        None => NLM_F_REQUEST | NLM_F_ACK | NLM_F_EXCL | NLM_F_CREATE,
    };
    let framed = NlMessage {
        msg_type: msg.msg_type,
        flags: f,
        seq: msg.seq,
        pid: msg.pid,
        payload: msg.payload,
    };
    let frame = encode_frame(&framed);
    Ok(
        NlSession {
            protocol,
            frame,
            acc: Vec::new(),
            phase: SessionPhase::ToSend,
            error: None,
        },
    )
}

impl NlSession {
    /// The next socket call the driver must perform, if any.
    pub fn next_io(&self) -> (r: IoAction)
        ensures
            self.phase == SessionPhase::ToSend ==> r == IoAction::Send,
            self.phase == SessionPhase::Draining ==> r == IoAction::Recv,
            self.phase == SessionPhase::Finished || self.phase == SessionPhase::Failed ==> r
                == IoAction::Stop,
    {
        match self.phase {
            SessionPhase::ToSend => IoAction::Send,
            SessionPhase::Draining => IoAction::Recv,
            SessionPhase::Finished => IoAction::Stop,
            SessionPhase::Failed => IoAction::Stop,
        }
    }

    /// Record how many bytes the socket reported sent. A partial send is a
    /// truncated-write failure.
    pub fn sent(&mut self, n_sent: usize)
        requires
            old(self).phase == SessionPhase::ToSend,
        ensures
            final(self).protocol == old(self).protocol,
            final(self).frame == old(self).frame,
            final(self).acc == old(self).acc,
            n_sent == old(self).frame@.len() ==> final(self).phase == SessionPhase::Draining
                && final(self).error is None,
            n_sent != old(self).frame@.len() ==> final(self).phase == SessionPhase::Failed
                && final(self).error == Some(
                TransportError::TruncatedWrite {
                    sent: n_sent,
                    expected: old(self).frame@.len() as usize,
                },
            ),
    {
        if n_sent == self.frame.len() {
            self.phase = SessionPhase::Draining;
            self.error = None;
        } else {
            self.phase = SessionPhase::Failed;
            self.error = Some(
                TransportError::TruncatedWrite { sent: n_sent, expected: self.frame.len() },
            );
        }
    }

    /// Feed one received datagram into the session: parse its back-to-back
    /// messages, accumulate ordinary ones, and settle the session when a
    /// terminator or an error appears.
    pub fn on_datagram(&mut self, buf: &[u8])
        requires
            old(self).phase == SessionPhase::Draining,
        ensures
            final(self).protocol == old(self).protocol,
            final(self).frame == old(self).frame,
            match drain_spec(buf@) {
                DrainSpec::More(ms) => final(self).phase == SessionPhase::Draining
                    && views_of(final(self).acc@) == views_of(old(self).acc@) + ms
                    && final(self).error is None,
                DrainSpec::Finished(ms) => final(self).phase == SessionPhase::Finished
                    && views_of(final(self).acc@) == views_of(old(self).acc@) + ms
                    && final(self).error is None,
                DrainSpec::Failed(e) => final(self).phase == SessionPhase::Failed
                    && final(self).acc == old(self).acc
                    && final(self).error == Some(e),
            },
    {
        let mut fresh: Vec<NlMessage> = Vec::new();
        assert(buf@.skip(0) =~= buf@);
        let outcome = drain_from(buf, 0, &mut fresh);
        match outcome {
            DrainOutcome::More => {
                let ghost acc0 = self.acc@;
                let ghost fresh0 = fresh@;
                self.acc.append(&mut fresh);
                assert(views_of(self.acc@) =~= views_of(acc0) + views_of(fresh0)) by {
                    assert(self.acc@ =~= acc0 + fresh0);
                }
                self.phase = SessionPhase::Draining;
                self.error = None;
            },
            DrainOutcome::Finished => {
                let ghost acc0 = self.acc@;
                let ghost fresh0 = fresh@;
                self.acc.append(&mut fresh);
                assert(views_of(self.acc@) =~= views_of(acc0) + views_of(fresh0)) by {
                    assert(self.acc@ =~= acc0 + fresh0);
                }
                self.phase = SessionPhase::Finished;
                self.error = None;
            },
            DrainOutcome::Failed(e) => {
                self.phase = SessionPhase::Failed;
                self.error = Some(e);
            },
        }
    }

    /// Consume a settled session: the accumulated messages on success, the
    /// failure otherwise.
    pub fn into_result(self) -> (r: Result<Vec<NlMessage>, TransportError>)
        requires
            self.phase == SessionPhase::Finished || self.phase == SessionPhase::Failed,
            self.phase == SessionPhase::Failed ==> self.error is Some,
        ensures
            self.phase == SessionPhase::Finished ==> (r matches Ok(v) && v == self.acc),
            self.phase == SessionPhase::Failed ==> r == Err::<Vec<NlMessage>, _>(
                self.error->0,
            ),
    {
        match self.phase {
            SessionPhase::Failed => {
                match self.error {
                    Some(e) => Err(e),
                    None => {
                        proof {
                            assert(false);
                        }
                        Err(TransportError::Malformed)
                    },
                }
            },
            _ => Ok(self.acc),
        }
    }
}

/// Start a routing-family request.
pub fn netlink_request_rtnl(msg: NlMessage, flags: Option<u16>) -> (r: Result<
    NlSession,
    TransportError,
>)
    ensures
        msg.payload@.len() + NLMSG_HEADER_LENGTH > MAX_NETLINK_BUFFER_LENGTH ==> r == Err::<
            NlSession,
            _,
        >(TransportError::Oversize { len: msg.payload@.len() as usize }),
        msg.payload@.len() + NLMSG_HEADER_LENGTH <= MAX_NETLINK_BUFFER_LENGTH ==> (r matches Ok(s)
            && s.protocol == NETLINK_ROUTE && s.phase == SessionPhase::ToSend && s.acc@.len() == 0
            && s.error is None && s.frame@ == frame_of(with_flags(msg@, resolved_flags(flags)))),
{
    netlink_request(msg, flags, NETLINK_ROUTE)
}

} // verus!

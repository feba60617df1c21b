use vstd::prelude::*;

use crate::errors::TransportError;
use crate::netlink::{
    le16, u16_le, frame_of, netlink_request, read_u16_le, resolved_flags, views_of, with_flags,
    NlMessage, NlMessageView, NlSession, SessionPhase, NETLINK_GENERIC, NLMSG_HEADER_LENGTH,
    MAX_NETLINK_BUFFER_LENGTH, NLM_F_ACK, NLM_F_REQUEST,
};

verus! {

/// Numeric id of the controller family itself.
pub const GENL_ID_CTRL: u16 = 16;

/// Controller command asking for a family record by name.
pub const CTRL_CMD_GETFAMILY: u8 = 3;

/// Controller protocol version.
pub const CTRL_VERSION: u8 = 2;

pub const CTRL_ATTR_FAMILY_ID: u16 = 1;

pub const CTRL_ATTR_FAMILY_NAME: u16 = 2;

/// One generic-family request: the numeric family id (zero when still
/// unresolved), the family command and version, the attribute bytes that
/// follow the generic header, and the family name used for resolution.
pub struct GenlRequest {
    pub family_id: u16,
    pub cmd: u8,
    pub version: u8,
    pub attrs: Vec<u8>,
    pub family_name: Vec<u8>,
}

/// The four-byte generic header: command, version, reserved.
pub open spec fn genl_header(cmd: u8, version: u8) -> Seq<u8> {
    seq![cmd, version, 0u8, 0u8]
}

/// A run of zero bytes.
pub open spec fn zeros(n: int) -> Seq<u8> {
    Seq::new(n as nat, |i: int| 0u8)
}

/// Attribute length rounded up to the four-byte alignment boundary.
pub open spec fn align4(n: int) -> int {
    n + (4 - n % 4) % 4
}

/// One packed attribute: length, type, value, zero padding to alignment.
pub open spec fn nlattr_bytes(ty: u16, val: Seq<u8>) -> Seq<u8> {
    u16_le(((4 + val.len()) as u16)) + u16_le(ty) + val + zeros(
        (4 - (4 + val.len() as int) % 4) % 4,
    )
}

/// Payload of the main generic request.
pub open spec fn genl_payload(cmd: u8, version: u8, attrs: Seq<u8>) -> Seq<u8> {
    genl_header(cmd, version) + attrs
}

/// Payload of the one nested resolution request: ask the controller family
/// for the numeric id of the family with this (zero-terminated) name.
pub open spec fn ctrl_request_payload(name: Seq<u8>) -> Seq<u8> {
    genl_header(CTRL_CMD_GETFAMILY, CTRL_VERSION) + nlattr_bytes(
        CTRL_ATTR_FAMILY_NAME,
        name + seq![0u8],
    )
}

/// The message of the main generic request, before flags are resolved.
pub open spec fn genl_message_view(req: GenlRequest) -> NlMessageView {
    NlMessageView {
        msg_type: req.family_id,
        flags: 0,
        seq: 0,
        pid: 0,
        payload: genl_payload(req.cmd, req.version, req.attrs@),
    }
}

/// The message of the resolution request.
pub open spec fn ctrl_message_view(name: Seq<u8>) -> NlMessageView {
    NlMessageView {
        msg_type: GENL_ID_CTRL,
        flags: 0,
        seq: 0,
        pid: 0,
        payload: ctrl_request_payload(name),
    }
}

/// The request with its family id filled in.
pub open spec fn with_family(req: GenlRequest, id: u16) -> GenlRequest {
    GenlRequest { family_id: id, ..req }
}

fn build_genl_payload(cmd: u8, version: u8, attrs: &Vec<u8>) -> (r: Vec<u8>)
    ensures
        r@ == genl_payload(cmd, version, attrs@),
{
    let mut buf: Vec<u8> = Vec::new();
    buf.push(cmd);
    buf.push(version);
    buf.push(0u8);
    buf.push(0u8);
    let mut i: usize = 0;
    while i < attrs.len()
        invariant
            i <= attrs@.len(),
            buf@ == genl_header(cmd, version) + attrs@.take(i as int),
        decreases attrs@.len() - i,
    {
        buf.push(attrs[i]);
        i = i + 1;
        assert(buf@ =~= genl_header(cmd, version) + attrs@.take(i as int));
    }
    assert(buf@ =~= genl_payload(cmd, version, attrs@));
    buf
}

fn build_ctrl_payload(name: &Vec<u8>) -> (r: Vec<u8>)
    requires
        name@.len() + 32 <= MAX_NETLINK_BUFFER_LENGTH,
    ensures
        r@ == ctrl_request_payload(name@),
{
    let mut buf: Vec<u8> = Vec::new();
    buf.push(CTRL_CMD_GETFAMILY);
    buf.push(CTRL_VERSION);
    buf.push(0u8);
    buf.push(0u8);
    // attribute header: its length counts the four header bytes and the
    // terminating zero of the name
    let alen: u16 = (4 + name.len() + 1) as u16;
    buf.push((alen % 256) as u8);
    buf.push((alen / 256) as u8);
    buf.push((CTRL_ATTR_FAMILY_NAME % 256) as u8);
    buf.push((CTRL_ATTR_FAMILY_NAME / 256) as u8);
    let ghost head = genl_header(CTRL_CMD_GETFAMILY, CTRL_VERSION) + u16_le(alen) + u16_le(
        CTRL_ATTR_FAMILY_NAME,
    );
    assert(buf@ =~= head);
    let mut i: usize = 0;
    while i < name.len()
        invariant
            i <= name@.len(),
            buf@ == head + name@.take(i as int),
        decreases name@.len() - i,
    {
        buf.push(name[i]);
        i = i + 1;
        assert(buf@ =~= head + name@.take(i as int));
    }
    buf.push(0u8);
    assert(buf@ =~= head + (name@ + seq![0u8]));
    let total: usize = 4 + name.len() + 1;
    let pad: usize = (4 - (total % 4)) % 4;
    let ghost before_pad = buf@;
    let mut j: usize = 0;
    while j < pad
        invariant
            j <= pad,
            buf@ == before_pad + zeros(j as int),
        decreases pad - j,
    {
        buf.push(0u8);
        j = j + 1;
        assert(buf@ =~= before_pad + zeros(j as int));
    }
    assert(buf@ =~= ctrl_request_payload(name@)) by {
        assert(pad == (4 - (4 + (name@ + seq![0u8]).len() as int) % 4) % 4);
        assert(buf@ =~= head + (name@ + seq![0u8]) + zeros(pad as int));
    }
    buf
}

// ---------------------------------------------------------------------------
// Reading the resolved family id out of the controller's answer.
// ---------------------------------------------------------------------------

/// Walk packed attributes and return the value of the first family-id
/// attribute, if any.
pub open spec fn find_family_id_attrs(b: Seq<u8>) -> Option<u16>
    decreases b.len(),
{
    if b.len() < 4 {
        None
    } else {
        let alen = le16(b[0], b[1]) as int;
        let aty = le16(b[2], b[3]);
        if alen < 4 || alen > b.len() {
            None
        } else if aty == CTRL_ATTR_FAMILY_ID && alen >= 6 {
            Some(le16(b[4], b[5]))
        } else {
            let adv = align4(alen);
            if adv >= b.len() {
                None
            } else {
                find_family_id_attrs(b.skip(adv))
            }
        }
    }
}

/// The family id carried by the first message of a resolution response:
/// skip the generic header, then walk the attributes.
pub open spec fn family_id_of_response(ms: Seq<NlMessageView>) -> Option<u16> {
    if ms.len() == 0 {
        None
    } else {
        let p = ms[0].payload;
        if p.len() < 4 {
            None
        } else {
            find_family_id_attrs(p.skip(4))
        }
    }
}

fn attr_find(b: &[u8], offset: usize) -> (r: Option<u16>)
    requires
        offset <= b@.len(),
    ensures
        r == find_family_id_attrs(b@.skip(offset as int)),
    decreases b@.len() - offset,
{
    let ghost s = b@.skip(offset as int);
    let rem = b.len() - offset;
    if rem < 4 {
        return None;
    }
    let alen16 = read_u16_le(b, offset);
    let aty = read_u16_le(b, offset + 2);
    assert(s[0] == b@[offset as int] && s[1] == b@[offset + 1] && s[2] == b@[offset + 2] && s[3]
        == b@[offset + 3]);
    let alen = alen16 as usize;
    if alen < 4 || alen > rem {
        return None;
    }
    if aty == CTRL_ATTR_FAMILY_ID && alen >= 6 {
        let v = read_u16_le(b, offset + 4);
        assert(s[4] == b@[offset + 4] && s[5] == b@[offset + 5]);
        return Some(v);
    }
    let pad: usize = (4 - (alen % 4)) % 4;
    let adv: usize = alen + pad;
    assert(adv == align4(alen as int));
    if adv >= rem {
        return None;
    }
    let r = attr_find(b, offset + adv);
    assert(b@.skip(offset + adv) =~= s.skip(adv as int));
    r
}

fn extract_family_id(msgs: &Vec<NlMessage>) -> (r: Option<u16>)
    ensures
        r == family_id_of_response(views_of(msgs@)),
{
    if msgs.len() == 0 {
        return None;
    }
    let m = &msgs[0];
    assert(views_of(msgs@)[0] == msgs@[0]@);
    if m.payload.len() < 4 {
        return None;
    }
    let r = attr_find(m.payload.as_slice(), 4);
    assert(m.payload@.skip(4) =~= views_of(msgs@)[0].payload.skip(4));
    r
}

// ---------------------------------------------------------------------------
// The generic-family flow: at most one nested resolution, then the request.
// ---------------------------------------------------------------------------

#[derive(Clone, Copy, PartialEq, Eq, Structural, Debug)]
pub enum GenlStage {
    /// The pending session asks the controller for the family id.
    Resolve,
    /// The pending session is the request itself.
    Main,
}

/// A generic-family request in flight. Resolution depth is bounded to one
/// level by construction: the only transition is `Resolve` to `Main`, and a
/// flow in stage `Main` never issues another controller request.
pub struct GenlFlow {
    pub stage: GenlStage,
    pub session: NlSession,
    pub req: GenlRequest,
    pub flags: Option<u16>,
}

/// Start a generic-family request. A request whose family id is unresolved
/// (zero) first asks the controller family for the numeric id by family
/// name; the request itself is framed once the id is known.
pub fn netlink_request_genl(req: GenlRequest, flags: Option<u16>) -> (r: Result<
    GenlFlow,
    TransportError,
>)
    ensures
        req.family_id != 0 && 4 + req.attrs@.len() + NLMSG_HEADER_LENGTH
            > MAX_NETLINK_BUFFER_LENGTH ==> r == Err::<GenlFlow, _>(
            TransportError::Oversize { len: (4 + req.attrs@.len()) as usize },
        ),
        req.family_id != 0 && 4 + req.attrs@.len() + NLMSG_HEADER_LENGTH
            <= MAX_NETLINK_BUFFER_LENGTH ==> (r matches Ok(f) && f.stage == GenlStage::Main
            && f.session.protocol == NETLINK_GENERIC && f.session.phase == SessionPhase::ToSend
            && f.session.acc@.len() == 0 && f.session.error is None && f.session.frame@
            == frame_of(with_flags(genl_message_view(req), resolved_flags(flags))) && f.flags
            == flags),
        req.family_id == 0 && req.family_name@.len() + 32 > MAX_NETLINK_BUFFER_LENGTH ==> (
        r matches Err(e) && e matches TransportError::Oversize { .. }),
        req.family_id == 0 && req.family_name@.len() + 32 <= MAX_NETLINK_BUFFER_LENGTH ==> (
        r matches Ok(f) && f.stage == GenlStage::Resolve && f.session.protocol == NETLINK_GENERIC
            && f.session.phase == SessionPhase::ToSend && f.session.acc@.len() == 0
            && f.session.error is None && f.session.frame@ == frame_of(
            with_flags(ctrl_message_view(req.family_name@), NLM_F_REQUEST | NLM_F_ACK),
        ) && f.req == req && f.flags == flags),
{
    if req.family_id != 0 {
        let payload = build_genl_payload(req.cmd, req.version, &req.attrs);
        let msg = NlMessage { msg_type: req.family_id, flags: 0, seq: 0, pid: 0, payload };
        match netlink_request(msg, flags, NETLINK_GENERIC) {
            Ok(session) => Ok(GenlFlow { stage: GenlStage::Main, session, req, flags }),
            Err(e) => Err(e),
        }
    } else {
        if req.family_name.len() > MAX_NETLINK_BUFFER_LENGTH - 32 {
            return Err(TransportError::Oversize { len: req.family_name.len() });
        }
        let payload = build_ctrl_payload(&req.family_name);
        let msg = NlMessage { msg_type: GENL_ID_CTRL, flags: 0, seq: 0, pid: 0, payload };
        match netlink_request(msg, Some(NLM_F_REQUEST | NLM_F_ACK), NETLINK_GENERIC) {
            Ok(session) => Ok(GenlFlow { stage: GenlStage::Resolve, session, req, flags }),
            Err(e) => Err(e),
        }
    }
}

impl GenlFlow {
    /// Finish a settled resolution session: read the family id out of the
    /// controller's answer and frame the main request with it. An answer
    /// without a usable id is a malformed response.
    pub fn resolve(&mut self) -> (r: Result<(), TransportError>)
        requires
            old(self).stage == GenlStage::Resolve,
            old(self).session.phase == SessionPhase::Finished,
        ensures
            match family_id_of_response(views_of(old(self).session.acc@)) {
                Option::None => r == Err::<(), _>(TransportError::Malformed) && *final(self)
                    == *old(self),
                Option::Some(id) => {
                    if 4 + old(self).req.attrs@.len() + NLMSG_HEADER_LENGTH
                        > MAX_NETLINK_BUFFER_LENGTH {
                        r == Err::<(), _>(
                            TransportError::Oversize {
                                len: (4 + old(self).req.attrs@.len()) as usize,
                            },
                        ) && *final(self) == *old(self)
                    } else {
                        r == Ok::<(), TransportError>(()) && final(self).stage == GenlStage::Main
                            && final(self).session.protocol == NETLINK_GENERIC
                            && final(self).session.phase == SessionPhase::ToSend
                            && final(self).session.acc@.len() == 0
                            && final(self).session.error is None
                            && final(self).session.frame@ == frame_of(
                            with_flags(
                                genl_message_view(with_family(old(self).req, id)),
                                resolved_flags(old(self).flags),
                            ),
                        ) && final(self).flags == old(self).flags
                    }
                },
            },
    {
        let id_opt = extract_family_id(&self.session.acc);
        match id_opt {
            None => Err(TransportError::Malformed),
            Some(id) => {
                let payload = build_genl_payload(self.req.cmd, self.req.version, &self.req.attrs);
                let msg = NlMessage { msg_type: id, flags: 0, seq: 0, pid: 0, payload };
                match netlink_request(msg, self.flags, NETLINK_GENERIC) {
                    Ok(session) => {
                        self.session = session;
                        self.stage = GenlStage::Main;
                        Ok(())
                    },
                    Err(e) => Err(e),
                }
            },
        }
    }
}

} // verus!

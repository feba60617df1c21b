use wgnet::errors::TransportError;
use wgnet::genl::{netlink_request_genl, GenlRequest, GenlStage};
use wgnet::netlink::{
    netlink_request, netlink_request_rtnl, IoAction, NlMessage, SessionPhase, NETLINK_GENERIC,
    NETLINK_ROUTE,
};

fn le16(n: u16) -> [u8; 2] {
    [(n % 256) as u8, (n / 256) as u8]
}

fn le32(n: u32) -> [u8; 4] {
    [
        (n % 256) as u8,
        (n / 0x100 % 256) as u8,
        (n / 0x10000 % 256) as u8,
        (n / 0x1000000 % 256) as u8,
    ]
}

fn framed(msg_type: u16, flags: u16, seq: u32, pid: u32, payload: &[u8]) -> Vec<u8> {
    let mut b = Vec::new();
    b.extend_from_slice(&le32((16 + payload.len()) as u32));
    b.extend_from_slice(&le16(msg_type));
    b.extend_from_slice(&le16(flags));
    b.extend_from_slice(&le32(seq));
    b.extend_from_slice(&le32(pid));
    b.extend_from_slice(payload);
    b
}

fn start_draining(payload: Vec<u8>) -> wgnet::netlink::NlSession {
    let msg = NlMessage { msg_type: 18, flags: 0, seq: 7, pid: 0, payload };
    let mut s = netlink_request(msg, None, NETLINK_ROUTE).unwrap();
    assert_eq!(s.next_io(), IoAction::Send);
    let n = s.frame.len();
    s.sent(n);
    assert_eq!(s.next_io(), IoAction::Recv);
    s
}

#[test]
fn test() {}

#[test]
fn test_frame_layout() {
    let msg = NlMessage { msg_type: 20, flags: 0, seq: 9, pid: 0, payload: vec![1, 2, 3, 4] };
    let s = netlink_request(msg, None, NETLINK_ROUTE).unwrap();
    // header: length 20, type 20, default flags, sequence, port id
    assert_eq!(s.frame.len(), 20);
    assert_eq!(&s.frame[0..4], &le32(20));
    assert_eq!(&s.frame[4..6], &le16(20));
    // default flags: request + ack + exclusive + create
    assert_eq!(&s.frame[6..8], &le16(0x605));
    assert_eq!(&s.frame[8..12], &le32(9));
    assert_eq!(&s.frame[16..20], &[1, 2, 3, 4]);
    assert_eq!(s.protocol, NETLINK_ROUTE);
}

#[test]
fn test_flag_override() {
    let msg = NlMessage { msg_type: 20, flags: 0, seq: 0, pid: 0, payload: vec![] };
    let s = netlink_request_rtnl(msg, Some(5)).unwrap();
    assert_eq!(&s.frame[6..8], &le16(5));
}

#[test]
fn test_oversize_request_fails_before_io() {
    let msg = NlMessage { msg_type: 20, flags: 0, seq: 0, pid: 0, payload: vec![0u8; 5000] };
    let r = netlink_request(msg, None, NETLINK_ROUTE);
    assert_eq!(r.err(), Some(TransportError::Oversize { len: 5000 }));
}

#[test]
fn test_truncated_send() {
    let msg = NlMessage { msg_type: 20, flags: 0, seq: 0, pid: 0, payload: vec![1] };
    let mut s = netlink_request(msg, None, NETLINK_ROUTE).unwrap();
    let n = s.frame.len();
    s.sent(n - 1);
    assert_eq!(s.phase, SessionPhase::Failed);
    assert_eq!(s.error, Some(TransportError::TruncatedWrite { sent: n - 1, expected: n }));
}

#[test]
fn test_datagram_three_messages_ack_ends_request() {
    // a synthetic kernel datagram: three back-to-back messages, the third
    // an acknowledgement; the request returns exactly the first two and
    // issues no further receive call
    let mut s = start_draining(vec![1, 2, 3]);
    let mut dgram = framed(24, 2, 7, 0, &[10, 11]);
    dgram.extend_from_slice(&framed(24, 2, 7, 0, &[12, 13, 14]));
    dgram.extend_from_slice(&framed(2, 0, 7, 0, &[0, 0, 0, 0]));
    s.on_datagram(&dgram);
    assert_eq!(s.next_io(), IoAction::Stop);
    let msgs = s.into_result().unwrap();
    assert_eq!(msgs.len(), 2);
    assert_eq!(msgs[0].payload, vec![10, 11]);
    assert_eq!(msgs[1].payload, vec![12, 13, 14]);
}

#[test]
fn test_datagram_done_marker_discarded() {
    let mut s = start_draining(vec![]);
    let mut dgram = framed(24, 2, 7, 0, &[1]);
    dgram.extend_from_slice(&framed(3, 0, 7, 0, &[]));
    s.on_datagram(&dgram);
    assert_eq!(s.phase, SessionPhase::Finished);
    let msgs = s.into_result().unwrap();
    assert_eq!(msgs.len(), 1);
}

#[test]
fn test_datagram_without_terminator_keeps_draining() {
    let mut s = start_draining(vec![]);
    let dgram = framed(24, 2, 7, 0, &[1]);
    s.on_datagram(&dgram);
    assert_eq!(s.next_io(), IoAction::Recv);
    let dgram2 = framed(2, 0, 7, 0, &[0, 0, 0, 0]);
    s.on_datagram(&dgram2);
    assert_eq!(s.next_io(), IoAction::Stop);
    assert_eq!(s.into_result().unwrap().len(), 1);
}

#[test]
fn test_kernel_error_propagated_unchanged() {
    let mut s = start_draining(vec![]);
    // explicit error payload: code -22 as a raw little-endian word
    let code: u32 = (-22i32) as u32;
    let mut payload = Vec::new();
    payload.extend_from_slice(&le32(code));
    let dgram = framed(2, 0, 7, 0, &payload);
    s.on_datagram(&dgram);
    assert_eq!(s.phase, SessionPhase::Failed);
    assert_eq!(s.into_result().err(), Some(TransportError::Kernel { code }));
}

#[test]
fn test_malformed_datagram() {
    let mut s = start_draining(vec![]);
    s.on_datagram(&[1, 2, 3]);
    assert_eq!(s.phase, SessionPhase::Failed);
    assert_eq!(s.error, Some(TransportError::Malformed));
}

#[test]
fn test_genl_resolved_family_goes_straight_to_main() {
    let req = GenlRequest {
        family_id: 28,
        cmd: 1,
        version: 1,
        attrs: vec![8, 0, 2, 0, 1, 2, 3, 4],
        family_name: b"wireguard".to_vec(),
    };
    let flow = netlink_request_genl(req, None).unwrap();
    assert_eq!(flow.stage, GenlStage::Main);
    assert_eq!(flow.session.protocol, NETLINK_GENERIC);
    // the message type is the resolved family id
    assert_eq!(&flow.session.frame[4..6], &le16(28));
}

#[test]
fn test_genl_family_resolution_one_nested_request() {
    let req = GenlRequest {
        family_id: 0,
        cmd: 1,
        version: 1,
        attrs: vec![],
        family_name: b"wireguard".to_vec(),
    };
    let mut flow = netlink_request_genl(req, None).unwrap();
    assert_eq!(flow.stage, GenlStage::Resolve);
    // the nested request goes to the controller family with request+ack
    assert_eq!(&flow.session.frame[4..6], &le16(16));
    assert_eq!(&flow.session.frame[6..8], &le16(5));
    // the payload asks for the family by (zero-terminated) name
    let payload = &flow.session.frame[16..];
    assert_eq!(&payload[0..4], &[3, 2, 0, 0]);
    assert_eq!(&payload[4..6], &le16(4 + 9 + 1));
    assert_eq!(&payload[6..8], &le16(2));
    assert_eq!(&payload[8..17], b"wireguard");
    assert_eq!(payload[17], 0);
    // drive the resolution session to completion with a synthetic answer
    let n = flow.session.frame.len();
    flow.session.sent(n);
    let mut genl_payload = vec![1u8, 2, 0, 0];
    genl_payload.extend_from_slice(&[6, 0, 1, 0, 28, 0, 0, 0]);
    let mut dgram = framed(16, 0, 0, 0, &genl_payload);
    dgram.extend_from_slice(&framed(2, 0, 0, 0, &[0, 0, 0, 0]));
    flow.session.on_datagram(&dgram);
    assert_eq!(flow.session.phase, SessionPhase::Finished);
    flow.resolve().unwrap();
    // resolution is bounded to one level: the flow is now the main request
    assert_eq!(flow.stage, GenlStage::Main);
    assert_eq!(flow.session.phase, SessionPhase::ToSend);
    assert_eq!(&flow.session.frame[4..6], &le16(28));
}

#[test]
fn test_genl_resolution_without_id_is_malformed() {
    let req = GenlRequest {
        family_id: 0,
        cmd: 1,
        version: 1,
        attrs: vec![],
        family_name: b"wireguard".to_vec(),
    };
    let mut flow = netlink_request_genl(req, None).unwrap();
    let n = flow.session.frame.len();
    flow.session.sent(n);
    let dgram = framed(2, 0, 0, 0, &[0, 0, 0, 0]);
    flow.session.on_datagram(&dgram);
    assert_eq!(flow.resolve().err(), Some(TransportError::Malformed));
}

use base64::Engine;

use wgnet::addr::{format_cidr, format_endpoint, parse_cidr_in, parse_endpoint_in, Cidr, Endpoint, IpAddrVal};
use wgnet::b64::{envelope_decode, envelope_encode};
use wgnet::config::{InterfaceConfig, PeerConfig, PeerEntry};
use wgnet::errors::ConfigError;
use wgnet::wire::{InterfaceConfigWire, PeerConfigWire, PeerEntryWire};

fn sample_config() -> InterfaceConfig {
    InterfaceConfig {
        name: b"wg0".to_vec(),
        private_key: b"private-key-text".to_vec(),
        addrs: vec![
            Cidr { addr: IpAddrVal::V4(10, 1, 1, 1), prefix: 16 },
            Cidr { addr: IpAddrVal::V6(0xfd01, 1, 0, 0, 0, 0, 0, 1), prefix: 64 },
        ],
        listen_port: Some(51820),
        mtu: Some(1420),
        internal_endpoint: Some(
            Endpoint { addr: IpAddrVal::V4(192, 168, 1, 2), port: 51820 },
        ),
        external_endpoint: Some(Endpoint { addr: IpAddrVal::V4(6, 6, 6, 6), port: 1234 }),
        peers: vec![
            PeerEntry {
                name: b"peer1".to_vec(),
                peer: PeerConfig {
                    public_key: b"peer1-key".to_vec(),
                    endpoint: Some(Endpoint { addr: IpAddrVal::V4(1, 2, 3, 4), port: 51820 }),
                    allowed_ips: vec![
                        Cidr { addr: IpAddrVal::V4(10, 1, 0, 0), prefix: 16 },
                        Cidr { addr: IpAddrVal::V6(0xfd01, 0, 0, 0, 0, 0, 0, 0), prefix: 64 },
                    ],
                    preshared_key: None,
                    persistent_keepalive: Some(25),
                },
            },
            PeerEntry {
                name: b"peer2".to_vec(),
                peer: PeerConfig {
                    public_key: b"peer2-key".to_vec(),
                    endpoint: Some(Endpoint { addr: IpAddrVal::V4(1, 2, 3, 5), port: 51820 }),
                    allowed_ips: vec![
                        Cidr { addr: IpAddrVal::V4(10, 2, 0, 0), prefix: 16 },
                        Cidr { addr: IpAddrVal::V6(0xfd02, 0, 0, 0, 0, 0, 0, 0), prefix: 64 },
                    ],
                    preshared_key: Some(b"psk-text".to_vec()),
                    persistent_keepalive: Some(25),
                },
            },
        ],
    }
}

#[test]
fn test_cidr_text_forms() {
    let c4 = Cidr { addr: IpAddrVal::V4(10, 1, 1, 1), prefix: 16 };
    assert_eq!(format_cidr(c4), b"10.1.1.1/16".to_vec());
    let c6 = Cidr { addr: IpAddrVal::V6(0xfd01, 1, 0, 0, 0, 0, 0, 1), prefix: 64 };
    assert_eq!(format_cidr(c6), b"fd01:1:0:0:0:0:0:1/64".to_vec());
}

#[test]
fn test_cidr_parse_round_trip() {
    for text in [
        &b"10.1.1.1/16"[..],
        b"0.0.0.0/0",
        b"255.255.255.255/32",
        b"fd01:1:0:0:0:0:0:1/64",
        b"0:0:0:0:0:0:0:1/128",
    ] {
        let c = parse_cidr_in(text).unwrap();
        assert_eq!(format_cidr(c), text.to_vec());
    }
}

#[test]
fn test_cidr_parse_rejects_bad_text() {
    for text in [
        &b"10.1.1.1"[..],
        b"300.1.1.1/16",
        b"10.1.1.1/33",
        b"10.1.1/16",
        b"01.1.1.1/8",
        b"fd01:1:0:0:0:0:0:1/129",
        b"fd01:1/64",
        b"",
        b"abc",
    ] {
        assert!(parse_cidr_in(text).is_none(), "accepted {:?}", text);
    }
}

#[test]
fn test_endpoint_text_forms() {
    let e4 = Endpoint { addr: IpAddrVal::V4(192, 168, 1, 2), port: 51820 };
    assert_eq!(format_endpoint(e4), b"192.168.1.2:51820".to_vec());
    let e6 = Endpoint { addr: IpAddrVal::V6(0xfd01, 0, 0, 0, 0, 0, 0, 1), port: 8888 };
    assert_eq!(format_endpoint(e6), b"[fd01:0:0:0:0:0:0:1]:8888".to_vec());
    assert_eq!(parse_endpoint_in(b"192.168.1.2:51820"), Some(e4));
    assert_eq!(parse_endpoint_in(b"[fd01:0:0:0:0:0:0:1]:8888"), Some(e6));
    assert_eq!(parse_endpoint_in(b"192.168.1.2"), None);
    assert_eq!(parse_endpoint_in(b"192.168.1.2:99999"), None);
}

#[test]
fn test_interface_config_wire_round_trip() {
    let config = sample_config();
    let wire = config.to_proto_config();
    assert_eq!(wire.addrs[0], b"10.1.1.1/16".to_vec());
    assert_eq!(wire.addrs[1], b"fd01:1:0:0:0:0:0:1/64".to_vec());
    assert_eq!(wire.internal_endpoint.as_ref().unwrap(), &b"192.168.1.2:51820".to_vec());
    assert_eq!(wire.external_endpoint.as_ref().unwrap(), &b"6.6.6.6:1234".to_vec());
    assert_eq!(wire.listen_port, Some(51820));
    let back = InterfaceConfig::from_proto_config(&wire).unwrap();
    assert_eq!(back, config);
}

#[test]
fn test_from_proto_config_rejects_bad_fields() {
    let mut wire = sample_config().to_proto_config();
    wire.addrs[0] = b"300.1.1.1/16".to_vec();
    assert_eq!(InterfaceConfig::from_proto_config(&wire).err(), Some(ConfigError::BadCidr));

    let mut wire = sample_config().to_proto_config();
    wire.internal_endpoint = Some(b"not-an-endpoint".to_vec());
    assert_eq!(InterfaceConfig::from_proto_config(&wire).err(), Some(ConfigError::BadEndpoint));

    let mut wire = sample_config().to_proto_config();
    wire.listen_port = Some(70000);
    assert_eq!(InterfaceConfig::from_proto_config(&wire).err(), Some(ConfigError::BadPort));

    let mut wire = sample_config().to_proto_config();
    wire.peers[1].name = wire.peers[0].name.clone();
    assert_eq!(InterfaceConfig::from_proto_config(&wire).err(), Some(ConfigError::BadDocument));
}

#[test]
fn test_peer_wire_round_trip() {
    let peer = PeerConfig {
        public_key: b"k".to_vec(),
        endpoint: Some(Endpoint { addr: IpAddrVal::V4(1, 2, 3, 4), port: 51820 }),
        allowed_ips: vec![Cidr { addr: IpAddrVal::V4(10, 1, 0, 0), prefix: 16 }],
        preshared_key: None,
        persistent_keepalive: None,
    };
    let wire = peer.to_proto_peer();
    assert_eq!(wire.allowed_ips[0], b"10.1.0.0/16".to_vec());
    assert_eq!(wire.endpoint.as_ref().unwrap(), &b"1.2.3.4:51820".to_vec());
    let back = PeerConfig::from_proto_peer(&wire).unwrap();
    assert_eq!(back, peer);
    // a dial-in-only peer (no endpoint, no keepalive) is valid
    let quiet = PeerConfig {
        public_key: b"q".to_vec(),
        endpoint: None,
        allowed_ips: vec![],
        preshared_key: None,
        persistent_keepalive: None,
    };
    let back = PeerConfig::from_proto_peer(&quiet.to_proto_peer()).unwrap();
    assert_eq!(back, quiet);
}

#[test]
fn test_invite_envelope_round_trip() {
    // a JSON document as the opaque payload of the exterior encoding
    let json = br#"{"iface_config":{"name":"wg0"},"server_socket":"10.1.0.0:8888","key":"invite_key"}"#.to_vec();
    let sealed = envelope_encode(&json);
    // the envelope is the standard padded base64 of the document
    let direct = base64::engine::general_purpose::STANDARD.encode(&json);
    assert_eq!(sealed, direct.as_bytes().to_vec());
    let opened = envelope_decode(&sealed).unwrap();
    assert_eq!(opened, json);
}

#[test]
fn test_invite_envelope_rejects_bad_text() {
    assert_eq!(envelope_decode(&b"!!!not base64!!!".to_vec()).err(), Some(ConfigError::BadEncoding));
    // non-canonical padding is refused rather than guessed at
    assert_eq!(envelope_decode(&b"QUJD0".to_vec()).err(), Some(ConfigError::BadEncoding));
}

#[test]
fn test_wire_types_assemble() {
    let w = InterfaceConfigWire {
        name: b"wg0".to_vec(),
        private_key: b"k".to_vec(),
        addrs: vec![b"10.1.1.1/16".to_vec()],
        listen_port: None,
        mtu: None,
        internal_endpoint: None,
        external_endpoint: None,
        peers: vec![
            PeerEntryWire {
                name: b"p".to_vec(),
                peer: PeerConfigWire {
                    public_key: b"pk".to_vec(),
                    endpoint: None,
                    allowed_ips: vec![],
                    preshared_key: None,
                    persistent_keepalive: None,
                },
            },
        ],
    };
    let c = InterfaceConfig::from_proto_config(&w).unwrap();
    assert_eq!(c.addrs[0], Cidr { addr: IpAddrVal::V4(10, 1, 1, 1), prefix: 16 });
    assert_eq!(c.listen_port, None);
    assert_eq!(c.peers.len(), 1);
    assert_eq!(c.to_proto_config(), w);
}

#[test]
fn test_empty_values_round_trip() {
    // an empty payload still seals and opens losslessly
    let empty: Vec<u8> = Vec::new();
    assert_eq!(envelope_decode(&envelope_encode(&empty)).unwrap(), empty);
    // a configuration with no ranges and no peers round-trips too
    let bare = InterfaceConfig {
        name: b"wg9".to_vec(),
        private_key: b"k".to_vec(),
        addrs: vec![],
        listen_port: None,
        mtu: None,
        internal_endpoint: None,
        external_endpoint: None,
        peers: vec![],
    };
    let back = InterfaceConfig::from_proto_config(&bare.to_proto_config()).unwrap();
    assert_eq!(back, bare);
}

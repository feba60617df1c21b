use base64::Engine;

use wgnet::addr::{Cidr, Endpoint, IpAddrVal};
use wgnet::config::{InterfaceConfig, PeerConfig, PeerEntry};
use wgnet::errors::{ApplyError, ConfigError};
use wgnet::iface::{Backend, DownAction, Interface, RuntimeState, UpAction, build_device_plan};

fn key_text(byte: u8) -> Vec<u8> {
    base64::engine::general_purpose::STANDARD.encode([byte; 32]).into_bytes()
}

fn keyed_config() -> InterfaceConfig {
    InterfaceConfig {
        name: b"wg0".to_vec(),
        private_key: key_text(1),
        addrs: vec![
            Cidr { addr: IpAddrVal::V4(10, 1, 1, 1), prefix: 16 },
            Cidr { addr: IpAddrVal::V6(0xfd01, 1, 0, 0, 0, 0, 0, 1), prefix: 64 },
        ],
        listen_port: Some(51820),
        mtu: None,
        internal_endpoint: None,
        external_endpoint: None,
        peers: vec![
            PeerEntry {
                name: b"peer1".to_vec(),
                peer: PeerConfig {
                    public_key: key_text(2),
                    endpoint: Some(Endpoint { addr: IpAddrVal::V4(1, 2, 3, 4), port: 51820 }),
                    allowed_ips: vec![Cidr { addr: IpAddrVal::V4(10, 1, 0, 0), prefix: 16 }],
                    preshared_key: Some(key_text(3)),
                    persistent_keepalive: Some(25),
                },
            },
        ],
    }
}

fn step_ok(iface: &mut Interface) -> UpAction {
    let action = iface.up_next().unwrap().expect("a pending sub-step");
    iface.up_step(true);
    action
}

#[test]
fn test_device_plan_decodes_keys() {
    let config = keyed_config();
    let plan = build_device_plan(&config).unwrap();
    assert_eq!(plan.private_key, vec![1u8; 32]);
    assert_eq!(plan.listen_port, Some(51820));
    assert_eq!(plan.peers.len(), 1);
    assert_eq!(plan.peers[0].public_key, vec![2u8; 32]);
    assert_eq!(plan.peers[0].preshared_key.as_ref().unwrap(), &vec![3u8; 32]);
    assert_eq!(plan.peers[0].persistent_keepalive, Some(25));
    assert_eq!(plan.peers[0].allowed_ips, config.peers[0].peer.allowed_ips);
}

#[test]
fn test_device_plan_rejects_bad_key() {
    let mut config = keyed_config();
    config.private_key = b"not base64".to_vec();
    assert_eq!(
        build_device_plan(&config).err(),
        Some(ApplyError::BadConfig(ConfigError::BadEncoding))
    );
    // a key of the wrong length is rejected even when it decodes
    let mut config = keyed_config();
    config.peers[0].peer.public_key =
        base64::engine::general_purpose::STANDARD.encode([9u8; 16]).into_bytes();
    assert_eq!(
        build_device_plan(&config).err(),
        Some(ApplyError::BadConfig(ConfigError::BadEncoding))
    );
}

#[test]
fn test_up_walks_the_stages_in_order() {
    let config = keyed_config();
    let mut iface = Interface::new(&config, Backend::Userspace);
    assert_eq!(iface.state, RuntimeState::Down);

    match step_ok(&mut iface) {
        UpAction::ConfigureDevice(plan) => assert_eq!(plan.private_key, vec![1u8; 32]),
        other => panic!("expected a device step, got {:?}", other),
    }
    assert_eq!(iface.state, RuntimeState::DeviceConfigured);

    match step_ok(&mut iface) {
        UpAction::AssignAddresses(v) => assert_eq!(v.len(), 2),
        other => panic!("expected an address step, got {:?}", other),
    }
    assert_eq!(iface.state, RuntimeState::AddressAssigned);

    match step_ok(&mut iface) {
        UpAction::AddRoutes(v) => assert_eq!(v.len(), 2),
        other => panic!("expected a route step, got {:?}", other),
    }
    assert_eq!(iface.state, RuntimeState::Routed);

    match step_ok(&mut iface) {
        UpAction::BringLinkUp { mtu } => assert_eq!(mtu, 1420),
        other => panic!("expected the link step, got {:?}", other),
    }
    assert_eq!(iface.state, RuntimeState::Up);
    assert_eq!(iface.up_next().unwrap(), None);
}

#[test]
fn test_failure_freezes_state_for_retry() {
    let config = keyed_config();
    let mut iface = Interface::new(&config, Backend::Userspace);
    step_ok(&mut iface);
    assert_eq!(iface.state, RuntimeState::DeviceConfigured);
    // the address step fails: state must not advance past the last
    // completed stage
    iface.up_step(false);
    assert_eq!(iface.state, RuntimeState::DeviceConfigured);
    iface.up_step(false);
    assert_eq!(iface.state, RuntimeState::DeviceConfigured);
    // the retry succeeds and the sequence continues
    iface.up_step(true);
    assert_eq!(iface.state, RuntimeState::AddressAssigned);
}

#[test]
fn test_repeated_up_deduplicates_addresses() {
    let config = keyed_config();
    let mut iface = Interface::new(&config, Backend::Userspace);
    step_ok(&mut iface);
    step_ok(&mut iface);
    assert_eq!(iface.applied_addrs.len(), 2);
    // a resync restarts convergence but keeps what was applied
    iface.resync(keyed_config());
    assert_eq!(iface.state, RuntimeState::Down);
    step_ok(&mut iface);
    match iface.up_next().unwrap().unwrap() {
        UpAction::AssignAddresses(v) => assert_eq!(v, vec![]),
        other => panic!("expected an address step, got {:?}", other),
    }
    iface.up_step(true);
    assert_eq!(iface.applied_addrs.len(), 2);
}

#[test]
fn test_down_on_down_interface_is_a_no_op() {
    let config = keyed_config();
    let iface = Interface::new(&config, Backend::Userspace);
    // already Down: success, and no OS or device call is requested
    assert_eq!(iface.down(), vec![]);
}

#[test]
fn test_down_releases_in_reverse_order() {
    let config = keyed_config();
    let mut iface = Interface::new(&config, Backend::Userspace);
    step_ok(&mut iface);
    step_ok(&mut iface);
    step_ok(&mut iface);
    step_ok(&mut iface);
    assert_eq!(iface.state, RuntimeState::Up);
    let plan = iface.down();
    assert_eq!(plan.len(), 3);
    match &plan[0] {
        DownAction::RemoveRoutes(v) => assert_eq!(v, &iface.applied_routes),
        other => panic!("expected routes first, got {:?}", other),
    }
    match &plan[1] {
        DownAction::RemoveAddresses(v) => assert_eq!(v, &iface.applied_addrs),
        other => panic!("expected addresses second, got {:?}", other),
    }
    assert_eq!(plan[2], DownAction::ClearDevice);
    iface.down_complete();
    assert_eq!(iface.state, RuntimeState::Down);
    assert_eq!(iface.applied_addrs, vec![]);
    assert_eq!(iface.applied_routes, vec![]);
    assert_eq!(iface.down(), vec![]);
}

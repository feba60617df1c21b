use wgnet::addr::{Cidr, Endpoint, IpAddrVal};
use wgnet::config::{ClientConfig, InterfaceConfig, InviteConfig};
use wgnet::iface::{Backend, RuntimeState};
use wgnet::node::{
    choose_backend, make_ping_msg, make_ping_reply, Client, FailStage, NodeState, OsKind,
    SyncOutcome,
};

fn plain_config(name: &[u8]) -> InterfaceConfig {
    InterfaceConfig {
        name: name.to_vec(),
        private_key: b"key".to_vec(),
        addrs: vec![Cidr { addr: IpAddrVal::V4(10, 1, 1, 1), prefix: 16 }],
        listen_port: None,
        mtu: None,
        internal_endpoint: Some(Endpoint { addr: IpAddrVal::V4(192, 168, 1, 2), port: 51820 }),
        external_endpoint: None,
        peers: vec![],
    }
}

fn client_config() -> ClientConfig {
    ClientConfig {
        name: b"node1".to_vec(),
        update_interval: 30,
        iface_config_dir: b"/etc/wgnet".to_vec(),
        backend: b"kernel".to_vec(),
    }
}

fn invite() -> InviteConfig {
    InviteConfig {
        iface_config: plain_config(b"wg-bootstrap"),
        server_socket: Endpoint { addr: IpAddrVal::V4(10, 1, 0, 0), port: 8888 },
        key: b"invite_key".to_vec(),
    }
}

#[test]
fn test_choose_backend_linux() {
    assert_eq!(choose_backend(OsKind::Linux, &b"kernel".to_vec()), (Backend::Kernel, false));
    assert_eq!(choose_backend(OsKind::Linux, &b"KERNEL".to_vec()), (Backend::Kernel, false));
    assert_eq!(
        choose_backend(OsKind::Linux, &b"userspace".to_vec()),
        (Backend::Userspace, false)
    );
    // an unknown name falls back, with a warning
    assert_eq!(choose_backend(OsKind::Linux, &b"magic".to_vec()), (Backend::Kernel, true));
    assert_eq!(choose_backend(OsKind::Linux, &b"".to_vec()), (Backend::Kernel, true));
}

#[test]
fn test_choose_backend_portable() {
    assert_eq!(
        choose_backend(OsKind::MacOs, &b"Userspace".to_vec()),
        (Backend::Userspace, false)
    );
    // the kernel backend does not exist off Linux: replaced, loudly
    assert_eq!(choose_backend(OsKind::MacOs, &b"kernel".to_vec()), (Backend::Userspace, true));
    assert_eq!(choose_backend(OsKind::Windows, &b"other".to_vec()), (Backend::Userspace, true));
}

#[test]
fn test_ping_texts() {
    assert_eq!(make_ping_msg(&b"invite_key".to_vec()), b"I'm invite_key".to_vec());
    assert_eq!(make_ping_reply(&b"10.0.0.7:1234".to_vec()), b"Hi 10.0.0.7:1234, I'm server".to_vec());
}

#[test]
fn test_redeem_tracks_two_interfaces() {
    // the coordinator returns two records for one redeemed invite key:
    // afterward the node tracks exactly those two, each Down, and the
    // bootstrap interface is no longer tracked
    let mut client = Client::new(client_config());
    let response = vec![plain_config(b"wg1"), plain_config(b"wg2")];
    client.redeem_invite(&invite(), Backend::Kernel, response);
    assert_eq!(client.ifaces.len(), 2);
    assert_eq!(client.ifaces[0].config.name, b"wg1".to_vec());
    assert_eq!(client.ifaces[1].config.name, b"wg2".to_vec());
    for iface in &client.ifaces {
        assert_eq!(iface.state, RuntimeState::Down);
        assert_eq!(iface.backend, Backend::Kernel);
        assert_ne!(iface.config.name, b"wg-bootstrap".to_vec());
    }
}

#[test]
fn test_redeem_last_duplicate_wins() {
    let mut client = Client::new(client_config());
    let mut second = plain_config(b"wg1");
    second.listen_port = Some(7);
    let response = vec![plain_config(b"wg1"), second];
    client.redeem_invite(&invite(), Backend::Userspace, response);
    assert_eq!(client.ifaces.len(), 1);
    assert_eq!(client.ifaces[0].config.listen_port, Some(7));
}

#[test]
fn test_single_sync_failure_does_not_stop_the_pass() {
    // N tracked interfaces with exactly one failing sync: the pass still
    // converges the other N-1, and the failure is observable without
    // terminating the process
    let mut client = Client::new(client_config());
    client.redeem_invite(
        &invite(),
        Backend::Kernel,
        vec![plain_config(b"wg1"), plain_config(b"wg2"), plain_config(b"wg3")],
    );
    client.begin_run();
    let mut updated1 = plain_config(b"wg1");
    updated1.listen_port = Some(1111);
    let mut updated3 = plain_config(b"wg3");
    updated3.listen_port = Some(3333);
    let outcomes = vec![
        SyncOutcome::Updated(updated1),
        SyncOutcome::Failed,
        SyncOutcome::Updated(updated3),
    ];
    let logs = client.run_pass(&outcomes);
    // the two healthy interfaces took their new desired state
    assert_eq!(client.ifaces[0].config.listen_port, Some(1111));
    assert_eq!(client.ifaces[0].state, RuntimeState::Down);
    assert_eq!(client.ifaces[2].config.listen_port, Some(3333));
    // the failing one is untouched
    assert_eq!(client.ifaces[1].config.listen_port, None);
    // exactly one observable record, naming the failing interface
    assert_eq!(logs.len(), 1);
    assert_eq!(logs[0].iface_name, b"wg2".to_vec());
    assert_eq!(logs[0].stage, FailStage::Sync);
    // the loop goes on
    assert_eq!(client.state, NodeState::Running);
}

#[test]
fn test_node_state_walk() {
    let mut client = Client::new(client_config());
    assert_eq!(client.state, NodeState::Starting);
    client.begin_run();
    assert_eq!(client.state, NodeState::Running);
    client.request_exit();
    assert_eq!(client.state, NodeState::Exiting);
    client.finish();
    assert_eq!(client.state, NodeState::Stopped);
}

#[test]
fn test_post_endpoint_marshals_texts() {
    let mut client = Client::new(client_config());
    client.redeem_invite(&invite(), Backend::Kernel, vec![plain_config(b"wg1")]);
    let req = client.post_endpoint(&b"wg1".to_vec()).unwrap();
    assert_eq!(req.key, b"key".to_vec());
    assert_eq!(req.internal_endpoint.unwrap(), b"192.168.1.2:51820".to_vec());
    assert_eq!(req.external_endpoint, None);
    assert!(client.post_endpoint(&b"nope".to_vec()).is_none());
}

#[test]
fn test_update_peers_marshals_key() {
    let mut client = Client::new(client_config());
    client.redeem_invite(&invite(), Backend::Kernel, vec![plain_config(b"wg1")]);
    let req = client.update_peers(&b"wg1".to_vec()).unwrap();
    assert_eq!(req.key, b"key".to_vec());
    assert!(client.update_peers(&b"absent".to_vec()).is_none());
}

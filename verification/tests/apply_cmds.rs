use wgnet::addr::{Cidr, IpAddrVal};
use wgnet::apply::{
    capability_supported, linux_assign_address_requests, macos_add_route_commands,
    macos_assign_address_commands, macos_set_mtu_command,
};
use wgnet::errors::{Capability, NotImplementedError};

fn ranges() -> Vec<Cidr> {
    vec![
        Cidr { addr: IpAddrVal::V4(10, 1, 1, 1), prefix: 16 },
        Cidr { addr: IpAddrVal::V6(0xfd01, 1, 0, 0, 0, 0, 0, 1), prefix: 64 },
    ]
}

#[test]
fn test_assign_address_commands_are_additive_aliases() {
    let cmds = macos_assign_address_commands(&b"utun3".to_vec(), &ranges());
    assert_eq!(cmds.len(), 2);
    assert_eq!(cmds[0].program, b"ifconfig".to_vec());
    assert_eq!(
        cmds[0].args,
        vec![
            b"utun3".to_vec(),
            b"inet".to_vec(),
            b"10.1.1.1/16".to_vec(),
            b"10.1.1.1".to_vec(),
            b"alias".to_vec(),
        ]
    );
    assert_eq!(
        cmds[1].args,
        vec![
            b"utun3".to_vec(),
            b"inet6".to_vec(),
            b"fd01:1:0:0:0:0:0:1/64".to_vec(),
            b"alias".to_vec(),
        ]
    );
}

#[test]
fn test_route_commands_pick_the_family_flavor() {
    let cmds = macos_add_route_commands(&b"utun3".to_vec(), &ranges());
    assert_eq!(cmds.len(), 2);
    assert_eq!(cmds[0].program, b"route".to_vec());
    assert_eq!(
        cmds[0].args,
        vec![
            b"-n".to_vec(),
            b"add".to_vec(),
            b"-inet".to_vec(),
            b"10.1.1.1/16".to_vec(),
            b"-interface".to_vec(),
            b"utun3".to_vec(),
        ]
    );
    assert_eq!(cmds[1].args[2], b"-inet6".to_vec());
}

#[test]
fn test_mtu_command_text() {
    let cmd = macos_set_mtu_command(&b"utun3".to_vec(), 1420);
    assert_eq!(cmd.program, b"ifconfig".to_vec());
    assert_eq!(cmd.args, vec![b"utun3".to_vec(), b"mtu".to_vec(), b"1420".to_vec()]);
}

#[test]
fn test_linux_address_request_bytes() {
    let addrs = vec![Cidr { addr: IpAddrVal::V4(10, 1, 1, 1), prefix: 16 }];
    let reqs = linux_assign_address_requests(7, &addrs);
    assert_eq!(reqs.len(), 1);
    assert_eq!(reqs[0].msg_type, 20);
    let p = &reqs[0].payload;
    // interface-address header: family, prefix length, flags, scope, index
    assert_eq!(&p[0..4], &[2, 16, 0, 0]);
    assert_eq!(&p[4..8], &[7, 0, 0, 0]);
    // local-address attribute, then interface-address attribute
    assert_eq!(&p[8..12], &[8, 0, 2, 0]);
    assert_eq!(&p[12..16], &[10, 1, 1, 1]);
    assert_eq!(&p[16..20], &[8, 0, 1, 0]);
    assert_eq!(&p[20..24], &[10, 1, 1, 1]);
    assert_eq!(p.len(), 24);
}

#[test]
fn test_linux_v6_address_request_bytes() {
    let addrs = vec![Cidr { addr: IpAddrVal::V6(0xfd01, 0, 0, 0, 0, 0, 0, 1), prefix: 64 }];
    let reqs = linux_assign_address_requests(3, &addrs);
    let p = &reqs[0].payload;
    assert_eq!(&p[0..4], &[10, 64, 0, 0]);
    // one address attribute with the sixteen raw bytes
    assert_eq!(&p[8..12], &[20, 0, 1, 0]);
    assert_eq!(
        &p[12..28],
        &[0xfd, 0x01, 0, 0, 0, 0, 0, 0, 0, 0, 0, 0, 0, 0, 0, 1]
    );
}

#[test]
fn test_missing_capabilities_fail_loudly() {
    // nothing on this table may silently succeed
    assert!(capability_supported(wgnet::node::OsKind::MacOs, Capability::AddRoute).is_ok());
    assert!(capability_supported(wgnet::node::OsKind::Linux, Capability::AssignAddress).is_ok());
    assert_eq!(
        capability_supported(wgnet::node::OsKind::Linux, Capability::AddRoute).err(),
        Some(NotImplementedError { capability: Capability::AddRoute })
    );
    assert_eq!(
        capability_supported(wgnet::node::OsKind::Windows, Capability::AssignAddress).err(),
        Some(NotImplementedError { capability: Capability::AssignAddress })
    );
}

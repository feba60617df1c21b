use vstd::prelude::*;

use crate::addr::{addr_text, cidr_text, format_addr, format_cidr, Cidr, IpAddrVal};
use crate::errors::{Capability, NotImplementedError};
use crate::genl::nlattr_bytes;
use crate::netlink::{u32_le, NlMessage, NlMessageView};
use crate::node::OsKind;
use crate::text::{dec_text, push_dec};

verus! {

/// Route-family message type installing one address on a link.
pub const RTM_NEWADDR: u16 = 20;

pub const IFA_ADDRESS: u16 = 1;

pub const IFA_LOCAL: u16 = 2;

pub const AF_INET: u8 = 2;

pub const AF_INET6: u8 = 10;

/// One OS tool invocation: a program and its arguments.
#[derive(Debug, PartialEq)]
pub struct Command {
    pub program: Vec<u8>,
    pub args: Vec<Vec<u8>>,
}

pub open spec fn args_view(args: Seq<Vec<u8>>) -> Seq<Seq<u8>> {
    args.map_values(|a: Vec<u8>| a@)
}

pub open spec fn ifconfig_text() -> Seq<u8> {
    seq![105u8, 102u8, 99u8, 111u8, 110u8, 102u8, 105u8, 103u8]
}

pub open spec fn route_text() -> Seq<u8> {
    seq![114u8, 111u8, 117u8, 116u8, 101u8]
}

pub open spec fn inet_text() -> Seq<u8> {
    seq![105u8, 110u8, 101u8, 116u8]
}

pub open spec fn inet6_text() -> Seq<u8> {
    seq![105u8, 110u8, 101u8, 116u8, 54u8]
}

pub open spec fn alias_text() -> Seq<u8> {
    seq![97u8, 108u8, 105u8, 97u8, 115u8]
}

pub open spec fn dash_n_text() -> Seq<u8> {
    seq![45u8, 110u8]
}

pub open spec fn add_word_text() -> Seq<u8> {
    seq![97u8, 100u8, 100u8]
}

pub open spec fn dash_inet_text() -> Seq<u8> {
    seq![45u8] + inet_text()
}

pub open spec fn dash_inet6_text() -> Seq<u8> {
    seq![45u8] + inet6_text()
}

pub open spec fn dash_interface_text() -> Seq<u8> {
    seq![
        45u8,
        105u8,
        110u8,
        116u8,
        101u8,
        114u8,
        102u8,
        97u8,
        99u8,
        101u8,
    ]
}

pub open spec fn mtu_word_text() -> Seq<u8> {
    seq![109u8, 116u8, 117u8]
}

/// The argument list that assigns one range on the resolved tunnel device,
/// with additive alias semantics: existing addresses are not cleared.
pub open spec fn assign_addr_args(tun: Seq<u8>, c: Cidr) -> Seq<Seq<u8>> {
    match c.addr {
        IpAddrVal::V4(..) => seq![tun, inet_text(), cidr_text(c), addr_text(c.addr), alias_text()],
        IpAddrVal::V6(..) => seq![tun, inet6_text(), cidr_text(c), alias_text()],
    }
}

/// The argument list that installs one route bound to the device, with the
/// v4/v6 route flavor selected by the range's family.
pub open spec fn add_route_args(tun: Seq<u8>, c: Cidr) -> Seq<Seq<u8>> {
    seq![
        dash_n_text(),
        add_word_text(),
        (match c.addr {
            IpAddrVal::V4(..) => dash_inet_text(),
            IpAddrVal::V6(..) => dash_inet6_text(),
        }),
        cidr_text(c),
        dash_interface_text(),
        tun,
    ]
}

pub open spec fn set_mtu_args(tun: Seq<u8>, mtu: u32) -> Seq<Seq<u8>> {
    seq![tun, mtu_word_text(), dec_text(mtu as int)]
}

fn text_vec(bytes: &[u8]) -> (r: Vec<u8>)
    ensures
        r@ == bytes@,
{
    let mut r: Vec<u8> = Vec::new();
    let mut i: usize = 0;
    while i < bytes.len()
        invariant
            i <= bytes@.len(),
            r@ == bytes@.take(i as int),
        decreases bytes@.len() - i,
    {
        r.push(bytes[i]);
        i = i + 1;
        assert(r@ =~= bytes@.take(i as int));
    }
    assert(r@ =~= bytes@);
    r
}

/// One invocation of the OS network tool per range, additive.
pub fn macos_assign_address_commands(tun: &Vec<u8>, addrs: &Vec<Cidr>) -> (r: Vec<Command>)
    ensures
        r@.len() == addrs@.len(),
        forall|i: int|
            0 <= i < addrs@.len() ==> (#[trigger] r@[i]).program@ == ifconfig_text() && args_view(
                r@[i].args@,
            ) == assign_addr_args(tun@, addrs@[i]),
{
    let mut r: Vec<Command> = Vec::new();
    let mut i: usize = 0;
    while i < addrs.len()
        invariant
            i <= addrs@.len(),
            r@.len() == i,
            forall|k: int|
                0 <= k < i ==> (#[trigger] r@[k]).program@ == ifconfig_text() && args_view(
                    r@[k].args@,
                ) == assign_addr_args(tun@, addrs@[k]),
        decreases addrs@.len() - i,
    {
        let c = addrs[i];
        let mut args: Vec<Vec<u8>> = Vec::new();
        args.push(crate::bytes::copy_bytes(tun));
        match c.addr {
            IpAddrVal::V4(..) => {
                args.push(text_vec(&[105u8, 110u8, 101u8, 116u8]));
                args.push(format_cidr(c));
                args.push(format_addr(c.addr));
                args.push(text_vec(&[97u8, 108u8, 105u8, 97u8, 115u8]));
            },
            IpAddrVal::V6(..) => {
                args.push(text_vec(&[105u8, 110u8, 101u8, 116u8, 54u8]));
                args.push(format_cidr(c));
                args.push(text_vec(&[97u8, 108u8, 105u8, 97u8, 115u8]));
            },
        }
        let cmd = Command {
            program: text_vec(&[105u8, 102u8, 99u8, 111u8, 110u8, 102u8, 105u8, 103u8]),
            args,
        };
        assert(args_view(cmd.args@) =~= assign_addr_args(tun@, c));
        r.push(cmd);
        i = i + 1;
    }
    r
}

/// One route installation per range, bound to the device.
pub fn macos_add_route_commands(tun: &Vec<u8>, addrs: &Vec<Cidr>) -> (r: Vec<Command>)
    ensures
        r@.len() == addrs@.len(),
        forall|i: int|
            0 <= i < addrs@.len() ==> (#[trigger] r@[i]).program@ == route_text() && args_view(
                r@[i].args@,
            ) == add_route_args(tun@, addrs@[i]),
{
    let mut r: Vec<Command> = Vec::new();
    let mut i: usize = 0;
    while i < addrs.len()
        invariant
            i <= addrs@.len(),
            r@.len() == i,
            forall|k: int|
                0 <= k < i ==> (#[trigger] r@[k]).program@ == route_text() && args_view(
                    r@[k].args@,
                ) == add_route_args(tun@, addrs@[k]),
        decreases addrs@.len() - i,
    {
        let c = addrs[i];
        let mut args: Vec<Vec<u8>> = Vec::new();
        args.push(text_vec(&[45u8, 110u8]));
        args.push(text_vec(&[97u8, 100u8, 100u8]));
        match c.addr {
            IpAddrVal::V4(..) => {
                args.push(text_vec(&[45u8, 105u8, 110u8, 101u8, 116u8]));
            },
            IpAddrVal::V6(..) => {
                args.push(text_vec(&[45u8, 105u8, 110u8, 101u8, 116u8, 54u8]));
            },
        }
        args.push(format_cidr(c));
        args.push(
            text_vec(&[45u8, 105u8, 110u8, 116u8, 101u8, 114u8, 102u8, 97u8, 99u8, 101u8]),
        );
        args.push(crate::bytes::copy_bytes(tun));
        let cmd = Command { program: text_vec(&[114u8, 111u8, 117u8, 116u8, 101u8]), args };
        assert(args_view(cmd.args@) =~~= add_route_args(tun@, c));
        r.push(cmd);
        i = i + 1;
    }
    r
}

/// Program the MTU on the resolved tunnel device.
pub fn macos_set_mtu_command(tun: &Vec<u8>, mtu: u32) -> (r: Command)
    ensures
        r.program@ == ifconfig_text(),
        args_view(r.args@) == set_mtu_args(tun@, mtu),
{
    let mut args: Vec<Vec<u8>> = Vec::new();
    args.push(crate::bytes::copy_bytes(tun));
    args.push(text_vec(&[109u8, 116u8, 117u8]));
    let mut m: Vec<u8> = Vec::new();
    push_dec(&mut m, mtu);
    args.push(m);
    let cmd = Command {
        program: text_vec(&[105u8, 102u8, 99u8, 111u8, 110u8, 102u8, 105u8, 103u8]),
        args,
    };
    assert(args_view(cmd.args@) =~= set_mtu_args(tun@, mtu));
    cmd
}

// ---------------------------------------------------------------------------
// Linux: addresses are programmed over the kernel transport directly.
// ---------------------------------------------------------------------------

/// The raw bytes of an address, in network order.
pub open spec fn addr_bytes(a: IpAddrVal) -> Seq<u8> {
    match a {
        IpAddrVal::V4(o0, o1, o2, o3) => seq![o0, o1, o2, o3],
        IpAddrVal::V6(g0, g1, g2, g3, g4, g5, g6, g7) => seq![
            (g0 as int / 256) as u8,
            (g0 as int % 256) as u8,
            (g1 as int / 256) as u8,
            (g1 as int % 256) as u8,
            (g2 as int / 256) as u8,
            (g2 as int % 256) as u8,
            (g3 as int / 256) as u8,
            (g3 as int % 256) as u8,
            (g4 as int / 256) as u8,
            (g4 as int % 256) as u8,
            (g5 as int / 256) as u8,
            (g5 as int % 256) as u8,
            (g6 as int / 256) as u8,
            (g6 as int % 256) as u8,
            (g7 as int / 256) as u8,
            (g7 as int % 256) as u8,
        ],
    }
}

/// The fixed interface-address header: family, prefix length, flags,
/// scope, link index.
pub open spec fn ifaddrmsg_bytes(family: u8, prefixlen: u8, index: u32) -> Seq<u8> {
    seq![family, prefixlen, 0u8, 0u8] + u32_le(index)
}

/// The payload of one address-install request. A v4 address carries both
/// the local and the interface address attribute; a v6 address carries the
/// address attribute alone.
pub open spec fn newaddr_payload(c: Cidr, index: u32) -> Seq<u8> {
    match c.addr {
        IpAddrVal::V4(..) => ifaddrmsg_bytes(AF_INET, c.prefix, index) + nlattr_bytes(
            IFA_LOCAL,
            addr_bytes(c.addr),
        ) + nlattr_bytes(IFA_ADDRESS, addr_bytes(c.addr)),
        IpAddrVal::V6(..) => ifaddrmsg_bytes(AF_INET6, c.prefix, index) + nlattr_bytes(
            IFA_ADDRESS,
            addr_bytes(c.addr),
        ),
    }
}

fn push_addr_bytes(buf: &mut Vec<u8>, a: IpAddrVal)
    ensures
        final(buf)@ == old(buf)@ + addr_bytes(a),
{
    match a {
        IpAddrVal::V4(o0, o1, o2, o3) => {
            buf.push(o0);
            buf.push(o1);
            buf.push(o2);
            buf.push(o3);
            assert(buf@ =~= old(buf)@ + addr_bytes(a));
        },
        IpAddrVal::V6(g0, g1, g2, g3, g4, g5, g6, g7) => {
            buf.push((g0 / 256) as u8);
            buf.push((g0 % 256) as u8);
            buf.push((g1 / 256) as u8);
            buf.push((g1 % 256) as u8);
            buf.push((g2 / 256) as u8);
            buf.push((g2 % 256) as u8);
            buf.push((g3 / 256) as u8);
            buf.push((g3 % 256) as u8);
            buf.push((g4 / 256) as u8);
            buf.push((g4 % 256) as u8);
            buf.push((g5 / 256) as u8);
            buf.push((g5 % 256) as u8);
            buf.push((g6 / 256) as u8);
            buf.push((g6 % 256) as u8);
            buf.push((g7 / 256) as u8);
            buf.push((g7 % 256) as u8);
            assert(buf@ =~= old(buf)@ + addr_bytes(a));
        },
    }
}

fn push_nlattr(buf: &mut Vec<u8>, ty: u16, a: IpAddrVal)
    ensures
        final(buf)@ == old(buf)@ + nlattr_bytes(ty, addr_bytes(a)),
{
    let vlen: u16 = match a {
        IpAddrVal::V4(..) => 4,
        IpAddrVal::V6(..) => 16,
    };
    let alen: u16 = 4 + vlen;
    buf.push((alen % 256) as u8);
    buf.push((alen / 256) as u8);
    buf.push((ty % 256) as u8);
    buf.push((ty / 256) as u8);
    push_addr_bytes(buf, a);
    proof {
        assert(addr_bytes(a).len() == vlen as int);
        assert(crate::genl::zeros((4 - (4 + addr_bytes(a).len() as int) % 4) % 4)
            =~= Seq::<u8>::empty());
        assert(buf@ =~= old(buf)@ + nlattr_bytes(ty, addr_bytes(a)));
    }
}

/// One kernel address-install request per range, bound to the link index.
pub fn linux_assign_address_requests(if_index: u32, addrs: &Vec<Cidr>) -> (r: Vec<NlMessage>)
    ensures
        r@.len() == addrs@.len(),
        forall|i: int|
            0 <= i < addrs@.len() ==> (#[trigger] r@[i])@ == (NlMessageView {
                msg_type: RTM_NEWADDR,
                flags: 0,
                seq: 0,
                pid: 0,
                payload: newaddr_payload(addrs@[i], if_index),
            }),
{
    let mut r: Vec<NlMessage> = Vec::new();
    let mut i: usize = 0;
    while i < addrs.len()
        invariant
            i <= addrs@.len(),
            r@.len() == i,
            forall|k: int|
                0 <= k < i ==> (#[trigger] r@[k])@ == (NlMessageView {
                    msg_type: RTM_NEWADDR,
                    flags: 0,
                    seq: 0,
                    pid: 0,
                    payload: newaddr_payload(addrs@[k], if_index),
                }),
        decreases addrs@.len() - i,
    {
        let c = addrs[i];
        let mut payload: Vec<u8> = Vec::new();
        let family: u8 = match c.addr {
            IpAddrVal::V4(..) => AF_INET,
            IpAddrVal::V6(..) => AF_INET6,
        };
        payload.push(family);
        payload.push(c.prefix);
        payload.push(0);
        payload.push(0);
        payload.push((if_index % 0x100) as u8);
        payload.push((if_index / 0x100 % 0x100) as u8);
        payload.push((if_index / 0x10000 % 0x100) as u8);
        payload.push((if_index / 0x1000000 % 0x100) as u8);
        assert(payload@ =~= ifaddrmsg_bytes(family, c.prefix, if_index));
        match c.addr {
            IpAddrVal::V4(..) => {
                push_nlattr(&mut payload, IFA_LOCAL, c.addr);
                push_nlattr(&mut payload, IFA_ADDRESS, c.addr);
            },
            IpAddrVal::V6(..) => {
                push_nlattr(&mut payload, IFA_ADDRESS, c.addr);
            },
        }
        assert(payload@ =~= newaddr_payload(c, if_index));
        r.push(NlMessage { msg_type: RTM_NEWADDR, flags: 0, seq: 0, pid: 0, payload });
        i = i + 1;
    }
    r
}

// ---------------------------------------------------------------------------
// The capability table: what each OS implements. A missing capability
// fails loudly with a distinct error, never silently.
// ---------------------------------------------------------------------------

pub open spec fn capability_table(os: OsKind, cap: Capability) -> bool {
    match os {
        OsKind::Linux => cap == Capability::AssignAddress,
        OsKind::MacOs => true,
        OsKind::Windows => false,
    }
}

/// Whether the capability is implemented on the running OS; a missing one
/// is a distinct, explicit failure.
pub fn capability_supported(os: OsKind, cap: Capability) -> (r: Result<(), NotImplementedError>)
    ensures
        capability_table(os, cap) ==> r == Ok::<(), NotImplementedError>(()),
        !capability_table(os, cap) ==> r == Err::<(), _>(NotImplementedError { capability: cap }),
{
    let ok = match os {
        OsKind::Linux => matches!(cap, Capability::AssignAddress),
        OsKind::MacOs => true,
        OsKind::Windows => false,
    };
    if ok {
        Ok(())
    } else {
        Err(NotImplementedError { capability: cap })
    }
}

} // verus!

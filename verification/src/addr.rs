use vstd::prelude::*;

use crate::text::{
    dec_text, find_byte, find_byte_in, hex_text, is_dec_digit, is_hex_digit,
    lemma_dec_text_props,
    lemma_digits_no_byte, lemma_find_byte_here, lemma_find_byte_none, lemma_hex_no_byte,
    lemma_hex_text_props, parse_dec, parse_dec_in, parse_hex, parse_hex_in, push_dec, push_hex,
};

verus! {

/// A plain address value: a v4 address as its four octets in network
/// order, a v6 address as its eight 16-bit groups in network order.
#[derive(Clone, Copy, PartialEq, Eq, Structural, Debug)]
pub enum IpAddrVal {
    V4(u8, u8, u8, u8),
    V6(u16, u16, u16, u16, u16, u16, u16, u16),
}

/// An address range: an address and a prefix length.
#[derive(Clone, Copy, PartialEq, Eq, Structural, Debug)]
pub struct Cidr {
    pub addr: IpAddrVal,
    pub prefix: u8,
}

impl Cidr {
    /// The prefix length fits the address family.
    pub open spec fn wf(self) -> bool {
        match self.addr {
            IpAddrVal::V4(..) => self.prefix <= 32,
            IpAddrVal::V6(..) => self.prefix <= 128,
        }
    }

    pub fn check_wf(&self) -> (r: bool)
        ensures
            r == self.wf(),
    {
        match self.addr {
            IpAddrVal::V4(..) => self.prefix <= 32,
            IpAddrVal::V6(..) => self.prefix <= 128,
        }
    }
}

/// A remote or local socket endpoint: an address and a port.
#[derive(Clone, Copy, PartialEq, Eq, Structural, Debug)]
pub struct Endpoint {
    pub addr: IpAddrVal,
    pub port: u16,
}


// ---------------------------------------------------------------------------
// Canonical text forms.
//
// Addresses travel as canonical text: minimal dotted decimal for v4,
// eight minimal lowercase hexadecimal groups for v6 (no zero compression),
// "addr/prefix" for ranges, "addr:port" ("[addr]:port" for v6) for
// endpoints. Decoding accepts exactly these forms; anything else is a hard
// decode failure.
// ---------------------------------------------------------------------------

pub open spec fn ipv4_text(o0: u8, o1: u8, o2: u8, o3: u8) -> Seq<u8> {
    dec_text(o0 as int) + seq![46u8] + dec_text(o1 as int) + seq![46u8] + dec_text(o2 as int)
        + seq![46u8] + dec_text(o3 as int)
}

pub open spec fn groups_text(gs: Seq<u16>) -> Seq<u8>
    decreases gs.len(),
{
    if gs.len() <= 1 {
        hex_text(gs[0] as int)
    } else {
        hex_text(gs[0] as int) + seq![58u8] + groups_text(gs.drop_first())
    }
}

pub open spec fn ipv6_text(
    g0: u16,
    g1: u16,
    g2: u16,
    g3: u16,
    g4: u16,
    g5: u16,
    g6: u16,
    g7: u16,
) -> Seq<u8> {
    groups_text(seq![g0, g1, g2, g3, g4, g5, g6, g7])
}

pub open spec fn addr_text(a: IpAddrVal) -> Seq<u8> {
    match a {
        IpAddrVal::V4(o0, o1, o2, o3) => ipv4_text(o0, o1, o2, o3),
        IpAddrVal::V6(g0, g1, g2, g3, g4, g5, g6, g7) => ipv6_text(
            g0,
            g1,
            g2,
            g3,
            g4,
            g5,
            g6,
            g7,
        ),
    }
}

pub open spec fn cidr_text(c: Cidr) -> Seq<u8> {
    addr_text(c.addr) + seq![47u8] + dec_text(c.prefix as int)
}

pub open spec fn endpoint_text(e: Endpoint) -> Seq<u8> {
    match e.addr {
        IpAddrVal::V4(..) => addr_text(e.addr) + seq![58u8] + dec_text(e.port as int),
        IpAddrVal::V6(..) => seq![91u8] + addr_text(e.addr) + seq![93u8, 58u8] + dec_text(
            e.port as int,
        ),
    }
}

// ---------------------------------------------------------------------------
// Parsing, specified.
// ---------------------------------------------------------------------------

pub open spec fn parse_ipv4(s: Seq<u8>) -> Option<IpAddrVal> {
    let i1 = find_byte(s, 46);
    if i1 < 0 {
        None
    } else {
        match parse_dec(s.take(i1), 255) {
            Option::None => None,
            Option::Some(o0) => {
                let r1 = s.skip(i1 + 1);
                let i2 = find_byte(r1, 46);
                if i2 < 0 {
                    None
                } else {
                    match parse_dec(r1.take(i2), 255) {
                        Option::None => None,
                        Option::Some(o1) => {
                            let r2 = r1.skip(i2 + 1);
                            let i3 = find_byte(r2, 46);
                            if i3 < 0 {
                                None
                            } else {
                                match parse_dec(r2.take(i3), 255) {
                                    Option::None => None,
                                    Option::Some(o2) => {
                                        match parse_dec(r2.skip(i3 + 1), 255) {
                                            Option::None => None,
                                            Option::Some(o3) => Some(
                                                IpAddrVal::V4(
                                                    o0 as u8,
                                                    o1 as u8,
                                                    o2 as u8,
                                                    o3 as u8,
                                                ),
                                            ),
                                        }
                                    },
                                }
                            }
                        },
                    }
                }
            },
        }
    }
}

pub open spec fn parse_groups(s: Seq<u8>, k: int) -> Option<Seq<u16>>
    decreases k,
{
    if k <= 1 {
        match parse_hex(s, 0xffff) {
            Option::None => None,
            Option::Some(g) => Some(seq![g as u16]),
        }
    } else {
        let i = find_byte(s, 58);
        if i < 0 {
            None
        } else {
            match parse_hex(s.take(i), 0xffff) {
                Option::None => None,
                Option::Some(g) => match parse_groups(s.skip(i + 1), k - 1) {
                    Option::None => None,
                    Option::Some(gs) => Some(seq![g as u16] + gs),
                },
            }
        }
    }
}

pub open spec fn parse_ipv6(s: Seq<u8>) -> Option<IpAddrVal> {
    match parse_groups(s, 8) {
        Option::None => None,
        Option::Some(gs) => Some(
            IpAddrVal::V6(gs[0], gs[1], gs[2], gs[3], gs[4], gs[5], gs[6], gs[7]),
        ),
    }
}

pub open spec fn parse_addr(s: Seq<u8>) -> Option<IpAddrVal> {
    if find_byte(s, 58) >= 0 {
        parse_ipv6(s)
    } else {
        parse_ipv4(s)
    }
}

pub open spec fn parse_cidr(s: Seq<u8>) -> Option<Cidr> {
    let i = find_byte(s, 47);
    if i < 0 {
        None
    } else {
        match parse_addr(s.take(i)) {
            Option::None => None,
            Option::Some(a) => {
                let maxp: int = if a is V4 {
                    32
                } else {
                    128
                };
                match parse_dec(s.skip(i + 1), maxp) {
                    Option::None => None,
                    Option::Some(p) => Some(Cidr { addr: a, prefix: p as u8 }),
                }
            },
        }
    }
}

pub open spec fn parse_endpoint(s: Seq<u8>) -> Option<Endpoint> {
    if s.len() > 0 && s[0] == 91 {
        let j = find_byte(s, 93);
        if j < 1 {
            None
        } else {
            match parse_ipv6(s.subrange(1, j)) {
                Option::None => None,
                Option::Some(a) => {
                    if s.len() >= 2 && j <= s.len() - 2 && s[j + 1] == 58 {
                        match parse_dec(s.skip(j + 2), 65535) {
                            Option::None => None,
                            Option::Some(p) => Some(Endpoint { addr: a, port: p as u16 }),
                        }
                    } else {
                        None
                    }
                },
            }
        }
    } else {
        let i = find_byte(s, 58);
        if i < 0 {
            None
        } else {
            match parse_ipv4(s.take(i)) {
                Option::None => None,
                Option::Some(a) => match parse_dec(s.skip(i + 1), 65535) {
                    Option::None => None,
                    Option::Some(p) => Some(Endpoint { addr: a, port: p as u16 }),
                },
            }
        }
    }
}

// ---------------------------------------------------------------------------
// Round trips: decoding canonical text restores the value.
// ---------------------------------------------------------------------------

proof fn lemma_contains_concat(x: Seq<u8>, y: Seq<u8>, b: u8)
    ensures
        (x + y).contains(b) <==> x.contains(b) || y.contains(b),
{
    if (x + y).contains(b) {
        let i = choose|i: int| 0 <= i < (x + y).len() && (x + y)[i] == b;
        if i < x.len() {
            assert(x[i] == b);
        } else {
            assert(y[i - x.len()] == b);
        }
    }
    if x.contains(b) {
        let i = choose|i: int| 0 <= i < x.len() && x[i] == b;
        assert((x + y)[i] == b);
    }
    if y.contains(b) {
        let i = choose|i: int| 0 <= i < y.len() && y[i] == b;
        assert((x + y)[x.len() + i] == b);
    }
}

proof fn lemma_single_no_byte(a: u8, b: u8)
    requires
        a != b,
    ensures
        !seq![a].contains(b),
{
    if seq![a].contains(b) {
        let i = choose|i: int| 0 <= i < 1 && seq![a][i] == b;
        assert(seq![a][0] == a);
    }
}

/// The dotted-decimal text holds only digits and dots.
proof fn lemma_ipv4_text_no_byte(o0: u8, o1: u8, o2: u8, o3: u8, b: u8)
    requires
        !is_dec_digit(b),
        b != 46,
    ensures
        !ipv4_text(o0, o1, o2, o3).contains(b),
{
    lemma_dec_text_props(o0 as int);
    lemma_dec_text_props(o1 as int);
    lemma_dec_text_props(o2 as int);
    lemma_dec_text_props(o3 as int);
    lemma_digits_no_byte(dec_text(o0 as int), b);
    lemma_digits_no_byte(dec_text(o1 as int), b);
    lemma_digits_no_byte(dec_text(o2 as int), b);
    lemma_digits_no_byte(dec_text(o3 as int), b);
    lemma_single_no_byte(46u8, b);
    let a0 = dec_text(o0 as int);
    let a1 = dec_text(o1 as int);
    let a2 = dec_text(o2 as int);
    let a3 = dec_text(o3 as int);
    let d = seq![46u8];
    lemma_contains_concat(a0, d, b);
    lemma_contains_concat(a0 + d, a1, b);
    lemma_contains_concat(a0 + d + a1, d, b);
    lemma_contains_concat(a0 + d + a1 + d, a2, b);
    lemma_contains_concat(a0 + d + a1 + d + a2, d, b);
    lemma_contains_concat(a0 + d + a1 + d + a2 + d, a3, b);
}

/// The grouped hexadecimal text holds only hex digits and colons.
proof fn lemma_groups_text_no_byte(gs: Seq<u16>, b: u8)
    requires
        gs.len() >= 1,
        !is_hex_digit(b),
        b != 58,
    ensures
        !groups_text(gs).contains(b),
    decreases gs.len(),
{
    lemma_hex_text_props(gs[0] as int);
    lemma_hex_no_byte(hex_text(gs[0] as int), b);
    if gs.len() > 1 {
        lemma_groups_text_no_byte(gs.drop_first(), b);
        lemma_single_no_byte(58u8, b);
        let h = hex_text(gs[0] as int);
        let d = seq![58u8];
        lemma_contains_concat(h, d, b);
        lemma_contains_concat(h + d, groups_text(gs.drop_first()), b);
    }
}

/// Law: decoding the canonical dotted-decimal text of a v4 address gives
/// the address back.
#[verifier::rlimit(100)]
pub proof fn lemma_ipv4_round_trip(o0: u8, o1: u8, o2: u8, o3: u8)
    ensures
        parse_ipv4(ipv4_text(o0, o1, o2, o3)) == Some(IpAddrVal::V4(o0, o1, o2, o3)),
{
    lemma_dec_text_props(o0 as int);
    lemma_dec_text_props(o1 as int);
    lemma_dec_text_props(o2 as int);
    lemma_dec_text_props(o3 as int);
    let a0 = dec_text(o0 as int);
    let a1 = dec_text(o1 as int);
    let a2 = dec_text(o2 as int);
    let a3 = dec_text(o3 as int);
    let d = seq![46u8];
    let s = ipv4_text(o0, o1, o2, o3);
    let t1 = a1 + d + a2 + d + a3;
    let t2 = a2 + d + a3;
    assert(s =~= a0 + d + t1);
    lemma_digits_no_byte(a0, 46);
    assert(forall|j: int| 0 <= j < a0.len() ==> s[j] == a0[j]);
    assert forall|j: int| 0 <= j < a0.len() implies s[j] != 46 by {
        if a0[j] == 46 {
            assert(a0.contains(46u8));
        }
    }
    assert(s[a0.len() as int] == 46);
    lemma_find_byte_here(s, 46, a0.len() as int);
    assert(s.take(a0.len() as int) =~= a0);
    assert(s.skip(a0.len() as int + 1) =~= t1);
    lemma_digits_no_byte(a1, 46);
    assert(t1 =~= a1 + d + t2);
    assert(forall|j: int| 0 <= j < a1.len() ==> t1[j] == a1[j]);
    assert forall|j: int| 0 <= j < a1.len() implies t1[j] != 46 by {
        if a1[j] == 46 {
            assert(a1.contains(46u8));
        }
    }
    assert(t1[a1.len() as int] == 46);
    lemma_find_byte_here(t1, 46, a1.len() as int);
    assert(t1.take(a1.len() as int) =~= a1);
    assert(t1.skip(a1.len() as int + 1) =~= t2);
    lemma_digits_no_byte(a2, 46);
    assert(forall|j: int| 0 <= j < a2.len() ==> t2[j] == a2[j]);
    assert forall|j: int| 0 <= j < a2.len() implies t2[j] != 46 by {
        if a2[j] == 46 {
            assert(a2.contains(46u8));
        }
    }
    assert(t2[a2.len() as int] == 46);
    lemma_find_byte_here(t2, 46, a2.len() as int);
    assert(t2.take(a2.len() as int) =~= a2);
    assert(t2.skip(a2.len() as int + 1) =~= a3);
}

/// Decoding the canonical grouped text restores the groups.
proof fn lemma_groups_round_trip(gs: Seq<u16>)
    requires
        gs.len() >= 1,
    ensures
        parse_groups(groups_text(gs), gs.len() as int) == Some(gs),
    decreases gs.len(),
{
    let h = hex_text(gs[0] as int);
    lemma_hex_text_props(gs[0] as int);
    if gs.len() == 1 {
        assert(parse_hex(h, 0xffff) == Some(gs[0] as int));
        assert(seq![((gs[0] as int) as u16)] =~= gs);
    } else {
        let rest = gs.drop_first();
        lemma_groups_round_trip(rest);
        let t = groups_text(rest);
        let s = h + seq![58u8] + t;
        assert(groups_text(gs) == s);
        lemma_hex_no_byte(h, 58);
        assert(forall|j: int| 0 <= j < h.len() ==> s[j] == h[j]);
        assert(forall|j: int| 0 <= j < h.len() && s[j] == 58 ==> h.contains(58u8));
        assert(s[h.len() as int] == 58);
        lemma_find_byte_here(s, 58, h.len() as int);
        assert(s.take(h.len() as int) =~= h);
        assert(s.skip(h.len() as int + 1) =~= t);
        assert(parse_hex(h, 0xffff) == Some(gs[0] as int));
        assert(seq![((gs[0] as int) as u16)] + rest =~= gs);
    }
}

/// Law: decoding the canonical grouped text of a v6 address gives the
/// address back.
pub proof fn lemma_ipv6_round_trip(
    g0: u16,
    g1: u16,
    g2: u16,
    g3: u16,
    g4: u16,
    g5: u16,
    g6: u16,
    g7: u16,
)
    ensures
        parse_ipv6(ipv6_text(g0, g1, g2, g3, g4, g5, g6, g7)) == Some(
            IpAddrVal::V6(g0, g1, g2, g3, g4, g5, g6, g7),
        ),
{
    let gs = seq![g0, g1, g2, g3, g4, g5, g6, g7];
    lemma_groups_round_trip(gs);
}

/// Law: decoding the canonical text of an address gives the address back.
pub proof fn lemma_addr_round_trip(a: IpAddrVal)
    ensures
        parse_addr(addr_text(a)) == Some(a),
{
    match a {
        IpAddrVal::V4(o0, o1, o2, o3) => {
            lemma_ipv4_text_no_byte(o0, o1, o2, o3, 58);
            let s = ipv4_text(o0, o1, o2, o3);
            assert(forall|j: int| 0 <= j < s.len() && s[j] == 58 ==> s.contains(58u8));
            lemma_find_byte_none(s, 58);
            lemma_ipv4_round_trip(o0, o1, o2, o3);
        },
        IpAddrVal::V6(g0, g1, g2, g3, g4, g5, g6, g7) => {
            let gs = seq![g0, g1, g2, g3, g4, g5, g6, g7];
            let s = groups_text(gs);
            lemma_hex_text_props(g0 as int);
            let h = hex_text(g0 as int);
            assert(s[h.len() as int] == 58) by {
                assert(gs.len() > 1);
                assert(s == h + seq![58u8] + groups_text(gs.drop_first()));
            }
            assert(s.contains(58u8));
            if find_byte(s, 58) < 0 {
                lemma_find_none_means_absent(s, 58);
            }
            lemma_ipv6_round_trip(g0, g1, g2, g3, g4, g5, g6, g7);
        },
    }
}

/// A negative find means the byte is absent.
proof fn lemma_find_none_means_absent(s: Seq<u8>, b: u8)
    requires
        find_byte(s, b) < 0,
    ensures
        !s.contains(b),
    decreases s.len(),
{
    if s.len() > 0 {
        lemma_find_none_means_absent(s.drop_first(), b);
        if s.contains(b) {
            let i = choose|i: int| 0 <= i < s.len() && s[i] == b;
            assert(i != 0);
            assert(s.drop_first()[i - 1] == b);
        }
    }
}

/// Law: decoding the canonical text of a well-formed range gives the range
/// back.
pub proof fn lemma_cidr_round_trip(c: Cidr)
    requires
        c.wf(),
    ensures
        parse_cidr(cidr_text(c)) == Some(c),
{
    let at = addr_text(c.addr);
    let s = cidr_text(c);
    match c.addr {
        IpAddrVal::V4(o0, o1, o2, o3) => {
            lemma_ipv4_text_no_byte(o0, o1, o2, o3, 47);
        },
        IpAddrVal::V6(g0, g1, g2, g3, g4, g5, g6, g7) => {
            lemma_groups_text_no_byte(seq![g0, g1, g2, g3, g4, g5, g6, g7], 47);
        },
    }
    assert(forall|j: int| 0 <= j < at.len() ==> s[j] == at[j]);
    assert(forall|j: int| 0 <= j < at.len() && s[j] == 47 ==> at.contains(47u8));
    assert(s[at.len() as int] == 47);
    lemma_find_byte_here(s, 47, at.len() as int);
    assert(s.take(at.len() as int) =~= at);
    assert(s.skip(at.len() as int + 1) =~= dec_text(c.prefix as int));
    lemma_addr_round_trip(c.addr);
    lemma_dec_text_props(c.prefix as int);
}

/// Law: decoding the canonical text of an endpoint gives the endpoint
/// back.
pub proof fn lemma_endpoint_round_trip(e: Endpoint)
    ensures
        parse_endpoint(endpoint_text(e)) == Some(e),
{
    let s = endpoint_text(e);
    match e.addr {
        IpAddrVal::V4(o0, o1, o2, o3) => {
            let at = addr_text(e.addr);
            lemma_dec_text_props(o0 as int);
            assert(at[0] == dec_text(o0 as int)[0]);
            assert(is_dec_digit(at[0]));
            assert(s[0] == at[0]);
            assert(s[0] != 91);
            lemma_ipv4_text_no_byte(o0, o1, o2, o3, 58);
            assert(forall|j: int| 0 <= j < at.len() ==> s[j] == at[j]);
            assert(forall|j: int| 0 <= j < at.len() && s[j] == 58 ==> at.contains(58u8));
            assert(s[at.len() as int] == 58);
            lemma_find_byte_here(s, 58, at.len() as int);
            assert(s.take(at.len() as int) =~= at);
            assert(s.skip(at.len() as int + 1) =~= dec_text(e.port as int));
            lemma_ipv4_round_trip(o0, o1, o2, o3);
            lemma_dec_text_props(e.port as int);
        },
        IpAddrVal::V6(g0, g1, g2, g3, g4, g5, g6, g7) => {
            let at = addr_text(e.addr);
            assert(s[0] == 91);
            lemma_groups_text_no_byte(seq![g0, g1, g2, g3, g4, g5, g6, g7], 93);
            assert(forall|j: int| 1 <= j < 1 + at.len() ==> s[j] == at[j - 1]);
            assert(forall|j: int| 1 <= j < 1 + at.len() && s[j] == 93 ==> at.contains(93u8));
            assert(s[1 + at.len() as int] == 93);
            lemma_find_byte_here(s, 93, 1 + at.len() as int);
            assert(s.subrange(1, 1 + at.len() as int) =~= at);
            assert(s[1 + at.len() as int + 1] == 58);
            assert(s.skip(1 + at.len() as int + 2) =~= dec_text(e.port as int));
            lemma_ipv6_round_trip(g0, g1, g2, g3, g4, g5, g6, g7);
            lemma_dec_text_props(e.port as int);
        },
    }
}


// ---------------------------------------------------------------------------
// Executable encoding and decoding.
// ---------------------------------------------------------------------------

pub fn format_addr(a: IpAddrVal) -> (r: Vec<u8>)
    ensures
        r@ == addr_text(a),
{
    let mut buf: Vec<u8> = Vec::new();
    match a {
        IpAddrVal::V4(o0, o1, o2, o3) => {
            push_dec(&mut buf, o0 as u32);
            buf.push(46);
            push_dec(&mut buf, o1 as u32);
            buf.push(46);
            push_dec(&mut buf, o2 as u32);
            buf.push(46);
            push_dec(&mut buf, o3 as u32);
            assert(buf@ =~= ipv4_text(o0, o1, o2, o3));
        },
        IpAddrVal::V6(g0, g1, g2, g3, g4, g5, g6, g7) => {
            push_hex(&mut buf, g0);
            buf.push(58);
            push_hex(&mut buf, g1);
            buf.push(58);
            push_hex(&mut buf, g2);
            buf.push(58);
            push_hex(&mut buf, g3);
            buf.push(58);
            push_hex(&mut buf, g4);
            buf.push(58);
            push_hex(&mut buf, g5);
            buf.push(58);
            push_hex(&mut buf, g6);
            buf.push(58);
            push_hex(&mut buf, g7);
            proof {
                let gs = seq![g0, g1, g2, g3, g4, g5, g6, g7];
                lemma_groups_text_unfold(gs);
                assert(buf@ =~= groups_text(gs));
            }
        },
    }
    buf
}

/// Spell out the grouped text of exactly eight groups.
#[verifier::rlimit(100)]
proof fn lemma_groups_text_unfold(gs: Seq<u16>)
    requires
        gs.len() == 8,
    ensures
        groups_text(gs) == hex_text(gs[0] as int) + seq![58u8] + hex_text(gs[1] as int) + seq![
            58u8,
        ] + hex_text(gs[2] as int) + seq![58u8] + hex_text(gs[3] as int) + seq![58u8] + hex_text(
            gs[4] as int,
        ) + seq![58u8] + hex_text(gs[5] as int) + seq![58u8] + hex_text(gs[6] as int) + seq![
            58u8,
        ] + hex_text(gs[7] as int),
{
    let s1 = gs.drop_first();
    let s2 = s1.drop_first();
    let s3 = s2.drop_first();
    let s4 = s3.drop_first();
    let s5 = s4.drop_first();
    let s6 = s5.drop_first();
    let s7 = s6.drop_first();
    assert(s7.len() == 1);
    assert(groups_text(s7) == hex_text(s7[0] as int));
    assert(groups_text(s6) == hex_text(s6[0] as int) + seq![58u8] + groups_text(s7));
    assert(groups_text(s5) == hex_text(s5[0] as int) + seq![58u8] + groups_text(s6));
    assert(groups_text(s4) == hex_text(s4[0] as int) + seq![58u8] + groups_text(s5));
    assert(groups_text(s3) == hex_text(s3[0] as int) + seq![58u8] + groups_text(s4));
    assert(groups_text(s2) == hex_text(s2[0] as int) + seq![58u8] + groups_text(s3));
    assert(groups_text(s1) == hex_text(s1[0] as int) + seq![58u8] + groups_text(s2));
    assert(groups_text(gs) == hex_text(gs[0] as int) + seq![58u8] + groups_text(s1));
    assert(s1[0] == gs[1] && s2[0] == gs[2] && s3[0] == gs[3] && s4[0] == gs[4] && s5[0] == gs[5]
        && s6[0] == gs[6] && s7[0] == gs[7]);
    assert(groups_text(gs) =~= hex_text(gs[0] as int) + seq![58u8] + hex_text(gs[1] as int)
        + seq![58u8] + hex_text(gs[2] as int) + seq![58u8] + hex_text(gs[3] as int) + seq![58u8]
        + hex_text(gs[4] as int) + seq![58u8] + hex_text(gs[5] as int) + seq![58u8] + hex_text(
        gs[6] as int,
    ) + seq![58u8] + hex_text(gs[7] as int));
}

pub fn format_cidr(c: Cidr) -> (r: Vec<u8>)
    ensures
        r@ == cidr_text(c),
{
    let mut buf = format_addr(c.addr);
    buf.push(47);
    push_dec(&mut buf, c.prefix as u32);
    assert(buf@ =~= cidr_text(c));
    buf
}

pub fn format_endpoint(e: Endpoint) -> (r: Vec<u8>)
    ensures
        r@ == endpoint_text(e),
{
    let mut buf: Vec<u8> = Vec::new();
    match e.addr {
        IpAddrVal::V4(..) => {
            let mut a = format_addr(e.addr);
            buf.append(&mut a);
            buf.push(58);
            push_dec(&mut buf, e.port as u32);
            assert(buf@ =~= endpoint_text(e));
        },
        IpAddrVal::V6(..) => {
            buf.push(91);
            let mut a = format_addr(e.addr);
            buf.append(&mut a);
            buf.push(93);
            buf.push(58);
            push_dec(&mut buf, e.port as u32);
            assert(buf@ =~= endpoint_text(e));
        },
    }
    buf
}

pub fn parse_ipv4_in(s: &[u8]) -> (r: Option<IpAddrVal>)
    ensures
        r == parse_ipv4(s@),
{
    let i1 = match find_byte_in(s, 46) {
        Some(i) => i,
        None => {
            return None;
        },
    };
    assert(s@.take(i1 as int) =~= s@.subrange(0, i1 as int));
    let o0 = match parse_dec_in(&s[0..i1], 255) {
        Some(o) => o,
        None => {
            return None;
        },
    };
    let n = s.len();
    let r1 = &s[i1 + 1..n];
    assert(r1@ =~= s@.skip(i1 as int + 1));
    let i2 = match find_byte_in(r1, 46) {
        Some(i) => i,
        None => {
            return None;
        },
    };
    assert(r1@.take(i2 as int) =~= r1@.subrange(0, i2 as int));
    let o1 = match parse_dec_in(&r1[0..i2], 255) {
        Some(o) => o,
        None => {
            return None;
        },
    };
    let r2 = &r1[i2 + 1..r1.len()];
    assert(r2@ =~= r1@.skip(i2 as int + 1));
    let i3 = match find_byte_in(r2, 46) {
        Some(i) => i,
        None => {
            return None;
        },
    };
    assert(r2@.take(i3 as int) =~= r2@.subrange(0, i3 as int));
    let o2 = match parse_dec_in(&r2[0..i3], 255) {
        Some(o) => o,
        None => {
            return None;
        },
    };
    let r3 = &r2[i3 + 1..r2.len()];
    assert(r3@ =~= r2@.skip(i3 as int + 1));
    let o3 = match parse_dec_in(r3, 255) {
        Some(o) => o,
        None => {
            return None;
        },
    };
    Some(IpAddrVal::V4(o0 as u8, o1 as u8, o2 as u8, o3 as u8))
}

fn parse_groups_in(s: &[u8], k: usize) -> (r: Option<Vec<u16>>)
    requires
        1 <= k,
    ensures
        match parse_groups(s@, k as int) {
            Option::Some(gs) => r matches Some(v) && v@ == gs,
            Option::None => r is None,
        },
    decreases k,
{
    if k == 1 {
        match parse_hex_in(s, 0xffff) {
            Some(g) => {
                let mut v: Vec<u16> = Vec::new();
                v.push(g);
                assert(v@ =~= seq![g]);
                Some(v)
            },
            None => None,
        }
    } else {
        let i = match find_byte_in(s, 58) {
            Some(i) => i,
            None => {
                return None;
            },
        };
        assert(s@.take(i as int) =~= s@.subrange(0, i as int));
        let g = match parse_hex_in(&s[0..i], 0xffff) {
            Some(g) => g,
            None => {
                return None;
            },
        };
        let n = s.len();
        let rest = &s[i + 1..n];
        assert(rest@ =~= s@.skip(i as int + 1));
        match parse_groups_in(rest, k - 1) {
            Some(tail) => {
                let mut v: Vec<u16> = Vec::new();
                v.push(g);
                let mut t = tail;
                let ghost t0 = t@;
                v.append(&mut t);
                assert(v@ =~= seq![g] + t0);
                Some(v)
            },
            None => None,
        }
    }
}

pub fn parse_ipv6_in(s: &[u8]) -> (r: Option<IpAddrVal>)
    ensures
        r == parse_ipv6(s@),
{
    match parse_groups_in(s, 8) {
        Some(v) => {
            proof {
                lemma_parse_groups_len(s@, 8);
            }
            Some(IpAddrVal::V6(v[0], v[1], v[2], v[3], v[4], v[5], v[6], v[7]))
        },
        None => None,
    }
}

/// A successful group parse yields exactly as many groups as asked for.
proof fn lemma_parse_groups_len(s: Seq<u8>, k: int)
    requires
        1 <= k,
        parse_groups(s, k) is Some,
    ensures
        parse_groups(s, k)->0.len() == k,
    decreases k,
{
    if k > 1 {
        let i = find_byte(s, 58);
        lemma_parse_groups_len(s.skip(i + 1), k - 1);
    }
}

pub fn parse_addr_in(s: &[u8]) -> (r: Option<IpAddrVal>)
    ensures
        r == parse_addr(s@),
{
    match find_byte_in(s, 58) {
        Some(_) => parse_ipv6_in(s),
        None => parse_ipv4_in(s),
    }
}

pub fn parse_cidr_in(s: &[u8]) -> (r: Option<Cidr>)
    ensures
        r == parse_cidr(s@),
{
    let i = match find_byte_in(s, 47) {
        Some(i) => i,
        None => {
            return None;
        },
    };
    assert(s@.take(i as int) =~= s@.subrange(0, i as int));
    let a = match parse_addr_in(&s[0..i]) {
        Some(a) => a,
        None => {
            return None;
        },
    };
    let maxp: u32 = match a {
        IpAddrVal::V4(..) => 32,
        IpAddrVal::V6(..) => 128,
    };
    let n = s.len();
    let rest = &s[i + 1..n];
    assert(rest@ =~= s@.skip(i as int + 1));
    match parse_dec_in(rest, maxp) {
        Some(p) => Some(Cidr { addr: a, prefix: p as u8 }),
        None => None,
    }
}

pub fn parse_endpoint_in(s: &[u8]) -> (r: Option<Endpoint>)
    ensures
        r == parse_endpoint(s@),
{
    if s.len() > 0 && s[0] == 91 {
        let j = match find_byte_in(s, 93) {
            Some(j) => j,
            None => {
                return None;
            },
        };
        if j < 1 {
            return None;
        }
        let a = match parse_ipv6_in(&s[1..j]) {
            Some(a) => a,
            None => {
                return None;
            },
        };
        if s.len() >= 2 && j <= s.len() - 2 && s[j + 1] == 58 {
            let rest = &s[j + 2..s.len()];
            assert(rest@ =~= s@.skip(j as int + 2));
            match parse_dec_in(rest, 65535) {
                Some(p) => Some(Endpoint { addr: a, port: p as u16 }),
                None => None,
            }
        } else {
            None
        }
    } else {
        let i = match find_byte_in(s, 58) {
            Some(i) => i,
            None => {
                return None;
            },
        };
        assert(s@.take(i as int) =~= s@.subrange(0, i as int));
        let a = match parse_ipv4_in(&s[0..i]) {
            Some(a) => a,
            None => {
                return None;
            },
        };
        let n = s.len();
        let rest = &s[i + 1..n];
        assert(rest@ =~= s@.skip(i as int + 1));
        match parse_dec_in(rest, 65535) {
            Some(p) => Some(Endpoint { addr: a, port: p as u16 }),
            None => None,
        }
    }
}

} // verus!

use vstd::prelude::*;

use crate::addr::{
    cidr_text, endpoint_text, format_cidr, format_endpoint, lemma_cidr_round_trip,
    lemma_endpoint_round_trip, parse_cidr, parse_cidr_in, parse_endpoint, parse_endpoint_in, Cidr,
};
use crate::bytes::{bytes_eq, copy_bytes};
use crate::config::{
    InterfaceConfig, InterfaceConfigView, PeerConfig, PeerConfigView, PeerEntry, PeerEntryView,
};
use crate::errors::ConfigError;

verus! {

// ---------------------------------------------------------------------------
// The wire records of the coordinator protocol. All address fields travel
// as canonical text and are parsed and validated on receipt; invalid text
// is a hard decode failure.
// ---------------------------------------------------------------------------

#[derive(Debug, PartialEq)]
pub struct PeerConfigWire {
    pub public_key: Vec<u8>,
    pub endpoint: Option<Vec<u8>>,
    pub allowed_ips: Vec<Vec<u8>>,
    pub preshared_key: Option<Vec<u8>>,
    pub persistent_keepalive: Option<u32>,
}

#[verifier::ext_equal]
pub struct PeerConfigWireView {
    pub public_key: Seq<u8>,
    pub endpoint: Option<Seq<u8>>,
    pub allowed_ips: Seq<Seq<u8>>,
    pub preshared_key: Option<Seq<u8>>,
    pub persistent_keepalive: Option<u32>,
}

impl View for PeerConfigWire {
    type V = PeerConfigWireView;

    open spec fn view(&self) -> PeerConfigWireView {
        PeerConfigWireView {
            public_key: self.public_key@,
            endpoint: match self.endpoint {
                Some(t) => Some(t@),
                None => None,
            },
            allowed_ips: self.allowed_ips@.map_values(|t: Vec<u8>| t@),
            preshared_key: match self.preshared_key {
                Some(t) => Some(t@),
                None => None,
            },
            persistent_keepalive: self.persistent_keepalive,
        }
    }
}

#[derive(Debug, PartialEq)]
pub struct PeerEntryWire {
    pub name: Vec<u8>,
    pub peer: PeerConfigWire,
}

#[verifier::ext_equal]
pub struct PeerEntryWireView {
    pub name: Seq<u8>,
    pub peer: PeerConfigWireView,
}

impl View for PeerEntryWire {
    type V = PeerEntryWireView;

    open spec fn view(&self) -> PeerEntryWireView {
        PeerEntryWireView { name: self.name@, peer: self.peer@ }
    }
}

#[derive(Debug, PartialEq)]
pub struct InterfaceConfigWire {
    pub name: Vec<u8>,
    pub private_key: Vec<u8>,
    pub addrs: Vec<Vec<u8>>,
    pub listen_port: Option<u32>,
    pub mtu: Option<u32>,
    pub internal_endpoint: Option<Vec<u8>>,
    pub external_endpoint: Option<Vec<u8>>,
    pub peers: Vec<PeerEntryWire>,
}

#[verifier::ext_equal]
pub struct InterfaceConfigWireView {
    pub name: Seq<u8>,
    pub private_key: Seq<u8>,
    pub addrs: Seq<Seq<u8>>,
    pub listen_port: Option<u32>,
    pub mtu: Option<u32>,
    pub internal_endpoint: Option<Seq<u8>>,
    pub external_endpoint: Option<Seq<u8>>,
    pub peers: Seq<PeerEntryWireView>,
}

impl View for InterfaceConfigWire {
    type V = InterfaceConfigWireView;

    open spec fn view(&self) -> InterfaceConfigWireView {
        InterfaceConfigWireView {
            name: self.name@,
            private_key: self.private_key@,
            addrs: self.addrs@.map_values(|t: Vec<u8>| t@),
            listen_port: self.listen_port,
            mtu: self.mtu,
            internal_endpoint: match self.internal_endpoint {
                Some(t) => Some(t@),
                None => None,
            },
            external_endpoint: match self.external_endpoint {
                Some(t) => Some(t@),
                None => None,
            },
            peers: self.peers@.map_values(|e: PeerEntryWire| e@),
        }
    }
}

// ---------------------------------------------------------------------------
// Encoding and decoding, specified.
// ---------------------------------------------------------------------------

pub open spec fn wire_of_peer(p: PeerConfigView) -> PeerConfigWireView {
    PeerConfigWireView {
        public_key: p.public_key,
        endpoint: match p.endpoint {
            Some(e) => Some(endpoint_text(e)),
            None => None,
        },
        allowed_ips: p.allowed_ips.map_values(|c: Cidr| cidr_text(c)),
        preshared_key: p.preshared_key,
        persistent_keepalive: match p.persistent_keepalive {
            Some(k) => Some(k as u32),
            None => None,
        },
    }
}

pub open spec fn peer_decodes(w: PeerConfigWireView) -> bool {
    &&& match w.endpoint {
        Some(t) => parse_endpoint(t) is Some,
        None => true,
    }
    &&& forall|i: int| 0 <= i < w.allowed_ips.len() ==> parse_cidr(#[trigger] w.allowed_ips[i])
        is Some
    &&& match w.persistent_keepalive {
        Some(k) => k <= 65535,
        None => true,
    }
}

pub open spec fn peer_of_wire(w: PeerConfigWireView) -> Option<PeerConfigView> {
    if peer_decodes(w) {
        Some(
            PeerConfigView {
                public_key: w.public_key,
                endpoint: match w.endpoint {
                    Some(t) => parse_endpoint(t),
                    None => None,
                },
                allowed_ips: w.allowed_ips.map_values(|t: Seq<u8>| parse_cidr(t)->0),
                preshared_key: w.preshared_key,
                persistent_keepalive: match w.persistent_keepalive {
                    Some(k) => Some(k as u16),
                    None => None,
                },
            },
        )
    } else {
        None
    }
}

pub open spec fn wire_of_config(c: InterfaceConfigView) -> InterfaceConfigWireView {
    InterfaceConfigWireView {
        name: c.name,
        private_key: c.private_key,
        addrs: c.addrs.map_values(|a: Cidr| cidr_text(a)),
        listen_port: match c.listen_port {
            Some(p) => Some(p as u32),
            None => None,
        },
        mtu: c.mtu,
        internal_endpoint: match c.internal_endpoint {
            Some(e) => Some(endpoint_text(e)),
            None => None,
        },
        external_endpoint: match c.external_endpoint {
            Some(e) => Some(endpoint_text(e)),
            None => None,
        },
        peers: c.peers.map_values(
            |e: PeerEntryView| PeerEntryWireView { name: e.name, peer: wire_of_peer(e.peer) },
        ),
    }
}

pub open spec fn config_decodes(w: InterfaceConfigWireView) -> bool {
    &&& forall|i: int| 0 <= i < w.addrs.len() ==> parse_cidr(#[trigger] w.addrs[i]) is Some
    &&& match w.listen_port {
        Some(p) => p <= 65535,
        None => true,
    }
    &&& match w.internal_endpoint {
        Some(t) => parse_endpoint(t) is Some,
        None => true,
    }
    &&& match w.external_endpoint {
        Some(t) => parse_endpoint(t) is Some,
        None => true,
    }
    &&& forall|i: int| 0 <= i < w.peers.len() ==> peer_decodes((#[trigger] w.peers[i]).peer)
    &&& forall|i: int, j: int|
        0 <= i < j < w.peers.len() ==> (#[trigger] w.peers[i]).name != (#[trigger] w.peers[j]).name
}

pub open spec fn config_of_wire(w: InterfaceConfigWireView) -> Option<InterfaceConfigView> {
    if config_decodes(w) {
        Some(
            InterfaceConfigView {
                name: w.name,
                private_key: w.private_key,
                addrs: w.addrs.map_values(|t: Seq<u8>| parse_cidr(t)->0),
                listen_port: match w.listen_port {
                    Some(p) => Some(p as u16),
                    None => None,
                },
                mtu: w.mtu,
                internal_endpoint: match w.internal_endpoint {
                    Some(t) => parse_endpoint(t),
                    None => None,
                },
                external_endpoint: match w.external_endpoint {
                    Some(t) => parse_endpoint(t),
                    None => None,
                },
                peers: w.peers.map_values(
                    |e: PeerEntryWireView| PeerEntryView {
                        name: e.name,
                        peer: peer_of_wire(e.peer)->0,
                    },
                ),
            },
        )
    } else {
        None
    }
}

// ---------------------------------------------------------------------------
// Round trip.
// ---------------------------------------------------------------------------

/// Decoding an encoded peer restores it.
pub proof fn lemma_peer_wire_round_trip(p: PeerConfigView)
    requires
        p.wf(),
    ensures
        peer_of_wire(wire_of_peer(p)) == Some(p),
{
    let w = wire_of_peer(p);
    match p.endpoint {
        Some(e) => {
            lemma_endpoint_round_trip(e);
        },
        None => {},
    }
    assert forall|i: int| 0 <= i < w.allowed_ips.len() implies parse_cidr(
        #[trigger] w.allowed_ips[i],
    ) is Some by {
        assert(w.allowed_ips[i] == cidr_text(p.allowed_ips[i]));
        assert(p.allowed_ips[i].wf());
        lemma_cidr_round_trip(p.allowed_ips[i]);
    }
    assert(peer_decodes(w));
    let q = peer_of_wire(w)->0;
    assert forall|i: int| 0 <= i < q.allowed_ips.len() implies q.allowed_ips[i]
        == p.allowed_ips[i] by {
        lemma_cidr_round_trip(p.allowed_ips[i]);
    }
    assert(q.allowed_ips =~= p.allowed_ips);
    assert(q =~= p);
}

/// Law: wire-encoding an interface configuration and decoding the result
/// yields an equal configuration; every address and endpoint text
/// round-trips exactly.
pub proof fn lemma_config_wire_round_trip(c: InterfaceConfigView)
    requires
        c.wf(),
    ensures
        config_of_wire(wire_of_config(c)) == Some(c),
{
    let w = wire_of_config(c);
    assert forall|i: int| 0 <= i < w.addrs.len() implies parse_cidr(#[trigger] w.addrs[i])
        is Some by {
        assert(w.addrs[i] == cidr_text(c.addrs[i]));
        assert(c.addrs[i].wf());
        lemma_cidr_round_trip(c.addrs[i]);
    }
    match c.internal_endpoint {
        Some(e) => {
            lemma_endpoint_round_trip(e);
        },
        None => {},
    }
    match c.external_endpoint {
        Some(e) => {
            lemma_endpoint_round_trip(e);
        },
        None => {},
    }
    assert forall|i: int| 0 <= i < w.peers.len() implies peer_decodes(
        (#[trigger] w.peers[i]).peer,
    ) by {
        assert(w.peers[i].peer == wire_of_peer(c.peers[i].peer));
        assert(c.peers[i].peer.wf());
        lemma_peer_wire_round_trip(c.peers[i].peer);
    }
    assert forall|i: int, j: int| 0 <= i < j < w.peers.len() implies (#[trigger] w.peers[i]).name
        != (#[trigger] w.peers[j]).name by {
        assert(w.peers[i].name == c.peers[i].name);
        assert(w.peers[j].name == c.peers[j].name);
    }
    assert(config_decodes(w));
    let d = config_of_wire(w)->0;
    assert forall|i: int| 0 <= i < d.addrs.len() implies d.addrs[i] == c.addrs[i] by {
        lemma_cidr_round_trip(c.addrs[i]);
    }
    assert(d.addrs =~= c.addrs);
    assert forall|i: int| 0 <= i < d.peers.len() implies d.peers[i] == c.peers[i] by {
        lemma_peer_wire_round_trip(c.peers[i].peer);
        assert(d.peers[i].name == c.peers[i].name);
        assert(d.peers[i].peer == peer_of_wire(wire_of_peer(c.peers[i].peer))->0);
        assert(d.peers[i] =~= c.peers[i]);
    }
    assert(d.peers =~= c.peers);
    assert(d =~= c);
}

// ---------------------------------------------------------------------------
// Executable encoding and decoding.
// ---------------------------------------------------------------------------

impl PeerConfig {
    pub fn to_proto_peer(&self) -> (r: PeerConfigWire)
        ensures
            r@ == wire_of_peer(self@),
    {
        let endpoint = match &self.endpoint {
            Some(e) => Some(format_endpoint(*e)),
            None => None,
        };
        let mut allowed_ips: Vec<Vec<u8>> = Vec::new();
        let mut i: usize = 0;
        while i < self.allowed_ips.len()
            invariant
                i <= self.allowed_ips@.len(),
                allowed_ips@.len() == i,
                forall|k: int|
                    0 <= k < i ==> (#[trigger] allowed_ips@[k])@ == cidr_text(
                        self.allowed_ips@[k],
                    ),
            decreases self.allowed_ips@.len() - i,
        {
            allowed_ips.push(format_cidr(self.allowed_ips[i]));
            i = i + 1;
        }
        let r = PeerConfigWire {
            public_key: copy_bytes(&self.public_key),
            endpoint,
            allowed_ips,
            preshared_key: match &self.preshared_key {
                Some(k) => Some(copy_bytes(k)),
                None => None,
            },
            persistent_keepalive: match self.persistent_keepalive {
                Some(k) => Some(k as u32),
                None => None,
            },
        };
        assert(r@ =~= wire_of_peer(self@));
        r
    }

    pub fn from_proto_peer(w: &PeerConfigWire) -> (r: Result<PeerConfig, ConfigError>)
        ensures
            peer_of_wire(w@) matches Some(p) ==> (r matches Ok(d) && d@ == p),
            peer_of_wire(w@) is None ==> r is Err,
    {
        let endpoint = match &w.endpoint {
            Some(t) => {
                match parse_endpoint_in(t.as_slice()) {
                    Some(e) => Some(e),
                    None => {
                        return Err(ConfigError::BadEndpoint);
                    },
                }
            },
            None => None,
        };
        let mut allowed_ips: Vec<Cidr> = Vec::new();
        let mut i: usize = 0;
        while i < w.allowed_ips.len()
            invariant
                i <= w.allowed_ips@.len(),
                allowed_ips@.len() == i,
                forall|k: int|
                    0 <= k < i ==> parse_cidr(#[trigger] w@.allowed_ips[k]) is Some
                        && allowed_ips@[k] == parse_cidr(w@.allowed_ips[k])->0,
                w@.allowed_ips.len() == w.allowed_ips@.len(),
                forall|k: int|
                    0 <= k < w.allowed_ips@.len() ==> #[trigger] w@.allowed_ips[k]
                        == w.allowed_ips@[k]@,
            decreases w.allowed_ips@.len() - i,
        {
            match parse_cidr_in(w.allowed_ips[i].as_slice()) {
                Some(c) => {
                    allowed_ips.push(c);
                },
                None => {
                    assert(!peer_decodes(w@)) by {
                        assert(w@.allowed_ips[i as int] == w.allowed_ips@[i as int]@);
                        assert(parse_cidr(w@.allowed_ips[i as int]) is None);
                    }
                    return Err(ConfigError::BadCidr);
                },
            }
            i = i + 1;
        }
        let persistent_keepalive = match w.persistent_keepalive {
            Some(k) => {
                if k <= 65535 {
                    Some(k as u16)
                } else {
                    assert(!peer_decodes(w@));
                    return Err(ConfigError::BadPort);
                }
            },
            None => None,
        };
        let r = PeerConfig {
            public_key: copy_bytes(&w.public_key),
            endpoint,
            allowed_ips,
            preshared_key: match &w.preshared_key {
                Some(k) => Some(copy_bytes(k)),
                None => None,
            },
            persistent_keepalive,
        };
        proof {
            assert(peer_decodes(w@));
            let p = peer_of_wire(w@)->0;
            assert(r@.allowed_ips =~= p.allowed_ips);
            assert(r@ =~= p);
        }
        Ok(r)
    }
}

impl InterfaceConfig {
    pub fn to_proto_config(&self) -> (r: InterfaceConfigWire)
        ensures
            r@ == wire_of_config(self@),
    {
        let mut addrs: Vec<Vec<u8>> = Vec::new();
        let mut i: usize = 0;
        while i < self.addrs.len()
            invariant
                i <= self.addrs@.len(),
                addrs@.len() == i,
                forall|k: int|
                    0 <= k < i ==> (#[trigger] addrs@[k])@ == cidr_text(self.addrs@[k]),
            decreases self.addrs@.len() - i,
        {
            addrs.push(format_cidr(self.addrs[i]));
            i = i + 1;
        }
        let mut peers: Vec<PeerEntryWire> = Vec::new();
        let mut i: usize = 0;
        while i < self.peers.len()
            invariant
                i <= self.peers@.len(),
                peers@.len() == i,
                forall|k: int|
                    0 <= k < i ==> (#[trigger] peers@[k])@.name == self.peers@[k]@.name
                        && peers@[k]@.peer == wire_of_peer(self.peers@[k]@.peer),
            decreases self.peers@.len() - i,
        {
            let e = &self.peers[i];
            peers.push(PeerEntryWire { name: copy_bytes(&e.name), peer: e.peer.to_proto_peer() });
            i = i + 1;
        }
        let r = InterfaceConfigWire {
            name: copy_bytes(&self.name),
            private_key: copy_bytes(&self.private_key),
            addrs,
            listen_port: match self.listen_port {
                Some(p) => Some(p as u32),
                None => None,
            },
            mtu: self.mtu,
            internal_endpoint: match self.internal_endpoint {
                Some(e) => Some(format_endpoint(e)),
                None => None,
            },
            external_endpoint: match self.external_endpoint {
                Some(e) => Some(format_endpoint(e)),
                None => None,
            },
            peers,
        };
        assert(r@ =~= wire_of_config(self@)) by {
            assert(r@.addrs =~= wire_of_config(self@).addrs);
            assert(r@.peers =~= wire_of_config(self@).peers);
        }
        r
    }

    pub fn from_proto_config(w: &InterfaceConfigWire) -> (r: Result<InterfaceConfig, ConfigError>)
        ensures
            config_of_wire(w@) matches Some(c) ==> (r matches Ok(d) && d@ == c),
            config_of_wire(w@) is None ==> r is Err,
    {
        let mut addrs: Vec<Cidr> = Vec::new();
        let mut i: usize = 0;
        while i < w.addrs.len()
            invariant
                i <= w.addrs@.len(),
                addrs@.len() == i,
                forall|k: int|
                    0 <= k < i ==> parse_cidr(#[trigger] w@.addrs[k]) is Some && addrs@[k]
                        == parse_cidr(w@.addrs[k])->0,
                w@.addrs.len() == w.addrs@.len(),
                forall|k: int|
                    0 <= k < w.addrs@.len() ==> #[trigger] w@.addrs[k] == w.addrs@[k]@,
            decreases w.addrs@.len() - i,
        {
            match parse_cidr_in(w.addrs[i].as_slice()) {
                Some(c) => {
                    addrs.push(c);
                },
                None => {
                    assert(!config_decodes(w@)) by {
                        assert(w@.addrs[i as int] == w.addrs@[i as int]@);
                        assert(parse_cidr(w@.addrs[i as int]) is None);
                    }
                    return Err(ConfigError::BadCidr);
                },
            }
            i = i + 1;
        }
        let listen_port = match w.listen_port {
            Some(p) => {
                if p <= 65535 {
                    Some(p as u16)
                } else {
                    assert(!config_decodes(w@));
                    return Err(ConfigError::BadPort);
                }
            },
            None => None,
        };
        let internal_endpoint = match &w.internal_endpoint {
            Some(t) => {
                match parse_endpoint_in(t.as_slice()) {
                    Some(e) => Some(e),
                    None => {
                        assert(!config_decodes(w@));
                        return Err(ConfigError::BadEndpoint);
                    },
                }
            },
            None => None,
        };
        let external_endpoint = match &w.external_endpoint {
            Some(t) => {
                match parse_endpoint_in(t.as_slice()) {
                    Some(e) => Some(e),
                    None => {
                        assert(!config_decodes(w@));
                        return Err(ConfigError::BadEndpoint);
                    },
                }
            },
            None => None,
        };
        let mut peers: Vec<PeerEntry> = Vec::new();
        let mut i: usize = 0;
        while i < w.peers.len()
            invariant
                i <= w.peers@.len(),
                peers@.len() == i,
                w@.peers.len() == w.peers@.len(),
                forall|k: int|
                    0 <= k < w.peers@.len() ==> #[trigger] w@.peers[k] == w.peers@[k]@,
                forall|k: int|
                    0 <= k < i ==> peer_decodes((#[trigger] w@.peers[k]).peer) && peers@[k]@.peer
                        == peer_of_wire(w@.peers[k].peer)->0 && peers@[k]@.name == w@.peers[k]
                        .name,
                forall|k1: int, k2: int|
                    0 <= k1 < k2 < i ==> (#[trigger] w@.peers[k1]).name != (
                    #[trigger] w@.peers[k2]).name,
            decreases w.peers@.len() - i,
        {
            let e = &w.peers[i];
            let mut j: usize = 0;
            while j < i
                invariant
                    j <= i < w.peers@.len(),
                    w@.peers.len() == w.peers@.len(),
                    forall|k: int|
                        0 <= k < w.peers@.len() ==> #[trigger] w@.peers[k] == w.peers@[k]@,
                    forall|k: int|
                        0 <= k < j ==> (#[trigger] w@.peers[k]).name != w@.peers[i as int].name,
                decreases i - j,
            {
                if bytes_eq(&w.peers[j].name, &w.peers[i].name) {
                    assert(!config_decodes(w@)) by {
                        assert(w@.peers[j as int].name == w@.peers[i as int].name);
                    }
                    return Err(ConfigError::BadDocument);
                }
                j = j + 1;
            }
            let peer = match PeerConfig::from_proto_peer(&e.peer) {
                Ok(p) => p,
                Err(err) => {
                    assert(!config_decodes(w@)) by {
                        if peer_decodes(w@.peers[i as int].peer) {
                            assert(peer_of_wire(w@.peers[i as int].peer) is Some);
                        }
                    }
                    return Err(err);
                },
            };
            peers.push(PeerEntry { name: copy_bytes(&e.name), peer });
            i = i + 1;
        }
        let r = InterfaceConfig {
            name: copy_bytes(&w.name),
            private_key: copy_bytes(&w.private_key),
            addrs,
            listen_port,
            mtu: w.mtu,
            internal_endpoint,
            external_endpoint,
            peers,
        };
        proof {
            assert(config_decodes(w@));
            let c = config_of_wire(w@)->0;
            assert(r@.addrs =~= c.addrs);
            assert forall|k: int| 0 <= k < r@.peers.len() implies r@.peers[k] == c.peers[k] by {
                assert(r@.peers[k] =~= c.peers[k]);
            }
            assert(r@.peers =~= c.peers);
            assert(r@ =~= c);
        }
        Ok(r)
    }
}

} // verus!

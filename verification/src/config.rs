use vstd::prelude::*;

use crate::addr::{Cidr, Endpoint};
use crate::bytes::{bytes_eq, copy_bytes};

verus! {

/// One peer of an interface: public key (base64 text), optional endpoint,
/// allowed address ranges, optional pre-shared key, optional keepalive.
/// A peer lacking both endpoint and keepalive is valid: dial-in-only.
#[derive(Debug, PartialEq)]
pub struct PeerConfig {
    pub public_key: Vec<u8>,
    pub endpoint: Option<Endpoint>,
    pub allowed_ips: Vec<Cidr>,
    pub preshared_key: Option<Vec<u8>>,
    pub persistent_keepalive: Option<u16>,
}

pub struct PeerConfigView {
    pub public_key: Seq<u8>,
    pub endpoint: Option<Endpoint>,
    pub allowed_ips: Seq<Cidr>,
    pub preshared_key: Option<Seq<u8>>,
    pub persistent_keepalive: Option<u16>,
}

impl View for PeerConfig {
    type V = PeerConfigView;

    open spec fn view(&self) -> PeerConfigView {
        PeerConfigView {
            public_key: self.public_key@,
            endpoint: self.endpoint,
            allowed_ips: self.allowed_ips@,
            preshared_key: match self.preshared_key {
                Some(k) => Some(k@),
                None => None,
            },
            persistent_keepalive: self.persistent_keepalive,
        }
    }
}

impl PeerConfigView {
    pub open spec fn wf(self) -> bool {
        forall|i: int| 0 <= i < self.allowed_ips.len() ==> (#[trigger] self.allowed_ips[i]).wf()
    }
}

impl PeerConfig {
    pub fn duplicate(&self) -> (r: Self)
        ensures
            r@ == self@,
    {
        PeerConfig {
            public_key: copy_bytes(&self.public_key),
            endpoint: self.endpoint,
            allowed_ips: copy_cidrs(&self.allowed_ips),
            preshared_key: match &self.preshared_key {
                Some(k) => Some(copy_bytes(k)),
                None => None,
            },
            persistent_keepalive: self.persistent_keepalive,
        }
    }

    pub fn check_wf(&self) -> (r: bool)
        ensures
            r == self@.wf(),
    {
        let mut i: usize = 0;
        while i < self.allowed_ips.len()
            invariant
                i <= self.allowed_ips@.len(),
                forall|j: int| 0 <= j < i ==> (#[trigger] self.allowed_ips@[j]).wf(),
            decreases self.allowed_ips@.len() - i,
        {
            if !self.allowed_ips[i].check_wf() {
                assert(!self@.wf()) by {
                    assert(self@.allowed_ips == self.allowed_ips@);
                    assert(!(self@.allowed_ips[i as int]).wf());
                }
                return false;
            }
            i = i + 1;
        }
        assert(self@.allowed_ips == self.allowed_ips@);
        true
    }
}

pub fn copy_cidrs(v: &Vec<Cidr>) -> (r: Vec<Cidr>)
    ensures
        r@ == v@,
{
    let mut r: Vec<Cidr> = Vec::new();
    let mut i: usize = 0;
    while i < v.len()
        invariant
            i <= v@.len(),
            r@ == v@.take(i as int),
        decreases v@.len() - i,
    {
        r.push(v[i]);
        i = i + 1;
        assert(r@ =~= v@.take(i as int));
    }
    assert(r@ =~= v@);
    r
}

/// One named peer entry; the peer set is keyed by these names.
#[derive(Debug, PartialEq)]
pub struct PeerEntry {
    pub name: Vec<u8>,
    pub peer: PeerConfig,
}

pub struct PeerEntryView {
    pub name: Seq<u8>,
    pub peer: PeerConfigView,
}

impl View for PeerEntry {
    type V = PeerEntryView;

    open spec fn view(&self) -> PeerEntryView {
        PeerEntryView { name: self.name@, peer: self.peer@ }
    }
}

pub open spec fn peers_view(s: Seq<PeerEntry>) -> Seq<PeerEntryView> {
    s.map_values(|e: PeerEntry| e@)
}

/// The desired configuration of one tunnel interface. Replaced wholesale on
/// each successful sync, never field-patched.
#[derive(Debug, PartialEq)]
pub struct InterfaceConfig {
    pub name: Vec<u8>,
    pub private_key: Vec<u8>,
    pub addrs: Vec<Cidr>,
    pub listen_port: Option<u16>,
    pub mtu: Option<u32>,
    pub internal_endpoint: Option<Endpoint>,
    pub external_endpoint: Option<Endpoint>,
    pub peers: Vec<PeerEntry>,
}

pub struct InterfaceConfigView {
    pub name: Seq<u8>,
    pub private_key: Seq<u8>,
    pub addrs: Seq<Cidr>,
    pub listen_port: Option<u16>,
    pub mtu: Option<u32>,
    pub internal_endpoint: Option<Endpoint>,
    pub external_endpoint: Option<Endpoint>,
    pub peers: Seq<PeerEntryView>,
}

impl View for InterfaceConfig {
    type V = InterfaceConfigView;

    open spec fn view(&self) -> InterfaceConfigView {
        InterfaceConfigView {
            name: self.name@,
            private_key: self.private_key@,
            addrs: self.addrs@,
            listen_port: self.listen_port,
            mtu: self.mtu,
            internal_endpoint: self.internal_endpoint,
            external_endpoint: self.external_endpoint,
            peers: peers_view(self.peers@),
        }
    }
}

impl InterfaceConfigView {
    /// Every range is well formed and the peer names are unique.
    pub open spec fn wf(self) -> bool {
        &&& forall|i: int| 0 <= i < self.addrs.len() ==> (#[trigger] self.addrs[i]).wf()
        &&& forall|i: int| 0 <= i < self.peers.len() ==> (#[trigger] self.peers[i]).peer.wf()
        &&& forall|i: int, j: int|
            0 <= i < j < self.peers.len() ==> (#[trigger] self.peers[i]).name != (
            #[trigger] self.peers[j]).name
    }
}

impl InterfaceConfig {
    pub fn duplicate(&self) -> (r: Self)
        ensures
            r@ == self@,
    {
        let mut peers: Vec<PeerEntry> = Vec::new();
        let mut i: usize = 0;
        while i < self.peers.len()
            invariant
                i <= self.peers@.len(),
                peers@.len() == i,
                forall|k: int| 0 <= k < i ==> (#[trigger] peers@[k])@ == self.peers@[k]@,
            decreases self.peers@.len() - i,
        {
            let e = &self.peers[i];
            let copied = PeerEntry { name: copy_bytes(&e.name), peer: e.peer.duplicate() };
            assert(copied@ == self.peers@[i as int]@);
            peers.push(copied);
            i = i + 1;
        }
        assert(peers_view(peers@) =~= peers_view(self.peers@));
        let r = InterfaceConfig {
            name: copy_bytes(&self.name),
            private_key: copy_bytes(&self.private_key),
            addrs: copy_cidrs(&self.addrs),
            listen_port: self.listen_port,
            mtu: self.mtu,
            internal_endpoint: self.internal_endpoint,
            external_endpoint: self.external_endpoint,
            peers,
        };
        assert(r@ =~= self@);
        r
    }

    pub fn check_wf(&self) -> (r: bool)
        ensures
            r == self@.wf(),
    {
        let mut i: usize = 0;
        while i < self.addrs.len()
            invariant
                i <= self.addrs@.len(),
                forall|j: int| 0 <= j < i ==> (#[trigger] self.addrs@[j]).wf(),
            decreases self.addrs@.len() - i,
        {
            if !self.addrs[i].check_wf() {
                assert(!self@.wf()) by {
                    assert(self@.addrs == self.addrs@);
                    assert(!(self@.addrs[i as int]).wf());
                }
                return false;
            }
            i = i + 1;
        }
        let mut i: usize = 0;
        while i < self.peers.len()
            invariant
                i <= self.peers@.len(),
                forall|j: int| 0 <= j < i ==> (#[trigger] self.peers@[j])@.peer.wf(),
                forall|j1: int, j2: int|
                    0 <= j1 < j2 < i ==> (#[trigger] self.peers@[j1])@.name != (
                    #[trigger] self.peers@[j2])@.name,
            decreases self.peers@.len() - i,
        {
            if !self.peers[i].peer.check_wf() {
                assert(!self@.wf()) by {
                    assert(self@.peers == peers_view(self.peers@));
                    assert(self@.peers.len() == self.peers@.len());
                    assert(self@.peers[i as int] == self.peers@[i as int]@);
                    assert(!(self@.peers[i as int]).peer.wf());
                }
                return false;
            }
            let mut j: usize = 0;
            while j < i
                invariant
                    j <= i < self.peers@.len(),
                    forall|j1: int|
                        0 <= j1 < j ==> (#[trigger] self.peers@[j1])@.name
                            != self.peers@[i as int]@.name,
                decreases i - j,
            {
                if bytes_eq(&self.peers[j].name, &self.peers[i].name) {
                    assert(!self@.wf()) by {
                        assert(self@.peers == peers_view(self.peers@));
                        assert(self@.peers.len() == self.peers@.len());
                        assert(self@.peers[j as int] == self.peers@[j as int]@);
                        assert(self@.peers[i as int] == self.peers@[i as int]@);
                        assert(self@.peers[j as int].name == self@.peers[i as int].name);
                    }
                    return false;
                }
                j = j + 1;
            }
            i = i + 1;
        }
        assert(self@.wf()) by {
            assert(self@.addrs == self.addrs@);
            assert(self@.peers == peers_view(self.peers@));
            assert(self@.peers.len() == self.peers@.len());
            assert(forall|k: int|
                0 <= k < self@.peers.len() ==> (#[trigger] self@.peers[k]) == self.peers@[k]@);
            assert(forall|k: int|
                0 <= k < self@.addrs.len() ==> (#[trigger] self@.addrs[k]).wf());
            assert(forall|k: int|
                0 <= k < self@.peers.len() ==> (#[trigger] self@.peers[k]).peer.wf());
            assert(forall|j1: int, j2: int|
                0 <= j1 < j2 < self@.peers.len() ==> (#[trigger] self@.peers[j1]).name != (
                #[trigger] self@.peers[j2]).name);
        }
        true
    }
}

/// Node-agent local configuration.
#[derive(Debug, PartialEq)]
pub struct ClientConfig {
    pub name: Vec<u8>,
    pub update_interval: u64,
    pub iface_config_dir: Vec<u8>,
    pub backend: Vec<u8>,
}

/// Coordinator local configuration.
#[derive(Debug, PartialEq)]
pub struct ServerConfig {
    pub listen: Endpoint,
    pub iface_config_path: Vec<u8>,
    pub backend: Vec<u8>,
}

/// A one-time invite credential: coordinator address, authorization key,
/// and the initial bootstrap interface configuration. Single-use, discarded
/// after redemption.
#[derive(Debug, PartialEq)]
pub struct InviteConfig {
    pub iface_config: InterfaceConfig,
    pub server_socket: Endpoint,
    pub key: Vec<u8>,
}

} // verus!

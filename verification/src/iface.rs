use vstd::prelude::*;

use crate::addr::Cidr;
use crate::b64::{base64_of, decode_key, is_key_text};
use crate::config::{InterfaceConfig, InterfaceConfigView, PeerConfig, PeerConfigView};
use crate::errors::{ApplyError, ConfigError};

verus! {

/// Which device driver programs the tunnel device.
#[derive(Clone, Copy, PartialEq, Eq, Structural, Debug)]
pub enum Backend {
    Kernel,
    Userspace,
}

/// The ordered runtime states of one tunnel interface. Transitions only
/// advance on success; a mid-sequence failure freezes the state at the last
/// completed stage for retry on the next pass.
#[derive(Clone, Copy, PartialEq, Eq, Structural, Debug)]
pub enum RuntimeState {
    Down,
    DeviceConfigured,
    AddressAssigned,
    Routed,
    Up,
}

impl RuntimeState {
    /// Position of a state in the convergence order.
    pub open spec fn rank(self) -> int {
        match self {
            RuntimeState::Down => 0,
            RuntimeState::DeviceConfigured => 1,
            RuntimeState::AddressAssigned => 2,
            RuntimeState::Routed => 3,
            RuntimeState::Up => 4,
        }
    }

    /// The stage reached when the pending sub-step of this state succeeds.
    pub open spec fn next(self) -> RuntimeState {
        match self {
            RuntimeState::Down => RuntimeState::DeviceConfigured,
            RuntimeState::DeviceConfigured => RuntimeState::AddressAssigned,
            RuntimeState::AddressAssigned => RuntimeState::Routed,
            RuntimeState::Routed => RuntimeState::Up,
            RuntimeState::Up => RuntimeState::Up,
        }
    }
}

/// One tracked runtime peer.
#[derive(Debug, PartialEq)]
pub struct Peer {
    pub config: PeerConfig,
}

/// The device-level descriptor of one peer: decoded keys and plain values,
/// ready to hand to the device driver.
#[derive(Debug, PartialEq)]
pub struct DevicePeerPlan {
    pub public_key: Vec<u8>,
    pub endpoint: Option<crate::addr::Endpoint>,
    pub preshared_key: Option<Vec<u8>>,
    pub persistent_keepalive: Option<u16>,
    pub allowed_ips: Vec<Cidr>,
}

/// One atomic replace-all device update: private key, listen port, and the
/// full peer set. Peers absent from the plan are implicitly removed.
#[derive(Debug, PartialEq)]
pub struct DevicePlan {
    pub private_key: Vec<u8>,
    pub listen_port: Option<u16>,
    pub peers: Vec<DevicePeerPlan>,
}

/// The plan's peer descriptor carries exactly the configured peer: keys
/// decoded from their base64 text, everything else unchanged.
pub open spec fn peer_plan_matches(pp: DevicePeerPlan, pc: PeerConfigView) -> bool {
    &&& pp.public_key@.len() == 32
    &&& pc.public_key == base64_of(pp.public_key@)
    &&& pp.endpoint == pc.endpoint
    &&& pp.persistent_keepalive == pc.persistent_keepalive
    &&& pp.allowed_ips@ == pc.allowed_ips
    &&& match (pp.preshared_key, pc.preshared_key) {
        (Option::None, Option::None) => true,
        (Option::Some(k), Option::Some(t)) => k@.len() == 32 && t == base64_of(k@),
        _ => false,
    }
}

/// The plan carries exactly the configured interface.
pub open spec fn plan_matches(p: DevicePlan, c: InterfaceConfigView) -> bool {
    &&& p.private_key@.len() == 32
    &&& c.private_key == base64_of(p.private_key@)
    &&& p.listen_port == c.listen_port
    &&& p.peers@.len() == c.peers.len()
    &&& forall|i: int|
        0 <= i < c.peers.len() ==> peer_plan_matches(#[trigger] p.peers@[i], c.peers[i].peer)
}

/// Every key text of the configuration encodes a 32-byte key.
pub open spec fn valid_keys(c: InterfaceConfigView) -> bool {
    &&& is_key_text(c.private_key)
    &&& forall|i: int|
        0 <= i < c.peers.len() ==> is_key_text((#[trigger] c.peers[i]).peer.public_key)
    &&& forall|i: int|
        0 <= i < c.peers.len() ==> match (#[trigger] c.peers[i]).peer.preshared_key {
            Option::Some(k) => is_key_text(k),
            Option::None => true,
        }
}

/// Build the replace-all device update from the desired configuration,
/// decoding every key. A key that is not the encoding of 32 bytes fails
/// the device-configuration step.
pub fn build_device_plan(config: &InterfaceConfig) -> (r: Result<DevicePlan, ApplyError>)
    ensures
        r matches Ok(p) ==> plan_matches(p, config@),
        valid_keys(config@) ==> r is Ok,
        r is Err ==> r == Err::<DevicePlan, _>(ApplyError::BadConfig(ConfigError::BadEncoding)),
{
    let private_key = match decode_key(&config.private_key) {
        Ok(k) => k,
        Err(_) => {
            proof {
                if valid_keys(config@) {
                    assert(is_key_text(config@.private_key));
                    assert(config@.private_key == config.private_key@);
                }
            }
            return Err(ApplyError::BadConfig(ConfigError::BadEncoding));
        },
    };
    let mut peers: Vec<DevicePeerPlan> = Vec::new();
    let mut i: usize = 0;
    while i < config.peers.len()
        invariant
            i <= config.peers@.len(),
            peers@.len() == i,
            config@.peers.len() == config.peers@.len(),
            forall|k: int|
                0 <= k < config.peers@.len() ==> #[trigger] config@.peers[k] == config.peers@[k]@,
            forall|k: int|
                0 <= k < i ==> peer_plan_matches(#[trigger] peers@[k], config@.peers[k].peer),
        decreases config.peers@.len() - i,
    {
        let entry = &config.peers[i];
        let public_key = match decode_key(&entry.peer.public_key) {
            Ok(k) => k,
            Err(_) => {
                proof {
                    if valid_keys(config@) {
                        assert(is_key_text(config@.peers[i as int].peer.public_key));
                    }
                }
                return Err(ApplyError::BadConfig(ConfigError::BadEncoding));
            },
        };
        let preshared_key = match &entry.peer.preshared_key {
            Some(t) => {
                match decode_key(t) {
                    Ok(k) => Some(k),
                    Err(_) => {
                        proof {
                            if valid_keys(config@) {
                                assert(match config@.peers[i as int].peer.preshared_key {
                                    Option::Some(k) => is_key_text(k),
                                    Option::None => true,
                                });
                            }
                        }
                        return Err(ApplyError::BadConfig(ConfigError::BadEncoding));
                    },
                }
            },
            None => None,
        };
        let plan = DevicePeerPlan {
            public_key,
            endpoint: entry.peer.endpoint,
            preshared_key,
            persistent_keepalive: entry.peer.persistent_keepalive,
            allowed_ips: crate::config::copy_cidrs(&entry.peer.allowed_ips),
        };
        assert(peer_plan_matches(plan, config@.peers[i as int].peer));
        peers.push(plan);
        i = i + 1;
    }
    Ok(DevicePlan { private_key, listen_port: config.listen_port, peers })
}

// ---------------------------------------------------------------------------
// Range bookkeeping: deduplicated application of addresses and routes.
// ---------------------------------------------------------------------------

pub open spec fn distinct_cidrs(s: Seq<Cidr>) -> bool {
    forall|i: int, j: int| 0 <= i < j < s.len() ==> s[i] != s[j]
}

fn cidr_in(v: &Vec<Cidr>, c: Cidr) -> (r: bool)
    ensures
        r == v@.contains(c),
{
    let mut i: usize = 0;
    while i < v.len()
        invariant
            i <= v@.len(),
            forall|j: int| 0 <= j < i ==> v@[j] != c,
        decreases v@.len() - i,
    {
        if v[i] == c {
            return true;
        }
        i = i + 1;
    }
    false
}

/// The ranges still missing: wanted but not yet applied, without
/// duplicates. This is the deduplication that keeps repeated convergence
/// passes from appending the same address or route twice.
fn missing_of(applied: &Vec<Cidr>, wanted: &Vec<Cidr>) -> (r: Vec<Cidr>)
    ensures
        distinct_cidrs(r@),
        forall|c: Cidr|
            #[trigger] r@.contains(c) <==> (wanted@.contains(c) && !applied@.contains(c)),
{
    let mut r: Vec<Cidr> = Vec::new();
    let mut i: usize = 0;
    assert(forall|c: Cidr| !(#[trigger] wanted@.take(0).contains(c)));
    while i < wanted.len()
        invariant
            i <= wanted@.len(),
            distinct_cidrs(r@),
            forall|c: Cidr|
                #[trigger] r@.contains(c) <==> (wanted@.take(i as int).contains(c)
                    && !applied@.contains(c)),
        decreases wanted@.len() - i,
    {
        let w = wanted[i];
        let in_applied = cidr_in(applied, w);
        let in_r = cidr_in(&r, w);
        let ghost r_old = r@;
        if !in_applied && !in_r {
            r.push(w);
        }
        i = i + 1;
        proof {
            assert(wanted@.take(i as int) =~= wanted@.take(i - 1).push(wanted@[i - 1]));
            assert forall|c: Cidr| #[trigger] wanted@.take(i as int).contains(c) <==> (wanted@.take(
                i - 1,
            ).contains(c) || c == wanted@[i - 1]) by {
                lemma_contains_push(wanted@.take(i - 1), wanted@[i - 1], c);
            }
            if !in_applied && !in_r {
                assert forall|c: Cidr| #[trigger] r@.contains(c) <==> (r_old.contains(c) || c
                    == wanted@[i - 1]) by {
                    lemma_contains_push(r_old, wanted@[i - 1], c);
                }
                assert(distinct_cidrs(r@)) by {
                    assert(forall|k: int| 0 <= k < r_old.len() ==> #[trigger] r@[k] == r_old[k]);
                    assert(r@[r_old.len() as int] == wanted@[i - 1]);
                    assert(forall|k: int|
                        0 <= k < r_old.len() ==> #[trigger] r_old[k] != wanted@[i - 1]) by {
                        assert(!r_old.contains(wanted@[i - 1]));
                    }
                }
            }
        }
    }
    assert(wanted@.take(wanted@.len() as int) =~= wanted@);
    r
}

proof fn lemma_contains_push(s: Seq<Cidr>, x: Cidr, c: Cidr)
    ensures
        s.push(x).contains(c) <==> (s.contains(c) || c == x),
{
    if s.push(x).contains(c) {
        let i = choose|i: int| 0 <= i < s.push(x).len() && s.push(x)[i] == c;
        if i < s.len() {
            assert(s[i] == c);
        }
    }
    if s.contains(c) {
        let i = choose|i: int| 0 <= i < s.len() && s[i] == c;
        assert(s.push(x)[i] == c);
    }
    if c == x {
        assert(s.push(x)[s.len() as int] == c);
    }
}

/// Merge the wanted ranges into the applied set, keeping it duplicate-free.
fn merge_into(applied: &mut Vec<Cidr>, wanted: &Vec<Cidr>)
    requires
        distinct_cidrs(old(applied)@),
    ensures
        distinct_cidrs(final(applied)@),
        forall|c: Cidr|
            #[trigger] final(applied)@.contains(c) <==> (old(applied)@.contains(c)
                || wanted@.contains(c)),
{
    let mut i: usize = 0;
    assert(forall|c: Cidr| !(#[trigger] wanted@.take(0).contains(c)));
    while i < wanted.len()
        invariant
            i <= wanted@.len(),
            distinct_cidrs(applied@),
            forall|c: Cidr|
                #[trigger] applied@.contains(c) <==> (old(applied)@.contains(c) || wanted@.take(
                    i as int,
                ).contains(c)),
        decreases wanted@.len() - i,
    {
        let w = wanted[i];
        let present = cidr_in(applied, w);
        let ghost a_old = applied@;
        if !present {
            applied.push(w);
        }
        i = i + 1;
        proof {
            assert(wanted@.take(i as int) =~= wanted@.take(i - 1).push(wanted@[i - 1]));
            assert forall|c: Cidr| #[trigger] wanted@.take(i as int).contains(c) <==> (wanted@.take(
                i - 1,
            ).contains(c) || c == wanted@[i - 1]) by {
                lemma_contains_push(wanted@.take(i - 1), wanted@[i - 1], c);
            }
            if !present {
                assert forall|c: Cidr| #[trigger] applied@.contains(c) <==> (a_old.contains(c) || c
                    == wanted@[i - 1]) by {
                    lemma_contains_push(a_old, wanted@[i - 1], c);
                }
                assert(distinct_cidrs(applied@)) by {
                    assert(forall|k: int|
                        0 <= k < a_old.len() ==> #[trigger] applied@[k] == a_old[k]);
                    assert(applied@[a_old.len() as int] == wanted@[i - 1]);
                    assert(forall|k: int|
                        0 <= k < a_old.len() ==> #[trigger] a_old[k] != wanted@[i - 1]) by {
                        assert(!a_old.contains(wanted@[i - 1]));
                    }
                }
            }
        }
    }
    assert(wanted@.take(wanted@.len() as int) =~= wanted@);
}

// ---------------------------------------------------------------------------
// The interface state machine.
// ---------------------------------------------------------------------------

/// One sub-step of the convergence sequence, in execution order: replace
/// the device configuration, assign the missing addresses, install the
/// missing routes, then bring the link up with its MTU.
#[derive(Debug, PartialEq)]
pub enum UpAction {
    ConfigureDevice(DevicePlan),
    AssignAddresses(Vec<Cidr>),
    AddRoutes(Vec<Cidr>),
    BringLinkUp { mtu: u32 },
}

/// One teardown step, in reverse order of acquisition.
#[derive(Debug, PartialEq)]
pub enum DownAction {
    RemoveRoutes(Vec<Cidr>),
    RemoveAddresses(Vec<Cidr>),
    ClearDevice,
}

/// The MTU to program: the configured value, or 1420 when unset.
pub open spec fn mtu_or_default(mtu: Option<u32>) -> u32 {
    match mtu {
        Option::Some(m) => m,
        Option::None => 1420,
    }
}

/// One tunnel interface: its desired configuration, its runtime state, and
/// the address/route ranges already applied to the OS. One writer at a time
/// may drive an interface; the driver performs each `UpAction` or
/// `DownAction` against the OS and reports the outcome back.
pub struct Interface {
    pub config: InterfaceConfig,
    pub state: RuntimeState,
    pub applied_addrs: Vec<Cidr>,
    pub applied_routes: Vec<Cidr>,
    pub backend: Backend,
}

impl Interface {
    /// The applied sets never hold duplicates.
    pub open spec fn wf(self) -> bool {
        distinct_cidrs(self.applied_addrs@) && distinct_cidrs(self.applied_routes@)
    }

    pub fn new(config: &InterfaceConfig, backend: Backend) -> (r: Self)
        ensures
            r.config@ == config@,
            r.state == RuntimeState::Down,
            r.applied_addrs@.len() == 0,
            r.applied_routes@.len() == 0,
            r.backend == backend,
            r.wf(),
    {
        Interface {
            config: config.duplicate(),
            state: RuntimeState::Down,
            applied_addrs: Vec::new(),
            applied_routes: Vec::new(),
            backend,
        }
    }

    /// The next convergence sub-step, if any: what a driver must perform
    /// before reporting back through `up_step`. An interface that is `Up`
    /// has nothing left to do. Address and route steps carry only the
    /// ranges not yet applied, so repeated calls never append duplicates.
    pub fn up_next(&self) -> (r: Result<Option<UpAction>, ApplyError>)
        ensures
            self.state == RuntimeState::Up ==> r == Ok::<Option<UpAction>, ApplyError>(
                Option::None,
            ),
            self.state == RuntimeState::Down ==> {
                &&& valid_keys(self.config@) ==> r is Ok
                &&& (r matches Ok(a) ==> (a matches Some(act) && act matches
                    UpAction::ConfigureDevice(p) && plan_matches(p, self.config@)))
                &&& (r is Err ==> r == Err::<Option<UpAction>, _>(
                    ApplyError::BadConfig(ConfigError::BadEncoding),
                ))
            },
            self.state == RuntimeState::DeviceConfigured ==> (r matches Ok(a) && a matches Some(
                act,
            ) && act matches UpAction::AssignAddresses(v) && distinct_cidrs(v@) && (forall|c: Cidr|
                #[trigger] v@.contains(c) <==> (self.config@.addrs.contains(c)
                    && !self.applied_addrs@.contains(c)))),
            self.state == RuntimeState::AddressAssigned ==> (r matches Ok(a) && a matches Some(
                act,
            ) && act matches UpAction::AddRoutes(v) && distinct_cidrs(v@) && (forall|c: Cidr|
                #[trigger] v@.contains(c) <==> (self.config@.addrs.contains(c)
                    && !self.applied_routes@.contains(c)))),
            self.state == RuntimeState::Routed ==> (r matches Ok(a) && a matches Some(act)
                && act matches UpAction::BringLinkUp { mtu } && mtu == mtu_or_default(
                self.config@.mtu,
            )),
    {
        match self.state {
            RuntimeState::Down => {
                match build_device_plan(&self.config) {
                    Ok(p) => Ok(Some(UpAction::ConfigureDevice(p))),
                    Err(e) => Err(e),
                }
            },
            RuntimeState::DeviceConfigured => {
                let v = missing_of(&self.applied_addrs, &self.config.addrs);
                assert(self.config@.addrs == self.config.addrs@);
                Ok(Some(UpAction::AssignAddresses(v)))
            },
            RuntimeState::AddressAssigned => {
                let v = missing_of(&self.applied_routes, &self.config.addrs);
                assert(self.config@.addrs == self.config.addrs@);
                Ok(Some(UpAction::AddRoutes(v)))
            },
            RuntimeState::Routed => {
                let mtu = match self.config.mtu {
                    Some(m) => m,
                    None => 1420,
                };
                Ok(Some(UpAction::BringLinkUp { mtu }))
            },
            RuntimeState::Up => Ok(None),
        }
    }

    /// Record the outcome of the pending sub-step. Success advances the
    /// state by exactly one stage and (for address/route steps) marks the
    /// configured ranges applied; failure leaves the interface exactly as
    /// it was, frozen at the last completed stage.
    pub fn up_step(&mut self, succeeded: bool)
        requires
            old(self).state != RuntimeState::Up,
            old(self).wf(),
        ensures
            final(self).config == old(self).config,
            final(self).backend == old(self).backend,
            final(self).wf(),
            !succeeded ==> *final(self) == *old(self),
            succeeded ==> final(self).state == old(self).state.next(),
            succeeded && old(self).state == RuntimeState::DeviceConfigured ==> (forall|c: Cidr|
                #[trigger] final(self).applied_addrs@.contains(c) <==> (old(self).applied_addrs@.contains(c) || old(self).config@.addrs.contains(c))) && final(self).applied_routes == old(self).applied_routes,
            succeeded && old(self).state == RuntimeState::AddressAssigned ==> (forall|c: Cidr|
                #[trigger] final(self).applied_routes@.contains(c) <==> (old(self).applied_routes@.contains(c) || old(self).config@.addrs.contains(c))) && final(self).applied_addrs == old(self).applied_addrs,
            succeeded && old(self).state != RuntimeState::DeviceConfigured && old(self).state
                != RuntimeState::AddressAssigned ==> final(self).applied_addrs == old(self).applied_addrs && final(self).applied_routes == old(self).applied_routes,
    {
        if !succeeded {
            return ;
        }
        match self.state {
            RuntimeState::Down => {
                self.state = RuntimeState::DeviceConfigured;
            },
            RuntimeState::DeviceConfigured => {
                merge_into(&mut self.applied_addrs, &self.config.addrs);
                assert(self.config@.addrs == self.config.addrs@);
                self.state = RuntimeState::AddressAssigned;
            },
            RuntimeState::AddressAssigned => {
                merge_into(&mut self.applied_routes, &self.config.addrs);
                assert(self.config@.addrs == self.config.addrs@);
                self.state = RuntimeState::Routed;
            },
            RuntimeState::Routed => {
                self.state = RuntimeState::Up;
            },
            RuntimeState::Up => {
                proof {
                    assert(false);
                }
            },
        }
    }

    /// The teardown plan, releasing resources in reverse order: routes,
    /// then addresses, then the device keys. On an interface that is
    /// already `Down` the plan is empty: success with no OS or device call.
    pub fn down(&self) -> (r: Vec<DownAction>)
        ensures
            self.state == RuntimeState::Down ==> r@.len() == 0,
            self.state != RuntimeState::Down ==> r@.len() == 3 && (r@[0] matches
                DownAction::RemoveRoutes(v) && v@ == self.applied_routes@) && (r@[1] matches
                DownAction::RemoveAddresses(v) && v@ == self.applied_addrs@) && (r@[2] is
                ClearDevice),
    {
        let mut r: Vec<DownAction> = Vec::new();
        match self.state {
            RuntimeState::Down => r,
            _ => {
                r.push(DownAction::RemoveRoutes(crate::config::copy_cidrs(&self.applied_routes)));
                r.push(
                    DownAction::RemoveAddresses(crate::config::copy_cidrs(&self.applied_addrs)),
                );
                r.push(DownAction::ClearDevice);
                r
            },
        }
    }

    /// Record a fully performed teardown: the interface is `Down` and no
    /// applied ranges remain.
    pub fn down_complete(&mut self)
        ensures
            final(self).config == old(self).config,
            final(self).backend == old(self).backend,
            final(self).state == RuntimeState::Down,
            final(self).applied_addrs@.len() == 0,
            final(self).applied_routes@.len() == 0,
            final(self).wf(),
    {
        self.state = RuntimeState::Down;
        self.applied_addrs = Vec::new();
        self.applied_routes = Vec::new();
    }

    /// Fieldwise sameness up to reallocation of the byte buffers.
    pub open spec fn like(self, other: Interface) -> bool {
        &&& self.config@ == other.config@
        &&& self.state == other.state
        &&& self.applied_addrs@ == other.applied_addrs@
        &&& self.applied_routes@ == other.applied_routes@
        &&& self.backend == other.backend
    }

    pub fn duplicate(&self) -> (r: Self)
        ensures
            r.like(*self),
    {
        Interface {
            config: self.config.duplicate(),
            state: self.state,
            applied_addrs: crate::config::copy_cidrs(&self.applied_addrs),
            applied_routes: crate::config::copy_cidrs(&self.applied_routes),
            backend: self.backend,
        }
    }

    /// Replace the desired configuration wholesale (never field-patched)
    /// and restart the convergence sequence. The applied sets are kept, so
    /// the next pass deduplicates against what the OS already has.
    pub fn resync(&mut self, config: InterfaceConfig)
        ensures
            final(self).config == config,
            final(self).state == RuntimeState::Down,
            final(self).applied_addrs == old(self).applied_addrs,
            final(self).applied_routes == old(self).applied_routes,
            final(self).backend == old(self).backend,
            old(self).wf() ==> final(self).wf(),
    {
        self.config = config;
        self.state = RuntimeState::Down;
    }
}

// ---------------------------------------------------------------------------
// The convergence order as a whole.
// ---------------------------------------------------------------------------

/// The state after one reported sub-step outcome.
pub open spec fn step_state(s: RuntimeState, ok: bool) -> RuntimeState {
    if ok {
        s.next()
    } else {
        s
    }
}

/// The state after a whole sequence of reported outcomes.
pub open spec fn run_up_steps(s: RuntimeState, oks: Seq<bool>) -> RuntimeState
    decreases oks.len(),
{
    if oks.len() == 0 {
        s
    } else {
        run_up_steps(step_state(s, oks[0]), oks.drop_first())
    }
}

pub open spec fn count_true(oks: Seq<bool>) -> int
    decreases oks.len(),
{
    if oks.len() == 0 {
        0int
    } else {
        (if oks[0] {
            1int
        } else {
            0int
        }) + count_true(oks.drop_first())
    }
}

/// Law: for any sequence of sub-step outcomes, the runtime state advances
/// monotonically through the convergence order, and it never advances past
/// the number of successfully completed sub-steps: a failure at any step
/// leaves the state at the highest previously completed stage.
pub proof fn lemma_up_steps_monotonic(s: RuntimeState, oks: Seq<bool>)
    ensures
        0 <= count_true(oks),
        run_up_steps(s, oks).rank() >= s.rank(),
        run_up_steps(s, oks).rank() <= s.rank() + count_true(oks),
    decreases oks.len(),
{
    if oks.len() > 0 {
        lemma_up_steps_monotonic(step_state(s, oks[0]), oks.drop_first());
    }
}

} // verus!

use vstd::prelude::*;

use crate::addr::endpoint_text;
use crate::addr::format_endpoint;
use crate::bytes::{bytes_eq, copy_bytes, lower, to_lower};
use crate::config::{ClientConfig, InterfaceConfig, InviteConfig};
use crate::iface::{Backend, Interface, RuntimeState};

verus! {

/// The node-process states.
#[derive(Clone, Copy, PartialEq, Eq, Structural, Debug)]
pub enum NodeState {
    Starting,
    Running,
    Exiting,
    Stopped,
}

/// The operating system the node runs on, fixed at start time.
#[derive(Clone, Copy, PartialEq, Eq, Structural, Debug)]
pub enum OsKind {
    Linux,
    MacOs,
    Windows,
}

/// The stage at which a logged per-interface failure happened.
#[derive(Clone, Copy, PartialEq, Eq, Structural, Debug)]
pub enum FailStage {
    Startup,
    Sync,
    Teardown,
}

/// One observable failure record: interface name and failing stage.
/// Nothing fails silently; the driver prints these.
#[derive(Debug, PartialEq)]
pub struct LogRecord {
    pub iface_name: Vec<u8>,
    pub stage: FailStage,
}

pub struct LogRecordView {
    pub iface_name: Seq<u8>,
    pub stage: FailStage,
}

impl View for LogRecord {
    type V = LogRecordView;

    open spec fn view(&self) -> LogRecordView {
        LogRecordView { iface_name: self.iface_name@, stage: self.stage }
    }
}

pub open spec fn logs_view(s: Seq<LogRecord>) -> Seq<LogRecordView> {
    s.map_values(|r: LogRecord| r@)
}

/// What fetching desired state for one interface came back with.
#[derive(Debug, PartialEq)]
pub enum SyncOutcome {
    /// The coordinator answered with the authoritative configuration.
    Updated(InterfaceConfig),
    /// The fetch failed; the interface keeps its configuration and state.
    Failed,
}

pub open spec fn kernel_text() -> Seq<u8> {
    seq![107u8, 101u8, 114u8, 110u8, 101u8, 108u8]
}

pub open spec fn userspace_text() -> Seq<u8> {
    seq![117u8, 115u8, 101u8, 114u8, 115u8, 112u8, 97u8, 99u8, 101u8]
}

/// Select the device backend from the configured name, case-insensitively.
/// An unrecognized name falls back, with a warning (the returned flag), to
/// the most portable backend of the running OS; a backend unavailable on
/// the OS is replaced the same way.
pub fn choose_backend(os: OsKind, requested: &Vec<u8>) -> (r: (Backend, bool))
    ensures
        os == OsKind::Linux ==> r == (if lower(requested@) == kernel_text() {
            (Backend::Kernel, false)
        } else if lower(requested@) == userspace_text() {
            (Backend::Userspace, false)
        } else {
            (Backend::Kernel, true)
        }),
        os != OsKind::Linux ==> r == (if lower(requested@) == userspace_text() {
            (Backend::Userspace, false)
        } else {
            (Backend::Userspace, true)
        }),
{
    let lowered = to_lower(requested);
    let kernel: Vec<u8> = vec![107u8, 101u8, 114u8, 110u8, 101u8, 108u8];
    let userspace: Vec<u8> = vec![117u8, 115u8, 101u8, 114u8, 115u8, 112u8, 97u8, 99u8, 101u8];
    assert(kernel@ =~= kernel_text());
    assert(userspace@ =~= userspace_text());
    match os {
        OsKind::Linux => {
            if bytes_eq(&lowered, &kernel) {
                (Backend::Kernel, false)
            } else if bytes_eq(&lowered, &userspace) {
                (Backend::Userspace, false)
            } else {
                (Backend::Kernel, true)
            }
        },
        _ => {
            if bytes_eq(&lowered, &userspace) {
                (Backend::Userspace, false)
            } else {
                (Backend::Userspace, true)
            }
        },
    }
}

/// "I'm " followed by the invite key: the liveness-probe message.
pub open spec fn ping_text(key: Seq<u8>) -> Seq<u8> {
    seq![73u8, 39u8, 109u8, 32u8] + key
}

pub fn make_ping_msg(key: &Vec<u8>) -> (r: Vec<u8>)
    ensures
        r@ == ping_text(key@),
{
    let mut r: Vec<u8> = vec![73u8, 39u8, 109u8, 32u8];
    let mut i: usize = 0;
    while i < key.len()
        invariant
            i <= key@.len(),
            r@ == seq![73u8, 39u8, 109u8, 32u8] + key@.take(i as int),
        decreases key@.len() - i,
    {
        r.push(key[i]);
        i = i + 1;
        assert(r@ =~= seq![73u8, 39u8, 109u8, 32u8] + key@.take(i as int));
    }
    assert(r@ =~= ping_text(key@));
    r
}

/// "Hi " remote ", I'm server": the coordinator's echo.
pub open spec fn ping_reply_text(remote: Seq<u8>) -> Seq<u8> {
    seq![72u8, 105u8, 32u8] + remote + seq![
        44u8,
        32u8,
        73u8,
        39u8,
        109u8,
        32u8,
        115u8,
        101u8,
        114u8,
        118u8,
        101u8,
        114u8,
    ]
}

pub fn make_ping_reply(remote: &Vec<u8>) -> (r: Vec<u8>)
    ensures
        r@ == ping_reply_text(remote@),
{
    let mut r: Vec<u8> = vec![72u8, 105u8, 32u8];
    let mut i: usize = 0;
    while i < remote.len()
        invariant
            i <= remote@.len(),
            r@ == seq![72u8, 105u8, 32u8] + remote@.take(i as int),
        decreases remote@.len() - i,
    {
        r.push(remote[i]);
        i = i + 1;
        assert(r@ =~= seq![72u8, 105u8, 32u8] + remote@.take(i as int));
    }
    let tail: Vec<u8> = vec![
        44u8,
        32u8,
        73u8,
        39u8,
        109u8,
        32u8,
        115u8,
        101u8,
        114u8,
        118u8,
        101u8,
        114u8,
    ];
    let ghost mid = r@;
    let mut j: usize = 0;
    while j < tail.len()
        invariant
            j <= tail@.len(),
            r@ == mid + tail@.take(j as int),
        decreases tail@.len() - j,
    {
        r.push(tail[j]);
        j = j + 1;
        assert(r@ =~= mid + tail@.take(j as int));
    }
    assert(r@ =~= ping_reply_text(remote@));
    r
}

// ---------------------------------------------------------------------------
// The per-node reconciliation orchestrator.
// ---------------------------------------------------------------------------

pub open spec fn distinct_iface_names(s: Seq<Interface>) -> bool {
    forall|i: int, j: int|
        0 <= i < j < s.len() ==> (#[trigger] s[i]).config.name@ != (#[trigger] s[j]).config.name@
}

pub open spec fn distinct_config_names(s: Seq<InterfaceConfig>) -> bool {
    forall|i: int, j: int|
        0 <= i < j < s.len() ==> (#[trigger] s[i]).name@ != (#[trigger] s[j]).name@
}

/// The failure records of one sync pass over the first `n` interfaces:
/// one record, in pass order, for each interface whose fetch failed.
pub open spec fn sync_fail_logs(ifs: Seq<Interface>, outs: Seq<SyncOutcome>, n: int) -> Seq<
    LogRecordView,
>
    decreases n,
{
    if n <= 0 {
        Seq::empty()
    } else {
        sync_fail_logs(ifs, outs, n - 1) + (if outs[n - 1] is Failed {
            seq![
                LogRecordView { iface_name: ifs[n - 1].config.name@, stage: FailStage::Sync },
            ]
        } else {
            Seq::empty()
        })
    }
}

/// Law: when exactly one interface of a pass fails to sync, the pass logs
/// exactly one record, naming that interface, and no other.
pub proof fn lemma_pass_isolates_failure(ifs: Seq<Interface>, outs: Seq<SyncOutcome>, k: int, n: int)
    requires
        0 <= k < n,
        outs[k] is Failed,
        forall|j: int| 0 <= j < n && j != k ==> !((#[trigger] outs[j]) is Failed),
    ensures
        sync_fail_logs(ifs, outs, n) == seq![
            LogRecordView { iface_name: ifs[k].config.name@, stage: FailStage::Sync },
        ],
    decreases n,
{
    if n - 1 == k {
        lemma_sync_fail_logs_all_ok(ifs, outs, k);
        assert(sync_fail_logs(ifs, outs, k) =~= Seq::empty());
        assert(sync_fail_logs(ifs, outs, n) =~= seq![
            LogRecordView { iface_name: ifs[k].config.name@, stage: FailStage::Sync },
        ]);
    } else {
        lemma_pass_isolates_failure(ifs, outs, k, n - 1);
        assert(sync_fail_logs(ifs, outs, n) =~= seq![
            LogRecordView { iface_name: ifs[k].config.name@, stage: FailStage::Sync },
        ]);
    }
}

/// A pass whose first `n` fetches all succeed logs nothing.
pub proof fn lemma_sync_fail_logs_all_ok(ifs: Seq<Interface>, outs: Seq<SyncOutcome>, n: int)
    requires
        forall|j: int| 0 <= j < n ==> !((#[trigger] outs[j]) is Failed),
    ensures
        sync_fail_logs(ifs, outs, n).len() == 0,
    decreases n,
{
    if n > 0 {
        lemma_sync_fail_logs_all_ok(ifs, outs, n - 1);
    }
}

/// The per-node orchestrator: local configuration, the tracked interface
/// set (names unique), and the process state. Remote calls and the
/// inter-pass sleep belong to the driver; this type makes every decision.
pub struct Client {
    pub config: ClientConfig,
    pub ifaces: Vec<Interface>,
    pub state: NodeState,
}

impl Client {
    /// Tracked interface names are unique and every interface is well
    /// formed.
    pub open spec fn wf(self) -> bool {
        &&& distinct_iface_names(self.ifaces@)
        &&& forall|i: int| 0 <= i < self.ifaces@.len() ==> (#[trigger] self.ifaces@[i]).wf()
    }

    pub fn new(config: ClientConfig) -> (r: Self)
        ensures
            r.config == config,
            r.ifaces@.len() == 0,
            r.state == NodeState::Starting,
            r.wf(),
    {
        Client { config, ifaces: Vec::new(), state: NodeState::Starting }
    }

    /// Replace the tracked set with the interfaces the coordinator returned
    /// for a redeemed invite. One local bootstrap may fan out to many
    /// interfaces; the bootstrap interface itself is not tracked. Every
    /// adopted interface starts `Down`, awaiting the first convergence
    /// pass. A duplicated name in the response keeps its last occurrence.
    #[verifier::rlimit(50)]
    pub fn redeem_invite(&mut self, invite: &InviteConfig, backend: Backend, response: Vec<
        InterfaceConfig,
    >)
        requires
            old(self).state == NodeState::Starting,
        ensures
            final(self).state == NodeState::Starting,
            final(self).config == old(self).config,
            final(self).wf(),
            // every tracked interface came from the response, starts Down,
            // and has nothing applied yet
            forall|i: int|
                0 <= i < final(self).ifaces@.len() ==> (exists|j: int|
                    0 <= j < response@.len() && (#[trigger] final(self).ifaces@[i]).config@
                        == response@[j]@),
            forall|i: int|
                0 <= i < final(self).ifaces@.len() ==> (#[trigger] final(self).ifaces@[i]).state
                    == RuntimeState::Down && final(self).ifaces@[i].backend == backend && final(self).ifaces@[i].applied_addrs@.len() == 0 && final(self).ifaces@[i].applied_routes@
                    .len() == 0,
            // every response name is tracked
            forall|j: int|
                0 <= j < response@.len() ==> (exists|i: int|
                    0 <= i < final(self).ifaces@.len() && final(self).ifaces@[i].config.name@ == (
                    #[trigger] response@[j]).name@),
            // without duplicate names the adoption is exact and in order
            distinct_config_names(response@) ==> final(self).ifaces@.len() == response@.len()
                && (forall|j: int|
                0 <= j < response@.len() ==> (#[trigger] final(self).ifaces@[j]).config@
                    == response@[j]@),
            // the bootstrap interface is no longer tracked, unless the
            // coordinator returned its name among the new set
            (forall|j: int|
                0 <= j < response@.len() ==> (#[trigger] response@[j]).name@
                    != invite.iface_config.name@) ==> (forall|i: int|
                0 <= i < final(self).ifaces@.len() ==> (#[trigger] final(self).ifaces@[i]).config
                    .name@ != invite.iface_config.name@),
    {
        let mut fresh: Vec<Interface> = Vec::new();
        let mut j: usize = 0;
        while j < response.len()
            invariant
                j <= response@.len(),
                distinct_iface_names(fresh@),
                forall|i: int| 0 <= i < fresh@.len() ==> (#[trigger] fresh@[i]).wf(),
                forall|i: int|
                    0 <= i < fresh@.len() ==> (exists|j2: int|
                        0 <= j2 < j && (#[trigger] fresh@[i]).config@ == response@[j2]@),
                forall|i: int|
                    0 <= i < fresh@.len() ==> (#[trigger] fresh@[i]).state == RuntimeState::Down
                        && fresh@[i].backend == backend && fresh@[i].applied_addrs@.len() == 0
                        && fresh@[i].applied_routes@.len() == 0,
                forall|j2: int|
                    0 <= j2 < j ==> (exists|i: int|
                        0 <= i < fresh@.len() && fresh@[i].config.name@ == (
                        #[trigger] response@[j2]).name@),
                distinct_config_names(response@) ==> fresh@.len() == j && (forall|j2: int|
                    0 <= j2 < j ==> (#[trigger] fresh@[j2]).config@ == response@[j2]@),
            decreases response@.len() - j,
        {
            let cfg = &response[j];
            let made = Interface::new(cfg, backend);
            let slot = find_by_name(&fresh, &cfg.name);
            let ghost fresh_old = fresh@;
            match slot {
                Some(i) => {
                    proof {
                        if distinct_config_names(response@) {
                            let j2 = choose|j2: int|
                                0 <= j2 < j && fresh@[i as int].config@ == response@[j2]@;
                            assert(response@[j2].name@ == response@[j as int].name@);
                            assert(false);
                        }
                    }
                    fresh.set(i, made);
                    proof {
                        assert(forall|k: int|
                            0 <= k < fresh@.len() ==> (#[trigger] fresh@[k]).config.name@
                                == fresh_old[k].config.name@);
                    }
                },
                None => {
                    fresh.push(made);
                    proof {
                        assert(forall|k: int|
                            0 <= k < fresh_old.len() ==> #[trigger] fresh@[k] == fresh_old[k]);
                        assert(fresh@[fresh_old.len() as int] == made);
                    }
                },
            }
            j = j + 1;
            proof {
                assert(made.config.name@ == response@[j - 1].name@);
                assert forall|j2: int| 0 <= j2 < j implies (exists|i2: int|
                    0 <= i2 < fresh@.len() && fresh@[i2].config.name@ == (
                    #[trigger] response@[j2]).name@) by {
                    if j2 == j - 1 {
                        match slot {
                            Option::Some(i) => {
                                assert(fresh@[i as int].config.name@ == response@[j2].name@);
                            },
                            Option::None => {
                                assert(fresh@[fresh_old.len() as int].config.name@
                                    == response@[j2].name@);
                            },
                        }
                    } else {
                        let i0 = choose|i0: int|
                            0 <= i0 < fresh_old.len() && fresh_old[i0].config.name@
                                == response@[j2].name@;
                        assert(fresh@[i0].config.name@ == fresh_old[i0].config.name@);
                    }
                }
            }
        }
        self.ifaces = fresh;
    }

    /// Startup is done; the steady reconciliation loop may begin.
    pub fn begin_run(&mut self)
        requires
            old(self).state == NodeState::Starting,
        ensures
            *final(self) == (Client { state: NodeState::Running, ..*old(self) }),
    {
        self.state = NodeState::Running;
    }

    /// An exit was requested. The signal is observed only between passes.
    pub fn request_exit(&mut self)
        ensures
            *final(self) == (Client { state: NodeState::Exiting, ..*old(self) }),
    {
        self.state = NodeState::Exiting;
    }

    /// Teardown is done; the process may terminate.
    pub fn finish(&mut self)
        requires
            old(self).state == NodeState::Exiting,
        ensures
            *final(self) == (Client { state: NodeState::Stopped, ..*old(self) }),
    {
        self.state = NodeState::Stopped;
    }

    /// Apply the fetched outcomes of one steady-state pass, one interface
    /// at a time in stable order. A successful fetch replaces that
    /// interface's desired configuration wholesale and restarts its
    /// convergence; a failed fetch changes nothing for that interface, is
    /// logged, and never aborts the pass or the loop.
    pub fn run_pass(&mut self, outcomes: &Vec<SyncOutcome>) -> (logs: Vec<LogRecord>)
        requires
            old(self).state == NodeState::Running,
            outcomes@.len() == old(self).ifaces@.len(),
            forall|i: int|
                0 <= i < outcomes@.len() ==> ((#[trigger] outcomes@[i]) matches
                    SyncOutcome::Updated(cfg) ==> cfg.name@ == old(self).ifaces@[i].config.name@),
            old(self).wf(),
        ensures
            final(self).state == NodeState::Running,
            final(self).config == old(self).config,
            final(self).ifaces@.len() == old(self).ifaces@.len(),
            final(self).wf(),
            forall|i: int|
                0 <= i < outcomes@.len() ==> ((#[trigger] outcomes@[i]) matches
                    SyncOutcome::Updated(cfg) ==> final(self).ifaces@[i].config@ == cfg@
                    && final(self).ifaces@[i].state == RuntimeState::Down
                    && final(self).ifaces@[i].applied_addrs@
                        == old(self).ifaces@[i].applied_addrs@
                    && final(self).ifaces@[i].applied_routes@
                        == old(self).ifaces@[i].applied_routes@
                    && final(self).ifaces@[i].backend == old(self).ifaces@[i].backend),
            forall|i: int|
                0 <= i < outcomes@.len() ==> ((#[trigger] outcomes@[i]) is Failed ==> final(self).ifaces@[i].like(old(self).ifaces@[i])),
            logs_view(logs@) == sync_fail_logs(old(self).ifaces@, outcomes@, outcomes@.len() as int),
    {
        let mut logs: Vec<LogRecord> = Vec::new();
        let mut fresh: Vec<Interface> = Vec::new();
        let n = self.ifaces.len();
        let mut i: usize = 0;
        while i < n
            invariant
                i <= n,
                n == self.ifaces@.len(),
                self.ifaces@ == old(self).ifaces@,
                n == outcomes@.len(),
                forall|k: int|
                    0 <= k < outcomes@.len() ==> ((#[trigger] outcomes@[k]) matches
                        SyncOutcome::Updated(cfg) ==> cfg.name@ == self.ifaces@[k].config.name@),
                forall|k: int| 0 <= k < n ==> (#[trigger] self.ifaces@[k]).wf(),
                distinct_iface_names(self.ifaces@),
                fresh@.len() == i,
                forall|k: int| 0 <= k < i ==> (#[trigger] fresh@[k]).wf(),
                forall|k: int|
                    0 <= k < i ==> (#[trigger] fresh@[k]).config.name@ == self.ifaces@[k].config
                        .name@,
                forall|k: int|
                    0 <= k < i ==> ((#[trigger] outcomes@[k]) matches SyncOutcome::Updated(cfg)
                        ==> fresh@[k].config@ == cfg@ && fresh@[k].state == RuntimeState::Down
                        && fresh@[k].applied_addrs@ == self.ifaces@[k].applied_addrs@
                        && fresh@[k].applied_routes@ == self.ifaces@[k].applied_routes@
                        && fresh@[k].backend == self.ifaces@[k].backend),
                forall|k: int|
                    0 <= k < i ==> ((#[trigger] outcomes@[k]) is Failed ==> fresh@[k].like(
                        self.ifaces@[k],
                    )),
                logs_view(logs@) == sync_fail_logs(self.ifaces@, outcomes@, i as int),
            decreases n - i,
        {
            match &outcomes[i] {
                SyncOutcome::Updated(cfg) => {
                    let itf = Interface {
                        config: cfg.duplicate(),
                        state: RuntimeState::Down,
                        applied_addrs: crate::config::copy_cidrs(&self.ifaces[i].applied_addrs),
                        applied_routes: crate::config::copy_cidrs(&self.ifaces[i].applied_routes),
                        backend: self.ifaces[i].backend,
                    };
                    fresh.push(itf);
                },
                SyncOutcome::Failed => {
                    let itf = self.ifaces[i].duplicate();
                    fresh.push(itf);
                    logs.push(
                        LogRecord {
                            iface_name: crate::bytes::copy_bytes(&self.ifaces[i].config.name),
                            stage: FailStage::Sync,
                        },
                    );
                },
            }
            i = i + 1;
            assert(logs_view(logs@) =~= sync_fail_logs(self.ifaces@, outcomes@, i as int));
        }
        self.ifaces = fresh;
        assert(distinct_iface_names(self.ifaces@));
        logs
    }
}

fn find_by_name(v: &Vec<Interface>, name: &Vec<u8>) -> (r: Option<usize>)
    ensures
        r matches Some(i) ==> i < v@.len() && v@[i as int].config.name@ == name@,
        r is None ==> forall|i: int| 0 <= i < v@.len() ==> (#[trigger] v@[i]).config.name@
            != name@,
{
    let mut i: usize = 0;
    while i < v.len()
        invariant
            i <= v@.len(),
            forall|j: int| 0 <= j < i ==> (#[trigger] v@[j]).config.name@ != name@,
        decreases v@.len() - i,
    {
        if bytes_eq(&v[i].config.name, name) {
            return Some(i);
        }
        i = i + 1;
    }
    None
}


// ---------------------------------------------------------------------------
// Marshaled remote calls: the driver performs them and surfaces failures.
// ---------------------------------------------------------------------------

/// Report this node's endpoints for one interface, keyed by its key.
#[derive(Debug, PartialEq)]
pub struct PostEndpointRequest {
    pub key: Vec<u8>,
    pub internal_endpoint: Option<Vec<u8>>,
    pub external_endpoint: Option<Vec<u8>>,
}

/// Fetch the authoritative peer list for one interface, keyed by its key.
#[derive(Debug, PartialEq)]
pub struct GetPeersRequest {
    pub key: Vec<u8>,
}

impl Client {
    /// Marshal the endpoint report for one tracked interface: its key and
    /// its endpoints as canonical text. An untracked name yields nothing.
    pub fn post_endpoint(&self, name: &Vec<u8>) -> (r: Option<PostEndpointRequest>)
        ensures
            r is None ==> (forall|i: int|
                0 <= i < self.ifaces@.len() ==> (#[trigger] self.ifaces@[i]).config.name@
                    != name@),
            r matches Some(q) ==> (exists|i: int|
                0 <= i < self.ifaces@.len() && (#[trigger] self.ifaces@[i]).config.name@ == name@
                    && q.key@ == self.ifaces@[i].config.private_key@ && (match self.ifaces@[i]
                    .config.internal_endpoint {
                    Option::Some(e) => q.internal_endpoint matches Some(t) && t@ == endpoint_text(
                        e,
                    ),
                    Option::None => q.internal_endpoint is None,
                }) && (match self.ifaces@[i].config.external_endpoint {
                    Option::Some(e) => q.external_endpoint matches Some(t) && t@ == endpoint_text(
                        e,
                    ),
                    Option::None => q.external_endpoint is None,
                })),
    {
        match find_by_name(&self.ifaces, name) {
            Some(i) => {
                let cfg = &self.ifaces[i].config;
                let q = PostEndpointRequest {
                    key: copy_bytes(&cfg.private_key),
                    internal_endpoint: match cfg.internal_endpoint {
                        Some(e) => Some(format_endpoint(e)),
                        None => None,
                    },
                    external_endpoint: match cfg.external_endpoint {
                        Some(e) => Some(format_endpoint(e)),
                        None => None,
                    },
                };
                Some(q)
            },
            None => None,
        }
    }

    /// Marshal the peer fetch for one tracked interface. An untracked name
    /// yields nothing.
    pub fn update_peers(&self, name: &Vec<u8>) -> (r: Option<GetPeersRequest>)
        ensures
            r is None ==> (forall|i: int|
                0 <= i < self.ifaces@.len() ==> (#[trigger] self.ifaces@[i]).config.name@
                    != name@),
            r matches Some(q) ==> (exists|i: int|
                0 <= i < self.ifaces@.len() && (#[trigger] self.ifaces@[i]).config.name@ == name@
                    && q.key@ == self.ifaces@[i].config.private_key@),
    {
        match find_by_name(&self.ifaces, name) {
            Some(i) => Some(GetPeersRequest { key: copy_bytes(&self.ifaces[i].config.private_key) }),
            None => None,
        }
    }
}

} // verus!

//! One punch at a peer: rounds of probes over candidates and sockets, in
//! bounded batches, that stops within one probe of a change.

use vstd::arithmetic::div_mod::lemma_fundamental_div_mod_converse;
use vstd::prelude::*;
use crate::birthday_sweep::same_number;
use crate::histogram::{add_row, clamp_u32, lists, sort_rows};
use crate::net::SocketAddr;
use crate::pending::ProbeSendResult;
use crate::probe_budget::OutboundProbeAdmission;
use crate::punch_reports::{Punch, PunchSendReport};
use crate::socket_sweep::{BudgetReason, ProbeRound};

verus! {

/// Which sockets a punch uses, and how it spreads its probes over them.
#[derive(Clone, Copy, Debug, PartialEq, Eq, Structural)]
pub enum PunchSocketPolicy {
    FastPrefixPool,
    ActivePool,
    RemoteScatterPool,
    StableUniqueScatter,
    PrimaryOnly,
    RelayBackoffHeartbeat,
}

/// How much a punch may send.
#[derive(Clone, Copy, Debug)]
pub struct PunchLimits {
    pub punch_probes: u32,
    pub remote_scatter_probes: u32,
    pub heartbeat_probes: u32,
    /// Persistent rejections in a row after which the punch gives up.
    pub budget_rejections: u32,
    /// Probes sent between two looks at everything that may have changed.
    pub batch_size: usize,
}

impl PunchSocketPolicy {
    pub open spec fn spec_session_probe_cap(self, limits: PunchLimits) -> u32 {
        match self {
            Self::RemoteScatterPool | Self::StableUniqueScatter => limits.remote_scatter_probes,
            Self::FastPrefixPool | Self::ActivePool | Self::PrimaryOnly => limits.punch_probes,
            Self::RelayBackoffHeartbeat => limits.heartbeat_probes,
        }
    }

    pub fn session_probe_cap(self, limits: &PunchLimits) -> (cap: u32)
        ensures
            cap == self.spec_session_probe_cap(*limits),
    {
        match self {
            Self::RemoteScatterPool | Self::StableUniqueScatter => limits.remote_scatter_probes,
            Self::FastPrefixPool | Self::ActivePool | Self::PrimaryOnly => limits.punch_probes,
            Self::RelayBackoffHeartbeat => limits.heartbeat_probes,
        }
    }

    /// Whether a candidate is tried from every socket before the next one is.
    pub open spec fn candidate_major(self, sockets: usize) -> bool {
        sockets > 1 && (self is FastPrefixPool || self is ActivePool || self is RemoteScatterPool
            || self is RelayBackoffHeartbeat)
    }

    /// The name of the event that closes a punch.
    pub open spec fn stage_text(self, sockets: usize) -> Seq<char> {
        match self {
            Self::FastPrefixPool => "fast_prefix_pool_scan_completed"@,
            Self::ActivePool | Self::RemoteScatterPool => if sockets > 1 {
                "active_pool_scan_completed"@
            } else {
                "single_socket_scan_completed"@
            },
            Self::StableUniqueScatter => "stable_unique_scan_completed"@,
            Self::PrimaryOnly => "primary_socket_scan_completed"@,
            Self::RelayBackoffHeartbeat => "relay_backoff_heartbeat_beat_completed"@,
        }
    }

    pub fn stage(self, sockets: usize) -> (r: &'static str)
        ensures
            r@ == self.stage_text(sockets),
    {
        match self {
            Self::FastPrefixPool => "fast_prefix_pool_scan_completed",
            Self::ActivePool | Self::RemoteScatterPool => if sockets > 1 {
                "active_pool_scan_completed"
            } else {
                "single_socket_scan_completed"
            },
            Self::StableUniqueScatter => "stable_unique_scan_completed",
            Self::PrimaryOnly => "primary_socket_scan_completed",
            Self::RelayBackoffHeartbeat => "relay_backoff_heartbeat_beat_completed",
        }
    }
}

/// The probes of a round, in order: all pairs of a socket and an endpoint.
pub open spec fn probe_order(
    endpoints: Seq<SocketAddr>,
    sockets: usize,
    candidate_major: bool,
) -> Seq<(usize, SocketAddr)> {
    Seq::new(
        endpoints.len() * sockets as nat,
        |p: int|
            if candidate_major {
                ((p % sockets as int) as usize, endpoints[p / sockets as int])
            } else {
                ((p / endpoints.len() as int) as usize, endpoints[p % endpoints.len() as int])
            },
    )
}

proof fn lemma_place(outer: int, inner: int, width: int, height: int)
    requires
        0 <= inner < width,
        0 <= outer < height,
    ensures
        (outer * width + inner) / width == outer,
        (outer * width + inner) % width == inner,
        0 <= outer * width + inner < height * width,
        outer * width + inner + 1 <= (outer + 1) * width,
{
    lemma_fundamental_div_mod_converse(outer * width + inner, width, outer, inner);
    assert(0 <= outer * width && (outer + 1) * width == outer * width + width && (outer + 1)
        * width <= height * width) by (nonlinear_arith)
        requires
            0 <= inner < width,
            0 <= outer < height,
    ;
}

/// The probes of a round, in the order in which they leave.
pub fn order_probes(
    endpoints: &Vec<SocketAddr>,
    sockets: usize,
    policy: PunchSocketPolicy,
) -> (order: Vec<(usize, SocketAddr)>)
    ensures
        order@ == probe_order(endpoints@, sockets, policy.candidate_major(sockets)),
{
    let by_candidate: bool = sockets > 1 && (matches!(policy, PunchSocketPolicy::FastPrefixPool)
        || matches!(policy, PunchSocketPolicy::ActivePool) || matches!(
        policy,
        PunchSocketPolicy::RemoteScatterPool,
    ) || matches!(policy, PunchSocketPolicy::RelayBackoffHeartbeat));
    let ghost all = probe_order(endpoints@, sockets, by_candidate);
    let n: usize = endpoints.len();
    let mut order: Vec<(usize, SocketAddr)> = Vec::new();
    if by_candidate {
        let mut i: usize = 0;
        assert(0 * sockets == 0) by (nonlinear_arith);
        while i < n
            invariant
                i <= n,
                n == endpoints@.len(),
                all == probe_order(endpoints@, sockets, true),
                order@.len() == i * sockets,
                forall|p: int| 0 <= p < order@.len() ==> order@[p] == all[p],
            decreases n - i,
        {
            let mut j: usize = 0;
            while j < sockets
                invariant
                    i < n,
                    j <= sockets,
                    n == endpoints@.len(),
                    all == probe_order(endpoints@, sockets, true),
                    order@.len() == i * sockets + j,
                    forall|p: int| 0 <= p < order@.len() ==> order@[p] == all[p],
                decreases sockets - j,
            {
                proof {
                    lemma_place(i as int, j as int, sockets as int, n as int);
                }
                order.push((j, endpoints[i]));
                j += 1;
            }
            assert((i + 1) * sockets == i * sockets + sockets) by (nonlinear_arith);
            i += 1;
        }
        assert(n * sockets == i * sockets);
    } else {
        let mut i: usize = 0;
        assert(0 * n == 0) by (nonlinear_arith);
        while i < sockets
            invariant
                i <= sockets,
                n == endpoints@.len(),
                all == probe_order(endpoints@, sockets, false),
                order@.len() == i * n,
                forall|p: int| 0 <= p < order@.len() ==> order@[p] == all[p],
            decreases sockets - i,
        {
            let mut j: usize = 0;
            while j < n
                invariant
                    i < sockets,
                    j <= n,
                    n == endpoints@.len(),
                    all == probe_order(endpoints@, sockets, false),
                    order@.len() == i * n + j,
                    forall|p: int| 0 <= p < order@.len() ==> order@[p] == all[p],
                decreases n - j,
            {
                proof {
                    lemma_place(i as int, j as int, n as int, sockets as int);
                    assert(sockets * n == n * sockets) by (nonlinear_arith);
                }
                order.push((i, endpoints[j]));
                j += 1;
            }
            assert((i + 1) * n == i * n + n) by (nonlinear_arith);
            i += 1;
        }
        assert(sockets * n == n * sockets) by (nonlinear_arith);
    }
    assert(order@ =~= all);
    order
}

/// A round probes every endpoint from every socket.
pub proof fn law_order_reaches_every_pair(
    endpoints: Seq<SocketAddr>,
    sockets: usize,
    candidate_major: bool,
    socket: usize,
    i: int,
)
    requires
        socket < sockets,
        0 <= i < endpoints.len(),
    ensures
        probe_order(endpoints, sockets, candidate_major).contains((socket, endpoints[i])),
        probe_order(endpoints, sockets, candidate_major).len() == endpoints.len() * sockets,
{
    let n = endpoints.len() as int;
    let order = probe_order(endpoints, sockets, candidate_major);
    assert(sockets * n == n * sockets) by (nonlinear_arith);
    if candidate_major {
        lemma_place(i, socket as int, sockets as int, n);
        assert(order[i * sockets + socket] == (socket, endpoints[i]));
    } else {
        lemma_place(socket as int, i, n, sockets as int);
        assert(order[socket * n + i] == (socket, endpoints[i]));
    }
}

/// With several sockets, the first candidates of a round are tried from every
/// socket before a later candidate is tried at all.
pub proof fn law_early_candidates_come_first(
    endpoints: Seq<SocketAddr>,
    sockets: usize,
    p: int,
    q: int,
)
    requires
        sockets > 0,
        0 <= p <= q < endpoints.len() * sockets,
    ensures
        p / sockets as int <= q / sockets as int,
        probe_order(endpoints, sockets, true)[p].1 == endpoints[p / sockets as int],
        probe_order(endpoints, sockets, true)[q].1 == endpoints[q / sockets as int],
{
    vstd::arithmetic::div_mod::lemma_div_is_ordered(p, q, sockets as int);
}

/// What a punch was started under.
#[derive(Clone, Copy, Debug)]
pub struct PunchStart {
    pub policy: PunchSocketPolicy,
    pub socket_count: usize,
    /// Candidates the punch was asked to try.
    pub candidate_count: usize,
    pub network_generation: u64,
    pub direct_commit_seq: Option<u64>,
}

/// How things stand before a probe.
#[derive(Clone, Copy, Debug)]
pub struct PunchGates {
    /// The peer has no direct path yet.
    pub not_direct: bool,
    /// Whoever started the punch still wants it.
    pub owner_valid: bool,
    pub direct_commit_seq: Option<u64>,
    pub network_generation: u64,
}

/// Why a punch ended before its schedule did.
#[derive(Clone, Copy, Debug, PartialEq, Eq, Structural)]
pub enum PunchStop {
    /// The peer turned direct, or the owner was revoked.
    Gate,
    CommitSeqChanged,
    GenerationChanged,
    SessionCapped,
    CandidateIterationCapped,
    WholesaleRejected,
    EpochCreditExhausted,
}

/// What stops a punch before a probe.
pub open spec fn probe_stop(start: PunchStart, gates: PunchGates, capped: bool) -> Option<
    PunchStop,
> {
    if !gates.not_direct || !gates.owner_valid {
        Some(PunchStop::Gate)
    } else if gates.direct_commit_seq != start.direct_commit_seq {
        Some(PunchStop::CommitSeqChanged)
    } else if capped {
        Some(PunchStop::SessionCapped)
    } else {
        None
    }
}

/// What stops a punch before a batch: a new network does, too.
pub open spec fn batch_stop(start: PunchStart, gates: PunchGates, capped: bool) -> Option<
    PunchStop,
> {
    match probe_stop(start, gates, false) {
        Some(stop) => Some(stop),
        None => if gates.network_generation != start.network_generation {
            Some(PunchStop::GenerationChanged)
        } else if capped {
            Some(PunchStop::SessionCapped)
        } else {
            None
        },
    }
}

/// The books of a punch.
#[derive(Clone, Copy, Debug, PartialEq, Eq, Structural)]
pub struct PunchCounters {
    /// Logical probes that left.
    pub packets_sent: u32,
    pub budget_skipped: u32,
    /// Persistent rejections since a probe was last let through.
    pub wholesale_rejections: u32,
    pub last_budget_reason: Option<BudgetReason>,
    /// Probes planned for the first socket.
    pub socket0_sent: u32,
    /// Probes planned for any other socket.
    pub alt_socket_sent: u32,
    pub first_send_at_ms: Option<u64>,
}

/// Whether a rejection lasts longer than a punch does.
pub open spec fn is_persistent(admission: OutboundProbeAdmission) -> bool {
    admission is GlobalNetworkPersistentRateLimited || admission is GlobalPeerPersistentRateLimited
        || admission is GlobalRemoteIpPersistentRateLimited
        || admission is GlobalPeerSocketPersistentRateLimited
}

impl PunchCounters {
    pub open spec fn blank() -> PunchCounters {
        PunchCounters {
            packets_sent: 0,
            budget_skipped: 0,
            wholesale_rejections: 0,
            last_budget_reason: None,
            socket0_sent: 0,
            alt_socket_sent: 0,
            first_send_at_ms: None,
        }
    }

    pub open spec fn skipped(self, reason: BudgetReason) -> PunchCounters {
        PunchCounters {
            budget_skipped: crate::histogram::add32(self.budget_skipped, 1),
            last_budget_reason: Some(reason),
            ..self
        }
    }

    /// A probe that a budget held back.
    pub open spec fn rejected(self, admission: OutboundProbeAdmission) -> PunchCounters {
        PunchCounters {
            wholesale_rejections: if is_persistent(admission) {
                crate::histogram::add32(self.wholesale_rejections, 1)
            } else {
                self.wholesale_rejections
            },
            ..self.skipped(BudgetReason::Limited(admission))
        }
    }

    pub open spec fn sent(self, socket: usize, probe: ProbeSendResult) -> PunchCounters {
        PunchCounters {
            packets_sent: (self.packets_sent + 1) as u32,
            socket0_sent: if socket == 0 {
                crate::histogram::add32(self.socket0_sent, 1)
            } else {
                self.socket0_sent
            },
            alt_socket_sent: if socket == 0 {
                self.alt_socket_sent
            } else {
                crate::histogram::add32(self.alt_socket_sent, 1)
            },
            first_send_at_ms: if self.first_send_at_ms is Some {
                self.first_send_at_ms
            } else {
                probe.first_send_at_ms
            },
            ..self
        }
    }
}

/// What a punch waits for.
#[derive(Clone, Copy, Debug, PartialEq, Eq, Structural)]
pub enum PunchPhase {
    /// The delay before a round.
    Round,
    /// A look at everything, before a batch.
    Batch,
    /// A look at the gates, before a probe.
    Probe,
    /// Whether the endpoint is quarantined.
    Quarantine,
    /// Whether the recovery epoch has a candidate iteration left.
    Iteration,
    /// Whether the budgets have room.
    Admission,
    /// The outcome of the send.
    Sending,
    /// Nothing; what ended the punch early, if anything did.
    Finished(Option<PunchStop>),
}

/// Where a punch stands.
#[verifier::ext_equal]
pub struct Session {
    pub round: int,
    /// The probes of the round.
    pub order: Seq<(usize, SocketAddr)>,
    /// Probes of the round already looked at.
    pub cursor: int,
    /// Probes sent in this batch.
    pub batch_sent: int,
    pub phase: PunchPhase,
    pub counters: PunchCounters,
    pub sent_endpoints: Seq<SocketAddr>,
    pub sent_ports: Seq<u16>,
    /// Datagrams by the socket that sent them.
    pub per_socket_sent: Seq<(usize, u32)>,
}

impl Session {
    pub open spec fn over(self, stop: PunchStop) -> Session {
        Session { phase: PunchPhase::Finished(Some(stop)), ..self }
    }

    /// The probe being decided.
    pub open spec fn current(self) -> (usize, SocketAddr) {
        self.order[self.cursor - 1]
    }
}

/// Adds an item to a list of distinct ones.
pub open spec fn with_item<T>(list: Seq<T>, item: T) -> Seq<T> {
    if list.contains(item) {
        list
    } else {
        list.push(item)
    }
}

proof fn lemma_with_item<T>(list: Seq<T>, item: T)
    ensures
        with_item(list, item).contains(item),
        forall|x: T| list.contains(x) ==> #[trigger] with_item(list, item).contains(x),
        list.no_duplicates() ==> with_item(list, item).no_duplicates(),
{
    let next = with_item(list, item);
    if !list.contains(item) {
        assert(next[list.len() as int] == item);
        assert forall|x: T| list.contains(x) implies #[trigger] next.contains(x) by {
            let i = choose|i: int| 0 <= i < list.len() && list[i] == x;
            assert(next[i] == x);
        }
    }
}

fn add_port(list: &mut Vec<u16>, port: u16)
    ensures
        final(list)@ == with_item(old(list)@, port),
{
    let mut i: usize = 0;
    while i < list.len()
        invariant
            i <= list@.len(),
            forall|j: int| 0 <= j < i ==> list@[j] != port,
            list@ == old(list)@,
        decreases list@.len() - i,
    {
        if list[i] == port {
            assert(list@.contains(port));
            return;
        }
        i += 1;
    }
    list.push(port);
}

/// A punch under way.
pub struct PunchSession {
    pub schedule: Vec<ProbeRound>,
    pub start: PunchStart,
    pub limits: PunchLimits,
    pub round: usize,
    pub order: Vec<(usize, SocketAddr)>,
    pub cursor: usize,
    pub batch_sent: usize,
    pub phase: PunchPhase,
    pub counters: PunchCounters,
    pub sent_endpoints: Vec<SocketAddr>,
    pub sent_ports: Vec<u16>,
    pub per_socket_sent: Vec<(usize, u32)>,
}

impl PunchSession {
    pub open spec fn view(&self) -> Session {
        Session {
            round: self.round as int,
            order: self.order@,
            cursor: self.cursor as int,
            batch_sent: self.batch_sent as int,
            phase: self.phase,
            counters: self.counters,
            sent_endpoints: self.sent_endpoints@,
            sent_ports: self.sent_ports@,
            per_socket_sent: self.per_socket_sent@,
        }
    }

    pub open spec fn cap(&self) -> u32 {
        self.start.policy.spec_session_probe_cap(self.limits)
    }

    pub open spec fn capped(&self) -> bool {
        self.counters.packets_sent >= self.cap()
    }

    /// Whether a probe is being decided or sent.
    pub open spec fn deciding(&self) -> bool {
        self.phase is Quarantine || self.phase is Iteration || self.phase is Admission
            || self.phase is Sending
    }

    pub open spec fn wf(&self) -> bool {
        let c = self.counters;
        &&& self.limits.batch_size > 0
        &&& self.round <= self.schedule@.len()
        &&& self.cursor <= self.order@.len()
        &&& self.batch_sent <= self.limits.batch_size
        &&& (self.phase is Batch || self.phase is Probe || self.deciding()) ==> self.round
            < self.schedule@.len()
        &&& self.deciding() ==> self.cursor > 0 && self.batch_sent < self.limits.batch_size
            && !self.capped()
        &&& c.packets_sent <= self.cap()
        &&& c.packets_sent == c.socket0_sent + c.alt_socket_sent
        &&& c.budget_skipped > 0 ==> c.last_budget_reason is Some
        &&& self.sent_endpoints@.no_duplicates()
        &&& self.sent_ports@.no_duplicates()
        &&& self.sent_ports@.len() <= self.sent_endpoints@.len() <= c.packets_sent
        &&& forall|i: int|
            0 <= i < self.sent_endpoints@.len() ==> self.sent_ports@.contains(
                (#[trigger] self.sent_endpoints@[i]).port,
            )
        &&& c.packets_sent > 0 ==> self.sent_ports@.len() > 0
        &&& self.start.policy is RelayBackoffHeartbeat ==> c.packets_sent == 0 && !(
        self.phase is Iteration || self.phase is Admission || self.phase is Sending)
    }

    /// Nothing but the course of the punch changed.
    pub open spec fn same_plan(&self, next: &PunchSession) -> bool {
        &&& next.schedule == self.schedule
        &&& next.start == self.start
        &&& next.limits == self.limits
    }

    /// A punch, or `None` where there is nothing to do.
    pub fn begin(
        schedule: Vec<ProbeRound>,
        attempts: u32,
        start: PunchStart,
        limits: PunchLimits,
    ) -> (session: Option<Self>)
        requires
            limits.batch_size > 0,
        ensures
            session is None <==> start.candidate_count == 0 || attempts == 0,
            match session {
                Some(s) => {
                    &&& s.wf()
                    &&& s.schedule == schedule
                    &&& s.start == start
                    &&& s.limits == limits
                    &&& s@ == (Session {
                        round: 0,
                        order: Seq::empty(),
                        cursor: 0,
                        batch_sent: 0,
                        phase: PunchPhase::Round,
                        counters: PunchCounters::blank(),
                        sent_endpoints: Seq::empty(),
                        sent_ports: Seq::empty(),
                        per_socket_sent: Seq::empty(),
                    })
                },
                None => true,
            },
    {
        if start.candidate_count == 0 || attempts == 0 {
            return None;
        }
        Some(
            PunchSession {
                schedule,
                start,
                limits,
                round: 0,
                order: Vec::new(),
                cursor: 0,
                batch_sent: 0,
                phase: PunchPhase::Round,
                counters: PunchCounters {
                    packets_sent: 0,
                    budget_skipped: 0,
                    wholesale_rejections: 0,
                    last_budget_reason: None,
                    socket0_sent: 0,
                    alt_socket_sent: 0,
                    first_send_at_ms: None,
                },
                sent_endpoints: Vec::new(),
                sent_ports: Vec::new(),
                per_socket_sent: Vec::new(),
            },
        )
    }

    /// Enters the next round and gives the delay before it, or ends the punch.
    pub fn begin_round(&mut self) -> (delay: Option<u64>)
        requires
            old(self).wf(),
            old(self).phase is Round,
        ensures
            final(self).wf(),
            old(self).same_plan(final(self)),
            if old(self).round >= old(self).schedule@.len() {
                &&& delay is None
                &&& final(self)@ == (Session { phase: PunchPhase::Finished(None), ..old(self)@ })
            } else {
                let round = old(self).schedule@[old(self).round as int];
                &&& delay == Some(round.delay_before)
                &&& final(self)@ == (Session {
                    order: probe_order(
                        round.endpoints@,
                        old(self).start.socket_count,
                        old(self).start.policy.candidate_major(old(self).start.socket_count),
                    ),
                    cursor: 0,
                    phase: PunchPhase::Batch,
                    ..old(self)@
                })
            },
    {
        if self.round >= self.schedule.len() {
            self.phase = PunchPhase::Finished(None);
            return None;
        }
        self.order = order_probes(
            &self.schedule[self.round].endpoints,
            self.start.socket_count,
            self.start.policy,
        );
        self.cursor = 0;
        self.phase = PunchPhase::Batch;
        Some(self.schedule[self.round].delay_before)
    }

    fn stop(&mut self, stop: PunchStop)
        requires
            old(self).wf(),
        ensures
            final(self).wf(),
            old(self).same_plan(final(self)),
            final(self)@ == old(self)@.over(stop),
    {
        self.phase = PunchPhase::Finished(Some(stop));
    }

    /// Looks at everything that may have changed, and opens a batch, closes
    /// the round or ends the punch.
    pub fn begin_batch(&mut self, gates: &PunchGates)
        requires
            old(self).wf(),
            old(self).phase is Batch,
        ensures
            final(self).wf(),
            old(self).same_plan(final(self)),
            final(self)@ == match batch_stop(old(self).start, *gates, old(self).capped()) {
                Some(stop) => old(self)@.over(stop),
                None => if old(self).cursor >= old(self).order@.len() {
                    Session { phase: PunchPhase::Round, round: old(self).round + 1, ..old(self)@ }
                } else {
                    Session { phase: PunchPhase::Probe, batch_sent: 0, ..old(self)@ }
                },
            },
    {
        if !gates.not_direct || !gates.owner_valid {
            self.stop(PunchStop::Gate);
        } else if !same_number(gates.direct_commit_seq, self.start.direct_commit_seq) {
            self.stop(PunchStop::CommitSeqChanged);
        } else if gates.network_generation != self.start.network_generation {
            self.stop(PunchStop::GenerationChanged);
        } else if self.counters.packets_sent >= self.start.policy.session_probe_cap(&self.limits) {
            self.stop(PunchStop::SessionCapped);
        } else if self.cursor >= self.order.len() {
            assert(self.round < self.schedule.len());
            self.round = self.round + 1;
            self.phase = PunchPhase::Round;
        } else {
            self.batch_sent = 0;
            self.phase = PunchPhase::Probe;
        }
    }

    /// Takes the next probe of the batch. `Some` is a probe that passed every
    /// gate; otherwise the batch or the punch is over.
    pub fn next_probe(&mut self, gates: &PunchGates) -> (probe: Option<(usize, SocketAddr)>)
        requires
            old(self).wf(),
            old(self).phase is Probe,
        ensures
            final(self).wf(),
            old(self).same_plan(final(self)),
            if old(self).cursor >= old(self).order@.len() || old(self).batch_sent
                >= old(self).limits.batch_size {
                &&& probe is None
                &&& final(self)@ == (Session { phase: PunchPhase::Batch, ..old(self)@ })
            } else {
                let taken = Session { cursor: old(self).cursor + 1, ..old(self)@ };
                match probe_stop(old(self).start, *gates, old(self).capped()) {
                    Some(stop) => probe is None && final(self)@ == taken.over(stop),
                    None => {
                        &&& probe == Some(taken.current())
                        &&& final(self)@ == (Session { phase: PunchPhase::Quarantine, ..taken })
                    },
                }
            },
    {
        if self.cursor >= self.order.len() || self.batch_sent >= self.limits.batch_size {
            self.phase = PunchPhase::Batch;
            return None;
        }
        let probe: (usize, SocketAddr) = self.order[self.cursor];
        self.cursor = self.cursor + 1;
        if !gates.not_direct || !gates.owner_valid {
            self.stop(PunchStop::Gate);
            return None;
        }
        if !same_number(gates.direct_commit_seq, self.start.direct_commit_seq) {
            self.stop(PunchStop::CommitSeqChanged);
            return None;
        }
        if self.counters.packets_sent >= self.start.policy.session_probe_cap(&self.limits) {
            self.stop(PunchStop::SessionCapped);
            return None;
        }
        self.phase = PunchPhase::Quarantine;
        Some(probe)
    }

    fn skip(&mut self, reason: BudgetReason)
        ensures
            old(self).same_plan(final(self)),
            final(self)@ == (Session {
                phase: PunchPhase::Probe,
                counters: old(self).counters.skipped(reason),
                ..old(self)@
            }),
    {
        self.counters.budget_skipped = self.counters.budget_skipped.saturating_add(1);
        self.counters.last_budget_reason = Some(reason);
        self.phase = PunchPhase::Probe;
    }

    /// Skips an endpoint that recently answered too slowly. A heartbeat never
    /// goes further than this: its beats are sent one at a time, elsewhere.
    pub fn on_quarantine(&mut self, quarantined: bool)
        requires
            old(self).wf(),
            old(self).phase is Quarantine,
        ensures
            final(self).wf(),
            old(self).same_plan(final(self)),
            final(self)@ == if quarantined {
                Session {
                    phase: PunchPhase::Probe,
                    counters: old(self).counters.skipped(BudgetReason::SlowRelayRetained),
                    ..old(self)@
                }
            } else if old(self).start.policy !is RelayBackoffHeartbeat {
                Session { phase: PunchPhase::Iteration, ..old(self)@ }
            } else if old(self).counters.wholesale_rejections
                >= old(self).limits.budget_rejections {
                old(self)@.over(PunchStop::WholesaleRejected)
            } else {
                Session {
                    phase: PunchPhase::Probe,
                    counters: old(self).counters.rejected(
                        OutboundProbeAdmission::HeartbeatBudgetLimited,
                    ),
                    ..old(self)@
                }
            },
    {
        if quarantined {
            self.skip(BudgetReason::SlowRelayRetained);
        } else if !matches!(self.start.policy, PunchSocketPolicy::RelayBackoffHeartbeat) {
            self.phase = PunchPhase::Iteration;
        } else if self.counters.wholesale_rejections >= self.limits.budget_rejections {
            self.stop(PunchStop::WholesaleRejected);
        } else {
            self.skip(BudgetReason::Limited(OutboundProbeAdmission::HeartbeatBudgetLimited));
        }
    }

    /// Whether an endpoint is passed over because it was already sent to and
    /// others were not.
    pub open spec fn passes_over(&self) -> bool {
        &&& self.start.policy is StableUniqueScatter
        &&& self.sent_endpoints@.len() < self.start.candidate_count
        &&& self.sent_endpoints@.contains(self@.current().1)
    }

    /// Goes on where the recovery epoch granted a candidate iteration, and
    /// ends the punch where it did not.
    pub fn on_iteration(&mut self, granted: bool)
        requires
            old(self).wf(),
            old(self).phase is Iteration,
        ensures
            final(self).wf(),
            old(self).same_plan(final(self)),
            final(self)@ == if !granted {
                old(self)@.over(PunchStop::CandidateIterationCapped)
            } else if old(self).counters.wholesale_rejections
                >= old(self).limits.budget_rejections {
                old(self)@.over(PunchStop::WholesaleRejected)
            } else if old(self).passes_over() {
                Session { phase: PunchPhase::Probe, ..old(self)@ }
            } else {
                Session { phase: PunchPhase::Admission, ..old(self)@ }
            },
    {
        if !granted {
            self.stop(PunchStop::CandidateIterationCapped);
            return;
        }
        if self.counters.wholesale_rejections >= self.limits.budget_rejections {
            self.stop(PunchStop::WholesaleRejected);
            return;
        }
        let candidate: SocketAddr = self.order[self.cursor - 1].1;
        if matches!(self.start.policy, PunchSocketPolicy::StableUniqueScatter)
            && self.sent_endpoints.len() < self.start.candidate_count && lists(
            &self.sent_endpoints,
            candidate,
        ) {
            self.phase = PunchPhase::Probe;
        } else {
            self.phase = PunchPhase::Admission;
        }
    }

    /// Gives out a probe that the budgets let through. An exhausted epoch
    /// credit ends the punch; any other rejection skips the probe.
    pub fn on_admission(&mut self, admission: OutboundProbeAdmission) -> (send: Option<
        (usize, SocketAddr),
    >)
        requires
            old(self).wf(),
            old(self).phase is Admission,
        ensures
            final(self).wf(),
            old(self).same_plan(final(self)),
            send == if admission is Accepted {
                Some(old(self)@.current())
            } else {
                None
            },
            final(self)@ == if admission is Accepted {
                Session {
                    phase: PunchPhase::Sending,
                    counters: PunchCounters { wholesale_rejections: 0, ..old(self).counters },
                    ..old(self)@
                }
            } else if admission is EpochCreditExhausted {
                Session {
                    counters: PunchCounters {
                        last_budget_reason: Some(BudgetReason::Limited(admission)),
                        ..old(self).counters
                    },
                    ..old(self)@.over(PunchStop::EpochCreditExhausted)
                }
            } else {
                Session {
                    phase: PunchPhase::Probe,
                    counters: old(self).counters.rejected(admission),
                    ..old(self)@
                }
            },
    {
        match admission {
            OutboundProbeAdmission::Accepted => {
                self.counters.wholesale_rejections = 0;
                self.phase = PunchPhase::Sending;
                Some(self.order[self.cursor - 1])
            },
            OutboundProbeAdmission::EpochCreditExhausted => {
                self.counters.last_budget_reason = Some(BudgetReason::Limited(admission));
                self.stop(PunchStop::EpochCreditExhausted);
                None
            },
            OutboundProbeAdmission::GlobalNetworkPersistentRateLimited
            | OutboundProbeAdmission::GlobalPeerPersistentRateLimited
            | OutboundProbeAdmission::GlobalRemoteIpPersistentRateLimited
            | OutboundProbeAdmission::GlobalPeerSocketPersistentRateLimited => {
                self.counters.wholesale_rejections =
                self.counters.wholesale_rejections.saturating_add(1);
                self.skip(BudgetReason::Limited(admission));
                None
            },
            _ => {
                self.skip(BudgetReason::Limited(admission));
                None
            },
        }
    }

    /// Books a probe that left.
    pub fn on_sent(&mut self, probe: ProbeSendResult)
        requires
            old(self).wf(),
            old(self).phase is Sending,
        ensures
            final(self).wf(),
            old(self).same_plan(final(self)),
            final(self)@ == (Session {
                phase: PunchPhase::Probe,
                batch_sent: old(self).batch_sent + 1,
                counters: old(self).counters.sent(old(self)@.current().0, probe),
                sent_endpoints: with_item(old(self).sent_endpoints@, old(self)@.current().1),
                sent_ports: with_item(old(self).sent_ports@, old(self)@.current().1.port),
                per_socket_sent: crate::histogram::with_added(
                    old(self).per_socket_sent@,
                    (probe.socket_index, probe.datagrams_sent as u32),
                ),
                ..old(self)@
            }),
    {
        let (socket, candidate): (usize, SocketAddr) = self.order[self.cursor - 1];
        self.counters.packets_sent = self.counters.packets_sent + 1;
        self.batch_sent = self.batch_sent + 1;
        if self.counters.first_send_at_ms.is_none() {
            self.counters.first_send_at_ms = probe.first_send_at_ms;
        }
        add_row(&mut self.per_socket_sent, probe.socket_index, probe.datagrams_sent as u32);
        if socket == 0 {
            self.counters.socket0_sent = self.counters.socket0_sent.saturating_add(1);
        } else {
            self.counters.alt_socket_sent = self.counters.alt_socket_sent.saturating_add(1);
        }
        if !lists(&self.sent_endpoints, candidate) {
            self.sent_endpoints.push(candidate);
        }
        let ghost ports = self.sent_ports@;
        add_port(&mut self.sent_ports, candidate.port());
        proof {
            lemma_with_item(ports, candidate.port);
        }
        self.phase = PunchPhase::Probe;
    }

    /// Goes on after a probe that could not be sent.
    pub fn on_failed(&mut self)
        requires
            old(self).wf(),
            old(self).phase is Sending,
        ensures
            final(self).wf(),
            old(self).same_plan(final(self)),
            final(self)@ == (Session { phase: PunchPhase::Probe, ..old(self)@ }),
    {
        self.phase = PunchPhase::Probe;
    }

    /// What the punch covered.
    pub open spec fn spec_coverage(&self) -> PunchCoverage {
        let unique = crate::histogram::clamp32(self.sent_ports@.len());
        PunchCoverage {
            socket0_sent: self.counters.socket0_sent,
            alt_socket_sent: self.counters.alt_socket_sent,
            unique_target_endpoints: self.sent_endpoints@.len() as usize,
            unique_target_ports: unique,
            repeated_target_ports: if self.counters.packets_sent >= unique {
                (self.counters.packets_sent - unique) as u32
            } else {
                0
            },
        }
    }

    pub fn coverage(&self) -> (r: PunchCoverage)
        ensures
            r == self.spec_coverage(),
    {
        let unique: u32 = clamp_u32(self.sent_ports.len());
        PunchCoverage {
            socket0_sent: self.counters.socket0_sent,
            alt_socket_sent: self.counters.alt_socket_sent,
            unique_target_endpoints: self.sent_endpoints.len(),
            unique_target_ports: unique,
            repeated_target_ports: self.counters.packets_sent.saturating_sub(unique),
        }
    }

    /// The event of a punch that ended early.
    pub fn stop_event(&self) -> (event: Option<&'static str>)
        ensures
            match self.phase {
                PunchPhase::Finished(Some(stop)) => match (event, stop.event_text()) {
                    (Some(name), Some(text)) => name@ == text,
                    (None, None) => true,
                    _ => false,
                },
                _ => event is None,
            },
    {
        match self.phase {
            PunchPhase::Finished(Some(stop)) => stop.event(),
            _ => None,
        }
    }

    /// Why probes were skipped, where any were.
    pub fn skip_reason(&self) -> (reason: Option<BudgetReason>)
        requires
            self.wf(),
        ensures
            reason is Some <==> self.counters.budget_skipped > 0,
            reason is Some ==> reason == self.counters.last_budget_reason,
    {
        if self.counters.budget_skipped > 0 {
            self.counters.last_budget_reason
        } else {
            None
        }
    }

    /// The report of the punch; `rows` is its histogram in order of sockets.
    pub open spec fn spec_report(&self, rows: Seq<(usize, u32)>) -> Punch {
        Punch {
            packets_sent: self.counters.packets_sent,
            unique_target_endpoints: crate::histogram::clamp32(self.sent_endpoints@.len()),
            first_send_at_ms: self.counters.first_send_at_ms,
            per_socket_sent: rows,
            budget_skipped: self.counters.budget_skipped,
            epoch_budget_exhausted: self.phase == PunchPhase::Finished(
                Some(PunchStop::EpochCreditExhausted),
            ),
            candidate_iteration_capped: self.phase == PunchPhase::Finished(
                Some(PunchStop::CandidateIterationCapped),
            ),
            ..Punch::blank()
        }
    }

    pub fn finish(self) -> (report: PunchSendReport)
        ensures
            crate::histogram::is_sorting_of(report@.per_socket_sent, self.per_socket_sent@),
            report@ == self.spec_report(report@.per_socket_sent),
    {
        let mut report: PunchSendReport = PunchSendReport::default();
        report.packets_sent = self.counters.packets_sent;
        report.unique_target_endpoints = clamp_u32(self.sent_endpoints.len());
        report.first_send_at_ms = self.counters.first_send_at_ms;
        report.budget_skipped = self.counters.budget_skipped;
        report.epoch_budget_exhausted = matches!(
            self.phase,
            PunchPhase::Finished(Some(PunchStop::EpochCreditExhausted)),
        );
        report.candidate_iteration_capped = matches!(
            self.phase,
            PunchPhase::Finished(Some(PunchStop::CandidateIterationCapped)),
        );
        report.per_socket_sent = self.per_socket_sent;
        sort_rows(&mut report.per_socket_sent);
        report
    }
}

/// How widely a punch spread its probes.
#[derive(Clone, Copy, Debug, PartialEq, Eq, Structural)]
pub struct PunchCoverage {
    pub socket0_sent: u32,
    pub alt_socket_sent: u32,
    pub unique_target_endpoints: usize,
    pub unique_target_ports: u32,
    pub repeated_target_ports: u32,
}

impl PunchStop {
    /// The name of the event, where the stop is one to be told.
    pub open spec fn event_text(self) -> Option<Seq<char>> {
        match self {
            Self::GenerationChanged => Some("probe_batch_generation_changed"@),
            Self::CommitSeqChanged => Some("probe_batch_commit_seq_changed"@),
            Self::SessionCapped => Some("probe_session_capped"@),
            Self::CandidateIterationCapped => Some(
                "recovery_candidate_iteration_budget_exhausted"@,
            ),
            Self::EpochCreditExhausted => Some("recovery_epoch_credit_exhausted"@),
            Self::Gate | Self::WholesaleRejected => None,
        }
    }

    pub fn event(self) -> (event: Option<&'static str>)
        ensures
            match (event, self.event_text()) {
                (Some(name), Some(text)) => name@ == text,
                (None, None) => true,
                _ => false,
            },
    {
        match self {
            Self::GenerationChanged => Some("probe_batch_generation_changed"),
            Self::CommitSeqChanged => Some("probe_batch_commit_seq_changed"),
            Self::SessionCapped => Some("probe_session_capped"),
            Self::CandidateIterationCapped => Some("recovery_candidate_iteration_budget_exhausted"),
            Self::EpochCreditExhausted => Some("recovery_epoch_credit_exhausted"),
            Self::Gate | Self::WholesaleRejected => None,
        }
    }
}

/// A punch never sends more probes than its policy allows.
pub proof fn law_punch_is_capped(session: PunchSession)
    requires
        session.wf(),
    ensures
        session.counters.packets_sent <= session.start.policy.spec_session_probe_cap(
            session.limits,
        ),
{
}

/// Every probe is booked once on its socket, and once as a new or a repeated
/// port.
pub proof fn law_coverage_adds_up(session: PunchSession)
    requires
        session.wf(),
    ensures
        ({
            let c = session.spec_coverage();
            &&& c.socket0_sent + c.alt_socket_sent == session.counters.packets_sent
            &&& c.unique_target_ports + c.repeated_target_ports == session.counters.packets_sent
            &&& c.unique_target_ports <= c.unique_target_endpoints
        }),
{
}

/// A heartbeat never sends through a punch over candidates and sockets.
pub proof fn law_heartbeat_sends_nothing_here(session: PunchSession)
    requires
        session.wf(),
        session.start.policy is RelayBackoffHeartbeat,
    ensures
        session.counters.packets_sent == 0,
        session.phase !is Sending,
{
}

/// Once the peer is direct, the owner is revoked or a direct path was
/// committed, no further probe is given out; and no further batch once the
/// network changed.
pub proof fn law_change_stops_punch(start: PunchStart, gates: PunchGates, capped: bool)
    ensures
        !gates.not_direct || !gates.owner_valid || gates.direct_commit_seq
            != start.direct_commit_seq ==> probe_stop(start, gates, capped) is Some && batch_stop(
            start,
            gates,
            capped,
        ) is Some,
        gates.network_generation != start.network_generation ==> batch_stop(
            start,
            gates,
            capped,
        ) is Some,
{
}

/// A policy that spreads its probes over several sockets tries a candidate
/// from each of them before it turns to the next candidate.
pub proof fn law_spreading_policies_go_candidate_by_candidate(
    endpoints: Seq<SocketAddr>,
    sockets: usize,
    policy: PunchSocketPolicy,
    p: int,
)
    requires
        sockets > 1,
        policy == PunchSocketPolicy::FastPrefixPool || policy == PunchSocketPolicy::ActivePool
            || policy == PunchSocketPolicy::RemoteScatterPool || policy
            == PunchSocketPolicy::RelayBackoffHeartbeat,
        0 <= p < endpoints.len() * sockets,
    ensures
        probe_order(endpoints, sockets, policy.candidate_major(sockets))[p] == (
            (p % sockets as int) as usize,
            endpoints[p / sockets as int],
        ),
{
}

/// Any other punch, and every punch from a single socket, goes through all
/// candidates before it turns to the next socket.
pub proof fn law_other_punches_go_socket_by_socket(
    endpoints: Seq<SocketAddr>,
    sockets: usize,
    policy: PunchSocketPolicy,
    p: int,
)
    requires
        sockets <= 1 || policy == PunchSocketPolicy::StableUniqueScatter || policy
            == PunchSocketPolicy::PrimaryOnly,
        0 <= p < endpoints.len() * sockets,
    ensures
        probe_order(endpoints, sockets, policy.candidate_major(sockets))[p] == (
            (p / endpoints.len() as int) as usize,
            endpoints[p % endpoints.len() as int],
        ),
{
}

/// Scattering is capped by its own limit, a heartbeat by its own, and every
/// other punch by the ordinary one.
pub proof fn law_each_policy_has_its_cap(policy: PunchSocketPolicy, limits: PunchLimits)
    ensures
        policy is RemoteScatterPool || policy is StableUniqueScatter
            ==> policy.spec_session_probe_cap(limits) == limits.remote_scatter_probes,
        policy is RelayBackoffHeartbeat ==> policy.spec_session_probe_cap(limits)
            == limits.heartbeat_probes,
        policy is FastPrefixPool || policy is ActivePool || policy is PrimaryOnly
            ==> policy.spec_session_probe_cap(limits) == limits.punch_probes,
{
}

/// A probe is given out exactly while the peer is not direct, the owner wants
/// it, no direct path was committed since the start and the cap is not
/// reached; a batch is opened exactly where the network is the same, too.
pub proof fn law_punch_goes_on_while_nothing_changed(
    start: PunchStart,
    gates: PunchGates,
    capped: bool,
)
    ensures
        probe_stop(start, gates, capped) is None <==> gates.not_direct && gates.owner_valid
            && gates.direct_commit_seq == start.direct_commit_seq && !capped,
        batch_stop(start, gates, capped) is None <==> gates.not_direct && gates.owner_valid
            && gates.direct_commit_seq == start.direct_commit_seq && !capped
            && gates.network_generation == start.network_generation,
{
}

/// A closed gate is told before a changed path, that before a new network, and
/// that before the cap; no reason is told that does not hold.
pub proof fn law_punch_stops_tell_the_first_reason(
    start: PunchStart,
    gates: PunchGates,
    capped: bool,
)
    ensures
        probe_stop(start, gates, capped) == Some(PunchStop::Gate) <==> !(gates.not_direct
            && gates.owner_valid),
        batch_stop(start, gates, capped) == Some(PunchStop::Gate) <==> !(gates.not_direct
            && gates.owner_valid),
        probe_stop(start, gates, capped) == Some(PunchStop::SessionCapped) ==> capped
            && gates.direct_commit_seq == start.direct_commit_seq,
        batch_stop(start, gates, capped) == Some(PunchStop::GenerationChanged)
            ==> gates.network_generation != start.network_generation && gates.direct_commit_seq
            == start.direct_commit_seq,
        batch_stop(start, gates, capped) == Some(PunchStop::SessionCapped) ==> capped
            && gates.network_generation == start.network_generation && gates.direct_commit_seq
            == start.direct_commit_seq,
        probe_stop(start, gates, capped) == Some(PunchStop::CommitSeqChanged)
            ==> gates.direct_commit_seq != start.direct_commit_seq,
        batch_stop(start, gates, capped) == Some(PunchStop::CommitSeqChanged)
            ==> gates.direct_commit_seq != start.direct_commit_seq,
        probe_stop(start, gates, capped) matches Some(stop) ==> stop == PunchStop::Gate || stop
            == PunchStop::CommitSeqChanged || stop == PunchStop::SessionCapped,
        batch_stop(start, gates, capped) matches Some(stop) ==> stop == PunchStop::Gate || stop
            == PunchStop::CommitSeqChanged || stop == PunchStop::SessionCapped || stop
            == PunchStop::GenerationChanged,
{
}

/// A probe that a budget held back is skipped for that reason, sends nothing,
/// and brings the punch closer to giving up exactly where the budget is one of
/// the four that outlast it.
pub proof fn law_rejection_is_booked(c: PunchCounters, admission: OutboundProbeAdmission)
    requires
        c.budget_skipped < u32::MAX,
        c.wholesale_rejections < u32::MAX,
    ensures
        ({
            let next = c.rejected(admission);
            let lasting = admission == OutboundProbeAdmission::GlobalNetworkPersistentRateLimited
                || admission == OutboundProbeAdmission::GlobalPeerPersistentRateLimited
                || admission == OutboundProbeAdmission::GlobalRemoteIpPersistentRateLimited
                || admission == OutboundProbeAdmission::GlobalPeerSocketPersistentRateLimited;
            &&& next.budget_skipped == c.budget_skipped + 1
            &&& next.last_budget_reason == Some(BudgetReason::Limited(admission))
            &&& next.wholesale_rejections == c.wholesale_rejections + if lasting {
                1int
            } else {
                0
            }
            &&& next.packets_sent == c.packets_sent
            &&& next.socket0_sent == c.socket0_sent
            &&& next.alt_socket_sent == c.alt_socket_sent
            &&& next.first_send_at_ms == c.first_send_at_ms
        }),
{
}

/// A skipped endpoint counts as held back for its reason and changes nothing
/// else.
pub proof fn law_skip_is_booked(c: PunchCounters, reason: BudgetReason)
    requires
        c.budget_skipped < u32::MAX,
    ensures
        ({
            let next = c.skipped(reason);
            &&& next.budget_skipped == c.budget_skipped + 1
            &&& next.last_budget_reason == Some(reason)
            &&& next.wholesale_rejections == c.wholesale_rejections
            &&& next.packets_sent == c.packets_sent
            &&& next.socket0_sent == c.socket0_sent
            &&& next.alt_socket_sent == c.alt_socket_sent
            &&& next.first_send_at_ms == c.first_send_at_ms
        }),
{
}

/// A probe that left is booked once, on the first socket or on the others, and
/// only the first one tells when sending began.
pub proof fn law_sent_probe_is_booked(c: PunchCounters, socket: usize, probe: ProbeSendResult)
    requires
        c.packets_sent < u32::MAX,
        c.socket0_sent < u32::MAX,
        c.alt_socket_sent < u32::MAX,
    ensures
        ({
            let next = c.sent(socket, probe);
            &&& next.packets_sent == c.packets_sent + 1
            &&& next.socket0_sent - c.socket0_sent == if socket == 0 {
                1int
            } else {
                0
            }
            &&& next.socket0_sent + next.alt_socket_sent == c.socket0_sent + c.alt_socket_sent + 1
            &&& c.first_send_at_ms is Some ==> next.first_send_at_ms == c.first_send_at_ms
            &&& c.first_send_at_ms is None ==> next.first_send_at_ms == probe.first_send_at_ms
            &&& next.budget_skipped == c.budget_skipped
            &&& next.wholesale_rejections == c.wholesale_rejections
            &&& next.last_budget_reason == c.last_budget_reason
        }),
{
}

/// A punch starts with empty books.
pub proof fn law_punch_starts_blank()
    ensures
        ({
            let c = PunchCounters::blank();
            &&& c.packets_sent == 0 && c.socket0_sent == 0 && c.alt_socket_sent == 0
            &&& c.budget_skipped == 0 && c.wholesale_rejections == 0
            &&& c.last_budget_reason is None && c.first_send_at_ms is None
        }),
{
}

/// Only a unique scatter passes over an endpoint, and only one that was sent
/// to while fewer endpoints were than there are candidates.
pub proof fn law_only_unique_scatter_passes_over(session: PunchSession)
    ensures
        session.passes_over() <==> session.start.policy == PunchSocketPolicy::StableUniqueScatter
            && session.sent_endpoints@.contains(session.order@[session.cursor - 1].1)
            && session.sent_endpoints@.len() < session.start.candidate_count,
{
}

/// The coverage counts the endpoints and ports that were sent to.
pub proof fn law_coverage_counts_endpoints_and_ports(session: PunchSession)
    requires
        session.wf(),
    ensures
        session.spec_coverage().unique_target_endpoints == session.sent_endpoints@.len(),
        session.spec_coverage().unique_target_ports == session.sent_ports@.len(),
        session.spec_coverage().socket0_sent == session.counters.socket0_sent,
        session.spec_coverage().alt_socket_sent == session.counters.alt_socket_sent,
        session.sent_endpoints@.len() <= session.counters.packets_sent,
{
}

/// The report of a punch tells what was sent and skipped, and of the ways to
/// end early exactly the two that its reader has to act upon.
pub proof fn law_punch_report_tells_the_books(session: PunchSession, rows: Seq<(usize, u32)>)
    requires
        session.wf(),
    ensures
        ({
            let r = session.spec_report(rows);
            &&& r.packets_sent == session.counters.packets_sent
            &&& r.unique_target_endpoints == session.sent_endpoints@.len()
            &&& r.first_send_at_ms == session.counters.first_send_at_ms
            &&& r.per_socket_sent == rows
            &&& r.budget_skipped == session.counters.budget_skipped
            &&& r.epoch_budget_exhausted <==> session.phase == PunchPhase::Finished(
                Some(PunchStop::EpochCreditExhausted),
            )
            &&& r.candidate_iteration_capped <==> session.phase == PunchPhase::Finished(
                Some(PunchStop::CandidateIterationCapped),
            )
            &&& r.failure_kind is None
            &&& !r.worker_failed
            &&& r.birthday is None
        }),
{
}

/// An item is listed once, however often it is added, and nothing else comes
/// or goes.
pub proof fn law_listed_once<T>(list: Seq<T>, item: T, other: T)
    ensures
        with_item(list, item).contains(other) <==> list.contains(other) || other == item,
        with_item(list, item).len() == list.len() + if list.contains(item) {
            0int
        } else {
            1
        },
        with_item(list, item).take(list.len() as int) == list,
{
    lemma_with_item(list, item);
    assert(with_item(list, item).take(list.len() as int) =~= list);
    if with_item(list, item).contains(other) && other != item {
        let k = choose|k: int|
            0 <= k < with_item(list, item).len() && with_item(list, item)[k] == other;
        assert(list[k] == other);
    }
}

/// Every step keeps the schedule, what the punch was started under and its
/// limits.
pub proof fn law_plan_stays(before: PunchSession, after: PunchSession)
    requires
        before.same_plan(&after),
    ensures
        after.schedule == before.schedule,
        after.start == before.start,
        after.limits == before.limits,
        after.cap() == before.cap(),
{
}

/// Stopping changes nothing but the phase, and the probe being decided is the
/// last one taken.
pub proof fn law_stopping_keeps_the_books(session: Session, stop: PunchStop)
    ensures
        session.over(stop).phase == PunchPhase::Finished(Some(stop)),
        session.over(stop).counters == session.counters,
        session.over(stop).cursor == session.cursor,
        session.over(stop).sent_endpoints == session.sent_endpoints,
        session.over(stop).per_socket_sent == session.per_socket_sent,
        session.cursor > 0 ==> session.current() == session.order[session.cursor - 1],
{
}

/// The stops that nobody has to be told of are a closed gate and a wholesale
/// rejection.
pub proof fn law_stops_with_an_event(stop: PunchStop)
    ensures
        stop.event_text() is None <==> stop == PunchStop::Gate || stop
            == PunchStop::WholesaleRejected,
{
}

/// The cap is reached exactly when as many probes were sent as the policy
/// allows, and a probe is being decided in four phases.
pub proof fn law_cap_and_decision(session: PunchSession)
    requires
        session.wf(),
    ensures
        session.capped() <==> session.counters.packets_sent == session.cap(),
        session.deciding() <==> session.phase == PunchPhase::Quarantine || session.phase
            == PunchPhase::Iteration || session.phase == PunchPhase::Admission || session.phase
            == PunchPhase::Sending,
        session.deciding() ==> session.counters.packets_sent < session.cap() && session.cursor > 0
            && session.batch_sent < session.limits.batch_size,
{
}

/// A rejection lasts longer than a punch exactly where it is that of a minute's
/// budget.
pub proof fn law_lasting_rejections(admission: OutboundProbeAdmission)
    ensures
        is_persistent(admission) <==> admission
            == OutboundProbeAdmission::GlobalNetworkPersistentRateLimited || admission
            == OutboundProbeAdmission::GlobalPeerPersistentRateLimited || admission
            == OutboundProbeAdmission::GlobalRemoteIpPersistentRateLimited || admission
            == OutboundProbeAdmission::GlobalPeerSocketPersistentRateLimited,
{
}

} // verus!

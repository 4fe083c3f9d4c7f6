//! Outbound probe budgets for connectivity checks.
//!
//! Two layers of admission run for every outbound connectivity probe:
//!
//! 1. A short per-second sliding window (burst shaping) per network, per peer
//!    and per peer remote IP.
//! 2. A persistent sliding window that spans retries: the short window refills
//!    every second, so repeated retry cycles could otherwise re-emit thousands
//!    of probes per minute. The persistent window bounds the long-term rate
//!    per network, per peer, per peer remote IP and per (peer, local socket).
//!
//! Consent keepalives and encrypted data do not pass through either layer.

use vstd::prelude::*;
use crate::net::{IpAddr, SocketAddr};
use crate::table::TableKey;
use crate::window::WindowLog;

verus! {

pub const OUTBOUND_PROBE_BUDGET_WINDOW: u64 = 1_000_000_000;

pub const OUTBOUND_PROBE_BUDGET_PER_NETWORK: usize = 512;

pub const OUTBOUND_PROBE_BUDGET_PER_PEER: usize = 256;

/// Below the per-peer limit, so that this is the binding constraint on one
/// remote address.
pub const OUTBOUND_PROBE_BUDGET_PER_PEER_REMOTE_IP: usize = 224;

pub const OUTBOUND_PROBE_PERSISTENT_WINDOW: u64 = 60_000_000_000;

pub const OUTBOUND_PROBE_PERSISTENT_PER_NETWORK: usize = 6_000;

pub const OUTBOUND_PROBE_PERSISTENT_PER_PEER: usize = 3_000;

pub const OUTBOUND_PROBE_PERSISTENT_PER_PEER_REMOTE_IP: usize = 2_250;

pub const OUTBOUND_PROBE_PERSISTENT_PER_PEER_SOCKET: usize = 1_500;

/// The part of the short network budget that heartbeats leave to foreground
/// traversal.
pub const RELAY_BACKOFF_HEARTBEAT_FOREGROUND_RESERVE: usize = 128;

/// What one budget log counts.
pub enum OutboundProbeBudgetKey {
    Network,
    Peer(String),
    PeerRemoteIp(String, IpAddr),
    /// Long-term budget that survives per-second window resets.
    NetworkPersistent,
    PeerPersistent(String),
    PeerRemoteIpPersistent(String, IpAddr),
    /// One peer must not exhaust a shared NAT socket's mapping state for the
    /// other peers.
    PeerSocketPersistent(String, usize),
}

/// What an [`OutboundProbeBudgetKey`] stands for.
pub enum ProbeScope {
    Network,
    Peer(Seq<char>),
    PeerRemoteIp(Seq<char>, IpAddr),
    NetworkPersistent,
    PeerPersistent(Seq<char>),
    PeerRemoteIpPersistent(Seq<char>, IpAddr),
    PeerSocketPersistent(Seq<char>, usize),
}

impl ProbeScope {
    /// How long a probe counts against this scope.
    pub open spec fn window(self) -> u64 {
        match self {
            ProbeScope::Network => OUTBOUND_PROBE_BUDGET_WINDOW,
            ProbeScope::Peer(_) => OUTBOUND_PROBE_BUDGET_WINDOW,
            ProbeScope::PeerRemoteIp(_, _) => OUTBOUND_PROBE_BUDGET_WINDOW,
            _ => OUTBOUND_PROBE_PERSISTENT_WINDOW,
        }
    }

    /// How many probes may count against this scope at a time.
    pub open spec fn limit(self) -> usize {
        match self {
            ProbeScope::Network => OUTBOUND_PROBE_BUDGET_PER_NETWORK,
            ProbeScope::Peer(_) => OUTBOUND_PROBE_BUDGET_PER_PEER,
            ProbeScope::PeerRemoteIp(_, _) => OUTBOUND_PROBE_BUDGET_PER_PEER_REMOTE_IP,
            ProbeScope::NetworkPersistent => OUTBOUND_PROBE_PERSISTENT_PER_NETWORK,
            ProbeScope::PeerPersistent(_) => OUTBOUND_PROBE_PERSISTENT_PER_PEER,
            ProbeScope::PeerRemoteIpPersistent(_, _) =>
                OUTBOUND_PROBE_PERSISTENT_PER_PEER_REMOTE_IP,
            ProbeScope::PeerSocketPersistent(_, _) => OUTBOUND_PROBE_PERSISTENT_PER_PEER_SOCKET,
        }
    }

    /// Whether a probe of the short window layer counts against this scope.
    pub open spec fn short_counts(self, peer: Seq<char>, ip: IpAddr) -> bool {
        match self {
            ProbeScope::Network => true,
            ProbeScope::Peer(p) => p == peer,
            ProbeScope::PeerRemoteIp(p, i) => p == peer && i == ip,
            _ => false,
        }
    }

    /// Whether a probe to `ip` of `peer` from `socket` counts against this
    /// scope when both layers apply.
    pub open spec fn counts(self, peer: Seq<char>, ip: IpAddr, socket: usize) -> bool {
        match self {
            ProbeScope::NetworkPersistent => true,
            ProbeScope::PeerPersistent(p) => p == peer,
            ProbeScope::PeerRemoteIpPersistent(p, i) => p == peer && i == ip,
            ProbeScope::PeerSocketPersistent(p, s) => p == peer && s == socket,
            _ => self.short_counts(peer, ip),
        }
    }
}

impl TableKey for OutboundProbeBudgetKey {
    type Name = ProbeScope;

    open spec fn name(&self) -> ProbeScope {
        match self {
            OutboundProbeBudgetKey::Network => ProbeScope::Network,
            OutboundProbeBudgetKey::Peer(p) => ProbeScope::Peer(p@),
            OutboundProbeBudgetKey::PeerRemoteIp(p, ip) => ProbeScope::PeerRemoteIp(p@, *ip),
            OutboundProbeBudgetKey::NetworkPersistent => ProbeScope::NetworkPersistent,
            OutboundProbeBudgetKey::PeerPersistent(p) => ProbeScope::PeerPersistent(p@),
            OutboundProbeBudgetKey::PeerRemoteIpPersistent(p, ip) =>
                ProbeScope::PeerRemoteIpPersistent(p@, *ip),
            OutboundProbeBudgetKey::PeerSocketPersistent(p, s) =>
                ProbeScope::PeerSocketPersistent(p@, *s),
        }
    }

    fn same(&self, other: &Self) -> (r: bool) {
        match (self, other) {
            (OutboundProbeBudgetKey::Network, OutboundProbeBudgetKey::Network) => true,
            (OutboundProbeBudgetKey::Peer(a), OutboundProbeBudgetKey::Peer(b)) => *a == *b,
            (
                OutboundProbeBudgetKey::PeerRemoteIp(a, i),
                OutboundProbeBudgetKey::PeerRemoteIp(b, j),
            ) => *a == *b && *i == *j,
            (
                OutboundProbeBudgetKey::NetworkPersistent,
                OutboundProbeBudgetKey::NetworkPersistent,
            ) => true,
            (
                OutboundProbeBudgetKey::PeerPersistent(a),
                OutboundProbeBudgetKey::PeerPersistent(b),
            ) => *a == *b,
            (
                OutboundProbeBudgetKey::PeerRemoteIpPersistent(a, i),
                OutboundProbeBudgetKey::PeerRemoteIpPersistent(b, j),
            ) => *a == *b && *i == *j,
            (
                OutboundProbeBudgetKey::PeerSocketPersistent(a, i),
                OutboundProbeBudgetKey::PeerSocketPersistent(b, j),
            ) => *a == *b && *i == *j,
            _ => false,
        }
    }
}

/// Whether a probe may leave, or which budget holds it back.
#[derive(Clone, Copy, Debug, PartialEq, Eq, Structural)]
pub enum OutboundProbeAdmission {
    Accepted,
    NetworkRateLimited,
    PeerRateLimited,
    RemoteIpRateLimited,
    GlobalNetworkRateLimited,
    GlobalPeerRateLimited,
    GlobalRemoteIpRateLimited,
    GlobalNetworkPersistentRateLimited,
    GlobalPeerPersistentRateLimited,
    GlobalRemoteIpPersistentRateLimited,
    GlobalPeerSocketPersistentRateLimited,
    /// The peer's recovery-epoch probe credit is exhausted: no further probes
    /// may be emitted until the epoch rotates.
    EpochCreditExhausted,
    /// The dedicated per-peer heartbeat budget is exhausted; the next beat
    /// retries.
    HeartbeatBudgetLimited,
}

/// The label of an admission.
pub open spec fn admission_text(admission: OutboundProbeAdmission) -> Seq<char> {
    match admission {
        OutboundProbeAdmission::Accepted => "accepted"@,
        OutboundProbeAdmission::NetworkRateLimited => "network_rate_limited"@,
        OutboundProbeAdmission::PeerRateLimited => "peer_rate_limited"@,
        OutboundProbeAdmission::RemoteIpRateLimited => "remote_ip_rate_limited"@,
        OutboundProbeAdmission::GlobalNetworkRateLimited => "global_network_rate_limited"@,
        OutboundProbeAdmission::GlobalPeerRateLimited => "global_peer_rate_limited"@,
        OutboundProbeAdmission::GlobalRemoteIpRateLimited => "global_remote_ip_rate_limited"@,
        OutboundProbeAdmission::GlobalNetworkPersistentRateLimited =>
            "global_network_persistent_rate_limited"@,
        OutboundProbeAdmission::GlobalPeerPersistentRateLimited =>
            "global_peer_persistent_rate_limited"@,
        OutboundProbeAdmission::GlobalRemoteIpPersistentRateLimited =>
            "global_remote_ip_persistent_rate_limited"@,
        OutboundProbeAdmission::GlobalPeerSocketPersistentRateLimited =>
            "global_peer_socket_persistent_rate_limited"@,
        OutboundProbeAdmission::EpochCreditExhausted => "recovery_epoch_credit_exhausted"@,
        OutboundProbeAdmission::HeartbeatBudgetLimited =>
            "relay_backoff_heartbeat_budget_limited"@,
    }
}

pub fn outbound_probe_admission_reason(admission: OutboundProbeAdmission) -> (r: &'static str)
    ensures
        r@ == admission_text(admission),
{
    match admission {
        OutboundProbeAdmission::Accepted => "accepted",
        OutboundProbeAdmission::NetworkRateLimited => "network_rate_limited",
        OutboundProbeAdmission::PeerRateLimited => "peer_rate_limited",
        OutboundProbeAdmission::RemoteIpRateLimited => "remote_ip_rate_limited",
        OutboundProbeAdmission::GlobalNetworkRateLimited => "global_network_rate_limited",
        OutboundProbeAdmission::GlobalPeerRateLimited => "global_peer_rate_limited",
        OutboundProbeAdmission::GlobalRemoteIpRateLimited => "global_remote_ip_rate_limited",
        OutboundProbeAdmission::GlobalNetworkPersistentRateLimited =>
            "global_network_persistent_rate_limited",
        OutboundProbeAdmission::GlobalPeerPersistentRateLimited =>
            "global_peer_persistent_rate_limited",
        OutboundProbeAdmission::GlobalRemoteIpPersistentRateLimited =>
            "global_remote_ip_persistent_rate_limited",
        OutboundProbeAdmission::GlobalPeerSocketPersistentRateLimited =>
            "global_peer_socket_persistent_rate_limited",
        OutboundProbeAdmission::EpochCreditExhausted => "recovery_epoch_credit_exhausted",
        OutboundProbeAdmission::HeartbeatBudgetLimited => "relay_backoff_heartbeat_budget_limited",
    }
}

/// The probes that still count against each scope.
pub struct OutboundProbeBudget {
    logs: WindowLog<OutboundProbeBudgetKey>,
}

impl OutboundProbeBudget {
    pub closed spec fn log(&self, scope: ProbeScope) -> Seq<u64> {
        self.logs.log(scope)
    }

    /// The scopes that take up room.
    pub closed spec fn scopes(&self) -> Set<ProbeScope> {
        self.logs.keys()
    }

    /// No scope is ever charged beyond its limit.
    pub closed spec fn wf(&self) -> bool {
        &&& self.logs.wf()
        &&& forall|scope: ProbeScope| #[trigger] self.logs.log(scope).len() <= scope.limit()
    }

    /// The probes that count against `scope` at `now`.
    pub open spec fn live_log(&self, scope: ProbeScope, now: u64) -> Seq<u64> {
        crate::window::live(self.log(scope), now, scope.window())
    }

    /// Whether `scope` has no room left at `now`.
    pub open spec fn full(&self, scope: ProbeScope, now: u64) -> bool {
        self.live_log(scope, now).len() >= scope.limit()
    }

    /// What the two-layer admission decides: the first full scope in order of
    /// precedence refuses the probe.
    pub open spec fn verdict(
        &self,
        peer: Seq<char>,
        ip: IpAddr,
        socket: usize,
        now: u64,
    ) -> OutboundProbeAdmission {
        if self.full(ProbeScope::Network, now) {
            OutboundProbeAdmission::GlobalNetworkRateLimited
        } else if self.full(ProbeScope::Peer(peer), now) {
            OutboundProbeAdmission::GlobalPeerRateLimited
        } else if self.full(ProbeScope::PeerRemoteIp(peer, ip), now) {
            OutboundProbeAdmission::GlobalRemoteIpRateLimited
        } else if self.full(ProbeScope::NetworkPersistent, now) {
            OutboundProbeAdmission::GlobalNetworkPersistentRateLimited
        } else if self.full(ProbeScope::PeerPersistent(peer), now) {
            OutboundProbeAdmission::GlobalPeerPersistentRateLimited
        } else if self.full(ProbeScope::PeerRemoteIpPersistent(peer, ip), now) {
            OutboundProbeAdmission::GlobalRemoteIpPersistentRateLimited
        } else if self.full(ProbeScope::PeerSocketPersistent(peer, socket), now) {
            OutboundProbeAdmission::GlobalPeerSocketPersistentRateLimited
        } else {
            OutboundProbeAdmission::Accepted
        }
    }

    /// What the short layer alone decides.
    pub open spec fn short_verdict(
        &self,
        peer: Seq<char>,
        ip: IpAddr,
        now: u64,
    ) -> OutboundProbeAdmission {
        if self.full(ProbeScope::Network, now) {
            OutboundProbeAdmission::NetworkRateLimited
        } else if self.full(ProbeScope::Peer(peer), now) {
            OutboundProbeAdmission::PeerRateLimited
        } else if self.full(ProbeScope::PeerRemoteIp(peer, ip), now) {
            OutboundProbeAdmission::RemoteIpRateLimited
        } else {
            OutboundProbeAdmission::Accepted
        }
    }

    /// `next` is this budget with the expired probes gone, no scope held that
    /// this leaves without one, and nothing else changed.
    pub open spec fn pruned_to(&self, next: &OutboundProbeBudget, now: u64) -> bool {
        &&& forall|scope: ProbeScope| #[trigger] next.log(scope) == self.live_log(scope, now)
        &&& forall|scope: ProbeScope| #[trigger]
            next.scopes().contains(scope) <==> self.scopes().contains(scope) && self.live_log(
                scope,
                now,
            ).len() > 0
    }

    /// `next` is this budget after a probe that was admitted: the expired
    /// probes gone and the new one charged to every scope that it counts
    /// against.
    pub open spec fn charged_to(
        &self,
        next: &OutboundProbeBudget,
        peer: Seq<char>,
        ip: IpAddr,
        socket: usize,
        now: u64,
    ) -> bool {
        &&& forall|scope: ProbeScope| #[trigger]
            next.log(scope) == if scope.counts(peer, ip, socket) {
                self.live_log(scope, now).push(now)
            } else {
                self.live_log(scope, now)
            }
        &&& forall|scope: ProbeScope| #[trigger]
            next.scopes().contains(scope) <==> scope.counts(peer, ip, socket)
                || self.scopes().contains(scope) && self.live_log(scope, now).len() > 0
    }

    pub fn new() -> (budget: Self)
        ensures
            budget.wf(),
            budget.scopes() == Set::<ProbeScope>::empty(),
            forall|scope: ProbeScope| #[trigger] budget.log(scope) == Seq::<u64>::empty(),
    {
        OutboundProbeBudget { logs: WindowLog::new() }
    }

    fn count(&self, key: &OutboundProbeBudgetKey) -> (n: usize)
        requires
            self.wf(),
        ensures
            n == self.log(key.name()).len(),
    {
        self.logs.count(key)
    }

    fn record(&mut self, key: OutboundProbeBudgetKey, now: u64)
        requires
            old(self).wf(),
            old(self).log(key.name()).len() < key.name().limit(),
        ensures
            final(self).wf(),
            final(self).scopes() == old(self).scopes().insert(key.name()),
            final(self).log(key.name()) == old(self).log(key.name()).push(now),
            forall|scope: ProbeScope|
                scope != key.name() ==> #[trigger] final(self).log(scope) == old(self).log(scope),
    {
        self.logs.record(key, now);
        assert forall|scope: ProbeScope| #[trigger] self.logs.log(scope).len()
            <= scope.limit() by {
            assert(self.log(scope) == self.logs.log(scope));
            assert(old(self).log(scope) == old(self).logs.log(scope));
        }
    }

    /// Forgets the probes that no longer count, and the scopes that are left
    /// without any.
    pub fn retain_live_budget_entries(&mut self, now: u64)
        requires
            old(self).wf(),
        ensures
            final(self).wf(),
            old(self).pruned_to(final(self), now),
    {
        let window_of = |key: &OutboundProbeBudgetKey| -> (r: u64)
            ensures
                r == key.name().window(),
        {
            match key {
                OutboundProbeBudgetKey::NetworkPersistent
                | OutboundProbeBudgetKey::PeerPersistent(_)
                | OutboundProbeBudgetKey::PeerRemoteIpPersistent(_, _)
                | OutboundProbeBudgetKey::PeerSocketPersistent(_, _) =>
                    OUTBOUND_PROBE_PERSISTENT_WINDOW,
                OutboundProbeBudgetKey::Network
                | OutboundProbeBudgetKey::Peer(_)
                | OutboundProbeBudgetKey::PeerRemoteIp(_, _) => OUTBOUND_PROBE_BUDGET_WINDOW,
            }
        };
        self.logs.prune(now, window_of, Ghost(|scope: ProbeScope| scope.window()));
        proof {
            assert forall|scope: ProbeScope| #[trigger] self.logs.log(scope).len()
                <= scope.limit() by {
                crate::window::lemma_live_len(old(self).logs.log(scope), now, scope.window());
            }
        }
    }

    /// Both layers: prunes, decides, and charges an accepted probe to every
    /// scope that it counts against.
    pub fn admit_probe(
        &mut self,
        peer_id: &str,
        peer_addr: SocketAddr,
        socket_index: usize,
        now: u64,
    ) -> (admission: OutboundProbeAdmission)
        requires
            old(self).wf(),
        ensures
            final(self).wf(),
            admission == old(self).verdict(peer_id@, peer_addr.ip, socket_index, now),
            admission != OutboundProbeAdmission::Accepted ==> old(self).pruned_to(final(self), now),
            admission == OutboundProbeAdmission::Accepted ==> old(self).charged_to(
                final(self),
                peer_id@,
                peer_addr.ip,
                socket_index,
                now,
            ),
    {
        self.retain_live_budget_entries(now);
        let peer_key = OutboundProbeBudgetKey::Peer(peer_id.to_owned());
        let remote_ip_key = OutboundProbeBudgetKey::PeerRemoteIp(
            peer_id.to_owned(),
            peer_addr.ip(),
        );
        let peer_persistent_key = OutboundProbeBudgetKey::PeerPersistent(peer_id.to_owned());
        let remote_ip_persistent_key = OutboundProbeBudgetKey::PeerRemoteIpPersistent(
            peer_id.to_owned(),
            peer_addr.ip(),
        );
        let socket_persistent_key = OutboundProbeBudgetKey::PeerSocketPersistent(
            peer_id.to_owned(),
            socket_index,
        );
        if self.count(&OutboundProbeBudgetKey::Network) >= OUTBOUND_PROBE_BUDGET_PER_NETWORK {
            return OutboundProbeAdmission::GlobalNetworkRateLimited;
        }
        if self.count(&peer_key) >= OUTBOUND_PROBE_BUDGET_PER_PEER {
            return OutboundProbeAdmission::GlobalPeerRateLimited;
        }
        if self.count(&remote_ip_key) >= OUTBOUND_PROBE_BUDGET_PER_PEER_REMOTE_IP {
            return OutboundProbeAdmission::GlobalRemoteIpRateLimited;
        }
        if self.count(&OutboundProbeBudgetKey::NetworkPersistent)
            >= OUTBOUND_PROBE_PERSISTENT_PER_NETWORK {
            return OutboundProbeAdmission::GlobalNetworkPersistentRateLimited;
        }
        if self.count(&peer_persistent_key) >= OUTBOUND_PROBE_PERSISTENT_PER_PEER {
            return OutboundProbeAdmission::GlobalPeerPersistentRateLimited;
        }
        if self.count(&remote_ip_persistent_key)
            >= OUTBOUND_PROBE_PERSISTENT_PER_PEER_REMOTE_IP {
            return OutboundProbeAdmission::GlobalRemoteIpPersistentRateLimited;
        }
        if self.count(&socket_persistent_key) >= OUTBOUND_PROBE_PERSISTENT_PER_PEER_SOCKET {
            return OutboundProbeAdmission::GlobalPeerSocketPersistentRateLimited;
        }
        self.record(OutboundProbeBudgetKey::Network, now);
        self.record(peer_key, now);
        self.record(remote_ip_key, now);
        self.record(OutboundProbeBudgetKey::NetworkPersistent, now);
        self.record(peer_persistent_key, now);
        self.record(remote_ip_persistent_key, now);
        self.record(socket_persistent_key, now);
        OutboundProbeAdmission::Accepted
    }

    /// The short layer without a charge: prunes and decides.
    pub fn check_short_window(
        &mut self,
        peer_id: &str,
        peer_addr: SocketAddr,
        now: u64,
    ) -> (admission: OutboundProbeAdmission)
        requires
            old(self).wf(),
        ensures
            final(self).wf(),
            admission == old(self).short_verdict(peer_id@, peer_addr.ip, now),
            old(self).pruned_to(final(self), now),
    {
        self.retain_live_budget_entries(now);
        let peer_key = OutboundProbeBudgetKey::Peer(peer_id.to_owned());
        let remote_ip_key = OutboundProbeBudgetKey::PeerRemoteIp(
            peer_id.to_owned(),
            peer_addr.ip(),
        );
        if self.count(&OutboundProbeBudgetKey::Network) >= OUTBOUND_PROBE_BUDGET_PER_NETWORK {
            return OutboundProbeAdmission::NetworkRateLimited;
        }
        if self.count(&peer_key) >= OUTBOUND_PROBE_BUDGET_PER_PEER {
            return OutboundProbeAdmission::PeerRateLimited;
        }
        if self.count(&remote_ip_key) >= OUTBOUND_PROBE_BUDGET_PER_PEER_REMOTE_IP {
            return OutboundProbeAdmission::RemoteIpRateLimited;
        }
        OutboundProbeAdmission::Accepted
    }

    /// Charges one probe to the short layer. The caller has just seen
    /// [`Self::check_short_window`] accept it.
    pub fn charge_short_window(&mut self, peer_id: &str, peer_addr: SocketAddr, now: u64)
        requires
            old(self).wf(),
            old(self).log(ProbeScope::Network).len() < OUTBOUND_PROBE_BUDGET_PER_NETWORK,
            old(self).log(ProbeScope::Peer(peer_id@)).len() < OUTBOUND_PROBE_BUDGET_PER_PEER,
            old(self).log(ProbeScope::PeerRemoteIp(peer_id@, peer_addr.ip)).len()
                < OUTBOUND_PROBE_BUDGET_PER_PEER_REMOTE_IP,
        ensures
            final(self).wf(),
            forall|scope: ProbeScope|
                #[trigger] final(self).log(scope) == if scope.short_counts(
                    peer_id@,
                    peer_addr.ip,
                ) {
                    old(self).log(scope).push(now)
                } else {
                    old(self).log(scope)
                },
            forall|scope: ProbeScope| #[trigger]
                final(self).scopes().contains(scope) <==> old(self).scopes().contains(scope)
                    || scope.short_counts(peer_id@, peer_addr.ip),
    {
        self.record(OutboundProbeBudgetKey::Network, now);
        self.record(OutboundProbeBudgetKey::Peer(peer_id.to_owned()), now);
        self.record(
            OutboundProbeBudgetKey::PeerRemoteIp(peer_id.to_owned(), peer_addr.ip()),
            now,
        );
    }

    /// Whether foreground traversal has used its share of the short network
    /// budget, expired probes included.
    pub open spec fn spec_foreground_burst_active(&self) -> bool {
        self.log(ProbeScope::Network).len() >= OUTBOUND_PROBE_BUDGET_PER_NETWORK
            - RELAY_BACKOFF_HEARTBEAT_FOREGROUND_RESERVE
    }

    pub fn foreground_burst_active(&self) -> (r: bool)
        requires
            self.wf(),
        ensures
            r == self.spec_foreground_burst_active(),
    {
        self.count(&OutboundProbeBudgetKey::Network)
            >= OUTBOUND_PROBE_BUDGET_PER_NETWORK - RELAY_BACKOFF_HEARTBEAT_FOREGROUND_RESERVE
    }

    /// A scope takes up room for as long as it has probes on its log, and no
    /// longer.
    pub proof fn law_held_scopes_have_probes(&self, scope: ProbeScope)
        requires
            self.wf(),
        ensures
            self.scopes().contains(scope) <==> self.log(scope).len() > 0,
            self.scopes().finite(),
    {
        self.logs.lemma_keys();
    }

    /// Where every log is in order of time and none holds a time after `now`,
    /// pruning keeps of each scope exactly the probes of the last second, or of
    /// the last minute for a persistent scope, and only the scopes that have
    /// one.
    pub proof fn law_pruning_keeps_the_young(
        &self,
        next: &OutboundProbeBudget,
        now: u64,
        scope: ProbeScope,
    )
        requires
            self.wf(),
            self.pruned_to(next, now),
            forall|i: int, j: int|
                0 <= i <= j < self.log(scope).len() ==> self.log(scope)[i] <= self.log(scope)[j],
            forall|i: int|
                0 <= i < self.log(scope).len() ==> #[trigger] self.log(scope)[i] <= now,
        ensures
            scope.window() == if scope is Network || scope is Peer || scope is PeerRemoteIp {
                1_000_000_000u64
            } else {
                60_000_000_000u64
            },
            next.log(scope) == self.log(scope).filter(|t: u64| now - t < scope.window()),
            next.scopes().contains(scope) <==> exists|i: int|
                0 <= i < self.log(scope).len() && now - (#[trigger] self.log(scope)[i])
                    < scope.window(),
    {
        let log = self.log(scope);
        let young = |t: u64| now - t < scope.window();
        crate::window::law_live_entries_are_the_young(log, now, scope.window());
        crate::window::lemma_live_len(log, now, scope.window());
        self.logs.lemma_keys();
        if log.filter(young).len() > 0 {
            let t = log.filter(young)[0];
            log.lemma_filter_pred(young, 0);
            assert(log.filter(young).contains(t));
            log.lemma_filter_contains_rev(young, t);
            let i = choose|i: int| 0 <= i < log.len() && log[i] == t;
            assert(now - self.log(scope)[i] < scope.window());
        }
        assert forall|i: int|
            0 <= i < log.len() && now - (#[trigger] log[i]) < scope.window() implies log.filter(
            young,
        ).len() > 0 by {
            log.lemma_filter_contains(young, i);
        }
    }

    /// However many probes were admitted, no scope holds more of them than
    /// its limit.
    pub proof fn law_limits_hold(&self, scope: ProbeScope)
        requires
            self.wf(),
        ensures
            self.log(scope).len() <= scope.limit(),
    {
    }
}

/// The outcome of the checks that come before the recovery credit.
#[derive(Clone, Copy, Debug, PartialEq, Eq, Structural)]
pub enum OutboundProbeCheck {
    Refused(OutboundProbeAdmission),
    /// Every window has room, the process-wide budget is charged, and the
    /// peer's recovery-epoch credit decides.
    NeedsCredit,
}

/// The window checks of one connectivity probe: the local short windows, then
/// the process-wide budget, which is charged where it accepts.
pub fn check_outbound_connectivity_probe(
    local: &mut OutboundProbeBudget,
    process: Option<&mut OutboundProbeBudget>,
    peer_id: &str,
    peer_addr: SocketAddr,
    socket_index: usize,
    now: u64,
) -> (check: OutboundProbeCheck)
    requires
        old(local).wf(),
        process matches Some(p) ==> p.wf(),
    ensures
        final(local).wf(),
        old(local).pruned_to(final(local), now),
        ({
            let short = old(local).short_verdict(peer_id@, peer_addr.ip, now);
            if short != OutboundProbeAdmission::Accepted {
                &&& check == OutboundProbeCheck::Refused(short)
                &&& process matches Some(p) ==> *final(p) == *p
            } else {
                match process {
                    None => check == OutboundProbeCheck::NeedsCredit,
                    Some(p) => {
                        let verdict = p.verdict(peer_id@, peer_addr.ip, socket_index, now);
                        &&& final(p).wf()
                        &&& verdict == OutboundProbeAdmission::Accepted ==> check
                            == OutboundProbeCheck::NeedsCredit && p.charged_to(
                            final(p),
                            peer_id@,
                            peer_addr.ip,
                            socket_index,
                            now,
                        )
                        &&& verdict != OutboundProbeAdmission::Accepted ==> check
                            == OutboundProbeCheck::Refused(verdict) && p.pruned_to(final(p), now)
                    },
                }
            }
        }),
{
    let short = local.check_short_window(peer_id, peer_addr, now);
    if !matches!(short, OutboundProbeAdmission::Accepted) {
        return OutboundProbeCheck::Refused(short);
    }
    match process {
        None => OutboundProbeCheck::NeedsCredit,
        Some(p) => {
            let verdict = p.admit_probe(peer_id, peer_addr, socket_index, now);
            if matches!(verdict, OutboundProbeAdmission::Accepted) {
                OutboundProbeCheck::NeedsCredit
            } else {
                OutboundProbeCheck::Refused(verdict)
            }
        },
    }
}

/// Ends the admission of a probe whose window checks passed: `credit` says
/// whether the peer's recovery epoch had credit left, and only then is the
/// probe charged to the local windows.
pub fn settle_outbound_connectivity_probe(
    local: &mut OutboundProbeBudget,
    peer_id: &str,
    peer_addr: SocketAddr,
    now: u64,
    credit: bool,
) -> (admission: OutboundProbeAdmission)
    requires
        old(local).wf(),
        old(local).log(ProbeScope::Network).len() < OUTBOUND_PROBE_BUDGET_PER_NETWORK,
        old(local).log(ProbeScope::Peer(peer_id@)).len() < OUTBOUND_PROBE_BUDGET_PER_PEER,
        old(local).log(ProbeScope::PeerRemoteIp(peer_id@, peer_addr.ip)).len()
            < OUTBOUND_PROBE_BUDGET_PER_PEER_REMOTE_IP,
    ensures
        final(local).wf(),
        credit ==> admission == OutboundProbeAdmission::Accepted,
        !credit ==> admission == OutboundProbeAdmission::EpochCreditExhausted,
        !credit ==> *final(local) == *old(local),
        credit ==> forall|scope: ProbeScope|
            #[trigger] final(local).log(scope) == if scope.short_counts(peer_id@, peer_addr.ip) {
                old(local).log(scope).push(now)
            } else {
                old(local).log(scope)
            },
{
    if !credit {
        return OutboundProbeAdmission::EpochCreditExhausted;
    }
    local.charge_short_window(peer_id, peer_addr, now);
    OutboundProbeAdmission::Accepted
}

/// A budget whose windows let a probe through has room to charge it: after
/// the checks nothing but the credit can refuse.
pub proof fn law_checked_probe_can_be_charged(
    before: OutboundProbeBudget,
    after: OutboundProbeBudget,
    peer: Seq<char>,
    ip: IpAddr,
    now: u64,
)
    requires
        before.pruned_to(&after, now),
        before.short_verdict(peer, ip, now) == OutboundProbeAdmission::Accepted,
    ensures
        after.log(ProbeScope::Network).len() < OUTBOUND_PROBE_BUDGET_PER_NETWORK,
        after.log(ProbeScope::Peer(peer)).len() < OUTBOUND_PROBE_BUDGET_PER_PEER,
        after.log(ProbeScope::PeerRemoteIp(peer, ip)).len()
            < OUTBOUND_PROBE_BUDGET_PER_PEER_REMOTE_IP,
{
}

/// The limits of the budgets: a second's for the network, a peer and one of its
/// addresses, and a minute's for these and for a socket of the peer.
pub proof fn law_scopes_and_limits(peer: Seq<char>, ip: IpAddr, socket: usize)
    ensures
        ProbeScope::Network.limit() == 512 && ProbeScope::Network.window() == 1_000_000_000,
        ProbeScope::Peer(peer).limit() == 256 && ProbeScope::Peer(peer).window() == 1_000_000_000,
        ProbeScope::PeerRemoteIp(peer, ip).limit() == 224 && ProbeScope::PeerRemoteIp(
            peer,
            ip,
        ).window() == 1_000_000_000,
        ProbeScope::NetworkPersistent.limit() == 6_000 && ProbeScope::NetworkPersistent.window()
            == 60_000_000_000,
        ProbeScope::PeerPersistent(peer).limit() == 3_000 && ProbeScope::PeerPersistent(
            peer,
        ).window() == 60_000_000_000,
        ProbeScope::PeerRemoteIpPersistent(peer, ip).limit() == 2_250
            && ProbeScope::PeerRemoteIpPersistent(peer, ip).window() == 60_000_000_000,
        ProbeScope::PeerSocketPersistent(peer, socket).limit() == 1_500
            && ProbeScope::PeerSocketPersistent(peer, socket).window() == 60_000_000_000,
{
}

/// A probe counts in every budget of its peer, address and socket, and in no
/// other.
pub proof fn law_counted_scopes(
    peer: Seq<char>,
    ip: IpAddr,
    socket: usize,
    p: Seq<char>,
    i: IpAddr,
    s: usize,
)
    ensures
        ProbeScope::Network.counts(peer, ip, socket),
        ProbeScope::NetworkPersistent.counts(peer, ip, socket),
        ProbeScope::Peer(p).counts(peer, ip, socket) <==> p == peer,
        ProbeScope::PeerPersistent(p).counts(peer, ip, socket) <==> p == peer,
        ProbeScope::PeerRemoteIp(p, i).counts(peer, ip, socket) <==> p == peer && i == ip,
        ProbeScope::PeerRemoteIpPersistent(p, i).counts(peer, ip, socket) <==> p == peer && i == ip,
        ProbeScope::PeerSocketPersistent(p, s).counts(peer, ip, socket) <==> p == peer && s
            == socket,
        ProbeScope::Network.short_counts(peer, ip),
        ProbeScope::Peer(p).short_counts(peer, ip) <==> p == peer,
        ProbeScope::PeerRemoteIp(p, i).short_counts(peer, ip) <==> p == peer && i == ip,
        !ProbeScope::NetworkPersistent.short_counts(peer, ip),
        !ProbeScope::PeerPersistent(p).short_counts(peer, ip),
        !ProbeScope::PeerRemoteIpPersistent(p, i).short_counts(peer, ip),
        !ProbeScope::PeerSocketPersistent(p, s).short_counts(peer, ip),
{
}

/// A budget is full exactly where as many of its probes are live as it allows.
pub proof fn law_full_budget(budget: OutboundProbeBudget, scope: ProbeScope, now: u64)
    ensures
        budget.live_log(scope, now) == crate::window::live(
            budget.log(scope),
            now,
            scope.window(),
        ),
        budget.full(scope, now) <==> crate::window::live(
            budget.log(scope),
            now,
            scope.window(),
        ).len() >= scope.limit(),
{
}

/// A probe is accepted exactly where none of its budgets is full, and otherwise
/// refused for the first that is: a second's before a minute's, the network's
/// before the peer's, before its address's, before its socket's.
pub proof fn law_admission_by_budget(
    b: OutboundProbeBudget,
    peer: Seq<char>,
    ip: IpAddr,
    socket: usize,
    now: u64,
)
    ensures
        ({
            let v = b.verdict(peer, ip, socket, now);
            let n = b.full(ProbeScope::Network, now);
            let p = b.full(ProbeScope::Peer(peer), now);
            let r = b.full(ProbeScope::PeerRemoteIp(peer, ip), now);
            let np = b.full(ProbeScope::NetworkPersistent, now);
            let pp = b.full(ProbeScope::PeerPersistent(peer), now);
            let rp = b.full(ProbeScope::PeerRemoteIpPersistent(peer, ip), now);
            let sp = b.full(ProbeScope::PeerSocketPersistent(peer, socket), now);
            &&& v is Accepted <==> !n && !p && !r && !np && !pp && !rp && !sp
            &&& v is GlobalNetworkRateLimited <==> n
            &&& v is GlobalPeerRateLimited <==> !n && p
            &&& v is GlobalRemoteIpRateLimited <==> !n && !p && r
            &&& v is GlobalNetworkPersistentRateLimited <==> !n && !p && !r && np
            &&& v is GlobalPeerPersistentRateLimited <==> !n && !p && !r && !np && pp
            &&& v is GlobalRemoteIpPersistentRateLimited <==> !n && !p && !r && !np && !pp && rp
            &&& v is GlobalPeerSocketPersistentRateLimited <==> !n && !p && !r && !np && !pp && !rp
                && sp
            &&& b.short_verdict(peer, ip, now) is Accepted <==> !n && !p && !r
            &&& b.short_verdict(peer, ip, now) is NetworkRateLimited <==> n
            &&& b.short_verdict(peer, ip, now) is PeerRateLimited <==> !n && p
            &&& b.short_verdict(peer, ip, now) is RemoteIpRateLimited <==> !n && !p && r
        }),
{
}

/// Charging a probe adds its time to each of its budgets and to no other;
/// either way only live probes are kept.
pub proof fn law_charged_budgets(
    b: OutboundProbeBudget,
    next: OutboundProbeBudget,
    peer: Seq<char>,
    ip: IpAddr,
    socket: usize,
    now: u64,
    scope: ProbeScope,
)
    requires
        b.charged_to(&next, peer, ip, socket, now),
    ensures
        scope.counts(peer, ip, socket) ==> next.log(scope) == b.live_log(scope, now).push(now)
            && next.scopes().contains(scope),
        !scope.counts(peer, ip, socket) ==> next.log(scope) == b.live_log(scope, now) && (
        next.scopes().contains(scope) <==> b.scopes().contains(scope) && b.live_log(
            scope,
            now,
        ).len() > 0),
{
}

/// Pruning keeps the live probes, and no budget without one.
pub proof fn law_pruned_budgets(
    b: OutboundProbeBudget,
    next: OutboundProbeBudget,
    now: u64,
    scope: ProbeScope,
)
    requires
        b.pruned_to(&next, now),
    ensures
        next.log(scope) == b.live_log(scope, now),
        next.scopes().contains(scope) <==> b.scopes().contains(scope) && b.live_log(
            scope,
            now,
        ).len() > 0,
{
}

/// A burst is under way where the network's budget is down to what is kept for
/// the foreground.
pub proof fn law_foreground_burst(b: OutboundProbeBudget)
    ensures
        b.spec_foreground_burst_active() <==> b.log(ProbeScope::Network).len() >= 384,
{
}

} // verus!

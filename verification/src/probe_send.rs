//! One probe on its way out: built from a snapshot, registered if the
//! snapshot still holds, sent, and taken back if it did not leave.

use vstd::prelude::*;
use crate::diagnostics::{SocketCounter, SocketDiagnostics};
use crate::failure::{ProbeSendFailure, ProbeSendFailureKind};
use crate::net::SocketAddr;
use crate::pending::{
    should_retransmit, verify_snapshot, PendingProbe, PendingProbePurpose, PendingProbes,
    ProbeNonce, ProbePlan, ProbeSnapshot, StaleProbe,
};
use crate::socket_state::SocketState;

verus! {

/// A probe that was built.
pub struct BuiltProbe<'a> {
    pub nonce: ProbeNonce,
    pub plan: ProbePlan,
    pub snapshot: ProbeSnapshot,
    pub socket_index: usize,
    pub peer_id: Option<&'a str>,
    pub endpoint: SocketAddr,
    pub local_endpoint: Option<SocketAddr>,
    pub purpose: PendingProbePurpose,
    pub probe_session_id: Option<String>,
    /// The session that the probe belongs to, where it belongs to one.
    pub token: Option<String>,
    /// A dedicated socket must still be the peer's.
    pub require_exact_dynamic_owner: bool,
}

/// How things stand when a probe is registered.
#[derive(Clone, Copy, Debug)]
pub struct RegistrationState {
    pub remote_candidate_epoch: u64,
    pub network_generation: u64,
    pub direct_commit_seq: Option<u64>,
    pub now: u64,
    /// Nanoseconds that an answer may take.
    pub ack_timeout: u64,
}

impl<'a> BuiltProbe<'a> {
    /// Why the probe must not be sent, if it must not.
    pub open spec fn failure(&self, state: SocketState, at: RegistrationState) -> Option<
        StaleProbe,
    > {
        crate::pending::snapshot_failure(
            state,
            self.snapshot,
            crate::pending::str_option(self.peer_id),
            self.socket_index,
            self.require_exact_dynamic_owner,
            at.remote_candidate_epoch,
            at.network_generation,
        )
    }

    /// Whether `p` is what this probe is registered as.
    pub open spec fn registered_as(&self, p: PendingProbe, at: RegistrationState) -> bool {
        &&& p.sent_at == at.now
        &&& p.expires_at == at.now + at.ack_timeout
        &&& p.endpoint == self.endpoint
        &&& p.local_endpoint == self.local_endpoint
        &&& p.socket_index == self.socket_index
        &&& p.generation == self.snapshot.generation
        &&& p.remote_candidate_epoch == self.snapshot.remote_candidate_epoch
        &&& p.probe_session_id == self.probe_session_id
        &&& crate::text::text_of(p.peer_id) == crate::pending::str_option(self.peer_id)
        &&& p.purpose == self.purpose
        &&& p.accepts_authenticated_ack == self.plan.accepts_authenticated_ack
        &&& p.accepts_legacy_ack == self.plan.accepts_legacy_ack
        &&& p.socket_epoch == self.snapshot.socket_epoch
        &&& p.cleanup_epoch == self.snapshot.cleanup_epoch
        &&& p.direct_commit_seq == match (self.peer_id, at.direct_commit_seq) {
            (Some(_), Some(seq)) => seq,
            _ => 0,
        }
    }
}

/// The probes that are kept when one is registered: young ones of the same
/// network.
pub open spec fn young(probes: Map<u128, PendingProbe>, now: u64, generation: u64) -> Map<
    u128,
    PendingProbe,
> {
    crate::table::kept(
        probes,
        |_n: u128, p: PendingProbe|
            crate::window::elapsed(now, p.sent_at) < crate::pending::PENDING_PROBE_RETENTION
                && p.generation == generation,
    )
}

/// Registers a probe if what it was built from still holds. A stale probe is
/// neither registered nor sent.
pub fn register_probe(
    state: &SocketState,
    pending: &mut PendingProbes,
    probe: BuiltProbe,
    at: &RegistrationState,
) -> (r: Result<(), ProbeSendFailure>)
    requires
        state.wf(),
        old(pending).wf(),
        at.now + at.ack_timeout <= u64::MAX,
    ensures
        final(pending).wf(),
        match probe.failure(*state, *at) {
            Some(stale) => {
                &&& r matches Err(failure) && stale.is_told_by(failure, probe.socket_index)
                &&& *final(pending) == *old(pending)
            },
            None => {
                let kept = young(old(pending).probes@, at.now, probe.snapshot.generation);
                &&& r is Ok
                &&& final(pending).probes@.dom().contains(probe.nonce)
                &&& probe.registered_as(final(pending).probes@[probe.nonce], *at)
                &&& final(pending).probes@ == kept.insert(
                    probe.nonce,
                    final(pending).probes@[probe.nonce],
                )
                &&& final(pending).bindings@ == match probe.token {
                    Some(token) => crate::pending::pruned(
                        old(pending).bindings@,
                        final(pending).probes@,
                    ).insert(probe.nonce, token),
                    None => crate::pending::pruned(
                        old(pending).bindings@,
                        final(pending).probes@,
                    ),
                }
            },
        },
{
    if let Some(stale) = verify_snapshot(
        state,
        &probe.snapshot,
        probe.peer_id,
        probe.socket_index,
        probe.require_exact_dynamic_owner,
        at.remote_candidate_epoch,
        at.network_generation,
    ) {
        return Err(stale.into_failure(probe.socket_index));
    }
    let direct_commit_seq: u64 = match (probe.peer_id, at.direct_commit_seq) {
        (Some(_), Some(seq)) => seq,
        _ => 0,
    };
    let peer_id: Option<String> = match probe.peer_id {
        Some(peer) => Some(peer.to_owned()),
        None => None,
    };
    let entry = PendingProbe {
        sent_at: at.now,
        expires_at: at.now + at.ack_timeout,
        endpoint: probe.endpoint,
        local_endpoint: probe.local_endpoint,
        socket_index: probe.socket_index,
        generation: probe.snapshot.generation,
        remote_candidate_epoch: probe.snapshot.remote_candidate_epoch,
        probe_session_id: probe.probe_session_id,
        peer_id,
        purpose: probe.purpose,
        accepts_authenticated_ack: probe.plan.accepts_authenticated_ack,
        accepts_legacy_ack: probe.plan.accepts_legacy_ack,
        socket_epoch: probe.snapshot.socket_epoch,
        cleanup_epoch: probe.snapshot.cleanup_epoch,
        direct_commit_seq,
    };
    pending.register(probe.nonce, entry, probe.token);
    Ok(())
}

/// Takes back a probe whose first datagram did not leave: no late answer can
/// match it.
pub fn settle_first_send(pending: &mut PendingProbes, nonce: ProbeNonce, sent: bool) -> (r: Result<
    (),
    ProbeSendFailureKind,
>)
    requires
        old(pending).wf(),
    ensures
        final(pending).wf(),
        sent ==> r is Ok && *final(pending) == *old(pending),
        !sent ==> {
            &&& r == Err::<(), ProbeSendFailureKind>(ProbeSendFailureKind::PhysicalSend)
            &&& final(pending).probes@ == old(pending).probes@.remove(nonce)
            &&& final(pending).bindings@ == old(pending).bindings@.remove(nonce)
        },
{
    if sent {
        return Ok(());
    }
    pending.forget(nonce);
    Err(ProbeSendFailureKind::PhysicalSend)
}

/// Which packets of a probe are repeated in a burst: the legacy copy where it
/// left, and the probe itself.
#[derive(Clone, Copy, Debug, PartialEq, Eq, Structural)]
pub struct Retransmissions {
    pub legacy: bool,
    pub probe: bool,
}

pub fn plan_retransmissions(
    use_candidate: bool,
    purpose: PendingProbePurpose,
    compat: Option<bool>,
) -> (r: Retransmissions)
    ensures
        r.probe == (use_candidate || purpose is ConsentCheck),
        r.legacy == (r.probe && compat == Some(true)),
{
    let probe: bool = should_retransmit(use_candidate, purpose);
    let legacy: bool = match compat {
        Some(sent) => sent && probe,
        None => false,
    };
    Retransmissions { legacy, probe }
}

/// Counts a datagram of a probe on its socket; one of a heartbeat counts as
/// that, too.
pub fn count_probe_datagram(
    diagnostics: &mut SocketDiagnostics,
    socket_index: usize,
    purpose: PendingProbePurpose,
)
    requires
        old(diagnostics).wf(),
    ensures
        final(diagnostics).wf(),
        final(diagnostics).dynamic_index_base == old(diagnostics).dynamic_index_base,
        final(diagnostics).ipv6_index == old(diagnostics).ipv6_index,
        ({
            let before = *old(diagnostics);
            let ipv6 = socket_index == before.ipv6_index;
            let dynamic = !ipv6 && socket_index >= before.dynamic_index_base;
            &&& final(diagnostics).ipv6 == if ipv6 && before.ipv6 is Some {
                Some(probed(before.ipv6->0, purpose))
            } else {
                before.ipv6
            }
            &&& final(diagnostics).dynamic@ == if dynamic && before.dynamic@.dom().contains(
                socket_index,
            ) {
                before.dynamic@.insert(socket_index, probed(before.dynamic@[socket_index], purpose))
            } else {
                before.dynamic@
            }
            &&& final(diagnostics).pool@ == if !ipv6 && !dynamic && socket_index
                < before.pool@.len() {
                before.pool@.update(
                    socket_index as int,
                    probed(before.pool@[socket_index as int], purpose),
                )
            } else {
                before.pool@
            }
        }),
{
    diagnostics.update_socket_diagnostics(socket_index, SocketCounter::ProbesSent);
    if matches!(purpose, PendingProbePurpose::RelayBackoffHeartbeat) {
        diagnostics.update_socket_diagnostics(
            socket_index,
            SocketCounter::RelayBackoffHeartbeatProbesSent,
        );
    }
}

/// The counters of a socket after a datagram of a probe.
pub open spec fn probed(
    member: crate::diagnostics::UdpSocketPoolMemberDiagnostics,
    purpose: PendingProbePurpose,
) -> crate::diagnostics::UdpSocketPoolMemberDiagnostics {
    let counted = member.counted(SocketCounter::ProbesSent);
    if purpose is RelayBackoffHeartbeat {
        counted.counted(SocketCounter::RelayBackoffHeartbeatProbesSent)
    } else {
        counted
    }
}

/// A probe built before its peer was cleaned up, or before the network or the
/// peer's candidates changed, is never registered.
pub proof fn law_stale_probe_is_not_registered(
    state: SocketState,
    probe: BuiltProbe<'_>,
    at: RegistrationState,
)
    requires
        at.network_generation != probe.snapshot.generation || at.remote_candidate_epoch
            != probe.snapshot.remote_candidate_epoch || (probe.peer_id matches Some(peer)
            && state@.cleanup_epoch(peer@) != probe.snapshot.cleanup_epoch),
    ensures
        probe.failure(state, at) is Some,
{
}

/// A registered probe is what was built, sent now, and may be answered for as
/// long as an answer may take; it remembers the peer's committed sequence.
pub proof fn law_registered_probe(built: BuiltProbe, p: PendingProbe, at: RegistrationState)
    requires
        built.registered_as(p, at),
    ensures
        p.sent_at == at.now,
        p.expires_at == at.now + at.ack_timeout,
        p.endpoint == built.endpoint,
        p.local_endpoint == built.local_endpoint,
        p.socket_index == built.socket_index,
        p.generation == built.snapshot.generation,
        p.remote_candidate_epoch == built.snapshot.remote_candidate_epoch,
        p.socket_epoch == built.snapshot.socket_epoch,
        p.cleanup_epoch == built.snapshot.cleanup_epoch,
        p.purpose == built.purpose,
        p.probe_session_id == built.probe_session_id,
        p.accepts_authenticated_ack == built.plan.accepts_authenticated_ack,
        p.accepts_legacy_ack == built.plan.accepts_legacy_ack,
        built.peer_id matches Some(peer) ==> (p.peer_id matches Some(id) && id@ == peer@),
        built.peer_id is None ==> p.peer_id is None,
        built.peer_id is Some && at.direct_commit_seq is Some ==> Some(p.direct_commit_seq)
            == at.direct_commit_seq,
        built.peer_id is None || at.direct_commit_seq is None ==> p.direct_commit_seq == 0,
{
}

/// A pending probe is kept exactly where it is younger than a minute and of the
/// network.
pub proof fn law_young_probes(
    probes: Map<u128, PendingProbe>,
    now: u64,
    generation: u64,
    nonce: u128,
)
    ensures
        young(probes, now, generation).dom().contains(nonce) <==> probes.dom().contains(nonce)
            && probes[nonce].generation == generation && now - probes[nonce].sent_at
            < 60_000_000_000,
        young(probes, now, generation).dom().contains(nonce) ==> young(
            probes,
            now,
            generation,
        )[nonce] == probes[nonce],
{
}

/// A built probe is held against the network, the candidates and the socket as
/// they are when it is registered.
pub proof fn law_built_probe_failure(
    built: BuiltProbe,
    state: SocketState,
    at: RegistrationState,
)
    ensures
        at.network_generation != built.snapshot.generation ==> built.failure(state, at) is Some,
        at.remote_candidate_epoch != built.snapshot.remote_candidate_epoch <==> built.failure(
            state,
            at,
        ) == Some(StaleProbe::CandidatesChanged),
        at.network_generation == built.snapshot.generation && at.remote_candidate_epoch
            == built.snapshot.remote_candidate_epoch && !built.require_exact_dynamic_owner && (
        built.peer_id matches Some(peer) && state@.cleanup_epoch(peer@)
            == built.snapshot.cleanup_epoch) ==> built.failure(state, at) is None,
{
}

/// A sent probe counts as one, and a heartbeat besides as one of these.
pub proof fn law_sent_probe_is_counted(
    member: crate::diagnostics::UdpSocketPoolMemberDiagnostics,
    purpose: PendingProbePurpose,
)
    requires
        member.probes_sent < u64::MAX,
        member.relay_backoff_heartbeat_probes_sent < u64::MAX,
    ensures
        probed(member, purpose).probes_sent == member.probes_sent + 1,
        purpose == PendingProbePurpose::RelayBackoffHeartbeat ==> probed(
            member,
            purpose,
        ).relay_backoff_heartbeat_probes_sent == member.relay_backoff_heartbeat_probes_sent + 1,
        purpose != PendingProbePurpose::RelayBackoffHeartbeat ==> probed(
            member,
            purpose,
        ).relay_backoff_heartbeat_probes_sent == member.relay_backoff_heartbeat_probes_sent,
        probed(member, purpose).socket_index == member.socket_index,
{
}

} // verus!

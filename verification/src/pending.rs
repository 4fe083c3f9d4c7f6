//! Probes that wait for their acknowledgement.
//!
//! A probe is stamped with what held when it was sent. Its acknowledgement
//! counts only while that still holds, and only once.

use vstd::prelude::*;
use crate::failure::{DaemonError, ProbeSendFailure, ProbeSendFailureKind};
use crate::net::SocketAddr;
use crate::socket_state::{DynamicPunchSocket, SocketState};
use crate::table::{Table, TableKey};
use crate::text::{is_text, same_text, write_number};
use crate::window::saturating_since;

verus! {

/// The number that ties an acknowledgement to its probe.
pub type ProbeNonce = u128;

/// How long a probe is kept at most.
pub const PENDING_PROBE_RETENTION: u64 = 60_000_000_000;

#[derive(Clone, Copy, Debug, PartialEq, Eq, Structural)]
pub enum PendingProbePurpose {
    ConnectivityCheck,
    ConsentCheck,
    RelayBackoffHeartbeat,
}

/// A probe that was sent.
pub struct PendingProbe {
    pub sent_at: u64,
    /// An acknowledgement after this is stale, although the probe is kept
    /// longer.
    pub expires_at: u64,
    pub endpoint: SocketAddr,
    pub local_endpoint: Option<SocketAddr>,
    pub socket_index: usize,
    pub generation: u64,
    pub remote_candidate_epoch: u64,
    pub probe_session_id: Option<String>,
    pub peer_id: Option<String>,
    pub purpose: PendingProbePurpose,
    pub accepts_authenticated_ack: bool,
    pub accepts_legacy_ack: bool,
    /// The epoch of the peer's pin when the probe was sent.
    pub socket_epoch: u64,
    /// The peer's cleanup epoch when the probe was sent.
    pub cleanup_epoch: u64,
    pub direct_commit_seq: u64,
}

impl PendingProbe {
    /// Whether the probe was sent to a peer.
    pub open spec fn is_of(&self, peer: Seq<char>) -> bool {
        crate::text::text_of(self.peer_id) == Some(peer)
    }

    /// Whether an authenticated acknowledgement of `peer` answers the probe.
    pub open spec fn answered_by(
        &self,
        peer: Seq<char>,
        generation: u64,
        socket_index: usize,
        cleanup_epoch: u64,
    ) -> bool {
        &&& self.generation == generation
        &&& self.socket_index == socket_index
        &&& self.is_of(peer)
        &&& self.cleanup_epoch == cleanup_epoch
        &&& self.accepts_authenticated_ack
    }

    /// Whether a legacy acknowledgement, which carries no identity, answers
    /// the probe: it must come from where the probe went.
    pub open spec fn answered_by_legacy(
        &self,
        source: SocketAddr,
        generation: u64,
        socket_index: usize,
    ) -> bool {
        &&& self.accepts_legacy_ack
        &&& self.endpoint == source
        &&& self.generation == generation
        &&& self.socket_index == socket_index
    }
}

/// What held when a probe was built.
#[derive(Clone, Copy, Debug, PartialEq, Eq, Structural)]
pub struct ProbeSnapshot {
    pub remote_candidate_epoch: u64,
    pub generation: u64,
    pub socket_epoch: u64,
    pub cleanup_epoch: u64,
}

/// Which packets a probe consists of and which acknowledgements it accepts.
#[derive(Clone, Copy, Debug, PartialEq, Eq, Structural)]
pub struct ProbePlan {
    pub authenticated: bool,
    pub accepts_authenticated_ack: bool,
    pub accepts_legacy_ack: bool,
    /// Whether a legacy copy with the same nonce follows.
    pub compat_legacy_probe: bool,
}

/// The bytes of an optional text, counted.
pub open spec fn byte_len(text: Seq<char>) -> nat {
    vstd::utf8::encode_utf8(text).len()
}

/// A probe is authenticated if both names fit in one byte of length and there
/// is a key; a peer of an older kind gets the legacy packet as well.
pub open spec fn planned_probe(
    peer: Option<Seq<char>>,
    local_node: Option<Seq<char>>,
    has_key: bool,
    requires_legacy: bool,
) -> ProbePlan {
    if peer is Some && local_node is Some && byte_len(local_node->0) <= 255 && byte_len(peer->0)
        <= 255 && has_key {
        ProbePlan {
            authenticated: true,
            accepts_authenticated_ack: true,
            accepts_legacy_ack: requires_legacy,
            compat_legacy_probe: requires_legacy,
        }
    } else {
        ProbePlan {
            authenticated: false,
            accepts_authenticated_ack: false,
            accepts_legacy_ack: true,
            compat_legacy_probe: false,
        }
    }
}

pub open spec fn str_option(a: Option<&str>) -> Option<Seq<char>> {
    match a {
        Some(text) => Some(text@),
        None => None,
    }
}

/// Whether a name's length fits in one byte.
fn fits_length_byte(name: &str) -> (r: bool)
    ensures
        r == (byte_len(name@) <= 255),
{
    let bytes: &[u8] = name.as_bytes();
    bytes.len() <= 255
}

pub fn plan_probe(
    peer_id: Option<&str>,
    local_node_id: Option<&str>,
    has_key: bool,
    requires_legacy_probe: bool,
) -> (plan: ProbePlan)
    ensures
        plan == planned_probe(
            str_option(peer_id),
            str_option(local_node_id),
            has_key,
            requires_legacy_probe,
        ),
{
    let authenticated: bool = match (peer_id, local_node_id) {
        (Some(peer), Some(local)) => fits_length_byte(local) && fits_length_byte(peer) && has_key,
        _ => false,
    };
    if authenticated {
        ProbePlan {
            authenticated: true,
            accepts_authenticated_ack: true,
            accepts_legacy_ack: requires_legacy_probe,
            compat_legacy_probe: requires_legacy_probe,
        }
    } else {
        ProbePlan {
            authenticated: false,
            accepts_authenticated_ack: false,
            accepts_legacy_ack: true,
            compat_legacy_probe: false,
        }
    }
}

/// Whether a probe is repeated in a short burst.
pub fn should_retransmit(use_candidate: bool, purpose: PendingProbePurpose) -> (r: bool)
    ensures
        r == (use_candidate || purpose == PendingProbePurpose::ConsentCheck),
{
    use_candidate || matches!(purpose, PendingProbePurpose::ConsentCheck)
}

/// What a probe that left did at the socket.
#[derive(Clone, Copy, Debug, PartialEq, Eq, Structural)]
pub struct ProbeSendResult {
    pub nonce: ProbeNonce,
    pub datagrams_sent: u8,
    pub socket_index: usize,
    pub first_send_at_ms: Option<u64>,
    pub physical_send_errors: u8,
}

/// Books a probe whose first datagram left. `compat` is the outcome of the
/// legacy copy, if one was sent: its failure does not undo the probe.
pub fn sent_probe_result(
    nonce: ProbeNonce,
    socket_index: usize,
    first_send_at_ms: u64,
    compat: Option<bool>,
) -> (r: ProbeSendResult)
    ensures
        r == (ProbeSendResult {
            nonce,
            socket_index,
            first_send_at_ms: Some(first_send_at_ms),
            datagrams_sent: if compat == Some(true) {
                2
            } else {
                1
            },
            physical_send_errors: if compat == Some(false) {
                1
            } else {
                0
            },
        }),
{
    let (datagrams_sent, physical_send_errors): (u8, u8) = match compat {
        Some(true) => (2, 0),
        Some(false) => (1, 1),
        None => (1, 0),
    };
    ProbeSendResult {
        nonce,
        datagrams_sent,
        socket_index,
        first_send_at_ms: Some(first_send_at_ms),
        physical_send_errors,
    }
}

/// Takes the snapshot that a probe is built from.
pub fn snapshot_for_probe(
    state: &SocketState,
    peer_id: Option<&str>,
    remote_candidate_epoch: u64,
    generation: u64,
) -> (snapshot: ProbeSnapshot)
    requires
        state.wf(),
    ensures
        snapshot.remote_candidate_epoch == remote_candidate_epoch,
        snapshot.generation == generation,
        snapshot.socket_epoch == match peer_id {
            Some(peer) => state.pin_epoch(peer@),
            None => 0,
        },
        snapshot.cleanup_epoch == match peer_id {
            Some(peer) => state@.cleanup_epoch(peer@),
            None => 0,
        },
{
    let (socket_epoch, cleanup_epoch): (u64, u64) = match peer_id {
        Some(peer) => (state.affinity_epoch_of(peer), state.peer_probe_cleanup_epoch(peer)),
        None => (0, 0),
    };
    ProbeSnapshot { remote_candidate_epoch, generation, socket_epoch, cleanup_epoch }
}

/// Why a probe built from a snapshot must not be sent.
#[derive(Clone, Copy, Debug, PartialEq, Eq, Structural)]
pub enum StaleProbe {
    /// The peer's candidates changed.
    CandidatesChanged,
    NetworkChanged,
    /// The peer was cleaned up.
    PeerCleanedUp,
    /// The probe would leave from a dedicated socket and is for nobody.
    NoOwner,
    SocketUnavailable,
    /// The dedicated socket is another peer's, or not usable any more.
    SocketNotOwned,
    /// The dedicated socket belongs to another network.
    SocketNetworkChanged,
}

impl StaleProbe {
    pub open spec fn failure_kind(self) -> ProbeSendFailureKind {
        match self {
            Self::CandidatesChanged => ProbeSendFailureKind::CandidateEpochChanged,
            Self::NetworkChanged => ProbeSendFailureKind::NetworkGenerationChanged,
            Self::PeerCleanedUp => ProbeSendFailureKind::PeerSessionChanged,
            Self::NoOwner => ProbeSendFailureKind::SocketRevoked,
            Self::SocketUnavailable => ProbeSendFailureKind::SocketUnavailable,
            Self::SocketNotOwned => ProbeSendFailureKind::SocketRevoked,
            Self::SocketNetworkChanged => ProbeSendFailureKind::NetworkGenerationChanged,
        }
    }

    pub fn kind(self) -> (kind: ProbeSendFailureKind)
        ensures
            kind == self.failure_kind(),
    {
        match self {
            Self::CandidatesChanged => ProbeSendFailureKind::CandidateEpochChanged,
            Self::NetworkChanged => ProbeSendFailureKind::NetworkGenerationChanged,
            Self::PeerCleanedUp => ProbeSendFailureKind::PeerSessionChanged,
            Self::NoOwner => ProbeSendFailureKind::SocketRevoked,
            Self::SocketUnavailable => ProbeSendFailureKind::SocketUnavailable,
            Self::SocketNotOwned => ProbeSendFailureKind::SocketRevoked,
            Self::SocketNetworkChanged => ProbeSendFailureKind::NetworkGenerationChanged,
        }
    }

    pub open spec fn text(self, socket_index: usize) -> Seq<char> {
        let member = "UDP socket pool member "@ + crate::text::number_text(socket_index as nat);
        match self {
            Self::CandidatesChanged => "probe invalidated: remote candidate generation changed"@,
            Self::NetworkChanged => "probe invalidated: network generation changed"@,
            Self::PeerCleanedUp => "probe invalidated: peer cleanup raced the send"@,
            Self::NoOwner => "probe invalidated: dynamic socket has no peer owner"@,
            Self::SocketUnavailable => member + " is unavailable"@,
            Self::SocketNotOwned => member + " is no longer owned by peer"@,
            Self::SocketNetworkChanged => "probe invalidated: dynamic socket generation changed"@,
        }
    }

    pub fn message(self, socket_index: usize) -> (message: String)
        ensures
            message@ == self.text(socket_index),
    {
        match self {
            Self::CandidatesChanged => {
                "probe invalidated: remote candidate generation changed".to_owned()
            },
            Self::NetworkChanged => "probe invalidated: network generation changed".to_owned(),
            Self::PeerCleanedUp => "probe invalidated: peer cleanup raced the send".to_owned(),
            Self::NoOwner => "probe invalidated: dynamic socket has no peer owner".to_owned(),
            Self::SocketUnavailable => name_socket(socket_index, " is unavailable"),
            Self::SocketNotOwned => name_socket(socket_index, " is no longer owned by peer"),
            Self::SocketNetworkChanged => {
                "probe invalidated: dynamic socket generation changed".to_owned()
            },
        }
    }

    /// The failure of a probe that is not sent.
    pub open spec fn is_told_by(self, failure: ProbeSendFailure, socket_index: usize) -> bool {
        &&& failure.kind == self.failure_kind()
        &&& failure.error matches DaemonError::Network(text) && text@ == self.text(socket_index)
        &&& failure.physical_send_errors == 0
        &&& failure.physical_send_error_bytes == 0
    }

    pub fn into_failure(self, socket_index: usize) -> (failure: ProbeSendFailure)
        ensures
            self.is_told_by(failure, socket_index),
    {
        ProbeSendFailure::new(self.kind(), DaemonError::Network(self.message(socket_index)))
    }
}

fn name_socket(socket_index: usize, rest: &str) -> (message: String)
    ensures
        message@ == "UDP socket pool member "@ + crate::text::number_text(socket_index as nat)
            + rest@,
{
    let mut message: String = "UDP socket pool member ".to_owned();
    message.append(write_number(socket_index).as_str());
    message.append(rest);
    message
}

/// Why a probe built from a snapshot must not be sent, if it must not.
/// `exact` asks that a dedicated socket still belongs to the peer.
pub open spec fn snapshot_failure(
    state: SocketState,
    snapshot: ProbeSnapshot,
    peer: Option<Seq<char>>,
    socket_index: usize,
    exact: bool,
    current_remote_candidate_epoch: u64,
    current_generation: u64,
) -> Option<StaleProbe> {
    let cleanup = match peer {
        Some(p) => state@.cleanup_epoch(p),
        None => 0,
    };
    let e = state@.dynamic[socket_index];
    if current_remote_candidate_epoch != snapshot.remote_candidate_epoch {
        Some(StaleProbe::CandidatesChanged)
    } else if current_generation != snapshot.generation {
        Some(StaleProbe::NetworkChanged)
    } else if cleanup != snapshot.cleanup_epoch {
        Some(StaleProbe::PeerCleanedUp)
    } else if exact && socket_index >= state.limits.dynamic_index_base {
        if peer is None {
            Some(StaleProbe::NoOwner)
        } else if !state@.dynamic.dom().contains(socket_index) {
            Some(StaleProbe::SocketUnavailable)
        } else if e.peer != peer->0 || !e.phase.usable() {
            Some(StaleProbe::SocketNotOwned)
        } else if e.network_generation != snapshot.generation {
            Some(StaleProbe::SocketNetworkChanged)
        } else {
            None
        }
    } else {
        None
    }
}

/// Verifies a snapshot again, right before its probe is registered.
pub fn verify_snapshot(
    state: &SocketState,
    snapshot: &ProbeSnapshot,
    peer_id: Option<&str>,
    socket_index: usize,
    require_exact_dynamic_owner: bool,
    current_remote_candidate_epoch: u64,
    current_generation: u64,
) -> (stale: Option<StaleProbe>)
    requires
        state.wf(),
    ensures
        stale == snapshot_failure(
            *state,
            *snapshot,
            str_option(peer_id),
            socket_index,
            require_exact_dynamic_owner,
            current_remote_candidate_epoch,
            current_generation,
        ),
{
    if current_remote_candidate_epoch != snapshot.remote_candidate_epoch {
        return Some(StaleProbe::CandidatesChanged);
    }
    if current_generation != snapshot.generation {
        return Some(StaleProbe::NetworkChanged);
    }
    let cleanup_epoch: u64 = match peer_id {
        Some(peer) => state.peer_probe_cleanup_epoch(peer),
        None => 0,
    };
    if cleanup_epoch != snapshot.cleanup_epoch {
        return Some(StaleProbe::PeerCleanedUp);
    }
    if require_exact_dynamic_owner && socket_index >= state.limits.dynamic_index_base {
        let peer: &str = match peer_id {
            Some(peer) => peer,
            None => {
                return Some(StaleProbe::NoOwner);
            },
        };
        match state.dynamic.get(&socket_index) {
            None => {
                return Some(StaleProbe::SocketUnavailable);
            },
            Some(entry) => {
                assert(state@.dynamic[socket_index] == entry@);
                if !same_text(entry.peer_id.as_str(), peer) || !entry.phase.is_usable() {
                    return Some(StaleProbe::SocketNotOwned);
                }
                if entry.network_generation != snapshot.generation {
                    return Some(StaleProbe::SocketNetworkChanged);
                }
            },
        }
    }
    None
}

/// The probes under way, and the session that a probe was sent for.
pub struct PendingProbes {
    pub probes: Table<u128, PendingProbe>,
    pub bindings: Table<u128, String>,
}

/// The bindings without those whose probe is gone.
pub open spec fn pruned(
    bindings: Map<u128, String>,
    probes: Map<u128, PendingProbe>,
) -> Map<u128, String> {
    crate::table::kept(bindings, |n: u128, _t: String| probes.dom().contains(n))
}

/// The probes of other peers.
pub open spec fn probes_without(probes: Map<u128, PendingProbe>, peer: Seq<char>) -> Map<
    u128,
    PendingProbe,
> {
    crate::table::kept(probes, |_n: u128, p: PendingProbe| !p.is_of(peer))
}

impl PendingProbes {
    pub open spec fn wf(&self) -> bool {
        self.probes.wf() && self.bindings.wf()
    }

    /// The probe of a nonce.
    pub open spec fn probe(&self, nonce: u128) -> Option<PendingProbe> {
        if self.probes@.dom().contains(nonce) {
            Some(self.probes@[nonce])
        } else {
            None
        }
    }

    pub fn new() -> (r: Self)
        ensures
            r.wf(),
            r.probes@ == Map::<u128, PendingProbe>::empty(),
            r.bindings@ == Map::<u128, String>::empty(),
    {
        PendingProbes { probes: Table::new(), bindings: Table::new() }
    }

    /// Registers a probe whose snapshot was just verified. Probes that are
    /// too old or of another network generation are dropped, and so are the
    /// bindings of probes that are gone.
    pub fn register(&mut self, nonce: ProbeNonce, probe: PendingProbe, token: Option<String>)
        requires
            old(self).wf(),
        ensures
            final(self).wf(),
            final(self).probes@ == crate::table::kept(
                old(self).probes@,
                |_n: u128, p: PendingProbe|
                    crate::window::elapsed(probe.sent_at, p.sent_at) < PENDING_PROBE_RETENTION
                        && p.generation == probe.generation,
            ).insert(nonce, probe),
            final(self).bindings@ == match token {
                Some(token) => pruned(old(self).bindings@, final(self).probes@).insert(
                    nonce,
                    token,
                ),
                None => pruned(old(self).bindings@, final(self).probes@),
            },
    {
        let now: u64 = probe.sent_at;
        let generation: u64 = probe.generation;
        let keep = |_n: &u128, p: &PendingProbe| -> (r: bool)
            ensures
                r == (crate::window::elapsed(now, p.sent_at) < PENDING_PROBE_RETENTION
                    && p.generation == generation),
        {
            saturating_since(now, p.sent_at) < PENDING_PROBE_RETENTION && p.generation
                == generation
        };
        self.probes.retain(
            keep,
            Ghost(
                |_n: u128, p: PendingProbe|
                    crate::window::elapsed(now, p.sent_at) < PENDING_PROBE_RETENTION
                        && p.generation == generation,
            ),
        );
        let _ = self.probes.insert(nonce, probe);
        self.prune_hard_hard_probe_bindings();
        if let Some(token) = token {
            let _ = self.bindings.insert(nonce, token);
        }
    }

    /// Forgets a probe whose first datagram did not leave.
    pub fn forget(&mut self, nonce: ProbeNonce)
        requires
            old(self).wf(),
        ensures
            final(self).wf(),
            final(self).probes@ == old(self).probes@.remove(nonce),
            final(self).bindings@ == old(self).bindings@.remove(nonce),
    {
        let _ = self.probes.remove(&nonce);
        let _ = self.bindings.remove(&nonce);
    }

    /// Matches an authenticated acknowledgement and consumes the probe that
    /// it answers.
    pub fn match_authenticated_ack(
        &mut self,
        state: &SocketState,
        peer_id: &str,
        nonce: ProbeNonce,
        generation: u64,
        socket_index: usize,
    ) -> (matched: Option<PendingProbe>)
        requires
            old(self).wf(),
            state.wf(),
        ensures
            final(self).wf(),
            final(self).bindings == old(self).bindings,
            ({
                let probe = old(self).probe(nonce);
                let answers = probe is Some && (probe->0).answered_by(
                    peer_id@,
                    generation,
                    socket_index,
                    state@.cleanup_epoch(peer_id@),
                );
                &&& matched == if answers {
                    probe
                } else {
                    None
                }
                &&& final(self).probes@ == if answers {
                    old(self).probes@.remove(nonce)
                } else {
                    old(self).probes@
                }
            }),
    {
        let cleanup_epoch: u64 = state.peer_probe_cleanup_epoch(peer_id);
        let answers: bool = match self.probes.get(&nonce) {
            Some(p) => p.generation == generation && p.socket_index == socket_index && is_text(
                &p.peer_id,
                peer_id,
            ) && p.cleanup_epoch == cleanup_epoch && p.accepts_authenticated_ack,
            None => false,
        };
        if answers {
            self.probes.remove(&nonce)
        } else {
            None
        }
    }

    /// Matches a legacy acknowledgement and consumes the probe that it
    /// answers.
    pub fn match_legacy_ack(
        &mut self,
        nonce: ProbeNonce,
        source: SocketAddr,
        generation: u64,
        socket_index: usize,
    ) -> (matched: Option<PendingProbe>)
        requires
            old(self).wf(),
        ensures
            final(self).wf(),
            final(self).bindings == old(self).bindings,
            ({
                let probe = old(self).probe(nonce);
                let answers = probe is Some && (probe->0).answered_by_legacy(
                    source,
                    generation,
                    socket_index,
                );
                &&& matched == if answers {
                    probe
                } else {
                    None
                }
                &&& final(self).probes@ == if answers {
                    old(self).probes@.remove(nonce)
                } else {
                    old(self).probes@
                }
            }),
    {
        let answers: bool = match self.probes.get(&nonce) {
            Some(p) => legacy_ack_matches_pending(p, source, generation, socket_index),
            None => false,
        };
        if answers {
            self.probes.remove(&nonce)
        } else {
            None
        }
    }

    /// Puts a matched probe back after its transaction failed, unless its
    /// peer was cleaned up since. An entry that took its place stays.
    pub fn restore_pending_probe_if_peer_still_clean(
        &mut self,
        state: &SocketState,
        nonce: ProbeNonce,
        pending: PendingProbe,
    ) -> (restored: bool)
        requires
            old(self).wf(),
            state.wf(),
        ensures
            final(self).wf(),
            final(self).bindings == old(self).bindings,
            restored == spec_peer_still_clean(*state, pending),
            final(self).probes@ == if restored && !old(self).probes@.dom().contains(nonce) {
                old(self).probes@.insert(nonce, pending)
            } else {
                old(self).probes@
            },
    {
        if !peer_still_clean(state, &pending) {
            return false;
        }
        if !self.probes.contains(&nonce) {
            let _ = self.probes.insert(nonce, pending);
        }
        true
    }

    /// Drops every probe of a peer and moves its cleanup epoch on, so that no
    /// probe of before is matched or put back.
    pub fn clear_pending_probes_for_peer(&mut self, state: &mut SocketState, peer_id: &str)
        requires
            old(self).wf(),
            old(state).wf(),
        ensures
            final(self).wf(),
            final(state).wf(),
            final(state).limits == old(state).limits,
            final(self).probes@ == probes_without(old(self).probes@, peer_id@),
            final(self).bindings@ == pruned(old(self).bindings@, final(self).probes@),
            final(state)@ == (crate::socket_state::Sockets {
                cleanup_epochs: old(state)@.cleanup_epochs.insert(
                    peer_id@,
                    crate::socket_state::next_epoch(old(state)@.cleanup_epoch(peer_id@)),
                ),
                ..old(state)@
            }),
    {
        state.bump_cleanup_epoch(peer_id);
        self.drop_probes_of(peer_id);
        self.prune_hard_hard_probe_bindings();
    }

    fn drop_probes_of(&mut self, peer_id: &str)
        requires
            old(self).wf(),
        ensures
            final(self).wf(),
            final(self).bindings == old(self).bindings,
            final(self).probes@ == probes_without(old(self).probes@, peer_id@),
    {
        let keep = |_n: &u128, p: &PendingProbe| -> (r: bool)
            ensures
                r == !p.is_of(peer_id@),
        {
            !is_text(&p.peer_id, peer_id)
        };
        self.probes.retain(keep, Ghost(|_n: u128, p: PendingProbe| !p.is_of(peer_id@)));
    }

    /// Erases what the transport holds of a peer that left or changed its
    /// identity, in one step: the cleanup epoch moves on, and the probes, the
    /// dedicated sockets and the pin go.
    pub fn cleanup_peer(&mut self, state: &mut SocketState, peer_id: &str) -> (removed: Vec<
        (usize, DynamicPunchSocket),
    >)
        requires
            old(self).wf(),
            old(state).wf(),
        ensures
            final(self).wf(),
            final(state).wf(),
            final(state).limits == old(state).limits,
            final(self).bindings == old(self).bindings,
            final(self).probes@ == probes_without(old(self).probes@, peer_id@),
            final(state)@ == (crate::socket_state::Sockets {
                cleanup_epochs: old(state)@.cleanup_epochs.insert(
                    peer_id@,
                    crate::socket_state::next_epoch(old(state)@.cleanup_epoch(peer_id@)),
                ),
                ..old(state)@.without_peer(peer_id@)
            }),
            crate::socket_state::all_removed(
                removed@,
                old(state)@.dynamic,
                |_i: usize, e: crate::socket_state::DynamicSocket| e.peer == peer_id@,
            ),
    {
        state.bump_cleanup_epoch(peer_id);
        self.drop_probes_of(peer_id);
        state.detach_dynamic_punch_socket(peer_id)
    }

    /// Whether a probe of a socket still waits for its acknowledgement, so
    /// that the socket's reader must stay.
    pub fn waits_on_socket(&self, socket_index: usize) -> (r: bool)
        requires
            self.wf(),
        ensures
            r == exists|n: u128| #[trigger]
                self.probes@.dom().contains(n) && self.probes@[n].socket_index == socket_index,
    {
        let count: usize = self.probes.len();
        let mut i: usize = 0;
        while i < count
            invariant
                self.wf(),
                count == self.probes.seq().len(),
                i <= count,
                forall|j: int|
                    0 <= j < i ==> (#[trigger] self.probes.seq()[j]).1.socket_index != socket_index,
            decreases count - i,
        {
            let row = self.probes.row(i);
            if row.1.socket_index == socket_index {
                assert(self.probes@.dom().contains(row.0));
                return true;
            }
            i += 1;
        }
        proof {
            self.probes.lemma_seq();
            assert forall|n: u128| #[trigger]
                self.probes@.dom().contains(n) implies self.probes@[n].socket_index
                != socket_index by {
                let j = choose|j: int|
                    0 <= j < self.probes.seq().len() && (#[trigger] self.probes.seq()[j]).0.name()
                        == n;
                assert(self.probes.seq()[j].1.socket_index != socket_index);
            }
        }
        false
    }

    /// Drops the probes of a socket whose reader is about to stop.
    pub fn drop_pending_probes_for_socket(&mut self, socket_index: usize)
        requires
            old(self).wf(),
        ensures
            final(self).wf(),
            final(self).probes@ == crate::table::kept(
                old(self).probes@,
                |_n: u128, p: PendingProbe| p.socket_index != socket_index,
            ),
            final(self).bindings@ == pruned(old(self).bindings@, final(self).probes@),
    {
        let keep = |_n: &u128, p: &PendingProbe| -> (r: bool)
            ensures
                r == (p.socket_index != socket_index),
        {
            p.socket_index != socket_index
        };
        self.probes.retain(
            keep,
            Ghost(|_n: u128, p: PendingProbe| p.socket_index != socket_index),
        );
        self.prune_hard_hard_probe_bindings();
    }

    /// Whether a probe was sent for a session.
    pub open spec fn bound_to(&self, nonce: u128, token: Seq<char>) -> bool {
        self.bindings@.dom().contains(nonce) && self.bindings@[nonce]@ == token
    }

    /// Removes the probes that were sent for a session. A probe on the socket
    /// to keep stays, but no longer belongs to the session.
    pub fn clear_hard_hard_pending_probes_for_token(
        &mut self,
        peer_id: &str,
        token: &str,
        preserve: Option<usize>,
    )
        requires
            old(self).wf(),
        ensures
            final(self).wf(),
            final(self).probes@ == crate::table::kept(
                old(self).probes@,
                |n: u128, p: PendingProbe|
                    !p.is_of(peer_id@) || !old(self).bound_to(n, token@) || preserve == Some(
                        p.socket_index,
                    ),
            ),
            final(self).bindings@ == crate::table::kept(
                old(self).bindings@,
                |_n: u128, t: String| t@ != token@,
            ),
    {
        let bindings = &self.bindings;
        let keep = |n: &u128, p: &PendingProbe| -> (r: bool)
            requires
                bindings.wf(),
            ensures
                r == (!p.is_of(peer_id@) || !(bindings@.dom().contains(*n) && bindings@[*n]@
                    == token@) || preserve == Some(p.socket_index)),
        {
            let bound: bool = match bindings.get(n) {
                Some(t) => same_text(t.as_str(), token),
                None => false,
            };
            let kept: bool = match preserve {
                Some(index) => index == p.socket_index,
                None => false,
            };
            !is_text(&p.peer_id, peer_id) || !bound || kept
        };
        self.probes.retain(
            keep,
            Ghost(
                |n: u128, p: PendingProbe|
                    !p.is_of(peer_id@) || !(bindings@.dom().contains(n) && bindings@[n]@ == token@)
                        || preserve == Some(p.socket_index),
            ),
        );
        assert(self.probes@ =~= crate::table::kept(
            old(self).probes@,
            |n: u128, p: PendingProbe|
                !p.is_of(peer_id@) || !old(self).bound_to(n, token@) || preserve == Some(
                    p.socket_index,
                ),
        ));
        let others = |_n: &u128, t: &String| -> (r: bool)
            ensures
                r == (t@ != token@),
        {
            !same_text(t.as_str(), token)
        };
        self.bindings.retain(others, Ghost(|_n: u128, t: String| t@ != token@));
    }

    /// A probe no longer belongs to its session.
    pub fn clear_hard_hard_pending_probe_token(&mut self, nonce: ProbeNonce)
        requires
            old(self).wf(),
        ensures
            final(self).wf(),
            final(self).probes == old(self).probes,
            final(self).bindings@ == old(self).bindings@.remove(nonce),
    {
        let _ = self.bindings.remove(&nonce);
    }

    /// Drops the bindings of probes that are gone.
    pub fn prune_hard_hard_probe_bindings(&mut self)
        requires
            old(self).wf(),
        ensures
            final(self).wf(),
            final(self).probes == old(self).probes,
            final(self).bindings@ == pruned(old(self).bindings@, old(self).probes@),
    {
        let probes = &self.probes;
        let keep = |n: &u128, _t: &String| -> (r: bool)
            requires
                probes.wf(),
            ensures
                r == probes@.dom().contains(*n),
        {
            probes.contains(n)
        };
        self.bindings.retain(keep, Ghost(|n: u128, _t: String| probes@.dom().contains(n)));
        assert(self.bindings@ =~= pruned(old(self).bindings@, old(self).probes@));
    }
}

pub fn legacy_ack_matches_pending(
    pending: &PendingProbe,
    source: SocketAddr,
    generation: u64,
    socket_index: usize,
) -> (r: bool)
    ensures
        r == pending.answered_by_legacy(source, generation, socket_index),
{
    pending.accepts_legacy_ack && pending.endpoint == source && pending.generation == generation
        && pending.socket_index == socket_index
}

/// Whether the peer of a probe was not cleaned up since the probe was sent.
pub open spec fn spec_peer_still_clean(state: SocketState, pending: PendingProbe) -> bool {
    match pending.peer_id {
        Some(peer) => state@.cleanup_epoch(peer@) == pending.cleanup_epoch,
        None => false,
    }
}

pub fn peer_still_clean(state: &SocketState, pending: &PendingProbe) -> (r: bool)
    requires
        state.wf(),
    ensures
        r == spec_peer_still_clean(*state, *pending),
{
    match &pending.peer_id {
        Some(peer) => state.peer_probe_cleanup_epoch(peer.as_str()) == pending.cleanup_epoch,
        None => false,
    }
}

/// An acknowledgement counts once: a probe that was matched is gone, so the
/// same nonce matches nothing afterwards.
pub proof fn law_ack_counts_once(
    before: PendingProbes,
    after: PendingProbes,
    nonce: u128,
)
    requires
        after.probes@ == before.probes@.remove(nonce),
    ensures
        after.probe(nonce) is None,
{
}

/// After a peer was cleaned up nothing of before comes back: no probe of it
/// is left, and one that an acknowledgement had already taken is not clean.
pub proof fn law_cleanup_leaves_nothing(
    probes: Map<u128, PendingProbe>,
    before: SocketState,
    after: SocketState,
    peer: Seq<char>,
    late: PendingProbe,
)
    requires
        before@.cleanup_epoch(peer) < u64::MAX,
        after@.cleanup_epochs == before@.cleanup_epochs.insert(
            peer,
            crate::socket_state::next_epoch(before@.cleanup_epoch(peer)),
        ),
        late.is_of(peer),
        late.cleanup_epoch <= before@.cleanup_epoch(peer),
    ensures
        forall|n: u128| #[trigger]
            probes_without(probes, peer).dom().contains(n) ==> !probes[n].is_of(peer),
        !spec_peer_still_clean(after, late),
        forall|generation: u64, socket_index: usize|
            !#[trigger] late.answered_by(
                peer,
                generation,
                socket_index,
                after@.cleanup_epoch(peer),
            ),
{
}

/// A probe that was built before its peer was cleaned up is never sent.
pub proof fn law_stale_snapshot_is_refused(
    state: SocketState,
    snapshot: ProbeSnapshot,
    peer: Seq<char>,
    socket_index: usize,
    exact: bool,
    remote_epoch: u64,
    generation: u64,
)
    requires
        snapshot.cleanup_epoch != state@.cleanup_epoch(peer) || snapshot.generation != generation
            || snapshot.remote_candidate_epoch != remote_epoch,
    ensures
        snapshot_failure(
            state,
            snapshot,
            Some(peer),
            socket_index,
            exact,
            remote_epoch,
            generation,
        ) is Some,
{
}

/// An answer is to a probe exactly where peer, network, socket and cleanup
/// epoch are the probe's and the probe takes such an answer.
pub proof fn law_answers_to_a_probe(
    p: PendingProbe,
    peer: Seq<char>,
    source: SocketAddr,
    generation: u64,
    socket_index: usize,
    cleanup_epoch: u64,
)
    ensures
        p.is_of(peer) <==> (p.peer_id matches Some(id) && id@ == peer),
        p.answered_by(peer, generation, socket_index, cleanup_epoch) <==> {
            &&& p.accepts_authenticated_ack
            &&& p.peer_id matches Some(id) && id@ == peer
            &&& p.generation == generation
            &&& p.socket_index == socket_index
            &&& p.cleanup_epoch == cleanup_epoch
        },
        p.answered_by_legacy(source, generation, socket_index) <==> {
            &&& p.accepts_legacy_ack
            &&& p.endpoint == source
            &&& p.generation == generation
            &&& p.socket_index == socket_index
        },
{
}

/// A probe is authenticated exactly where both nodes are known by names that
/// fit and the peer's key is known. An authenticated one takes legacy answers,
/// and is followed by a legacy copy, only where the peer needs it; any other
/// takes nothing else.
pub proof fn law_planned_probe(
    peer: Option<Seq<char>>,
    local_node: Option<Seq<char>>,
    has_key: bool,
    requires_legacy: bool,
)
    ensures
        ({
            let plan = planned_probe(peer, local_node, has_key, requires_legacy);
            &&& plan.authenticated <==> has_key && (peer matches Some(p) && vstd::utf8::encode_utf8(
                p,
            ).len() <= 255) && (local_node matches Some(n) && vstd::utf8::encode_utf8(n).len()
                <= 255)
            &&& plan.accepts_authenticated_ack == plan.authenticated
            &&& plan.accepts_legacy_ack <==> !plan.authenticated || requires_legacy
            &&& plan.compat_legacy_probe <==> plan.authenticated && requires_legacy
        }),
{
}

/// What a stale probe is told, and that nothing was sent of it.
pub proof fn law_stale_probe_is_told(stale: StaleProbe, failure: ProbeSendFailure, index: usize)
    ensures
        StaleProbe::CandidatesChanged.failure_kind()
            == ProbeSendFailureKind::CandidateEpochChanged,
        StaleProbe::NetworkChanged.failure_kind() == ProbeSendFailureKind::NetworkGenerationChanged,
        StaleProbe::PeerCleanedUp.failure_kind() == ProbeSendFailureKind::PeerSessionChanged,
        StaleProbe::NoOwner.failure_kind() == ProbeSendFailureKind::SocketRevoked,
        StaleProbe::SocketUnavailable.failure_kind() == ProbeSendFailureKind::SocketUnavailable,
        StaleProbe::SocketNotOwned.failure_kind() == ProbeSendFailureKind::SocketRevoked,
        StaleProbe::SocketNetworkChanged.failure_kind()
            == ProbeSendFailureKind::NetworkGenerationChanged,
        stale.is_told_by(failure, index) ==> failure.kind == stale.failure_kind()
            && failure.physical_send_errors == 0 && failure.physical_send_error_bytes == 0,
{
}

/// A probe goes out exactly while candidates, network and cleanup epoch are
/// those of its snapshot and, where it must leave from a dedicated socket of
/// its peer, that socket sends for the peer in the snapshot's network.
pub proof fn law_probe_goes_out(
    state: SocketState,
    snapshot: ProbeSnapshot,
    peer: Option<Seq<char>>,
    index: usize,
    exact: bool,
    epoch: u64,
    generation: u64,
)
    ensures
        snapshot_failure(state, snapshot, peer, index, exact, epoch, generation) is None <==> {
            &&& epoch == snapshot.remote_candidate_epoch
            &&& generation == snapshot.generation
            &&& peer matches Some(p) ==> state@.cleanup_epoch(p) == snapshot.cleanup_epoch
            &&& peer is None ==> snapshot.cleanup_epoch == 0
            &&& exact && index >= state.limits.dynamic_index_base ==> (peer matches Some(p)
                && state@.dynamic.dom().contains(index) && state@.dynamic[index].peer == p
                && !(state@.dynamic[index].phase is Provisional)
                && state@.dynamic[index].network_generation == snapshot.generation)
        },
{
}

/// What a probe that stays back is told: the first of what moved, and of a
/// dedicated socket whether it has an owner, is there, is the peer's and is of
/// the network.
pub proof fn law_probe_stays_back_for_the_first_reason(
    state: SocketState,
    snapshot: ProbeSnapshot,
    peer: Seq<char>,
    index: usize,
    exact: bool,
    epoch: u64,
    generation: u64,
)
    ensures
        ({
            let r = snapshot_failure(state, snapshot, Some(peer), index, exact, epoch, generation);
            let e = state@.dynamic[index];
            let same = epoch == snapshot.remote_candidate_epoch;
            let network = same && generation == snapshot.generation;
            let clean = network && state@.cleanup_epoch(peer) == snapshot.cleanup_epoch;
            let dedicated = clean && exact && index >= state.limits.dynamic_index_base;
            let there = dedicated && state@.dynamic.dom().contains(index);
            let own = there && e.peer == peer && !(e.phase is Provisional);
            &&& !same <==> r == Some(StaleProbe::CandidatesChanged)
            &&& same && !network <==> r == Some(StaleProbe::NetworkChanged)
            &&& network && !clean <==> r == Some(StaleProbe::PeerCleanedUp)
            &&& dedicated && !there <==> r == Some(StaleProbe::SocketUnavailable)
            &&& there && !own <==> r == Some(StaleProbe::SocketNotOwned)
            &&& own && e.network_generation != snapshot.generation <==> r == Some(
                StaleProbe::SocketNetworkChanged,
            )
            &&& dedicated && snapshot.cleanup_epoch == 0 ==> snapshot_failure(
                state,
                snapshot,
                None,
                index,
                exact,
                epoch,
                generation,
            ) == Some(StaleProbe::NoOwner)
        }),
{
}

/// A binding is kept exactly where its probe is, and the probes of a peer are
/// exactly those that go with it.
pub proof fn law_bindings_follow_the_probes(
    bindings: Map<u128, String>,
    probes: Map<u128, PendingProbe>,
    nonce: u128,
    peer: Seq<char>,
)
    ensures
        pruned(bindings, probes).dom().contains(nonce) <==> bindings.dom().contains(nonce)
            && probes.dom().contains(nonce),
        pruned(bindings, probes).dom().contains(nonce) ==> pruned(bindings, probes)[nonce]
            == bindings[nonce],
        probes_without(probes, peer).dom().contains(nonce) <==> probes.dom().contains(nonce) && !(
        probes[nonce].peer_id matches Some(id) && id@ == peer),
        probes_without(probes, peer).dom().contains(nonce) ==> probes_without(probes, peer)[nonce]
            == probes[nonce],
{
}

/// A probe is looked up by its nonce, and bound to the token it was bound to.
pub proof fn law_probe_lookup(pending: PendingProbes, nonce: u128, token: Seq<char>)
    ensures
        pending.probe(nonce) is Some <==> pending.probes@.dom().contains(nonce),
        pending.probe(nonce) matches Some(p) ==> p == pending.probes@[nonce],
        pending.bound_to(nonce, token) <==> pending.bindings@.dom().contains(nonce)
            && pending.bindings@[nonce]@ == token,
{
}

/// The peer of a probe is clean exactly where it is known and was not cleaned
/// up since.
pub proof fn law_peer_is_clean(state: SocketState, pending: PendingProbe)
    ensures
        spec_peer_still_clean(state, pending) <==> (pending.peer_id matches Some(id)
            && state@.cleanup_epoch(id@) == pending.cleanup_epoch),
        PENDING_PROBE_RETENTION == 60_000_000_000,
{
}

} // verus!

//! The validation of direct paths: one worker for each peer, and one
//! outstanding request whose answer counts once.

use vstd::prelude::*;
use crate::net::SocketAddr;
use crate::table::Table;

verus! {

/// What a validation worker works at.
#[derive(Clone, Copy, Debug, PartialEq, Eq, Structural)]
pub struct DirectValidationTarget {
    pub endpoint: SocketAddr,
    pub generation: u64,
    pub peer_session_generation: u64,
    pub remote_candidate_epoch: u64,
    pub owner_token: u64,
    /// The worker is to stop.
    pub cancelled: bool,
}

impl DirectValidationTarget {
    /// The target as the worker is told that it is over.
    pub open spec fn spec_cancelled(self) -> DirectValidationTarget {
        DirectValidationTarget { cancelled: true, ..self }
    }

    pub fn cancel(self) -> (r: DirectValidationTarget)
        ensures
            r == self.spec_cancelled(),
    {
        DirectValidationTarget { cancelled: true, ..self }
    }
}

/// The answer that a request waits for. It holds on to the socket that the
/// request left from, so that the answer can come in.
pub struct DirectValidationExpectation<L> {
    pub request_id: u16,
    pub generation: u64,
    pub peer_session_generation: u64,
    pub remote_candidate_epoch: u64,
    pub owner_token: u64,
    pub endpoint: Option<SocketAddr>,
    pub socket_index: Option<usize>,
    pub lease: Option<L>,
    pub sent_at: Option<u64>,
    pub expires_at: u64,
}

/// Why an observation starts no validation.
#[derive(Clone, Copy, Debug, PartialEq, Eq, Structural)]
pub enum ValidationRefusal {
    StaleGeneration,
    PeerSessionUnavailable,
    StaleRemoteCandidateEpoch,
    PeerAlreadyDirect,
    PeerIneligible,
    RegistryClosed,
    SlowRelayCooldown,
}

impl ValidationRefusal {
    pub open spec fn text(self) -> Seq<char> {
        match self {
            Self::StaleGeneration => "direct_validation_stale_generation"@,
            Self::PeerSessionUnavailable => "direct_validation_peer_session_unavailable"@,
            Self::StaleRemoteCandidateEpoch => "direct_validation_stale_remote_candidate_epoch"@,
            Self::PeerAlreadyDirect => "direct_validation_peer_already_direct"@,
            Self::PeerIneligible => "direct_validation_peer_ineligible"@,
            Self::RegistryClosed => "direct_validation_transport_registry_closed"@,
            Self::SlowRelayCooldown => "direct_validation_slow_relay_cooldown"@,
        }
    }

    pub fn reason_code(self) -> (r: &'static str)
        ensures
            r@ == self.text(),
    {
        match self {
            Self::StaleGeneration => "direct_validation_stale_generation",
            Self::PeerSessionUnavailable => "direct_validation_peer_session_unavailable",
            Self::StaleRemoteCandidateEpoch => "direct_validation_stale_remote_candidate_epoch",
            Self::PeerAlreadyDirect => "direct_validation_peer_already_direct",
            Self::PeerIneligible => "direct_validation_peer_ineligible",
            Self::RegistryClosed => "direct_validation_transport_registry_closed",
            Self::SlowRelayCooldown => "direct_validation_slow_relay_cooldown",
        }
    }

    /// Whether the observation belongs to something that is over, rather than
    /// to a peer that needs no validation now.
    pub fn is_stale(self) -> (r: bool)
        ensures
            r == (self is StaleGeneration || self is StaleRemoteCandidateEpoch),
    {
        matches!(self, Self::StaleGeneration) || matches!(self, Self::StaleRemoteCandidateEpoch)
    }
}

/// An endpoint to validate, as it was observed.
#[derive(Clone, Copy, Debug, PartialEq, Eq, Structural)]
pub struct ValidationRequest {
    pub endpoint: SocketAddr,
    pub generation: u64,
    pub remote_candidate_epoch: u64,
}

/// How a peer stands when an observation comes in.
#[derive(Clone, Copy, Debug)]
pub struct ValidationFacts {
    pub network_generation: u64,
    /// `None` for a peer that is offline.
    pub peer_session_generation: Option<u64>,
    pub remote_candidate_epoch: u64,
    pub direct: bool,
    /// The endpoint may be validated for the peer.
    pub eligible: bool,
    /// The peer recently proved slower than its relay.
    pub slow_relay: bool,
}

/// Why an observation is turned away.
pub open spec fn refusal(
    request: ValidationRequest,
    facts: ValidationFacts,
    closed: bool,
) -> Option<ValidationRefusal> {
    if facts.network_generation != request.generation {
        Some(ValidationRefusal::StaleGeneration)
    } else if facts.peer_session_generation is None {
        Some(ValidationRefusal::PeerSessionUnavailable)
    } else if facts.remote_candidate_epoch != request.remote_candidate_epoch {
        Some(ValidationRefusal::StaleRemoteCandidateEpoch)
    } else if facts.direct && !facts.eligible {
        Some(ValidationRefusal::PeerAlreadyDirect)
    } else if !facts.eligible {
        Some(ValidationRefusal::PeerIneligible)
    } else if closed {
        Some(ValidationRefusal::RegistryClosed)
    } else if facts.slow_relay {
        Some(ValidationRefusal::SlowRelayCooldown)
    } else {
        None
    }
}

/// What became of an observation.
#[derive(Clone, Copy, Debug, PartialEq, Eq, Structural)]
pub enum DirectValidationSessionStart {
    Ignored(ValidationRefusal),
    /// The worker under way goes on, with this target.
    Merged(DirectValidationTarget),
    /// A worker is to be started; one that is replaced is to be told to stop.
    Spawn(DirectValidationTarget, Option<DirectValidationTarget>),
}

/// An answer to a request.
#[derive(Clone, Copy, Debug)]
pub struct ValidationAck {
    pub request_id: u16,
    pub token_generation: u64,
    pub token_owner: u64,
    pub source: SocketAddr,
    /// The socket that it came in on.
    pub socket_index: Option<usize>,
    /// The peer proved that the source is its own.
    pub endpoint_authenticated: bool,
}

/// Why an answer does not count.
#[derive(Clone, Copy, Debug, PartialEq, Eq, Structural)]
pub enum DirectValidationAckRejectReason {
    TokenGenerationMismatch,
    ExpectationPeerSessionMismatch,
    NoExpectation,
    ExpectationExpired,
    RequestIdMismatch,
    ExpectationGenerationMismatch,
    OwnerMismatch,
    EndpointMismatch,
    SocketMismatch,
    SessionMissing,
    TargetCancelled,
    TargetGenerationMismatch,
    TargetPeerSessionMismatch,
    TargetRemoteCandidateEpochMismatch,
    TargetOwnerMismatch,
}

#[derive(Clone, Copy, Debug, PartialEq, Eq, Structural)]
pub enum DirectValidationSendError {
    NoSocket,
    OwnerRevoked,
}

/// The request that a worker is about to send.
#[derive(Clone, Copy, Debug)]
pub struct DirectValidationIdentity {
    pub request_id: u16,
    pub generation: u64,
    pub peer_session_generation: u64,
    pub remote_candidate_epoch: u64,
    pub owner_token: u64,
    pub endpoint: SocketAddr,
}

/// The workers and their outstanding requests.
pub struct DirectValidationRegistry<L> {
    pub closed: bool,
    pub sessions: Table<String, DirectValidationTarget>,
    pub expectations: Table<String, DirectValidationExpectation<L>>,
    pub next_owner: u64,
}

/// The contents of a registry.
#[verifier::ext_equal]
pub struct Validations<L> {
    pub closed: bool,
    pub sessions: Map<Seq<char>, DirectValidationTarget>,
    pub expectations: Map<Seq<char>, DirectValidationExpectation<L>>,
    pub next_owner: u64,
}

impl<L> Validations<L> {
    /// Whether a worker is under way for the very same thing.
    pub open spec fn merges(
        self,
        peer: Seq<char>,
        request: ValidationRequest,
        peer_session_generation: u64,
    ) -> bool {
        &&& self.sessions.dom().contains(peer)
        &&& !self.sessions[peer].cancelled
        &&& self.sessions[peer].generation == request.generation
        &&& self.sessions[peer].peer_session_generation == peer_session_generation
        &&& self.sessions[peer].remote_candidate_epoch == request.remote_candidate_epoch
    }

    /// The request of a peer is no longer waited for, if it is this owner's.
    pub open spec fn cleared(self, peer: Seq<char>, owner: u64) -> Validations<L> {
        if self.expects_for(peer, owner) {
            Validations { expectations: self.expectations.remove(peer), ..self }
        } else {
            self
        }
    }

    /// Whether an owner's request is waited for.
    pub open spec fn expects_for(self, peer: Seq<char>, owner: u64) -> bool {
        self.expectations.dom().contains(peer) && self.expectations[peer].owner_token == owner
    }

    /// Whether a worker owns its peer's session.
    pub open spec fn owns(self, peer: Seq<char>, owner: u64) -> bool {
        self.sessions.dom().contains(peer) && self.sessions[peer].owner_token == owner
    }

    pub open spec fn finished(self, peer: Seq<char>, owner: u64) -> Validations<L> {
        let cleared = self.cleared(peer, owner);
        if self.owns(peer, owner) {
            Validations { sessions: self.sessions.remove(peer), ..cleared }
        } else {
            cleared
        }
    }

    /// The target of a fresh worker.
    pub open spec fn fresh_target(
        self,
        request: ValidationRequest,
        peer_session_generation: u64,
    ) -> DirectValidationTarget {
        DirectValidationTarget {
            endpoint: request.endpoint,
            generation: request.generation,
            peer_session_generation,
            remote_candidate_epoch: request.remote_candidate_epoch,
            owner_token: self.next_owner,
            cancelled: false,
        }
    }

    /// A fresh worker takes a peer over.
    pub open spec fn spawned(
        self,
        peer: Seq<char>,
        request: ValidationRequest,
        peer_session_generation: u64,
    ) -> Validations<L> {
        let without = if self.sessions.dom().contains(peer) {
            self.cleared(peer, self.sessions[peer].owner_token)
        } else {
            self
        };
        Validations {
            sessions: self.sessions.insert(
                peer,
                self.fresh_target(request, peer_session_generation),
            ),
            next_owner: (self.next_owner + 1) as u64,
            ..without
        }
    }

    /// The worker under way is told of another endpoint. A request to an
    /// endpoint that a better one replaced is no longer waited for.
    pub open spec fn merged(
        self,
        peer: Seq<char>,
        endpoint: SocketAddr,
        replace: bool,
        upgrade: bool,
    ) -> Validations<L> {
        let current = self.sessions[peer];
        let target = if replace {
            endpoint
        } else {
            current.endpoint
        };
        let next = if target != current.endpoint && upgrade {
            self.cleared(peer, current.owner_token)
        } else {
            self
        };
        Validations {
            sessions: self.sessions.insert(
                peer,
                DirectValidationTarget { endpoint: target, ..current },
            ),
            ..next
        }
    }

    /// Whether an observation starts a worker.
    pub open spec fn spawns(
        self,
        peer: Seq<char>,
        request: ValidationRequest,
        facts: ValidationFacts,
    ) -> bool {
        &&& refusal(request, facts, self.closed) is None
        &&& !self.merges(peer, request, facts.peer_session_generation->0)
    }

    /// What an observation does: it is turned away, told to the worker under
    /// way, or starts a worker in place of the one before.
    pub open spec fn begins_to(
        self,
        next: Validations<L>,
        start: DirectValidationSessionStart,
        peer: Seq<char>,
        request: ValidationRequest,
        facts: ValidationFacts,
        replace: bool,
        upgrade: bool,
    ) -> bool {
        match refusal(request, facts, self.closed) {
            Some(reason) => {
                &&& start == DirectValidationSessionStart::Ignored(reason)
                &&& next == self
            },
            None => {
                let session = facts.peer_session_generation->0;
                if self.merges(peer, request, session) {
                    &&& next == self.merged(peer, request.endpoint, replace, upgrade)
                    &&& start == DirectValidationSessionStart::Merged(next.sessions[peer])
                } else {
                    &&& next == self.spawned(peer, request, session)
                    &&& start == DirectValidationSessionStart::Spawn(
                        self.fresh_target(request, session),
                        if self.sessions.dom().contains(peer) {
                            Some(self.sessions[peer].spec_cancelled())
                        } else {
                            None
                        },
                    )
                }
            },
        }
    }

    /// Whether a worker that was started is neither finished nor told to stop.
    pub open spec fn works_at(self, peer: Seq<char>, lease: DirectValidationTarget) -> bool {
        &&& self.owns(peer, lease.owner_token)
        &&& !self.sessions[peer].cancelled
        &&& self.sessions[peer].generation == lease.generation
        &&& self.sessions[peer].peer_session_generation == lease.peer_session_generation
        &&& self.sessions[peer].remote_candidate_epoch == lease.remote_candidate_epoch
    }

    /// Whether a worker's request is still its own to send.
    pub open spec fn accepts(
        self,
        peer: Seq<char>,
        expectation: DirectValidationExpectation<L>,
    ) -> bool {
        &&& self.sessions.dom().contains(peer)
        &&& ({
            let t = self.sessions[peer];
            &&& !t.cancelled
            &&& t.generation == expectation.generation
            &&& t.peer_session_generation == expectation.peer_session_generation
            &&& t.remote_candidate_epoch == expectation.remote_candidate_epoch
            &&& t.owner_token == expectation.owner_token
            &&& expectation.endpoint == Some(t.endpoint)
        })
    }

    /// Why an answer does not count, the first reason that applies.
    pub open spec fn ack_rejection(
        self,
        peer: Seq<char>,
        ack: ValidationAck,
        network_generation: u64,
        peer_session_generation: Option<u64>,
        now: u64,
    ) -> Option<DirectValidationAckRejectReason> {
        let e = self.expectations[peer];
        let t = self.sessions[peer];
        if ack.token_generation != network_generation {
            Some(DirectValidationAckRejectReason::TokenGenerationMismatch)
        } else if peer_session_generation is None {
            Some(DirectValidationAckRejectReason::ExpectationPeerSessionMismatch)
        } else if !self.expectations.dom().contains(peer) {
            Some(DirectValidationAckRejectReason::NoExpectation)
        } else if e.expires_at <= now {
            Some(DirectValidationAckRejectReason::ExpectationExpired)
        } else if e.request_id != ack.request_id {
            Some(DirectValidationAckRejectReason::RequestIdMismatch)
        } else if e.generation != ack.token_generation {
            Some(DirectValidationAckRejectReason::ExpectationGenerationMismatch)
        } else if e.peer_session_generation != peer_session_generation->0 {
            Some(DirectValidationAckRejectReason::ExpectationPeerSessionMismatch)
        } else if e.owner_token != ack.token_owner {
            Some(DirectValidationAckRejectReason::OwnerMismatch)
        } else if e.endpoint is Some && e.endpoint != Some(ack.source)
            && !ack.endpoint_authenticated {
            Some(DirectValidationAckRejectReason::EndpointMismatch)
        } else if e.socket_index is Some && e.socket_index != ack.socket_index {
            Some(DirectValidationAckRejectReason::SocketMismatch)
        } else if !self.sessions.dom().contains(peer) {
            Some(DirectValidationAckRejectReason::SessionMissing)
        } else if t.cancelled {
            Some(DirectValidationAckRejectReason::TargetCancelled)
        } else if t.generation != network_generation {
            Some(DirectValidationAckRejectReason::TargetGenerationMismatch)
        } else if t.peer_session_generation != peer_session_generation->0 {
            Some(DirectValidationAckRejectReason::TargetPeerSessionMismatch)
        } else if t.remote_candidate_epoch != e.remote_candidate_epoch {
            Some(DirectValidationAckRejectReason::TargetRemoteCandidateEpochMismatch)
        } else if t.owner_token != ack.token_owner {
            Some(DirectValidationAckRejectReason::TargetOwnerMismatch)
        } else {
            None
        }
    }

    /// Every outstanding request is that of its peer's current worker, and no
    /// worker outlives a closed registry.
    pub open spec fn consistent(self) -> bool {
        &&& forall|p: Seq<char>| #[trigger]
            self.sessions.dom().contains(p) ==> self.sessions[p].owner_token < self.next_owner
        &&& forall|p: Seq<char>| #[trigger]
            self.expectations.dom().contains(p) ==> self.sessions.dom().contains(p)
                && self.expectations[p].owner_token == self.sessions[p].owner_token
        &&& self.closed ==> self.sessions == Map::<Seq<char>, DirectValidationTarget>::empty()
            && self.expectations == Map::<Seq<char>, DirectValidationExpectation<L>>::empty()
    }
}

proof fn lemma_spawned<L>(
    v: Validations<L>,
    peer: Seq<char>,
    request: ValidationRequest,
    session: u64,
)
    requires
        v.consistent(),
        !v.closed,
        v.next_owner < u64::MAX,
    ensures
        v.spawned(peer, request, session).consistent(),
{
    let next = v.spawned(peer, request, session);
    assert forall|p: Seq<char>| #[trigger] next.sessions.dom().contains(p) implies
        next.sessions[p].owner_token < next.next_owner by {
        assert(p == peer || v.sessions.dom().contains(p));
    }
    assert forall|p: Seq<char>| #[trigger] next.expectations.dom().contains(p) implies
        next.sessions.dom().contains(p) && next.expectations[p].owner_token
        == next.sessions[p].owner_token by {
        assert(v.expectations.dom().contains(p));
        assert(p != peer);
    }
}

proof fn lemma_merged<L>(
    v: Validations<L>,
    peer: Seq<char>,
    endpoint: SocketAddr,
    replace: bool,
    upgrade: bool,
)
    requires
        v.consistent(),
        v.sessions.dom().contains(peer),
    ensures
        v.merged(peer, endpoint, replace, upgrade).consistent(),
{
    let next = v.merged(peer, endpoint, replace, upgrade);
    assert forall|p: Seq<char>| #[trigger] next.sessions.dom().contains(p) implies
        next.sessions[p].owner_token < next.next_owner by {
        assert(p == peer || v.sessions.dom().contains(p));
    }
    assert forall|p: Seq<char>| #[trigger] next.expectations.dom().contains(p) implies
        next.sessions.dom().contains(p) && next.expectations[p].owner_token
        == next.sessions[p].owner_token by {
        assert(v.expectations.dom().contains(p));
    }
}

proof fn lemma_finished<L>(v: Validations<L>, peer: Seq<char>, owner: u64)
    requires
        v.consistent(),
    ensures
        v.finished(peer, owner).consistent(),
        v.cleared(peer, owner).consistent(),
{
    let cleared = v.cleared(peer, owner);
    assert forall|p: Seq<char>| #[trigger] cleared.expectations.dom().contains(p) implies
        cleared.sessions.dom().contains(p) && cleared.expectations[p].owner_token
        == cleared.sessions[p].owner_token by {
        assert(v.expectations.dom().contains(p));
    }
    let next = v.finished(peer, owner);
    assert forall|p: Seq<char>| #[trigger] next.sessions.dom().contains(p) implies
        next.sessions[p].owner_token < next.next_owner by {
        assert(v.sessions.dom().contains(p));
    }
    assert forall|p: Seq<char>| #[trigger] next.expectations.dom().contains(p) implies
        next.sessions.dom().contains(p) && next.expectations[p].owner_token
        == next.sessions[p].owner_token by {
        assert(v.expectations.dom().contains(p));
    }
}

proof fn lemma_expecting<L>(
    v: Validations<L>,
    peer: Seq<char>,
    expectation: DirectValidationExpectation<L>,
)
    requires
        v.consistent(),
        v.owns(peer, expectation.owner_token),
    ensures
        (Validations { expectations: v.expectations.insert(peer, expectation), ..v }).consistent(),
        (Validations { expectations: v.expectations.remove(peer), ..v }).consistent(),
{
    let next = Validations { expectations: v.expectations.insert(peer, expectation), ..v };
    assert forall|p: Seq<char>| #[trigger] next.expectations.dom().contains(p) implies
        next.sessions.dom().contains(p) && next.expectations[p].owner_token
        == next.sessions[p].owner_token by {
        assert(p == peer || v.expectations.dom().contains(p));
    }
    let gone = Validations { expectations: v.expectations.remove(peer), ..v };
    assert forall|p: Seq<char>| #[trigger] gone.expectations.dom().contains(p) implies
        gone.sessions.dom().contains(p) && gone.expectations[p].owner_token
        == gone.sessions[p].owner_token by {
        assert(v.expectations.dom().contains(p));
    }
}

impl<L> DirectValidationRegistry<L> {
    pub open spec fn view(&self) -> Validations<L> {
        Validations {
            closed: self.closed,
            sessions: self.sessions@,
            expectations: self.expectations@,
            next_owner: self.next_owner,
        }
    }

    pub open spec fn wf(&self) -> bool {
        &&& self.sessions.wf()
        &&& self.expectations.wf()
        &&& self@.consistent()
    }

    pub fn new() -> (r: Self)
        ensures
            r.wf(),
            r@ == (Validations::<L> {
                closed: false,
                sessions: Map::empty(),
                expectations: Map::empty(),
                next_owner: 1,
            }),
    {
        DirectValidationRegistry {
            closed: false,
            sessions: Table::new(),
            expectations: Table::new(),
            next_owner: 1,
        }
    }

    /// Why an observation would be turned away.
    pub fn check_request(&self, request: &ValidationRequest, facts: &ValidationFacts) -> (r: Option<
        ValidationRefusal,
    >)
        ensures
            r == refusal(*request, *facts, self.closed),
    {
        if facts.network_generation != request.generation {
            Some(ValidationRefusal::StaleGeneration)
        } else if facts.peer_session_generation.is_none() {
            Some(ValidationRefusal::PeerSessionUnavailable)
        } else if facts.remote_candidate_epoch != request.remote_candidate_epoch {
            Some(ValidationRefusal::StaleRemoteCandidateEpoch)
        } else if facts.direct && !facts.eligible {
            Some(ValidationRefusal::PeerAlreadyDirect)
        } else if !facts.eligible {
            Some(ValidationRefusal::PeerIneligible)
        } else if self.closed {
            Some(ValidationRefusal::RegistryClosed)
        } else if facts.slow_relay {
            Some(ValidationRefusal::SlowRelayCooldown)
        } else {
            None
        }
    }

    /// The target of a peer's worker.
    pub fn direct_validation_target(&self, peer_id: &str) -> (target: Option<
        DirectValidationTarget,
    >)
        requires
            self.wf(),
        ensures
            target == if self@.sessions.dom().contains(peer_id@) {
                Some(self@.sessions[peer_id@])
            } else {
                None
            },
    {
        match self.sessions.get(&peer_id.to_owned()) {
            Some(target) => Some(*target),
            None => None,
        }
    }

    /// Starts a worker for an observation, or tells the one under way. For
    /// one peer and generation there is never a second worker. `replace` says
    /// whether the endpoint is preferred to the current target, `upgrade`
    /// whether it is on a better link.
    pub fn begin_or_merge_direct_validation(
        &mut self,
        peer_id: &str,
        request: ValidationRequest,
        facts: &ValidationFacts,
        replace: bool,
        upgrade: bool,
    ) -> (start: DirectValidationSessionStart)
        requires
            old(self).wf(),
            old(self)@.spawns(peer_id@, request, *facts) ==> old(self).next_owner < u64::MAX,
        ensures
            final(self).wf(),
            old(self)@.begins_to(final(self)@, start, peer_id@, request, *facts, replace, upgrade),
            start is Ignored ==> *final(self) == *old(self),
    {
        if let Some(reason) = self.check_request(&request, facts) {
            return DirectValidationSessionStart::Ignored(reason);
        }
        let peer_session_generation: u64 = match facts.peer_session_generation {
            Some(generation) => generation,
            None => 0,
        };
        let current: Option<DirectValidationTarget> = self.direct_validation_target(peer_id);
        let peer: String = peer_id.to_owned();
        if let Some(current) = current {
            if !current.cancelled && current.generation == request.generation && current.peer_session_generation
                == peer_session_generation && current.remote_candidate_epoch
                == request.remote_candidate_epoch {
                proof {
                    lemma_merged(self@, peer_id@, request.endpoint, replace, upgrade);
                }
                let endpoint: SocketAddr = if replace {
                    request.endpoint
                } else {
                    current.endpoint
                };
                let target = DirectValidationTarget { endpoint, ..current };
                if endpoint != current.endpoint && upgrade {
                    let _ = self.drop_expectation(peer_id, current.owner_token);
                }
                let _ = self.sessions.insert(peer, target);
                assert(self@ =~= old(self)@.merged(peer_id@, request.endpoint, replace, upgrade));
                return DirectValidationSessionStart::Merged(target);
            }
        }
        proof {
            lemma_spawned(self@, peer_id@, request, peer_session_generation);
        }
        if let Some(current) = current {
            let _ = self.drop_expectation(peer_id, current.owner_token);
        }
        let owner_token: u64 = self.next_owner;
        self.next_owner = owner_token + 1;
        let target = DirectValidationTarget {
            endpoint: request.endpoint,
            generation: request.generation,
            peer_session_generation,
            remote_candidate_epoch: request.remote_candidate_epoch,
            owner_token,
            cancelled: false,
        };
        let _ = self.sessions.insert(peer, target);
        assert(self@ =~= old(self)@.spawned(peer_id@, request, peer_session_generation));
        let replaced: Option<DirectValidationTarget> = match current {
            Some(current) => Some(current.cancel()),
            None => None,
        };
        DirectValidationSessionStart::Spawn(target, replaced)
    }

    fn drop_expectation(&mut self, peer_id: &str, owner_token: u64) -> (dropped: bool)
        requires
            old(self).expectations.wf(),
        ensures
            final(self).expectations.wf(),
            final(self).sessions == old(self).sessions,
            final(self)@ == old(self)@.cleared(peer_id@, owner_token),
            dropped == old(self)@.expects_for(peer_id@, owner_token),
    {
        let peer: String = peer_id.to_owned();
        let owned: bool = match self.expectations.get(&peer) {
            Some(expectation) => expectation.owner_token == owner_token,
            None => false,
        };
        if owned {
            let _ = self.expectations.remove(&peer);
        }
        owned
    }

    /// Ends every validation for good.
    pub fn cancel_all(&mut self)
        requires
            old(self).wf(),
        ensures
            final(self).wf(),
            final(self)@ == (Validations::<L> {
                closed: true,
                sessions: Map::empty(),
                expectations: Map::empty(),
                next_owner: old(self).next_owner,
            }),
    {
        self.closed = true;
        self.sessions.clear();
        self.expectations.clear();
    }

    /// Ends the session of a worker, unless another worker has taken over.
    /// Returns what it worked at, as the worker is told that it is over.
    pub fn finish_direct_validation_session(&mut self, peer_id: &str, owner_token: u64) -> (
    finished: Option<DirectValidationTarget>)
        requires
            old(self).wf(),
        ensures
            final(self).wf(),
            final(self)@ == old(self)@.finished(peer_id@, owner_token),
            finished == if old(self)@.owns(peer_id@, owner_token) {
                Some(old(self)@.sessions[peer_id@].spec_cancelled())
            } else {
                None
            },
    {
        proof {
            lemma_finished(self@, peer_id@, owner_token);
        }
        let target: Option<DirectValidationTarget> = self.direct_validation_target(peer_id);
        let _ = self.drop_expectation(peer_id, owner_token);
        let finished: Option<DirectValidationTarget> = match target {
            Some(target) => {
                if target.owner_token == owner_token {
                    let _ = self.sessions.remove(&peer_id.to_owned());
                    Some(target.cancel())
                } else {
                    None
                }
            },
            None => None,
        };
        assert(self@ =~= old(self)@.finished(peer_id@, owner_token));
        finished
    }

    /// Waits for the answer to a request, if its worker still owns the
    /// endpoint. An expectation that is turned away is dropped.
    pub fn register_direct_validation_expectation(
        &mut self,
        peer_id: &str,
        expectation: DirectValidationExpectation<L>,
    ) -> (registered: bool)
        requires
            old(self).wf(),
        ensures
            final(self).wf(),
            registered == old(self)@.accepts(peer_id@, expectation),
            final(self)@ == if registered {
                Validations {
                    expectations: old(self)@.expectations.insert(peer_id@, expectation),
                    ..old(self)@
                }
            } else {
                old(self)@
            },
    {
        let active: bool = match self.direct_validation_target(peer_id) {
            Some(target) => !target.cancelled && target.generation == expectation.generation
                && target.peer_session_generation == expectation.peer_session_generation
                && target.remote_candidate_epoch == expectation.remote_candidate_epoch
                && target.owner_token == expectation.owner_token && match expectation.endpoint {
                Some(endpoint) => endpoint == target.endpoint,
                None => false,
            },
            None => false,
        };
        if active {
            proof {
                lemma_expecting(self@, peer_id@, expectation);
            }
            let ghost next = Validations {
                expectations: self@.expectations.insert(peer_id@, expectation),
                ..self@
            };
            let _ = self.expectations.insert(peer_id.to_owned(), expectation);
            assert(self@ =~= next);
        }
        active
    }

    /// Waits for the answer on exactly the socket that the request will leave
    /// from.
    pub fn prepare_direct_validation_send(
        &mut self,
        peer_id: &str,
        identity: &DirectValidationIdentity,
        resolved: Option<(usize, L)>,
        expires_at: u64,
    ) -> (r: Result<usize, DirectValidationSendError>)
        requires
            old(self).wf(),
        ensures
            final(self).wf(),
            match resolved {
                None => {
                    &&& r == Err::<usize, DirectValidationSendError>(
                        DirectValidationSendError::NoSocket,
                    )
                    &&& final(self)@ == old(self)@
                },
                Some((socket_index, lease)) => {
                    let expectation = DirectValidationExpectation {
                        request_id: identity.request_id,
                        generation: identity.generation,
                        peer_session_generation: identity.peer_session_generation,
                        remote_candidate_epoch: identity.remote_candidate_epoch,
                        owner_token: identity.owner_token,
                        endpoint: Some(identity.endpoint),
                        socket_index: Some(socket_index),
                        lease: Some(lease),
                        sent_at: None,
                        expires_at,
                    };
                    if old(self)@.accepts(peer_id@, expectation) {
                        &&& r == Ok::<usize, DirectValidationSendError>(socket_index)
                        &&& final(self)@ == (Validations {
                            expectations: old(self)@.expectations.insert(peer_id@, expectation),
                            ..old(self)@
                        })
                    } else {
                        &&& r == Err::<usize, DirectValidationSendError>(
                            DirectValidationSendError::OwnerRevoked,
                        )
                        &&& final(self)@ == old(self)@
                    }
                },
            },
    {
        match resolved {
            None => Err(DirectValidationSendError::NoSocket),
            Some((socket_index, lease)) => {
                let expectation = DirectValidationExpectation {
                    request_id: identity.request_id,
                    generation: identity.generation,
                    peer_session_generation: identity.peer_session_generation,
                    remote_candidate_epoch: identity.remote_candidate_epoch,
                    owner_token: identity.owner_token,
                    endpoint: Some(identity.endpoint),
                    socket_index: Some(socket_index),
                    lease: Some(lease),
                    sent_at: None,
                    expires_at,
                };
                if self.register_direct_validation_expectation(peer_id, expectation) {
                    Ok(socket_index)
                } else {
                    Err(DirectValidationSendError::OwnerRevoked)
                }
            },
        }
    }

    /// Goes on with a prepared request that the peer's record took up, and
    /// withdraws one that it did not.
    pub fn on_validation_started(&mut self, peer_id: &str, owner_token: u64, started: bool) -> (r:
        Result<(), DirectValidationSendError>)
        requires
            old(self).wf(),
        ensures
            final(self).wf(),
            r is Ok <==> started,
            r is Err ==> r->Err_0 == DirectValidationSendError::OwnerRevoked,
            final(self)@ == if started {
                old(self)@
            } else {
                old(self)@.cleared(peer_id@, owner_token)
            },
    {
        if started {
            return Ok(());
        }
        let _ = self.clear_direct_validation_expectation_if_owned(peer_id, owner_token);
        Err(DirectValidationSendError::OwnerRevoked)
    }

    /// Notes when a request leaves, if it is still waited for.
    pub fn mark_direct_validation_send_started(
        &mut self,
        peer_id: &str,
        request_id: u16,
        generation: u64,
        owner_token: u64,
        now: u64,
    ) -> (marked: bool)
        requires
            old(self).wf(),
        ensures
            final(self).wf(),
            ({
                let v = old(self)@;
                let e = v.expectations[peer_id@];
                &&& marked == (v.expectations.dom().contains(peer_id@) && e.request_id
                    == request_id && e.generation == generation && e.owner_token == owner_token
                    && e.expires_at > now)
                &&& final(self)@ == if marked {
                    Validations {
                        expectations: v.expectations.insert(
                            peer_id@,
                            DirectValidationExpectation { sent_at: Some(now), ..e },
                        ),
                        ..v
                    }
                } else {
                    v
                }
            }),
    {
        let peer: String = peer_id.to_owned();
        let ghost v = self@;
        let ghost e = v.expectations[peer_id@];
        let matched: bool = match self.expectations.get(&peer) {
            Some(expectation) => expectation.request_id == request_id && expectation.generation
                == generation && expectation.owner_token == owner_token && expectation.expires_at
                > now,
            None => false,
        };
        if !matched {
            return false;
        }
        proof {
            lemma_expecting(
                v,
                peer_id@,
                DirectValidationExpectation { sent_at: Some(now), ..e },
            );
        }
        if let Some(expectation) = self.expectations.get_mut(&peer) {
            expectation.sent_at = Some(now);
        }
        assert(self@ =~= (Validations {
            expectations: v.expectations.insert(
                peer_id@,
                DirectValidationExpectation { sent_at: Some(now), ..e },
            ),
            ..v
        }));
        true
    }

    /// Withdraws a request that did not leave, if its worker still owns it.
    pub fn clear_direct_validation_expectation_if_owned(
        &mut self,
        peer_id: &str,
        owner_token: u64,
    ) -> (cleared: bool)
        requires
            old(self).wf(),
        ensures
            final(self).wf(),
            cleared == old(self)@.expects_for(peer_id@, owner_token),
            final(self)@ == old(self)@.cleared(peer_id@, owner_token),
    {
        proof {
            lemma_finished(self@, peer_id@, owner_token);
        }
        self.drop_expectation(peer_id, owner_token)
    }

    /// Takes the answer to a request. Only the answer that is waited for, in
    /// time, from where and on the socket it belongs, counts; and it counts
    /// once.
    #[verifier::rlimit(30)]
    pub fn consume_direct_validation_ack(
        &mut self,
        peer_id: &str,
        ack: &ValidationAck,
        network_generation: u64,
        peer_session_generation: Option<u64>,
        now: u64,
    ) -> (r: Result<DirectValidationExpectation<L>, DirectValidationAckRejectReason>)
        requires
            old(self).wf(),
        ensures
            final(self).wf(),
            match old(self)@.ack_rejection(
                peer_id@,
                *ack,
                network_generation,
                peer_session_generation,
                now,
            ) {
                Some(reason) => {
                    &&& r == Err::<
                        DirectValidationExpectation<L>,
                        DirectValidationAckRejectReason,
                    >(reason)
                    &&& final(self)@ == if reason is ExpectationExpired {
                        Validations {
                            expectations: old(self)@.expectations.remove(peer_id@),
                            ..old(self)@
                        }
                    } else {
                        old(self)@
                    }
                },
                None => {
                    &&& r == Ok::<
                        DirectValidationExpectation<L>,
                        DirectValidationAckRejectReason,
                    >(old(self)@.expectations[peer_id@])
                    &&& final(self)@ == (Validations {
                        expectations: old(self)@.expectations.remove(peer_id@),
                        ..old(self)@
                    })
                },
            },
    {
        if ack.token_generation != network_generation {
            return Err(DirectValidationAckRejectReason::TokenGenerationMismatch);
        }
        let session: u64 = match peer_session_generation {
            Some(generation) => generation,
            None => {
                return Err(DirectValidationAckRejectReason::ExpectationPeerSessionMismatch);
            },
        };
        let peer: String = peer_id.to_owned();
        let ghost v = self@;
        let rejection: Option<DirectValidationAckRejectReason> = match self.expectations.get(
            &peer,
        ) {
            None => Some(DirectValidationAckRejectReason::NoExpectation),
            Some(expectation) => judge_expectation(expectation, ack, session, now),
        };
        proof {
            if v.expectations.dom().contains(peer_id@) {
                lemma_expecting(v, peer_id@, v.expectations[peer_id@]);
            }
        }
        if let Some(reason) = rejection {
            if matches!(reason, DirectValidationAckRejectReason::ExpectationExpired) {
                let _ = self.expectations.remove(&peer);
                assert(self@ =~= (Validations {
                    expectations: v.expectations.remove(peer_id@),
                    ..v
                }));
            }
            return Err(reason);
        }
        let target: DirectValidationTarget = match self.direct_validation_target(peer_id) {
            Some(target) => target,
            None => {
                return Err(DirectValidationAckRejectReason::SessionMissing);
            },
        };
        if target.cancelled {
            return Err(DirectValidationAckRejectReason::TargetCancelled);
        }
        if target.generation != network_generation {
            return Err(DirectValidationAckRejectReason::TargetGenerationMismatch);
        }
        if target.peer_session_generation != session {
            return Err(DirectValidationAckRejectReason::TargetPeerSessionMismatch);
        }
        let same_epoch: bool = match self.expectations.get(&peer) {
            Some(expectation) => expectation.remote_candidate_epoch
                == target.remote_candidate_epoch,
            None => true,
        };
        if !same_epoch {
            return Err(DirectValidationAckRejectReason::TargetRemoteCandidateEpochMismatch);
        }
        if target.owner_token != ack.token_owner {
            return Err(DirectValidationAckRejectReason::TargetOwnerMismatch);
        }
        match self.expectations.remove(&peer) {
            Some(expectation) => {
                assert(self@ =~= (Validations {
                    expectations: v.expectations.remove(peer_id@),
                    ..v
                }));
                Ok(expectation)
            },
            None => Err(DirectValidationAckRejectReason::NoExpectation),
        }
    }
}

fn judge_expectation<L>(
    expectation: &DirectValidationExpectation<L>,
    ack: &ValidationAck,
    peer_session_generation: u64,
    now: u64,
) -> (r: Option<DirectValidationAckRejectReason>)
    ensures
        r == ({
            let e = *expectation;
            if e.expires_at <= now {
                Some(DirectValidationAckRejectReason::ExpectationExpired)
            } else if e.request_id != ack.request_id {
                Some(DirectValidationAckRejectReason::RequestIdMismatch)
            } else if e.generation != ack.token_generation {
                Some(DirectValidationAckRejectReason::ExpectationGenerationMismatch)
            } else if e.peer_session_generation != peer_session_generation {
                Some(DirectValidationAckRejectReason::ExpectationPeerSessionMismatch)
            } else if e.owner_token != ack.token_owner {
                Some(DirectValidationAckRejectReason::OwnerMismatch)
            } else if e.endpoint is Some && e.endpoint != Some(ack.source)
                && !ack.endpoint_authenticated {
                Some(DirectValidationAckRejectReason::EndpointMismatch)
            } else if e.socket_index is Some && e.socket_index != ack.socket_index {
                Some(DirectValidationAckRejectReason::SocketMismatch)
            } else {
                None
            }
        }),
{
    if expectation.expires_at <= now {
        return Some(DirectValidationAckRejectReason::ExpectationExpired);
    }
    if expectation.request_id != ack.request_id {
        return Some(DirectValidationAckRejectReason::RequestIdMismatch);
    }
    if expectation.generation != ack.token_generation {
        return Some(DirectValidationAckRejectReason::ExpectationGenerationMismatch);
    }
    if expectation.peer_session_generation != peer_session_generation {
        return Some(DirectValidationAckRejectReason::ExpectationPeerSessionMismatch);
    }
    if expectation.owner_token != ack.token_owner {
        return Some(DirectValidationAckRejectReason::OwnerMismatch);
    }
    if let Some(endpoint) = expectation.endpoint {
        if endpoint != ack.source && !ack.endpoint_authenticated {
            return Some(DirectValidationAckRejectReason::EndpointMismatch);
        }
    }
    if let Some(expected) = expectation.socket_index {
        let on_socket: bool = match ack.socket_index {
            Some(socket_index) => socket_index == expected,
            None => false,
        };
        if !on_socket {
            return Some(DirectValidationAckRejectReason::SocketMismatch);
        }
    }
    None
}

/// What becomes of an authenticated observation.
#[derive(Clone, Copy, Debug, PartialEq, Eq, Structural)]
pub enum ObservationIngress {
    /// A peer that is direct needs no such endpoint.
    Suppressed,
    NoScheduler,
    Forward,
}

/// An endpoint of a direct peer is looked at only where it may be better.
pub fn admit_observation(direct: bool, eligible: bool, has_scheduler: bool) -> (r:
    ObservationIngress)
    ensures
        r == if direct && !eligible {
            ObservationIngress::Suppressed
        } else if !has_scheduler {
            ObservationIngress::NoScheduler
        } else {
            ObservationIngress::Forward
        },
{
    if direct && !eligible {
        ObservationIngress::Suppressed
    } else if !has_scheduler {
        ObservationIngress::NoScheduler
    } else {
        ObservationIngress::Forward
    }
}

/// A second observation for the same generation starts no second worker: the
/// owner stays, and only its target may change.
pub proof fn law_single_flight<L>(
    v: Validations<L>,
    peer: Seq<char>,
    request: ValidationRequest,
    session: u64,
    replace: bool,
    upgrade: bool,
)
    requires
        v.merges(peer, request, session),
    ensures
        v.merged(peer, request.endpoint, replace, upgrade).next_owner == v.next_owner,
        v.merged(peer, request.endpoint, replace, upgrade).sessions[peer].owner_token
            == v.sessions[peer].owner_token,
        v.merged(peer, request.endpoint, replace, upgrade).merges(peer, request, session),
{
}

/// A worker that was just started is at work.
pub proof fn law_started_worker_is_at_work<L>(
    before: Validations<L>,
    after: Validations<L>,
    lease: DirectValidationTarget,
    replaced: Option<DirectValidationTarget>,
    peer: Seq<char>,
    request: ValidationRequest,
    facts: ValidationFacts,
    replace: bool,
    upgrade: bool,
)
    requires
        before.begins_to(
            after,
            DirectValidationSessionStart::Spawn(lease, replaced),
            peer,
            request,
            facts,
            replace,
            upgrade,
        ),
    ensures
        after.works_at(peer, lease),
        lease.generation == request.generation,
        lease.remote_candidate_epoch == request.remote_candidate_epoch,
        facts.peer_session_generation == Some(lease.peer_session_generation),
{
}

/// While a worker is at work, an observation of the same generation, session
/// and epoch that is not turned away is merged, whatever its endpoint: the
/// worker stays the owner and is still at work.
pub proof fn law_worker_at_work_merges<L>(
    before: Validations<L>,
    after: Validations<L>,
    start: DirectValidationSessionStart,
    peer: Seq<char>,
    lease: DirectValidationTarget,
    request: ValidationRequest,
    facts: ValidationFacts,
    replace: bool,
    upgrade: bool,
)
    requires
        before.works_at(peer, lease),
        request.generation == lease.generation,
        request.remote_candidate_epoch == lease.remote_candidate_epoch,
        facts.peer_session_generation == Some(lease.peer_session_generation),
        refusal(request, facts, before.closed) is None,
        before.begins_to(after, start, peer, request, facts, replace, upgrade),
    ensures
        start matches DirectValidationSessionStart::Merged(target) && target.owner_token
            == lease.owner_token,
        after.works_at(peer, lease),
{
}

/// Once the network generation has moved on, an observation of the old one is
/// stale, and one of the new one that is not turned away tells the old worker
/// to stop and starts another, with a token of its own.
pub proof fn law_moved_generation_replaces_the_worker<L>(
    before: Validations<L>,
    after: Validations<L>,
    start: DirectValidationSessionStart,
    peer: Seq<char>,
    lease: DirectValidationTarget,
    request: ValidationRequest,
    facts: ValidationFacts,
    replace: bool,
    upgrade: bool,
)
    requires
        before.consistent(),
        before.works_at(peer, lease),
        facts.network_generation != lease.generation,
        before.begins_to(after, start, peer, request, facts, replace, upgrade),
    ensures
        request.generation == lease.generation ==> start == DirectValidationSessionStart::Ignored(
            ValidationRefusal::StaleGeneration,
        ),
        refusal(request, facts, before.closed) is None ==> {
            &&& start matches DirectValidationSessionStart::Spawn(fresh, Some(stopped))
            &&& fresh.owner_token != lease.owner_token
            &&& stopped.owner_token == lease.owner_token
            &&& stopped.cancelled
            &&& after.works_at(peer, fresh)
        },
{
}

/// A worker that was replaced takes nothing with it when it ends.
pub proof fn law_retired_owner_takes_nothing<L>(
    v: Validations<L>,
    peer: Seq<char>,
    owner: u64,
    retired: u64,
)
    requires
        v.consistent(),
        v.owns(peer, owner),
        retired != owner,
    ensures
        v.finished(peer, retired) == v,
        v.cleared(peer, retired) == v,
{
}

/// Once a worker has ended, no answer to its request counts.
pub proof fn law_finished_worker_leaves_nothing<L>(v: Validations<L>, peer: Seq<char>, owner: u64)
    requires
        v.consistent(),
        v.owns(peer, owner),
    ensures
        !v.finished(peer, owner).expectations.dom().contains(peer),
        !v.finished(peer, owner).sessions.dom().contains(peer),
{
}

/// An answer that was taken is not taken again.
pub proof fn law_answer_counts_once<L>(
    v: Validations<L>,
    peer: Seq<char>,
    ack: ValidationAck,
    network_generation: u64,
    session: Option<u64>,
    now: u64,
    later: u64,
)
    requires
        v.ack_rejection(peer, ack, network_generation, session, now) is None,
    ensures
        (Validations { expectations: v.expectations.remove(peer), ..v }).ack_rejection(
            peer,
            ack,
            network_generation,
            session,
            later,
        ) == Some(DirectValidationAckRejectReason::NoExpectation),
{
}

/// The request of a replaced worker is answered in vain.
pub proof fn law_replaced_request_is_not_answered<L>(
    v: Validations<L>,
    peer: Seq<char>,
    request: ValidationRequest,
    session: u64,
)
    requires
        v.consistent(),
    ensures
        !v.spawned(peer, request, session).expectations.dom().contains(peer),
{
}

/// A closed registry turns every observation away.
pub proof fn law_closed_registry_starts_nothing(request: ValidationRequest, facts: ValidationFacts)
    ensures
        refusal(request, facts, true) is Some,
{
}

/// An observation of the current network, session and epoch whose endpoint may
/// be validated is turned away only by a closed registry or a peer that is
/// slower than its relay, whether or not the peer is direct already.
pub proof fn law_eligible_observation_is_taken(
    request: ValidationRequest,
    facts: ValidationFacts,
    closed: bool,
)
    requires
        request.generation == facts.network_generation,
        facts.peer_session_generation is Some,
        request.remote_candidate_epoch == facts.remote_candidate_epoch,
        facts.eligible,
    ensures
        refusal(request, facts, closed) is Some <==> closed || facts.slow_relay,
        closed ==> refusal(request, facts, closed) == Some(ValidationRefusal::RegistryClosed),
        !closed && facts.slow_relay ==> refusal(request, facts, closed) == Some(
            ValidationRefusal::SlowRelayCooldown,
        ),
        forall|direct: bool| #[trigger]
            refusal(request, (ValidationFacts { direct, ..facts }), closed) == refusal(
                request,
                facts,
                closed,
            ),
{
}

/// An observation is taken exactly where it is current and eligible, the
/// registry is open and the peer is not slower than its relay.
pub proof fn law_taken_observation_is_current(
    request: ValidationRequest,
    facts: ValidationFacts,
    closed: bool,
)
    ensures
        refusal(request, facts, closed) is None <==> {
            &&& request.generation == facts.network_generation
            &&& facts.peer_session_generation is Some
            &&& request.remote_candidate_epoch == facts.remote_candidate_epoch
            &&& facts.eligible
            &&& !closed
            &&& !facts.slow_relay
        },
{
}

/// What an observation that is not current, or not eligible, is told: a moved
/// network first, then a missing session, then a moved epoch, and of a current
/// one that its peer is direct, or that its endpoint is not eligible.
pub proof fn law_refusals_tell_why(
    request: ValidationRequest,
    facts: ValidationFacts,
    closed: bool,
)
    ensures
        request.generation != facts.network_generation <==> refusal(request, facts, closed) == Some(
            ValidationRefusal::StaleGeneration,
        ),
        request.generation == facts.network_generation && facts.peer_session_generation is None
            <==> refusal(request, facts, closed) == Some(
            ValidationRefusal::PeerSessionUnavailable,
        ),
        request.generation == facts.network_generation && facts.peer_session_generation is Some
            && request.remote_candidate_epoch != facts.remote_candidate_epoch <==> refusal(
            request,
            facts,
            closed,
        ) == Some(ValidationRefusal::StaleRemoteCandidateEpoch),
        request.generation == facts.network_generation && facts.peer_session_generation is Some
            && request.remote_candidate_epoch == facts.remote_candidate_epoch && !facts.eligible
            ==> refusal(request, facts, closed) == Some(
            if facts.direct {
                ValidationRefusal::PeerAlreadyDirect
            } else {
                ValidationRefusal::PeerIneligible
            },
        ),
{
}

/// A taken observation has a worker afterwards, of the network, session and
/// epoch of the observation, and one that is to go on. A refused one changes
/// nothing.
pub proof fn law_taken_observation_has_a_worker<L>(
    v: Validations<L>,
    next: Validations<L>,
    start: DirectValidationSessionStart,
    peer: Seq<char>,
    request: ValidationRequest,
    facts: ValidationFacts,
    replace: bool,
    upgrade: bool,
)
    requires
        v.begins_to(next, start, peer, request, facts, replace, upgrade),
    ensures
        refusal(request, facts, v.closed) matches Some(reason) ==> start
            == DirectValidationSessionStart::Ignored(reason) && next == v,
        refusal(request, facts, v.closed) is None ==> {
            let worker = next.sessions[peer];
            &&& !(start is Ignored)
            &&& next.sessions.dom().contains(peer)
            &&& !worker.cancelled
            &&& worker.generation == request.generation
            &&& Some(worker.peer_session_generation) == facts.peer_session_generation
            &&& worker.remote_candidate_epoch == request.remote_candidate_epoch
            &&& start matches DirectValidationSessionStart::Merged(target) ==> target == worker
                && v.sessions.dom().contains(peer) && target.owner_token
                == v.sessions[peer].owner_token
            &&& start matches DirectValidationSessionStart::Spawn(target, replaced) ==> target
                == worker && target.endpoint == request.endpoint && target.owner_token
                == v.next_owner && (replaced is Some <==> v.sessions.dom().contains(peer))
        },
        forall|other: Seq<char>|
            other != peer ==> next.sessions.dom().contains(other) == #[trigger] v.sessions.dom().contains(
                other,
            ) && (v.sessions.dom().contains(other) ==> next.sessions[other] == v.sessions[other]),
        forall|other: Seq<char>|
            other != peer ==> next.expectations.dom().contains(other)
                == #[trigger] v.expectations.dom().contains(other) && (
            v.expectations.dom().contains(other) ==> next.expectations[other]
                == v.expectations[other]),
        next.closed == v.closed,
{
}

/// A taken observation joins the worker under way exactly where that one goes
/// on and is of the same network, session and epoch; any other worker is told
/// to stop and replaced.
pub proof fn law_observation_joins_the_same_worker<L>(
    v: Validations<L>,
    next: Validations<L>,
    start: DirectValidationSessionStart,
    peer: Seq<char>,
    request: ValidationRequest,
    facts: ValidationFacts,
    replace: bool,
    upgrade: bool,
)
    requires
        v.begins_to(next, start, peer, request, facts, replace, upgrade),
        refusal(request, facts, v.closed) is None,
    ensures
        start is Merged <==> {
            &&& v.sessions.dom().contains(peer)
            &&& !v.sessions[peer].cancelled
            &&& v.sessions[peer].generation == request.generation
            &&& Some(v.sessions[peer].peer_session_generation) == facts.peer_session_generation
            &&& v.sessions[peer].remote_candidate_epoch == request.remote_candidate_epoch
        },
        v.spawns(peer, request, facts) <==> start is Spawn,
        start matches DirectValidationSessionStart::Spawn(_, Some(old)) ==> old.cancelled
            && old.owner_token == v.sessions[peer].owner_token && old.endpoint
            == v.sessions[peer].endpoint && old.generation == v.sessions[peer].generation,
        start is Spawn && v.next_owner < u64::MAX ==> next.next_owner == v.next_owner + 1,
        start is Merged ==> next.next_owner == v.next_owner,
{
}

/// A joined worker takes the new endpoint where it is to replace the old one,
/// and forgets what it waits for only where that moves it and is an upgrade.
pub proof fn law_joined_worker_moves_only_if_told<L>(
    v: Validations<L>,
    peer: Seq<char>,
    endpoint: SocketAddr,
    replace: bool,
    upgrade: bool,
)
    requires
        v.sessions.dom().contains(peer),
        v.expectations.dom().contains(peer),
        v.expectations[peer].owner_token == v.sessions[peer].owner_token,
    ensures
        ({
            let next = v.merged(peer, endpoint, replace, upgrade);
            &&& replace ==> next.sessions[peer].endpoint == endpoint
            &&& !replace ==> next.sessions[peer].endpoint == v.sessions[peer].endpoint
            &&& next.sessions[peer].owner_token == v.sessions[peer].owner_token
            &&& next.sessions[peer].cancelled == v.sessions[peer].cancelled
            &&& next.expectations.dom().contains(peer) <==> !(replace && upgrade && endpoint
                != v.sessions[peer].endpoint)
            &&& next.expectations.dom().contains(peer) ==> next.expectations[peer]
                == v.expectations[peer]
        }),
{
}

/// Clearing takes away what a worker waits for only if it is that worker's,
/// and finishing takes the worker too, only if it is that one.
pub proof fn law_clearing_and_finishing_are_by_owner<L>(
    v: Validations<L>,
    peer: Seq<char>,
    owner: u64,
    other: Seq<char>,
)
    requires
        other != peer,
    ensures
        v.expects_for(peer, owner) <==> v.expectations.dom().contains(peer)
            && v.expectations[peer].owner_token == owner,
        v.owns(peer, owner) <==> v.sessions.dom().contains(peer) && v.sessions[peer].owner_token
            == owner,
        v.cleared(peer, owner).expectations.dom().contains(peer) <==> v.expectations.dom().contains(
            peer,
        ) && v.expectations[peer].owner_token != owner,
        v.cleared(peer, owner).sessions == v.sessions,
        v.cleared(peer, owner).expectations.dom().contains(other) == v.expectations.dom().contains(
            other,
        ),
        v.finished(peer, owner).sessions.dom().contains(peer) <==> v.sessions.dom().contains(peer)
            && v.sessions[peer].owner_token != owner,
        v.finished(peer, owner).expectations == v.cleared(peer, owner).expectations,
        v.finished(peer, owner).sessions.dom().contains(other) == v.sessions.dom().contains(other),
        v.finished(peer, owner).next_owner == v.next_owner,
        v.finished(peer, owner).closed == v.closed,
{
}

/// A worker works on exactly while the registry holds it for the peer, it was
/// not told to stop, and its network, session and epoch are those it was
/// started with.
pub proof fn law_worker_works_on<L>(
    v: Validations<L>,
    peer: Seq<char>,
    lease: DirectValidationTarget,
)
    ensures
        v.works_at(peer, lease) <==> {
            &&& v.sessions.dom().contains(peer)
            &&& v.sessions[peer].owner_token == lease.owner_token
            &&& !v.sessions[peer].cancelled
            &&& v.sessions[peer].generation == lease.generation
            &&& v.sessions[peer].peer_session_generation == lease.peer_session_generation
            &&& v.sessions[peer].remote_candidate_epoch == lease.remote_candidate_epoch
        },
{
}

/// A request may be waited for exactly where it is that of the worker under
/// way, to the endpoint that this one works at.
pub proof fn law_awaited_request_is_the_workers<L>(
    v: Validations<L>,
    peer: Seq<char>,
    expectation: DirectValidationExpectation<L>,
)
    ensures
        v.accepts(peer, expectation) <==> {
            &&& v.sessions.dom().contains(peer)
            &&& !v.sessions[peer].cancelled
            &&& v.sessions[peer].owner_token == expectation.owner_token
            &&& v.sessions[peer].generation == expectation.generation
            &&& v.sessions[peer].peer_session_generation == expectation.peer_session_generation
            &&& v.sessions[peer].remote_candidate_epoch == expectation.remote_candidate_epoch
            &&& expectation.endpoint == Some(v.sessions[peer].endpoint)
        },
{
}

/// An answer is taken exactly where it is to the request waited for, in time,
/// from its endpoint or one that the peer proved, on its socket, and the worker
/// that sent it is at work.
pub proof fn law_answer_is_taken<L>(
    v: Validations<L>,
    peer: Seq<char>,
    ack: ValidationAck,
    network_generation: u64,
    peer_session_generation: Option<u64>,
    now: u64,
)
    ensures
        v.ack_rejection(peer, ack, network_generation, peer_session_generation, now) is None <==> {
            let e = v.expectations[peer];
            let t = v.sessions[peer];
            &&& ack.token_generation == network_generation
            &&& v.expectations.dom().contains(peer)
            &&& now < e.expires_at
            &&& e.request_id == ack.request_id
            &&& e.generation == network_generation
            &&& Some(e.peer_session_generation) == peer_session_generation
            &&& e.owner_token == ack.token_owner
            &&& e.endpoint is None || e.endpoint == Some(ack.source) || ack.endpoint_authenticated
            &&& e.socket_index is None || e.socket_index == ack.socket_index
            &&& v.sessions.dom().contains(peer)
            &&& !t.cancelled
            &&& t.generation == network_generation
            &&& Some(t.peer_session_generation) == peer_session_generation
            &&& t.remote_candidate_epoch == e.remote_candidate_epoch
            &&& t.owner_token == ack.token_owner
        },
{
}

/// What an answer to the request waited for is told where something else is
/// wrong with it.
pub proof fn law_answer_rejections_tell_why<L>(
    v: Validations<L>,
    peer: Seq<char>,
    ack: ValidationAck,
    network_generation: u64,
    session: u64,
    now: u64,
)
    requires
        ack.token_generation == network_generation,
    ensures
        ({
            let e = v.expectations[peer];
            let t = v.sessions[peer];
            let r = v.ack_rejection(peer, ack, network_generation, Some(session), now);
            let there = v.expectations.dom().contains(peer);
            let live = there && now < e.expires_at;
            let same = live && e.request_id == ack.request_id && e.generation
                == network_generation && e.peer_session_generation == session;
            let own = same && e.owner_token == ack.token_owner;
            let from = own && (e.endpoint is None || e.endpoint == Some(ack.source)
                || ack.endpoint_authenticated);
            let on = from && (e.socket_index is None || e.socket_index == ack.socket_index);
            let at = on && v.sessions.dom().contains(peer) && !t.cancelled;
            &&& !there <==> r == Some(DirectValidationAckRejectReason::NoExpectation)
            &&& there && e.expires_at <= now <==> r == Some(
                DirectValidationAckRejectReason::ExpectationExpired,
            )
            &&& live && e.request_id != ack.request_id <==> r == Some(
                DirectValidationAckRejectReason::RequestIdMismatch,
            )
            &&& live && e.request_id == ack.request_id && e.generation != network_generation
                <==> r == Some(DirectValidationAckRejectReason::ExpectationGenerationMismatch)
            &&& live && e.request_id == ack.request_id && e.generation == network_generation
                && e.peer_session_generation != session <==> r == Some(
                DirectValidationAckRejectReason::ExpectationPeerSessionMismatch,
            )
            &&& same && !own <==> r == Some(DirectValidationAckRejectReason::OwnerMismatch)
            &&& own && !from <==> r == Some(DirectValidationAckRejectReason::EndpointMismatch)
            &&& from && !on <==> r == Some(DirectValidationAckRejectReason::SocketMismatch)
            &&& on && !v.sessions.dom().contains(peer) <==> r == Some(
                DirectValidationAckRejectReason::SessionMissing,
            )
            &&& on && v.sessions.dom().contains(peer) && t.cancelled <==> r == Some(
                DirectValidationAckRejectReason::TargetCancelled,
            )
            &&& at && t.generation != network_generation <==> r == Some(
                DirectValidationAckRejectReason::TargetGenerationMismatch,
            )
            &&& at && t.generation == network_generation && t.peer_session_generation != session
                <==> r == Some(DirectValidationAckRejectReason::TargetPeerSessionMismatch)
            &&& at && t.generation == network_generation && t.peer_session_generation == session
                && t.remote_candidate_epoch != e.remote_candidate_epoch <==> r == Some(
                DirectValidationAckRejectReason::TargetRemoteCandidateEpochMismatch,
            )
        }),
        forall|n: u64, s: Option<u64>|
            n != ack.token_generation ==> #[trigger] v.ack_rejection(peer, ack, n, s, now) == Some(
                DirectValidationAckRejectReason::TokenGenerationMismatch,
            ),
        v.ack_rejection(peer, ack, network_generation, None, now) == Some(
            DirectValidationAckRejectReason::ExpectationPeerSessionMismatch,
        ),
{
}

/// In a consistent registry every request waited for is that of a worker, no
/// owner token is given twice, and a closed registry holds nothing.
pub proof fn law_consistent_registry<L>(v: Validations<L>, peer: Seq<char>)
    requires
        v.consistent(),
    ensures
        v.expectations.dom().contains(peer) ==> v.sessions.dom().contains(peer)
            && v.sessions[peer].owner_token == v.expectations[peer].owner_token,
        v.sessions.dom().contains(peer) ==> v.sessions[peer].owner_token < v.next_owner,
        v.closed ==> !v.sessions.dom().contains(peer) && !v.expectations.dom().contains(peer),
{
}

/// A started worker has the observation's endpoint, network and epoch, the
/// peer's session and the next owner token; one that is told to stop keeps
/// everything else.
pub proof fn law_fresh_worker<L>(
    v: Validations<L>,
    request: ValidationRequest,
    session: u64,
    worker: DirectValidationTarget,
)
    ensures
        v.fresh_target(request, session).endpoint == request.endpoint,
        v.fresh_target(request, session).generation == request.generation,
        v.fresh_target(request, session).peer_session_generation == session,
        v.fresh_target(request, session).remote_candidate_epoch == request.remote_candidate_epoch,
        v.fresh_target(request, session).owner_token == v.next_owner,
        !v.fresh_target(request, session).cancelled,
        worker.spec_cancelled().cancelled,
        worker.spec_cancelled().endpoint == worker.endpoint,
        worker.spec_cancelled().generation == worker.generation,
        worker.spec_cancelled().owner_token == worker.owner_token,
        worker.spec_cancelled().peer_session_generation == worker.peer_session_generation,
        worker.spec_cancelled().remote_candidate_epoch == worker.remote_candidate_epoch,
{
}

} // verus!

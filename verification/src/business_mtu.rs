//! Business traffic on a direct path whose datagram size is being found out:
//! which path is measured, and when a packet may leave on it.

use vstd::prelude::*;
use crate::net::SocketAddr;
use crate::table::Table;

verus! {

/// The lifetimes that a path belongs to.
#[derive(Clone, Copy, Debug, PartialEq, Eq, Structural)]
pub struct PathEpoch {
    pub network_generation: u64,
    pub peer_session_generation: u64,
    pub remote_candidate_epoch: u64,
}

/// The validation that a direct path was committed with.
#[derive(Clone, Copy, Debug, PartialEq, Eq, Structural)]
pub struct CommittedValidation {
    pub epoch: PathEpoch,
    /// The endpoint, once the peer has proved it.
    pub commit_endpoint: Option<SocketAddr>,
    /// What tells this validation from others, where it is complete.
    pub validation_id: Option<u64>,
}

/// The path that a peer's business traffic was committed to.
#[derive(Clone, Copy, Debug, PartialEq, Eq, Structural)]
pub struct CommittedBusinessPath {
    pub online: bool,
    /// `None` for a path that is not direct.
    pub direct: Option<CommittedValidation>,
    pub epoch: Option<PathEpoch>,
}

/// The endpoints of a committed direct path.
#[derive(Clone, Copy, Debug, PartialEq, Eq, Structural)]
pub struct DirectCommitPair {
    pub generation: u64,
    pub remote_candidate_epoch: u64,
    pub local_endpoint: Option<SocketAddr>,
}

/// The socket that a peer's traffic leaves from.
#[derive(Clone, Copy, Debug, PartialEq, Eq, Structural)]
pub struct BusinessSocket {
    pub socket_index: usize,
    pub local_endpoint: Option<SocketAddr>,
}

/// One exact path: another socket or another validation is another path.
#[derive(Clone, Copy, Debug, PartialEq, Eq, Structural)]
pub struct DplpmtudPathIdentity {
    pub epoch: PathEpoch,
    pub validation_id: u64,
    pub remote_endpoint: SocketAddr,
    pub local_endpoint: SocketAddr,
    pub transport_instance_id: u64,
    pub socket_index: usize,
}

/// What was confirmed of a path.
#[derive(Clone, Copy, Debug, PartialEq, Eq, Structural)]
pub struct BusinessBudget {
    pub budget_revision: u64,
    pub udp_datagram_size: u16,
    pub overlay_payload_budget: u16,
}

/// What is published of a peer's path.
#[derive(Clone, Copy, Debug, PartialEq, Eq, Structural)]
pub struct BudgetEntry {
    pub enforced: bool,
    pub path_identity: DplpmtudPathIdentity,
    pub budget: Option<BusinessBudget>,
}

/// The right to send on one exact path under one exact budget.
#[derive(Clone, Copy, Debug, PartialEq, Eq, Structural)]
pub struct DirectBusinessSendToken {
    pub path_identity: DplpmtudPathIdentity,
    pub budget_revision: u64,
    pub max_udp_datagram_size: u16,
    pub max_overlay_payload_size: u16,
    pub udp_publication_owner: u64,
}

/// Why business traffic waits.
#[derive(Clone, Copy, Debug, PartialEq, Eq, Structural)]
pub enum BusinessPending {
    PeerSessionMissing,
    ExactSocketMissing,
    CommittedPathMissing,
    ActivePathNotDirect,
    PathEpochMismatch,
    DirectIdentityUnconfirmed,
    SelectorEndpointChanged,
    DirectPairMissing,
    LocalEndpointMissing,
    ExactSocketIdentityChanged,
    ExactPathIdentityIncomplete,
    BudgetNotPublished,
    BudgetPathIdentityStale,
    ConfirmedBudgetWithheld,
    UdpPublicationWithdrawn,
}

impl BusinessPending {
    pub open spec fn text(self) -> Seq<char> {
        match self {
            Self::PeerSessionMissing => "peer_session_missing"@,
            Self::ExactSocketMissing => "exact_socket_missing"@,
            Self::CommittedPathMissing => "committed_path_missing"@,
            Self::ActivePathNotDirect => "active_path_not_direct"@,
            Self::PathEpochMismatch => "path_epoch_mismatch"@,
            Self::DirectIdentityUnconfirmed => "direct_identity_unconfirmed"@,
            Self::SelectorEndpointChanged => "selector_endpoint_changed"@,
            Self::DirectPairMissing => "direct_pair_missing"@,
            Self::LocalEndpointMissing => "local_endpoint_missing"@,
            Self::ExactSocketIdentityChanged => "exact_socket_identity_changed"@,
            Self::ExactPathIdentityIncomplete => "exact_path_identity_incomplete"@,
            Self::BudgetNotPublished => "budget_not_published"@,
            Self::BudgetPathIdentityStale => "budget_path_identity_stale"@,
            Self::ConfirmedBudgetWithheld => "confirmed_budget_withheld"@,
            Self::UdpPublicationWithdrawn => "udp_publication_withdrawn"@,
        }
    }

    pub fn reason(self) -> (r: &'static str)
        ensures
            r@ == self.text(),
    {
        match self {
            Self::PeerSessionMissing => "peer_session_missing",
            Self::ExactSocketMissing => "exact_socket_missing",
            Self::CommittedPathMissing => "committed_path_missing",
            Self::ActivePathNotDirect => "active_path_not_direct",
            Self::PathEpochMismatch => "path_epoch_mismatch",
            Self::DirectIdentityUnconfirmed => "direct_identity_unconfirmed",
            Self::SelectorEndpointChanged => "selector_endpoint_changed",
            Self::DirectPairMissing => "direct_pair_missing",
            Self::LocalEndpointMissing => "local_endpoint_missing",
            Self::ExactSocketIdentityChanged => "exact_socket_identity_changed",
            Self::ExactPathIdentityIncomplete => "exact_path_identity_incomplete",
            Self::BudgetNotPublished => "budget_not_published",
            Self::BudgetPathIdentityStale => "budget_path_identity_stale",
            Self::ConfirmedBudgetWithheld => "confirmed_budget_withheld",
            Self::UdpPublicationWithdrawn => "udp_publication_withdrawn",
        }
    }
}

/// Whether and how business traffic may leave on a direct path.
#[derive(Clone, Copy, Debug, PartialEq, Eq, Structural)]
pub enum DirectBusinessBudgetGate {
    /// The peer does not take part: traffic leaves as it always did.
    Unmanaged,
    ManagedPending(BusinessPending),
    Ready(DirectBusinessSendToken),
}

/// Everything that is known of a peer's path.
#[derive(Clone, Copy, Debug)]
pub struct BusinessFacts {
    /// `None` for a peer that is offline.
    pub session_generation: Option<u64>,
    /// The peer finds out datagram sizes in this session.
    pub supports_dplpmtud: bool,
    pub socket: Option<BusinessSocket>,
    pub committed: Option<CommittedBusinessPath>,
    pub pair: Option<DirectCommitPair>,
    pub entry: Option<BudgetEntry>,
    /// Who publishes this transport; zero for nobody.
    pub publication_owner: u64,
    pub transport_instance_id: u64,
}

/// The exact path that a committed direct path runs on. There is none unless
/// the path, its epoch, its endpoints and its socket agree.
pub open spec fn exact_path(
    committed: CommittedBusinessPath,
    pair: Option<DirectCommitPair>,
    socket: Option<BusinessSocket>,
    transport_instance_id: u64,
) -> Option<DplpmtudPathIdentity> {
    if committed.online && committed.direct is Some && committed.epoch == Some(
        committed.direct->0.epoch,
    ) && committed.direct->0.commit_endpoint is Some && committed.direct->0.validation_id is Some
        && pair is Some && pair->0.local_endpoint is Some && pair->0.generation
        == committed.direct->0.epoch.network_generation && pair->0.remote_candidate_epoch
        == committed.direct->0.epoch.remote_candidate_epoch && socket is Some
        && socket->0.local_endpoint == pair->0.local_endpoint {
        Some(
            DplpmtudPathIdentity {
                epoch: committed.direct->0.epoch,
                validation_id: committed.direct->0.validation_id->0,
                remote_endpoint: committed.direct->0.commit_endpoint->0,
                local_endpoint: pair->0.local_endpoint->0,
                transport_instance_id,
                socket_index: socket->0.socket_index,
            },
        )
    } else {
        None
    }
}

/// What keeps a path from being exact, the first thing that does.
pub open spec fn path_pending(facts: BusinessFacts, expected: SocketAddr) -> Option<
    BusinessPending,
> {
    let committed = facts.committed->0;
    let validation = committed.direct->0;
    let pair = facts.pair->0;
    if facts.socket is None {
        Some(BusinessPending::ExactSocketMissing)
    } else if facts.committed is None {
        Some(BusinessPending::CommittedPathMissing)
    } else if !committed.online || committed.direct is None {
        Some(BusinessPending::ActivePathNotDirect)
    } else if committed.epoch != Some(validation.epoch) {
        Some(BusinessPending::PathEpochMismatch)
    } else if validation.commit_endpoint is None {
        Some(BusinessPending::DirectIdentityUnconfirmed)
    } else if validation.commit_endpoint != Some(expected) {
        Some(BusinessPending::SelectorEndpointChanged)
    } else if facts.pair is None {
        Some(BusinessPending::DirectPairMissing)
    } else if pair.local_endpoint is None {
        Some(BusinessPending::LocalEndpointMissing)
    } else if pair.generation != validation.epoch.network_generation || pair.remote_candidate_epoch
        != validation.epoch.remote_candidate_epoch || facts.socket->0.local_endpoint
        != pair.local_endpoint {
        Some(BusinessPending::ExactSocketIdentityChanged)
    } else if validation.validation_id is None {
        Some(BusinessPending::ExactPathIdentityIncomplete)
    } else {
        None
    }
}

/// What becomes of business traffic on one exact path.
pub open spec fn budget_gate(
    identity: DplpmtudPathIdentity,
    entry: Option<BudgetEntry>,
    publication_owner: u64,
) -> DirectBusinessBudgetGate {
    match entry {
        None => DirectBusinessBudgetGate::ManagedPending(BusinessPending::BudgetNotPublished),
        Some(entry) => if !entry.enforced {
            DirectBusinessBudgetGate::Unmanaged
        } else if entry.path_identity != identity {
            DirectBusinessBudgetGate::ManagedPending(BusinessPending::BudgetPathIdentityStale)
        } else if entry.budget is None {
            DirectBusinessBudgetGate::ManagedPending(BusinessPending::ConfirmedBudgetWithheld)
        } else if publication_owner == 0 {
            DirectBusinessBudgetGate::ManagedPending(BusinessPending::UdpPublicationWithdrawn)
        } else {
            DirectBusinessBudgetGate::Ready(
                DirectBusinessSendToken {
                    path_identity: identity,
                    budget_revision: entry.budget->0.budget_revision,
                    max_udp_datagram_size: entry.budget->0.udp_datagram_size,
                    max_overlay_payload_size: entry.budget->0.overlay_payload_budget,
                    udp_publication_owner: publication_owner,
                },
            )
        },
    }
}

/// What becomes of business traffic to an endpoint.
pub open spec fn business_gate(
    facts: BusinessFacts,
    expected: SocketAddr,
) -> DirectBusinessBudgetGate {
    if facts.session_generation is None {
        DirectBusinessBudgetGate::ManagedPending(BusinessPending::PeerSessionMissing)
    } else if !facts.supports_dplpmtud {
        DirectBusinessBudgetGate::Unmanaged
    } else {
        match path_pending(facts, expected) {
            Some(reason) => DirectBusinessBudgetGate::ManagedPending(reason),
            None => budget_gate(
                exact_path(
                    facts.committed->0,
                    facts.pair,
                    facts.socket,
                    facts.transport_instance_id,
                )->0,
                facts.entry,
                facts.publication_owner,
            ),
        }
    }
}

fn same_epoch(a: Option<PathEpoch>, b: PathEpoch) -> (r: bool)
    ensures
        r == (a == Some(b)),
{
    match a {
        Some(a) => a == b,
        None => false,
    }
}

fn same_endpoint(a: Option<SocketAddr>, b: SocketAddr) -> (r: bool)
    ensures
        r == (a == Some(b)),
{
    match a {
        Some(a) => a == b,
        None => false,
    }
}

fn judge_path(facts: &BusinessFacts, expected: SocketAddr) -> (r: Result<
    DplpmtudPathIdentity,
    BusinessPending,
>)
    ensures
        match path_pending(*facts, expected) {
            Some(reason) => r == Err::<DplpmtudPathIdentity, BusinessPending>(reason),
            None => exact_path(
                facts.committed->0,
                facts.pair,
                facts.socket,
                facts.transport_instance_id,
            ) is Some && r == Ok::<DplpmtudPathIdentity, BusinessPending>(
                exact_path(
                    facts.committed->0,
                    facts.pair,
                    facts.socket,
                    facts.transport_instance_id,
                )->0,
            ),
        },
{
    let socket: BusinessSocket = match facts.socket {
        Some(socket) => socket,
        None => {
            return Err(BusinessPending::ExactSocketMissing);
        },
    };
    let committed: CommittedBusinessPath = match facts.committed {
        Some(committed) => committed,
        None => {
            return Err(BusinessPending::CommittedPathMissing);
        },
    };
    let validation: CommittedValidation = match committed.direct {
        Some(validation) => validation,
        None => {
            return Err(BusinessPending::ActivePathNotDirect);
        },
    };
    if !committed.online {
        return Err(BusinessPending::ActivePathNotDirect);
    }
    if !same_epoch(committed.epoch, validation.epoch) {
        return Err(BusinessPending::PathEpochMismatch);
    }
    let remote_endpoint: SocketAddr = match validation.commit_endpoint {
        Some(endpoint) => endpoint,
        None => {
            return Err(BusinessPending::DirectIdentityUnconfirmed);
        },
    };
    if remote_endpoint != expected {
        return Err(BusinessPending::SelectorEndpointChanged);
    }
    let pair: DirectCommitPair = match facts.pair {
        Some(pair) => pair,
        None => {
            return Err(BusinessPending::DirectPairMissing);
        },
    };
    let local_endpoint: SocketAddr = match pair.local_endpoint {
        Some(endpoint) => endpoint,
        None => {
            return Err(BusinessPending::LocalEndpointMissing);
        },
    };
    if pair.generation != validation.epoch.network_generation || pair.remote_candidate_epoch
        != validation.epoch.remote_candidate_epoch || !same_endpoint(
        socket.local_endpoint,
        local_endpoint,
    ) {
        return Err(BusinessPending::ExactSocketIdentityChanged);
    }
    match validation.validation_id {
        Some(validation_id) => Ok(
            DplpmtudPathIdentity {
                epoch: validation.epoch,
                validation_id,
                remote_endpoint,
                local_endpoint,
                transport_instance_id: facts.transport_instance_id,
                socket_index: socket.socket_index,
            },
        ),
        None => Err(BusinessPending::ExactPathIdentityIncomplete),
    }
}

/// Captures the exact path and its confirmed budget before a packet is sealed
/// for it.
pub fn prepare_direct_business_send(facts: &BusinessFacts, expected: SocketAddr) -> (gate:
    DirectBusinessBudgetGate)
    ensures
        gate == business_gate(*facts, expected),
{
    if facts.session_generation.is_none() {
        return DirectBusinessBudgetGate::ManagedPending(BusinessPending::PeerSessionMissing);
    }
    if !facts.supports_dplpmtud {
        return DirectBusinessBudgetGate::Unmanaged;
    }
    let path_identity: DplpmtudPathIdentity = match judge_path(facts, expected) {
        Ok(identity) => identity,
        Err(reason) => {
            return DirectBusinessBudgetGate::ManagedPending(reason);
        },
    };
    let entry: BudgetEntry = match facts.entry {
        Some(entry) => entry,
        None => {
            return DirectBusinessBudgetGate::ManagedPending(BusinessPending::BudgetNotPublished);
        },
    };
    if !entry.enforced {
        return DirectBusinessBudgetGate::Unmanaged;
    }
    if entry.path_identity != path_identity {
        return DirectBusinessBudgetGate::ManagedPending(BusinessPending::BudgetPathIdentityStale);
    }
    let budget: BusinessBudget = match entry.budget {
        Some(budget) => budget,
        None => {
            return DirectBusinessBudgetGate::ManagedPending(
                BusinessPending::ConfirmedBudgetWithheld,
            );
        },
    };
    if facts.publication_owner == 0 {
        return DirectBusinessBudgetGate::ManagedPending(BusinessPending::UdpPublicationWithdrawn);
    }
    DirectBusinessBudgetGate::Ready(
        DirectBusinessSendToken {
            path_identity,
            budget_revision: budget.budget_revision,
            max_udp_datagram_size: budget.udp_datagram_size,
            max_overlay_payload_size: budget.overlay_payload_budget,
            udp_publication_owner: facts.publication_owner,
        },
    )
}

/// Whether a peer's business traffic can leave directly as far as its budget
/// goes.
pub open spec fn budget_ready(facts: BusinessFacts) -> bool {
    &&& facts.session_generation is Some
    &&& !facts.supports_dplpmtud || (facts.entry is Some && (!facts.entry->0.enforced || (
    facts.entry->0.budget is Some && facts.publication_owner != 0)))
}

pub fn direct_business_budget_ready_for_peer(facts: &BusinessFacts) -> (r: bool)
    ensures
        r == budget_ready(*facts),
{
    if facts.session_generation.is_none() {
        return false;
    }
    if !facts.supports_dplpmtud {
        return true;
    }
    match facts.entry {
        Some(entry) => !entry.enforced || (entry.budget.is_some() && facts.publication_owner != 0),
        None => false,
    }
}

/// Whether a peer's business traffic needs a budget.
pub fn peer_requires_direct_business_budget(facts: &BusinessFacts) -> (r: bool)
    ensures
        r == (facts.session_generation is Some && facts.supports_dplpmtud && (facts.entry is None
            || facts.entry->0.enforced)),
{
    facts.session_generation.is_some() && facts.supports_dplpmtud && match facts.entry {
        Some(entry) => entry.enforced,
        None => true,
    }
}

/// Why a packet did not leave.
#[derive(Debug, PartialEq, Eq)]
pub enum DirectBusinessUdpSendError {
    CiphertextTooLarge,
    StaleToken,
    LocalPacketTooLarge,
    WouldBlock,
    Io(String),
    Short { sent: usize, expected: usize },
}

/// The contents of a [`DirectBusinessUdpSendError`].
pub enum SendFailure {
    CiphertextTooLarge,
    StaleToken,
    LocalPacketTooLarge,
    WouldBlock,
    Io(Seq<char>),
    Short { sent: usize, expected: usize },
}

impl DirectBusinessUdpSendError {
    pub open spec fn view(&self) -> SendFailure {
        match self {
            Self::CiphertextTooLarge => SendFailure::CiphertextTooLarge,
            Self::StaleToken => SendFailure::StaleToken,
            Self::LocalPacketTooLarge => SendFailure::LocalPacketTooLarge,
            Self::WouldBlock => SendFailure::WouldBlock,
            Self::Io(text) => SendFailure::Io(text@),
            Self::Short { sent, expected } => SendFailure::Short {
                sent: *sent,
                expected: *expected,
            },
        }
    }
}

/// How a token stands when its packet is about to leave.
#[derive(Clone, Copy, Debug)]
pub struct SendTokenState {
    /// The budget that the token was given under still holds.
    pub current: bool,
    /// `None` for a packet that needs no permission.
    pub authorized: Option<bool>,
    pub publication_owner: u64,
    pub transport_instance_id: u64,
    pub socket_local_endpoint: Option<SocketAddr>,
}

/// Why a packet may not leave. Where whoever allowed it no longer does, that
/// is told as a failure to send.
pub open spec fn send_refusal(
    token: DirectBusinessSendToken,
    wire_len: usize,
    state: SendTokenState,
) -> Option<SendFailure> {
    if wire_len > token.max_udp_datagram_size {
        Some(SendFailure::CiphertextTooLarge)
    } else if !state.current {
        Some(SendFailure::StaleToken)
    } else if state.authorized == Some(false) {
        Some(SendFailure::Io("room send authorization expired or revoked"@))
    } else if state.publication_owner != token.udp_publication_owner || state.transport_instance_id
        != token.path_identity.transport_instance_id || state.socket_local_endpoint != Some(
        token.path_identity.local_endpoint,
    ) {
        Some(SendFailure::StaleToken)
    } else {
        None
    }
}

pub fn check_direct_business_packet(
    token: &DirectBusinessSendToken,
    wire_len: usize,
    state: &SendTokenState,
) -> (r: Option<DirectBusinessUdpSendError>)
    ensures
        match r {
            Some(error) => send_refusal(*token, wire_len, *state) == Some(error@),
            None => send_refusal(*token, wire_len, *state) is None,
        },
{
    if wire_len > token.max_udp_datagram_size as usize {
        return Some(DirectBusinessUdpSendError::CiphertextTooLarge);
    }
    if !state.current {
        return Some(DirectBusinessUdpSendError::StaleToken);
    }
    if let Some(false) = state.authorized {
        return Some(
            DirectBusinessUdpSendError::Io("room send authorization expired or revoked".to_owned()),
        );
    }
    if state.publication_owner != token.udp_publication_owner || state.transport_instance_id
        != token.path_identity.transport_instance_id || !same_endpoint(
        state.socket_local_endpoint,
        token.path_identity.local_endpoint,
    ) {
        return Some(DirectBusinessUdpSendError::StaleToken);
    }
    None
}

/// What the socket said of a packet.
#[derive(Debug, PartialEq, Eq)]
pub enum SocketSend {
    Sent(usize),
    TooLarge,
    WouldBlock,
    Failed(String),
}

/// What became of a packet: one that was cut short did not leave.
pub fn judge_direct_business_send(outcome: SocketSend, wire_len: usize) -> (r: Result<
    usize,
    DirectBusinessUdpSendError,
>)
    ensures
        match outcome {
            SocketSend::Sent(n) => if n == wire_len {
                r == Ok::<usize, DirectBusinessUdpSendError>(n)
            } else {
                r matches Err(error) && error@ == (SendFailure::Short {
                    sent: n,
                    expected: wire_len,
                })
            },
            SocketSend::TooLarge => r matches Err(error) && error@
                == SendFailure::LocalPacketTooLarge,
            SocketSend::WouldBlock => r matches Err(error) && error@ == SendFailure::WouldBlock,
            SocketSend::Failed(text) => r matches Err(error) && error@ == SendFailure::Io(text@),
        },
{
    match outcome {
        SocketSend::Sent(n) => {
            if n == wire_len {
                Ok(n)
            } else {
                Err(DirectBusinessUdpSendError::Short { sent: n, expected: wire_len })
            }
        },
        SocketSend::TooLarge => Err(DirectBusinessUdpSendError::LocalPacketTooLarge),
        SocketSend::WouldBlock => Err(DirectBusinessUdpSendError::WouldBlock),
        SocketSend::Failed(text) => Err(DirectBusinessUdpSendError::Io(text)),
    }
}

/// Where the answers to a peer's size probes go back: only there, and never
/// a path for anything else.
#[derive(Clone, Copy, Debug, PartialEq, Eq, Structural)]
pub struct DplpmtudAckReverseRoute {
    pub network_generation: u64,
    pub peer_session_generation: u64,
    pub remote_endpoint: SocketAddr,
    pub local_endpoint: SocketAddr,
    pub socket_index: usize,
}

/// The reverse routes of a bounded number of peers.
pub struct DplpmtudAckReverseRoutes {
    pub max_peers: usize,
    pub routes: Table<String, DplpmtudAckReverseRoute>,
}

impl DplpmtudAckReverseRoutes {
    pub open spec fn wf(&self) -> bool {
        &&& self.routes.wf()
        &&& self.routes@.dom().finite()
        &&& self.routes@.dom().len() <= self.max_peers
    }

    pub fn new(max_peers: usize) -> (r: Self)
        ensures
            r.wf(),
            r.max_peers == max_peers,
            r.routes@ == Map::<Seq<char>, DplpmtudAckReverseRoute>::empty(),
    {
        DplpmtudAckReverseRoutes { max_peers, routes: Table::new() }
    }

    /// Whether a route may be remembered.
    pub open spec fn takes(
        &self,
        peer: Seq<char>,
        network_generation: u64,
        session_current: bool,
        current_generation: u64,
        remote: SocketAddr,
        local: Option<SocketAddr>,
        socket_index: Option<usize>,
    ) -> bool {
        &&& local is Some
        &&& socket_index is Some
        &&& current_generation == network_generation
        &&& session_current
        &&& (local->0.ip is V4) == (remote.ip is V4)
        &&& self.routes@.dom().contains(peer) || self.routes@.dom().len() < self.max_peers
    }

    /// Remembers where a peer's authenticated request came in. There is room
    /// for a bounded number of peers, and none of them is pushed out.
    pub fn remember_dplpmtud_ack_reverse_route(
        &mut self,
        peer_id: &str,
        network_generation: u64,
        peer_session_generation: u64,
        session_current: bool,
        current_generation: u64,
        remote_endpoint: SocketAddr,
        local_endpoint: Option<SocketAddr>,
        socket_index: Option<usize>,
    ) -> (remembered: bool)
        requires
            old(self).wf(),
        ensures
            final(self).wf(),
            final(self).max_peers == old(self).max_peers,
            remembered == old(self).takes(
                peer_id@,
                network_generation,
                session_current,
                current_generation,
                remote_endpoint,
                local_endpoint,
                socket_index,
            ),
            final(self).routes@ == if remembered {
                old(self).routes@.insert(
                    peer_id@,
                    DplpmtudAckReverseRoute {
                        network_generation,
                        peer_session_generation,
                        remote_endpoint,
                        local_endpoint: local_endpoint->0,
                        socket_index: socket_index->0,
                    },
                )
            } else {
                old(self).routes@
            },
    {
        let (local, socket_index): (SocketAddr, usize) = match (local_endpoint, socket_index) {
            (Some(local), Some(socket_index)) => (local, socket_index),
            _ => {
                return false;
            },
        };
        if current_generation != network_generation || !session_current || local.is_ipv4()
            != remote_endpoint.is_ipv4() {
            return false;
        }
        let peer: String = peer_id.to_owned();
        if self.routes.len() >= self.max_peers && !self.routes.contains(&peer) {
            return false;
        }
        let _ = self.routes.insert(
            peer,
            DplpmtudAckReverseRoute {
                network_generation,
                peer_session_generation,
                remote_endpoint,
                local_endpoint: local,
                socket_index,
            },
        );
        true
    }

    /// Forgets the route of a peer that is gone.
    pub fn forget(&mut self, peer_id: &str)
        requires
            old(self).wf(),
        ensures
            final(self).wf(),
            final(self).max_peers == old(self).max_peers,
            final(self).routes@ == old(self).routes@.remove(peer_id@),
    {
        let _ = self.routes.remove(&peer_id.to_owned());
    }

    /// Whether a route is exactly this one.
    pub open spec fn leads(
        &self,
        peer: Seq<char>,
        current_generation: u64,
        peer_session_generation: u64,
        session_current: bool,
        local: SocketAddr,
        socket_index: usize,
    ) -> bool {
        let route = self.routes@[peer];
        &&& self.routes@.dom().contains(peer)
        &&& route.network_generation == current_generation
        &&& route.peer_session_generation == peer_session_generation
        &&& session_current
        &&& route.local_endpoint == local
        &&& route.socket_index == socket_index
    }

    /// Where an answer goes back, if the route is current in every respect.
    pub fn dplpmtud_ack_reverse_endpoint(
        &self,
        peer_id: &str,
        current_generation: u64,
        peer_session_generation: u64,
        session_current: bool,
        local_endpoint: SocketAddr,
        socket_index: usize,
    ) -> (endpoint: Option<SocketAddr>)
        requires
            self.wf(),
        ensures
            endpoint == if self.leads(
                peer_id@,
                current_generation,
                peer_session_generation,
                session_current,
                local_endpoint,
                socket_index,
            ) {
                Some(self.routes@[peer_id@].remote_endpoint)
            } else {
                None
            },
    {
        match self.routes.get(&peer_id.to_owned()) {
            Some(route) => {
                if route.network_generation == current_generation && route.peer_session_generation
                    == peer_session_generation && session_current && route.local_endpoint
                    == local_endpoint && route.socket_index == socket_index {
                    Some(route.remote_endpoint)
                } else {
                    None
                }
            },
            None => None,
        }
    }
}

/// Why the measurement of a peer's path is cancelled.
#[derive(Clone, Copy, Debug, PartialEq, Eq, Structural)]
pub enum DplpmtudCancel {
    ActivePathNotDirect,
    PathIdentityUnbound,
    PathEpochMismatch,
    DirectValidationNotAuthenticated,
    DirectPairMissing,
    LocalEndpointMissing,
    DirectPairStale,
    LocalSocketMissing,
    LocalSocketChanged,
    DirectValidationIdentityIncomplete,
    PeerVirtualIpNotIpv4,
    WorkerIngressCapacityExceeded,
}

impl DplpmtudCancel {
    pub open spec fn text(self) -> Seq<char> {
        match self {
            Self::ActivePathNotDirect => "active_path_not_direct"@,
            Self::PathIdentityUnbound => "path_identity_unbound"@,
            Self::PathEpochMismatch => "path_epoch_mismatch"@,
            Self::DirectValidationNotAuthenticated => "direct_validation_not_authenticated"@,
            Self::DirectPairMissing => "direct_pair_missing"@,
            Self::LocalEndpointMissing => "local_endpoint_missing"@,
            Self::DirectPairStale => "direct_pair_stale"@,
            Self::LocalSocketMissing => "local_socket_missing"@,
            Self::LocalSocketChanged => "local_socket_changed"@,
            Self::DirectValidationIdentityIncomplete => "direct_validation_identity_incomplete"@,
            Self::PeerVirtualIpNotIpv4 => "peer_virtual_ip_not_ipv4"@,
            Self::WorkerIngressCapacityExceeded => "worker_ingress_capacity_exceeded"@,
        }
    }

    pub fn reason(self) -> (r: &'static str)
        ensures
            r@ == self.text(),
    {
        match self {
            Self::ActivePathNotDirect => "active_path_not_direct",
            Self::PathIdentityUnbound => "path_identity_unbound",
            Self::PathEpochMismatch => "path_epoch_mismatch",
            Self::DirectValidationNotAuthenticated => "direct_validation_not_authenticated",
            Self::DirectPairMissing => "direct_pair_missing",
            Self::LocalEndpointMissing => "local_endpoint_missing",
            Self::DirectPairStale => "direct_pair_stale",
            Self::LocalSocketMissing => "local_socket_missing",
            Self::LocalSocketChanged => "local_socket_changed",
            Self::DirectValidationIdentityIncomplete => "direct_validation_identity_incomplete",
            Self::PeerVirtualIpNotIpv4 => "peer_virtual_ip_not_ipv4",
            Self::WorkerIngressCapacityExceeded => "worker_ingress_capacity_exceeded",
        }
    }
}

/// What keeps a committed path from being measured, the first thing that
/// does.
pub open spec fn reconcile_cancel(
    committed: CommittedBusinessPath,
    pair: Option<DirectCommitPair>,
    socket: Option<BusinessSocket>,
) -> Option<DplpmtudCancel> {
    let validation = committed.direct->0;
    if !committed.online || committed.direct is None {
        Some(DplpmtudCancel::ActivePathNotDirect)
    } else if committed.epoch is None {
        Some(DplpmtudCancel::PathIdentityUnbound)
    } else if committed.epoch != Some(validation.epoch) {
        Some(DplpmtudCancel::PathEpochMismatch)
    } else if validation.commit_endpoint is None {
        Some(DplpmtudCancel::DirectValidationNotAuthenticated)
    } else if pair is None {
        Some(DplpmtudCancel::DirectPairMissing)
    } else if pair->0.local_endpoint is None {
        Some(DplpmtudCancel::LocalEndpointMissing)
    } else if pair->0.generation != validation.epoch.network_generation
        || pair->0.remote_candidate_epoch != validation.epoch.remote_candidate_epoch {
        Some(DplpmtudCancel::DirectPairStale)
    } else if socket is None {
        Some(DplpmtudCancel::LocalSocketMissing)
    } else if socket->0.local_endpoint != pair->0.local_endpoint {
        Some(DplpmtudCancel::LocalSocketChanged)
    } else if validation.validation_id is None {
        Some(DplpmtudCancel::DirectValidationIdentityIncomplete)
    } else {
        None
    }
}

/// Whether a committed path is measured, and as which exact path.
pub fn reconcile_dplpmtud_path(
    committed: &CommittedBusinessPath,
    pair: Option<DirectCommitPair>,
    socket: Option<BusinessSocket>,
    transport_instance_id: u64,
) -> (r: Result<DplpmtudPathIdentity, DplpmtudCancel>)
    ensures
        match reconcile_cancel(*committed, pair, socket) {
            Some(reason) => r == Err::<DplpmtudPathIdentity, DplpmtudCancel>(reason),
            None => exact_path(*committed, pair, socket, transport_instance_id) is Some && r
                == Ok::<DplpmtudPathIdentity, DplpmtudCancel>(
                exact_path(*committed, pair, socket, transport_instance_id)->0,
            ),
        },
{
    let validation: CommittedValidation = match committed.direct {
        Some(validation) => validation,
        None => {
            return Err(DplpmtudCancel::ActivePathNotDirect);
        },
    };
    if !committed.online {
        return Err(DplpmtudCancel::ActivePathNotDirect);
    }
    if committed.epoch.is_none() {
        return Err(DplpmtudCancel::PathIdentityUnbound);
    }
    if !same_epoch(committed.epoch, validation.epoch) {
        return Err(DplpmtudCancel::PathEpochMismatch);
    }
    let remote_endpoint: SocketAddr = match validation.commit_endpoint {
        Some(endpoint) => endpoint,
        None => {
            return Err(DplpmtudCancel::DirectValidationNotAuthenticated);
        },
    };
    let pair: DirectCommitPair = match pair {
        Some(pair) => pair,
        None => {
            return Err(DplpmtudCancel::DirectPairMissing);
        },
    };
    let local_endpoint: SocketAddr = match pair.local_endpoint {
        Some(endpoint) => endpoint,
        None => {
            return Err(DplpmtudCancel::LocalEndpointMissing);
        },
    };
    if pair.generation != validation.epoch.network_generation || pair.remote_candidate_epoch
        != validation.epoch.remote_candidate_epoch {
        return Err(DplpmtudCancel::DirectPairStale);
    }
    let socket: BusinessSocket = match socket {
        Some(socket) => socket,
        None => {
            return Err(DplpmtudCancel::LocalSocketMissing);
        },
    };
    if !same_endpoint(socket.local_endpoint, local_endpoint) {
        return Err(DplpmtudCancel::LocalSocketChanged);
    }
    match validation.validation_id {
        Some(validation_id) => Ok(
            DplpmtudPathIdentity {
                epoch: validation.epoch,
                validation_id,
                remote_endpoint,
                local_endpoint,
                transport_instance_id,
                socket_index: socket.socket_index,
            },
        ),
        None => Err(DplpmtudCancel::DirectValidationIdentityIncomplete),
    }
}

/// How a path is installed.
#[derive(Clone, Copy, Debug, PartialEq, Eq, Structural)]
pub struct PathInstall {
    /// The path replaces another one.
    pub reset: bool,
    pub supported: bool,
}

/// A path is measured where the peer takes part and the socket can forbid
/// fragmentation.
pub fn plan_path_install(
    previous: Option<DplpmtudPathIdentity>,
    identity: DplpmtudPathIdentity,
    protocol_supported: bool,
    no_fragment_supported: bool,
) -> (install: PathInstall)
    ensures
        install.reset == (previous is Some && previous->0 != identity),
        install.supported == (protocol_supported && no_fragment_supported),
{
    PathInstall {
        reset: match previous {
            Some(previous) => previous != identity,
            None => false,
        },
        supported: protocol_supported && no_fragment_supported,
    }
}

/// Why a path is not measured.
pub open spec fn unsupported_text(protocol_supported: bool) -> Seq<char> {
    if protocol_supported {
        "no_fragment_probe_unsupported"@
    } else {
        "capability_not_negotiated"@
    }
}

pub fn unsupported_reason(protocol_supported: bool) -> (r: &'static str)
    ensures
        r@ == unsupported_text(protocol_supported),
{
    if !protocol_supported {
        "capability_not_negotiated"
    } else {
        "no_fragment_probe_unsupported"
    }
}

/// What became of an installed path.
#[derive(Clone, Copy, Debug, PartialEq, Eq, Structural)]
pub enum DplpmtudInstallDecision {
    Unsupported,
    Unchanged,
    Spawned,
}

/// Whether it is told that a path is not measured: once for each path.
pub fn tells_unsupported(
    supported: bool,
    decision: DplpmtudInstallDecision,
    previous_unsupported: Option<DplpmtudPathIdentity>,
    identity: DplpmtudPathIdentity,
) -> (tell: bool)
    ensures
        tell == (!supported && decision is Unsupported && previous_unsupported != Some(identity)),
{
    !supported && matches!(decision, DplpmtudInstallDecision::Unsupported)
        && match previous_unsupported {
        Some(previous) => previous != identity,
        None => true,
    }
}

/// What becomes of the worker of an installed path.
#[derive(Clone, Copy, Debug, PartialEq, Eq, Structural)]
pub enum WorkerStart {
    /// There is no worker to start.
    Idle,
    Cancel(DplpmtudCancel),
    Submit,
}

/// A worker is started for a path that was just installed, towards a peer
/// with an IPv4 address of its own.
pub fn plan_worker_start(
    decision: DplpmtudInstallDecision,
    has_lease: bool,
    peer_virtual_ip_is_ipv4: bool,
) -> (start: WorkerStart)
    ensures
        start == if decision !is Spawned || !has_lease {
            WorkerStart::Idle
        } else if !peer_virtual_ip_is_ipv4 {
            WorkerStart::Cancel(DplpmtudCancel::PeerVirtualIpNotIpv4)
        } else {
            WorkerStart::Submit
        },
{
    if !matches!(decision, DplpmtudInstallDecision::Spawned) || !has_lease {
        WorkerStart::Idle
    } else if !peer_virtual_ip_is_ipv4 {
        WorkerStart::Cancel(DplpmtudCancel::PeerVirtualIpNotIpv4)
    } else {
        WorkerStart::Submit
    }
}

/// A worker that found no room is cancelled.
pub fn after_worker_submit(submitted: bool) -> (cancel: Option<DplpmtudCancel>)
    ensures
        cancel == if submitted {
            None
        } else {
            Some(DplpmtudCancel::WorkerIngressCapacityExceeded)
        },
{
    if submitted {
        None
    } else {
        Some(DplpmtudCancel::WorkerIngressCapacityExceeded)
    }
}

/// A path is measured exactly where its parts agree.
pub proof fn law_measured_path_is_exact(
    committed: CommittedBusinessPath,
    pair: Option<DirectCommitPair>,
    socket: Option<BusinessSocket>,
    transport_instance_id: u64,
)
    ensures
        reconcile_cancel(committed, pair, socket) is None <==> exact_path(
            committed,
            pair,
            socket,
            transport_instance_id,
        ) is Some,
{
}

/// Traffic is let through only on the very path that is being measured, to
/// the endpoint that was asked for, within what was confirmed.
pub proof fn law_ready_traffic_is_on_the_measured_path(
    facts: BusinessFacts,
    expected: SocketAddr,
    token: DirectBusinessSendToken,
)
    requires
        business_gate(facts, expected) == DirectBusinessBudgetGate::Ready(token),
    ensures
        reconcile_cancel(facts.committed->0, facts.pair, facts.socket) is None,
        exact_path(
            facts.committed->0,
            facts.pair,
            facts.socket,
            facts.transport_instance_id,
        ) == Some(token.path_identity),
        token.path_identity.remote_endpoint == expected,
        facts.entry is Some && facts.entry->0.path_identity == token.path_identity,
        facts.entry->0.budget is Some && facts.entry->0.budget->0.udp_datagram_size
            == token.max_udp_datagram_size,
        budget_ready(facts),
{
}

/// A packet that may leave fits what was confirmed, and leaves from the
/// socket that it was confirmed on.
pub proof fn law_sent_packet_fits(
    token: DirectBusinessSendToken,
    wire_len: usize,
    state: SendTokenState,
)
    requires
        send_refusal(token, wire_len, state) is None,
    ensures
        wire_len <= token.max_udp_datagram_size,
        state.socket_local_endpoint == Some(token.path_identity.local_endpoint),
        state.current,
{
}

/// A route of another generation, session or socket leads nowhere.
pub proof fn law_stale_route_leads_nowhere(
    routes: DplpmtudAckReverseRoutes,
    peer: Seq<char>,
    current_generation: u64,
    session: u64,
    session_current: bool,
    local: SocketAddr,
    socket_index: usize,
)
    requires
        routes.routes@.dom().contains(peer),
        routes.routes@[peer].network_generation != current_generation
            || routes.routes@[peer].peer_session_generation != session || !session_current
            || routes.routes@[peer].local_endpoint != local || routes.routes@[peer].socket_index
            != socket_index,
    ensures
        !routes.leads(peer, current_generation, session, session_current, local, socket_index),
{
}

/// A packet that fits a current token of this transport, its publisher and its
/// socket is refused exactly where it needs a permission that no longer holds.
pub proof fn law_fitting_packet_is_sent(
    token: DirectBusinessSendToken,
    wire_len: usize,
    state: SendTokenState,
)
    requires
        wire_len <= token.max_udp_datagram_size,
        state.current,
        state.publication_owner == token.udp_publication_owner,
        state.transport_instance_id == token.path_identity.transport_instance_id,
        state.socket_local_endpoint == Some(token.path_identity.local_endpoint),
    ensures
        send_refusal(token, wire_len, state) is Some <==> state.authorized == Some(false),
        state.authorized is None ==> send_refusal(token, wire_len, state) is None,
        state.authorized == Some(true) ==> send_refusal(token, wire_len, state) is None,
{
}

/// What a refused packet is told: that it is too large, whatever else holds;
/// that its token is stale; that its permission is gone.
pub proof fn law_send_refusals_tell_why(
    token: DirectBusinessSendToken,
    wire_len: usize,
    state: SendTokenState,
)
    ensures
        ({
            let r = send_refusal(token, wire_len, state);
            let fits = wire_len <= token.max_udp_datagram_size;
            let same = state.publication_owner == token.udp_publication_owner
                && state.transport_instance_id == token.path_identity.transport_instance_id
                && state.socket_local_endpoint == Some(token.path_identity.local_endpoint);
            &&& !fits <==> r == Some(SendFailure::CiphertextTooLarge)
            &&& fits && !state.current ==> r == Some(SendFailure::StaleToken)
            &&& fits && state.current && state.authorized == Some(false) <==> r == Some(
                SendFailure::Io("room send authorization expired or revoked"@),
            )
            &&& fits && state.current && state.authorized != Some(false) && !same ==> r == Some(
                SendFailure::StaleToken,
            )
            &&& r is None <==> fits && state.current && same && state.authorized != Some(false)
        }),
{
}

/// Less room for a packet never makes it pass: what is refused as too large
/// stays so for every longer packet and every smaller token.
pub proof fn law_longer_packets_fare_no_better(
    token: DirectBusinessSendToken,
    smaller: DirectBusinessSendToken,
    wire_len: usize,
    longer: usize,
    state: SendTokenState,
)
    requires
        wire_len <= longer,
        smaller.max_udp_datagram_size <= token.max_udp_datagram_size,
        smaller.path_identity == token.path_identity,
        smaller.udp_publication_owner == token.udp_publication_owner,
    ensures
        send_refusal(smaller, longer, state) is None ==> send_refusal(token, wire_len, state)
            is None,
{
}

/// A path is exact exactly where it is direct, its parts are of one epoch, the
/// peer proved its endpoint, and the socket is the one it was validated on;
/// what identifies it is taken from those.
pub proof fn law_exact_path(
    committed: CommittedBusinessPath,
    pair: DirectCommitPair,
    socket: BusinessSocket,
    transport_instance_id: u64,
)
    ensures
        exact_path(committed, None, Some(socket), transport_instance_id) is None,
        exact_path(committed, Some(pair), None, transport_instance_id) is None,
        exact_path(committed, Some(pair), Some(socket), transport_instance_id) is Some <==> {
            &&& committed.online
            &&& committed.direct matches Some(v) && committed.epoch == Some(v.epoch)
                && v.commit_endpoint is Some && v.validation_id is Some && pair.generation
                == v.epoch.network_generation && pair.remote_candidate_epoch
                == v.epoch.remote_candidate_epoch
            &&& pair.local_endpoint is Some
            &&& socket.local_endpoint == pair.local_endpoint
        },
        exact_path(committed, Some(pair), Some(socket), transport_instance_id) matches Some(p) ==> {
            &&& Some(p.epoch) == committed.epoch
            &&& Some(p.local_endpoint) == socket.local_endpoint
            &&& p.socket_index == socket.socket_index
            &&& p.transport_instance_id == transport_instance_id
            &&& committed.direct matches Some(v) && Some(p.remote_endpoint) == v.commit_endpoint
                && Some(p.validation_id) == v.validation_id
        },
{
}

/// The path of business traffic is pending exactly where it is not exact, or
/// not to the endpoint that was selected.
pub proof fn law_path_is_pending(facts: BusinessFacts, expected: SocketAddr)
    ensures
        path_pending(facts, expected) is None <==> {
            &&& facts.socket is Some
            &&& facts.committed is Some
            &&& exact_path(
                facts.committed->0,
                facts.pair,
                facts.socket,
                facts.transport_instance_id,
            ) matches Some(p) && p.remote_endpoint == expected
        },
{
}

/// What a pending path waits for: the first of its parts that is missing or
/// does not fit.
pub proof fn law_path_pending_tells_why(facts: BusinessFacts, expected: SocketAddr)
    ensures
        ({
            let r = path_pending(facts, expected);
            let c = facts.committed->0;
            let v = c.direct->0;
            let p = facts.pair->0;
            let s = facts.socket->0;
            let known = facts.socket is Some && facts.committed is Some;
            let direct = known && c.online && c.direct is Some;
            let bound = direct && c.epoch == Some(v.epoch);
            let proved = bound && v.commit_endpoint == Some(expected);
            let paired = proved && facts.pair is Some && p.local_endpoint is Some;
            let fits = p.generation == v.epoch.network_generation && p.remote_candidate_epoch
                == v.epoch.remote_candidate_epoch && s.local_endpoint == p.local_endpoint;
            &&& facts.socket is None <==> r == Some(BusinessPending::ExactSocketMissing)
            &&& facts.socket is Some && facts.committed is None <==> r == Some(
                BusinessPending::CommittedPathMissing,
            )
            &&& known && !direct <==> r == Some(BusinessPending::ActivePathNotDirect)
            &&& direct && !bound <==> r == Some(BusinessPending::PathEpochMismatch)
            &&& bound && v.commit_endpoint is None <==> r == Some(
                BusinessPending::DirectIdentityUnconfirmed,
            )
            &&& bound && v.commit_endpoint is Some && !proved <==> r == Some(
                BusinessPending::SelectorEndpointChanged,
            )
            &&& proved && facts.pair is None <==> r == Some(BusinessPending::DirectPairMissing)
            &&& proved && facts.pair is Some && p.local_endpoint is None <==> r == Some(
                BusinessPending::LocalEndpointMissing,
            )
            &&& paired && !fits <==> r == Some(BusinessPending::ExactSocketIdentityChanged)
            &&& paired && fits && v.validation_id is None <==> r == Some(
                BusinessPending::ExactPathIdentityIncomplete,
            )
        }),
{
}

/// The budget of a path lets traffic through exactly where it is not enforced,
/// or is confirmed for this very path while the transport is published; the
/// token then holds that budget.
pub proof fn law_budget_gate(identity: DplpmtudPathIdentity, entry: BudgetEntry, owner: u64)
    ensures
        budget_gate(identity, None, owner) == DirectBusinessBudgetGate::ManagedPending(
            BusinessPending::BudgetNotPublished,
        ),
        !entry.enforced <==> budget_gate(identity, Some(entry), owner) is Unmanaged,
        entry.enforced && entry.path_identity == identity && entry.budget is Some && owner != 0
            <==> budget_gate(identity, Some(entry), owner) is Ready,
        budget_gate(identity, Some(entry), owner) matches DirectBusinessBudgetGate::Ready(t) ==> {
            &&& t.path_identity == identity
            &&& t.udp_publication_owner == owner
            &&& entry.budget matches Some(b) && t.max_udp_datagram_size == b.udp_datagram_size
                && t.max_overlay_payload_size == b.overlay_payload_budget && t.budget_revision
                == b.budget_revision
        },
        entry.enforced && entry.path_identity != identity <==> budget_gate(
            identity,
            Some(entry),
            owner,
        ) == DirectBusinessBudgetGate::ManagedPending(BusinessPending::BudgetPathIdentityStale),
        entry.enforced && entry.path_identity == identity && entry.budget is None <==> budget_gate(
            identity,
            Some(entry),
            owner,
        ) == DirectBusinessBudgetGate::ManagedPending(BusinessPending::ConfirmedBudgetWithheld),
        entry.enforced && entry.path_identity == identity && entry.budget is Some && owner == 0
            <==> budget_gate(identity, Some(entry), owner)
            == DirectBusinessBudgetGate::ManagedPending(BusinessPending::UdpPublicationWithdrawn),
{
}

/// Traffic to a peer that takes no part leaves unmanaged while the peer is
/// online; traffic to any other waits for its path, then for its budget.
pub proof fn law_business_gate(facts: BusinessFacts, expected: SocketAddr)
    ensures
        facts.session_generation is None ==> business_gate(facts, expected)
            == DirectBusinessBudgetGate::ManagedPending(BusinessPending::PeerSessionMissing),
        facts.session_generation is Some && !facts.supports_dplpmtud ==> business_gate(
            facts,
            expected,
        ) is Unmanaged,
        facts.session_generation is Some && facts.supports_dplpmtud ==> {
            &&& path_pending(facts, expected) matches Some(reason) ==> business_gate(
                facts,
                expected,
            ) == DirectBusinessBudgetGate::ManagedPending(reason)
            &&& path_pending(facts, expected) is None && facts.entry is None ==> business_gate(
                facts,
                expected,
            ) == DirectBusinessBudgetGate::ManagedPending(BusinessPending::BudgetNotPublished)
            &&& path_pending(facts, expected) is None ==> (business_gate(facts, expected)
                is Unmanaged <==> (facts.entry matches Some(e) && !e.enforced))
            &&& business_gate(facts, expected) matches DirectBusinessBudgetGate::Ready(t)
                ==> t.path_identity.remote_endpoint == expected && t.udp_publication_owner
                == facts.publication_owner && facts.publication_owner != 0
        },
{
}

/// A peer's budget is ready where the peer is online and takes no part, or has
/// an entry that is not enforced, or one with a budget while the transport is
/// published.
pub proof fn law_budget_ready(facts: BusinessFacts, expected: SocketAddr)
    ensures
        facts.session_generation is None ==> !budget_ready(facts),
        facts.session_generation is Some && !facts.supports_dplpmtud ==> budget_ready(facts),
        facts.session_generation is Some && facts.supports_dplpmtud ==> (budget_ready(facts) <==> (
        facts.entry matches Some(e) && (!e.enforced || (e.budget is Some
            && facts.publication_owner != 0)))),
        !(business_gate(facts, expected) is ManagedPending) ==> budget_ready(facts),
{
}

/// A route is taken exactly where it is of the current network and session,
/// its ends are of one family, and there is room for its peer.
pub proof fn law_route_is_taken(
    routes: DplpmtudAckReverseRoutes,
    peer: Seq<char>,
    network_generation: u64,
    session_current: bool,
    current_generation: u64,
    remote: SocketAddr,
    local: SocketAddr,
    index: usize,
)
    ensures
        !routes.takes(
            peer,
            network_generation,
            session_current,
            current_generation,
            remote,
            None,
            Some(index),
        ),
        !routes.takes(
            peer,
            network_generation,
            session_current,
            current_generation,
            remote,
            Some(local),
            None,
        ),
        routes.takes(
            peer,
            network_generation,
            session_current,
            current_generation,
            remote,
            Some(local),
            Some(index),
        ) <==> {
            &&& network_generation == current_generation
            &&& session_current
            &&& local.ip is V4 <==> remote.ip is V4
            &&& routes.routes@.dom().contains(peer) || routes.routes@.dom().len()
                < routes.max_peers
        },
{
}

/// A route leads back exactly while its peer, network, session, local endpoint
/// and socket are those it was taken with.
pub proof fn law_route_leads_back(
    routes: DplpmtudAckReverseRoutes,
    peer: Seq<char>,
    current_generation: u64,
    peer_session_generation: u64,
    session_current: bool,
    local: SocketAddr,
    index: usize,
)
    ensures
        routes.leads(
            peer,
            current_generation,
            peer_session_generation,
            session_current,
            local,
            index,
        ) <==> {
            &&& session_current
            &&& routes.routes@.dom().contains(peer)
            &&& routes.routes@[peer].network_generation == current_generation
            &&& routes.routes@[peer].peer_session_generation == peer_session_generation
            &&& routes.routes@[peer].local_endpoint == local
            &&& routes.routes@[peer].socket_index == index
        },
{
}

/// A path is measured on exactly where it is exact; otherwise the first of its
/// parts that is missing or does not fit is told.
pub proof fn law_reconcile_tells_why(
    c: CommittedBusinessPath,
    pair: Option<DirectCommitPair>,
    socket: Option<BusinessSocket>,
    transport_instance_id: u64,
)
    ensures
        ({
            let r = reconcile_cancel(c, pair, socket);
            let v = c.direct->0;
            let p = pair->0;
            let direct = c.online && c.direct is Some;
            let bound = direct && c.epoch == Some(v.epoch);
            let proved = bound && v.commit_endpoint is Some;
            let paired = proved && pair is Some && p.local_endpoint is Some;
            let fresh = paired && p.generation == v.epoch.network_generation
                && p.remote_candidate_epoch == v.epoch.remote_candidate_epoch;
            let same = fresh && socket is Some && socket->0.local_endpoint == p.local_endpoint;
            &&& r is None <==> exact_path(c, pair, socket, transport_instance_id) is Some
            &&& !direct <==> r == Some(DplpmtudCancel::ActivePathNotDirect)
            &&& direct && c.epoch is None <==> r == Some(DplpmtudCancel::PathIdentityUnbound)
            &&& direct && c.epoch is Some && !bound <==> r == Some(
                DplpmtudCancel::PathEpochMismatch,
            )
            &&& bound && !proved <==> r == Some(DplpmtudCancel::DirectValidationNotAuthenticated)
            &&& proved && pair is None <==> r == Some(DplpmtudCancel::DirectPairMissing)
            &&& proved && pair is Some && p.local_endpoint is None <==> r == Some(
                DplpmtudCancel::LocalEndpointMissing,
            )
            &&& paired && !fresh <==> r == Some(DplpmtudCancel::DirectPairStale)
            &&& fresh && socket is None <==> r == Some(DplpmtudCancel::LocalSocketMissing)
            &&& fresh && socket is Some && !same <==> r == Some(
                DplpmtudCancel::LocalSocketChanged,
            )
            &&& same && v.validation_id is None <==> r == Some(
                DplpmtudCancel::DirectValidationIdentityIncomplete,
            )
        }),
{
}

/// An unsupported path is told to be so by the protocol or by the socket.
pub proof fn law_unsupported_text()
    ensures
        unsupported_text(true) == "no_fragment_probe_unsupported"@,
        unsupported_text(false) == "capability_not_negotiated"@,
{
}

} // verus!

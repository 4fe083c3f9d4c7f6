//! One generation of a fresh mapping: a socket that nobody has used measures
//! how the NAT hands out ports, and punches before anything else takes the
//! next one.

use vstd::prelude::*;
use crate::histogram::add_new;
use crate::net::{IpAddr, Ipv4Addr, SocketAddr};
use crate::socket_state::{DynamicSocketAttachError, SocketState};
use crate::text::same_text;

verus! {

/// A process-local timestamp in milliseconds: zero stands for no response.
pub fn monotonic_millis(elapsed_ms: u128) -> (r: u64)
    ensures
        r > 0,
        elapsed_ms < u64::MAX ==> r == elapsed_ms + 1,
        elapsed_ms >= u64::MAX ==> r == u64::MAX,
{
    if elapsed_ms >= 0xffff_ffff_ffff_ffff {
        0xffff_ffff_ffff_ffff
    } else {
        elapsed_ms as u64 + 1
    }
}

/// What an observer saw of a request.
#[derive(Clone, Copy, Debug, PartialEq, Eq, Structural)]
pub struct MappingObservation {
    /// The place of the request in the order of sending.
    pub sequence: u16,
    pub observer: SocketAddr,
    /// The public address that the observer saw.
    pub observed: SocketAddr,
    pub sent_at_ms: u64,
    pub responded_at_ms: u64,
    pub local_endpoint: SocketAddr,
}

/// A decoded reply.
#[derive(Clone, Copy, Debug)]
pub struct StunReply {
    pub source: SocketAddr,
    pub transaction_id: u128,
    pub binding_response: bool,
    pub reflexive: Option<SocketAddr>,
}

/// The address that a reply tells, where it is the observer's answer to this
/// very request.
pub open spec fn reflexive_of(
    reply: Option<StunReply>,
    observer: SocketAddr,
    transaction_id: u128,
) -> Option<SocketAddr> {
    match reply {
        Some(r) => if r.source == observer && r.transaction_id == transaction_id
            && r.binding_response {
            r.reflexive
        } else {
            None
        },
        None => None,
    }
}

pub fn accept_stun_reply(
    reply: Option<StunReply>,
    observer: SocketAddr,
    transaction_id: u128,
) -> (r: Option<SocketAddr>)
    ensures
        r == reflexive_of(reply, observer, transaction_id),
{
    match reply {
        Some(reply) => {
            if reply.source == observer && reply.transaction_id == transaction_id
                && reply.binding_response {
                reply.reflexive
            } else {
                None
            }
        },
        None => None,
    }
}

/// What a measurement may take.
#[derive(Clone, Copy, Debug, PartialEq, Eq, Structural)]
pub struct MeasurementLimits {
    /// Nanoseconds that one request may wait.
    pub request_timeout: u64,
    /// Milliseconds for all requests together.
    pub budget_ms: u64,
}

/// Milliseconds of the budget that are left.
pub open spec fn budget_left(budget_ms: u64, started_ms: u64, now_ms: u64) -> int {
    let spent = crate::window::elapsed(now_ms, started_ms);
    if spent < budget_ms {
        budget_ms - spent
    } else {
        0
    }
}

/// Nanoseconds that a request may wait: what is left of the budget is shared
/// evenly among the requests to come.
pub open spec fn sample_timeout(request_timeout: u64, left_ms: int, samples: nat) -> int {
    let share = left_ms / samples as int * 1_000_000;
    if share < request_timeout {
        share
    } else {
        request_timeout as int
    }
}

#[derive(Clone, Copy, Debug, PartialEq, Eq, Structural)]
pub enum MeasurementPhase {
    /// A request can be sent.
    Ready,
    /// The outcome of the send.
    Sent,
    /// The reply.
    Waiting,
    Finished,
}

/// A measurement: one request after the other, so that the order of sending
/// is the order in which the NAT hands out ports.
pub struct MappingMeasurement {
    pub observers: Vec<SocketAddr>,
    pub limits: MeasurementLimits,
    pub started_ms: u64,
    pub position: usize,
    pub phase: MeasurementPhase,
    pub observations: Vec<MappingObservation>,
}

/// Most requests of a measurement.
pub const MAX_OBSERVERS: usize = 65_535;

impl MappingMeasurement {
    pub open spec fn wf(&self) -> bool {
        &&& self.observers@.len() <= MAX_OBSERVERS
        &&& self.observers@.no_duplicates()
        &&& self.position <= self.observers@.len()
        &&& (self.phase is Sent || self.phase is Waiting ==> self.position < self.observers@.len())
        &&& forall|i: int|
            0 <= i < self.observations@.len() ==> {
                let o = #[trigger] self.observations@[i];
                o.sequence < self.position && o.observer == self.observers@[o.sequence as int]
            }
        &&& forall|i: int, j: int|
            0 <= i < j < self.observations@.len() ==> (#[trigger] self.observations@[i]).sequence
                < (#[trigger] self.observations@[j]).sequence
    }

    /// Nothing but the course of the measurement changed.
    pub open spec fn same_plan(&self, next: &MappingMeasurement) -> bool {
        &&& next.observers == self.observers
        &&& next.limits == self.limits
        &&& next.started_ms == self.started_ms
    }

    /// A measurement with every observer once, in the given order.
    pub fn new(
        observers: &Vec<SocketAddr>,
        stun_timeout: u64,
        limits: MeasurementLimits,
        started_ms: u64,
    ) -> (m: Self)
        ensures
            m.wf(),
            m.observers@ == crate::birthday::at_most(
                crate::histogram::with_new(Seq::empty(), observers@),
                MAX_OBSERVERS as nat,
            ),
            m.limits.budget_ms == limits.budget_ms,
            m.limits.request_timeout == if stun_timeout < limits.request_timeout {
                stun_timeout
            } else {
                limits.request_timeout
            },
            m.started_ms == started_ms,
            m.position == 0,
            m.phase is Ready,
            m.observations@.len() == 0,
    {
        let mut distinct: Vec<SocketAddr> = Vec::new();
        add_new(&mut distinct, observers);
        proof {
            lemma_with_new_distinct(Seq::empty(), observers@);
        }
        if distinct.len() > MAX_OBSERVERS {
            distinct.truncate(MAX_OBSERVERS);
        }
        MappingMeasurement {
            observers: distinct,
            limits: MeasurementLimits {
                request_timeout: if stun_timeout < limits.request_timeout {
                    stun_timeout
                } else {
                    limits.request_timeout
                },
                budget_ms: limits.budget_ms,
            },
            started_ms,
            position: 0,
            phase: MeasurementPhase::Ready,
            observations: Vec::new(),
        }
    }

    /// The next request and how long it may wait. The measurement ends where
    /// it is no longer wanted or its budget is spent.
    pub fn next_request(&mut self, keep_measuring: bool, now_ms: u64) -> (request: Option<
        (SocketAddr, u64),
    >)
        requires
            old(self).wf(),
            old(self).phase is Ready,
        ensures
            final(self).wf(),
            old(self).same_plan(final(self)),
            final(self).position == old(self).position,
            final(self).observations == old(self).observations,
            ({
                let left = budget_left(old(self).limits.budget_ms, old(self).started_ms, now_ms);
                let n = old(self).observers@.len();
                if old(self).position >= n || !keep_measuring || left == 0 {
                    request is None && final(self).phase is Finished
                } else {
                    &&& final(self).phase is Sent
                    &&& request matches Some((observer, timeout)) && observer
                        == old(self).observers@[old(self).position as int] && timeout
                        == sample_timeout(
                        old(self).limits.request_timeout,
                        left,
                        (n - old(self).position) as nat,
                    )
                }
            }),
    {
        if self.position >= self.observers.len() || !keep_measuring {
            self.phase = MeasurementPhase::Finished;
            return None;
        }
        let spent: u64 = now_ms.saturating_sub(self.started_ms);
        let left: u64 = self.limits.budget_ms.saturating_sub(spent);
        if left == 0 {
            self.phase = MeasurementPhase::Finished;
            return None;
        }
        let samples: usize = self.observers.len() - self.position;
        let share_ms: u64 = left / samples as u64;
        let share: u128 = share_ms as u128 * 1_000_000;
        let timeout: u64 = if share < self.limits.request_timeout as u128 {
            share as u64
        } else {
            self.limits.request_timeout
        };
        self.phase = MeasurementPhase::Sent;
        Some((self.observers[self.position], timeout))
    }

    /// A request that did not leave is passed over. Returns whether its reply
    /// is waited for.
    pub fn on_sent(&mut self, sent: bool, keep_measuring: bool) -> (wait: bool)
        requires
            old(self).wf(),
            old(self).phase is Sent,
        ensures
            final(self).wf(),
            old(self).same_plan(final(self)),
            final(self).observations == old(self).observations,
            wait == (sent && keep_measuring),
            final(self).position == if sent {
                old(self).position as int
            } else {
                old(self).position + 1
            },
            final(self).phase == if !sent {
                MeasurementPhase::Ready
            } else if keep_measuring {
                MeasurementPhase::Waiting
            } else {
                MeasurementPhase::Finished
            },
    {
        if !sent {
            self.position = self.position + 1;
            self.phase = MeasurementPhase::Ready;
            return false;
        }
        self.phase = if keep_measuring {
            MeasurementPhase::Waiting
        } else {
            MeasurementPhase::Finished
        };
        keep_measuring
    }

    /// Books what the observer saw, if it told.
    pub fn on_reply(
        &mut self,
        reflexive: Option<SocketAddr>,
        sent_at_ms: u64,
        responded_at_ms: u64,
        local_endpoint: Option<SocketAddr>,
    )
        requires
            old(self).wf(),
            old(self).phase is Waiting,
        ensures
            final(self).wf(),
            old(self).same_plan(final(self)),
            final(self).position == old(self).position + 1,
            final(self).phase is Ready,
            final(self).observations@ == match reflexive {
                Some(observed) => old(self).observations@.push(
                    MappingObservation {
                        sequence: old(self).position as u16,
                        observer: old(self).observers@[old(self).position as int],
                        observed,
                        sent_at_ms,
                        responded_at_ms,
                        local_endpoint: match local_endpoint {
                            Some(local) => local,
                            None => unspecified_endpoint(),
                        },
                    },
                ),
                None => old(self).observations@,
            },
    {
        if let Some(observed) = reflexive {
            let observer: SocketAddr = self.observers[self.position];
            self.observations.push(
                MappingObservation {
                    sequence: self.position as u16,
                    observer,
                    observed,
                    sent_at_ms,
                    responded_at_ms,
                    local_endpoint: match local_endpoint {
                        Some(local) => local,
                        None => unspecified(),
                    },
                },
            );
        }
        self.position = self.position + 1;
        self.phase = MeasurementPhase::Ready;
    }
}

/// `0.0.0.0:0`.
pub open spec fn unspecified_endpoint() -> SocketAddr {
    SocketAddr::spec_new(IpAddr::V4(Ipv4Addr { bits: 0 }), 0)
}

pub fn unspecified() -> (addr: SocketAddr)
    ensures
        addr == unspecified_endpoint(),
{
    SocketAddr::new(IpAddr::V4(Ipv4Addr { bits: 0 }), 0)
}

/// Where a fresh socket is bound: beside the first socket where that one has
/// an address of its own, with a port of the system's choice.
pub fn fresh_bind_address(primary: Option<SocketAddr>) -> (addr: SocketAddr)
    ensures
        addr == match primary {
            Some(local) => if local.ip.spec_is_unspecified() {
                unspecified_endpoint()
            } else {
                SocketAddr::spec_new(local.ip, 0)
            },
            None => unspecified_endpoint(),
        },
{
    match primary {
        Some(local) => {
            if local.ip().is_unspecified() {
                unspecified()
            } else {
                SocketAddr::new(local.ip(), 0)
            }
        },
        None => unspecified(),
    }
}

proof fn lemma_with_new_distinct(list: Seq<SocketAddr>, more: Seq<SocketAddr>)
    requires
        list.no_duplicates(),
    ensures
        crate::histogram::with_new(list, more).no_duplicates(),
    decreases more.len(),
{
    if more.len() > 0 {
        lemma_with_new_distinct(list, more.drop_last());
    }
}

/// The observations of a measurement come in the order of sending, at most
/// one from each observer.
pub proof fn law_observations_keep_send_order(m: MappingMeasurement, i: int, j: int)
    requires
        m.wf(),
        0 <= i < j < m.observations@.len(),
    ensures
        m.observations@[i].sequence < m.observations@[j].sequence,
        m.observations@[i].observer != m.observations@[j].observer,
{
    let a = m.observations@[i];
    let b = m.observations@[j];
    assert(m.observers@[a.sequence as int] != m.observers@[b.sequence as int]);
}

/// Whether an endpoint may be punched: a public one, or one of this host
/// where the simulation of NATs on this host is allowed.
pub fn fresh_mapping_target_eligible(
    endpoint: SocketAddr,
    is_public: bool,
    allow_loopback: bool,
) -> (r: bool)
    ensures
        r == (is_public || (allow_loopback && endpoint.ip.spec_is_loopback())),
{
    is_public || (allow_loopback && endpoint.ip().is_loopback())
}

/// The IPv4 endpoints of a list.
pub open spec fn ipv4_of(list: Seq<SocketAddr>) -> Seq<SocketAddr>
    decreases list.len(),
{
    if list.len() == 0 {
        Seq::empty()
    } else if list.last().ip is V4 {
        ipv4_of(list.drop_last()).push(list.last())
    } else {
        ipv4_of(list.drop_last())
    }
}

proof fn lemma_ipv4_prefix(list: Seq<SocketAddr>, n: int)
    requires
        0 <= n <= list.len(),
    ensures
        ipv4_of(list.take(n)).is_prefix_of(ipv4_of(list)),
    decreases list.len() - n,
{
    if n < list.len() {
        lemma_ipv4_prefix(list, n + 1);
        assert(list.take(n + 1).drop_last() =~= list.take(n));
    } else {
        assert(list.take(n) =~= list);
    }
}

/// The first IPv4 observers, as many as a batch takes.
pub fn choose_observers(observers: &Vec<SocketAddr>, per_batch: usize) -> (chosen: Vec<SocketAddr>)
    ensures
        chosen@ == crate::birthday::at_most(ipv4_of(observers@), per_batch as nat),
{
    let mut chosen: Vec<SocketAddr> = Vec::new();
    let mut i: usize = 0;
    assert(observers@.take(0) =~= Seq::empty());
    while i < observers.len() && chosen.len() < per_batch
        invariant
            i <= observers@.len(),
            chosen@ == ipv4_of(observers@.take(i as int)),
            chosen@.len() <= per_batch,
        decreases observers@.len() - i,
    {
        assert(observers@.take(i + 1).drop_last() =~= observers@.take(i as int));
        if observers[i].is_ipv4() {
            chosen.push(observers[i]);
        }
        i += 1;
    }
    proof {
        lemma_ipv4_prefix(observers@, i as int);
        if i == observers@.len() {
            assert(observers@.take(i as int) =~= observers@);
        }
        assert(chosen@ =~= crate::birthday::at_most(ipv4_of(observers@), per_batch as nat));
    }
    chosen
}

/// Why a generation ended without a mapping.
#[derive(Clone, Copy, Debug, PartialEq, Eq, Structural)]
pub enum FreshMappingRejection {
    StableLocalNat,
    NoStablePeerEndpoint,
    MissingProbeKey,
    BindFailed,
    CapacityRejected,
    InsufficientSamples,
    PublicIpChanged,
    BatchStale,
    InconsistentBatch,
    UnpredictableSequence,
    NoProbesSent,
    Superseded,
}

/// Why the socket of a generation is given up.
#[derive(Clone, Copy, Debug, PartialEq, Eq, Structural)]
pub enum FreshDetach {
    InsufficientObservers,
    GenerationCancelled,
    PeerBecameDirect,
    NetworkGenerationChanged,
    InsufficientSamples,
    PublicIpChanged,
    BatchStale,
    InconsistentBatch,
    UnpredictableSequence,
    NoPeerFacingProbe,
    GenerationAbandoned,
    OwnershipLostBeforeAccept,
}

impl FreshDetach {
    pub open spec fn text(self) -> Seq<char> {
        match self {
            Self::InsufficientObservers => "insufficient_observers"@,
            Self::GenerationCancelled => "generation_cancelled"@,
            Self::PeerBecameDirect => "peer_became_direct"@,
            Self::NetworkGenerationChanged => "network_generation_changed"@,
            Self::InsufficientSamples => "insufficient_samples"@,
            Self::PublicIpChanged => "public_ip_changed"@,
            Self::BatchStale => "batch_stale"@,
            Self::InconsistentBatch => "inconsistent_batch"@,
            Self::UnpredictableSequence => "unpredictable_sequence"@,
            Self::NoPeerFacingProbe => "no_peer_facing_probe"@,
            Self::GenerationAbandoned => "generation_abandoned"@,
            Self::OwnershipLostBeforeAccept => "ownership_lost_before_accept"@,
        }
    }

    pub fn reason(self) -> (r: &'static str)
        ensures
            r@ == self.text(),
    {
        match self {
            Self::InsufficientObservers => "insufficient_observers",
            Self::GenerationCancelled => "generation_cancelled",
            Self::PeerBecameDirect => "peer_became_direct",
            Self::NetworkGenerationChanged => "network_generation_changed",
            Self::InsufficientSamples => "insufficient_samples",
            Self::PublicIpChanged => "public_ip_changed",
            Self::BatchStale => "batch_stale",
            Self::InconsistentBatch => "inconsistent_batch",
            Self::UnpredictableSequence => "unpredictable_sequence",
            Self::NoPeerFacingProbe => "no_peer_facing_probe",
            Self::GenerationAbandoned => "generation_abandoned",
            Self::OwnershipLostBeforeAccept => "ownership_lost_before_accept",
        }
    }
}

/// Why a batch has no port model.
#[derive(Clone, Copy, Debug, PartialEq, Eq, Structural)]
pub enum ModelRejection {
    BatchStale,
    InconsistentBatch,
    InsufficientSamples,
    PublicIpChanged,
    NarrowRandom,
    NoConsistentStep,
}

/// What a generation needs to start.
#[derive(Clone, Copy, Debug)]
pub struct FreshStart {
    /// The local NAT hands out a new port for each destination.
    pub local_nat_requires_fresh_mapping: bool,
    pub cancelled: bool,
    pub measure_only: bool,
    /// Endpoints of the peer that may be punched.
    pub target_count: usize,
    pub local_node_known: bool,
    pub peer_key_known: bool,
    pub direct: bool,
}

/// Why a generation does not start.
pub open spec fn start_rejection(start: FreshStart) -> Option<FreshMappingRejection> {
    if !start.local_nat_requires_fresh_mapping {
        Some(FreshMappingRejection::StableLocalNat)
    } else if start.cancelled {
        Some(FreshMappingRejection::Superseded)
    } else if !start.measure_only && start.target_count == 0 {
        Some(FreshMappingRejection::NoStablePeerEndpoint)
    } else if !start.local_node_known || !start.peer_key_known {
        Some(FreshMappingRejection::MissingProbeKey)
    } else if start.direct {
        Some(FreshMappingRejection::Superseded)
    } else {
        None
    }
}

pub fn check_fresh_start(start: &FreshStart) -> (r: Option<FreshMappingRejection>)
    ensures
        r == start_rejection(*start),
{
    if !start.local_nat_requires_fresh_mapping {
        Some(FreshMappingRejection::StableLocalNat)
    } else if start.cancelled {
        Some(FreshMappingRejection::Superseded)
    } else if !start.measure_only && start.target_count == 0 {
        Some(FreshMappingRejection::NoStablePeerEndpoint)
    } else if !start.local_node_known || !start.peer_key_known {
        Some(FreshMappingRejection::MissingProbeKey)
    } else if start.direct {
        Some(FreshMappingRejection::Superseded)
    } else {
        None
    }
}

/// How things stand while a generation runs.
#[derive(Clone, Copy, Debug)]
pub struct FreshState {
    pub cancelled: bool,
    pub direct: bool,
    pub network_generation: u64,
}

/// The end of a generation. A rejected one names why its socket is given up,
/// where it has one that nobody else gives up.
#[derive(Clone, Copy, Debug, PartialEq, Eq, Structural)]
pub enum FreshEnd {
    Rejected(FreshMappingRejection, Option<FreshDetach>),
    Accepted,
}

/// What a generation waits for.
#[derive(Clone, Copy, Debug, PartialEq, Eq, Structural)]
pub enum FreshPhase {
    /// A socket.
    Bind,
    /// Its place among the dedicated sockets.
    Attach,
    /// Its observers.
    Observers,
    /// The outcome of the measurement.
    Measurement,
    /// The port model.
    Model,
    /// The state of things, before anything is touched.
    Validation,
    /// The state of things, before a round of punches.
    Round,
    /// The outcome of a punch.
    Target,
    /// The outcome of all punches.
    Punched,
    /// The commit of the socket.
    Commit,
    /// A last look, after the commit.
    Handoff,
    Finished(FreshEnd),
}

/// The end that a changed state brings: an older answer is no reason to touch
/// a path that works.
pub open spec fn state_end(state: FreshState, network_generation: u64) -> Option<FreshEnd> {
    if state.cancelled {
        Some(
            FreshEnd::Rejected(
                FreshMappingRejection::Superseded,
                Some(FreshDetach::GenerationCancelled),
            ),
        )
    } else if state.direct {
        Some(
            FreshEnd::Rejected(
                FreshMappingRejection::Superseded,
                Some(FreshDetach::PeerBecameDirect),
            ),
        )
    } else if state.network_generation != network_generation {
        Some(
            FreshEnd::Rejected(
                FreshMappingRejection::BatchStale,
                Some(FreshDetach::NetworkGenerationChanged),
            ),
        )
    } else {
        None
    }
}

/// Fewest samples that a model is built from.
pub const MIN_MAPPING_SAMPLES: usize = 3;

/// The end that a measurement brings.
pub open spec fn measurement_end(
    state: FreshState,
    network_generation: u64,
    samples: usize,
    one_public_ip: bool,
) -> Option<FreshEnd> {
    if state.cancelled {
        state_end(state, network_generation)
    } else if samples < MIN_MAPPING_SAMPLES {
        match state_end(state, network_generation) {
            Some(end) => Some(end),
            None => Some(
                FreshEnd::Rejected(
                    FreshMappingRejection::InsufficientSamples,
                    Some(FreshDetach::InsufficientSamples),
                ),
            ),
        }
    } else if !one_public_ip {
        Some(
            FreshEnd::Rejected(
                FreshMappingRejection::PublicIpChanged,
                Some(FreshDetach::PublicIpChanged),
            ),
        )
    } else {
        None
    }
}

/// The size of a step.
pub open spec fn step_size(step: i16) -> int {
    if step < 0 {
        -step
    } else {
        step as int
    }
}

fn size_of_step(step: i16) -> (r: u32)
    ensures
        r == step_size(step),
{
    let wide: i32 = step as i32;
    if wide < 0 {
        (-wide) as u32
    } else {
        wide as u32
    }
}

/// How the ports of a batch follow each other.
#[derive(Clone, Copy, Debug, PartialEq, Eq, Structural)]
pub enum PortModelKind {
    FixedStep { step: i16 },
    Linear { step: i16 },
    NoisyLinear { step: i16 },
    /// The ports go one way, by steps of no fixed size.
    MonotonicWindow { direction: i8 },
    /// There is nothing to step by.
    Unstepped,
}

impl PortModelKind {
    /// The step of a model, if it has one.
    pub open spec fn spec_step(self) -> Option<i16> {
        match self {
            Self::FixedStep { step } => Some(step),
            Self::Linear { step } => Some(step),
            Self::NoisyLinear { step } => Some(step),
            Self::MonotonicWindow { direction } => Some(direction as i16),
            Self::Unstepped => None,
        }
    }

    pub fn step(self) -> (r: Option<i16>)
        ensures
            r == self.spec_step(),
    {
        match self {
            Self::FixedStep { step } => Some(step),
            Self::Linear { step } => Some(step),
            Self::NoisyLinear { step } => Some(step),
            Self::MonotonicWindow { direction } => Some(direction as i16),
            Self::Unstepped => None,
        }
    }
}

/// The end that a model brings: one whose step is too wide predicts nothing.
pub open spec fn model_end(
    model: Result<PortModelKind, ModelRejection>,
    max_abs_step: u32,
) -> Option<FreshEnd> {
    let unpredictable = FreshEnd::Rejected(
        FreshMappingRejection::UnpredictableSequence,
        Some(FreshDetach::UnpredictableSequence),
    );
    match model {
        Err(ModelRejection::BatchStale) => Some(
            FreshEnd::Rejected(FreshMappingRejection::BatchStale, Some(FreshDetach::BatchStale)),
        ),
        Err(ModelRejection::InconsistentBatch) => Some(
            FreshEnd::Rejected(
                FreshMappingRejection::InconsistentBatch,
                Some(FreshDetach::InconsistentBatch),
            ),
        ),
        Err(ModelRejection::InsufficientSamples) => Some(
            FreshEnd::Rejected(
                FreshMappingRejection::InsufficientSamples,
                Some(FreshDetach::InsufficientSamples),
            ),
        ),
        Err(ModelRejection::PublicIpChanged) => Some(
            FreshEnd::Rejected(
                FreshMappingRejection::PublicIpChanged,
                Some(FreshDetach::PublicIpChanged),
            ),
        ),
        Err(ModelRejection::NarrowRandom) | Err(ModelRejection::NoConsistentStep) => Some(
            unpredictable,
        ),
        Ok(kind) => if kind.spec_step() is Some && step_size(kind.spec_step()->0) > max_abs_step {
            Some(unpredictable)
        } else {
            None
        },
    }
}

/// The rejection of a socket that was not taken up.
pub open spec fn attach_rejection(error: DynamicSocketAttachError) -> FreshMappingRejection {
    match error {
        DynamicSocketAttachError::Superseded => FreshMappingRejection::Superseded,
        DynamicSocketAttachError::CapacityRejected => FreshMappingRejection::CapacityRejected,
        _ => FreshMappingRejection::BindFailed,
    }
}

/// The waits after a punch.
#[derive(Clone, Copy, Debug, PartialEq, Eq, Structural)]
pub struct PunchPause {
    /// Whether the spacing between probes is waited.
    pub spacing: bool,
    /// Nanoseconds to wait after that.
    pub interval: u64,
}

/// The longest wait between two punches of a generation.
pub const MAX_PUNCH_PAUSE: u64 = 50_000_000;

/// A generation under way.
pub struct FreshGeneration {
    pub network_generation: u64,
    pub measure_only: bool,
    pub attempts: u32,
    pub targets: Vec<SocketAddr>,
    pub phase: FreshPhase,
    pub round: u32,
    pub position: usize,
    /// Punches that left.
    pub sent: u32,
}

impl FreshGeneration {
    pub open spec fn wf(&self) -> bool {
        &&& (self.measure_only ==> self.sent == 0 && !(self.phase is Round || self.phase is Target
            || self.phase is Punched))
        &&& (self.phase is Target ==> self.round < self.attempts && self.position
            <= self.targets@.len())
        &&& (self.phase is Commit || self.phase is Handoff || self.phase == FreshPhase::Finished(
            FreshEnd::Accepted,
        ) ==> self.measure_only || self.sent > 0)
    }

    /// Nothing but the course of the generation changed.
    pub open spec fn same_plan(&self, next: &FreshGeneration) -> bool {
        &&& next.network_generation == self.network_generation
        &&& next.measure_only == self.measure_only
        &&& next.attempts == self.attempts
        &&& next.targets == self.targets
    }

    /// Nothing but the phase changed.
    pub open spec fn moved_to(&self, next: &FreshGeneration, phase: FreshPhase) -> bool {
        &&& self.same_plan(next)
        &&& next.round == self.round
        &&& next.position == self.position
        &&& next.sent == self.sent
        &&& next.phase == phase
    }

    pub fn new(
        network_generation: u64,
        measure_only: bool,
        attempts: u32,
        targets: Vec<SocketAddr>,
    ) -> (g: Self)
        ensures
            g.wf(),
            g.network_generation == network_generation,
            g.measure_only == measure_only,
            g.attempts == attempts,
            g.targets == targets,
            g.phase is Bind,
            g.round == 0,
            g.position == 0,
            g.sent == 0,
    {
        FreshGeneration {
            network_generation,
            measure_only,
            attempts,
            targets,
            phase: FreshPhase::Bind,
            round: 0,
            position: 0,
            sent: 0,
        }
    }

    fn go(&mut self, end: Option<FreshEnd>, next: FreshPhase)
        requires
            old(self).wf(),
            next is Attach || next is Observers || next is Measurement || next is Model
                || next is Validation,
            !(end is Some && end->0 is Accepted),
        ensures
            final(self).wf(),
            old(self).moved_to(
                final(self),
                match end {
                    Some(end) => FreshPhase::Finished(end),
                    None => next,
                },
            ),
    {
        self.phase = match end {
            Some(end) => FreshPhase::Finished(end),
            None => next,
        };
    }

    pub fn on_bound(&mut self, bound: bool)
        requires
            old(self).wf(),
            old(self).phase is Bind,
        ensures
            final(self).wf(),
            old(self).moved_to(
                final(self),
                if bound {
                    FreshPhase::Attach
                } else {
                    FreshPhase::Finished(
                        FreshEnd::Rejected(FreshMappingRejection::BindFailed, None),
                    )
                },
            ),
    {
        let end: Option<FreshEnd> = if bound {
            None
        } else {
            Some(FreshEnd::Rejected(FreshMappingRejection::BindFailed, None))
        };
        self.go(end, FreshPhase::Attach);
    }

    pub fn on_attached(&mut self, error: Option<DynamicSocketAttachError>)
        requires
            old(self).wf(),
            old(self).phase is Attach,
        ensures
            final(self).wf(),
            old(self).moved_to(
                final(self),
                match error {
                    Some(error) => FreshPhase::Finished(
                        FreshEnd::Rejected(attach_rejection(error), None),
                    ),
                    None => FreshPhase::Observers,
                },
            ),
    {
        let end: Option<FreshEnd> = match error {
            Some(DynamicSocketAttachError::Superseded) => Some(
                FreshEnd::Rejected(FreshMappingRejection::Superseded, None),
            ),
            Some(DynamicSocketAttachError::CapacityRejected) => Some(
                FreshEnd::Rejected(FreshMappingRejection::CapacityRejected, None),
            ),
            Some(_) => Some(FreshEnd::Rejected(FreshMappingRejection::BindFailed, None)),
            None => None,
        };
        self.go(end, FreshPhase::Observers);
    }

    /// A measurement needs enough observers.
    pub fn on_observers(&mut self, observers: usize)
        requires
            old(self).wf(),
            old(self).phase is Observers,
        ensures
            final(self).wf(),
            old(self).moved_to(
                final(self),
                if observers < MIN_MAPPING_SAMPLES {
                    FreshPhase::Finished(
                        FreshEnd::Rejected(
                            FreshMappingRejection::InsufficientSamples,
                            Some(FreshDetach::InsufficientObservers),
                        ),
                    )
                } else {
                    FreshPhase::Measurement
                },
            ),
    {
        let end: Option<FreshEnd> = if observers < MIN_MAPPING_SAMPLES {
            Some(
                FreshEnd::Rejected(
                    FreshMappingRejection::InsufficientSamples,
                    Some(FreshDetach::InsufficientObservers),
                ),
            )
        } else {
            None
        };
        self.go(end, FreshPhase::Measurement);
    }

    /// Judges a measurement. What stopped it takes precedence over how little
    /// it measured.
    pub fn on_measured(&mut self, state: &FreshState, samples: usize, one_public_ip: bool)
        requires
            old(self).wf(),
            old(self).phase is Measurement,
        ensures
            final(self).wf(),
            old(self).moved_to(
                final(self),
                match measurement_end(
                    *state,
                    old(self).network_generation,
                    samples,
                    one_public_ip,
                ) {
                    Some(end) => FreshPhase::Finished(end),
                    None => FreshPhase::Model,
                },
            ),
    {
        let end: Option<FreshEnd> = if state.cancelled {
            end_of_state(state, self.network_generation)
        } else if samples < MIN_MAPPING_SAMPLES {
            match end_of_state(state, self.network_generation) {
                Some(end) => Some(end),
                None => Some(
                    FreshEnd::Rejected(
                        FreshMappingRejection::InsufficientSamples,
                        Some(FreshDetach::InsufficientSamples),
                    ),
                ),
            }
        } else if !one_public_ip {
            Some(
                FreshEnd::Rejected(
                    FreshMappingRejection::PublicIpChanged,
                    Some(FreshDetach::PublicIpChanged),
                ),
            )
        } else {
            None
        };
        self.go(end, FreshPhase::Model);
    }

    /// Judges the port model, or why there is none.
    pub fn on_model(&mut self, model: Result<PortModelKind, ModelRejection>, max_abs_step: u32)
        requires
            old(self).wf(),
            old(self).phase is Model,
        ensures
            final(self).wf(),
            old(self).moved_to(
                final(self),
                match model_end(model, max_abs_step) {
                    Some(end) => FreshPhase::Finished(end),
                    None => FreshPhase::Validation,
                },
            ),
    {
        let rejected: Option<(FreshMappingRejection, FreshDetach)> = match model {
            Err(ModelRejection::BatchStale) => Some(
                (FreshMappingRejection::BatchStale, FreshDetach::BatchStale),
            ),
            Err(ModelRejection::InconsistentBatch) => Some(
                (FreshMappingRejection::InconsistentBatch, FreshDetach::InconsistentBatch),
            ),
            Err(ModelRejection::InsufficientSamples) => Some(
                (FreshMappingRejection::InsufficientSamples, FreshDetach::InsufficientSamples),
            ),
            Err(ModelRejection::PublicIpChanged) => Some(
                (FreshMappingRejection::PublicIpChanged, FreshDetach::PublicIpChanged),
            ),
            Err(ModelRejection::NarrowRandom) | Err(ModelRejection::NoConsistentStep) => Some(
                (FreshMappingRejection::UnpredictableSequence, FreshDetach::UnpredictableSequence),
            ),
            Ok(kind) => match kind.step() {
                Some(step) => if size_of_step(step) > max_abs_step {
                    Some(
                        (
                            FreshMappingRejection::UnpredictableSequence,
                            FreshDetach::UnpredictableSequence,
                        ),
                    )
                } else {
                    None
                },
                None => None,
            },
        };
        let end: Option<FreshEnd> = match rejected {
            Some((rejection, detach)) => Some(FreshEnd::Rejected(rejection, Some(detach))),
            None => None,
        };
        self.go(end, FreshPhase::Validation);
    }

    /// Looks again at everything that may have changed while it measured. A
    /// generation that only measures goes straight to its commit.
    pub fn on_validation(&mut self, state: &FreshState)
        requires
            old(self).wf(),
            old(self).phase is Validation,
        ensures
            final(self).wf(),
            old(self).moved_to(
                final(self),
                match state_end(*state, old(self).network_generation) {
                    Some(end) => FreshPhase::Finished(end),
                    None => if old(self).measure_only {
                        FreshPhase::Commit
                    } else {
                        FreshPhase::Round
                    },
                },
            ),
    {
        match end_of_state(state, self.network_generation) {
            Some(end) => {
                self.phase = FreshPhase::Finished(end);
            },
            None => {
                self.phase = if self.measure_only {
                    FreshPhase::Commit
                } else {
                    FreshPhase::Round
                };
            },
        }
    }

    /// Enters a round of punches, or ends them.
    pub fn begin_round(&mut self, state: &FreshState)
        requires
            old(self).wf(),
            old(self).phase is Round,
        ensures
            final(self).wf(),
            old(self).same_plan(final(self)),
            final(self).round == old(self).round,
            final(self).sent == old(self).sent,
            if old(self).round >= old(self).attempts || state_end(
                *state,
                old(self).network_generation,
            ) is Some {
                final(self).phase is Punched && final(self).position == old(self).position
            } else {
                final(self).phase is Target && final(self).position == 0
            },
    {
        if self.round >= self.attempts || state.cancelled || state.direct
            || state.network_generation != self.network_generation {
            self.phase = FreshPhase::Punched;
        } else {
            self.position = 0;
            self.phase = FreshPhase::Target;
        }
    }

    /// The next endpoint to punch, or the end of the round.
    pub fn next_target(&mut self) -> (target: Option<SocketAddr>)
        requires
            old(self).wf(),
            old(self).phase is Target,
        ensures
            final(self).wf(),
            old(self).same_plan(final(self)),
            final(self).sent == old(self).sent,
            final(self).position == old(self).position,
            if old(self).position < old(self).targets@.len() {
                &&& target == Some(old(self).targets@[old(self).position as int])
                &&& final(self).phase is Target
                &&& final(self).round == old(self).round
            } else {
                &&& target is None
                &&& final(self).phase is Round
                &&& final(self).round == old(self).round + 1
            },
    {
        if self.position < self.targets.len() {
            return Some(self.targets[self.position]);
        }
        self.round = self.round + 1;
        self.phase = FreshPhase::Round;
        None
    }

    /// Books a punch, and gives the waits after it.
    pub fn on_punched(&mut self, sent: bool, probe_interval: u64) -> (pause: PunchPause)
        requires
            old(self).wf(),
            old(self).phase is Target,
            old(self).position < old(self).targets@.len(),
        ensures
            final(self).wf(),
            old(self).same_plan(final(self)),
            final(self).phase is Target,
            final(self).round == old(self).round,
            final(self).position == old(self).position + 1,
            final(self).sent == if sent {
                crate::histogram::add32(old(self).sent, 1)
            } else {
                old(self).sent
            },
            pause.spacing == sent,
            pause.interval == if old(self).round + 1 >= old(self).attempts {
                0
            } else if probe_interval < MAX_PUNCH_PAUSE {
                probe_interval
            } else {
                MAX_PUNCH_PAUSE
            },
    {
        if sent {
            self.sent = self.sent.saturating_add(1);
        }
        assert(self.position < self.targets.len());
        self.position = self.position + 1;
        PunchPause {
            spacing: sent,
            interval: if self.round + 1 >= self.attempts {
                0
            } else if probe_interval < MAX_PUNCH_PAUSE {
                probe_interval
            } else {
                MAX_PUNCH_PAUSE
            },
        }
    }

    /// A generation that punched nothing claims nothing.
    pub fn on_all_punched(&mut self, cancelled: bool)
        requires
            old(self).wf(),
            old(self).phase is Punched,
        ensures
            final(self).wf(),
            old(self).moved_to(
                final(self),
                if old(self).sent > 0 {
                    FreshPhase::Commit
                } else {
                    FreshPhase::Finished(
                        FreshEnd::Rejected(
                            if cancelled {
                                FreshMappingRejection::Superseded
                            } else {
                                FreshMappingRejection::NoProbesSent
                            },
                            Some(FreshDetach::NoPeerFacingProbe),
                        ),
                    )
                },
            ),
    {
        if self.sent > 0 {
            self.phase = FreshPhase::Commit;
        } else {
            let rejection = if cancelled {
                FreshMappingRejection::Superseded
            } else {
                FreshMappingRejection::NoProbesSent
            };
            self.phase = FreshPhase::Finished(
                FreshEnd::Rejected(rejection, Some(FreshDetach::NoPeerFacingProbe)),
            );
        }
    }

    pub fn on_commit(&mut self, committed: bool)
        requires
            old(self).wf(),
            old(self).phase is Commit,
        ensures
            final(self).wf(),
            old(self).moved_to(
                final(self),
                if committed {
                    FreshPhase::Handoff
                } else {
                    FreshPhase::Finished(
                        FreshEnd::Rejected(
                            FreshMappingRejection::Superseded,
                            Some(FreshDetach::GenerationAbandoned),
                        ),
                    )
                },
            ),
    {
        self.phase = if committed {
            FreshPhase::Handoff
        } else {
            FreshPhase::Finished(
                FreshEnd::Rejected(
                    FreshMappingRejection::Superseded,
                    Some(FreshDetach::GenerationAbandoned),
                ),
            )
        };
    }

    /// Accepts a generation that still owns its committed socket. The socket
    /// of one that was cancelled after its commit is rolled back by whoever
    /// watches over it.
    pub fn on_handoff(&mut self, cancelled: bool, still_owned: bool)
        requires
            old(self).wf(),
            old(self).phase is Handoff,
        ensures
            final(self).wf(),
            old(self).moved_to(
                final(self),
                FreshPhase::Finished(
                    if cancelled {
                        FreshEnd::Rejected(FreshMappingRejection::Superseded, None)
                    } else if !still_owned {
                        FreshEnd::Rejected(
                            FreshMappingRejection::Superseded,
                            Some(FreshDetach::OwnershipLostBeforeAccept),
                        )
                    } else {
                        FreshEnd::Accepted
                    },
                ),
            ),
    {
        self.phase = FreshPhase::Finished(
            if cancelled {
                FreshEnd::Rejected(FreshMappingRejection::Superseded, None)
            } else if !still_owned {
                FreshEnd::Rejected(
                    FreshMappingRejection::Superseded,
                    Some(FreshDetach::OwnershipLostBeforeAccept),
                )
            } else {
                FreshEnd::Accepted
            },
        );
    }
}

fn end_of_state(state: &FreshState, network_generation: u64) -> (end: Option<FreshEnd>)
    ensures
        end == state_end(*state, network_generation),
{
    if state.cancelled {
        Some(
            FreshEnd::Rejected(
                FreshMappingRejection::Superseded,
                Some(FreshDetach::GenerationCancelled),
            ),
        )
    } else if state.direct {
        Some(
            FreshEnd::Rejected(
                FreshMappingRejection::Superseded,
                Some(FreshDetach::PeerBecameDirect),
            ),
        )
    } else if state.network_generation != network_generation {
        Some(
            FreshEnd::Rejected(
                FreshMappingRejection::BatchStale,
                Some(FreshDetach::NetworkGenerationChanged),
            ),
        )
    } else {
        None
    }
}

/// Whether a peer is pinned to a usable socket of its own.
pub open spec fn owned_by(
    sockets: crate::socket_state::Sockets,
    peer: Seq<char>,
    socket_index: usize,
) -> bool {
    &&& sockets.dynamic.dom().contains(socket_index)
    &&& sockets.dynamic[socket_index].phase.usable()
    &&& sockets.dynamic[socket_index].peer == peer
    &&& sockets.pinned(peer, socket_index)
}

pub fn generation_still_owns_socket(state: &SocketState, peer_id: &str, socket_index: usize) -> (r:
    bool)
    requires
        state.wf(),
    ensures
        r == owned_by(state@, peer_id@, socket_index),
{
    let pinned: bool = match state.affinity.get(&peer_id.to_owned()) {
        Some(pin) => pin.socket_index == socket_index,
        None => false,
    };
    match state.dynamic.get(&socket_index) {
        Some(entry) => {
            assert(state@.dynamic[socket_index] == entry@);
            pinned && entry.phase.is_usable() && same_text(entry.peer_id.as_str(), peer_id)
        },
        None => false,
    }
}

/// When the requests of a batch were sent.
#[derive(Clone, Copy, Debug, PartialEq, Eq, Structural)]
pub struct MeasurementSpan {
    pub first_sent_at_ms: u64,
    pub last_sent_at_ms: u64,
    pub measurement_span_ms: u64,
    /// What has passed since the last request.
    pub probe_gap_ms: u64,
}

/// The times of a batch: the ports taken between the last request and the
/// first punch are not ours.
pub fn measurement_span(
    observations: &Vec<MappingObservation>,
    started_at_ms: u64,
    finished_at_ms: u64,
    now_ms: u64,
) -> (span: MeasurementSpan)
    ensures
        ({
            let n = observations@.len();
            let first = if n > 0 {
                observations@[0].sent_at_ms
            } else {
                started_at_ms
            };
            let last = if n > 0 {
                observations@[n - 1].sent_at_ms
            } else {
                finished_at_ms
            };
            span == MeasurementSpan {
                first_sent_at_ms: first,
                last_sent_at_ms: last,
                measurement_span_ms: crate::window::elapsed(last, first),
                probe_gap_ms: crate::window::elapsed(now_ms, last),
            }
        }),
{
    let n: usize = observations.len();
    let first: u64 = if n > 0 {
        observations[0].sent_at_ms
    } else {
        started_at_ms
    };
    let last: u64 = if n > 0 {
        observations[n - 1].sent_at_ms
    } else {
        finished_at_ms
    };
    MeasurementSpan {
        first_sent_at_ms: first,
        last_sent_at_ms: last,
        measurement_span_ms: last.saturating_sub(first),
        probe_gap_ms: now_ms.saturating_sub(last),
    }
}

/// The learned step, where it is not too wide to be of use.
pub fn effective_step(step_estimate: Option<i16>, max_abs_step: u32) -> (step: Option<i16>)
    ensures
        step == if step_estimate is Some && step_size(step_estimate->0) <= max_abs_step {
            step_estimate
        } else {
            None
        },
{
    match step_estimate {
        Some(estimate) => {
            if size_of_step(estimate) <= max_abs_step {
                step_estimate
            } else {
                None
            }
        },
        None => None,
    }
}

/// What was seen of the peer's own mapping goes before what the observers saw.
pub fn counts_down(peer_reverse: Option<bool>, observer_reverse: bool) -> (r: bool)
    ensures
        r == if peer_reverse is Some {
            peer_reverse->0
        } else {
            observer_reverse
        },
{
    match peer_reverse {
        Some(reverse) => reverse,
        None => observer_reverse,
    }
}

/// An accepted generation punched, or was only asked to measure; and one that
/// was only asked to measure punched nothing.
pub proof fn law_accepted_generation_did_its_work(g: FreshGeneration)
    requires
        g.wf(),
    ensures
        g.phase == FreshPhase::Finished(FreshEnd::Accepted) ==> g.measure_only || g.sent > 0,
        g.measure_only ==> g.sent == 0,
{
}

/// Whatever ends a generation between taking its socket and committing it
/// names why that socket is given up.
pub proof fn law_rejected_generation_gives_up_its_socket(
    state: FreshState,
    network_generation: u64,
    samples: usize,
    one_public_ip: bool,
    model: Result<PortModelKind, ModelRejection>,
    max_abs_step: u32,
)
    ensures
        state_end(state, network_generation) matches Some(FreshEnd::Rejected(_, detach))
            ==> detach is Some,
        measurement_end(state, network_generation, samples, one_public_ip) matches Some(
            FreshEnd::Rejected(_, detach),
        ) ==> detach is Some,
        model_end(model, max_abs_step) matches Some(FreshEnd::Rejected(_, detach)) ==> detach is Some,
        !(state_end(state, network_generation) == Some(FreshEnd::Accepted)),
        !(measurement_end(state, network_generation, samples, one_public_ip) == Some(
            FreshEnd::Accepted,
        )),
        !(model_end(model, max_abs_step) == Some(FreshEnd::Accepted)),
{
}

/// A reply tells the public address exactly where it is the observer's answer
/// to this request.
pub proof fn law_reflexive_address(r: StunReply, observer: SocketAddr, transaction_id: u128)
    ensures
        reflexive_of(None, observer, transaction_id) is None,
        r.source == observer && r.transaction_id == transaction_id && r.binding_response
            ==> reflexive_of(Some(r), observer, transaction_id) == r.reflexive,
        r.source != observer || r.transaction_id != transaction_id || !r.binding_response
            ==> reflexive_of(Some(r), observer, transaction_id) is None,
{
}

/// What is left of the budget, and what a request may wait of it: an equal
/// share, but no longer than any request.
pub proof fn law_measurement_time(
    budget_ms: u64,
    started_ms: u64,
    now_ms: u64,
    timeout: u64,
    left_ms: int,
    samples: nat,
)
    requires
        left_ms >= 0,
        samples > 0,
    ensures
        now_ms <= started_ms ==> budget_left(budget_ms, started_ms, now_ms) == budget_ms,
        started_ms <= now_ms <= started_ms + budget_ms ==> budget_left(
            budget_ms,
            started_ms,
            now_ms,
        ) == started_ms + budget_ms - now_ms,
        now_ms >= started_ms + budget_ms ==> budget_left(budget_ms, started_ms, now_ms) == 0,
        sample_timeout(timeout, left_ms, samples) <= timeout,
        sample_timeout(timeout, left_ms, samples) <= left_ms / samples as int * 1_000_000,
        sample_timeout(timeout, left_ms, samples) == timeout || sample_timeout(
            timeout,
            left_ms,
            samples,
        ) == left_ms / samples as int * 1_000_000,
{
}

/// A measurement keeps its observers, limits and start.
pub proof fn law_measurement_plan_stays(m: MappingMeasurement, next: MappingMeasurement)
    ensures
        m.same_plan(&next) <==> next.observers == m.observers && next.limits == m.limits
            && next.started_ms == m.started_ms,
        MAX_OBSERVERS == 65_535,
{
}

/// The observations of a measurement are of its observers, in the order of
/// sending and each of another.
pub proof fn law_observations_are_of_the_observers(m: MappingMeasurement, i: int)
    requires
        m.wf(),
        0 <= i < m.observations@.len(),
    ensures
        m.observations@[i].sequence < m.position,
        m.observations@[i].observer == m.observers@[m.observations@[i].sequence as int],
        m.observers@.no_duplicates(),
        m.position <= m.observers@.len(),
{
}

/// Of some observers the IPv4 ones are taken, in their order.
pub proof fn law_ipv4_observers(list: Seq<SocketAddr>, next: SocketAddr)
    ensures
        ipv4_of(Seq::empty()) == Seq::<SocketAddr>::empty(),
        next.ip is V4 ==> ipv4_of(list.push(next)) == ipv4_of(list).push(next),
        next.ip is V6 ==> ipv4_of(list.push(next)) == ipv4_of(list),
        unspecified_endpoint().ip == IpAddr::V4(Ipv4Addr { bits: 0 }),
        unspecified_endpoint().port == 0,
{
    assert(list.push(next).drop_last() =~= list);
}

/// A generation starts exactly behind a mapping that changes, not cancelled,
/// with something to punch unless it only measures, for a peer whose key is
/// known and that is not direct; otherwise the first that fails is told.
pub proof fn law_fresh_start_conditions(s: FreshStart)
    ensures
        ({
            let r = start_rejection(s);
            let wanted = s.local_nat_requires_fresh_mapping;
            let open = wanted && !s.cancelled;
            let aimed = open && (s.measure_only || s.target_count > 0);
            let keyed = aimed && s.local_node_known && s.peer_key_known;
            &&& r is None <==> keyed && !s.direct
            &&& !wanted <==> r == Some(FreshMappingRejection::StableLocalNat)
            &&& (wanted && s.cancelled) || (keyed && s.direct) <==> r == Some(
                FreshMappingRejection::Superseded,
            )
            &&& open && !aimed <==> r == Some(FreshMappingRejection::NoStablePeerEndpoint)
            &&& aimed && !keyed <==> r == Some(FreshMappingRejection::MissingProbeKey)
        }),
{
}

/// A generation goes on exactly while it is not cancelled, the peer is not
/// direct and the network is the same.
pub proof fn law_generation_goes_on(state: FreshState, network_generation: u64)
    ensures
        state_end(state, network_generation) is None <==> !state.cancelled && !state.direct
            && state.network_generation == network_generation,
        state.cancelled <==> state_end(state, network_generation) == Some(
            FreshEnd::Rejected(
                FreshMappingRejection::Superseded,
                Some(FreshDetach::GenerationCancelled),
            ),
        ),
        !state.cancelled && state.direct <==> state_end(state, network_generation) == Some(
            FreshEnd::Rejected(
                FreshMappingRejection::Superseded,
                Some(FreshDetach::PeerBecameDirect),
            ),
        ),
        !state.cancelled && !state.direct && state.network_generation != network_generation
            <==> state_end(state, network_generation) == Some(
            FreshEnd::Rejected(
                FreshMappingRejection::BatchStale,
                Some(FreshDetach::NetworkGenerationChanged),
            ),
        ),
{
}

/// A measurement is of use exactly where the generation is not cancelled,
/// three samples came in, and all of one public address. Too few tell first
/// what ended the generation.
pub proof fn law_measurement_ends(
    state: FreshState,
    network_generation: u64,
    samples: usize,
    one_public_ip: bool,
)
    ensures
        ({
            let r = measurement_end(state, network_generation, samples, one_public_ip);
            let open = !state.cancelled && !state.direct && state.network_generation
                == network_generation;
            &&& r is None <==> !state.cancelled && samples >= 3 && one_public_ip
            &&& state.cancelled <==> r == Some(
                FreshEnd::Rejected(
                    FreshMappingRejection::Superseded,
                    Some(FreshDetach::GenerationCancelled),
                ),
            )
            &&& !state.cancelled && samples < 3 && state.direct <==> r == Some(
                FreshEnd::Rejected(
                    FreshMappingRejection::Superseded,
                    Some(FreshDetach::PeerBecameDirect),
                ),
            )
            &&& !state.cancelled && samples < 3 && !state.direct && !open <==> r == Some(
                FreshEnd::Rejected(
                    FreshMappingRejection::BatchStale,
                    Some(FreshDetach::NetworkGenerationChanged),
                ),
            )
            &&& open && samples < 3 <==> r == Some(
                FreshEnd::Rejected(
                    FreshMappingRejection::InsufficientSamples,
                    Some(FreshDetach::InsufficientSamples),
                ),
            )
            &&& !state.cancelled && samples >= 3 && !one_public_ip <==> r == Some(
                FreshEnd::Rejected(
                    FreshMappingRejection::PublicIpChanged,
                    Some(FreshDetach::PublicIpChanged),
                ),
            )
        }),
{
}

/// A model is of use exactly where there is one and it does not step too far,
/// in either direction; otherwise the generation ends for the model's reason.
pub proof fn law_model_ends(kind: PortModelKind, step: i16, direction: i8, max_abs_step: u32)
    ensures
        model_end(Ok(PortModelKind::Unstepped), max_abs_step) is None,
        model_end(Ok(PortModelKind::FixedStep { step }), max_abs_step) is None <==> -max_abs_step
            <= step <= max_abs_step,
        model_end(Ok(PortModelKind::Linear { step }), max_abs_step) is None <==> -max_abs_step
            <= step <= max_abs_step,
        model_end(Ok(PortModelKind::NoisyLinear { step }), max_abs_step) is None <==> -max_abs_step
            <= step <= max_abs_step,
        model_end(Ok(PortModelKind::MonotonicWindow { direction }), max_abs_step) is None <==>
            -max_abs_step <= direction <= max_abs_step,
        model_end(Ok(kind), max_abs_step) matches Some(end) ==> end == FreshEnd::Rejected(
            FreshMappingRejection::UnpredictableSequence,
            Some(FreshDetach::UnpredictableSequence),
        ),
        model_end(Err(ModelRejection::BatchStale), max_abs_step) == Some(
            FreshEnd::Rejected(FreshMappingRejection::BatchStale, Some(FreshDetach::BatchStale)),
        ),
        model_end(Err(ModelRejection::InconsistentBatch), max_abs_step) == Some(
            FreshEnd::Rejected(
                FreshMappingRejection::InconsistentBatch,
                Some(FreshDetach::InconsistentBatch),
            ),
        ),
        model_end(Err(ModelRejection::InsufficientSamples), max_abs_step) == Some(
            FreshEnd::Rejected(
                FreshMappingRejection::InsufficientSamples,
                Some(FreshDetach::InsufficientSamples),
            ),
        ),
        model_end(Err(ModelRejection::PublicIpChanged), max_abs_step) == Some(
            FreshEnd::Rejected(
                FreshMappingRejection::PublicIpChanged,
                Some(FreshDetach::PublicIpChanged),
            ),
        ),
        model_end(Err(ModelRejection::NarrowRandom), max_abs_step) == Some(
            FreshEnd::Rejected(
                FreshMappingRejection::UnpredictableSequence,
                Some(FreshDetach::UnpredictableSequence),
            ),
        ),
        model_end(Err(ModelRejection::NoConsistentStep), max_abs_step) == Some(
            FreshEnd::Rejected(
                FreshMappingRejection::UnpredictableSequence,
                Some(FreshDetach::UnpredictableSequence),
            ),
        ),
        step_size(step) == if step >= 0 {
            step as int
        } else {
            0 - step
        },
        kind.spec_step() is None <==> kind is Unstepped,
{
}

/// What a socket that was not attached tells of the generation.
pub proof fn law_attach_rejections()
    ensures
        attach_rejection(DynamicSocketAttachError::Superseded) == FreshMappingRejection::Superseded,
        attach_rejection(DynamicSocketAttachError::CapacityRejected)
            == FreshMappingRejection::CapacityRejected,
        attach_rejection(DynamicSocketAttachError::NoInboundChannel)
            == FreshMappingRejection::BindFailed,
        attach_rejection(DynamicSocketAttachError::ReaderStartupFailed)
            == FreshMappingRejection::BindFailed,
        MAX_PUNCH_PAUSE == 50_000_000,
{
}

/// A generation keeps its plan, and one that only moves on keeps its place and
/// its count.
pub proof fn law_generation_moves_on(
    g: FreshGeneration,
    next: FreshGeneration,
    phase: FreshPhase,
)
    ensures
        g.same_plan(&next) <==> next.network_generation == g.network_generation
            && next.measure_only == g.measure_only && next.attempts == g.attempts && next.targets
            == g.targets,
        g.moved_to(&next, phase) <==> next.phase == phase && next.network_generation
            == g.network_generation && next.measure_only == g.measure_only && next.attempts
            == g.attempts && next.targets == g.targets && next.round == g.round && next.position
            == g.position && next.sent == g.sent,
{
}

/// A peer owns a dedicated socket exactly where that one is there, committed,
/// the peer's, and the one it is pinned to.
pub proof fn law_owned_socket(
    sockets: crate::socket_state::Sockets,
    peer: Seq<char>,
    index: usize,
)
    ensures
        owned_by(sockets, peer, index) <==> {
            &&& sockets.dynamic.dom().contains(index)
            &&& !(sockets.dynamic[index].phase is Provisional)
            &&& sockets.dynamic[index].peer == peer
            &&& sockets.affinity.dom().contains(peer)
            &&& sockets.affinity[peer].socket_index == index
        },
{
}

} // verus!

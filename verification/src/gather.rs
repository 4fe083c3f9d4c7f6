//! What the observers told of the sockets, put together: candidates, and a
//! picture of the NAT.

use vstd::prelude::*;
use crate::diagnostics::SocketDiagnostics;
use crate::net::SocketAddr;
use crate::text::same_text;

verus! {

/// How a candidate is known.
#[derive(Clone, Copy, Debug, PartialEq, Eq, Structural)]
pub enum CandidateSource {
    Host,
    StunObserved,
    Predicted,
}

/// A candidate endpoint.
pub struct IceCandidate {
    /// The endpoint as it is written.
    pub endpoint: String,
    /// The endpoint, where it is a public one.
    pub public_endpoint: Option<SocketAddr>,
    pub source: CandidateSource,
    pub candidate_type: u8,
    pub priority: u32,
}

/// What an [`IceCandidate`] is.
#[verifier::ext_equal]
pub struct Candidate {
    pub endpoint: Seq<char>,
    pub public_endpoint: Option<SocketAddr>,
    pub source: CandidateSource,
    pub candidate_type: u8,
    pub priority: u32,
}

impl IceCandidate {
    pub open spec fn view(&self) -> Candidate {
        Candidate {
            endpoint: self.endpoint@,
            public_endpoint: self.public_endpoint,
            source: self.source,
            candidate_type: self.candidate_type,
            priority: self.priority,
        }
    }
}

/// The candidates of a list.
pub open spec fn candidates_of(list: Seq<IceCandidate>) -> Seq<Candidate> {
    list.map_values(|c: IceCandidate| c@)
}

impl Candidate {
    /// A candidate that was predicted and is now observed.
    pub open spec fn promoted(self, observed: Candidate) -> Candidate {
        Candidate {
            source: CandidateSource::StunObserved,
            candidate_type: observed.candidate_type,
            priority: crate::histogram::max32(self.priority, observed.priority),
            ..self
        }
    }
}

/// The place of an endpoint in a list, or its end.
pub open spec fn place_of(list: Seq<Candidate>, endpoint: Seq<char>) -> int
    decreases list.len(),
{
    if list.len() == 0 || list[0].endpoint == endpoint {
        0
    } else {
        1 + place_of(list.drop_first(), endpoint)
    }
}

/// Adds a candidate: an endpoint is listed once, and an observation of it
/// outweighs a prediction.
pub open spec fn with_candidate(list: Seq<Candidate>, c: Candidate) -> Seq<Candidate> {
    let i = place_of(list, c.endpoint);
    if i >= list.len() {
        list.push(c)
    } else if c.source is StunObserved && list[i].source is Predicted {
        list.update(i, list[i].promoted(c))
    } else {
        list
    }
}

/// Adds candidates, in order.
pub open spec fn with_candidates(list: Seq<Candidate>, more: Seq<Candidate>) -> Seq<Candidate>
    decreases more.len(),
{
    if more.len() == 0 {
        list
    } else {
        with_candidate(with_candidates(list, more.drop_last()), more.last())
    }
}

/// How many candidates were observed.
pub open spec fn observed_count(list: Seq<Candidate>) -> nat
    decreases list.len(),
{
    if list.len() == 0 {
        0
    } else if list.last().source is StunObserved {
        observed_count(list.drop_last()) + 1
    } else {
        observed_count(list.drop_last())
    }
}

proof fn lemma_place_of(list: Seq<Candidate>, endpoint: Seq<char>)
    ensures
        0 <= place_of(list, endpoint) <= list.len(),
        place_of(list, endpoint) < list.len() ==> list[place_of(list, endpoint)].endpoint
            == endpoint,
        forall|i: int|
            0 <= i < place_of(list, endpoint) ==> (#[trigger] list[i]).endpoint != endpoint,
    decreases list.len(),
{
    if list.len() > 0 && list[0].endpoint != endpoint {
        let rest = list.drop_first();
        lemma_place_of(rest, endpoint);
        assert forall|i: int| 0 <= i < place_of(list, endpoint) implies (
        #[trigger] list[i]).endpoint != endpoint by {
            if i > 0 {
                assert(rest[i - 1] == list[i]);
            }
        }
        if place_of(rest, endpoint) < rest.len() {
            assert(rest[place_of(rest, endpoint)] == list[place_of(rest, endpoint) + 1]);
        }
    }
}

proof fn lemma_place_is(list: Seq<Candidate>, endpoint: Seq<char>, at: int)
    requires
        0 <= at <= list.len(),
        at < list.len() ==> list[at].endpoint == endpoint,
        forall|i: int| 0 <= i < at ==> (#[trigger] list[i]).endpoint != endpoint,
    ensures
        place_of(list, endpoint) == at,
    decreases list.len(),
{
    if at > 0 {
        assert(list[0].endpoint != endpoint);
        let rest = list.drop_first();
        assert forall|i: int| 0 <= i < at - 1 implies (#[trigger] rest[i]).endpoint != endpoint by {
            assert(rest[i] == list[i + 1]);
        }
        lemma_place_is(rest, endpoint, at - 1);
    }
}

fn merge_candidate(list: &mut Vec<IceCandidate>, candidate: IceCandidate)
    ensures
        candidates_of(final(list)@) == with_candidate(candidates_of(old(list)@), candidate@),
{
    let ghost before = candidates_of(list@);
    let mut i: usize = 0;
    while i < list.len() && !same_text(list[i].endpoint.as_str(), candidate.endpoint.as_str())
        invariant
            i <= list@.len(),
            list@ == old(list)@,
            before == candidates_of(list@),
            forall|j: int|
                0 <= j < i ==> (#[trigger] before[j]).endpoint != candidate.endpoint@,
        decreases list@.len() - i,
    {
        assert(before[i as int] == list@[i as int]@);
        i += 1;
    }
    proof {
        if i < list@.len() {
            assert(before[i as int] == list@[i as int]@);
        }
        lemma_place_is(before, candidate.endpoint@, i as int);
    }
    if i == list.len() {
        let ghost c = candidate@;
        list.push(candidate);
        assert(candidates_of(list@) =~= before.push(c));
        return;
    }
    if matches!(candidate.source, CandidateSource::StunObserved) && matches!(
        list[i].source,
        CandidateSource::Predicted,
    ) {
        let ghost c = candidate@;
        list[i].source = CandidateSource::StunObserved;
        list[i].candidate_type = candidate.candidate_type;
        if candidate.priority > list[i].priority {
            list[i].priority = candidate.priority;
        }
        assert(candidates_of(list@) =~= before.update(i as int, before[i as int].promoted(c)));
    }
}

/// Adds the candidates of another socket. Returns how many it observed.
pub fn merge_pool_candidates(list: &mut Vec<IceCandidate>, candidates: Vec<IceCandidate>) -> (
discovered: u64)
    requires
        candidates@.len() <= u64::MAX,
    ensures
        candidates_of(final(list)@) == with_candidates(
            candidates_of(old(list)@),
            candidates_of(candidates@),
        ),
        discovered == observed_count(candidates_of(candidates@)),
{
    let ghost all = candidates_of(candidates@);
    let ghost start = candidates_of(list@);
    let mut rest: Vec<IceCandidate> = candidates;
    let mut ordered: Vec<IceCandidate> = Vec::new();
    while rest.len() > 0
        invariant
            rest@.len() + ordered@.len() == all.len(),
            candidates_of(rest@) == all.take(rest@.len() as int),
            forall|k: int|
                0 <= k < ordered@.len() ==> (#[trigger] ordered@[k])@ == all[all.len() - 1 - k],
        decreases rest@.len(),
    {
        let ghost n = rest@.len();
        let ghost before = rest@;
        if let Some(candidate) = rest.pop() {
            assert(candidates_of(before)[n - 1] == all[n - 1]);
            ordered.push(candidate);
        }
        assert(candidates_of(rest@) =~= all.take(n - 1)) by {
            assert forall|k: int| 0 <= k < n - 1 implies candidates_of(rest@)[k] == all[k] by {
                assert(candidates_of(before)[k] == all[k]);
            }
        }
    }
    let mut discovered: u64 = 0;
    let ghost mut done: int = 0;
    assert(all.take(0) =~= Seq::empty());
    while ordered.len() > 0
        invariant
            0 <= done <= all.len() <= u64::MAX,
            ordered@.len() == all.len() - done,
            forall|k: int|
                0 <= k < ordered@.len() ==> (#[trigger] ordered@[k])@ == all[all.len() - 1 - k],
            candidates_of(list@) == with_candidates(start, all.take(done)),
            discovered == observed_count(all.take(done)),
            discovered <= done,
        decreases ordered@.len(),
    {
        let ghost last = ordered@[ordered@.len() - 1]@;
        if let Some(candidate) = ordered.pop() {
            proof {
                assert(last == all[done]);
                assert(all.take(done + 1).drop_last() =~= all.take(done));
                assert(all.take(done + 1).last() == all[done]);
            }
            if matches!(candidate.source, CandidateSource::StunObserved) {
                discovered = discovered + 1;
            }
            merge_candidate(list, candidate);
            proof {
                done = done + 1;
            }
        }
    }
    assert(all.take(done) =~= all);
    discovered
}

/// Adds the candidates of a socket of the pool, and counts on that socket how
/// many of them were observed.
pub fn append_pool_candidates(
    list: &mut Vec<IceCandidate>,
    candidates: Vec<IceCandidate>,
    diagnostics: &mut SocketDiagnostics,
    socket_index: usize,
)
    requires
        candidates@.len() <= u64::MAX,
        old(diagnostics).wf(),
    ensures
        candidates_of(final(list)@) == with_candidates(
            candidates_of(old(list)@),
            candidates_of(candidates@),
        ),
        final(diagnostics).wf(),
        old(diagnostics).mapped_to(
            *final(diagnostics),
            socket_index,
            observed_count(candidates_of(candidates@)) as u64,
        ),
{
    let discovered: u64 = merge_pool_candidates(list, candidates);
    diagnostics.add_stun_mappings(socket_index, discovered);
}

/// Keeps what was not merely predicted.
pub open spec fn unpredicted(list: Seq<Candidate>) -> Seq<Candidate>
    decreases list.len(),
{
    if list.len() == 0 {
        Seq::empty()
    } else if list.last().source is Predicted {
        unpredicted(list.drop_last())
    } else {
        unpredicted(list.drop_last()).push(list.last())
    }
}

proof fn lemma_unpredicted_split(a: Seq<Candidate>, b: Seq<Candidate>)
    ensures
        unpredicted(a + b) == unpredicted(a) + unpredicted(b),
    decreases b.len(),
{
    if b.len() == 0 {
        assert(a + b =~= a);
        assert(unpredicted(a) + unpredicted(b) =~= unpredicted(a));
    } else {
        assert((a + b).drop_last() =~= a + b.drop_last());
        assert((a + b).last() == b.last());
        lemma_unpredicted_split(a, b.drop_last());
        assert(unpredicted(a) + unpredicted(b.drop_last()).push(b.last()) =~= (unpredicted(a)
            + unpredicted(b.drop_last())).push(b.last()));
    }
}

proof fn lemma_unpredicted_one(c: Candidate)
    ensures
        unpredicted(seq![c]) == if c.source is Predicted {
            Seq::<Candidate>::empty()
        } else {
            seq![c]
        },
{
    assert(seq![c].drop_last() =~= Seq::<Candidate>::empty());
    assert(unpredicted(Seq::<Candidate>::empty()) =~= Seq::<Candidate>::empty());
    assert(seq![c].last() == c);
    assert(Seq::<Candidate>::empty().push(c) =~= seq![c]);
}

/// Drops the predicted candidates, where predictions are not wanted.
pub fn drop_predicted_candidates(list: &mut Vec<IceCandidate>)
    ensures
        candidates_of(final(list)@) == unpredicted(candidates_of(old(list)@)),
{
    let ghost all = candidates_of(list@);
    let mut i: usize = 0;
    assert(candidates_of(list@).take(0) =~= Seq::empty());
    assert(candidates_of(list@).skip(0) =~= all);
    assert(unpredicted(Seq::<Candidate>::empty()) + all =~= all);
    while i < list.len()
        invariant
            i <= list@.len(),
            unpredicted(candidates_of(list@).take(i as int)) == candidates_of(list@).take(i as int),
            unpredicted(all) == candidates_of(list@).take(i as int) + unpredicted(
                candidates_of(list@).skip(i as int),
            ),
        decreases list@.len() - i,
    {
        let ghost now = candidates_of(list@);
        proof {
            assert(now[i as int] == list@[i as int]@);
            assert(now.skip(i as int) =~= seq![now[i as int]] + now.skip(i + 1));
            lemma_unpredicted_split(seq![now[i as int]], now.skip(i + 1));
            lemma_unpredicted_one(now[i as int]);
        }
        if matches!(list[i].source, CandidateSource::Predicted) {
            let _ = list.remove(i);
            proof {
                let next = candidates_of(list@);
                assert(next.take(i as int) =~= now.take(i as int));
                assert(next.skip(i as int) =~= now.skip(i + 1));
                assert(Seq::<Candidate>::empty() + unpredicted(now.skip(i + 1)) =~= unpredicted(
                    now.skip(i + 1),
                ));
            }
        } else {
            proof {
                assert(now.take(i + 1) =~= now.take(i as int).push(now[i as int]));
                assert(now.take(i + 1).drop_last() =~= now.take(i as int));
                assert(now.take(i as int) + (seq![now[i as int]] + unpredicted(now.skip(i + 1)))
                    =~= now.take(i + 1) + unpredicted(now.skip(i + 1)));
            }
            i += 1;
        }
    }
    proof {
        let now = candidates_of(list@);
        assert(now.take(i as int) =~= now);
        assert(now.skip(i as int) =~= Seq::empty());
        assert(now + Seq::<Candidate>::empty() =~= now);
    }
}

/// An endpoint is listed once, however often it is merged.
pub proof fn law_endpoints_stay_distinct(list: Seq<Candidate>, c: Candidate)
    requires
        forall|i: int, j: int|
            0 <= i < j < list.len() ==> (#[trigger] list[i]).endpoint != (
            #[trigger] list[j]).endpoint,
    ensures
        ({
            let next = with_candidate(list, c);
            forall|i: int, j: int|
                0 <= i < j < next.len() ==> (#[trigger] next[i]).endpoint != (
                #[trigger] next[j]).endpoint
        }),
{
    lemma_place_of(list, c.endpoint);
}

/// What was observed stays observed, and an observed endpoint is listed as
/// observed wherever it was listed as predicted or not at all.
pub proof fn law_evidence_only_grows(list: Seq<Candidate>, c: Candidate, i: int)
    requires
        0 <= i < list.len(),
    ensures
        list[i].source is StunObserved ==> with_candidate(list, c)[i].source is StunObserved,
        with_candidate(list, c)[i].endpoint == list[i].endpoint,
        with_candidate(list, c)[i].priority >= list[i].priority,
        with_candidate(list, c).len() >= list.len(),
{
    lemma_place_of(list, c.endpoint);
}

/// How a NAT maps.
#[derive(Clone, Copy, Debug, PartialEq, Eq, Structural)]
pub enum MappingBehavior {
    Unknown,
    EndpointIndependent,
    AddressOrPortDependent,
}

/// What a NAT lets in.
#[derive(Clone, Copy, Debug, PartialEq, Eq, Structural)]
pub enum FilteringBehavior {
    Unknown,
    EndpointIndependent,
    AddressDependent,
    AddressAndPortDependent,
}

/// What an observer answered.
pub struct StunObservation {
    pub server: Option<SocketAddr>,
    pub mapped_address: Option<SocketAddr>,
    pub rtt_ms: Option<u64>,
    pub error: Option<String>,
}

/// A picture of the NAT.
pub struct NatProfile {
    pub udp_blocked: bool,
    pub public_endpoint: Option<SocketAddr>,
    pub public_ip_stable: Option<bool>,
    pub public_port_stable: Option<bool>,
    pub mapping_behavior: MappingBehavior,
    pub filtering_behavior: FilteringBehavior,
    pub likely_symmetric: Option<bool>,
    pub prediction_candidate: bool,
    pub predicted_endpoints: Vec<SocketAddr>,
    pub birthday_candidate: bool,
    pub confidence: u8,
    pub observations: Vec<StunObservation>,
}

/// The public endpoints that a list of candidates observed.
pub open spec fn observed_public(list: Seq<Candidate>) -> Seq<SocketAddr>
    decreases list.len(),
{
    if list.len() == 0 {
        Seq::empty()
    } else if list.last().source is StunObserved && list.last().public_endpoint is Some {
        observed_public(list.drop_last()).push(list.last().public_endpoint->0)
    } else {
        observed_public(list.drop_last())
    }
}

fn collect_observed_public(list: &Vec<IceCandidate>) -> (endpoints: Vec<SocketAddr>)
    ensures
        endpoints@ == observed_public(candidates_of(list@)),
{
    let ghost all = candidates_of(list@);
    let mut endpoints: Vec<SocketAddr> = Vec::new();
    let mut i: usize = 0;
    assert(all.take(0) =~= Seq::empty());
    while i < list.len()
        invariant
            i <= list@.len(),
            all == candidates_of(list@),
            endpoints@ == observed_public(all.take(i as int)),
        decreases list@.len() - i,
    {
        assert(all.take(i + 1).drop_last() =~= all.take(i as int));
        assert(all.take(i + 1).last() == list@[i as int]@);
        if matches!(list[i].source, CandidateSource::StunObserved) {
            if let Some(endpoint) = list[i].public_endpoint {
                endpoints.push(endpoint);
            }
        }
        i += 1;
    }
    assert(all.take(i as int) =~= all);
    endpoints
}

/// Whether all endpoints have one address.
pub open spec fn one_ip(list: Seq<SocketAddr>) -> bool {
    forall|i: int| 0 <= i < list.len() ==> (#[trigger] list[i]).ip == list[0].ip
}

/// Whether all endpoints have one port.
pub open spec fn one_port(list: Seq<SocketAddr>) -> bool {
    forall|i: int| 0 <= i < list.len() ==> (#[trigger] list[i]).port == list[0].port
}

fn check_one_ip(list: &Vec<SocketAddr>) -> (r: bool)
    ensures
        r == one_ip(list@),
{
    let mut i: usize = 0;
    while i < list.len()
        invariant
            i <= list@.len(),
            forall|j: int| 0 <= j < i ==> (#[trigger] list@[j]).ip == list@[0].ip,
        decreases list@.len() - i,
    {
        if list[i].ip() != list[0].ip() {
            assert(list@[i as int].ip != list@[0].ip);
            return false;
        }
        i += 1;
    }
    true
}

fn check_one_port(list: &Vec<SocketAddr>) -> (r: bool)
    ensures
        r == one_port(list@),
{
    let mut i: usize = 0;
    while i < list.len()
        invariant
            i <= list@.len(),
            forall|j: int| 0 <= j < i ==> (#[trigger] list@[j]).port == list@[0].port,
        decreases list@.len() - i,
    {
        if list[i].port() != list[0].port() {
            assert(list@[i as int].port != list@[0].port);
            return false;
        }
        i += 1;
    }
    true
}

/// What the socket of a pool adds to the picture: where the first socket got
/// no answer but this one has a public mapping, UDP is not blocked after all.
/// No port is predicted from it. Returns whether the picture changed.
pub fn merge_pool_nat_profile(
    profile: &mut NatProfile,
    pool_candidates: &Vec<IceCandidate>,
    pool_observations: Vec<StunObservation>,
) -> (changed: bool)
    ensures
        ({
            let seen = observed_public(candidates_of(pool_candidates@));
            &&& changed == (seen.len() > 0 && old(profile).udp_blocked)
            &&& final(profile).observations@ == if seen.len() > 0 {
                old(profile).observations@ + pool_observations@
            } else {
                old(profile).observations@
            }
            &&& if changed {
                &&& !final(profile).udp_blocked
                &&& final(profile).public_endpoint == Some(seen[0])
                &&& final(profile).public_ip_stable == Some(one_ip(seen))
                &&& final(profile).public_port_stable == Some(one_port(seen))
                &&& final(profile).mapping_behavior is AddressOrPortDependent
                &&& final(profile).filtering_behavior is Unknown
                &&& final(profile).likely_symmetric == Some(true)
                &&& !final(profile).prediction_candidate
                &&& final(profile).predicted_endpoints@.len() == 0
                &&& final(profile).birthday_candidate
                &&& final(profile).confidence == if old(profile).confidence > 50 {
                    old(profile).confidence
                } else {
                    50
                }
            } else {
                *final(profile) == (NatProfile {
                    observations: final(profile).observations,
                    ..*old(profile)
                })
            }
        }),
{
    let seen: Vec<SocketAddr> = collect_observed_public(pool_candidates);
    if seen.len() == 0 {
        return false;
    }
    let mut more: Vec<StunObservation> = pool_observations;
    profile.observations.append(&mut more);
    if !profile.udp_blocked {
        return false;
    }
    profile.udp_blocked = false;
    profile.public_endpoint = Some(seen[0]);
    profile.public_ip_stable = Some(check_one_ip(&seen));
    profile.public_port_stable = Some(check_one_port(&seen));
    profile.mapping_behavior = MappingBehavior::AddressOrPortDependent;
    profile.filtering_behavior = FilteringBehavior::Unknown;
    profile.likely_symmetric = Some(true);
    profile.prediction_candidate = false;
    profile.predicted_endpoints.clear();
    profile.birthday_candidate = true;
    if profile.confidence < 50 {
        profile.confidence = 50;
    }
    true
}

/// Nanoseconds that the longest probe of a NAT's filtering takes.
pub const LIVE_FILTERING_PROBE_TIMEOUT: u64 = 300_000_000;

/// Nanoseconds that the shortest one does.
pub const MIN_LIVE_FILTERING_PROBE_TIMEOUT: u64 = 50_000_000;

/// How long a probe of a NAT's filtering may take.
pub fn stun_timeout_for_live_filtering_probe(timeout: u64) -> (r: u64)
    ensures
        r == if timeout < MIN_LIVE_FILTERING_PROBE_TIMEOUT {
            MIN_LIVE_FILTERING_PROBE_TIMEOUT
        } else if timeout > LIVE_FILTERING_PROBE_TIMEOUT {
            LIVE_FILTERING_PROBE_TIMEOUT
        } else {
            timeout
        },
{
    if timeout < MIN_LIVE_FILTERING_PROBE_TIMEOUT {
        MIN_LIVE_FILTERING_PROBE_TIMEOUT
    } else if timeout > LIVE_FILTERING_PROBE_TIMEOUT {
        LIVE_FILTERING_PROBE_TIMEOUT
    } else {
        timeout
    }
}

/// What an answer tells that came from elsewhere than the request went.
pub open spec fn filtering_of(server: SocketAddr, source: SocketAddr) -> Option<
    FilteringBehavior,
> {
    if source.ip != server.ip {
        Some(FilteringBehavior::EndpointIndependent)
    } else if source != server {
        Some(FilteringBehavior::AddressDependent)
    } else {
        None
    }
}

pub fn classify_live_filtering_response(server: SocketAddr, response_source: SocketAddr) -> (r:
    Option<FilteringBehavior>)
    ensures
        r == filtering_of(server, response_source),
{
    if response_source.ip() != server.ip() {
        Some(FilteringBehavior::EndpointIndependent)
    } else if response_source != server {
        Some(FilteringBehavior::AddressDependent)
    } else {
        None
    }
}

/// Whether an observation names a server to ask again.
pub open spec fn answers_from(o: StunObservation, servers: Seq<SocketAddr>) -> bool {
    o.server is Some && o.error is None && o.mapped_address is Some && servers.contains(
        o.server->0,
    )
}

/// The first observation that names a server to ask again.
pub open spec fn first_answer(
    observations: Seq<StunObservation>,
    servers: Seq<SocketAddr>,
    i: int,
) -> bool {
    &&& 0 <= i < observations.len()
    &&& answers_from(observations[i], servers)
    &&& forall|j: int| 0 <= j < i ==> !answers_from(#[trigger] observations[j], servers)
}

/// Whether a NAT's filtering is worth finding out: it maps alike towards
/// everyone, and its filtering is not known.
pub open spec fn wants_filtering_probe(profile: NatProfile) -> bool {
    !profile.udp_blocked && profile.mapping_behavior is EndpointIndependent
        && profile.filtering_behavior is Unknown
}

/// The server to probe a NAT's filtering with: the first that answered.
pub fn filtering_probe_server(profile: &NatProfile, stun_servers: &Vec<SocketAddr>) -> (server:
    Option<SocketAddr>)
    ensures
        match server {
            Some(s) => wants_filtering_probe(*profile) && exists|i: int| #[trigger]
                first_answer(profile.observations@, stun_servers@, i)
                    && profile.observations@[i].server == Some(s),
            None => !wants_filtering_probe(*profile) || forall|i: int|
                0 <= i < profile.observations@.len() ==> !answers_from(
                    #[trigger] profile.observations@[i],
                    stun_servers@,
                ),
        },
{
    if profile.udp_blocked || !matches!(
        profile.mapping_behavior,
        MappingBehavior::EndpointIndependent,
    ) || !matches!(profile.filtering_behavior, FilteringBehavior::Unknown) {
        return None;
    }
    let mut i: usize = 0;
    while i < profile.observations.len()
        invariant
            i <= profile.observations@.len(),
            wants_filtering_probe(*profile),
            forall|j: int|
                0 <= j < i ==> !answers_from(#[trigger] profile.observations@[j], stun_servers@),
        decreases profile.observations@.len() - i,
    {
        let observation: &StunObservation = &profile.observations[i];
        if let Some(server) = observation.server {
            if observation.error.is_none() && observation.mapped_address.is_some()
                && crate::histogram::lists(stun_servers, server) {
                assert(first_answer(profile.observations@, stun_servers@, i as int));
                return Some(server);
            }
        }
        i += 1;
    }
    None
}

/// What the first probe tells, if anything. It asks for an answer from another
/// address and port.
pub fn on_first_filtering_probe(server: SocketAddr, source: Option<SocketAddr>) -> (r: Option<
    FilteringBehavior,
>)
    ensures
        r == match source {
            Some(source) => filtering_of(server, source),
            None => None,
        },
{
    match source {
        Some(source) => classify_live_filtering_response(server, source),
        None => None,
    }
}

/// What the second probe tells, after a first one that told nothing. It asks
/// for an answer from another port.
pub fn on_second_filtering_probe(server: SocketAddr, source: Option<SocketAddr>) -> (r:
    FilteringBehavior)
    ensures
        r == if source is Some && source->0.ip == server.ip && source->0 != server {
            FilteringBehavior::AddressDependent
        } else {
            FilteringBehavior::Unknown
        },
{
    match source {
        Some(source) => {
            if source.ip() == server.ip() && source != server {
                FilteringBehavior::AddressDependent
            } else {
                FilteringBehavior::Unknown
            }
        },
        None => FilteringBehavior::Unknown,
    }
}

/// The servers that a socket can reach: those of its address family.
pub open spec fn family_of(servers: Seq<SocketAddr>, v4: bool) -> Seq<SocketAddr>
    decreases servers.len(),
{
    if servers.len() == 0 {
        Seq::empty()
    } else if (servers.last().ip is V4) == v4 {
        family_of(servers.drop_last(), v4).push(servers.last())
    } else {
        family_of(servers.drop_last(), v4)
    }
}

pub fn servers_of_family(servers: &Vec<SocketAddr>, local: SocketAddr) -> (r: Vec<SocketAddr>)
    ensures
        r@ == family_of(servers@, local.ip is V4),
{
    let v4: bool = local.is_ipv4();
    let mut chosen: Vec<SocketAddr> = Vec::new();
    let mut i: usize = 0;
    assert(servers@.take(0) =~= Seq::empty());
    while i < servers.len()
        invariant
            i <= servers@.len(),
            chosen@ == family_of(servers@.take(i as int), v4),
        decreases servers@.len() - i,
    {
        assert(servers@.take(i + 1).drop_last() =~= servers@.take(i as int));
        if servers[i].is_ipv4() == v4 {
            chosen.push(servers[i]);
        }
        i += 1;
    }
    assert(servers@.take(i as int) =~= servers@);
    chosen
}

/// The message type of a binding response.
pub const BINDING_RESPONSE: u16 = 0x0101;

/// A reply, decoded.
#[derive(Clone, Copy, Debug)]
pub struct DecodedReply {
    pub transaction_id: u128,
    pub message_type: u16,
    pub error_code: Option<u16>,
    pub reflexive: Option<SocketAddr>,
}

/// Why a query told no address.
#[derive(Clone, Copy, Debug, PartialEq, Eq, Structural)]
pub enum StunQueryError {
    SourceMismatch,
    InvalidResponse,
    TransactionMismatch,
    ErrorResponse(u16),
    UnexpectedType(u16),
    NoMappedAddress,
}

/// The address that a reply tells, or why it tells none.
pub open spec fn query_result(
    server: SocketAddr,
    source: SocketAddr,
    transaction_id: u128,
    reply: Option<DecodedReply>,
) -> Result<SocketAddr, StunQueryError> {
    if source != server {
        Err(StunQueryError::SourceMismatch)
    } else if reply is None {
        Err(StunQueryError::InvalidResponse)
    } else if reply->0.transaction_id != transaction_id {
        Err(StunQueryError::TransactionMismatch)
    } else if reply->0.message_type != BINDING_RESPONSE {
        match reply->0.error_code {
            Some(code) => Err(StunQueryError::ErrorResponse(code)),
            None => Err(StunQueryError::UnexpectedType(reply->0.message_type)),
        }
    } else {
        match reply->0.reflexive {
            Some(address) => Ok(address),
            None => Err(StunQueryError::NoMappedAddress),
        }
    }
}

/// Judges the reply to a query.
pub fn judge_stun_reply(
    server: SocketAddr,
    source: SocketAddr,
    transaction_id: u128,
    reply: Option<DecodedReply>,
) -> (r: Result<SocketAddr, StunQueryError>)
    ensures
        r == query_result(server, source, transaction_id, reply),
{
    if source != server {
        return Err(StunQueryError::SourceMismatch);
    }
    match reply {
        None => Err(StunQueryError::InvalidResponse),
        Some(reply) => {
            if reply.transaction_id != transaction_id {
                Err(StunQueryError::TransactionMismatch)
            } else if reply.message_type != BINDING_RESPONSE {
                match reply.error_code {
                    Some(code) => Err(StunQueryError::ErrorResponse(code)),
                    None => Err(StunQueryError::UnexpectedType(reply.message_type)),
                }
            } else {
                match reply.reflexive {
                    Some(address) => Ok(address),
                    None => Err(StunQueryError::NoMappedAddress),
                }
            }
        },
    }
}

/// A predicted candidate that was observed counts as observed, with the type
/// of the observation and the higher priority.
pub proof fn law_promoted_candidate(c: Candidate, observed: Candidate)
    ensures
        ({
            let p = c.promoted(observed);
            &&& p.endpoint == c.endpoint
            &&& p.public_endpoint == c.public_endpoint
            &&& p.source == CandidateSource::StunObserved
            &&& p.candidate_type == observed.candidate_type
            &&& p.priority >= c.priority && p.priority >= observed.priority
            &&& p.priority == c.priority || p.priority == observed.priority
        }),
{
}

/// A candidate is looked for by its endpoint, and the first that has it is
/// found.
pub proof fn law_candidate_place(list: Seq<Candidate>, endpoint: Seq<char>)
    ensures
        0 <= place_of(list, endpoint) <= list.len(),
        place_of(list, endpoint) < list.len() ==> list[place_of(list, endpoint)].endpoint
            == endpoint,
        forall|i: int|
            0 <= i < place_of(list, endpoint) ==> (#[trigger] list[i]).endpoint != endpoint,
{
    lemma_place_of(list, endpoint);
}

/// A candidate with a new endpoint stands at the end; one whose endpoint is
/// listed changes nothing, unless it was observed and the listed one is only
/// predicted.
pub proof fn law_added_candidate(list: Seq<Candidate>, c: Candidate)
    ensures
        ({
            let at = place_of(list, c.endpoint);
            let next = with_candidate(list, c);
            &&& at == list.len() ==> next == list.push(c)
            &&& at < list.len() && c.source is StunObserved && list[at].source is Predicted
                ==> next.len() == list.len() && next[at] == list[at].promoted(c) && (forall|i: int|
                0 <= i < list.len() && i != at ==> #[trigger] next[i] == list[i])
            &&& at < list.len() && !(c.source is StunObserved && list[at].source is Predicted)
                ==> next == list
        }),
{
    lemma_place_of(list, c.endpoint);
}

/// Candidates are added one after the other; counting, dropping the predicted
/// and picking the public addresses goes candidate by candidate.
pub proof fn law_candidates_in_turn(list: Seq<Candidate>, more: Seq<Candidate>, c: Candidate)
    ensures
        with_candidates(list, Seq::empty()) == list,
        with_candidates(list, more.push(c)) == with_candidate(with_candidates(list, more), c),
        observed_count(Seq::empty()) == 0,
        observed_count(list.push(c)) == observed_count(list) + if c.source is StunObserved {
            1int
        } else {
            0
        },
        unpredicted(Seq::empty()) == Seq::<Candidate>::empty(),
        c.source is Predicted ==> unpredicted(list.push(c)) == unpredicted(list),
        !(c.source is Predicted) ==> unpredicted(list.push(c)) == unpredicted(list).push(c),
        observed_public(Seq::empty()) == Seq::<SocketAddr>::empty(),
        observed_public(list.push(c)) == match c.public_endpoint {
            Some(a) if c.source is StunObserved => observed_public(list).push(a),
            _ => observed_public(list),
        },
{
    assert(more.push(c).drop_last() =~= more);
    assert(list.push(c).drop_last() =~= list);
}

/// The candidates of a list are its own, one for one.
pub proof fn law_candidates_of(list: Seq<IceCandidate>, i: int)
    requires
        0 <= i < list.len(),
    ensures
        candidates_of(list).len() == list.len(),
        candidates_of(list)[i].endpoint == list[i].endpoint@,
        candidates_of(list)[i].public_endpoint == list[i].public_endpoint,
        candidates_of(list)[i].source == list[i].source,
        candidates_of(list)[i].candidate_type == list[i].candidate_type,
        candidates_of(list)[i].priority == list[i].priority,
{
}

/// Addresses are of one host, or one port, where no two differ in it.
pub proof fn law_one_host_one_port(list: Seq<SocketAddr>, i: int, j: int)
    requires
        0 <= i < j < list.len(),
    ensures
        one_ip(list) ==> list[i].ip == list[j].ip,
        one_port(list) ==> list[i].port == list[j].port,
        list.len() == 2 && list[i].ip == list[j].ip ==> one_ip(list),
        list.len() == 2 && list[i].port == list[j].port ==> one_port(list),
{
    if list.len() == 2 {
        assert(i == 0 && j == 1);
    }
}

/// What an answer from another address tells of the filter: from another host
/// that it lets anyone in, from another port of the host that it goes by the
/// host, and nothing where it comes from where it was asked.
pub proof fn law_filtering_of_an_answer(server: SocketAddr, source: SocketAddr)
    ensures
        source.ip != server.ip <==> filtering_of(server, source) == Some(
            FilteringBehavior::EndpointIndependent,
        ),
        source.ip == server.ip && source != server <==> filtering_of(server, source) == Some(
            FilteringBehavior::AddressDependent,
        ),
        source == server <==> filtering_of(server, source) is None,
        LIVE_FILTERING_PROBE_TIMEOUT == 300_000_000,
        MIN_LIVE_FILTERING_PROBE_TIMEOUT == 50_000_000,
{
}

/// An observation answers exactly where it is of one of the servers, without
/// an error and with an address; the first such one is taken.
pub proof fn law_first_answer(
    observations: Seq<StunObservation>,
    servers: Seq<SocketAddr>,
    i: int,
    j: int,
)
    ensures
        0 <= j < observations.len() ==> (answers_from(observations[j], servers) <==> (
        observations[j].server matches Some(s) && servers.contains(s)) && observations[j].error
            is None && observations[j].mapped_address is Some),
        first_answer(observations, servers, i) ==> 0 <= i < observations.len() && answers_from(
            observations[i],
            servers,
        ),
        first_answer(observations, servers, i) && 0 <= j < i ==> !answers_from(
            observations[j],
            servers,
        ),
        first_answer(observations, servers, i) && first_answer(observations, servers, j) ==> i == j,
{
}

/// The filter is probed exactly where datagrams pass, the mapping does not
/// depend on the destination, and nothing is known of the filter.
pub proof fn law_filtering_probe_is_wanted(p: NatProfile)
    ensures
        wants_filtering_probe(p) <==> !p.udp_blocked && p.mapping_behavior
            == MappingBehavior::EndpointIndependent && p.filtering_behavior
            == FilteringBehavior::Unknown,
{
}

/// Of some servers those of one family are taken, in their order.
pub proof fn law_servers_of_a_family(servers: Seq<SocketAddr>, next: SocketAddr, v4: bool)
    ensures
        family_of(Seq::empty(), v4) == Seq::<SocketAddr>::empty(),
        next.ip is V4 ==> family_of(servers.push(next), true) == family_of(servers, true).push(
            next,
        ) && family_of(servers.push(next), false) == family_of(servers, false),
        next.ip is V6 ==> family_of(servers.push(next), false) == family_of(servers, false).push(
            next,
        ) && family_of(servers.push(next), true) == family_of(servers, true),
{
    assert(servers.push(next).drop_last() =~= servers);
}

/// A query gives the address of the reply exactly where it is the server's
/// binding response to this query; otherwise the first thing that is wrong.
pub proof fn law_query_results(
    server: SocketAddr,
    source: SocketAddr,
    transaction_id: u128,
    reply: DecodedReply,
)
    ensures
        ({
            let r = query_result(server, source, transaction_id, Some(reply));
            let from = source == server;
            let own = from && reply.transaction_id == transaction_id;
            let binding = own && reply.message_type == 0x0101;
            &&& r matches Ok(address) ==> binding && reply.reflexive == Some(address)
            &&& binding && reply.reflexive is Some ==> r is Ok
            &&& !from <==> r == Err::<SocketAddr, StunQueryError>(StunQueryError::SourceMismatch)
            &&& from && !own <==> r == Err::<SocketAddr, StunQueryError>(
                StunQueryError::TransactionMismatch,
            )
            &&& own && !binding ==> (reply.error_code matches Some(code) ==> r == Err::<
                SocketAddr,
                StunQueryError,
            >(StunQueryError::ErrorResponse(code)))
            &&& own && !binding && reply.error_code is None ==> r == Err::<
                SocketAddr,
                StunQueryError,
            >(StunQueryError::UnexpectedType(reply.message_type))
            &&& binding && reply.reflexive is None <==> r == Err::<SocketAddr, StunQueryError>(
                StunQueryError::NoMappedAddress,
            )
        }),
        source == server ==> query_result(server, source, transaction_id, None) == Err::<
            SocketAddr,
            StunQueryError,
        >(StunQueryError::InvalidResponse),
        source != server ==> query_result(server, source, transaction_id, None) == Err::<
            SocketAddr,
            StunQueryError,
        >(StunQueryError::SourceMismatch),
{
}

} // verus!

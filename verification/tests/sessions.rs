use p2wlan_udp::direct_validation::{
    admit_observation, DirectValidationAckRejectReason, DirectValidationIdentity,
    DirectValidationRegistry, DirectValidationSendError, DirectValidationSessionStart,
    ObservationIngress, ValidationAck, ValidationFacts, ValidationRefusal, ValidationRequest,
};
use p2wlan_udp::fresh_mapping::{
    accept_stun_reply, check_fresh_start, choose_observers, counts_down, effective_step,
    fresh_bind_address, fresh_mapping_target_eligible, generation_still_owns_socket,
    measurement_span, monotonic_millis, FreshDetach, FreshEnd, FreshGeneration,
    FreshMappingRejection, FreshPhase, FreshStart, FreshState, MappingMeasurement,
    MeasurementLimits, MeasurementPhase, ModelRejection, PortModelKind, StunReply,
};
use p2wlan_udp::net::{IpAddr, Ipv4Addr, Ipv6Addr, SocketAddr};
use p2wlan_udp::pending::ProbeSendResult;
use p2wlan_udp::probe_budget::OutboundProbeAdmission;
use p2wlan_udp::punch_session::{
    order_probes, PunchGates, PunchLimits, PunchPhase, PunchSession, PunchSocketPolicy, PunchStart,
    PunchStop,
};
use p2wlan_udp::socket_state::{DynamicSocketAttachError, SocketLimits, SocketState};
use p2wlan_udp::socket_sweep::{BudgetReason, ProbeRound};

fn addr(last: u8, port: u16) -> SocketAddr {
    SocketAddr::new(IpAddr::V4(Ipv4Addr::new(203, 0, 113, last)), port)
}

const LIMITS: PunchLimits = PunchLimits {
    punch_probes: 3,
    remote_scatter_probes: 100,
    heartbeat_probes: 5,
    budget_rejections: 2,
    batch_size: 2,
};

const GATES: PunchGates = PunchGates {
    not_direct: true,
    owner_valid: true,
    direct_commit_seq: Some(4),
    network_generation: 9,
};

fn session(policy: PunchSocketPolicy, sockets: usize, endpoints: Vec<SocketAddr>) -> PunchSession {
    let start = PunchStart {
        policy,
        socket_count: sockets,
        candidate_count: endpoints.len(),
        network_generation: 9,
        direct_commit_seq: Some(4),
    };
    PunchSession::begin(
        vec![ProbeRound {
            delay_before: 5,
            endpoints,
        }],
        1,
        start,
        LIMITS,
    )
    .expect("a session")
}

fn sent(socket_index: usize) -> ProbeSendResult {
    ProbeSendResult {
        nonce: 1,
        datagrams_sent: 2,
        socket_index,
        first_send_at_ms: Some(50),
        physical_send_errors: 0,
    }
}

/// Sends one probe, past every gate.
fn send_one(s: &mut PunchSession) -> (usize, SocketAddr) {
    if s.phase == PunchPhase::Batch {
        s.begin_batch(&GATES);
    }
    let probe = s.next_probe(&GATES).expect("a probe");
    s.on_quarantine(false);
    s.on_iteration(true);
    assert_eq!(s.on_admission(OutboundProbeAdmission::Accepted), Some(probe));
    s.on_sent(sent(probe.0));
    probe
}

#[test]
fn probes_of_a_pool_try_a_candidate_from_every_socket_first() {
    let endpoints = vec![addr(1, 1), addr(1, 2)];
    let pool = order_probes(&endpoints, 2, PunchSocketPolicy::ActivePool);
    assert_eq!(
        pool,
        vec![(0, addr(1, 1)), (1, addr(1, 1)), (0, addr(1, 2)), (1, addr(1, 2))]
    );
    let scatter = order_probes(&endpoints, 2, PunchSocketPolicy::StableUniqueScatter);
    assert_eq!(
        scatter,
        vec![(0, addr(1, 1)), (0, addr(1, 2)), (1, addr(1, 1)), (1, addr(1, 2))]
    );
    assert_eq!(order_probes(&endpoints, 1, PunchSocketPolicy::PrimaryOnly).len(), 2);
    assert!(order_probes(&endpoints, 0, PunchSocketPolicy::ActivePool).is_empty());
}

#[test]
fn punch_is_capped_and_reports_its_coverage() {
    let mut s = session(PunchSocketPolicy::ActivePool, 2, vec![addr(1, 1), addr(1, 2), addr(2, 1)]);
    assert_eq!(s.begin_round(), Some(5));
    assert_eq!(send_one(&mut s), (0, addr(1, 1)));
    assert_eq!(send_one(&mut s), (1, addr(1, 1)));
    assert_eq!(s.next_probe(&GATES), None);
    assert_eq!(s.phase, PunchPhase::Batch);
    assert_eq!(send_one(&mut s), (0, addr(1, 2)));
    assert_eq!(s.next_probe(&GATES), None);
    assert_eq!(s.phase, PunchPhase::Finished(Some(PunchStop::SessionCapped)));
    let coverage = s.coverage();
    assert_eq!((coverage.socket0_sent, coverage.alt_socket_sent), (2, 1));
    assert_eq!((coverage.unique_target_ports, coverage.repeated_target_ports), (2, 1));
    assert_eq!(coverage.unique_target_endpoints, 2);
    assert_eq!(s.stop_event(), Some("probe_session_capped"));
    assert_eq!(s.skip_reason(), None);
    let report = s.finish();
    assert_eq!(report.packets_sent, 3);
    assert_eq!(report.unique_target_endpoints, 2);
    assert_eq!(report.per_socket_sent, vec![(0, 4), (1, 2)]);
    assert_eq!(report.first_send_at_ms, Some(50));
    assert!(!report.epoch_budget_exhausted);
}

#[test]
fn punch_with_nothing_to_do_does_not_begin() {
    let start = PunchStart {
        policy: PunchSocketPolicy::ActivePool,
        socket_count: 1,
        candidate_count: 0,
        network_generation: 9,
        direct_commit_seq: None,
    };
    assert!(PunchSession::begin(vec![], 1, start, LIMITS).is_none());
    let start = PunchStart { candidate_count: 1, ..start };
    assert!(PunchSession::begin(vec![], 0, start, LIMITS).is_none());
}

#[test]
fn punch_stops_within_one_probe_of_a_change() {
    for (gates, stop) in [
        (PunchGates { not_direct: false, ..GATES }, PunchStop::Gate),
        (PunchGates { owner_valid: false, ..GATES }, PunchStop::Gate),
        (PunchGates { direct_commit_seq: Some(5), ..GATES }, PunchStop::CommitSeqChanged),
    ] {
        let mut s = session(PunchSocketPolicy::PrimaryOnly, 1, vec![addr(1, 1)]);
        s.begin_round();
        s.begin_batch(&GATES);
        assert_eq!(s.next_probe(&gates), None);
        assert_eq!(s.phase, PunchPhase::Finished(Some(stop)));
    }
    let mut s = session(PunchSocketPolicy::PrimaryOnly, 1, vec![addr(1, 1)]);
    s.begin_round();
    s.begin_batch(&PunchGates { network_generation: 10, ..GATES });
    assert_eq!(s.phase, PunchPhase::Finished(Some(PunchStop::GenerationChanged)));
    assert_eq!(s.stop_event(), Some("probe_batch_generation_changed"));
}

#[test]
fn punch_runs_through_its_schedule() {
    let mut s = session(PunchSocketPolicy::PrimaryOnly, 1, vec![addr(1, 1)]);
    s.begin_round();
    s.begin_batch(&GATES);
    s.next_probe(&GATES);
    s.on_quarantine(true);
    assert_eq!(s.next_probe(&GATES), None);
    s.begin_batch(&GATES);
    assert_eq!(s.phase, PunchPhase::Round);
    assert_eq!(s.begin_round(), None);
    assert_eq!(s.phase, PunchPhase::Finished(None));
    assert_eq!(s.skip_reason(), Some(BudgetReason::SlowRelayRetained));
    assert_eq!(s.stop_event(), None);
    assert_eq!(s.finish().budget_skipped, 1);
}

#[test]
fn punch_gives_up_after_lasting_rejections() {
    let mut s = session(
        PunchSocketPolicy::PrimaryOnly,
        1,
        vec![addr(1, 1), addr(1, 2), addr(1, 3), addr(1, 4)],
    );
    s.begin_round();
    s.begin_batch(&GATES);
    for admission in [
        OutboundProbeAdmission::PeerRateLimited,
        OutboundProbeAdmission::GlobalPeerPersistentRateLimited,
        OutboundProbeAdmission::GlobalNetworkPersistentRateLimited,
    ] {
        s.next_probe(&GATES);
        s.on_quarantine(false);
        s.on_iteration(true);
        assert_eq!(s.on_admission(admission), None);
    }
    s.next_probe(&GATES);
    s.on_quarantine(false);
    s.on_iteration(true);
    assert_eq!(s.phase, PunchPhase::Finished(Some(PunchStop::WholesaleRejected)));
    assert_eq!(s.counters.budget_skipped, 3);
}

#[test]
fn punch_ends_with_the_epoch() {
    let mut s = session(PunchSocketPolicy::PrimaryOnly, 1, vec![addr(1, 1)]);
    s.begin_round();
    s.begin_batch(&GATES);
    s.next_probe(&GATES);
    s.on_quarantine(false);
    s.on_iteration(true);
    s.on_admission(OutboundProbeAdmission::EpochCreditExhausted);
    assert_eq!(s.stop_event(), Some("recovery_epoch_credit_exhausted"));
    assert!(s.finish().epoch_budget_exhausted);

    let mut s = session(PunchSocketPolicy::PrimaryOnly, 1, vec![addr(1, 1)]);
    s.begin_round();
    s.begin_batch(&GATES);
    s.next_probe(&GATES);
    s.on_quarantine(false);
    s.on_iteration(false);
    assert_eq!(
        s.stop_event(),
        Some("recovery_candidate_iteration_budget_exhausted")
    );
    assert!(s.finish().candidate_iteration_capped);
}

#[test]
fn unique_scatter_passes_over_what_it_reached() {
    let mut s = session(PunchSocketPolicy::StableUniqueScatter, 2, vec![addr(1, 1), addr(1, 2)]);
    s.begin_round();
    assert_eq!(send_one(&mut s), (0, addr(1, 1)));
    s.next_probe(&GATES);
    s.on_quarantine(false);
    s.on_iteration(true);
    s.on_admission(OutboundProbeAdmission::Accepted);
    s.on_failed();
    let again = s.next_probe(&GATES).expect("second socket");
    assert_eq!(again, (1, addr(1, 1)));
    s.on_quarantine(false);
    s.on_iteration(true);
    assert_eq!(s.phase, PunchPhase::Probe);
    assert_eq!(PunchSocketPolicy::StableUniqueScatter.stage(2), "stable_unique_scan_completed");
    assert_eq!(PunchSocketPolicy::ActivePool.stage(1), "single_socket_scan_completed");
    assert_eq!(PunchSocketPolicy::RemoteScatterPool.stage(2), "active_pool_scan_completed");
}

#[test]
fn heartbeat_policy_never_punches() {
    let mut s = session(PunchSocketPolicy::RelayBackoffHeartbeat, 2, vec![addr(1, 1)]);
    s.begin_round();
    s.begin_batch(&GATES);
    while s.next_probe(&GATES).is_some() {
        s.on_quarantine(false);
        assert_eq!(s.phase, PunchPhase::Probe);
    }
    assert_eq!(s.counters.packets_sent, 0);
    assert_eq!(
        s.skip_reason(),
        Some(BudgetReason::Limited(OutboundProbeAdmission::HeartbeatBudgetLimited))
    );
}

const MEASURE: MeasurementLimits = MeasurementLimits {
    request_timeout: 900_000_000,
    budget_ms: 1_000,
};

#[test]
fn measurement_shares_its_budget_and_keeps_send_order() {
    let observers = vec![addr(1, 1), addr(2, 1), addr(1, 1), addr(3, 1)];
    let mut m = MappingMeasurement::new(&observers, 800_000_000, MEASURE, 100);
    assert_eq!(m.observers, vec![addr(1, 1), addr(2, 1), addr(3, 1)]);
    assert_eq!(m.next_request(true, 100), Some((addr(1, 1), 333_000_000)));
    assert!(m.on_sent(true, true));
    m.on_reply(Some(addr(9, 40)), 101, 120, None);
    assert_eq!(m.next_request(true, 600), Some((addr(2, 1), 250_000_000)));
    assert!(!m.on_sent(false, true));
    assert_eq!(m.next_request(true, 600), Some((addr(3, 1), 500_000_000)));
    assert!(m.on_sent(true, true));
    m.on_reply(Some(addr(9, 41)), 601, 620, Some(addr(7, 7)));
    assert_eq!(m.next_request(true, 650), None);
    assert_eq!(m.phase, MeasurementPhase::Finished);
    let seen: Vec<(u16, u16)> = m
        .observations
        .iter()
        .map(|o| (o.sequence, o.observed.port()))
        .collect();
    assert_eq!(seen, vec![(0, 40), (2, 41)]);
    assert_eq!(m.observations[0].local_endpoint.port(), 0);
    let span = measurement_span(&m.observations, 0, 0, 700);
    assert_eq!((span.first_sent_at_ms, span.last_sent_at_ms), (101, 601));
    assert_eq!((span.measurement_span_ms, span.probe_gap_ms), (500, 99));
}

#[test]
fn measurement_ends_when_unwanted_or_out_of_time() {
    let observers = vec![addr(1, 1)];
    let mut m = MappingMeasurement::new(&observers, 1, MEASURE, 0);
    assert_eq!(m.next_request(false, 0), None);
    let mut m = MappingMeasurement::new(&observers, 1, MEASURE, 0);
    assert_eq!(m.next_request(true, 1_000), None);
    let mut m = MappingMeasurement::new(&observers, 1, MEASURE, 0);
    assert_eq!(m.next_request(true, 0), Some((addr(1, 1), 1)));
    assert!(!m.on_sent(true, false));
    assert_eq!(m.phase, MeasurementPhase::Finished);
}

#[test]
fn stun_reply_must_answer_this_request() {
    let reply = StunReply {
        source: addr(1, 1),
        transaction_id: 5,
        binding_response: true,
        reflexive: Some(addr(9, 9)),
    };
    assert_eq!(accept_stun_reply(Some(reply), addr(1, 1), 5), Some(addr(9, 9)));
    assert_eq!(accept_stun_reply(Some(reply), addr(1, 2), 5), None);
    assert_eq!(accept_stun_reply(Some(reply), addr(1, 1), 6), None);
    let other = StunReply { binding_response: false, ..reply };
    assert_eq!(accept_stun_reply(Some(other), addr(1, 1), 5), None);
    assert_eq!(accept_stun_reply(None, addr(1, 1), 5), None);
}

#[test]
fn fresh_helpers_compute_what_they_say() {
    assert_eq!(monotonic_millis(0), 1);
    assert_eq!(monotonic_millis(u128::MAX), u64::MAX);
    assert_eq!(effective_step(Some(-3), 3), Some(-3));
    assert_eq!(effective_step(Some(-4), 3), None);
    assert_eq!(effective_step(Some(i16::MIN), 32_768), Some(i16::MIN));
    assert!(counts_down(Some(true), false));
    assert!(!counts_down(Some(false), true));
    assert!(counts_down(None, true));
    assert_eq!(fresh_bind_address(Some(addr(5, 77))), addr(5, 0));
    assert_eq!(fresh_bind_address(None).port(), 0);
    assert!(fresh_mapping_target_eligible(addr(5, 1), true, false));
    let local = SocketAddr::new(IpAddr::V4(Ipv4Addr::localhost()), 1);
    assert!(fresh_mapping_target_eligible(local, false, true));
    assert!(!fresh_mapping_target_eligible(local, false, false));
    let v6 = SocketAddr::new(IpAddr::V6(Ipv6Addr { bits: 7 }), 1);
    assert_eq!(
        choose_observers(&vec![addr(1, 1), v6, addr(2, 1), addr(3, 1)], 2),
        vec![addr(1, 1), addr(2, 1)]
    );
}

fn fresh_start() -> FreshStart {
    FreshStart {
        local_nat_requires_fresh_mapping: true,
        cancelled: false,
        measure_only: false,
        target_count: 1,
        local_node_known: true,
        peer_key_known: true,
        direct: false,
    }
}

#[test]
fn fresh_start_names_each_rejection() {
    assert_eq!(check_fresh_start(&fresh_start()), None);
    let cases = [
        (
            FreshStart { local_nat_requires_fresh_mapping: false, ..fresh_start() },
            FreshMappingRejection::StableLocalNat,
        ),
        (FreshStart { cancelled: true, ..fresh_start() }, FreshMappingRejection::Superseded),
        (
            FreshStart { target_count: 0, ..fresh_start() },
            FreshMappingRejection::NoStablePeerEndpoint,
        ),
        (
            FreshStart { local_node_known: false, ..fresh_start() },
            FreshMappingRejection::MissingProbeKey,
        ),
        (FreshStart { direct: true, ..fresh_start() }, FreshMappingRejection::Superseded),
    ];
    for (start, rejection) in cases {
        assert_eq!(check_fresh_start(&start), Some(rejection));
    }
    let measure = FreshStart { target_count: 0, measure_only: true, ..fresh_start() };
    assert_eq!(check_fresh_start(&measure), None);
}

const CALM: FreshState = FreshState {
    cancelled: false,
    direct: false,
    network_generation: 9,
};

fn measured(measure_only: bool, attempts: u32) -> FreshGeneration {
    let mut g = FreshGeneration::new(9, measure_only, attempts, vec![addr(1, 1), addr(1, 2)]);
    g.on_bound(true);
    g.on_attached(None);
    g.on_observers(3);
    g
}

fn end(rejection: FreshMappingRejection, detach: FreshDetach) -> FreshPhase {
    FreshPhase::Finished(FreshEnd::Rejected(rejection, Some(detach)))
}

#[test]
fn fresh_generation_punches_and_is_accepted() {
    let mut g = measured(false, 2);
    g.on_measured(&CALM, 3, true);
    g.on_model(Ok(PortModelKind::Linear { step: 2 }), 16);
    g.on_validation(&CALM);
    g.begin_round(&CALM);
    assert_eq!(g.next_target(), Some(addr(1, 1)));
    let pause = g.on_punched(true, 80_000_000);
    assert!(pause.spacing);
    assert_eq!(pause.interval, 50_000_000);
    assert_eq!(g.next_target(), Some(addr(1, 2)));
    assert_eq!(g.on_punched(false, 7).interval, 7);
    assert_eq!(g.next_target(), None);
    g.begin_round(&CALM);
    assert_eq!(g.next_target(), Some(addr(1, 1)));
    assert_eq!(g.on_punched(true, 7).interval, 0);
    g.next_target();
    g.on_punched(true, 7);
    assert_eq!(g.next_target(), None);
    g.begin_round(&CALM);
    assert_eq!(g.phase, FreshPhase::Punched);
    assert_eq!(g.sent, 3);
    g.on_all_punched(false);
    g.on_commit(true);
    g.on_handoff(false, true);
    assert_eq!(g.phase, FreshPhase::Finished(FreshEnd::Accepted));
}

#[test]
fn fresh_measurement_alone_punches_nothing() {
    let mut g = measured(true, 0);
    g.on_measured(&CALM, 3, true);
    g.on_model(Ok(PortModelKind::Unstepped), 16);
    g.on_validation(&CALM);
    assert_eq!(g.phase, FreshPhase::Commit);
    g.on_commit(true);
    g.on_handoff(false, true);
    assert_eq!(g.phase, FreshPhase::Finished(FreshEnd::Accepted));
    assert_eq!(g.sent, 0);
}

#[test]
fn fresh_generation_rejections_name_their_reason() {
    let mut g = FreshGeneration::new(9, false, 1, vec![addr(1, 1)]);
    g.on_bound(false);
    assert_eq!(
        g.phase,
        FreshPhase::Finished(FreshEnd::Rejected(FreshMappingRejection::BindFailed, None))
    );
    for (error, rejection) in [
        (DynamicSocketAttachError::Superseded, FreshMappingRejection::Superseded),
        (DynamicSocketAttachError::CapacityRejected, FreshMappingRejection::CapacityRejected),
        (DynamicSocketAttachError::NoInboundChannel, FreshMappingRejection::BindFailed),
        (DynamicSocketAttachError::ReaderStartupFailed, FreshMappingRejection::BindFailed),
    ] {
        let mut g = FreshGeneration::new(9, false, 1, vec![addr(1, 1)]);
        g.on_bound(true);
        g.on_attached(Some(error));
        assert_eq!(g.phase, FreshPhase::Finished(FreshEnd::Rejected(rejection, None)));
    }
    let mut g = FreshGeneration::new(9, false, 1, vec![addr(1, 1)]);
    g.on_bound(true);
    g.on_attached(None);
    g.on_observers(2);
    assert_eq!(
        g.phase,
        end(FreshMappingRejection::InsufficientSamples, FreshDetach::InsufficientObservers)
    );
    let cases = [
        (
            FreshState { cancelled: true, ..CALM },
            3,
            true,
            end(FreshMappingRejection::Superseded, FreshDetach::GenerationCancelled),
        ),
        (
            FreshState { direct: true, ..CALM },
            2,
            true,
            end(FreshMappingRejection::Superseded, FreshDetach::PeerBecameDirect),
        ),
        (
            FreshState { network_generation: 8, ..CALM },
            2,
            true,
            end(FreshMappingRejection::BatchStale, FreshDetach::NetworkGenerationChanged),
        ),
        (
            CALM,
            2,
            true,
            end(FreshMappingRejection::InsufficientSamples, FreshDetach::InsufficientSamples),
        ),
        (
            CALM,
            3,
            false,
            end(FreshMappingRejection::PublicIpChanged, FreshDetach::PublicIpChanged),
        ),
    ];
    for (state, samples, one_ip, phase) in cases {
        let mut g = measured(false, 1);
        g.on_measured(&state, samples, one_ip);
        assert_eq!(g.phase, phase);
    }
    let cases = [
        (
            Err(ModelRejection::BatchStale),
            end(FreshMappingRejection::BatchStale, FreshDetach::BatchStale),
        ),
        (
            Err(ModelRejection::InconsistentBatch),
            end(FreshMappingRejection::InconsistentBatch, FreshDetach::InconsistentBatch),
        ),
        (
            Err(ModelRejection::NarrowRandom),
            end(FreshMappingRejection::UnpredictableSequence, FreshDetach::UnpredictableSequence),
        ),
        (
            Ok(PortModelKind::FixedStep { step: -17 }),
            end(FreshMappingRejection::UnpredictableSequence, FreshDetach::UnpredictableSequence),
        ),
    ];
    for (model, phase) in cases {
        let mut g = measured(false, 1);
        g.on_measured(&CALM, 3, true);
        g.on_model(model, 16);
        assert_eq!(g.phase, phase);
    }
    assert_eq!(PortModelKind::NoisyLinear { step: -3 }.step(), Some(-3));
    assert_eq!(PortModelKind::MonotonicWindow { direction: -1 }.step(), Some(-1));
    assert_eq!(PortModelKind::Unstepped.step(), None);
    assert_eq!(FreshDetach::OwnershipLostBeforeAccept.reason(), "ownership_lost_before_accept");
}

#[test]
fn fresh_generation_that_sent_nothing_claims_nothing() {
    for (cancelled, rejection) in [
        (false, FreshMappingRejection::NoProbesSent),
        (true, FreshMappingRejection::Superseded),
    ] {
        let mut g = measured(false, 1);
        g.on_measured(&CALM, 3, true);
        g.on_model(Ok(PortModelKind::Unstepped), 16);
        g.on_validation(&CALM);
        g.begin_round(&FreshState { cancelled: true, ..CALM });
        g.on_all_punched(cancelled);
        assert_eq!(g.phase, end(rejection, FreshDetach::NoPeerFacingProbe));
    }
}

#[test]
fn fresh_generation_gives_way_after_its_commit() {
    let committed = || {
        let mut g = measured(true, 0);
        g.on_measured(&CALM, 3, true);
        g.on_model(Ok(PortModelKind::Unstepped), 16);
        g.on_validation(&CALM);
        g
    };
    let mut g = committed();
    g.on_commit(false);
    assert_eq!(
        g.phase,
        end(FreshMappingRejection::Superseded, FreshDetach::GenerationAbandoned)
    );
    let mut g = committed();
    g.on_commit(true);
    g.on_handoff(true, true);
    assert_eq!(
        g.phase,
        FreshPhase::Finished(FreshEnd::Rejected(FreshMappingRejection::Superseded, None))
    );
    let mut g = committed();
    g.on_commit(true);
    g.on_handoff(false, false);
    assert_eq!(
        g.phase,
        end(FreshMappingRejection::Superseded, FreshDetach::OwnershipLostBeforeAccept)
    );
}

#[test]
fn generation_owns_its_socket_only_while_pinned() {
    let mut state = SocketState::new(SocketLimits {
        dynamic_index_base: 100,
        max_dynamic: 4,
    });
    state
        .attach_dynamic_punch_socket(true, "p", 100, None, 9, 1, 0, 9, false, &vec![])
        .expect("attached");
    assert!(!generation_still_owns_socket(&state, "p", 100));
    assert!(state.commit_and_pin("p", 100, 9, 1, 9, false).committed());
    assert!(generation_still_owns_socket(&state, "p", 100));
    assert!(!generation_still_owns_socket(&state, "q", 100));
    state.detach_dynamic_socket_by_index(100);
    assert!(!generation_still_owns_socket(&state, "p", 100));
}

const FACTS: ValidationFacts = ValidationFacts {
    network_generation: 9,
    peer_session_generation: Some(2),
    remote_candidate_epoch: 3,
    direct: false,
    eligible: true,
    slow_relay: false,
};

fn request(endpoint: SocketAddr) -> ValidationRequest {
    ValidationRequest {
        endpoint,
        generation: 9,
        remote_candidate_epoch: 3,
    }
}

fn identity(owner_token: u64, endpoint: SocketAddr) -> DirectValidationIdentity {
    DirectValidationIdentity {
        request_id: 40,
        generation: 9,
        peer_session_generation: 2,
        remote_candidate_epoch: 3,
        owner_token,
        endpoint,
    }
}

fn ack(owner: u64) -> ValidationAck {
    ValidationAck {
        request_id: 40,
        token_generation: 9,
        token_owner: owner,
        source: addr(1, 1),
        socket_index: Some(7),
        endpoint_authenticated: false,
    }
}

fn spawned(start: DirectValidationSessionStart) -> u64 {
    match start {
        DirectValidationSessionStart::Spawn(target, _) => target.owner_token,
        other => panic!("not spawned: {other:?}"),
    }
}

#[test]
fn validation_turns_away_what_does_not_fit() {
    let cases = [
        (
            ValidationFacts { network_generation: 10, ..FACTS },
            ValidationRefusal::StaleGeneration,
        ),
        (
            ValidationFacts { peer_session_generation: None, ..FACTS },
            ValidationRefusal::PeerSessionUnavailable,
        ),
        (
            ValidationFacts { remote_candidate_epoch: 4, ..FACTS },
            ValidationRefusal::StaleRemoteCandidateEpoch,
        ),
        (
            ValidationFacts { direct: true, eligible: false, ..FACTS },
            ValidationRefusal::PeerAlreadyDirect,
        ),
        (ValidationFacts { eligible: false, ..FACTS }, ValidationRefusal::PeerIneligible),
        (ValidationFacts { slow_relay: true, ..FACTS }, ValidationRefusal::SlowRelayCooldown),
    ];
    let mut registry = DirectValidationRegistry::<()>::new();
    for (facts, refusal) in cases {
        assert_eq!(
            registry.begin_or_merge_direct_validation("p", request(addr(1, 1)), &facts, true, true),
            DirectValidationSessionStart::Ignored(refusal)
        );
    }
    registry.cancel_all();
    assert_eq!(
        registry.begin_or_merge_direct_validation("p", request(addr(1, 1)), &FACTS, true, true),
        DirectValidationSessionStart::Ignored(ValidationRefusal::RegistryClosed)
    );
    assert!(ValidationRefusal::StaleGeneration.is_stale());
    assert!(!ValidationRefusal::PeerIneligible.is_stale());
    assert_eq!(
        ValidationRefusal::SlowRelayCooldown.reason_code(),
        "direct_validation_slow_relay_cooldown"
    );
}

#[test]
fn validation_of_a_new_generation_replaces_the_worker() {
    let mut registry = DirectValidationRegistry::<()>::new();
    let first = spawned(registry.begin_or_merge_direct_validation(
        "p",
        request(addr(1, 1)),
        &FACTS,
        false,
        false,
    ));
    let moved = ValidationFacts { network_generation: FACTS.network_generation + 1, ..FACTS };
    let old = request(addr(2, 2));
    assert_eq!(
        registry.begin_or_merge_direct_validation("p", old, &moved, true, true),
        DirectValidationSessionStart::Ignored(ValidationRefusal::StaleGeneration)
    );
    let new = ValidationRequest { generation: moved.network_generation, ..old };
    match registry.begin_or_merge_direct_validation("p", new, &moved, true, true) {
        DirectValidationSessionStart::Spawn(target, Some(replaced)) => {
            assert_ne!(target.owner_token, first);
            assert_eq!((replaced.owner_token, replaced.cancelled), (first, true));
        }
        other => panic!("not spawned: {other:?}"),
    }
}

#[test]
fn validation_is_single_flight() {
    let mut registry = DirectValidationRegistry::<()>::new();
    let first = spawned(registry.begin_or_merge_direct_validation(
        "p",
        request(addr(1, 1)),
        &FACTS,
        false,
        false,
    ));
    match registry.begin_or_merge_direct_validation("p", request(addr(2, 2)), &FACTS, true, false) {
        DirectValidationSessionStart::Merged(target) => {
            assert_eq!(target.owner_token, first);
            assert_eq!(target.endpoint, addr(2, 2));
        }
        other => panic!("not merged: {other:?}"),
    }
    let facts = ValidationFacts { peer_session_generation: Some(3), ..FACTS };
    match registry.begin_or_merge_direct_validation("p", request(addr(1, 1)), &facts, true, true) {
        DirectValidationSessionStart::Spawn(target, Some(replaced)) => {
            assert_ne!(target.owner_token, first);
            assert_eq!(replaced.owner_token, first);
            assert!(replaced.cancelled);
        }
        other => panic!("not replaced: {other:?}"),
    }
    assert_eq!(registry.finish_direct_validation_session("p", first), None);
    assert!(registry.direct_validation_target("p").is_some());
}

#[test]
fn validation_answer_counts_once() {
    let mut registry = DirectValidationRegistry::<&str>::new();
    let owner = spawned(registry.begin_or_merge_direct_validation(
        "p",
        request(addr(1, 1)),
        &FACTS,
        false,
        false,
    ));
    assert_eq!(
        registry.prepare_direct_validation_send("p", &identity(owner, addr(1, 1)), None, 100),
        Err(DirectValidationSendError::NoSocket)
    );
    assert_eq!(
        registry.prepare_direct_validation_send(
            "p",
            &identity(owner, addr(9, 9)),
            Some((7, "lease")),
            100
        ),
        Err(DirectValidationSendError::OwnerRevoked)
    );
    assert_eq!(
        registry.prepare_direct_validation_send(
            "p",
            &identity(owner, addr(1, 1)),
            Some((7, "lease")),
            100
        ),
        Ok(7)
    );
    assert!(registry.on_validation_started("p", owner, true).is_ok());
    assert!(registry.mark_direct_validation_send_started("p", 40, 9, owner, 50));
    assert!(!registry.mark_direct_validation_send_started("p", 41, 9, owner, 50));
    let taken = registry
        .consume_direct_validation_ack("p", &ack(owner), 9, Some(2), 60)
        .ok()
        .expect("the answer counts");
    assert_eq!(taken.sent_at, Some(50));
    assert_eq!(taken.lease, Some("lease"));
    assert_eq!(
        registry
            .consume_direct_validation_ack("p", &ack(owner), 9, Some(2), 60)
            .err(),
        Some(DirectValidationAckRejectReason::NoExpectation)
    );
}

#[test]
fn validation_answer_must_match_in_every_respect() {
    let ready = || {
        let mut registry = DirectValidationRegistry::<()>::new();
        let owner = spawned(registry.begin_or_merge_direct_validation(
            "p",
            request(addr(1, 1)),
            &FACTS,
            false,
            false,
        ));
        registry
            .prepare_direct_validation_send("p", &identity(owner, addr(1, 1)), Some((7, ())), 100)
            .expect("prepared");
        (registry, owner)
    };
    let (_, owner) = ready();
    let cases = [
        (
            ValidationAck { token_generation: 8, ..ack(owner) },
            DirectValidationAckRejectReason::TokenGenerationMismatch,
        ),
        (
            ValidationAck { request_id: 41, ..ack(owner) },
            DirectValidationAckRejectReason::RequestIdMismatch,
        ),
        (ack(owner + 1), DirectValidationAckRejectReason::OwnerMismatch),
        (
            ValidationAck { source: addr(2, 2), ..ack(owner) },
            DirectValidationAckRejectReason::EndpointMismatch,
        ),
        (
            ValidationAck { socket_index: Some(8), ..ack(owner) },
            DirectValidationAckRejectReason::SocketMismatch,
        ),
        (
            ValidationAck { socket_index: None, ..ack(owner) },
            DirectValidationAckRejectReason::SocketMismatch,
        ),
    ];
    for (ack, reason) in cases {
        let (mut registry, _) = ready();
        assert_eq!(
            registry.consume_direct_validation_ack("p", &ack, 9, Some(2), 60).err(),
            Some(reason)
        );
    }
    let (mut registry, owner) = ready();
    let moved = ValidationAck { source: addr(2, 2), endpoint_authenticated: true, ..ack(owner) };
    assert!(registry.consume_direct_validation_ack("p", &moved, 9, Some(2), 60).is_ok());
    let (mut registry, owner) = ready();
    assert_eq!(
        registry.consume_direct_validation_ack("p", &ack(owner), 9, Some(2), 100).err(),
        Some(DirectValidationAckRejectReason::ExpectationExpired)
    );
    let (mut registry, owner) = ready();
    assert_eq!(
        registry.consume_direct_validation_ack("p", &ack(owner), 9, None, 60).err(),
        Some(DirectValidationAckRejectReason::ExpectationPeerSessionMismatch)
    );
    let (mut registry, owner) = ready();
    assert!(registry.finish_direct_validation_session("p", owner).is_some());
    assert_eq!(
        registry.consume_direct_validation_ack("p", &ack(owner), 9, Some(2), 60).err(),
        Some(DirectValidationAckRejectReason::NoExpectation)
    );
    let (mut registry, owner) = ready();
    assert_eq!(
        registry.on_validation_started("p", owner, false),
        Err(DirectValidationSendError::OwnerRevoked)
    );
    assert!(!registry.clear_direct_validation_expectation_if_owned("p", owner));
}

#[test]
fn better_link_withdraws_the_request_under_way() {
    let mut registry = DirectValidationRegistry::<()>::new();
    let owner = spawned(registry.begin_or_merge_direct_validation(
        "p",
        request(addr(1, 1)),
        &FACTS,
        false,
        false,
    ));
    registry
        .prepare_direct_validation_send("p", &identity(owner, addr(1, 1)), Some((7, ())), 100)
        .expect("prepared");
    registry.begin_or_merge_direct_validation("p", request(addr(2, 2)), &FACTS, true, true);
    assert_eq!(
        registry.consume_direct_validation_ack("p", &ack(owner), 9, Some(2), 60).err(),
        Some(DirectValidationAckRejectReason::NoExpectation)
    );
    assert_eq!(admit_observation(true, false, true), ObservationIngress::Suppressed);
    assert_eq!(admit_observation(true, true, false), ObservationIngress::NoScheduler);
    assert_eq!(admit_observation(false, false, true), ObservationIngress::Forward);
}

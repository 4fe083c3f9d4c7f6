use p2wlan_udp::business_mtu::{
    after_worker_submit, check_direct_business_packet, direct_business_budget_ready_for_peer,
    judge_direct_business_send, peer_requires_direct_business_budget, plan_path_install,
    plan_worker_start, prepare_direct_business_send, reconcile_dplpmtud_path, tells_unsupported,
    unsupported_reason, BudgetEntry, BusinessBudget, BusinessFacts, BusinessPending,
    BusinessSocket, CommittedBusinessPath, CommittedValidation, DirectBusinessBudgetGate,
    DirectBusinessSendToken, DirectBusinessUdpSendError, DirectCommitPair,
    DplpmtudAckReverseRoutes, DplpmtudCancel, DplpmtudInstallDecision, DplpmtudPathIdentity,
    PathEpoch, SendTokenState, SocketSend, WorkerStart,
};
use p2wlan_udp::diagnostics::{SocketCounter, SocketDiagnostics};
use p2wlan_udp::failure::DaemonError;
use p2wlan_udp::gather::{
    append_pool_candidates, classify_live_filtering_response, drop_predicted_candidates, filtering_probe_server,
    judge_stun_reply, merge_pool_candidates, merge_pool_nat_profile, on_first_filtering_probe,
    on_second_filtering_probe, servers_of_family, stun_timeout_for_live_filtering_probe,
    CandidateSource, DecodedReply, FilteringBehavior, IceCandidate, MappingBehavior, NatProfile,
    StunObservation, StunQueryError, BINDING_RESPONSE,
};
use p2wlan_udp::histogram::{
    add_row, add_rows, clamp_u32, earlier_of, later_of, raise_rows, sort_rows, sum_datagrams,
};
use p2wlan_udp::learning::{model_deltas, DestinationScope, LearningCache};
use p2wlan_udp::net::{IpAddr, Ipv4Addr, Ipv6Addr, SocketAddr};
use p2wlan_udp::socket_state::SocketLimits;
use p2wlan_udp::table::Table;
use p2wlan_udp::transport::{
    ipv6_bind_address, ipv6_fallback_address, pool_bind_address, socket_pool_size, BoundSocket,
    UdpTransport,
};
use p2wlan_udp::window::{evict_earliest, saturating_since, WindowLog};
use std::sync::Arc;

fn addr(last: u8, port: u16) -> SocketAddr {
    SocketAddr::new(IpAddr::V4(Ipv4Addr::new(203, 0, 113, last)), port)
}

fn v6(bits: u128, port: u16) -> SocketAddr {
    SocketAddr::new(IpAddr::V6(Ipv6Addr { bits }), port)
}

const EPOCH: PathEpoch = PathEpoch {
    network_generation: 9,
    peer_session_generation: 2,
    remote_candidate_epoch: 3,
};

fn committed() -> CommittedBusinessPath {
    CommittedBusinessPath {
        online: true,
        direct: Some(CommittedValidation {
            epoch: EPOCH,
            commit_endpoint: Some(addr(1, 1)),
            validation_id: Some(8),
        }),
        epoch: Some(EPOCH),
    }
}

fn identity() -> DplpmtudPathIdentity {
    DplpmtudPathIdentity {
        epoch: EPOCH,
        validation_id: 8,
        remote_endpoint: addr(1, 1),
        local_endpoint: addr(7, 7),
        transport_instance_id: 5,
        socket_index: 0,
    }
}

fn facts() -> BusinessFacts {
    BusinessFacts {
        session_generation: Some(2),
        supports_dplpmtud: true,
        socket: Some(BusinessSocket {
            socket_index: 0,
            local_endpoint: Some(addr(7, 7)),
        }),
        committed: Some(committed()),
        pair: Some(DirectCommitPair {
            generation: 9,
            remote_candidate_epoch: 3,
            local_endpoint: Some(addr(7, 7)),
        }),
        entry: Some(BudgetEntry {
            enforced: true,
            path_identity: identity(),
            budget: Some(BusinessBudget {
                budget_revision: 6,
                udp_datagram_size: 1200,
                overlay_payload_budget: 1100,
            }),
        }),
        publication_owner: 11,
        transport_instance_id: 5,
    }
}

fn token() -> DirectBusinessSendToken {
    DirectBusinessSendToken {
        path_identity: identity(),
        budget_revision: 6,
        max_udp_datagram_size: 1200,
        max_overlay_payload_size: 1100,
        udp_publication_owner: 11,
    }
}

#[test]
fn business_traffic_is_ready_on_its_measured_path() {
    assert_eq!(
        prepare_direct_business_send(&facts(), addr(1, 1)),
        DirectBusinessBudgetGate::Ready(token())
    );
    assert!(direct_business_budget_ready_for_peer(&facts()));
    assert!(peer_requires_direct_business_budget(&facts()));
    let old_peer = BusinessFacts { supports_dplpmtud: false, ..facts() };
    assert_eq!(
        prepare_direct_business_send(&old_peer, addr(1, 1)),
        DirectBusinessBudgetGate::Unmanaged
    );
    assert!(!peer_requires_direct_business_budget(&old_peer));
    assert!(direct_business_budget_ready_for_peer(&old_peer));
}

#[test]
fn business_traffic_names_what_it_waits_for() {
    let with_direct = |v: Option<CommittedValidation>| BusinessFacts {
        committed: Some(CommittedBusinessPath { direct: v, ..committed() }),
        ..facts()
    };
    let validation = committed().direct.expect("direct");
    let entry = facts().entry.expect("an entry");
    let cases = [
        (
            BusinessFacts { session_generation: None, ..facts() },
            BusinessPending::PeerSessionMissing,
        ),
        (BusinessFacts { socket: None, ..facts() }, BusinessPending::ExactSocketMissing),
        (BusinessFacts { committed: None, ..facts() }, BusinessPending::CommittedPathMissing),
        (with_direct(None), BusinessPending::ActivePathNotDirect),
        (
            with_direct(Some(CommittedValidation {
                epoch: PathEpoch { network_generation: 8, ..EPOCH },
                ..validation
            })),
            BusinessPending::PathEpochMismatch,
        ),
        (
            with_direct(Some(CommittedValidation { commit_endpoint: None, ..validation })),
            BusinessPending::DirectIdentityUnconfirmed,
        ),
        (
            with_direct(Some(CommittedValidation {
                commit_endpoint: Some(addr(2, 2)),
                ..validation
            })),
            BusinessPending::SelectorEndpointChanged,
        ),
        (BusinessFacts { pair: None, ..facts() }, BusinessPending::DirectPairMissing),
        (
            BusinessFacts {
                pair: Some(DirectCommitPair {
                    generation: 9,
                    remote_candidate_epoch: 3,
                    local_endpoint: None,
                }),
                ..facts()
            },
            BusinessPending::LocalEndpointMissing,
        ),
        (
            BusinessFacts {
                pair: Some(DirectCommitPair {
                    generation: 8,
                    remote_candidate_epoch: 3,
                    local_endpoint: Some(addr(7, 7)),
                }),
                ..facts()
            },
            BusinessPending::ExactSocketIdentityChanged,
        ),
        (
            with_direct(Some(CommittedValidation { validation_id: None, ..validation })),
            BusinessPending::ExactPathIdentityIncomplete,
        ),
        (BusinessFacts { entry: None, ..facts() }, BusinessPending::BudgetNotPublished),
        (
            BusinessFacts { transport_instance_id: 6, ..facts() },
            BusinessPending::BudgetPathIdentityStale,
        ),
        (
            BusinessFacts { entry: Some(BudgetEntry { budget: None, ..entry }), ..facts() },
            BusinessPending::ConfirmedBudgetWithheld,
        ),
        (
            BusinessFacts { publication_owner: 0, ..facts() },
            BusinessPending::UdpPublicationWithdrawn,
        ),
    ];
    for (facts, pending) in cases {
        assert_eq!(
            prepare_direct_business_send(&facts, addr(1, 1)),
            DirectBusinessBudgetGate::ManagedPending(pending)
        );
    }
    assert_eq!(BusinessPending::BudgetNotPublished.reason(), "budget_not_published");
}

#[test]
fn business_packet_is_checked_before_it_leaves() {
    let state = SendTokenState {
        current: true,
        authorized: Some(true),
        publication_owner: 11,
        transport_instance_id: 5,
        socket_local_endpoint: Some(addr(7, 7)),
    };
    assert_eq!(check_direct_business_packet(&token(), 1200, &state), None);
    assert_eq!(
        check_direct_business_packet(&token(), 1201, &state),
        Some(DirectBusinessUdpSendError::CiphertextTooLarge)
    );
    let stale = || Some(DirectBusinessUdpSendError::StaleToken);
    let revoked = || {
        Some(DirectBusinessUdpSendError::Io(
            "room send authorization expired or revoked".to_string(),
        ))
    };
    for (state, error) in [
        (SendTokenState { current: false, ..state }, stale()),
        (SendTokenState { authorized: Some(false), ..state }, revoked()),
        (SendTokenState { authorized: Some(false), current: false, ..state }, stale()),
        (SendTokenState { publication_owner: 12, ..state }, stale()),
        (SendTokenState { transport_instance_id: 6, ..state }, stale()),
        (SendTokenState { socket_local_endpoint: None, ..state }, stale()),
    ] {
        assert_eq!(check_direct_business_packet(&token(), 100, &state), error);
    }
    assert_eq!(judge_direct_business_send(SocketSend::Sent(10), 10), Ok(10));
    assert_eq!(
        judge_direct_business_send(SocketSend::Sent(9), 10),
        Err(DirectBusinessUdpSendError::Short { sent: 9, expected: 10 })
    );
    assert_eq!(
        judge_direct_business_send(SocketSend::TooLarge, 10),
        Err(DirectBusinessUdpSendError::LocalPacketTooLarge)
    );
    assert_eq!(
        judge_direct_business_send(SocketSend::WouldBlock, 10),
        Err(DirectBusinessUdpSendError::WouldBlock)
    );
    assert_eq!(
        judge_direct_business_send(SocketSend::Failed("no route".to_string()), 10),
        Err(DirectBusinessUdpSendError::Io("no route".to_string()))
    );
}

#[test]
fn path_is_measured_only_if_it_is_exact() {
    let f = facts();
    assert_eq!(reconcile_dplpmtud_path(&committed(), f.pair, f.socket, 5), Ok(identity()));
    assert_eq!(
        reconcile_dplpmtud_path(&CommittedBusinessPath { online: false, ..committed() }, f.pair, f.socket, 5),
        Err(DplpmtudCancel::ActivePathNotDirect)
    );
    assert_eq!(
        reconcile_dplpmtud_path(&CommittedBusinessPath { epoch: None, ..committed() }, f.pair, f.socket, 5),
        Err(DplpmtudCancel::PathIdentityUnbound)
    );
    assert_eq!(
        reconcile_dplpmtud_path(&committed(), None, f.socket, 5),
        Err(DplpmtudCancel::DirectPairMissing)
    );
    assert_eq!(
        reconcile_dplpmtud_path(&committed(), f.pair, None, 5),
        Err(DplpmtudCancel::LocalSocketMissing)
    );
    let elsewhere = Some(BusinessSocket {
        socket_index: 0,
        local_endpoint: None,
    });
    assert_eq!(
        reconcile_dplpmtud_path(&committed(), f.pair, elsewhere, 5),
        Err(DplpmtudCancel::LocalSocketChanged)
    );
    assert_eq!(DplpmtudCancel::DirectPairStale.reason(), "direct_pair_stale");
    let other = DplpmtudPathIdentity { socket_index: 1, ..identity() };
    assert!(plan_path_install(Some(other), identity(), true, true).reset);
    assert!(!plan_path_install(Some(identity()), identity(), true, true).reset);
    assert!(!plan_path_install(None, identity(), true, false).supported);
    assert_eq!(unsupported_reason(true), "no_fragment_probe_unsupported");
    assert_eq!(unsupported_reason(false), "capability_not_negotiated");
    assert!(tells_unsupported(false, DplpmtudInstallDecision::Unsupported, None, identity()));
    assert!(!tells_unsupported(
        false,
        DplpmtudInstallDecision::Unsupported,
        Some(identity()),
        identity()
    ));
    assert_eq!(
        plan_worker_start(DplpmtudInstallDecision::Unchanged, true, true),
        WorkerStart::Idle
    );
    assert_eq!(
        plan_worker_start(DplpmtudInstallDecision::Spawned, true, true),
        WorkerStart::Submit
    );
    assert_eq!(
        plan_worker_start(DplpmtudInstallDecision::Spawned, true, false),
        WorkerStart::Cancel(DplpmtudCancel::PeerVirtualIpNotIpv4)
    );
    assert_eq!(after_worker_submit(true), None);
    assert_eq!(
        after_worker_submit(false),
        Some(DplpmtudCancel::WorkerIngressCapacityExceeded)
    );
}

#[test]
fn reverse_route_leads_back_only_while_it_is_current() {
    let mut routes = DplpmtudAckReverseRoutes::new(1);
    assert!(!routes.remember_dplpmtud_ack_reverse_route(
        "a", 9, 2, true, 9, v6(7, 1), Some(addr(7, 7)), Some(0)
    ));
    assert!(!routes.remember_dplpmtud_ack_reverse_route(
        "a", 8, 2, true, 9, addr(1, 1), Some(addr(7, 7)), Some(0)
    ));
    assert!(routes.remember_dplpmtud_ack_reverse_route(
        "a", 9, 2, true, 9, addr(1, 1), Some(addr(7, 7)), Some(0)
    ));
    assert!(!routes.remember_dplpmtud_ack_reverse_route(
        "b", 9, 2, true, 9, addr(1, 1), Some(addr(7, 7)), Some(0)
    ));
    assert_eq!(
        routes.dplpmtud_ack_reverse_endpoint("a", 9, 2, true, addr(7, 7), 0),
        Some(addr(1, 1))
    );
    assert_eq!(routes.dplpmtud_ack_reverse_endpoint("a", 10, 2, true, addr(7, 7), 0), None);
    assert_eq!(routes.dplpmtud_ack_reverse_endpoint("a", 9, 3, true, addr(7, 7), 0), None);
    assert_eq!(routes.dplpmtud_ack_reverse_endpoint("a", 9, 2, false, addr(7, 7), 0), None);
    assert_eq!(routes.dplpmtud_ack_reverse_endpoint("a", 9, 2, true, addr(7, 8), 0), None);
    assert_eq!(routes.dplpmtud_ack_reverse_endpoint("a", 9, 2, true, addr(7, 7), 1), None);
    routes.forget("a");
    assert_eq!(routes.dplpmtud_ack_reverse_endpoint("a", 9, 2, true, addr(7, 7), 0), None);
}

#[test]
fn learners_are_kept_apart_and_forgotten_with_the_network() {
    let mut cache: LearningCache<Vec<u16>> = LearningCache::new();
    cache.reset_if_generation_changed(1);
    cache.entry(DestinationScope::Stun, vec![]).push(7);
    cache.entry(DestinationScope::Peer("a".to_string()), vec![]).push(8);
    cache.entry(DestinationScope::Peer("a".to_string()), vec![]).push(9);
    assert_eq!(cache.peer_scope("a", 1), Some(&vec![8, 9]));
    assert_eq!(cache.peer_scope("b", 1), None);
    assert_eq!(cache.peer_scope("a", 2), None);
    assert_eq!(cache.scope_for("a", 1), Some(&vec![8, 9]));
    assert_eq!(cache.scope_for("b", 1), Some(&vec![7]));
    assert_eq!(cache.scope_for("b", 2), None);
    cache.reset_if_generation_changed(2);
    assert_eq!(cache.peer_scope("a", 2), None);
    assert_eq!(cache.scope_for("a", 2), None);
    let difference = |a: u16, b: u16| b.wrapping_sub(a) as i16;
    assert_eq!(model_deltas(&[10, 12, 9], difference), vec![2, -3]);
    assert!(model_deltas(&[10], difference).is_empty());
    assert!(model_deltas(&[], difference).is_empty());
}

fn candidate(text: &str, source: CandidateSource, public: Option<SocketAddr>) -> IceCandidate {
    IceCandidate {
        endpoint: text.to_string(),
        public_endpoint: public,
        source,
        candidate_type: if matches!(source, CandidateSource::StunObserved) { 2 } else { 1 },
        priority: if matches!(source, CandidateSource::StunObserved) { 50 } else { 60 },
    }
}

#[test]
fn merged_candidates_are_listed_once_and_observations_win() {
    let mut list = vec![
        candidate("a", CandidateSource::Host, None),
        candidate("b", CandidateSource::Predicted, None),
    ];
    let more = vec![
        candidate("b", CandidateSource::StunObserved, Some(addr(1, 2))),
        candidate("a", CandidateSource::StunObserved, Some(addr(1, 1))),
        candidate("c", CandidateSource::Predicted, None),
    ];
    assert_eq!(merge_pool_candidates(&mut list, more), 2);
    let names: Vec<&str> = list.iter().map(|c| c.endpoint.as_str()).collect();
    assert_eq!(names, vec!["a", "b", "c"]);
    assert_eq!(list[0].source, CandidateSource::Host);
    assert_eq!(list[1].source, CandidateSource::StunObserved);
    assert_eq!((list[1].candidate_type, list[1].priority), (2, 60));
    drop_predicted_candidates(&mut list);
    assert_eq!(list.len(), 2);
}

#[test]
fn discovered_mappings_are_counted_on_their_socket() {
    let mut diagnostics = SocketDiagnostics::new(100, 99, true);
    diagnostics.reset_pool(2);
    let mut list = vec![];
    let more = vec![
        candidate("b", CandidateSource::StunObserved, Some(addr(1, 2))),
        candidate("c", CandidateSource::Host, None),
        candidate("d", CandidateSource::StunObserved, None),
    ];
    append_pool_candidates(&mut list, more, &mut diagnostics, 1);
    assert_eq!(list.len(), 3);
    let members = diagnostics.socket_pool_diagnostics();
    assert_eq!(members[0].stun_mappings_discovered, 0);
    assert_eq!(members[1].stun_mappings_discovered, 2);
    append_pool_candidates(&mut list, vec![], &mut diagnostics, 7);
    assert_eq!(diagnostics.socket_pool_diagnostics()[1].stun_mappings_discovered, 2);
}

#[test]
fn repetitions_are_counted_for_the_pool_alone() {
    let mut diagnostics = SocketDiagnostics::new(100, 99, true);
    diagnostics.reset_pool(2);
    diagnostics.attach_dynamic(100);
    let counter = SocketCounter::ProbeRetransmissionsSent;
    assert!(diagnostics.count_repetition(1, counter, true));
    assert!(!diagnostics.count_repetition(1, counter, false));
    assert!(diagnostics.count_repetition(100, counter, true));
    let members = diagnostics.socket_pool_diagnostics();
    assert_eq!(members[0].probe_retransmissions_sent, 0);
    assert_eq!(members[1].probe_retransmissions_sent, 1);
    assert!(members[2..].iter().all(|m| m.probe_retransmissions_sent == 0));
}

fn profile() -> NatProfile {
    NatProfile {
        udp_blocked: true,
        public_endpoint: None,
        public_ip_stable: None,
        public_port_stable: None,
        mapping_behavior: MappingBehavior::Unknown,
        filtering_behavior: FilteringBehavior::Unknown,
        likely_symmetric: None,
        prediction_candidate: true,
        predicted_endpoints: vec![addr(1, 1)],
        birthday_candidate: false,
        confidence: 20,
        observations: vec![],
    }
}

fn observation(server: SocketAddr) -> StunObservation {
    StunObservation {
        server: Some(server),
        mapped_address: Some(addr(9, 9)),
        rtt_ms: Some(3),
        error: None,
    }
}

#[test]
fn pool_socket_shows_that_udp_is_not_blocked() {
    let mut p = profile();
    let seen = vec![
        candidate("x", CandidateSource::StunObserved, Some(addr(1, 2))),
        candidate("y", CandidateSource::StunObserved, Some(addr(1, 3))),
    ];
    assert!(merge_pool_nat_profile(&mut p, &seen, vec![observation(addr(5, 5))]));
    assert!(!p.udp_blocked && p.birthday_candidate && !p.prediction_candidate);
    assert_eq!(p.public_endpoint, Some(addr(1, 2)));
    assert_eq!((p.public_ip_stable, p.public_port_stable), (Some(true), Some(false)));
    assert_eq!(p.mapping_behavior, MappingBehavior::AddressOrPortDependent);
    assert_eq!(p.confidence, 50);
    assert_eq!(p.observations.len(), 1);
    assert!(!merge_pool_nat_profile(&mut p, &seen, vec![observation(addr(5, 5))]));
    assert_eq!(p.observations.len(), 2);
    let nothing = vec![candidate("z", CandidateSource::Host, None)];
    assert!(!merge_pool_nat_profile(&mut p, &nothing, vec![observation(addr(5, 5))]));
    assert_eq!(p.observations.len(), 2);
}

#[test]
fn filtering_is_told_by_where_answers_come_from() {
    assert_eq!(stun_timeout_for_live_filtering_probe(1), 50_000_000);
    assert_eq!(stun_timeout_for_live_filtering_probe(100_000_000), 100_000_000);
    assert_eq!(stun_timeout_for_live_filtering_probe(u64::MAX), 300_000_000);
    assert_eq!(
        classify_live_filtering_response(addr(1, 1), addr(2, 1)),
        Some(FilteringBehavior::EndpointIndependent)
    );
    assert_eq!(
        classify_live_filtering_response(addr(1, 1), addr(1, 2)),
        Some(FilteringBehavior::AddressDependent)
    );
    assert_eq!(classify_live_filtering_response(addr(1, 1), addr(1, 1)), None);
    assert_eq!(on_first_filtering_probe(addr(1, 1), None), None);
    assert_eq!(
        on_second_filtering_probe(addr(1, 1), Some(addr(1, 2))),
        FilteringBehavior::AddressDependent
    );
    assert_eq!(
        on_second_filtering_probe(addr(1, 1), Some(addr(2, 2))),
        FilteringBehavior::Unknown
    );
    assert_eq!(on_second_filtering_probe(addr(1, 1), None), FilteringBehavior::Unknown);
    let mut p = profile();
    let servers = vec![addr(5, 5), addr(6, 6)];
    p.observations = vec![
        StunObservation { error: Some("timeout".to_string()), ..observation(addr(5, 5)) },
        observation(addr(4, 4)),
        observation(addr(6, 6)),
    ];
    assert_eq!(filtering_probe_server(&p, &servers), None);
    p.udp_blocked = false;
    p.mapping_behavior = MappingBehavior::EndpointIndependent;
    assert_eq!(filtering_probe_server(&p, &servers), Some(addr(6, 6)));
}

#[test]
fn stun_reply_is_judged_in_order() {
    let reply = DecodedReply {
        transaction_id: 5,
        message_type: BINDING_RESPONSE,
        error_code: None,
        reflexive: Some(addr(9, 9)),
    };
    let judge = |source, reply| judge_stun_reply(addr(1, 1), source, 5, reply);
    assert_eq!(judge(addr(1, 1), Some(reply)), Ok(addr(9, 9)));
    assert_eq!(judge(addr(1, 2), None), Err(StunQueryError::SourceMismatch));
    assert_eq!(judge(addr(1, 1), None), Err(StunQueryError::InvalidResponse));
    assert_eq!(
        judge(addr(1, 1), Some(DecodedReply { transaction_id: 6, ..reply })),
        Err(StunQueryError::TransactionMismatch)
    );
    assert_eq!(
        judge(
            addr(1, 1),
            Some(DecodedReply { message_type: 0x0111, error_code: Some(420), ..reply })
        ),
        Err(StunQueryError::ErrorResponse(420))
    );
    assert_eq!(
        judge(addr(1, 1), Some(DecodedReply { message_type: 1, ..reply })),
        Err(StunQueryError::UnexpectedType(1))
    );
    assert_eq!(
        judge(addr(1, 1), Some(DecodedReply { reflexive: None, ..reply })),
        Err(StunQueryError::NoMappedAddress)
    );
    let servers = vec![addr(1, 1), v6(3, 1), addr(2, 1)];
    assert_eq!(servers_of_family(&servers, v6(1, 0)), vec![v6(3, 1)]);
    assert_eq!(servers_of_family(&servers, addr(9, 0)), vec![addr(1, 1), addr(2, 1)]);
}

fn bound(name: &'static str, local: Option<SocketAddr>) -> BoundSocket<&'static str> {
    BoundSocket {
        handle: Arc::new(name),
        local_addr: local.ok_or_else(|| "gone".to_string()),
    }
}

type Transport = UdpTransport<&'static str, u8, u16, u32>;

fn transport() -> Transport {
    UdpTransport::new(
        5,
        bound("first", Some(addr(7, 7))),
        None,
        Some("eth0".to_string()),
        99,
        SocketLimits {
            dynamic_index_base: 100,
            max_dynamic: 4,
        },
    )
}

#[test]
fn transport_keeps_what_it_is_given() {
    let t = transport();
    assert_eq!(t.transport_instance_id(), 5);
    assert_eq!(t.outbound_interface(), Some("eth0"));
    assert_eq!(t.local_addr().ok(), Some(addr(7, 7)));
    assert!(t.ipv6_socket().is_none());
    assert_eq!(t.ipv6_local_addr(), None);
    assert_eq!(t.ipv6_socket_diagnostics(), None);
    assert_eq!((t.socket_count(), t.punch_socket_count()), (1, 1));
    assert_eq!(t.dynamic_socket_count(), 0);
    assert_eq!(t.socket_pool_diagnostics().len(), 1);
    assert_eq!(t.probe_rx_snapshot().probe_acks_received, 0);
    let t = t
        .with_ipv6_socket(bound("six", Some(v6(1, 6))))
        .with_local_node_id("me".to_string())
        .with_wireguard_transport(1)
        .with_peer_reflexive_observer(2)
        .with_validation_trigger(3);
    assert_eq!(t.ipv6_socket().map(|s| *s), Some("six"));
    assert_eq!(t.ipv6_local_addr(), Some(v6(1, 6)));
    assert_eq!(t.ipv6_socket_diagnostics().map(|d| d.socket_index), Some(99));
    assert_eq!(t.local_node_id.as_deref(), Some("me"));
    assert_eq!(t.wireguard_transport, Some(1));
    assert_eq!(t.peer_reflexive_ingress, Some(2));
    assert_eq!(t.validation_trigger, Some(3));
}

#[test]
fn ipv6_primary_doubles_as_the_ipv6_socket() {
    let limits = || SocketLimits {
        dynamic_index_base: 100,
        max_dynamic: 4,
    };
    let t: Transport = UdpTransport::from_bound(
        5,
        v6(0, 0),
        bound("first", Some(v6(0, 7))),
        None,
        Some("eth0".to_string()),
        99,
        limits(),
    );
    assert_eq!(t.ipv6_socket().map(|s| *s), Some("first"));
    assert_eq!(t.ipv6_local_addr(), Some(v6(0, 7)));
    assert_eq!(t.ipv6_local_addr(), t.local_addr().ok());
    assert_eq!(t.ipv6_socket_diagnostics().map(|d| d.socket_index), Some(99));
    assert_eq!(t.outbound_interface(), Some("eth0"));

    let t: Transport =
        UdpTransport::from_bound(5, v6(0, 0), bound("first", None), None, None, 99, limits());
    assert_eq!(t.ipv6_socket().map(|s| *s), Some("first"));
    assert_eq!(t.ipv6_local_addr(), None);

    let t: Transport = UdpTransport::from_bound(
        5,
        addr(7, 0),
        bound("first", Some(addr(7, 7))),
        Some(bound("six", Some(v6(1, 6)))),
        None,
        99,
        limits(),
    );
    assert_eq!(t.ipv6_local_addr(), Some(v6(1, 6)));

    let t: Transport =
        UdpTransport::from_bound(5, addr(7, 0), bound("first", None), None, None, 99, limits());
    assert!(t.ipv6_socket().is_none());
    assert_eq!(t.ipv6_local_addr(), None);
    assert_eq!(t.ipv6_socket_diagnostics(), None);
}

#[test]
fn building_keeps_interface_and_first_address() {
    let t = transport()
        .with_ipv6_socket(bound("six", Some(v6(1, 6))))
        .with_socket_pool(vec![bound("second", Some(addr(7, 8)))])
        .with_local_node_id("me".to_string())
        .with_wireguard_transport(1)
        .with_peer_reflexive_observer(2)
        .with_validation_trigger(3);
    assert_eq!(t.outbound_interface(), Some("eth0"));
    assert_eq!(t.local_addr().ok(), Some(addr(7, 7)));
    assert_eq!(t.transport_instance_id(), 5);
}

#[test]
fn transport_without_an_address_tells_why() {
    let t: Transport = UdpTransport::new(
        5,
        bound("first", None),
        None,
        None,
        99,
        SocketLimits {
            dynamic_index_base: 100,
            max_dynamic: 4,
        },
    );
    match t.local_addr() {
        Err(DaemonError::Network(text)) => {
            assert_eq!(text, "failed to read UDP local addr: gone")
        }
        Ok(_) => panic!("an address"),
    }
    assert_eq!(t.outbound_interface(), None);
}

#[test]
fn socket_pool_is_bounded_and_probes_only_while_active() {
    assert_eq!(socket_pool_size(0), 1);
    assert_eq!(socket_pool_size(3), 3);
    assert_eq!(socket_pool_size(9), 4);
    assert_eq!(pool_bind_address(addr(7, 7)), addr(7, 0));
    let loopback = SocketAddr::new(IpAddr::V4(Ipv4Addr::localhost()), 0);
    assert_eq!(ipv6_bind_address(loopback, Some(4)), v6(1, 4));
    assert_eq!(ipv6_bind_address(addr(7, 7), None), v6(0, 0));
    assert_eq!(ipv6_fallback_address(v6(1, 4)), v6(1, 0));
    let mut t = transport().with_socket_pool(vec![
        bound("second", Some(addr(7, 8))),
        bound("third", Some(addr(7, 9))),
    ]);
    assert_eq!(t.socket_count(), 3);
    assert!(!t.socket_pool_active());
    assert_eq!(t.punch_socket_count(), 1);
    t.set_socket_pool_active(true);
    assert!(t.socket_pool_active());
    assert_eq!(t.punch_socket_count(), 3);
    assert_eq!(t.active_socket(0).map(|s| *s.handle), Some("first"));
    assert_eq!(t.active_socket(2).and_then(|s| s.local()), Some(addr(7, 9)));
    assert!(t.active_socket(3).is_none());
    assert_eq!(t.socket_for_index_or_dynamic(2, false, None, None), Some(2));
    assert_eq!(t.socket_for_index_or_dynamic(3, true, None, Some(0)), None);
    assert_eq!(t.socket_for_index_or_dynamic(100, false, Some(100), Some(0)), None);
    assert_eq!(t.socket_for_index_or_dynamic(100, true, Some(100), Some(0)), Some(100));
    assert_eq!(t.socket_for_index_or_dynamic(100, true, None, Some(0)), Some(0));
}

#[test]
fn addresses_are_written_as_usual() {
    let text = |ip: IpAddr| String::from_utf8(ip.text_bytes()).expect("ascii");
    assert_eq!(text(addr(7, 0).ip()), "203.0.113.7");
    assert_eq!(text(v6(0, 0).ip()), "::");
    assert_eq!(text(v6(1, 0).ip()), "::1");
    assert_eq!(text(v6(0x2001_0db8_0000_0000_0001_0000_0000_0001, 0).ip()), "2001:db8::1:0:0:1");
    assert_eq!(text(v6(0x0000_0000_0000_0000_0000_ffff_cb00_7107, 0).ip()), "::ffff:203.0.113.7");
    assert_eq!(text(v6(0x2001_0db8 << 96, 0).ip()), "2001:db8::");
    assert_eq!(text(v6(0xabcd_0000_0001, 0).ip()), "::abcd:0:1");
    assert_eq!(
        text(v6(u128::MAX, 0).ip()),
        "ffff:ffff:ffff:ffff:ffff:ffff:ffff:ffff"
    );
    assert!(v6(0, 0).ip().is_unspecified());
    assert!(v6(1, 0).ip().is_loopback());
    assert!(!addr(1, 1).ip().is_loopback());
}

#[test]
fn histograms_add_raise_and_sort() {
    let mut rows = vec![(2usize, 5u32)];
    add_row(&mut rows, 1, 3);
    add_rows(&mut rows, &vec![(2, 1), (3, 1)]);
    sort_rows(&mut rows);
    assert_eq!(rows, vec![(1, 3), (2, 6), (3, 1)]);
    raise_rows(&mut rows, &vec![(1, 9), (2, 1)]);
    assert_eq!(sum_datagrams(&rows), 16);
    assert_eq!(clamp_u32(7), 7);
    assert_eq!(clamp_u32(usize::MAX), u32::MAX);
    assert_eq!(earlier_of(Some(3), None), Some(3));
    assert_eq!(earlier_of(Some(3), Some(2)), Some(2));
    assert_eq!(later_of(Some(3), Some(2)), Some(3));
    assert_eq!(later_of(None, None), None);
}

#[test]
fn tables_and_windows_hold_what_is_put_in() {
    let mut table: Table<u64, u64> = Table::new();
    assert_eq!(table.insert(1, 10), None);
    assert_eq!(table.insert(1, 11), Some(10));
    table.insert(2, 5);
    *table.entry(3, 7) += 1;
    assert_eq!(table.get(&3), Some(&8));
    evict_earliest(&mut table, 2);
    assert_eq!(table.len(), 1);
    assert!(table.contains(&1));
    assert_eq!(table.remove(&1), Some(11));
    assert_eq!(table.remove(&1), None);
    let mut log: WindowLog<u64> = WindowLog::new();
    log.record(4, 10);
    log.record(4, 20);
    assert_eq!((log.count(&4), log.count(&5)), (2, 0));
    assert_eq!(saturating_since(5, 9), 0);
    assert_eq!(saturating_since(9, 5), 4);
}

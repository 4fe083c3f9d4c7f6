use p2wlan_udp::birthday::{
    hard_hard_birthday_candidates, hard_hard_birthday_capacity_plan,
    hard_hard_birthday_packets_planned, hard_hard_birthday_socket_plan,
    hard_hard_birthday_wave_assignments, hard_hard_birthday_wave_count, HardHardSocketSnapshot,
};
use p2wlan_udp::birthday_generation::{
    check_birthday_start, collect_observed_ports, flatten_observations, select_observers,
    BirthdayBind, BirthdayDetach, BirthdayGeneration, BirthdayPhase, BirthdaySocket, BirthdayStart,
};
use p2wlan_udp::failure::{
    birthday_failure_priority, combine_birthday_failure_kind, BirthdaySweepFailureKind,
    DaemonError, ProbeSendFailure, ProbeSendFailureKind,
};
use p2wlan_udp::fresh_mapping::{FreshMappingRejection, FreshState, MappingObservation};
use p2wlan_udp::net::{IpAddr, Ipv4Addr, SocketAddr};
use p2wlan_udp::punch_reports::{record_birthday_worker_result, PunchSendReport};
use p2wlan_udp::socket_state::DynamicSocketAttachError;
use std::collections::{HashMap, HashSet};

#[test]
fn birthday_levels_are_exact_and_never_scan_the_full_port_ring() {
    let public_ip = IpAddr::V4(Ipv4Addr::new(198, 51, 100, 10));
    for (level, token) in [(64, "android"), (128, "android-2"), (256, "desktop")] {
        let candidates = hard_hard_birthday_candidates(
            public_ip,
            &[40_000, 40_001, 40_002, 40_003],
            level,
            token,
        );
        assert_eq!(candidates.len(), level);
        assert!(candidates
            .iter()
            .all(|candidate| { candidate.ip() == public_ip && candidate.port() != 0 }));
        let unique = candidates
            .iter()
            .map(SocketAddr::port)
            .collect::<HashSet<_>>();
        assert_eq!(unique.len(), level);
        assert!(level < usize::from(u16::MAX));
    }
}

#[test]
fn probe_failure_kinds_keep_precise_terminal_stop_reasons() {
    let cases = [
        (ProbeSendFailureKind::PhysicalSend, "send_error"),
        (
            ProbeSendFailureKind::NetworkGenerationChanged,
            "network_generation_changed",
        ),
        (
            ProbeSendFailureKind::CandidateEpochChanged,
            "candidate_epoch_changed",
        ),
        (
            ProbeSendFailureKind::LocalProfileGenerationChanged,
            "profile_generation_changed",
        ),
        (
            ProbeSendFailureKind::RemoteProfileGenerationChanged,
            "profile_generation_changed",
        ),
        (
            ProbeSendFailureKind::PeerSessionChanged,
            "peer_session_changed",
        ),
        (ProbeSendFailureKind::SessionRetired, "session_retired"),
        (
            ProbeSendFailureKind::SocketUnavailable,
            "socket_unavailable",
        ),
        (ProbeSendFailureKind::SocketRevoked, "socket_revoked"),
        (
            ProbeSendFailureKind::ProbeRegistrationFailed,
            "probe_registration_failed",
        ),
        (
            ProbeSendFailureKind::ProbeEncodingFailed,
            "probe_encoding_failed",
        ),
    ];
    for (probe_failure, stop_reason) in cases {
        let failure = BirthdaySweepFailureKind::from_probe_failure(probe_failure);
        assert_eq!(failure.stop_reason(), stop_reason);
        assert_eq!(
            BirthdaySweepFailureKind::from_stop_reason(stop_reason),
            Some(failure)
        );
    }
}

#[test]
fn birthday_two_waves_rotate_targets_without_socket_cartesian_product() {
    for (socket_count, level) in [(2, 64), (4, 128), (8, 256)] {
        let targets = (1..=level)
            .map(|port| SocketAddr::new(IpAddr::V4(Ipv4Addr::localhost()), port as u16))
            .collect::<Vec<_>>();
        assert_eq!(hard_hard_birthday_wave_count(socket_count), 2);
        let first = hard_hard_birthday_wave_assignments(socket_count, targets.clone(), 0);
        let second = hard_hard_birthday_wave_assignments(socket_count, targets.clone(), 1);
        assert_eq!(first.len(), socket_count);
        assert_eq!(second.len(), socket_count);
        for assignments in [&first, &second] {
            let flattened = assignments.iter().flatten().copied().collect::<Vec<_>>();
            assert_eq!(flattened.len(), level);
            assert_eq!(flattened.iter().collect::<HashSet<_>>().len(), level);
            assert!(flattened.iter().all(|target| targets.contains(target)));
        }
        let first_socket = first
            .iter()
            .enumerate()
            .flat_map(|(socket, assigned)| assigned.iter().map(move |target| (*target, socket)))
            .collect::<HashMap<_, _>>();
        let second_socket = second
            .iter()
            .enumerate()
            .flat_map(|(socket, assigned)| assigned.iter().map(move |target| (*target, socket)))
            .collect::<HashMap<_, _>>();
        assert!(targets
            .iter()
            .all(|target| first_socket[target] != second_socket[target]));
    }
    assert_eq!(hard_hard_birthday_wave_count(1), 1);
    assert_eq!(hard_hard_birthday_wave_count(0), 0);
    assert_eq!(hard_hard_birthday_packets_planned(2, 64), 128);
    assert_eq!(hard_hard_birthday_packets_planned(4, 96), 192);
    assert_eq!(hard_hard_birthday_packets_planned(1, 96), 96);
}

#[test]
fn birthday_capacity_plan_preserves_cap_and_exposes_downgrade() {
    assert_eq!(hard_hard_birthday_capacity_plan(64, 2), Some((64, 2)));
    assert_eq!(hard_hard_birthday_capacity_plan(128, 3), Some((64, 2)));
    assert_eq!(hard_hard_birthday_capacity_plan(256, 7), Some((128, 4)));
    assert_eq!(hard_hard_birthday_capacity_plan(256, 8), Some((256, 8)));
    assert_eq!(hard_hard_birthday_capacity_plan(256, 1), None);
}

#[test]
fn birthday_socket_plan_is_exact_and_fails_closed() {
    let partial = hard_hard_birthday_socket_plan(
        64,
        vec![
            HardHardSocketSnapshot {
                socket_index: 41,
                attached: true,
                usable: true,
            },
            HardHardSocketSnapshot {
                socket_index: 42,
                attached: true,
                usable: false,
            },
        ],
    );
    assert_eq!(partial.requested_socket_count, 2);
    assert_eq!(partial.attached_socket_count, 2);
    assert_eq!(partial.usable_socket_count, 1);
    assert_eq!(partial.unavailable_socket_count, 1);
    assert_eq!(partial.usable_socket_indices, vec![41]);
    assert_eq!(
        hard_hard_birthday_wave_count(partial.usable_socket_count),
        1
    );

    let detached = hard_hard_birthday_socket_plan(
        64,
        vec![
            HardHardSocketSnapshot {
                socket_index: 41,
                attached: false,
                usable: false,
            },
            HardHardSocketSnapshot {
                socket_index: 42,
                attached: false,
                usable: false,
            },
        ],
    );
    assert_eq!(detached.attached_socket_count, 0);
    assert_eq!(detached.usable_socket_count, 0);
    assert_eq!(detached.unavailable_socket_count, 2);
    assert!(detached.usable_socket_indices.is_empty());
    assert_eq!(
        hard_hard_birthday_wave_count(detached.usable_socket_count),
        0
    );

    let full = hard_hard_birthday_socket_plan(
        128,
        (0..4)
            .map(|offset| HardHardSocketSnapshot {
                socket_index: 100 + offset,
                attached: true,
                usable: true,
            })
            .collect(),
    );
    assert_eq!(full.requested_socket_count, 4);
    assert_eq!(full.attached_socket_count, 4);
    assert_eq!(full.usable_socket_count, 4);
    assert_eq!(full.unavailable_socket_count, 0);
    assert_eq!(hard_hard_birthday_wave_count(full.usable_socket_count), 2);

    let capped = hard_hard_birthday_socket_plan(
        256,
        (0..4)
            .map(|offset| HardHardSocketSnapshot {
                socket_index: 200 + offset,
                attached: true,
                usable: true,
            })
            .collect(),
    );
    assert_eq!(capped.requested_socket_count, 8);
    assert_eq!(capped.usable_socket_count, 4);
    assert_eq!(capped.unavailable_socket_count, 4);
    assert_eq!(capped.usable_socket_indices, vec![200, 201, 202, 203]);
}

#[test]
fn birthday_worker_collection_preserves_partial_stats_and_join_errors() {
    let mut wave_report = PunchSendReport::default();
    let mut wave_fully_completed = true;
    let mut failure_kind = None;
    record_birthday_worker_result(
        &mut wave_report,
        &mut wave_fully_completed,
        &mut failure_kind,
        Ok((
            2,
            Ok(PunchSendReport {
                packets_sent: 1,
                per_socket_sent: vec![(41, 2)],
                targets_assigned: 2,
                targets_attempted: 2,
                target_processing_completed: true,
                ..PunchSendReport::default()
            }),
        )),
    );
    assert_eq!(wave_report.packets_sent, 1);
    assert_eq!(wave_report.per_socket_sent, vec![(41, 2)]);
    assert!(wave_fully_completed);
    assert_eq!(failure_kind, None);

    record_birthday_worker_result(
        &mut wave_report,
        &mut wave_fully_completed,
        &mut failure_kind,
        Ok((
            3,
            Err(DaemonError::Network("injected worker error".to_string())),
        )),
    );
    assert_eq!(wave_report.packets_sent, 1);
    assert_eq!(wave_report.per_socket_sent, vec![(41, 2)]);
    assert_eq!(wave_report.targets_cancelled, 3);
    assert_eq!(wave_report.probe_path_errors, 1);
    assert!(!wave_fully_completed);
    assert_eq!(
        failure_kind,
        Some(BirthdaySweepFailureKind::ProbeRegistrationFailed)
    );

    let runtime = tokio::runtime::Builder::new_current_thread()
        .build()
        .expect("runtime");
    let join_error = runtime.block_on(async {
        let handle = tokio::spawn(async { std::future::pending::<()>().await });
        handle.abort();
        handle
            .await
            .expect_err("aborted worker must yield JoinError")
    });
    record_birthday_worker_result(
        &mut wave_report,
        &mut wave_fully_completed,
        &mut failure_kind,
        Err(join_error),
    );
    assert!(!wave_fully_completed);
    assert_eq!(failure_kind, Some(BirthdaySweepFailureKind::WorkerJoin));
    assert_eq!(wave_report.packets_sent, 1);
    assert_eq!(wave_report.per_socket_sent, vec![(41, 2)]);
}

#[test]
fn wave_outcome_does_not_depend_on_the_order_of_its_workers() {
    let failed = |kind: BirthdaySweepFailureKind| {
        Ok((
            1,
            Ok(PunchSendReport {
                target_processing_completed: true,
                failure_kind: Some(kind),
                ..PunchSendReport::default()
            }),
        ))
    };
    let done = || {
        Ok((
            1,
            Ok(PunchSendReport {
                target_processing_completed: true,
                ..PunchSendReport::default()
            }),
        ))
    };
    let refused = || Ok((1, Err(DaemonError::Network("gone".to_string()))));
    for order in [[0, 1, 2, 3], [3, 2, 1, 0], [2, 0, 3, 1]] {
        let mut report = PunchSendReport::default();
        let mut completed = true;
        let mut kind = None;
        for worker in order {
            let result = match worker {
                0 => failed(BirthdaySweepFailureKind::SocketRevoked),
                1 => failed(BirthdaySweepFailureKind::Send),
                2 => done(),
                _ => refused(),
            };
            record_birthday_worker_result(&mut report, &mut completed, &mut kind, result);
        }
        assert!(!completed);
        assert_eq!(kind, Some(BirthdaySweepFailureKind::SocketRevoked));
    }
    let mut report = PunchSendReport::default();
    let mut completed = true;
    let mut kind = None;
    record_birthday_worker_result(&mut report, &mut completed, &mut kind, done());
    record_birthday_worker_result(&mut report, &mut completed, &mut kind, done());
    assert!(completed);
    assert_eq!(kind, None);
    let unfinished = Ok((1, Ok(PunchSendReport::default())));
    record_birthday_worker_result(&mut report, &mut completed, &mut kind, unfinished);
    record_birthday_worker_result(&mut report, &mut completed, &mut kind, done());
    assert!(!completed);
    assert_eq!(kind, None);
}

#[test]
fn window_of_a_lower_level_is_a_prefix() {
    let ip = IpAddr::V4(Ipv4Addr::new(203, 0, 113, 7));
    let observed = [5000, 0, 5000, 5001];
    let high = hard_hard_birthday_candidates(ip, &observed, 256, "t");
    for level in [0, 1, 64, 128] {
        let low = hard_hard_birthday_candidates(ip, &observed, level, "t");
        assert_eq!(low[..], high[..level]);
    }
}

#[test]
fn waves_hand_out_the_planned_packets_evenly() {
    let targets: Vec<SocketAddr> = (1..=10)
        .map(|port| SocketAddr::new(IpAddr::V4(Ipv4Addr::new(203, 0, 113, 7)), port))
        .collect();
    for (sockets, longest, shortest) in [(1, 10, 10), (4, 3, 2), (8, 2, 1)] {
        let mut handed_out = 0;
        for wave in 0..hard_hard_birthday_wave_count(sockets) {
            let lists = hard_hard_birthday_wave_assignments(sockets, targets.clone(), wave);
            handed_out += lists.iter().map(Vec::len).sum::<usize>();
            assert_eq!(lists.iter().map(Vec::len).max(), Some(longest));
            assert_eq!(lists.iter().map(Vec::len).min(), Some(shortest));
        }
        assert_eq!(hard_hard_birthday_packets_planned(sockets, targets.len()), handed_out);
    }
}

#[test]
fn birthday_window_puts_observed_ports_first_and_skips_port_zero() {
    let ip = IpAddr::V4(Ipv4Addr::new(203, 0, 113, 7));
    let window = hard_hard_birthday_candidates(ip, &[5000, 0, 5000, 5001], 64, "t");
    assert_eq!(window[0], SocketAddr::new(ip, 5000));
    assert_eq!(window[1], SocketAddr::new(ip, 5001));
    assert_eq!(window.len(), 64);
    assert!(window.iter().all(|c| c.port() != 0));
}

#[test]
fn birthday_window_ports_follow_the_documented_hash() {
    let ip = IpAddr::V4(Ipv4Addr::new(198, 51, 100, 10));
    let mut seed: u64 = 0xcbf29ce484222325;
    for byte in "198.51.100.10android".bytes() {
        seed ^= u64::from(byte);
        seed = seed.wrapping_mul(0x100000001b3);
    }
    let mut stride = (seed % 65_534) | 1;
    while [3, 5, 17, 257].iter().any(|factor| stride % factor == 0) {
        stride += 2;
    }
    let first = ((seed % 65_535) % 65_535 + 1) as u16;
    let second = ((seed % 65_535 + stride) % 65_535 + 1) as u16;
    let window = hard_hard_birthday_candidates(ip, &[], 64, "android");
    assert_eq!(window[0].port(), first);
    assert_eq!(window[1].port(), second);
}

#[test]
fn birthday_window_stops_at_its_level() {
    let ip = IpAddr::V4(Ipv4Addr::new(203, 0, 113, 7));
    assert!(hard_hard_birthday_candidates(ip, &[1, 2, 3], 0, "t").is_empty());
    assert_eq!(hard_hard_birthday_candidates(ip, &[1, 2, 3], 2, "t").len(), 2);
}

#[test]
fn failure_combination_is_order_free_and_keeps_the_weightier() {
    let a = Some(BirthdaySweepFailureKind::Send);
    let b = Some(BirthdaySweepFailureKind::WorkerJoin);
    assert_eq!(combine_birthday_failure_kind(a, b), b);
    assert_eq!(combine_birthday_failure_kind(b, a), b);
    assert_eq!(combine_birthday_failure_kind(None, a), a);
    assert_eq!(combine_birthday_failure_kind(None, None), None);
    assert_ne!(
        birthday_failure_priority(BirthdaySweepFailureKind::Send),
        birthday_failure_priority(BirthdaySweepFailureKind::WorkerJoin)
    );
}

#[test]
fn probe_failures_count_only_physical_errors() {
    let plain = ProbeSendFailure::new(
        ProbeSendFailureKind::SocketRevoked,
        DaemonError::Network("gone".to_string()),
    );
    assert_eq!(plain.physical_send_errors, 0);
    let physical =
        ProbeSendFailure::with_physical_send_error(DaemonError::Network("io".to_string()), 48);
    assert_eq!(physical.kind, ProbeSendFailureKind::PhysicalSend);
    assert_eq!(physical.physical_send_errors, 1);
    assert_eq!(physical.physical_send_error_bytes, 48);
}

fn start() -> BirthdayStart {
    BirthdayStart {
        local_nat_requires_fresh_mapping: true,
        cancelled: false,
        direct: false,
        local_node_known: true,
        peer_key_known: true,
        observer_count: 3,
    }
}

#[test]
fn birthday_start_names_each_rejection() {
    assert_eq!(check_birthday_start(&start()), None);
    let mut s = start();
    s.local_nat_requires_fresh_mapping = false;
    assert_eq!(check_birthday_start(&s), Some(FreshMappingRejection::StableLocalNat));
    let mut s = start();
    s.direct = true;
    assert_eq!(check_birthday_start(&s), Some(FreshMappingRejection::Superseded));
    let mut s = start();
    s.peer_key_known = false;
    assert_eq!(check_birthday_start(&s), Some(FreshMappingRejection::MissingProbeKey));
    let mut s = start();
    s.observer_count = 2;
    assert_eq!(check_birthday_start(&s), Some(FreshMappingRejection::InsufficientSamples));
}

fn ip(last: u8) -> IpAddr {
    IpAddr::V4(Ipv4Addr::new(203, 0, 113, last))
}

fn observation(observed: SocketAddr) -> MappingObservation {
    MappingObservation {
        sequence: 0,
        observer: SocketAddr::new(ip(1), 3478),
        observed,
        sent_at_ms: 10,
        responded_at_ms: 20,
        local_endpoint: SocketAddr::new(ip(2), 5000),
    }
}

fn attached(index: usize) -> BirthdayBind {
    BirthdayBind::Attached(BirthdaySocket {
        socket_index: index,
        punch_generation: index as u64,
        socket_local_endpoint: SocketAddr::new(ip(2), index as u16),
    })
}

const CALM: FreshState = FreshState {
    cancelled: false,
    direct: false,
    network_generation: 9,
};

#[test]
fn birthday_generation_commits_all_sockets_and_pins_the_first() {
    let mut g = BirthdayGeneration::new(10, 9);
    assert_eq!(g.requested_level, 64);
    assert_eq!(g.requested_socket_count(), 2);
    assert!(g.on_bound(attached(100)).is_empty());
    assert!(g.on_bound(attached(101)).is_empty());
    assert_eq!(g.phase, BirthdayPhase::Measurement);
    let seen = vec![
        vec![observation(SocketAddr::new(ip(9), 7001))],
        vec![observation(SocketAddr::new(ip(9), 7000))],
    ];
    g.on_measured(&CALM, &seen, "token");
    assert_eq!(g.phase, BirthdayPhase::Commit);
    assert_eq!(g.public_port_samples, vec![7000, 7001]);
    assert_eq!(g.observation_count, 2);
    assert_eq!(g.candidate_endpoints.len(), 64);
    assert_eq!(g.candidate_endpoints[0], SocketAddr::new(ip(9), 7000));
    let (socket, pin) = g.next_commit();
    assert_eq!((socket.socket_index, pin), (100, true));
    g.on_commit(true, true);
    let (socket, pin) = g.next_commit();
    assert_eq!((socket.socket_index, pin), (101, false));
    g.on_commit(true, true);
    assert_eq!(g.phase, BirthdayPhase::Ready);
}

#[test]
fn birthday_generation_goes_on_with_fewer_sockets() {
    let mut g = BirthdayGeneration::new(256, 9);
    for i in 0..5 {
        assert!(g.on_bound(attached(100 + i)).is_empty());
    }
    let surplus = g.on_bound(BirthdayBind::Refused(DynamicSocketAttachError::CapacityRejected));
    assert_eq!(surplus, vec![104]);
    assert_eq!(g.level, 128);
    assert_eq!(g.attached.len(), 4);
    assert_eq!(g.phase, BirthdayPhase::Measurement);

    let mut none = BirthdayGeneration::new(256, 9);
    none.on_bound(attached(100));
    none.on_bound(BirthdayBind::Refused(DynamicSocketAttachError::CapacityRejected));
    assert_eq!(
        none.phase,
        BirthdayPhase::Rejected(
            FreshMappingRejection::CapacityRejected,
            BirthdayDetach::CapacityRejected
        )
    );
}

#[test]
fn birthday_generation_rejections_name_their_reason() {
    let ready = || {
        let mut g = BirthdayGeneration::new(64, 9);
        g.on_bound(attached(100));
        g.on_bound(attached(101));
        g
    };
    let mut g = ready();
    g.on_measured(&FreshState { cancelled: true, ..CALM }, &vec![vec![]], "t");
    assert_eq!(
        g.phase,
        BirthdayPhase::Rejected(FreshMappingRejection::Superseded, BirthdayDetach::Superseded)
    );
    let mut g = ready();
    g.on_measured(&CALM, &vec![vec![], vec![]], "t");
    assert_eq!(
        g.phase,
        BirthdayPhase::Rejected(
            FreshMappingRejection::InsufficientSamples,
            BirthdayDetach::NoObservation
        )
    );
    let mut g = ready();
    let moved = vec![vec![
        observation(SocketAddr::new(ip(9), 1)),
        observation(SocketAddr::new(ip(8), 1)),
    ]];
    g.on_measured(&CALM, &moved, "t");
    assert_eq!(
        g.phase,
        BirthdayPhase::Rejected(
            FreshMappingRejection::PublicIpChanged,
            BirthdayDetach::PublicIpChanged
        )
    );
    let mut g = BirthdayGeneration::new(64, 9);
    g.on_bound(BirthdayBind::Failed);
    assert_eq!(
        g.phase,
        BirthdayPhase::Rejected(FreshMappingRejection::BindFailed, BirthdayDetach::BindFailed)
    );
    let mut g = BirthdayGeneration::new(64, 9);
    g.on_bound(BirthdayBind::NoLocalEndpoint);
    assert_eq!(
        g.phase,
        BirthdayPhase::Rejected(FreshMappingRejection::BindFailed, BirthdayDetach::NoLocalEndpoint)
    );
    let mut g = BirthdayGeneration::new(64, 9);
    g.on_bound(BirthdayBind::Refused(DynamicSocketAttachError::Superseded));
    assert_eq!(
        g.phase,
        BirthdayPhase::Rejected(FreshMappingRejection::Superseded, BirthdayDetach::AttachFailed)
    );
    assert_eq!(BirthdayDetach::CommitFailed.reason(), "hard_hard_birthday_commit_failed");
}

#[test]
fn observed_ports_are_sorted_and_distinct() {
    let all = flatten_observations(&vec![
        vec![observation(SocketAddr::new(ip(9), 30)), observation(SocketAddr::new(ip(9), 10))],
        vec![],
        vec![observation(SocketAddr::new(ip(9), 30)), observation(SocketAddr::new(ip(9), 20))],
    ]);
    assert_eq!(all.len(), 4);
    assert_eq!(collect_observed_ports(&all), vec![10, 20, 30]);
}

#[test]
fn first_socket_asks_four_observers_and_others_one() {
    let observers: Vec<SocketAddr> = (1..=5).map(|i| SocketAddr::new(ip(i), 3478)).collect();
    assert_eq!(select_observers(&observers, 0), observers[..4].to_vec());
    assert_eq!(select_observers(&observers, 1), vec![observers[1]]);
    assert_eq!(select_observers(&observers, 7), vec![observers[2]]);
}

#[test]
fn windows_reach_their_level_whatever_the_token() {
    let ip = IpAddr::V4(Ipv4Addr::new(203, 0, 113, 1));
    for (token, first_ports) in [
        ("t134", [36_377, 63_880, 25_848]),
        ("t1887", [22_931, 4_947, 52_498]),
    ] {
        for level in [64, 128, 256] {
            let window = hard_hard_birthday_candidates(ip, &[], level, token);
            let ports: HashSet<u16> = window.iter().map(|c| c.port()).collect();
            assert_eq!(ports.len(), level);
            assert_eq!([window[0].port(), window[1].port(), window[2].port()], first_ports);
        }
    }
    let all = hard_hard_birthday_candidates(ip, &[7], 65_535, "t134");
    assert_eq!(all.iter().map(|c| c.port()).collect::<HashSet<u16>>().len(), 65_535);
    assert_eq!(hard_hard_birthday_candidates(ip, &[7], usize::MAX, "t134").len(), 65_535);
}

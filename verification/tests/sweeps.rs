use p2wlan_udp::birthday::HardHardSocketSnapshot;
use p2wlan_udp::birthday_sweep::{
    book_wave_live, hard_hard_birthday_stop_reason, BirthdaySweep, BirthdaySweepError, BirthdaySweepStart,
    SessionFence, SessionState, WaveEnd, WaveStart,
};
use p2wlan_udp::failure::{BirthdayStopReason, BirthdaySweepFailureKind, ProbeSendFailureKind};
use p2wlan_udp::net::{IpAddr, Ipv4Addr, SocketAddr};
use p2wlan_udp::probe_budget::OutboundProbeAdmission;
use p2wlan_udp::punch_reports::{
    apply_live_birthday_counters, finalize_physical_send_failure, merge_punch_send_reports,
    normalize_physical_send_dimensions,
    publish_birthday_sweep_progress, update_live_birthday_counters, BirthdayDegradation,
    BirthdaySweepReport, LiveBirthdayCounters, LiveBirthdayProgress, PunchSendReport,
};
use p2wlan_udp::socket_sweep::{
    check_profile_fence, mirror_progress, unavailable_sweep_report, BudgetReason, FailedProbe,
    ProbeRound, SentProbe, SocketSweep, SweepFence, SweepPhase, SweepState,
};

fn addr(port: u16) -> SocketAddr {
    SocketAddr::new(IpAddr::V4(Ipv4Addr::new(203, 0, 113, 1)), port)
}

const FENCE: SweepFence = SweepFence {
    network_generation: 9,
    remote_candidate_epoch: 3,
    direct_commit_seq: Some(4),
    profile: Some((1, 2)),
    has_token: true,
};

const STATE: SweepState = SweepState {
    winner_selected: false,
    network_generation: 9,
    remote_candidate_epoch: 3,
    plan: Some((1, 2)),
    token_current: true,
    direct: false,
    direct_commit_seq: Some(4),
};

fn sweep(ports: &[u16]) -> SocketSweep {
    let endpoints: Vec<SocketAddr> = ports.iter().map(|p| addr(*p)).collect();
    let mut s = SocketSweep::new(
        41,
        endpoints.len(),
        vec![ProbeRound {
            delay_before: 6,
            endpoints,
        }],
        FENCE,
    );
    assert_eq!(s.begin_round(9), Some(6));
    s
}

fn sent(datagrams: u8, errors: u8) -> SentProbe {
    SentProbe {
        datagrams_sent: datagrams,
        physical_send_errors: errors,
        physical_bytes_sent: 100,
        physical_send_error_bytes: 0,
        socket_index: 41,
        first_send_at_ms: Some(70),
    }
}

fn probe_next(s: &mut SocketSweep) -> SocketAddr {
    let target = s.next_target(&STATE).expect("a target");
    assert!(s.on_quarantine(false));
    assert_eq!(s.on_admission(OutboundProbeAdmission::Accepted), Some(target));
    target
}

#[test]
fn sweep_books_every_outcome() {
    let mut s = sweep(&[1, 2, 3, 4]);
    assert_eq!(probe_next(&mut s), addr(1));
    s.on_sent(sent(2, 1));
    s.next_target(&STATE);
    assert!(!s.on_quarantine(true));
    assert_eq!(probe_next(&mut s), addr(3));
    s.on_failed(FailedProbe {
        kind: ProbeSendFailureKind::PhysicalSend,
        physical_send_errors: 1,
        physical_send_error_bytes: 50,
    });
    s.next_target(&STATE);
    s.on_quarantine(false);
    assert_eq!(s.on_admission(OutboundProbeAdmission::PeerRateLimited), None);
    assert_eq!(s.next_target(&STATE), None);
    assert_eq!(s.begin_round(9), None);
    assert_eq!(s.phase, SweepPhase::Finished);
    let c = s.counters;
    assert_eq!((c.targets_examined, c.targets_attempted), (4, 4));
    assert_eq!((c.logical_probes_attempted, c.logical_probes_sent), (2, 1));
    assert_eq!((c.logical_probe_send_failures, c.budget_skipped), (1, 2));
    assert_eq!((c.physical_datagrams_sent, c.physical_send_errors), (2, 2));
    assert_eq!(c.partial_physical_send_errors, 1);
    assert_eq!(c.physical_send_error_bytes, 50);
    assert!(c.completed);
    assert_eq!(
        c.last_budget_reason,
        Some(BudgetReason::Limited(OutboundProbeAdmission::PeerRateLimited))
    );
    let report = s.finish();
    assert_eq!(report.packets_sent, 1);
    assert_eq!(report.sent_target_endpoints, vec![addr(1)]);
    assert_eq!(report.targets_assigned, 4);
}

#[test]
fn sweep_ends_with_its_fences() {
    let cases = [
        (
            SweepState { network_generation: 8, ..STATE },
            Some(BirthdaySweepFailureKind::NetworkGenerationChanged),
        ),
        (
            SweepState { remote_candidate_epoch: 4, ..STATE },
            Some(BirthdaySweepFailureKind::CandidateEpochChanged),
        ),
        (
            SweepState { plan: Some((1, 3)), ..STATE },
            Some(BirthdaySweepFailureKind::ProfileGenerationChanged),
        ),
        (
            SweepState { plan: None, ..STATE },
            Some(BirthdaySweepFailureKind::PeerSessionChanged),
        ),
        (
            SweepState { token_current: false, ..STATE },
            Some(BirthdaySweepFailureKind::SessionRetired),
        ),
        (SweepState { direct: true, ..STATE }, None),
        (SweepState { direct_commit_seq: None, ..STATE }, None),
        (SweepState { winner_selected: true, ..STATE }, None),
    ];
    for (state, kind) in cases {
        let mut s = sweep(&[1, 2]);
        assert_eq!(s.next_target(&state), None);
        assert_eq!(s.counters.failure_kind, kind);
        assert!(!s.counters.completed);
        assert_eq!(s.counters.targets_attempted, 0);
        assert_eq!(s.phase == SweepPhase::Finished, state.winner_selected);
    }
    let mut s = sweep(&[1]);
    probe_next(&mut s);
    s.on_failed(FailedProbe {
        kind: ProbeSendFailureKind::SocketRevoked,
        physical_send_errors: 0,
        physical_send_error_bytes: 0,
    });
    assert_eq!(s.phase, SweepPhase::Finished);
    assert_eq!(s.counters.failure_kind, Some(BirthdaySweepFailureKind::SocketRevoked));
    assert_eq!(s.counters.probe_path_errors, 1);
}

#[test]
fn profile_fence_tells_which_side_moved() {
    assert_eq!(check_profile_fence(None, Some((1, 2))), None);
    assert_eq!(check_profile_fence(Some((1, 2)), Some((1, 2))), None);
    assert_eq!(
        check_profile_fence(Some((1, 2)), None),
        Some(ProbeSendFailureKind::PeerSessionChanged)
    );
    assert_eq!(
        check_profile_fence(Some((1, 2)), Some((3, 2))),
        Some(ProbeSendFailureKind::LocalProfileGenerationChanged)
    );
    assert_eq!(
        check_profile_fence(Some((1, 2)), Some((1, 3))),
        Some(ProbeSendFailureKind::RemoteProfileGenerationChanged)
    );
    let report = unavailable_sweep_report(3, ProbeSendFailureKind::SocketUnavailable);
    assert_eq!(report.packets_sent, 0);
    assert_eq!(report.failure_kind, Some(BirthdaySweepFailureKind::SocketUnavailable));
    assert_eq!(report.targets_assigned, 3);
    assert_eq!(report.targets_cancelled, 3);
}

fn live() -> LiveBirthdayProgress {
    LiveBirthdayProgress {
        counters: LiveBirthdayCounters {
            targets_assigned: 0,
            targets_examined: 0,
            targets_attempted: 0,
            targets_cancelled: 0,
            budget_skipped: 0,
            logical_probes_attempted: 0,
            logical_probes_sent: 0,
            logical_probe_send_failures: 0,
            physical_datagrams_sent: 0,
            physical_bytes_sent: 0,
            physical_send_errors: 0,
            physical_send_error_bytes: 0,
            partial_physical_send_errors: 0,
            probe_path_errors: 0,
            workers_completed: 0,
        },
        sent_target_endpoints: vec![],
        per_socket_sent: vec![],
        first_send_at_ms: None,
        last_send_at_ms: None,
    }
}

#[test]
fn live_progress_only_raises_a_report() {
    let mut progress = live();
    let mut s = sweep(&[1]);
    let before = s.counters;
    probe_next(&mut s);
    s.on_sent(sent(2, 0));
    mirror_progress(&mut progress, &before, &s.counters);
    assert_eq!(progress.counters.targets_examined, 1);
    assert_eq!(progress.counters.targets_attempted, 1);
    assert_eq!(progress.counters.logical_probes_attempted, 1);
    assert_eq!(progress.counters.logical_probes_sent, 0);
    update_live_birthday_counters(Some(&mut progress), |c| LiveBirthdayCounters {
        budget_skipped: 7,
        logical_probes_sent: 1,
        ..c
    });
    update_live_birthday_counters(None, |c| c);
    let mut report = PunchSendReport::default();
    report.logical_probes_sent = 5;
    apply_live_birthday_counters(&mut report, &progress);
    assert_eq!(report.logical_probes_sent, 5);
    assert_eq!(report.budget_skipped, 7);
    let published =
        publish_birthday_sweep_progress(&BirthdaySweepReport::default(), &report, &progress);
    assert_eq!(published.aggregate.budget_skipped, 7);
    assert_eq!(published.aggregate.logical_probes_sent, 5);
}

#[test]
fn live_progress_applies_once() {
    let mut progress = live();
    progress.counters.physical_bytes_sent = 90;
    progress.counters.logical_probes_sent = 3;
    progress.per_socket_sent = vec![(43, 1), (41, 5)];
    progress.sent_target_endpoints = vec![addr(2), addr(3)];
    progress.first_send_at_ms = Some(4);
    progress.last_send_at_ms = Some(6);
    let mut report = PunchSendReport::default();
    report.packets_sent = 2;
    report.per_socket_sent = vec![(42, 2), (41, 3)];
    report.sent_target_endpoints = vec![addr(1), addr(2)];
    report.first_send_at_ms = Some(5);
    apply_live_birthday_counters(&mut report, &progress);
    assert_eq!(report.per_socket_sent, vec![(41, 5), (42, 2), (43, 1)]);
    assert_eq!(report.physical_datagrams_sent, 8);
    assert_eq!(report.sent_target_endpoints, vec![addr(1), addr(2), addr(3)]);
    assert_eq!(report.unique_target_endpoints, 3);
    assert_eq!((report.packets_sent, report.logical_probes_sent), (3, 3));
    assert_eq!((report.first_send_at_ms, report.last_send_at_ms), (Some(4), Some(6)));
    let once = format!("{report:?}");
    apply_live_birthday_counters(&mut report, &progress);
    assert_eq!(format!("{report:?}"), once);
}

#[test]
fn merged_reports_add_up() {
    let mut a = PunchSendReport::default();
    a.packets_sent = 2;
    a.physical_datagrams_sent = 3;
    a.per_socket_sent = vec![(41, 3)];
    a.sent_target_endpoints = vec![addr(1)];
    a.first_send_at_ms = Some(9);
    let mut b = PunchSendReport::default();
    b.packets_sent = 1;
    b.physical_datagrams_sent = 2;
    b.per_socket_sent = vec![(42, 1), (41, 1)];
    b.sent_target_endpoints = vec![addr(1), addr(2)];
    b.first_send_at_ms = Some(7);
    merge_punch_send_reports(&mut a, b);
    assert_eq!(a.packets_sent, 3);
    assert_eq!(a.first_send_at_ms, Some(7));
    let mut rows = a.per_socket_sent.clone();
    rows.sort_unstable();
    assert_eq!(rows, vec![(41, 4), (42, 1)]);
    assert_eq!(a.sent_target_endpoints.len(), 2);
    normalize_physical_send_dimensions(&mut a);
    assert_eq!(a.physical_datagrams_sent, 5);
}

const SESSION: SessionFence = SessionFence {
    network_generation: 9,
    remote_candidate_epoch: 3,
    profile: (1, 2),
    direct_commit_seq: Some(4),
};

const NOW: SessionState = SessionState {
    winner_selected: false,
    direct: false,
    network_generation: 9,
    peer_session_current: true,
    remote_candidate_epoch: 3,
    plan: Some((1, 2)),
    token_current: true,
    direct_commit_seq: Some(4),
};

#[test]
fn session_stops_for_the_weightiest_reason() {
    let failure = |kind| Some(BirthdayStopReason::Failure(kind));
    let cases = [
        (NOW, None),
        (
            SessionState { winner_selected: true, direct: true, ..NOW },
            Some(BirthdayStopReason::WinnerSelected),
        ),
        (
            SessionState { direct: true, network_generation: 1, ..NOW },
            Some(BirthdayStopReason::DirectConfirmed),
        ),
        (
            SessionState { network_generation: 1, peer_session_current: false, ..NOW },
            failure(BirthdaySweepFailureKind::NetworkGenerationChanged),
        ),
        (
            SessionState { peer_session_current: false, remote_candidate_epoch: 1, ..NOW },
            failure(BirthdaySweepFailureKind::PeerSessionChanged),
        ),
        (
            SessionState { remote_candidate_epoch: 1, plan: None, ..NOW },
            failure(BirthdaySweepFailureKind::CandidateEpochChanged),
        ),
        (
            SessionState { plan: None, token_current: false, ..NOW },
            failure(BirthdaySweepFailureKind::ProfileGenerationChanged),
        ),
        (
            SessionState { token_current: false, direct_commit_seq: None, ..NOW },
            failure(BirthdaySweepFailureKind::SessionRetired),
        ),
        (
            SessionState { direct_commit_seq: None, ..NOW },
            Some(BirthdayStopReason::DirectCommitSeqChanged),
        ),
    ];
    for (state, reason) in cases {
        assert_eq!(hard_hard_birthday_stop_reason(&SESSION, &state), reason);
    }
}

fn socket(socket_index: usize, usable: bool) -> HardHardSocketSnapshot {
    HardHardSocketSnapshot {
        socket_index,
        attached: true,
        usable,
    }
}

fn running(level: usize, sockets: Vec<HardHardSocketSnapshot>) -> BirthdaySweep {
    let targets = vec![addr(1), addr(2), addr(0), addr(1), addr(3)];
    match BirthdaySweep::plan(&targets, level, 5, 5, sockets, 256) {
        BirthdaySweepStart::Running(sweep) => sweep,
        BirthdaySweepStart::Finished(_) => panic!("not running"),
    }
}

fn wave_of(s: &mut BirthdaySweep) -> Vec<Vec<SocketAddr>> {
    match s.begin_wave(None) {
        WaveStart::Probe(lists) => lists,
        _ => panic!("no wave"),
    }
}

#[test]
fn birthday_session_runs_its_two_waves() {
    let mut s = running(64, vec![socket(41, true), socket(42, true)]);
    assert_eq!(s.birthday.effective_target_count, 3);
    assert_eq!((s.birthday.waves_planned, s.birthday.packets_planned), (2, 6));
    let first = wave_of(&mut s);
    assert_eq!(first[0].len() + first[1].len(), 3);
    let mut report = PunchSendReport::default();
    report.packets_sent = 3;
    report.logical_probes_attempted = 3;
    assert_eq!(s.finish_wave(report, true, None, None), WaveEnd::Continue);
    let second = wave_of(&mut s);
    assert!(first[0].iter().all(|t| !second[0].contains(t)));
    let mut report = PunchSendReport::default();
    report.packets_sent = 3;
    report.logical_probes_attempted = 3;
    assert_eq!(s.finish_wave(report, true, None, None), WaveEnd::Continue);
    assert!(matches!(s.begin_wave(None), WaveStart::Done));
    assert_eq!(s.conclude(), Ok(()));
    assert_eq!(s.birthday.stop_reason, Some(BirthdayStopReason::Completed));
    assert_eq!(s.birthday.waves_completed, 2);
}

#[test]
fn waves_are_booked_live() {
    let mut s = running(64, vec![socket(41, true), socket(42, true)]);
    let mut progress = live();
    progress.counters.targets_cancelled = 4;
    wave_of(&mut s);
    s.book_wave_started(&mut progress);
    book_wave_live(&mut progress, 0, 0, 1);
    book_wave_live(&mut progress, 0, 0, 1);
    let mut report = PunchSendReport::default();
    report.packets_sent = 1;
    report.logical_probes_attempted = 1;
    report.targets_attempted = 1;
    s.book_wave_closed(&report, &mut progress);
    assert_eq!(
        progress.counters,
        LiveBirthdayCounters {
            targets_assigned: 3,
            targets_cancelled: 6,
            workers_completed: 2,
            ..live().counters
        }
    );
    assert_eq!(s.finish_wave(report, true, None, None), WaveEnd::Continue);
    assert_eq!((s.aggregate.targets_assigned, s.aggregate.targets_cancelled), (3, 2));
    book_wave_live(&mut progress, usize::MAX, u32::MAX, 0);
    assert_eq!(progress.counters.targets_assigned, u32::MAX);
    assert_eq!(progress.counters.targets_cancelled, u32::MAX);
}

#[test]
fn sends_are_recorded_live() {
    let mut progress = live();
    progress.record_primary_success(41, addr(1), 9, 100);
    progress.record_compatibility_success(41, 10, 30);
    progress.record_primary_success(42, addr(1), 8, 100);
    progress.record_compatibility_error(30);
    progress.record_primary_error(100);
    assert_eq!(
        progress.counters,
        LiveBirthdayCounters {
            logical_probes_sent: 2,
            logical_probe_send_failures: 1,
            physical_datagrams_sent: 3,
            physical_bytes_sent: 230,
            physical_send_errors: 2,
            physical_send_error_bytes: 130,
            partial_physical_send_errors: 1,
            ..live().counters
        }
    );
    assert_eq!(progress.per_socket_sent, vec![(41, 2), (42, 1)]);
    assert_eq!(progress.sent_target_endpoints, vec![addr(1)]);
    assert_eq!((progress.first_send_at_ms, progress.last_send_at_ms), (Some(8), Some(10)));
}

#[test]
fn birthday_session_without_targets_or_sockets_is_over() {
    match BirthdaySweep::plan(&vec![addr(0)], 64, 0, 0, vec![socket(41, true)], 256) {
        BirthdaySweepStart::Finished(report) => assert_eq!(
            report.birthday.and_then(|b| b.stop_reason),
            Some(BirthdayStopReason::EmptyTargets)
        ),
        BirthdaySweepStart::Running(_) => panic!("running"),
    }
    match BirthdaySweep::plan(&vec![addr(1)], 64, 0, 0, vec![socket(41, false)], 256) {
        BirthdaySweepStart::Finished(report) => assert_eq!(
            report.failure_kind,
            Some(BirthdaySweepFailureKind::SocketUnavailable)
        ),
        BirthdaySweepStart::Running(_) => panic!("running"),
    }
    let s = running(64, vec![socket(41, true), socket(42, false)]);
    assert_eq!(
        s.birthday.degraded_reason,
        Some(BirthdayDegradation::PartialSocketUnavailable)
    );
    assert_eq!(s.socket(0), 41);
}

#[test]
fn birthday_session_ends_for_each_reason() {
    let kind = BirthdaySweepFailureKind::SessionRetired;
    let mut s = running(64, vec![socket(41, true), socket(42, true)]);
    wave_of(&mut s);
    assert_eq!(
        s.finish_wave(PunchSendReport::default(), true, Some(kind), None),
        WaveEnd::Failed(BirthdaySweepError::WorkerStopped(kind))
    );
    let mut s = running(64, vec![socket(41, true), socket(42, true)]);
    wave_of(&mut s);
    let mut skipped = PunchSendReport::default();
    skipped.budget_skipped = 3;
    assert_eq!(s.finish_wave(skipped, true, None, None), WaveEnd::Stopped);
    assert_eq!(s.birthday.stop_reason, Some(BirthdayStopReason::BudgetExhausted));
    let mut s = running(64, vec![socket(41, true), socket(42, true)]);
    wave_of(&mut s);
    let mut report = PunchSendReport::default();
    report.packets_sent = 1;
    report.epoch_budget_exhausted = true;
    assert_eq!(s.finish_wave(report, true, None, None), WaveEnd::Stopped);
    assert_eq!(s.birthday.stop_reason, Some(BirthdayStopReason::EpochBudgetExhausted));
    let mut s = running(64, vec![socket(41, true), socket(42, true)]);
    wave_of(&mut s);
    let mut report = PunchSendReport::default();
    report.packets_sent = 1;
    report.logical_probes_attempted = 1;
    s.finish_wave(report, true, None, None);
    match s.begin_wave(Some(BirthdayStopReason::Failure(kind))) {
        WaveStart::Failed(error) => {
            assert_eq!(error.message(), format!("hard-hard birthday stopped: {}", kind.stop_reason()))
        }
        _ => panic!("not failed"),
    }
    let mut s = running(64, vec![socket(41, true)]);
    wave_of(&mut s);
    let mut failed = PunchSendReport::default();
    failed.logical_probes_attempted = 3;
    failed.logical_probe_send_failures = 3;
    failed.physical_send_errors = 3;
    assert_eq!(s.finish_wave(failed, true, None, None), WaveEnd::Continue);
    assert_eq!(s.conclude(), Err(BirthdaySweepError::AllSendsFailed));
}

#[test]
fn sweep_that_only_met_send_errors_failed_to_send() {
    let failed = || PunchSendReport {
        logical_probes_attempted: 2,
        logical_probe_send_failures: 2,
        physical_send_errors: 2,
        ..PunchSendReport::default()
    };
    let mut report = failed();
    finalize_physical_send_failure(&mut report);
    assert_eq!(report.failure_kind, Some(BirthdaySweepFailureKind::Send));
    let mut report = PunchSendReport { logical_probes_sent: 1, ..failed() };
    finalize_physical_send_failure(&mut report);
    assert_eq!(report.failure_kind, None);
    let kept = Some(BirthdaySweepFailureKind::SocketUnavailable);
    let mut report = PunchSendReport { failure_kind: kept, ..failed() };
    finalize_physical_send_failure(&mut report);
    assert_eq!(report.failure_kind, kept);
}

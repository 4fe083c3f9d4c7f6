use p2wlan_udp::admission::{
    AuthenticatedPunchAdmission, AuthenticatedPunchGate, AuthenticatedPunchLimits,
    NatMaintainerBudget, PunchPacketKind, TriggeredChecks,
};
use p2wlan_udp::heartbeat::{
    count_beat, heartbeat_continues, heartbeat_owner_gate, settle_beat, BeatPhase, BeatReason,
    HeartbeatBeat, HeartbeatGates, RelayBackoffHeartbeatRegistry,
};
use p2wlan_udp::heartbeat_budget::{
    RelayBackoffHeartbeatBudget, RelayBackoffHeartbeatReservationRejection,
    RelayBackoffHeartbeatTargetGroup, RELAY_BACKOFF_HEARTBEAT_BUDGET_WINDOW,
    RELAY_BACKOFF_HEARTBEAT_SERVICE_SLOT,
};
use p2wlan_udp::nat_maintainer::{
    Binding, MaintainerPhase, MaintainerStop, MaintainerWorker, NatMaintainerLeaseStatus,
    NatMaintainers,
};
use p2wlan_udp::net::{IpAddr, Ipv4Addr, SocketAddr};
use p2wlan_udp::pending::ProbeSendResult;
use p2wlan_udp::probe_budget::{
    check_outbound_connectivity_probe, outbound_probe_admission_reason,
    settle_outbound_connectivity_probe, OutboundProbeAdmission, OutboundProbeBudget,
    OutboundProbeCheck, OUTBOUND_PROBE_BUDGET_PER_PEER, OUTBOUND_PROBE_BUDGET_PER_PEER_REMOTE_IP,
    OUTBOUND_PROBE_BUDGET_WINDOW, OUTBOUND_PROBE_PERSISTENT_PER_PEER_SOCKET,
};

const SECOND: u64 = 1_000_000_000;

fn addr(last: u8, port: u16) -> SocketAddr {
    SocketAddr::new(IpAddr::V4(Ipv4Addr::new(203, 0, 113, last)), port)
}

#[test]
fn probe_budget_holds_back_one_address_before_the_peer() {
    let mut budget = OutboundProbeBudget::new();
    for i in 0..OUTBOUND_PROBE_BUDGET_PER_PEER_REMOTE_IP {
        assert_eq!(
            budget.admit_probe("p", addr(1, 9), i % 4, 0),
            OutboundProbeAdmission::Accepted
        );
    }
    assert_eq!(
        budget.admit_probe("p", addr(1, 9), 0, 0),
        OutboundProbeAdmission::GlobalRemoteIpRateLimited
    );
    for i in OUTBOUND_PROBE_BUDGET_PER_PEER_REMOTE_IP..OUTBOUND_PROBE_BUDGET_PER_PEER {
        assert_eq!(
            budget.admit_probe("p", addr(2, 9), i % 4, 0),
            OutboundProbeAdmission::Accepted
        );
    }
    assert_eq!(
        budget.admit_probe("p", addr(3, 9), 0, 0),
        OutboundProbeAdmission::GlobalPeerRateLimited
    );
    assert_eq!(
        budget.admit_probe("p", addr(3, 9), 0, OUTBOUND_PROBE_BUDGET_WINDOW),
        OutboundProbeAdmission::Accepted
    );
}

#[test]
fn probe_budget_keeps_a_lasting_limit_on_each_socket() {
    let mut budget = OutboundProbeBudget::new();
    let mut now = 0;
    let mut sent = 0;
    while sent < OUTBOUND_PROBE_PERSISTENT_PER_PEER_SOCKET {
        for i in 0..100 {
            assert_eq!(
                budget.admit_probe("p", addr((i % 2) as u8, 9), 7, now),
                OutboundProbeAdmission::Accepted
            );
            sent += 1;
        }
        now += SECOND;
    }
    assert_eq!(
        budget.admit_probe("p", addr(1, 9), 7, now),
        OutboundProbeAdmission::GlobalPeerSocketPersistentRateLimited
    );
    assert_eq!(
        budget.admit_probe("p", addr(1, 9), 8, now),
        OutboundProbeAdmission::Accepted
    );
}

#[test]
fn checked_probe_is_charged_only_with_credit() {
    let mut local = OutboundProbeBudget::new();
    let check = check_outbound_connectivity_probe(&mut local, None, "p", addr(1, 9), 0, 0);
    assert_eq!(check, OutboundProbeCheck::NeedsCredit);
    assert_eq!(
        settle_outbound_connectivity_probe(&mut local, "p", addr(1, 9), 0, false),
        OutboundProbeAdmission::EpochCreditExhausted
    );
    assert_eq!(
        settle_outbound_connectivity_probe(&mut local, "p", addr(1, 9), 0, true),
        OutboundProbeAdmission::Accepted
    );
    assert_eq!(
        outbound_probe_admission_reason(OutboundProbeAdmission::EpochCreditExhausted),
        "recovery_epoch_credit_exhausted"
    );
}

#[test]
fn foreground_burst_needs_a_busy_second() {
    let mut budget = OutboundProbeBudget::new();
    assert!(!budget.foreground_burst_active());
    for i in 0..384u32 {
        budget.charge_short_window(if i % 2 == 0 { "p" } else { "q" }, addr((i % 4) as u8, 9), 0);
    }
    assert!(budget.foreground_burst_active());
    budget.retain_live_budget_entries(OUTBOUND_PROBE_BUDGET_WINDOW);
    assert!(!budget.foreground_burst_active());
}

#[test]
fn pruned_budget_keeps_the_young_probes() {
    let mut budget = OutboundProbeBudget::new();
    for i in 0..384u32 {
        let now = if i < 100 { 0 } else { SECOND / 2 };
        let peer = if i % 2 == 0 { "p" } else { "q" };
        budget.charge_short_window(peer, addr((i % 4) as u8, 9), now);
    }
    assert!(budget.foreground_burst_active());
    budget.retain_live_budget_entries(SECOND - 1);
    assert!(budget.foreground_burst_active());
    budget.retain_live_budget_entries(SECOND);
    assert!(!budget.foreground_burst_active());
    for i in 0..100u32 {
        let peer = if i % 2 == 0 { "p" } else { "q" };
        budget.charge_short_window(peer, addr((i % 4) as u8, 9), SECOND);
    }
    assert!(budget.foreground_burst_active());
}

#[test]
fn heartbeat_predicted_endpoints_take_turns() {
    let mut budget = RelayBackoffHeartbeatBudget::new(0);
    let predicted = [addr(2, 1), addr(2, 2), addr(2, 3)];
    for k in 0..7usize {
        let target = budget.next_target("p", 1, &[], &predicted, &[], 2).expect("a target");
        assert_eq!(target.group, RelayBackoffHeartbeatTargetGroup::Predicted);
        assert_eq!(target.endpoint, predicted[k % 3]);
        assert_eq!(target.socket_index, k % 2);
        let other = budget.next_target("q", 9, &[addr(1, 1)], &predicted, &[], 2);
        assert!(other.is_some());
    }
    let first = budget.next_target("p", 2, &[], &predicted, &[], 2).expect("a target");
    assert_eq!((first.endpoint, first.socket_index), (addr(2, 1), 0));
    let first = budget.next_target("p", 1, &[addr(1, 1)], &predicted, &[], 2).expect("a target");
    assert_eq!(first.group, RelayBackoffHeartbeatTargetGroup::Priority);
    assert_eq!((first.endpoint, first.socket_index), (addr(1, 1), 0));
    let first = budget.next_target("p", 3, &[], &[], &[addr(3, 1)], 2).expect("a target");
    assert_eq!(first.group, RelayBackoffHeartbeatTargetGroup::Fallback);
}

#[test]
fn heartbeat_released_slot_is_open_to_any_request() {
    let mut budget = RelayBackoffHeartbeatBudget::new(0);
    let first = budget.reserve("p", addr(1, 1).ip(), 2, 0).expect("room");
    assert!(budget.reserve("q", addr(1, 1).ip(), 1, 0).is_ok());
    assert_eq!(
        budget.reserve("p", addr(2, 1).ip(), 1, 1).err(),
        Some(RelayBackoffHeartbeatReservationRejection::FairnessDeferred)
    );
    budget.commit(first, 0, 2);
    assert_eq!(
        budget.reserve("p", addr(2, 1).ip(), 25, 3).err(),
        Some(RelayBackoffHeartbeatReservationRejection::BudgetLimited)
    );
    assert_eq!(
        budget.reserve("p", addr(2, 1).ip(), 0, 3).err(),
        Some(RelayBackoffHeartbeatReservationRejection::BudgetLimited)
    );
    assert!(budget.reserve("p", addr(2, 1).ip(), 24, 3).is_ok());
}

#[test]
fn heartbeat_released_slot_stays_open_while_others_are_served() {
    let mut budget = RelayBackoffHeartbeatBudget::new(0);
    let ip = addr(1, 1).ip();
    let first = budget.reserve("p", ip, 1, 0).expect("room");
    let other = budget.reserve("q", ip, 1, 1).expect("room");
    budget.release(first, 2);
    budget.commit(other, 1, 3);
    let third = budget.reserve("r", ip, 1, 4).expect("room");
    budget.release(third, 5);
    assert!(budget.reserve("p", ip, 1, 6).is_ok());
}

#[test]
fn heartbeat_slot_stays_closed_while_others_are_served() {
    let mut budget = RelayBackoffHeartbeatBudget::new(0);
    let ip = addr(1, 1).ip();
    let deferred = Some(RelayBackoffHeartbeatReservationRejection::FairnessDeferred);
    let first = budget.reserve("p", ip, 1, 0).expect("room");
    let other = budget.reserve("q", ip, 1, 1).expect("room");
    assert_eq!(budget.reserve("p", ip, 1, 2).err(), deferred);
    budget.release(other, 3);
    budget.commit(first, 1, 4);
    let other = budget.reserve("q", ip, 1, 5).expect("room");
    assert_eq!(budget.reserve("p", ip, 1, 6).err(), deferred);
    budget.commit(other, 1, 7);
    assert_eq!(budget.reserve("p", addr(2, 1).ip(), 2, 8).err(), deferred);
}

#[test]
fn heartbeat_cursor_visits_the_groups_in_turn() {
    let mut budget = RelayBackoffHeartbeatBudget::new(0);
    let priority = [addr(1, 1)];
    let predicted = [addr(2, 1), addr(2, 2)];
    let fallback = [addr(3, 1)];
    let mut groups = Vec::new();
    let mut sockets = Vec::new();
    let mut ports = Vec::new();
    for _ in 0..5 {
        let target = budget
            .next_target("p", 1, &priority, &predicted, &fallback, 2)
            .expect("a target");
        groups.push(target.group);
        sockets.push(target.socket_index);
        ports.push(target.endpoint.port());
    }
    assert_eq!(
        groups,
        vec![
            RelayBackoffHeartbeatTargetGroup::Priority,
            RelayBackoffHeartbeatTargetGroup::Predicted,
            RelayBackoffHeartbeatTargetGroup::Predicted,
            RelayBackoffHeartbeatTargetGroup::Predicted,
            RelayBackoffHeartbeatTargetGroup::Fallback,
        ]
    );
    assert_eq!(sockets, vec![0, 1, 0, 1, 0]);
    assert_eq!(ports, vec![1, 1, 2, 1, 1]);
    assert_eq!(budget.next_target("p", 1, &[], &[], &[], 2), None);
    assert_eq!(budget.next_target("p", 1, &priority, &[], &[], 0), None);
    assert_eq!(RelayBackoffHeartbeatTargetGroup::Fallback.label(), "fallback");
}

#[test]
fn heartbeat_release_undoes_a_reservation_and_a_slot_serves_once() {
    let mut budget = RelayBackoffHeartbeatBudget::new(0);
    let ip = addr(1, 1).ip();
    let first = budget.reserve("p", ip, 2, 0).expect("room");
    assert_eq!(
        budget.reserve("p", ip, 1, 0).err(),
        Some(RelayBackoffHeartbeatReservationRejection::FairnessDeferred)
    );
    budget.release(first, 0);
    let second = budget.reserve("p", ip, 1, 0).expect("room again");
    budget.commit(second, 1, 0);
    assert_eq!(
        budget.reserve("p", ip, 1, 1).err(),
        Some(RelayBackoffHeartbeatReservationRejection::FairnessDeferred)
    );
    assert!(budget
        .reserve("p", ip, 1, RELAY_BACKOFF_HEARTBEAT_SERVICE_SLOT)
        .is_ok());
}

#[test]
fn heartbeat_peer_limit_is_never_exceeded() {
    let mut budget = RelayBackoffHeartbeatBudget::new(0);
    let ip = addr(1, 1).ip();
    let mut sent = 0;
    let mut slot = 0;
    while slot * RELAY_BACKOFF_HEARTBEAT_SERVICE_SLOT < RELAY_BACKOFF_HEARTBEAT_BUDGET_WINDOW {
        let now = slot * RELAY_BACKOFF_HEARTBEAT_SERVICE_SLOT;
        match budget.reserve("p", ip, 2, now) {
            Ok(reservation) => {
                budget.commit(reservation, 2, now);
                sent += 2;
            }
            Err(rejection) => {
                assert_eq!(rejection, RelayBackoffHeartbeatReservationRejection::BudgetLimited);
                assert_eq!(
                    rejection.reason(),
                    RelayBackoffHeartbeatReservationRejection::BudgetLimited.reason()
                );
            }
        }
        slot += 1;
    }
    assert_eq!(sent, 24);
}

#[test]
fn heartbeat_yields_to_foreground_traffic() {
    let mut local = OutboundProbeBudget::new();
    for i in 0..400u32 {
        local.charge_short_window(if i % 2 == 0 { "q" } else { "r" }, addr((i % 4) as u8, 9), 0);
    }
    let mut budget = RelayBackoffHeartbeatBudget::new(0);
    assert_eq!(
        budget
            .reserve_probe(&local, None, "p", addr(1, 1), false, 0)
            .err(),
        Some(RelayBackoffHeartbeatReservationRejection::ForegroundYield)
    );
    let calm = OutboundProbeBudget::new();
    assert!(budget.reserve_probe(&calm, Some(&calm), "p", addr(1, 1), true, 0).is_ok());
}

#[test]
fn registry_lets_one_worker_send_and_remembers_a_restart() {
    let mut registry = RelayBackoffHeartbeatRegistry::new();
    assert_eq!(registry.register_relay_backoff_heartbeat("p", 0), None);
    let first = registry.register_relay_backoff_heartbeat("p", 5).expect("first");
    assert_eq!(registry.register_relay_backoff_heartbeat("p", 5), None);
    assert!(registry.relay_backoff_heartbeat_owner_valid_sync("p", first));
    assert_eq!(registry.cancel_relay_backoff_heartbeat("p"), Some(first));
    assert!(!registry.relay_backoff_heartbeat_owner_valid_sync("p", first));
    assert_eq!(registry.cancel_relay_backoff_heartbeat("p"), None);
    assert_eq!(registry.register_relay_backoff_heartbeat("p", 7), None);
    assert_eq!(registry.complete_relay_backoff_heartbeat_exit("p", first + 1), None);
    assert_eq!(registry.complete_relay_backoff_heartbeat_exit("p", first), Some(7));
    let second = registry.register_relay_backoff_heartbeat("p", 7).expect("second");
    assert_ne!(first, second);
    assert_eq!(registry.complete_relay_backoff_heartbeat_exit("p", first), None);
    assert!(registry.relay_backoff_heartbeat_owner_valid_sync("p", second));
}

#[test]
fn closed_registry_starts_nothing() {
    let mut registry = RelayBackoffHeartbeatRegistry::new();
    let a = registry.register_relay_backoff_heartbeat("a", 5).expect("a");
    let b = registry.register_relay_backoff_heartbeat("b", 5).expect("b");
    registry.cancel_relay_backoff_heartbeat("b");
    let mut revoked = registry.cancel_all_relay_backoff_heartbeats();
    revoked.sort_unstable();
    assert_eq!(revoked, vec![a, b]);
    assert_eq!(registry.register_relay_backoff_heartbeat("a", 5), None);
    assert_eq!(registry.complete_relay_backoff_heartbeat_exit("a", a), None);
}

const OPEN: HeartbeatGates = HeartbeatGates {
    cancelled: false,
    peer_exists: true,
    direct: false,
    available: true,
    owner_valid: true,
    network_generation: 3,
};

#[test]
fn heartbeat_gate_needs_every_condition() {
    assert!(heartbeat_owner_gate(&OPEN));
    assert!(!heartbeat_owner_gate(&HeartbeatGates { cancelled: true, ..OPEN }));
    assert!(!heartbeat_owner_gate(&HeartbeatGates { peer_exists: false, ..OPEN }));
    assert!(!heartbeat_owner_gate(&HeartbeatGates { direct: true, ..OPEN }));
    assert!(!heartbeat_owner_gate(&HeartbeatGates { available: false, ..OPEN }));
    assert!(!heartbeat_owner_gate(&HeartbeatGates { owner_valid: false, ..OPEN }));
    assert!(heartbeat_continues(false, false, true, Some(1)));
    assert!(!heartbeat_continues(false, false, true, Some(0)));
    assert!(!heartbeat_continues(false, false, true, None));
    let mut beats = 13;
    assert!(!count_beat(&mut beats));
    assert!(count_beat(&mut beats));
    assert_eq!(beats, 15);
}

fn sent(datagrams: u8) -> ProbeSendResult {
    ProbeSendResult {
        nonce: 1,
        datagrams_sent: datagrams,
        socket_index: 1,
        first_send_at_ms: Some(77),
        physical_send_errors: 0,
    }
}

#[test]
fn heartbeat_beat_commits_what_it_sent() {
    let mut budget = RelayBackoffHeartbeatBudget::new(0);
    let mut beat = HeartbeatBeat::begin(&OPEN, 3, 2);
    assert_eq!(beat.phase, BeatPhase::Target);
    beat.on_target(budget.next_target("p", 3, &[addr(1, 1)], &[], &[], 2));
    let reservation = budget.reserve("p", addr(1, 1).ip(), 2, 0).expect("room");
    beat.on_reservation(None);
    assert_eq!(beat.on_gate(&OPEN).map(|t| t.endpoint), Some(addr(1, 1)));
    beat.on_sent(Some(sent(2)));
    settle_beat(&mut budget, reservation, beat.sent, 0);
    let record = beat.record.expect("a record");
    assert_eq!(record.reason, BeatReason::Committed);
    assert_eq!(record.stage(), "relay_backoff_heartbeat_beat_completed");
    assert_eq!(record.sent_by_socket(), (2, 0));
    assert_eq!(record.unique_targets(), 1);
    let report = beat.report();
    assert_eq!(report.packets_sent, 2);
    assert_eq!(report.per_socket_sent, vec![(1, 2)]);
    assert_eq!(report.first_send_at_ms, Some(77));
}

#[test]
fn heartbeat_beat_without_room_or_owner_sends_nothing() {
    let mut budget = RelayBackoffHeartbeatBudget::new(0);
    let mut beat = HeartbeatBeat::begin(&OPEN, 3, 1);
    beat.on_target(budget.next_target("p", 3, &[addr(1, 1)], &[], &[], 1));
    beat.on_reservation(Some(RelayBackoffHeartbeatReservationRejection::BudgetLimited));
    let record = beat.record.expect("a record");
    assert_eq!(record.stage(), "relay_backoff_heartbeat_beat_deferred");
    assert_eq!(beat.report().budget_skipped, 1);

    let mut beat = HeartbeatBeat::begin(&OPEN, 3, 1);
    beat.on_target(budget.next_target("p", 3, &[addr(1, 1)], &[], &[], 1));
    beat.on_reservation(None);
    assert_eq!(beat.on_gate(&HeartbeatGates { network_generation: 4, ..OPEN }), None);
    let record = beat.record.expect("a record");
    assert_eq!(record.reason.label(), "heartbeat_owner_or_path_revoked_before_send");
    assert_eq!(beat.report().packets_sent, 0);

    let mut beat = HeartbeatBeat::begin(&OPEN, 3, 1);
    beat.on_target(budget.next_target("p", 3, &[addr(1, 1)], &[], &[], 1));
    beat.on_reservation(None);
    beat.on_gate(&OPEN);
    beat.on_sent(None);
    assert_eq!(
        beat.record.expect("a record").stage(),
        "relay_backoff_heartbeat_send_error"
    );
    assert_eq!(HeartbeatBeat::begin(&OPEN, 4, 1).phase, BeatPhase::Finished);
    assert_eq!(HeartbeatBeat::begin(&OPEN, 3, 0).phase, BeatPhase::Finished);
}

fn gate() -> AuthenticatedPunchGate {
    AuthenticatedPunchGate::new(AuthenticatedPunchLimits {
        rate_window: SECOND,
        rate_limit_per_source: 2,
        replay_window: 10 * SECOND,
        replay_max_entries: 8,
        replay_target_entries: 4,
    })
}

#[test]
fn replayed_punch_is_told_apart_and_can_be_rolled_back() {
    let mut gate = gate();
    let punch = PunchPacketKind::Punch;
    assert_eq!(
        gate.admit_authenticated_punch("p", 1, punch, 9, addr(1, 1), 0),
        AuthenticatedPunchAdmission::Accepted
    );
    assert_eq!(
        gate.admit_authenticated_punch("p", 1, punch, 9, addr(2, 1), 1),
        AuthenticatedPunchAdmission::Replay
    );
    assert_eq!(
        gate.admit_authenticated_punch("p", 1, PunchPacketKind::Ack, 9, addr(3, 1), 1),
        AuthenticatedPunchAdmission::Accepted
    );
    gate.rollback_authenticated_punch_replay_admission("p", 1, punch, 9);
    assert_eq!(
        gate.admit_authenticated_punch("p", 1, punch, 9, addr(4, 1), 2),
        AuthenticatedPunchAdmission::Accepted
    );
}

#[test]
fn punches_of_one_source_are_limited() {
    let mut gate = gate();
    let punch = PunchPacketKind::Punch;
    for nonce in 0..2 {
        assert_eq!(
            gate.admit_authenticated_punch("p", 1, punch, nonce, addr(1, 1), 0),
            AuthenticatedPunchAdmission::Accepted
        );
    }
    assert_eq!(
        gate.admit_authenticated_punch("p", 1, punch, 5, addr(1, 1), 0),
        AuthenticatedPunchAdmission::RateLimited
    );
    assert_eq!(
        gate.admit_authenticated_punch("p", 1, punch, 6, addr(1, 1), SECOND),
        AuthenticatedPunchAdmission::Accepted
    );
}

#[test]
fn maintenance_budget_refills() {
    let mut budget = NatMaintainerBudget::new(SECOND, 2);
    assert!(budget.admit_nat_maintainer_probe("p", 0, 0));
    assert!(budget.admit_nat_maintainer_probe("p", 0, 1));
    assert!(!budget.admit_nat_maintainer_probe("p", 0, 2));
    assert!(budget.admit_nat_maintainer_probe("p", 1, 2));
    assert!(budget.admit_nat_maintainer_probe("p", 0, SECOND));
}

#[test]
fn one_reverse_check_at_a_time() {
    let mut checks = TriggeredChecks::new(SECOND);
    let start = 10 * SECOND;
    assert_eq!(checks.admit_triggered_check("p", addr(1, 1), start), Some(addr(1, 1)));
    assert_eq!(checks.admit_triggered_check("p", addr(1, 2), start + 1), None);
    checks.complete_triggered_check("p", start + 2);
    assert_eq!(checks.admit_triggered_check("p", addr(1, 3), start + 3), None);
    assert_eq!(
        checks.admit_triggered_check("p", addr(1, 4), start + 2 + SECOND),
        Some(addr(1, 4))
    );
    assert_eq!(checks.admit_triggered_check("q", addr(2, 1), SECOND - 1), None);
}

fn binding(socket_index: usize) -> Binding {
    Binding {
        peer_id: "p".to_string(),
        endpoint: addr(1, 1),
        socket_index,
    }
}

#[test]
fn equal_maintenance_request_starts_nothing() {
    let mut leases = NatMaintainers::new();
    assert_eq!(leases.start("p", addr(1, 1), 1, 10, 2, 0).started.len(), 2);
    let again = leases.start("p", addr(1, 1), 1, 10, 2, 9);
    assert!(again.started.is_empty());
    assert_eq!(again.suppressed, vec![0, 1]);
    assert_eq!(leases.start("p", addr(1, 1), 1, 10, 2, 19).started, vec![(0, 2), (1, 3)]);
    assert!(leases.start("p", addr(1, 1), 0, u64::MAX, 2, 20).started.is_empty());
}

#[test]
fn maintainers_are_leased_once_for_each_socket() {
    let mut leases = NatMaintainers::new();
    assert!(leases.start("p", addr(1, 1), 0, 10, 2, 0).started.is_empty());
    assert!(leases.start("p", addr(1, 1), 1, 0, 2, 0).started.is_empty());
    assert!(leases.start("p", addr(1, 1), 1, 10, 0, 0).started.is_empty());
    let first = leases.start("p", addr(1, 1), 1, 10, 2, 0);
    assert_eq!(first.started, vec![(0, 0), (1, 1)]);
    assert!(first.suppressed.is_empty());
    let second = leases.start("p", addr(1, 1), 1, 20, 3, 5);
    assert_eq!(second.started, vec![(2, 2)]);
    assert_eq!(second.suppressed, vec![0, 1]);
    assert_eq!(
        leases.nat_maintainer_lease_status(&binding(0), 0, 24),
        NatMaintainerLeaseStatus::Active(25)
    );
    assert_eq!(
        leases.nat_maintainer_lease_status(&binding(0), 0, 25),
        NatMaintainerLeaseStatus::Expired
    );
    let third = leases.start("p", addr(1, 1), 1, 10, 1, 30);
    assert_eq!(third.started, vec![(0, 3)]);
    assert_eq!(
        leases.nat_maintainer_lease_status(&binding(0), 0, 31),
        NatMaintainerLeaseStatus::Replaced
    );
    assert!(!leases.remove_nat_maintainer_lease_if_owned(&binding(0), 0));
    assert!(leases.remove_nat_maintainer_lease_if_owned(&binding(0), 3));
}

#[test]
fn maintainer_lease_is_never_shortened() {
    let mut leases = NatMaintainers::new();
    leases.start("p", addr(1, 1), 1, 100, 1, 0);
    leases.start("p", addr(1, 1), 1, 10, 1, 5);
    assert_eq!(
        leases.nat_maintainer_lease_status(&binding(0), 0, 50),
        NatMaintainerLeaseStatus::Active(100)
    );
}

#[test]
fn maintainer_worker_beats_until_something_stops_it() {
    let mut worker = MaintainerWorker::new(10, 4);
    assert_eq!(worker.on_initial(NatMaintainerLeaseStatus::Active(3), 0), Some(3));
    assert!(worker.on_beat(false, NatMaintainerLeaseStatus::Active(100)));
    worker.on_admission(false);
    assert_eq!(worker.last_skip_reason(), "nat_maintainer_budget_limited");
    assert_eq!(worker.on_pause(NatMaintainerLeaseStatus::Active(100), 50), Some(10));
    assert!(worker.on_beat(false, NatMaintainerLeaseStatus::Active(100)));
    worker.on_admission(true);
    worker.on_sent(true);
    assert_eq!((worker.sent, worker.skipped), (1, 1));
    assert_eq!(worker.on_pause(NatMaintainerLeaseStatus::Active(100), 95), Some(5));
    assert!(!worker.on_beat(true, NatMaintainerLeaseStatus::Active(100)));
    assert_eq!(
        worker.phase,
        MaintainerPhase::Stopped(MaintainerStop::DirectConfirmed)
    );

    let mut worker = MaintainerWorker::new(10, 0);
    assert_eq!(worker.phase, MaintainerPhase::Beat);
    assert_eq!(worker.last_skip_reason(), "none");
    assert!(!worker.on_beat(false, NatMaintainerLeaseStatus::Replaced));
    assert_eq!(
        worker.phase,
        MaintainerPhase::Stopped(MaintainerStop::LeaseReplaced)
    );
    let mut worker = MaintainerWorker::new(10, 0);
    worker.on_beat(false, NatMaintainerLeaseStatus::Active(9));
    worker.on_admission(true);
    worker.on_sent(false);
    assert_eq!(
        worker.phase,
        MaintainerPhase::Stopped(MaintainerStop::SendError)
    );
    let mut worker = MaintainerWorker::new(10, 1);
    assert_eq!(worker.on_initial(NatMaintainerLeaseStatus::Expired, 0), None);
    assert_eq!(MaintainerStop::DurationElapsed.reason(), "duration_elapsed");
}

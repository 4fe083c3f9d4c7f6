use p2wlan_udp::admission::{
    AuthenticatedPunchGate, AuthenticatedPunchLimits, PunchPacketKind, TriggeredChecks,
};
use p2wlan_udp::diagnostics::{
    PeerProbeRxDiagnostics, ProbeRxCounter, SocketCounter, SocketDiagnostics,
};
use p2wlan_udp::failure::{DaemonError, ProbeSendFailure, ProbeSendFailureKind};
use p2wlan_udp::inbound::{
    after_ack_recorded, begin_authenticated_ack, check_probe_identity, check_probe_keys,
    classify_datagram, judge_legacy_ack, legacy_ack_peer, legacy_punch_is_adopted,
    notify_peer_reflexive_observation, reception_counters, trigger_peer_reflexive_check,
    AuthenticatedPunch, AuthenticationRefusal, DatagramClass, DatagramFacts, LegacyAckPeer,
    LegacyAckVerdict, ProbeIdentity, PunchPhase,
};
use p2wlan_udp::keepalive::{judge_packet_send, settle_keepalive, PacketSendError};
use p2wlan_udp::net::{IpAddr, Ipv4Addr, SocketAddr};
use p2wlan_udp::pending::{
    plan_probe, sent_probe_result, snapshot_for_probe, verify_snapshot, PendingProbe,
    PendingProbePurpose, PendingProbes, StaleProbe, PENDING_PROBE_RETENTION,
};
use p2wlan_udp::probe_send::{
    count_probe_datagram, plan_retransmissions, register_probe, settle_first_send, BuiltProbe,
    RegistrationState,
};
use p2wlan_udp::socket_state::{
    CommitOutcome, DynamicSocketAttachError, DynamicSocketPhase, SocketIdentity, SocketLimits,
    SocketState,
};
use p2wlan_udp::socket_watch::{close_books, is_drained, SocketWatch, WatchStep};
use p2wlan_udp::text::write_number;

const BASE: usize = 100;
const IPV6: usize = 99;

fn addr(last: u8, port: u16) -> SocketAddr {
    SocketAddr::new(IpAddr::V4(Ipv4Addr::new(203, 0, 113, last)), port)
}

fn state(max_dynamic: usize) -> SocketState {
    SocketState::new(SocketLimits {
        dynamic_index_base: BASE,
        max_dynamic,
    })
}

fn attach(s: &mut SocketState, peer: &str, index: usize, punch_generation: u64, now: u64) {
    let attached = s.attach_dynamic_punch_socket(
        true,
        peer,
        index,
        Some(addr(1, index as u16)),
        9,
        punch_generation,
        now,
        9,
        false,
        &vec![],
    );
    assert!(attached.is_ok());
}

fn commit(s: &mut SocketState, peer: &str, index: usize, punch_generation: u64) -> CommitOutcome {
    let outcome = s.commit_and_pin(peer, index, 9, punch_generation, 9, false);
    assert!(outcome.committed());
    outcome
}

fn pinned(s: &SocketState, peer: &str) -> Option<usize> {
    s.affinity.get(&peer.to_string()).map(|pin| pin.socket_index)
}

#[test]
fn commit_outcome_holds_while_its_predecessor_is_the_same_peers() {
    let mut s = state(4);
    attach(&mut s, "a", 100, 1, 0);
    let first = commit(&mut s, "a", 100, 1);
    assert_eq!(first.predecessor(), None);
    assert!(s.outcome_holds(100, &first));
    attach(&mut s, "a", 101, 2, 1);
    attach(&mut s, "b", 102, 1, 2);
    let second = commit(&mut s, "a", 101, 2);
    assert_eq!(second.predecessor().map(|pin| pin.socket_index), Some(100));
    assert!(s.outcome_holds(101, &second));
    assert!(!s.outcome_holds(102, &second));
    assert!(s.outcome_holds(103, &second));
}

#[test]
fn full_table_gives_up_its_oldest_socket() {
    let mut s = state(2);
    attach(&mut s, "a", 100, 1, 10);
    attach(&mut s, "b", 101, 1, 5);
    let evicted = s
        .attach_dynamic_punch_socket(true, "c", 102, None, 9, 1, 20, 9, false, &vec![])
        .expect("room was made")
        .expect("one went");
    assert_eq!(evicted.socket_index, 101);
    assert_eq!(
        s.attach_dynamic_punch_socket(false, "c", 103, None, 8, 1, 30, 9, true, &vec![]).err(),
        Some(DynamicSocketAttachError::NoInboundChannel)
    );
    assert_eq!(s.dynamic_socket_count(), 2);
    let direct = vec!["a".to_string()];
    assert_eq!(
        s.attach_dynamic_punch_socket(true, "c", 103, None, 9, 1, 30, 9, false, &direct).err(),
        Some(DynamicSocketAttachError::CapacityRejected)
    );
    assert_eq!(
        s.attach_dynamic_punch_socket(true, "d", 103, None, 8, 1, 30, 9, false, &vec![]).err(),
        Some(DynamicSocketAttachError::Superseded)
    );
    assert_eq!(
        s.attach_dynamic_punch_socket(true, "d", 103, None, 9, 1, 30, 9, true, &vec![]).err(),
        Some(DynamicSocketAttachError::Superseded)
    );
    assert_eq!(s.dynamic_socket_count(), 2);
}

#[test]
fn commit_pins_and_rollback_restores() {
    let mut s = state(8);
    attach(&mut s, "a", 100, 1, 0);
    let first = commit(&mut s, "a", 100, 1);
    assert_eq!(first.predecessor(), None);
    assert!(s.finalize("a", 100, Some(first), 9, false));
    attach(&mut s, "a", 101, 2, 1);
    let second = commit(&mut s, "a", 101, 2);
    assert_eq!(second.predecessor().map(|p| p.socket_index), Some(100));
    assert_eq!(pinned(&s, "a"), Some(101));
    let gone = s.rollback_committed_entry(101, &second, 1).expect("rolled back");
    assert_eq!(gone.socket_index, 101);
    assert_eq!(pinned(&s, "a"), Some(100));
    attach(&mut s, "a", 102, 1, 2);
    assert!(!s.commit_and_pin("a", 102, 9, 1, 9, false).committed());
}

#[test]
fn stale_or_cancelled_commit_is_refused() {
    let mut s = state(8);
    attach(&mut s, "a", 100, 1, 0);
    assert_eq!(s.commit_and_pin("a", 100, 9, 1, 10, false), CommitOutcome::refused());
    assert_eq!(s.commit_and_pin("a", 100, 9, 1, 9, true), CommitOutcome::refused());
    assert_eq!(s.commit_and_pin("b", 100, 9, 1, 9, false), CommitOutcome::refused());
    assert_eq!(s.commit_and_pin("a", 101, 9, 1, 9, false), CommitOutcome::refused());
    assert_eq!(s.commit_speculative("a", 100, 9, 1, 9, false), CommitOutcome::refused());
    commit(&mut s, "a", 100, 1);
    attach(&mut s, "a", 101, 1, 0);
    let speculative = s.commit_speculative("a", 101, 9, 1, 9, false);
    assert!(speculative.committed());
    assert_eq!(speculative.installed(), None);
    assert_eq!(pinned(&s, "a"), Some(100));
}

#[test]
fn finalize_needs_everything_the_commit_saw() {
    let mut s = state(8);
    attach(&mut s, "a", 100, 1, 0);
    assert!(!s.finalize("a", 100, None, 9, false));
    let outcome = commit(&mut s, "a", 100, 1);
    assert!(!s.finalize("a", 100, Some(outcome), 10, false));
    assert!(!s.finalize("a", 100, Some(outcome), 9, true));
    assert!(!s.finalize("b", 100, Some(outcome), 9, false));
    assert!(s.finalize("a", 100, Some(outcome), 9, false));
    assert!(s.finalize("a", 100, None, 10, true));
    assert_eq!(s.predecessor_to_detach(&outcome, 100), None);
}

#[test]
fn superseded_socket_goes_unless_repinned() {
    let mut s = state(8);
    attach(&mut s, "a", 100, 1, 0);
    let first = commit(&mut s, "a", 100, 1);
    s.finalize("a", 100, Some(first), 9, false);
    attach(&mut s, "a", 101, 2, 1);
    let second = commit(&mut s, "a", 101, 2);
    s.finalize("a", 101, Some(second), 9, false);
    let old = s.predecessor_to_detach(&second, 101).expect("a predecessor");
    assert!(s.detach_predecessor_unless_repinned("a", old).is_some());
    assert!(s.detach_predecessor_unless_repinned("a", old).is_none());
    assert_eq!(pinned(&s, "a"), Some(101));
}

#[test]
fn watch_gives_the_socket_of_an_ended_generation_back() {
    let mut s = state(8);
    attach(&mut s, "a", 100, 1, 0);
    let mut watch = SocketWatch::new();
    assert_eq!(watch.step(false, false, false), WatchStep::Wait);
    assert_eq!(watch.step(false, true, false), WatchStep::GiveBack);
    assert_eq!(watch.step(true, true, true), WatchStep::HandedOver);
    watch.on_published(Some(CommitOutcome::refused()));
    assert_eq!(watch.committed, None);
    let back = watch.give_back(&mut s, 100, false, None, 1);
    assert!(!back.acknowledge);
    assert_eq!(back.removed.map(|e| e.socket_index), Some(100));
    assert!(watch.give_back(&mut s, 100, true, None, 1).acknowledge);

    attach(&mut s, "a", 101, 2, 0);
    let outcome = commit(&mut s, "a", 101, 2);
    watch.on_published(Some(outcome));
    let back = watch.give_back(&mut s, 101, false, None, 1);
    assert!(back.removed.is_some());
    assert_eq!(pinned(&s, "a"), None);

    attach(&mut s, "a", 102, 3, 0);
    let outcome = commit(&mut s, "a", 102, 3);
    assert!(s.finalize("a", 102, Some(outcome), 9, false));
    let back = SocketWatch::new().give_back(&mut s, 102, false, Some(outcome), 1);
    assert!(back.acknowledge);
    assert!(back.removed.is_none());
    assert_eq!(pinned(&s, "a"), Some(102));
}

#[test]
fn session_winner_keeps_its_socket_and_losers_go() {
    let mut s = state(8);
    attach(&mut s, "a", 100, 1, 0);
    commit(&mut s, "a", 100, 1);
    attach(&mut s, "a", 101, 1, 1);
    s.commit_speculative("a", 101, 9, 1, 9, false);
    assert!(!s.tag_hard_hard_socket("a", 100, ""));
    assert!(s.tag_hard_hard_socket("a", 100, "t"));
    assert!(s.tag_hard_hard_socket("a", 101, "t"));
    assert_eq!(s.hard_hard_socket_token(101), Some("t".to_string()));
    let mut indices = s.hard_hard_socket_indices_for_token("a", "t");
    indices.sort_unstable();
    assert_eq!(indices, vec![100, 101]);
    assert_eq!(s.winner_candidate("a", "t", 101, 8), None);
    assert_eq!(s.winner_candidate("a", "t", 101, 9), Some((1, addr(1, 101))));
    let losers = s.promote_hard_hard_winner("a", "t", 101, 9);
    assert_eq!(losers.len(), 1);
    assert_eq!(losers[0].0, 100);
    assert_eq!(pinned(&s, "a"), Some(101));
    let identity = SocketIdentity {
        peer_id: "a".to_string(),
        socket_index: 101,
        network_generation: 9,
        punch_generation: 1,
        session_token: "t".to_string(),
        socket_local_endpoint: addr(1, 101),
    };
    assert!(s.hard_hard_socket_identity_is_current(&identity, 9));
    assert!(!s.hard_hard_socket_identity_is_current(&identity, 10));
    assert!(s.hard_hard_socket_identity_has_authenticated_evidence(&identity, 9));
    assert!(s.detach_hard_hard_socket_if_identity(&identity).is_some());
    assert_eq!(pinned(&s, "a"), None);
}

#[test]
fn session_is_taken_down_but_for_one_socket() {
    let mut s = state(8);
    for index in [100, 101, 102] {
        attach(&mut s, "a", index, 1, index as u64);
    }
    commit(&mut s, "a", 100, 1);
    for index in [101, 102] {
        s.commit_speculative("a", index, 9, 1, 9, false);
    }
    assert!(s.tag_hard_hard_socket("a", 100, "t"));
    assert!(s.tag_hard_hard_socket("a", 101, "t"));
    assert!(s.tag_hard_hard_socket("a", 102, "u"));
    assert!(s.detach_hard_hard_sockets_for_token("b", "t", None).is_empty());
    let removed = s.detach_hard_hard_sockets_for_token("a", "t", Some(101));
    assert_eq!(removed.len(), 1);
    assert_eq!(removed[0].0, 100);
    assert_eq!(pinned(&s, "a"), None);
    assert_eq!(s.hard_hard_socket_indices_for_token("a", "t"), vec![101]);
    assert_eq!(s.hard_hard_socket_indices_for_token("a", "u"), vec![102]);
}

#[test]
fn dynamic_socket_resolves_only_for_its_owner() {
    let mut s = state(8);
    attach(&mut s, "a", 100, 1, 0);
    assert_eq!(s.resolve_dynamic_socket_index_for_send("a", 100, 9), None);
    commit(&mut s, "a", 100, 1);
    assert_eq!(s.resolve_dynamic_socket_index_for_send("a", 100, 9), Some(100));
    assert_eq!(s.resolve_dynamic_socket_index_for_send("b", 100, 9), None);
    assert_eq!(
        s.classify_dynamic_socket_failure_kind("a", 105, 9),
        ProbeSendFailureKind::SocketUnavailable
    );
    assert_eq!(
        s.classify_dynamic_socket_failure_kind("b", 100, 9),
        ProbeSendFailureKind::SocketRevoked
    );
}

fn probe(peer: &str, socket_index: usize, sent_at: u64) -> PendingProbe {
    PendingProbe {
        sent_at,
        expires_at: sent_at + 5,
        endpoint: addr(1, 1),
        local_endpoint: Some(addr(7, 7)),
        socket_index,
        generation: 9,
        remote_candidate_epoch: 3,
        probe_session_id: None,
        peer_id: Some(peer.to_string()),
        purpose: PendingProbePurpose::ConnectivityCheck,
        accepts_authenticated_ack: true,
        accepts_legacy_ack: true,
        socket_epoch: 0,
        cleanup_epoch: 0,
        direct_commit_seq: 0,
    }
}

#[test]
fn ack_matches_once_and_only_in_every_respect() {
    let s = state(8);
    let mut pending = PendingProbes::new();
    pending.register(1, probe("a", 0, 0), None);
    assert!(pending.match_authenticated_ack(&s, "b", 1, 9, 0).is_none());
    assert!(pending.match_authenticated_ack(&s, "a", 1, 8, 0).is_none());
    assert!(pending.match_authenticated_ack(&s, "a", 1, 9, 1).is_none());
    assert!(pending.match_authenticated_ack(&s, "a", 2, 9, 0).is_none());
    assert!(pending.match_authenticated_ack(&s, "a", 1, 9, 0).is_some());
    assert!(pending.match_authenticated_ack(&s, "a", 1, 9, 0).is_none());
    pending.register(1, probe("a", 0, 0), None);
    assert!(pending.match_legacy_ack(1, addr(2, 2), 9, 0).is_none());
    assert!(pending.match_legacy_ack(1, addr(1, 1), 9, 0).is_some());
}

#[test]
fn cleanup_leaves_nothing_of_a_peer() {
    let mut s = state(8);
    attach(&mut s, "a", 100, 1, 0);
    commit(&mut s, "a", 100, 1);
    let mut pending = PendingProbes::new();
    pending.register(1, probe("a", 0, 0), Some("t".to_string()));
    pending.register(2, probe("b", 0, 0), None);
    let late = probe("a", 0, 0);
    let removed = pending.cleanup_peer(&mut s, "a");
    assert_eq!(removed.len(), 1);
    assert_eq!(pinned(&s, "a"), None);
    assert_eq!(s.peer_probe_cleanup_epoch("a"), 1);
    assert!(pending.match_authenticated_ack(&s, "a", 1, 9, 0).is_none());
    assert!(!pending.restore_pending_probe_if_peer_still_clean(&s, 1, late));
    assert!(pending.match_authenticated_ack(&s, "b", 2, 9, 0).is_some());
    pending.register(3, probe("b", 0, 0), None);
    pending.clear_pending_probes_for_peer(&mut s, "b");
    assert_eq!(s.peer_probe_cleanup_epoch("b"), 1);
    assert!(pending.probes.get(&3).is_none());
}

#[test]
fn old_probes_are_dropped_when_one_is_registered() {
    let mut pending = PendingProbes::new();
    pending.register(1, probe("a", 0, 0), Some("t".to_string()));
    pending.register(2, probe("a", 0, PENDING_PROBE_RETENTION), None);
    assert!(pending.probes.get(&1).is_none());
    assert!(pending.bindings.get(&1).is_none());
    assert!(pending.probes.get(&2).is_some());
}

#[test]
fn session_probes_are_cleared_by_token() {
    let mut pending = PendingProbes::new();
    pending.register(1, probe("a", 100, 0), Some("t".to_string()));
    pending.register(2, probe("a", 101, 0), Some("t".to_string()));
    pending.register(3, probe("a", 102, 0), Some("u".to_string()));
    pending.clear_hard_hard_pending_probes_for_token("a", "t", Some(101));
    assert!(pending.probes.get(&1).is_none());
    assert!(pending.probes.get(&2).is_some());
    assert!(pending.bindings.get(&2).is_none());
    assert!(pending.bindings.get(&3).is_some());
    pending.clear_hard_hard_pending_probe_token(3);
    assert!(pending.bindings.get(&3).is_none());
}

#[test]
fn socket_drains_before_its_reader_stops() {
    let mut pending = PendingProbes::new();
    let mut diagnostics = SocketDiagnostics::new(BASE, IPV6, false);
    diagnostics.attach_dynamic(100);
    pending.register(1, probe("a", 100, 0), Some("t".to_string()));
    assert!(!is_drained(&pending, 100, 0));
    assert!(!is_drained(&pending, 101, 1));
    assert!(is_drained(&pending, 101, 0));
    close_books(&mut pending, &mut diagnostics, 100, false);
    assert!(is_drained(&pending, 100, 0));
    assert!(pending.bindings.get(&1).is_none());
    assert_eq!(diagnostics.dynamic.len(), 0);
}

fn built<'a>(s: &SocketState, socket_index: usize) -> BuiltProbe<'a> {
    BuiltProbe {
        nonce: 5,
        plan: plan_probe(Some("a"), Some("me"), true, true),
        snapshot: snapshot_for_probe(s, Some("a"), 3, 9),
        socket_index,
        peer_id: Some("a"),
        endpoint: addr(1, 1),
        local_endpoint: None,
        purpose: PendingProbePurpose::ConsentCheck,
        probe_session_id: Some("session".to_string()),
        token: None,
        require_exact_dynamic_owner: true,
    }
}

const NOW: RegistrationState = RegistrationState {
    remote_candidate_epoch: 3,
    network_generation: 9,
    direct_commit_seq: Some(6),
    now: 100,
    ack_timeout: 20,
};

fn refusal(result: Result<(), ProbeSendFailure>) -> (ProbeSendFailureKind, String) {
    let failure = result.expect_err("refused");
    assert_eq!((failure.physical_send_errors, failure.physical_send_error_bytes), (0, 0));
    let DaemonError::Network(text) = failure.error;
    (failure.kind, text)
}

#[test]
fn probe_is_registered_if_its_snapshot_holds() {
    let mut s = state(8);
    let mut pending = PendingProbes::new();
    assert!(register_probe(&s, &mut pending, built(&s, 0), &NOW).is_ok());
    let entry = pending.probes.get(&5).expect("registered");
    assert_eq!((entry.sent_at, entry.expires_at), (100, 120));
    assert_eq!(entry.direct_commit_seq, 6);
    assert!(entry.accepts_legacy_ack && entry.accepts_authenticated_ack);
    let moved = RegistrationState { remote_candidate_epoch: 4, ..NOW };
    assert_eq!(
        refusal(register_probe(&s, &mut pending, built(&s, 0), &moved)),
        (
            ProbeSendFailureKind::CandidateEpochChanged,
            "probe invalidated: remote candidate generation changed".to_string()
        )
    );
    let moved = RegistrationState { network_generation: 10, ..NOW };
    assert_eq!(
        refusal(register_probe(&s, &mut pending, built(&s, 0), &moved)),
        (
            ProbeSendFailureKind::NetworkGenerationChanged,
            "probe invalidated: network generation changed".to_string()
        )
    );
    assert_eq!(
        refusal(register_probe(&s, &mut pending, built(&s, 100), &NOW)),
        (
            ProbeSendFailureKind::SocketUnavailable,
            "UDP socket pool member 100 is unavailable".to_string()
        )
    );
    let stale = built(&s, 0);
    s.bump_cleanup_epoch("a");
    assert_eq!(
        refusal(register_probe(&s, &mut pending, stale, &NOW)),
        (
            ProbeSendFailureKind::PeerSessionChanged,
            "probe invalidated: peer cleanup raced the send".to_string()
        )
    );
    attach(&mut s, "a", 100, 1, 0);
    assert_eq!(
        verify_snapshot(&s, &built(&s, 100).snapshot, Some("a"), 100, true, 3, 9),
        Some(StaleProbe::SocketNotOwned)
    );
    assert_eq!(
        verify_snapshot(&s, &snapshot_for_probe(&s, None, 3, 9), None, 100, true, 3, 9),
        Some(StaleProbe::NoOwner)
    );
    commit(&mut s, "a", 100, 1);
    let other = snapshot_for_probe(&s, Some("a"), 3, 10);
    assert_eq!(
        verify_snapshot(&s, &other, Some("a"), 100, true, 3, 10),
        Some(StaleProbe::SocketNetworkChanged)
    );
    assert_eq!(
        refusal(Err(StaleProbe::SocketNotOwned.into_failure(4096))),
        (
            ProbeSendFailureKind::SocketRevoked,
            "UDP socket pool member 4096 is no longer owned by peer".to_string()
        )
    );
    assert_eq!(settle_first_send(&mut pending, 5, true), Ok(()));
    assert!(pending.probes.get(&5).is_some());
    assert_eq!(
        settle_first_send(&mut pending, 5, false),
        Err(ProbeSendFailureKind::PhysicalSend)
    );
    assert!(pending.probes.get(&5).is_none());
}

#[test]
fn numbers_are_written_in_decimal() {
    assert_eq!(write_number(0), "0");
    assert_eq!(write_number(9), "9");
    assert_eq!(write_number(1_234_567_890), "1234567890");
    assert_eq!(write_number(usize::MAX), usize::MAX.to_string());
}

#[test]
fn probe_plan_follows_names_and_keys() {
    let long = "x".repeat(256);
    assert!(plan_probe(Some("a"), Some("me"), true, false).authenticated);
    assert!(!plan_probe(Some("a"), Some("me"), true, false).accepts_legacy_ack);
    assert!(!plan_probe(Some("a"), Some("me"), false, true).authenticated);
    assert!(!plan_probe(Some("a"), None, true, true).authenticated);
    assert!(!plan_probe(Some(&long), Some("me"), true, true).authenticated);
    assert!(plan_probe(Some(&long[..255]), Some("me"), true, true).compat_legacy_probe);
    assert!(plan_probe(None, Some("me"), true, true).accepts_legacy_ack);
    let both = sent_probe_result(1, 0, 50, Some(true));
    assert_eq!((both.datagrams_sent, both.physical_send_errors), (2, 0));
    let half = sent_probe_result(1, 0, 50, Some(false));
    assert_eq!((half.datagrams_sent, half.physical_send_errors), (1, 1));
    assert_eq!(sent_probe_result(1, 0, 50, None).datagrams_sent, 1);
    let burst = plan_retransmissions(true, PendingProbePurpose::ConnectivityCheck, Some(true));
    assert!(burst.probe && burst.legacy);
    let calm = plan_retransmissions(false, PendingProbePurpose::ConnectivityCheck, Some(true));
    assert!(!calm.probe && !calm.legacy);
    assert!(!plan_retransmissions(true, PendingProbePurpose::ConsentCheck, None).legacy);
}

#[test]
fn unanswered_keepalive_is_told_of() {
    let mut pending = PendingProbes::new();
    let mut consent = probe("a", 0, 0);
    consent.purpose = PendingProbePurpose::ConsentCheck;
    pending.register(1, consent, None);
    let timeout = settle_keepalive(&mut pending, 1, "a", addr(1, 1)).expect("no answer");
    assert!(timeout.consent);
    assert_eq!(timeout.generation, 9);
    assert_eq!(settle_keepalive(&mut pending, 1, "a", addr(1, 1)), None);
    pending.register(2, probe("a", 0, 0), None);
    assert_eq!(settle_keepalive(&mut pending, 2, "b", addr(1, 1)), None);
    assert_eq!(judge_packet_send(Some(4), 4), Ok(4));
    assert_eq!(
        judge_packet_send(Some(3), 4),
        Err(PacketSendError::Short { sent: 3, expected: 4 })
    );
    assert_eq!(judge_packet_send(None, 4), Err(PacketSendError::Refused));
}

#[test]
fn datagrams_are_sorted_by_shape() {
    let facts = DatagramFacts {
        len: 4,
        stun: true,
        authenticated_candidate: true,
        legacy: Some(PunchPacketKind::Ack),
    };
    assert_eq!(classify_datagram(&DatagramFacts { len: 0, ..facts }), DatagramClass::Empty);
    assert_eq!(classify_datagram(&facts), DatagramClass::Stun);
    let probe = DatagramFacts { stun: false, ..facts };
    assert_eq!(classify_datagram(&probe), DatagramClass::Authenticated);
    let legacy = DatagramFacts { authenticated_candidate: false, ..probe };
    assert_eq!(classify_datagram(&legacy), DatagramClass::Legacy(PunchPacketKind::Ack));
    let data = DatagramFacts { legacy: None, ..legacy };
    assert_eq!(classify_datagram(&data), DatagramClass::Encrypted);
    assert!(reception_counters(DatagramClass::Empty, true).is_empty());
    assert_eq!(
        reception_counters(DatagramClass::Encrypted, true),
        vec![
            SocketCounter::DatagramsReceived,
            SocketCounter::KnownPeerIpDatagramsReceived,
            SocketCounter::EncryptedPacketsReceived,
        ]
    );
    assert_eq!(
        reception_counters(DatagramClass::Legacy(PunchPacketKind::Ack), false),
        vec![SocketCounter::DatagramsReceived, SocketCounter::LegacyProbeAcksObserved]
    );
}

#[test]
fn probe_identity_and_keys_are_checked() {
    let identity = ProbeIdentity {
        source_node_id: "a".to_string(),
        target_node_id: "me".to_string(),
        generation: 1,
    };
    assert_eq!(check_probe_identity(None, Some("me")), Some(AuthenticationRefusal::Malformed));
    assert_eq!(
        check_probe_identity(Some(&identity), None),
        Some(AuthenticationRefusal::UnknownLocalNode)
    );
    assert_eq!(
        check_probe_identity(Some(&identity), Some("you")),
        Some(AuthenticationRefusal::WrongTarget)
    );
    assert_eq!(check_probe_identity(Some(&identity), Some("me")), None);
    assert_eq!(check_probe_keys(0, false), Some(AuthenticationRefusal::NoKey));
    assert_eq!(check_probe_keys(2, false), Some(AuthenticationRefusal::InvalidMac));
    assert_eq!(check_probe_keys(2, true), None);
    assert_eq!(AuthenticationRefusal::UnknownLocalNode.counter(), None);
    assert_eq!(
        AuthenticationRefusal::InvalidMac.counter(),
        Some(SocketCounter::AuthenticatedProbeInvalidMac)
    );
}

fn punch_gate() -> AuthenticatedPunchGate {
    AuthenticatedPunchGate::new(AuthenticatedPunchLimits {
        rate_window: 1_000,
        rate_limit_per_source: 8,
        replay_window: 1_000,
        replay_max_entries: 8,
        replay_target_entries: 4,
    })
}

#[test]
fn punch_goes_all_the_way_only_once() {
    let mut gate = punch_gate();
    let (mut punch, counter) =
        AuthenticatedPunch::begin(&mut gate, "a".to_string(), 1, 7, true, false, addr(1, 1), 0);
    assert_eq!(counter, Some(SocketCounter::AuthenticatedProbePunchesReceived));
    assert_eq!(punch.phase, PunchPhase::Acknowledge);
    assert_eq!(punch.on_acknowledged(true), Some(SocketCounter::ProbeAcksSent));
    punch.on_learned(true);
    let adoption = punch.on_exists(true).expect("adopted");
    assert!(adoption.nominate && adoption.trigger_check);
    let (mut replay, counter) =
        AuthenticatedPunch::begin(&mut gate, "a".to_string(), 1, 7, true, false, addr(1, 1), 1);
    assert_eq!(counter, None);
    assert_eq!(replay.phase, PunchPhase::AcknowledgeReplay);
    assert_eq!(replay.on_acknowledged(false), None);
    assert_eq!(replay.phase, PunchPhase::Done);
}

#[test]
fn punch_of_an_unconfirmed_session_is_forgotten() {
    let mut gate = punch_gate();
    for _ in 0..2 {
        let (mut punch, _) =
            AuthenticatedPunch::begin(&mut gate, "a".to_string(), 1, 7, false, true, addr(1, 1), 0);
        assert_eq!(punch.phase, PunchPhase::Confirm);
        assert_eq!(punch.on_confirmed(&mut gate, false), None);
        assert_eq!(punch.phase, PunchPhase::Done);
    }
    let (mut punch, _) =
        AuthenticatedPunch::begin(&mut gate, "a".to_string(), 1, 7, false, true, addr(1, 1), 0);
    assert!(punch.on_confirmed(&mut gate, true).is_some());
    punch.on_acknowledged(false);
    punch.on_learned(false);
    assert_eq!(punch.phase, PunchPhase::Done);
    let (replay, _) =
        AuthenticatedPunch::begin(&mut gate, "a".to_string(), 1, 7, false, true, addr(1, 1), 0);
    assert_eq!(replay.phase, PunchPhase::Done);
}

#[test]
fn acknowledgement_is_adopted_or_put_back() {
    let mut s = state(8);
    let mut pending = PendingProbes::new();
    pending.register(1, probe("a", 0, 10), None);
    let (matched, counters) = begin_authenticated_ack(&mut pending, &s, "a".to_string(), 1, 9, 0);
    assert_eq!(counters, vec![SocketCounter::AuthenticatedProbeAcksObserved]);
    let matched = matched.expect("matched");
    assert!(matched.still_clean(&s));
    assert!(matched.on_confirmed(false, &mut pending, &s).is_none());
    let (matched, _) = begin_authenticated_ack(&mut pending, &s, "a".to_string(), 1, 9, 0);
    let matched = matched
        .expect("put back and matched again")
        .on_confirmed(true, &mut pending, &s)
        .expect("confirmed");
    let (adoption, counter) = matched.adopt(25);
    assert_eq!(adoption.latency, 15);
    assert!(!adoption.consent);
    assert_eq!(counter, SocketCounter::ProbeAcksReceived);
    assert_eq!(after_ack_recorded(true, &adoption), (true, false));
    let (none, counters) = begin_authenticated_ack(&mut pending, &s, "a".to_string(), 1, 9, 0);
    assert!(none.is_none());
    assert_eq!(counters[1], SocketCounter::AuthenticatedProbeAcksUnmatched);
    pending.clear_pending_probes_for_peer(&mut s, "a");
    assert!(!matched.still_clean(&s));
}

#[test]
fn legacy_acknowledgement_needs_a_probe() {
    let mut s = state(8);
    let matched = Some(probe("a", 0, 10));
    assert!(matches!(legacy_ack_peer(&None), LegacyAckPeer::AskSource));
    assert!(matches!(legacy_ack_peer(&matched), LegacyAckPeer::Known(p) if p == "a"));
    let none = judge_legacy_ack(&None, Some("a"), &s, 20);
    assert_eq!(none, LegacyAckVerdict::Unmatched);
    assert_eq!(none.counter(), Some(SocketCounter::LegacyProbeAcksUnmatched));
    assert_eq!(judge_legacy_ack(&matched, None, &s, 20), LegacyAckVerdict::Ignored);
    match judge_legacy_ack(&matched, Some("a"), &s, 20) {
        LegacyAckVerdict::Adopt(adoption) => assert_eq!(adoption.latency, 10),
        other => panic!("not adopted: {other:?}"),
    }
    s.bump_cleanup_epoch("a");
    assert_eq!(judge_legacy_ack(&matched, Some("a"), &s, 20), LegacyAckVerdict::Ignored);
    assert!(legacy_punch_is_adopted(true, true, true));
    assert!(!legacy_punch_is_adopted(false, true, true));
}

#[test]
fn direct_peer_needs_no_more_traversal() {
    let mut checks = TriggeredChecks::new(10);
    assert_eq!(trigger_peer_reflexive_check(&mut checks, true, "a", addr(1, 1), 100), None);
    assert_eq!(
        trigger_peer_reflexive_check(&mut checks, false, "a", addr(1, 1), 100),
        Some(addr(1, 1))
    );
    let notice = notify_peer_reflexive_observation(true, true);
    assert!(!notice.observe && !notice.submit);
    let notice = notify_peer_reflexive_observation(false, false);
    assert!(notice.observe && !notice.submit);
}

#[test]
fn counters_land_on_their_socket() {
    let mut d = SocketDiagnostics::new(BASE, IPV6, true);
    d.reset_pool(2);
    d.attach_dynamic(100);
    count_probe_datagram(&mut d, 1, PendingProbePurpose::RelayBackoffHeartbeat);
    count_probe_datagram(&mut d, 100, PendingProbePurpose::ConnectivityCheck);
    count_probe_datagram(&mut d, 7, PendingProbePurpose::ConnectivityCheck);
    d.update_socket_diagnostics(0, SocketCounter::ProbeAcksReceived);
    d.update_socket_diagnostics(IPV6, SocketCounter::ProbeAcksReceived);
    d.update_socket_diagnostics(100, SocketCounter::ProbeAcksReceived);
    let members = d.socket_pool_diagnostics();
    let indices: Vec<usize> = members.iter().map(|m| m.socket_index).collect();
    assert_eq!(indices, vec![0, 1, 100]);
    assert_eq!(members[1].probes_sent, 1);
    assert_eq!(members[1].relay_backoff_heartbeat_probes_sent, 1);
    assert_eq!(members[2].probes_sent, 1);
    assert_eq!(d.probe_rx_snapshot().probe_acks_received, 3);
    d.detach_dynamic(100);
    assert_eq!(d.probe_rx_snapshot().probe_acks_received, 2);
    d.attach_dynamic(101);
    d.detach_all_dynamic();
    assert_eq!(d.socket_pool_diagnostics().len(), 2);
}

#[test]
fn peer_counters_are_bounded() {
    let mut d = PeerProbeRxDiagnostics::new(100, 2);
    let counter = ProbeRxCounter::ProbeAcksReceived;
    d.update_peer_probe_rx_diagnostics("a".to_string(), 1, None, counter, 0);
    d.update_peer_probe_rx_diagnostics("b".to_string(), 1, None, counter, 1);
    d.update_peer_probe_rx_diagnostics("b".to_string(), 1, Some("s".to_string()), counter, 2);
    let gone = d.probe_rx_snapshot_for_peer_session("a".to_string(), 1, None, 3);
    assert_eq!(gone.probe_acks_received, 0);
    let kept = d.probe_rx_snapshot_for_peer_session("b".to_string(), 1, None, 3);
    assert_eq!(kept.probe_acks_received, 1);
    let old = d.probe_rx_snapshot_for_peer_session("b".to_string(), 1, None, 101);
    assert_eq!(old.probe_acks_received, 0);
}

#[test]
fn phases_say_whether_traffic_may_use_a_socket() {
    assert!(!DynamicSocketPhase::Provisional.is_usable());
    assert!(DynamicSocketPhase::CommittedPendingHandoff.is_usable());
    assert!(DynamicSocketPhase::Finalized.is_finalized());
}

//! What a received datagram may change.
//!
//! A datagram is sorted by its shape, an authenticated probe is checked
//! against its identity and key, and only then may it move a peer's state.
//! Every step that needs the outside (sending, learning, confirming) is asked
//! for and answered.

use vstd::prelude::*;
use crate::admission::{
    AuthenticatedPunchAdmission, AuthenticatedPunchGate, PunchPacketKind, TriggeredChecks,
};
use crate::diagnostics::SocketCounter;
use crate::net::SocketAddr;
use crate::pending::{
    peer_still_clean, PendingProbe, PendingProbePurpose, PendingProbes, ProbeNonce,
};
use crate::socket_state::SocketState;
use crate::text::same_text;
use crate::window::saturating_since;

verus! {

/// What the bytes of a datagram look like.
#[derive(Clone, Copy, Debug, PartialEq, Eq, Structural)]
pub struct DatagramFacts {
    pub len: usize,
    pub stun: bool,
    pub authenticated_candidate: bool,
    pub legacy: Option<PunchPacketKind>,
}

#[derive(Clone, Copy, Debug, PartialEq, Eq, Structural)]
pub enum DatagramClass {
    Empty,
    Stun,
    Authenticated,
    Legacy(PunchPacketKind),
    Encrypted,
}

/// The class of a datagram: STUN comes before probes, authenticated probes
/// before legacy ones, and what is none of these is taken for encrypted data.
pub open spec fn datagram_class(f: DatagramFacts) -> DatagramClass {
    if f.len == 0 {
        DatagramClass::Empty
    } else if f.stun {
        DatagramClass::Stun
    } else if f.authenticated_candidate {
        DatagramClass::Authenticated
    } else {
        match f.legacy {
            Some(kind) => DatagramClass::Legacy(kind),
            None => DatagramClass::Encrypted,
        }
    }
}

pub fn classify_datagram(f: &DatagramFacts) -> (class: DatagramClass)
    ensures
        class == datagram_class(*f),
{
    if f.len == 0 {
        return DatagramClass::Empty;
    }
    if f.stun {
        return DatagramClass::Stun;
    }
    if f.authenticated_candidate {
        return DatagramClass::Authenticated;
    }
    match f.legacy {
        Some(kind) => DatagramClass::Legacy(kind),
        None => DatagramClass::Encrypted,
    }
}

/// What is counted when a datagram comes in.
pub open spec fn reception(class: DatagramClass, known_peer_ip: bool) -> Seq<SocketCounter> {
    let received = seq![SocketCounter::DatagramsReceived];
    let known = if known_peer_ip {
        received.push(SocketCounter::KnownPeerIpDatagramsReceived)
    } else {
        received
    };
    match class {
        DatagramClass::Empty => Seq::empty(),
        DatagramClass::Stun => known,
        DatagramClass::Authenticated => known.push(
            SocketCounter::AuthenticatedProbePacketsReceived,
        ),
        DatagramClass::Legacy(PunchPacketKind::Punch) => known,
        DatagramClass::Legacy(PunchPacketKind::Ack) => known.push(
            SocketCounter::LegacyProbeAcksObserved,
        ),
        DatagramClass::Encrypted => known.push(SocketCounter::EncryptedPacketsReceived),
    }
}

pub fn reception_counters(class: DatagramClass, known_peer_ip: bool) -> (r: Vec<SocketCounter>)
    ensures
        r@ == reception(class, known_peer_ip),
{
    let mut r: Vec<SocketCounter> = Vec::new();
    if matches!(class, DatagramClass::Empty) {
        return r;
    }
    r.push(SocketCounter::DatagramsReceived);
    if known_peer_ip {
        r.push(SocketCounter::KnownPeerIpDatagramsReceived);
    }
    match class {
        DatagramClass::Authenticated => {
            r.push(SocketCounter::AuthenticatedProbePacketsReceived);
        },
        DatagramClass::Legacy(PunchPacketKind::Ack) => {
            r.push(SocketCounter::LegacyProbeAcksObserved);
        },
        DatagramClass::Encrypted => {
            r.push(SocketCounter::EncryptedPacketsReceived);
        },
        _ => {},
    }
    assert(r@ =~= reception(class, known_peer_ip));
    r
}

/// Whom an authenticated probe claims to come from and to be for.
pub struct ProbeIdentity {
    pub source_node_id: String,
    pub target_node_id: String,
    pub generation: u64,
}

/// Why an authenticated probe is ignored.
#[derive(Clone, Copy, Debug, PartialEq, Eq, Structural)]
pub enum AuthenticationRefusal {
    Malformed,
    UnknownLocalNode,
    WrongTarget,
    NoKey,
    InvalidMac,
}

impl AuthenticationRefusal {
    pub open spec fn counted_as(self) -> Option<SocketCounter> {
        match self {
            Self::Malformed => Some(SocketCounter::AuthenticatedProbeMalformed),
            Self::UnknownLocalNode => None,
            Self::WrongTarget => Some(SocketCounter::AuthenticatedProbeWrongTarget),
            Self::NoKey => Some(SocketCounter::AuthenticatedProbeNoKey),
            Self::InvalidMac => Some(SocketCounter::AuthenticatedProbeInvalidMac),
        }
    }

    pub fn counter(self) -> (r: Option<SocketCounter>)
        ensures
            r == self.counted_as(),
    {
        match self {
            Self::Malformed => Some(SocketCounter::AuthenticatedProbeMalformed),
            Self::UnknownLocalNode => None,
            Self::WrongTarget => Some(SocketCounter::AuthenticatedProbeWrongTarget),
            Self::NoKey => Some(SocketCounter::AuthenticatedProbeNoKey),
            Self::InvalidMac => Some(SocketCounter::AuthenticatedProbeInvalidMac),
        }
    }
}

/// Checks whom a probe is for, before any key is looked up.
pub fn check_probe_identity(
    identity: Option<&ProbeIdentity>,
    local_node_id: Option<&str>,
) -> (refusal: Option<AuthenticationRefusal>)
    ensures
        refusal == match (identity, local_node_id) {
            (None, _) => Some(AuthenticationRefusal::Malformed),
            (Some(_), None) => Some(AuthenticationRefusal::UnknownLocalNode),
            (Some(id), Some(local)) => if id.target_node_id@ != local@ {
                Some(AuthenticationRefusal::WrongTarget)
            } else {
                None
            },
        },
{
    match (identity, local_node_id) {
        (None, _) => Some(AuthenticationRefusal::Malformed),
        (Some(_), None) => Some(AuthenticationRefusal::UnknownLocalNode),
        (Some(id), Some(local)) => if !same_text(id.target_node_id.as_str(), local) {
            Some(AuthenticationRefusal::WrongTarget)
        } else {
            None
        },
    }
}

/// Checks whether one of a peer's keys verified the probe.
pub fn check_probe_keys(key_candidates: usize, verified: bool) -> (refusal: Option<
    AuthenticationRefusal,
>)
    ensures
        refusal == if key_candidates == 0 {
            Some(AuthenticationRefusal::NoKey)
        } else if !verified {
            Some(AuthenticationRefusal::InvalidMac)
        } else {
            None
        },
{
    if key_candidates == 0 {
        Some(AuthenticationRefusal::NoKey)
    } else if !verified {
        Some(AuthenticationRefusal::InvalidMac)
    } else {
        None
    }
}

/// What an authenticated punch waits for.
#[derive(Clone, Copy, Debug, PartialEq, Eq, Structural)]
pub enum PunchPhase {
    /// Confirm that the pending key belongs to a session that is up.
    Confirm,
    /// Answer with a burst.
    Acknowledge,
    /// Answer once and change nothing: the punch is a repetition.
    AcknowledgeReplay,
    /// Learn the endpoint that the punch came from.
    Learn,
    /// See whether the peer is still there.
    Exists,
    /// Adopt what the punch proved.
    Adopt,
    Done,
}

/// A verified punch on its way through.
pub struct AuthenticatedPunch {
    pub peer_id: String,
    pub generation: u64,
    pub nonce: ProbeNonce,
    pub use_candidate: bool,
    /// Whether only a pending key verified it.
    pub pending: bool,
    pub phase: PunchPhase,
    pub accepted: bool,
    pub confirmed: bool,
    pub learned: bool,
    pub ack_sent: bool,
}

/// What adopting a punch entails.
#[derive(Clone, Copy, Debug, PartialEq, Eq, Structural)]
pub struct PunchAdoption {
    /// Record a nomination besides the success.
    pub nominate: bool,
    /// Probe back, since the sender knows that we answer.
    pub trigger_check: bool,
}

impl AuthenticatedPunch {
    /// A repetition or a refused punch never gets as far as learning, and
    /// nothing is adopted before it was accepted, confirmed and learned.
    pub open spec fn wf(&self) -> bool {
        match self.phase {
            PunchPhase::Confirm => self.accepted && self.pending,
            PunchPhase::Acknowledge => self.accepted && (self.pending ==> self.confirmed),
            PunchPhase::AcknowledgeReplay => !self.accepted && !self.pending,
            PunchPhase::Learn => self.accepted && (self.pending ==> self.confirmed),
            PunchPhase::Exists => self.accepted && (self.pending ==> self.confirmed)
                && self.learned,
            PunchPhase::Adopt => self.accepted && (self.pending ==> self.confirmed) && self.learned,
            PunchPhase::Done => true,
        }
    }

    /// Admits a punch and says what comes first.
    pub fn begin(
        gate: &mut AuthenticatedPunchGate,
        peer_id: String,
        generation: u64,
        nonce: ProbeNonce,
        use_candidate: bool,
        pending: bool,
        source: SocketAddr,
        now: u64,
    ) -> (r: (AuthenticatedPunch, Option<SocketCounter>))
        requires
            old(gate).wf(),
        ensures
            final(gate).wf(),
            old(gate).admitted_to(
                *final(gate),
                crate::admission::Punched {
                    peer: peer_id@,
                    generation,
                    nonce,
                    kind: PunchPacketKind::Punch,
                },
                source,
                now,
            ),
            r.0.wf(),
            r.0.peer_id == peer_id,
            r.0.generation == generation,
            r.0.nonce == nonce,
            r.0.use_candidate == use_candidate,
            r.0.pending == pending,
            !r.0.learned && !r.0.ack_sent && !r.0.confirmed,
            ({
                let verdict = old(gate).verdict(
                    crate::admission::Punched {
                        peer: peer_id@,
                        generation,
                        nonce,
                        kind: PunchPacketKind::Punch,
                    },
                    source,
                    now,
                );
                &&& r.0.accepted == (verdict is Accepted)
                &&& r.0.phase == match verdict {
                    AuthenticatedPunchAdmission::Accepted => if pending {
                        PunchPhase::Confirm
                    } else {
                        PunchPhase::Acknowledge
                    },
                    AuthenticatedPunchAdmission::Replay => if pending {
                        PunchPhase::Done
                    } else {
                        PunchPhase::AcknowledgeReplay
                    },
                    AuthenticatedPunchAdmission::RateLimited => PunchPhase::Done,
                }
                &&& r.1 == if verdict is Accepted && !pending {
                    Some(SocketCounter::AuthenticatedProbePunchesReceived)
                } else {
                    None
                }
            }),
    {
        let admission = gate.admit_authenticated_punch(
            peer_id.as_str(),
            generation,
            PunchPacketKind::Punch,
            nonce,
            source,
            now,
        );
        let (phase, accepted): (PunchPhase, bool) = match admission {
            AuthenticatedPunchAdmission::Accepted => if pending {
                (PunchPhase::Confirm, true)
            } else {
                (PunchPhase::Acknowledge, true)
            },
            AuthenticatedPunchAdmission::Replay => if pending {
                (PunchPhase::Done, false)
            } else {
                (PunchPhase::AcknowledgeReplay, false)
            },
            AuthenticatedPunchAdmission::RateLimited => (PunchPhase::Done, false),
        };
        let counter = if accepted && !pending {
            Some(SocketCounter::AuthenticatedProbePunchesReceived)
        } else {
            None
        };
        (
            AuthenticatedPunch {
                peer_id,
                generation,
                nonce,
                use_candidate,
                pending,
                phase,
                accepted,
                confirmed: false,
                learned: false,
                ack_sent: false,
            },
            counter,
        )
    }

    /// The pending key was confirmed or not. A punch whose key was not is
    /// forgotten, so that its repetition is no replay.
    pub fn on_confirmed(
        &mut self,
        gate: &mut AuthenticatedPunchGate,
        confirmed: bool,
    ) -> (counter: Option<SocketCounter>)
        requires
            old(self).wf(),
            old(self).phase is Confirm,
            old(gate).wf(),
        ensures
            final(self).wf(),
            final(gate).wf(),
            *final(self) == (AuthenticatedPunch {
                confirmed,
                phase: if confirmed {
                    PunchPhase::Acknowledge
                } else {
                    PunchPhase::Done
                },
                ..*old(self)
            }),
            counter == if confirmed {
                Some(SocketCounter::AuthenticatedProbePunchesReceived)
            } else {
                None
            },
            confirmed ==> *final(gate) == *old(gate),
            !confirmed ==> final(gate).limits == old(gate).limits && final(gate).rate == old(gate).rate && final(gate).replay@ == old(gate).replay@.remove(
                crate::admission::Punched {
                    peer: old(self).peer_id@,
                    generation: old(self).generation,
                    nonce: old(self).nonce,
                    kind: PunchPacketKind::Punch,
                },
            ),
    {
        self.confirmed = confirmed;
        if confirmed {
            self.phase = PunchPhase::Acknowledge;
            Some(SocketCounter::AuthenticatedProbePunchesReceived)
        } else {
            gate.rollback_authenticated_punch_replay_admission(
                self.peer_id.as_str(),
                self.generation,
                PunchPacketKind::Punch,
                self.nonce,
            );
            self.phase = PunchPhase::Done;
            None
        }
    }

    /// The answer was sent or not. Learning goes on either way: what came in
    /// was verified.
    pub fn on_acknowledged(&mut self, sent: bool) -> (counter: Option<SocketCounter>)
        requires
            old(self).wf(),
            old(self).phase is Acknowledge || old(self).phase is AcknowledgeReplay,
        ensures
            final(self).wf(),
            *final(self) == (AuthenticatedPunch {
                ack_sent: sent,
                phase: if old(self).phase is Acknowledge {
                    PunchPhase::Learn
                } else {
                    PunchPhase::Done
                },
                ..*old(self)
            }),
            counter == if sent {
                Some(SocketCounter::ProbeAcksSent)
            } else {
                None
            },
    {
        self.ack_sent = sent;
        self.phase = match self.phase {
            PunchPhase::Acknowledge => PunchPhase::Learn,
            _ => PunchPhase::Done,
        };
        if sent {
            Some(SocketCounter::ProbeAcksSent)
        } else {
            None
        }
    }

    /// The endpoint was learned, or the peer had gone.
    pub fn on_learned(&mut self, learned: bool)
        requires
            old(self).wf(),
            old(self).phase is Learn,
        ensures
            final(self).wf(),
            *final(self) == (AuthenticatedPunch {
                learned,
                phase: if learned {
                    PunchPhase::Exists
                } else {
                    PunchPhase::Done
                },
                ..*old(self)
            }),
    {
        self.learned = learned;
        self.phase = if learned {
            PunchPhase::Exists
        } else {
            PunchPhase::Done
        };
    }

    /// Whether the peer is still there, seen under its adoption lock.
    pub fn on_exists(&mut self, present: bool) -> (adoption: Option<PunchAdoption>)
        requires
            old(self).wf(),
            old(self).phase is Exists,
        ensures
            final(self).wf(),
            *final(self) == (AuthenticatedPunch {
                phase: if present {
                    PunchPhase::Adopt
                } else {
                    PunchPhase::Done
                },
                ..*old(self)
            }),
            adoption == if present {
                Some(
                    PunchAdoption {
                        nominate: old(self).use_candidate,
                        trigger_check: old(self).ack_sent,
                    },
                )
            } else {
                None
            },
    {
        if !present {
            self.phase = PunchPhase::Done;
            return None;
        }
        self.phase = PunchPhase::Adopt;
        Some(PunchAdoption { nominate: self.use_candidate, trigger_check: self.ack_sent })
    }
}

/// A punch is adopted only if it was accepted as new, its session was
/// confirmed where it had to be, and its peer learned it.
pub proof fn law_only_accepted_punches_are_adopted(punch: AuthenticatedPunch)
    requires
        punch.wf(),
        punch.phase is Adopt,
    ensures
        punch.accepted,
        punch.pending ==> punch.confirmed,
        punch.learned,
{
}

/// An acknowledgement whose probe was found.
pub struct MatchedAck {
    pub peer_id: String,
    pub nonce: ProbeNonce,
    pub pending: PendingProbe,
}

/// What adopting an acknowledgement entails: the latency is that of the
/// probe, and its socket is adopted only as of the epoch at which the probe
/// was sent.
#[derive(Clone, Copy, Debug, PartialEq, Eq, Structural)]
pub struct AckAdoption {
    pub latency: u64,
    pub generation: u64,
    pub local_endpoint: Option<SocketAddr>,
    pub socket_epoch: u64,
    pub direct_commit_seq: u64,
    pub consent: bool,
}

/// What an acknowledgement of `pending` that comes at `now` entails.
pub open spec fn adoption_of(pending: PendingProbe, now: u64) -> AckAdoption {
    AckAdoption {
        latency: crate::window::elapsed(now, pending.sent_at),
        generation: pending.generation,
        local_endpoint: pending.local_endpoint,
        socket_epoch: pending.socket_epoch,
        direct_commit_seq: pending.direct_commit_seq,
        consent: pending.purpose == PendingProbePurpose::ConsentCheck,
    }
}

pub fn plan_adoption(pending: &PendingProbe, now: u64) -> (adoption: AckAdoption)
    ensures
        adoption == adoption_of(*pending, now),
{
    AckAdoption {
        latency: saturating_since(now, pending.sent_at),
        generation: pending.generation,
        local_endpoint: pending.local_endpoint,
        socket_epoch: pending.socket_epoch,
        direct_commit_seq: pending.direct_commit_seq,
        consent: matches!(pending.purpose, PendingProbePurpose::ConsentCheck),
    }
}

/// Takes in a verified acknowledgement. What is counted comes with it: every
/// one is observed, and one that answers nothing is unmatched.
pub fn begin_authenticated_ack(
    probes: &mut PendingProbes,
    state: &SocketState,
    peer_id: String,
    nonce: ProbeNonce,
    generation: u64,
    socket_index: usize,
) -> (r: (Option<MatchedAck>, Vec<SocketCounter>))
    requires
        old(probes).wf(),
        state.wf(),
    ensures
        final(probes).wf(),
        final(probes).bindings == old(probes).bindings,
        ({
            let probe = old(probes).probe(nonce);
            let answers = probe is Some && (probe->0).answered_by(
                peer_id@,
                generation,
                socket_index,
                state@.cleanup_epoch(peer_id@),
            );
            &&& r.0 == if answers {
                Some(MatchedAck { peer_id, nonce, pending: probe->0 })
            } else {
                None
            }
            &&& final(probes).probes@ == if answers {
                old(probes).probes@.remove(nonce)
            } else {
                old(probes).probes@
            }
            &&& r.1@ == if answers {
                seq![SocketCounter::AuthenticatedProbeAcksObserved]
            } else {
                seq![
                    SocketCounter::AuthenticatedProbeAcksObserved,
                    SocketCounter::AuthenticatedProbeAcksUnmatched,
                ]
            }
        }),
{
    let mut counters: Vec<SocketCounter> = Vec::new();
    counters.push(SocketCounter::AuthenticatedProbeAcksObserved);
    match probes.match_authenticated_ack(
        state,
        peer_id.as_str(),
        nonce,
        generation,
        socket_index,
    ) {
        Some(pending) => (Some(MatchedAck { peer_id, nonce, pending }), counters),
        None => {
            counters.push(SocketCounter::AuthenticatedProbeAcksUnmatched);
            (None, counters)
        },
    }
}

impl MatchedAck {
    /// Whether the peer was not cleaned up since. Nothing is adopted from an
    /// acknowledgement of before.
    pub fn still_clean(&self, state: &SocketState) -> (r: bool)
        requires
            state.wf(),
        ensures
            r == crate::pending::spec_peer_still_clean(*state, self.pending),
    {
        peer_still_clean(state, &self.pending)
    }

    /// Adopts an acknowledgement that is clean and confirmed, and says what is
    /// counted.
    pub fn adopt(&self, now: u64) -> (r: (AckAdoption, SocketCounter))
        ensures
            r.0 == adoption_of(self.pending, now),
            r.1 == SocketCounter::ProbeAcksReceived,
    {
        (plan_adoption(&self.pending, now), SocketCounter::ProbeAcksReceived)
    }

    /// Ends an acknowledgement that only a pending key verified. Where the
    /// key was not confirmed the probe waits on, unless its peer was cleaned
    /// up.
    pub fn on_confirmed(
        self,
        confirmed: bool,
        probes: &mut PendingProbes,
        state: &SocketState,
    ) -> (r: Option<MatchedAck>)
        requires
            old(probes).wf(),
            state.wf(),
        ensures
            final(probes).wf(),
            final(probes).bindings == old(probes).bindings,
            confirmed ==> r == Some(self) && final(probes).probes == old(probes).probes,
            !confirmed ==> r is None && final(probes).probes@ == if
                crate::pending::spec_peer_still_clean(*state, self.pending) && !old(probes).probes@.dom().contains(self.nonce) {
                old(probes).probes@.insert(self.nonce, self.pending)
            } else {
                old(probes).probes@
            },
    {
        if confirmed {
            return Some(self);
        }
        let _ = probes.restore_pending_probe_if_peer_still_clean(state, self.nonce, self.pending);
        None
    }
}

/// What follows once the peer's books took the success in or not: a fresh
/// success starts the encrypted validation, and that of a consent check is
/// noted.
pub fn after_ack_recorded(accepted: bool, adoption: &AckAdoption) -> (r: (bool, bool))
    ensures
        r.0 == accepted,
        r.1 == (accepted && adoption.consent),
{
    (accepted, accepted && adoption.consent)
}

/// Whose acknowledgement a legacy one is.
pub enum LegacyAckPeer {
    /// The peer that the matched probe was sent to.
    Known(String),
    /// Nobody's yet: the source address may name a peer.
    AskSource,
}

/// The peer of a legacy acknowledgement comes from the matched probe. The
/// source address alone, which may be forged, is asked only where there is
/// none.
pub fn legacy_ack_peer(matched: &Option<PendingProbe>) -> (r: LegacyAckPeer)
    ensures
        match matched {
            Some(pending) => match pending.peer_id {
                Some(peer) => r == LegacyAckPeer::Known(peer),
                None => r is AskSource,
            },
            None => r is AskSource,
        },
{
    match matched {
        Some(pending) => match &pending.peer_id {
            Some(peer) => LegacyAckPeer::Known(peer.clone()),
            None => LegacyAckPeer::AskSource,
        },
        None => LegacyAckPeer::AskSource,
    }
}

/// What a legacy acknowledgement leads to.
#[derive(Clone, Copy, Debug, PartialEq, Eq, Structural)]
pub enum LegacyAckVerdict {
    Adopt(AckAdoption),
    /// It answers nothing.
    Unmatched,
    /// The peer was cleaned up after the probe was sent, or nobody is known.
    Ignored,
}

pub open spec fn legacy_verdict(
    matched: Option<PendingProbe>,
    peer: Option<Seq<char>>,
    state: SocketState,
    now: u64,
) -> LegacyAckVerdict {
    match (matched, peer) {
        (None, _) => LegacyAckVerdict::Unmatched,
        (Some(_), None) => LegacyAckVerdict::Ignored,
        (Some(pending), Some(peer)) => if state@.cleanup_epoch(peer) == pending.cleanup_epoch {
            LegacyAckVerdict::Adopt(adoption_of(pending, now))
        } else {
            LegacyAckVerdict::Ignored
        },
    }
}

/// Decides about a legacy acknowledgement under the adoption lock of its
/// peer, before anything is learned from it.
pub fn judge_legacy_ack(
    matched: &Option<PendingProbe>,
    peer_id: Option<&str>,
    state: &SocketState,
    now: u64,
) -> (verdict: LegacyAckVerdict)
    requires
        state.wf(),
    ensures
        verdict == legacy_verdict(*matched, crate::pending::str_option(peer_id), *state, now),
{
    match (matched, peer_id) {
        (None, _) => LegacyAckVerdict::Unmatched,
        (Some(_), None) => LegacyAckVerdict::Ignored,
        (Some(pending), Some(peer)) => if state.peer_probe_cleanup_epoch(peer)
            == pending.cleanup_epoch {
            LegacyAckVerdict::Adopt(plan_adoption(pending, now))
        } else {
            LegacyAckVerdict::Ignored
        },
    }
}

impl LegacyAckVerdict {
    pub fn counter(self) -> (r: Option<SocketCounter>)
        ensures
            r == match self {
                LegacyAckVerdict::Adopt(_) => Some(SocketCounter::ProbeAcksReceived),
                LegacyAckVerdict::Unmatched => Some(SocketCounter::LegacyProbeAcksUnmatched),
                LegacyAckVerdict::Ignored => None,
            },
    {
        match self {
            LegacyAckVerdict::Adopt(_) => Some(SocketCounter::ProbeAcksReceived),
            LegacyAckVerdict::Unmatched => Some(SocketCounter::LegacyProbeAcksUnmatched),
            LegacyAckVerdict::Ignored => None,
        }
    }
}

/// A legacy punch is adopted if it was answered, its source names a peer and
/// the peer is still there.
pub fn legacy_punch_is_adopted(ack_sent: bool, learned: bool, present: bool) -> (r: bool)
    ensures
        r == (ack_sent && learned && present),
{
    ack_sent && learned && present
}

/// What an observed endpoint leads to. A peer with a confirmed path needs no
/// further traversal.
#[derive(Clone, Copy, Debug, PartialEq, Eq, Structural)]
pub struct ReflexiveNotice {
    /// Feed the peer's allocation learner.
    pub observe: bool,
    /// Hand the observation to the daemon.
    pub submit: bool,
}

pub fn notify_peer_reflexive_observation(direct: bool, has_ingress: bool) -> (r: ReflexiveNotice)
    ensures
        r.observe == !direct,
        r.submit == (!direct && has_ingress),
{
    ReflexiveNotice { observe: !direct, submit: !direct && has_ingress }
}

/// Admits a reverse check in answer to a punch, unless the peer's path is
/// confirmed already.
pub fn trigger_peer_reflexive_check(
    checks: &mut TriggeredChecks,
    direct: bool,
    peer_id: &str,
    observed_endpoint: SocketAddr,
    now: u64,
) -> (endpoint: Option<SocketAddr>)
    requires
        old(checks).wf(),
    ensures
        final(checks).wf(),
        final(checks).cooldown == old(checks).cooldown,
        direct ==> endpoint is None && *final(checks) == *old(checks),
        !direct ==> endpoint == if old(checks).admits(peer_id@, now) {
            Some(observed_endpoint)
        } else {
            None
        },
        !direct ==> final(checks).checks@ == old(checks).checked(peer_id@, observed_endpoint, now),
{
    if direct {
        return None;
    }
    checks.admit_triggered_check(peer_id, observed_endpoint, now)
}

/// A forged legacy acknowledgement moves nothing: without a probe that went
/// to its source it is unmatched, whoever the source address names.
pub proof fn law_unsolicited_legacy_ack_is_unmatched(
    peer: Option<Seq<char>>,
    state: SocketState,
    now: u64,
)
    ensures
        legacy_verdict(None, peer, state, now) is Unmatched,
{
}

/// What a datagram is: nothing where it is empty, then the first of what it can
/// be read as, and encrypted where it is none of these.
pub proof fn law_datagram_classes(f: DatagramFacts)
    ensures
        datagram_class(f) is Empty <==> f.len == 0,
        datagram_class(f) is Stun <==> f.len > 0 && f.stun,
        datagram_class(f) is Authenticated <==> f.len > 0 && !f.stun && f.authenticated_candidate,
        datagram_class(f) is Encrypted <==> f.len > 0 && !f.stun && !f.authenticated_candidate
            && f.legacy is None,
        f.len > 0 && !f.stun && !f.authenticated_candidate ==> (f.legacy matches Some(kind)
            ==> datagram_class(f) == DatagramClass::Legacy(kind)),
{
}

/// What is counted of a datagram: that one came in, whether from a known
/// address, and of some kinds that it was of the kind. An empty one counts for
/// nothing.
pub proof fn law_reception_counts(class: DatagramClass, known: bool, counter: SocketCounter)
    ensures
        reception(DatagramClass::Empty, known).len() == 0,
        !(class is Empty) ==> reception(class, known)[0] == SocketCounter::DatagramsReceived,
        !(class is Empty) && known ==> reception(class, known)[1]
            == SocketCounter::KnownPeerIpDatagramsReceived,
        !(class is Empty) ==> reception(class, known).len() == 1 + (if known {
            1int
        } else {
            0
        }) + (if class is Authenticated || class is Encrypted || class == DatagramClass::Legacy(
            PunchPacketKind::Ack,
        ) {
            1int
        } else {
            0
        }),
        class is Authenticated ==> reception(class, known).last()
            == SocketCounter::AuthenticatedProbePacketsReceived,
        class is Encrypted ==> reception(class, known).last()
            == SocketCounter::EncryptedPacketsReceived,
        class == DatagramClass::Legacy(PunchPacketKind::Ack) ==> reception(class, known).last()
            == SocketCounter::LegacyProbeAcksObserved,
{
}

/// A refused authentication is counted as what it was refused for; one that
/// nobody could judge is not counted.
pub proof fn law_refused_authentications_are_counted()
    ensures
        AuthenticationRefusal::Malformed.counted_as() == Some(
            SocketCounter::AuthenticatedProbeMalformed,
        ),
        AuthenticationRefusal::UnknownLocalNode.counted_as() is None,
        AuthenticationRefusal::WrongTarget.counted_as() == Some(
            SocketCounter::AuthenticatedProbeWrongTarget,
        ),
        AuthenticationRefusal::NoKey.counted_as() == Some(SocketCounter::AuthenticatedProbeNoKey),
        AuthenticationRefusal::InvalidMac.counted_as() == Some(
            SocketCounter::AuthenticatedProbeInvalidMac,
        ),
{
}

/// A punch never gets past its confirmation, and none is adopted that was not
/// learned.
pub proof fn law_punch_steps(punch: AuthenticatedPunch)
    requires
        punch.wf(),
    ensures
        punch.phase is Confirm ==> punch.accepted && punch.pending,
        punch.phase is AcknowledgeReplay ==> !punch.accepted && !punch.pending,
        punch.phase is Acknowledge || punch.phase is Learn || punch.phase is Exists
            || punch.phase is Adopt ==> punch.accepted && (punch.pending ==> punch.confirmed),
        punch.phase is Exists || punch.phase is Adopt ==> punch.learned,
{
}

/// What an answer proves is that of its probe, with the time it took.
pub proof fn law_adoption_of_an_answer(pending: PendingProbe, now: u64)
    ensures
        ({
            let a = adoption_of(pending, now);
            &&& now >= pending.sent_at ==> a.latency == now - pending.sent_at
            &&& now < pending.sent_at ==> a.latency == 0
            &&& a.generation == pending.generation
            &&& a.local_endpoint == pending.local_endpoint
            &&& a.socket_epoch == pending.socket_epoch
            &&& a.direct_commit_seq == pending.direct_commit_seq
            &&& a.consent <==> pending.purpose == PendingProbePurpose::ConsentCheck
        }),
{
}

/// A legacy answer is adopted exactly where it answers a probe, its peer is
/// known, and that one was not cleaned up since.
pub proof fn law_legacy_verdicts(
    pending: PendingProbe,
    peer: Seq<char>,
    someone: Option<Seq<char>>,
    state: SocketState,
    now: u64,
)
    ensures
        legacy_verdict(None, someone, state, now) is Unmatched,
        legacy_verdict(Some(pending), None, state, now) is Ignored,
        state@.cleanup_epoch(peer) == pending.cleanup_epoch ==> legacy_verdict(
            Some(pending),
            Some(peer),
            state,
            now,
        ) == LegacyAckVerdict::Adopt(adoption_of(pending, now)),
        state@.cleanup_epoch(peer) != pending.cleanup_epoch ==> legacy_verdict(
            Some(pending),
            Some(peer),
            state,
            now,
        ) is Ignored,
{
}

} // verus!

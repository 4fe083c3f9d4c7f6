//! A sweep of candidates from one dedicated socket, probe by probe.
//!
//! The sweep asks before each probe whether its session still stands, whether
//! the endpoint is quarantined and whether the budgets have room, and it books
//! what came of it.

use vstd::prelude::*;
use crate::birthday_sweep::same_number;
use crate::failure::{
    combine_birthday_failure_kind, BirthdaySweepFailureKind, ProbeSendFailureKind,
};
use crate::histogram::{clamp_u32, lists, max_u64};
use crate::net::SocketAddr;
use crate::probe_budget::{outbound_probe_admission_reason, OutboundProbeAdmission};
use crate::punch_reports::{LiveBirthdayProgress, Punch, PunchSendReport};

verus! {

/// One round of a probe schedule.
pub struct ProbeRound {
    /// Nanoseconds to wait first.
    pub delay_before: u64,
    pub endpoints: Vec<SocketAddr>,
}

/// What a sweep was started under.
#[derive(Clone, Copy, Debug)]
pub struct SweepFence {
    pub network_generation: u64,
    pub remote_candidate_epoch: u64,
    pub direct_commit_seq: Option<u64>,
    /// Local and remote profile generation, for a sweep that depends on them.
    pub profile: Option<(u64, u64)>,
    /// Whether the sweep belongs to a session with a token.
    pub has_token: bool,
}

/// How things stand before a probe.
#[derive(Clone, Copy, Debug)]
pub struct SweepState {
    pub winner_selected: bool,
    pub network_generation: u64,
    pub remote_candidate_epoch: u64,
    pub plan: Option<(u64, u64)>,
    pub token_current: bool,
    pub direct: bool,
    pub direct_commit_seq: Option<u64>,
}

/// Why a target was skipped.
#[derive(Clone, Copy, Debug, PartialEq, Eq, Structural)]
pub enum BudgetReason {
    SlowRelayRetained,
    Limited(OutboundProbeAdmission),
}

impl BudgetReason {
    pub open spec fn text(self) -> Seq<char> {
        match self {
            Self::SlowRelayRetained => "direct_slow_relay_retained"@,
            Self::Limited(admission) => crate::probe_budget::admission_text(admission),
        }
    }

    pub fn label(self) -> (r: &'static str)
        ensures
            r@ == self.text(),
    {
        match self {
            Self::SlowRelayRetained => "direct_slow_relay_retained",
            Self::Limited(admission) => outbound_probe_admission_reason(admission),
        }
    }
}

/// A probe that left.
#[derive(Clone, Copy, Debug, PartialEq, Eq, Structural)]
pub struct SentProbe {
    pub datagrams_sent: u8,
    pub physical_send_errors: u8,
    pub physical_bytes_sent: u64,
    pub physical_send_error_bytes: u64,
    pub socket_index: usize,
    pub first_send_at_ms: Option<u64>,
}

/// A probe that did not.
#[derive(Clone, Copy, Debug, PartialEq, Eq, Structural)]
pub struct FailedProbe {
    pub kind: ProbeSendFailureKind,
    pub physical_send_errors: u8,
    pub physical_send_error_bytes: u64,
}

/// The books of a sweep.
#[derive(Clone, Copy, Debug, PartialEq, Eq, Structural)]
pub struct SweepCounters {
    pub logical_probes_attempted: u32,
    pub logical_probes_sent: u32,
    pub logical_probe_send_failures: u32,
    pub physical_datagrams_sent: u32,
    pub physical_bytes_sent: u64,
    pub physical_send_errors: u32,
    pub physical_send_error_bytes: u64,
    pub partial_physical_send_errors: u32,
    pub probe_path_errors: u32,
    pub budget_skipped: u32,
    pub first_send_at_ms: Option<u64>,
    pub last_send_at_ms: Option<u64>,
    /// The socket that sent last.
    pub sending_socket: usize,
    pub targets_examined: u32,
    pub targets_attempted: u32,
    pub completed: bool,
    pub failure_kind: Option<BirthdaySweepFailureKind>,
    pub last_budget_reason: Option<BudgetReason>,
}

impl SweepCounters {
    pub open spec fn blank(socket: usize) -> SweepCounters {
        SweepCounters {
            logical_probes_attempted: 0,
            logical_probes_sent: 0,
            logical_probe_send_failures: 0,
            physical_datagrams_sent: 0,
            physical_bytes_sent: 0,
            physical_send_errors: 0,
            physical_send_error_bytes: 0,
            partial_physical_send_errors: 0,
            probe_path_errors: 0,
            budget_skipped: 0,
            first_send_at_ms: None,
            last_send_at_ms: None,
            sending_socket: socket,
            targets_examined: 0,
            targets_attempted: 0,
            completed: true,
            failure_kind: None,
            last_budget_reason: None,
        }
    }

    /// The sweep left targets unprocessed, for the given reason if any.
    pub open spec fn cut_short(self, kind: Option<BirthdaySweepFailureKind>) -> SweepCounters {
        SweepCounters {
            completed: false,
            failure_kind: crate::failure::combined(self.failure_kind, kind),
            ..self
        }
    }

    pub open spec fn examined(self) -> SweepCounters {
        SweepCounters {
            targets_examined: crate::histogram::add32(self.targets_examined, 1),
            ..self
        }
    }

    pub open spec fn attempted(self) -> SweepCounters {
        SweepCounters {
            targets_attempted: crate::histogram::add32(self.targets_attempted, 1),
            ..self
        }
    }

    pub open spec fn skipped(self, reason: BudgetReason) -> SweepCounters {
        SweepCounters {
            budget_skipped: crate::histogram::add32(self.budget_skipped, 1),
            last_budget_reason: Some(reason),
            ..self
        }
    }

    pub open spec fn probed(self) -> SweepCounters {
        SweepCounters {
            logical_probes_attempted: crate::histogram::add32(self.logical_probes_attempted, 1),
            ..self
        }
    }

    pub open spec fn sent(self, probe: SentProbe) -> SweepCounters {
        let failed = probe.physical_send_errors as u32;
        SweepCounters {
            logical_probes_sent: crate::histogram::add32(self.logical_probes_sent, 1),
            physical_datagrams_sent: crate::histogram::add32(
                self.physical_datagrams_sent,
                probe.datagrams_sent as u32,
            ),
            physical_bytes_sent: crate::histogram::add64(
                self.physical_bytes_sent,
                probe.physical_bytes_sent,
            ),
            physical_send_errors: crate::histogram::add32(self.physical_send_errors, failed),
            physical_send_error_bytes: crate::histogram::add64(
                self.physical_send_error_bytes,
                probe.physical_send_error_bytes,
            ),
            partial_physical_send_errors: crate::histogram::add32(
                self.partial_physical_send_errors,
                failed,
            ),
            first_send_at_ms: if self.first_send_at_ms is Some {
                self.first_send_at_ms
            } else {
                probe.first_send_at_ms
            },
            last_send_at_ms: crate::histogram::later(self.last_send_at_ms, probe.first_send_at_ms),
            sending_socket: probe.socket_index,
            ..self
        }
    }

    /// Whether a failure is one of the socket alone.
    pub open spec fn is_send_error(probe: FailedProbe) -> bool {
        probe.kind == ProbeSendFailureKind::PhysicalSend && probe.physical_send_errors > 0
    }

    pub open spec fn failed(self, probe: FailedProbe) -> SweepCounters {
        let bytes = crate::histogram::add64(
            self.physical_send_error_bytes,
            probe.physical_send_error_bytes,
        );
        if Self::is_send_error(probe) {
            SweepCounters {
                physical_send_error_bytes: bytes,
                physical_send_errors: crate::histogram::add32(
                    self.physical_send_errors,
                    probe.physical_send_errors as u32,
                ),
                logical_probe_send_failures: crate::histogram::add32(
                    self.logical_probe_send_failures,
                    1,
                ),
                ..self
            }
        } else {
            SweepCounters {
                physical_send_error_bytes: bytes,
                probe_path_errors: crate::histogram::add32(self.probe_path_errors, 1),
                ..self.cut_short(Some(BirthdaySweepFailureKind::of_probe(probe.kind)))
            }
        }
    }
}

/// What a sweep waits for.
#[derive(Clone, Copy, Debug, PartialEq, Eq, Structural)]
pub enum SweepPhase {
    /// The network generation, before a round.
    Round,
    /// The state of the session, before a target.
    Target,
    /// Whether the target is quarantined.
    Quarantine,
    /// Whether the budgets have room.
    Admission,
    /// The outcome of the send.
    Sending,
    Finished,
}

/// Where a sweep stands.
pub struct Sweep {
    pub round: int,
    pub position: int,
    pub phase: SweepPhase,
    pub counters: SweepCounters,
    /// The endpoints that a datagram was sent to.
    pub sent: Seq<SocketAddr>,
}

/// Why a target is not probed: the session ended, or the round did.
pub enum TargetRefusal {
    /// The whole sweep ends.
    Sweep,
    /// The round ends, for the given reason if any.
    Round(Option<BirthdaySweepFailureKind>),
}

/// The first fence, in order of precedence, that no longer holds.
pub open spec fn target_refusal(fence: SweepFence, state: SweepState) -> Option<TargetRefusal> {
    if fence.has_token && state.winner_selected {
        Some(TargetRefusal::Sweep)
    } else if state.network_generation != fence.network_generation {
        Some(TargetRefusal::Round(Some(BirthdaySweepFailureKind::NetworkGenerationChanged)))
    } else if state.remote_candidate_epoch != fence.remote_candidate_epoch {
        Some(TargetRefusal::Round(Some(BirthdaySweepFailureKind::CandidateEpochChanged)))
    } else if fence.profile is Some && state.plan != fence.profile {
        Some(
            TargetRefusal::Round(
                Some(
                    if state.plan is Some {
                        BirthdaySweepFailureKind::ProfileGenerationChanged
                    } else {
                        BirthdaySweepFailureKind::PeerSessionChanged
                    },
                ),
            ),
        )
    } else if fence.has_token && !state.token_current {
        Some(TargetRefusal::Round(Some(BirthdaySweepFailureKind::SessionRetired)))
    } else if state.direct {
        Some(TargetRefusal::Round(None))
    } else if state.direct_commit_seq != fence.direct_commit_seq {
        Some(TargetRefusal::Round(None))
    } else {
        None
    }
}

/// The profile fence of a sweep: which generation moved, if one did.
pub open spec fn profile_failure(
    profile: Option<(u64, u64)>,
    plan: Option<(u64, u64)>,
) -> Option<ProbeSendFailureKind> {
    if profile is None || plan == profile {
        None
    } else if plan is None {
        Some(ProbeSendFailureKind::PeerSessionChanged)
    } else if (plan->0).0 != (profile->0).0 {
        Some(ProbeSendFailureKind::LocalProfileGenerationChanged)
    } else {
        Some(ProbeSendFailureKind::RemoteProfileGenerationChanged)
    }
}

pub fn check_profile_fence(
    profile: Option<(u64, u64)>,
    plan: Option<(u64, u64)>,
) -> (r: Option<ProbeSendFailureKind>)
    ensures
        r == profile_failure(profile, plan),
{
    match (profile, plan) {
        (None, _) => None,
        (Some(_), None) => Some(ProbeSendFailureKind::PeerSessionChanged),
        (Some(wanted), Some(current)) => {
            if current.0 == wanted.0 && current.1 == wanted.1 {
                None
            } else if current.0 != wanted.0 {
                Some(ProbeSendFailureKind::LocalProfileGenerationChanged)
            } else {
                Some(ProbeSendFailureKind::RemoteProfileGenerationChanged)
            }
        },
    }
}

/// A sweep of a schedule from one socket.
pub struct SocketSweep {
    pub schedule: Vec<ProbeRound>,
    pub fence: SweepFence,
    pub assigned: usize,
    pub round: usize,
    pub position: usize,
    pub phase: SweepPhase,
    pub counters: SweepCounters,
    pub sent_endpoints: Vec<SocketAddr>,
}

impl SocketSweep {
    pub open spec fn view(&self) -> Sweep {
        Sweep {
            round: self.round as int,
            position: self.position as int,
            phase: self.phase,
            counters: self.counters,
            sent: self.sent_endpoints@,
        }
    }

    /// The target that the sweep is at.
    pub open spec fn target(&self) -> SocketAddr {
        self.schedule@[self.round as int].endpoints@[self.position as int]
    }

    /// Whether the sweep is at a target.
    pub open spec fn at_target(&self) -> bool {
        &&& self.round < self.schedule@.len()
        &&& self.position < self.schedule@[self.round as int].endpoints@.len()
    }

    /// The books balance: every attempted target was skipped, probed or is
    /// being decided, and every probe was sent, failed or is under way.
    pub open spec fn balanced(&self) -> bool {
        let c = self.counters;
        let deciding: int = if self.phase is Quarantine || self.phase is Admission {
            1
        } else {
            0
        };
        let sending: int = if self.phase is Sending {
            1
        } else {
            0
        };
        &&& c.targets_attempted <= c.targets_examined
        &&& c.targets_attempted < u32::MAX ==> c.targets_attempted == c.budget_skipped
            + c.logical_probes_attempted + deciding
        &&& c.targets_attempted < u32::MAX ==> c.logical_probes_attempted == c.logical_probes_sent
            + c.logical_probe_send_failures + c.probe_path_errors + sending
    }

    pub open spec fn wf(&self) -> bool {
        &&& self.balanced()
        &&& self.round <= self.schedule@.len()
        &&& (self.phase is Target ==> self.round < self.schedule@.len() && self.position
            <= self.schedule@[self.round as int].endpoints@.len())
        &&& (self.phase is Quarantine || self.phase is Admission || self.phase is Sending
            ==> self.at_target())
        &&& self.sent_endpoints@.no_duplicates()
    }

    /// Nothing but the point in the schedule and the books changed.
    pub open spec fn same_plan(&self, next: &SocketSweep) -> bool {
        &&& next.schedule == self.schedule
        &&& next.fence == self.fence
        &&& next.assigned == self.assigned
    }

    pub fn new(
        socket_index: usize,
        assigned: usize,
        schedule: Vec<ProbeRound>,
        fence: SweepFence,
    ) -> (sweep: Self)
        ensures
            sweep.wf(),
            sweep.schedule == schedule,
            sweep.fence == fence,
            sweep.assigned == assigned,
            sweep@ == (Sweep {
                round: 0,
                position: 0,
                phase: SweepPhase::Round,
                counters: SweepCounters::blank(socket_index),
                sent: Seq::empty(),
            }),
    {
        SocketSweep {
            schedule,
            fence,
            assigned,
            round: 0,
            position: 0,
            phase: SweepPhase::Round,
            counters: SweepCounters {
                logical_probes_attempted: 0,
                logical_probes_sent: 0,
                logical_probe_send_failures: 0,
                physical_datagrams_sent: 0,
                physical_bytes_sent: 0,
                physical_send_errors: 0,
                physical_send_error_bytes: 0,
                partial_physical_send_errors: 0,
                probe_path_errors: 0,
                budget_skipped: 0,
                first_send_at_ms: None,
                last_send_at_ms: None,
                sending_socket: socket_index,
                targets_examined: 0,
                targets_attempted: 0,
                completed: true,
                failure_kind: None,
                last_budget_reason: None,
            },
            sent_endpoints: Vec::new(),
        }
    }

    /// Enters the next round and gives the delay before it, or ends the sweep.
    pub fn begin_round(&mut self, network_generation: u64) -> (delay: Option<u64>)
        requires
            old(self).wf(),
            old(self).phase is Round,
        ensures
            final(self).wf(),
            old(self).same_plan(final(self)),
            ({
                let before = old(self)@;
                if before.round >= old(self).schedule@.len() {
                    &&& delay is None
                    &&& final(self)@ == (Sweep { phase: SweepPhase::Finished, ..before })
                } else if network_generation != old(self).fence.network_generation {
                    &&& delay is None
                    &&& final(self)@ == (Sweep {
                        phase: SweepPhase::Finished,
                        counters: before.counters.cut_short(
                            Some(BirthdaySweepFailureKind::NetworkGenerationChanged),
                        ),
                        ..before
                    })
                } else {
                    &&& delay == Some(old(self).schedule@[before.round].delay_before)
                    &&& final(self)@ == (Sweep {
                        phase: SweepPhase::Target,
                        position: 0,
                        ..before
                    })
                }
            }),
    {
        if self.round >= self.schedule.len() {
            self.phase = SweepPhase::Finished;
            return None;
        }
        if network_generation != self.fence.network_generation {
            self.cut_short(Some(BirthdaySweepFailureKind::NetworkGenerationChanged));
            self.phase = SweepPhase::Finished;
            return None;
        }
        self.phase = SweepPhase::Target;
        self.position = 0;
        Some(self.schedule[self.round].delay_before)
    }

    fn cut_short(&mut self, kind: Option<BirthdaySweepFailureKind>)
        ensures
            *final(self) == (SocketSweep {
                counters: old(self).counters.cut_short(kind),
                ..*old(self)
            }),
    {
        self.counters.completed = false;
        self.counters.failure_kind = combine_birthday_failure_kind(
            self.counters.failure_kind,
            kind,
        );
    }

    /// Looks at the next target of the round. `Some` is a target that passed
    /// every fence; otherwise the round or the sweep is over.
    pub fn next_target(&mut self, state: &SweepState) -> (target: Option<SocketAddr>)
        requires
            old(self).wf(),
            old(self).phase is Target,
        ensures
            final(self).wf(),
            old(self).same_plan(final(self)),
            ({
                let before = old(self)@;
                let examined = before.counters.examined();
                if !old(self).at_target() {
                    &&& target is None
                    &&& final(self)@ == (Sweep {
                        phase: SweepPhase::Round,
                        round: before.round + 1,
                        position: 0,
                        ..before
                    })
                } else {
                    match target_refusal(old(self).fence, *state) {
                        Some(TargetRefusal::Sweep) => {
                            &&& target is None
                            &&& final(self)@ == (Sweep {
                                phase: SweepPhase::Finished,
                                counters: examined.cut_short(None),
                                ..before
                            })
                        },
                        Some(TargetRefusal::Round(kind)) => {
                            &&& target is None
                            &&& final(self)@ == (Sweep {
                                phase: SweepPhase::Round,
                                round: before.round + 1,
                                position: 0,
                                counters: examined.cut_short(kind),
                                ..before
                            })
                        },
                        None => {
                            &&& target == Some(old(self).target())
                            &&& final(self)@ == (Sweep {
                                phase: SweepPhase::Quarantine,
                                counters: examined.attempted(),
                                ..before
                            })
                        },
                    }
                }
            }),
    {
        if self.position >= self.schedule[self.round].endpoints.len() {
            self.phase = SweepPhase::Round;
            assert(self.round < self.schedule.len());
            self.round = self.round + 1;
            self.position = 0;
            return None;
        }
        self.counters.targets_examined = self.counters.targets_examined.saturating_add(1);
        if self.fence.has_token && state.winner_selected {
            self.cut_short(None);
            self.phase = SweepPhase::Finished;
            return None;
        }
        let mut refused: bool = true;
        let mut kind: Option<BirthdaySweepFailureKind> = None;
        if state.network_generation != self.fence.network_generation {
            kind = Some(BirthdaySweepFailureKind::NetworkGenerationChanged);
        } else if state.remote_candidate_epoch != self.fence.remote_candidate_epoch {
            kind = Some(BirthdaySweepFailureKind::CandidateEpochChanged);
        } else {
            match check_profile_fence(self.fence.profile, state.plan) {
                Some(failure) => {
                    kind = Some(BirthdaySweepFailureKind::from_probe_failure(failure));
                },
                None => {
                    if self.fence.has_token && !state.token_current {
                        kind = Some(
                            BirthdaySweepFailureKind::from_probe_failure(
                                ProbeSendFailureKind::SessionRetired,
                            ),
                        );
                    } else if !state.direct && same_number(
                        state.direct_commit_seq,
                        self.fence.direct_commit_seq,
                    ) {
                        refused = false;
                    }
                },
            }
        }
        if refused {
            self.cut_short(kind);
            self.phase = SweepPhase::Round;
            assert(self.round < self.schedule.len());
            self.round = self.round + 1;
            self.position = 0;
            return None;
        }
        self.counters.targets_attempted = self.counters.targets_attempted.saturating_add(1);
        self.phase = SweepPhase::Quarantine;
        Some(self.schedule[self.round].endpoints[self.position])
    }

    fn skip(&mut self, reason: BudgetReason)
        requires
            old(self).at_target(),
        ensures
            old(self).same_plan(final(self)),
            final(self)@ == (Sweep {
                phase: SweepPhase::Target,
                position: old(self).position + 1,
                counters: old(self).counters.skipped(reason),
                ..old(self)@
            }),
    {
        self.counters.budget_skipped = self.counters.budget_skipped.saturating_add(1);
        self.counters.last_budget_reason = Some(reason);
        assert(self.position < self.schedule@[self.round as int].endpoints.len());
        self.phase = SweepPhase::Target;
        self.position = self.position + 1;
    }

    /// Skips a target that recently answered too slowly. Returns whether the
    /// budgets decide next.
    pub fn on_quarantine(&mut self, quarantined: bool) -> (ask: bool)
        requires
            old(self).wf(),
            old(self).phase is Quarantine,
        ensures
            final(self).wf(),
            old(self).same_plan(final(self)),
            ask == !quarantined,
            final(self)@ == if quarantined {
                Sweep {
                    phase: SweepPhase::Target,
                    position: old(self).position + 1,
                    counters: old(self).counters.skipped(BudgetReason::SlowRelayRetained),
                    ..old(self)@
                }
            } else {
                Sweep { phase: SweepPhase::Admission, ..old(self)@ }
            },
    {
        if quarantined {
            self.skip(BudgetReason::SlowRelayRetained);
            false
        } else {
            self.phase = SweepPhase::Admission;
            true
        }
    }

    /// Skips a target that a budget holds back, or gives it out to be probed.
    pub fn on_admission(&mut self, admission: OutboundProbeAdmission) -> (send: Option<SocketAddr>)
        requires
            old(self).wf(),
            old(self).phase is Admission,
        ensures
            final(self).wf(),
            old(self).same_plan(final(self)),
            admission == OutboundProbeAdmission::Accepted ==> send == Some(old(self).target())
                && final(self)@ == (Sweep {
                phase: SweepPhase::Sending,
                counters: old(self).counters.probed(),
                ..old(self)@
            }),
            admission != OutboundProbeAdmission::Accepted ==> send is None && final(self)@ == (
            Sweep {
                phase: SweepPhase::Target,
                position: old(self).position + 1,
                counters: old(self).counters.skipped(BudgetReason::Limited(admission)),
                ..old(self)@
            }),
    {
        if !matches!(admission, OutboundProbeAdmission::Accepted) {
            self.skip(BudgetReason::Limited(admission));
            return None;
        }
        self.counters.logical_probes_attempted =
        self.counters.logical_probes_attempted.saturating_add(1);
        self.phase = SweepPhase::Sending;
        Some(self.schedule[self.round].endpoints[self.position])
    }

    /// Books a probe that left.
    pub fn on_sent(&mut self, probe: SentProbe)
        requires
            old(self).wf(),
            old(self).phase is Sending,
        ensures
            final(self).wf(),
            old(self).same_plan(final(self)),
            final(self)@ == (Sweep {
                phase: SweepPhase::Target,
                position: old(self).position + 1,
                counters: old(self).counters.sent(probe),
                sent: if probe.datagrams_sent > 0 && !old(self).sent_endpoints@.contains(
                    old(self).target(),
                ) {
                    old(self).sent_endpoints@.push(old(self).target())
                } else {
                    old(self).sent_endpoints@
                },
                ..old(self)@
            }),
    {
        let target: SocketAddr = self.schedule[self.round].endpoints[self.position];
        let failed: u32 = probe.physical_send_errors as u32;
        let sent: u32 = probe.datagrams_sent as u32;
        self.counters.logical_probes_sent = self.counters.logical_probes_sent.saturating_add(1);
        self.counters.sending_socket = probe.socket_index;
        self.counters.physical_datagrams_sent =
        self.counters.physical_datagrams_sent.saturating_add(sent);
        self.counters.physical_bytes_sent = self.counters.physical_bytes_sent.saturating_add(
            probe.physical_bytes_sent,
        );
        self.counters.physical_send_errors = self.counters.physical_send_errors.saturating_add(
            failed,
        );
        self.counters.physical_send_error_bytes =
        self.counters.physical_send_error_bytes.saturating_add(probe.physical_send_error_bytes);
        self.counters.partial_physical_send_errors =
        self.counters.partial_physical_send_errors.saturating_add(failed);
        if let Some(sent_at_ms) = probe.first_send_at_ms {
            if self.counters.first_send_at_ms.is_none() {
                self.counters.first_send_at_ms = Some(sent_at_ms);
            }
            self.counters.last_send_at_ms = Some(
                match self.counters.last_send_at_ms {
                    Some(last) => max_u64(last, sent_at_ms),
                    None => sent_at_ms,
                },
            );
        }
        if sent > 0 && !lists(&self.sent_endpoints, target) {
            self.sent_endpoints.push(target);
        }
        assert(self.position < self.schedule@[self.round as int].endpoints.len());
        self.phase = SweepPhase::Target;
        self.position = self.position + 1;
    }

    /// Books a probe that failed. A failed send is local to its target; any
    /// other failure ends the sweep.
    pub fn on_failed(&mut self, probe: FailedProbe)
        requires
            old(self).wf(),
            old(self).phase is Sending,
        ensures
            final(self).wf(),
            old(self).same_plan(final(self)),
            final(self)@ == if probe.kind == ProbeSendFailureKind::PhysicalSend {
                Sweep {
                    phase: SweepPhase::Target,
                    position: old(self).position + 1,
                    counters: old(self).counters.failed(probe),
                    ..old(self)@
                }
            } else {
                Sweep {
                    phase: SweepPhase::Finished,
                    counters: old(self).counters.failed(probe),
                    ..old(self)@
                }
            },
    {
        let physical: bool = matches!(probe.kind, ProbeSendFailureKind::PhysicalSend);
        self.counters.physical_send_error_bytes =
        self.counters.physical_send_error_bytes.saturating_add(probe.physical_send_error_bytes);
        if physical && probe.physical_send_errors > 0 {
            self.counters.physical_send_errors = self.counters.physical_send_errors.saturating_add(
                probe.physical_send_errors as u32,
            );
            self.counters.logical_probe_send_failures =
            self.counters.logical_probe_send_failures.saturating_add(1);
        } else {
            self.counters.probe_path_errors = self.counters.probe_path_errors.saturating_add(1);
            self.cut_short(Some(BirthdaySweepFailureKind::from_probe_failure(probe.kind)));
        }
        if physical {
            assert(self.position < self.schedule@[self.round as int].endpoints.len());
            self.phase = SweepPhase::Target;
            self.position = self.position + 1;
        } else {
            self.phase = SweepPhase::Finished;
        }
    }

    /// The report of a sweep.
    pub open spec fn spec_report(&self) -> Punch {
        let c = self.counters;
        let assigned = crate::histogram::clamp32(self.assigned as nat);
        Punch {
            packets_sent: c.logical_probes_sent,
            logical_probes_attempted: c.logical_probes_attempted,
            logical_probes_sent: c.logical_probes_sent,
            logical_probe_send_failures: c.logical_probe_send_failures,
            physical_datagrams_sent: c.physical_datagrams_sent,
            physical_bytes_sent: c.physical_bytes_sent,
            physical_send_errors: c.physical_send_errors,
            physical_send_error_bytes: c.physical_send_error_bytes,
            partial_physical_send_errors: c.partial_physical_send_errors,
            probe_path_errors: c.probe_path_errors,
            unique_target_endpoints: crate::histogram::clamp32(self.sent_endpoints@.len()),
            first_send_at_ms: c.first_send_at_ms,
            last_send_at_ms: c.last_send_at_ms,
            per_socket_sent: if c.physical_datagrams_sent > 0 {
                seq![(c.sending_socket, c.physical_datagrams_sent)]
            } else {
                Seq::empty()
            },
            budget_skipped: c.budget_skipped,
            sent_target_endpoints: self.sent_endpoints@,
            targets_assigned: assigned,
            targets_examined: c.targets_examined,
            targets_attempted: c.targets_attempted,
            targets_cancelled: if assigned >= c.targets_attempted {
                (assigned - c.targets_attempted) as u32
            } else {
                0
            },
            target_processing_completed: c.completed,
            failure_kind: c.failure_kind,
            ..Punch::blank()
        }
    }

    pub fn finish(self) -> (report: PunchSendReport)
        ensures
            report@ == self.spec_report(),
    {
        let mut report: PunchSendReport = PunchSendReport::default();
        let assigned: u32 = clamp_u32(self.assigned);
        report.packets_sent = self.counters.logical_probes_sent;
        report.logical_probes_attempted = self.counters.logical_probes_attempted;
        report.logical_probes_sent = self.counters.logical_probes_sent;
        report.logical_probe_send_failures = self.counters.logical_probe_send_failures;
        report.physical_datagrams_sent = self.counters.physical_datagrams_sent;
        report.physical_bytes_sent = self.counters.physical_bytes_sent;
        report.physical_send_errors = self.counters.physical_send_errors;
        report.physical_send_error_bytes = self.counters.physical_send_error_bytes;
        report.partial_physical_send_errors = self.counters.partial_physical_send_errors;
        report.probe_path_errors = self.counters.probe_path_errors;
        report.unique_target_endpoints = clamp_u32(self.sent_endpoints.len());
        report.first_send_at_ms = self.counters.first_send_at_ms;
        report.last_send_at_ms = self.counters.last_send_at_ms;
        if self.counters.physical_datagrams_sent > 0 {
            report.per_socket_sent.push(
                (self.counters.sending_socket, self.counters.physical_datagrams_sent),
            );
        }
        report.budget_skipped = self.counters.budget_skipped;
        report.targets_assigned = assigned;
        report.targets_examined = self.counters.targets_examined;
        report.targets_attempted = self.counters.targets_attempted;
        report.targets_cancelled = assigned.saturating_sub(self.counters.targets_attempted);
        report.target_processing_completed = self.counters.completed;
        report.failure_kind = self.counters.failure_kind;
        report.sent_target_endpoints = self.sent_endpoints;
        assert(report@.per_socket_sent =~= self.spec_report().per_socket_sent);
        report
    }
}

/// The report of a sweep whose socket is gone: every target is cancelled.
pub fn unavailable_sweep_report(targets: usize, failure: ProbeSendFailureKind) -> (report:
    PunchSendReport)
    ensures
        report@ == (Punch {
            targets_assigned: crate::histogram::clamp32(targets as nat),
            targets_cancelled: crate::histogram::clamp32(targets as nat),
            probe_path_errors: 1,
            failure_kind: Some(BirthdaySweepFailureKind::of_probe(failure)),
            ..Punch::blank()
        }),
{
    let mut report: PunchSendReport = PunchSendReport::default();
    report.targets_assigned = clamp_u32(targets);
    report.targets_cancelled = clamp_u32(targets);
    report.probe_path_errors = 1;
    report.failure_kind = Some(BirthdaySweepFailureKind::from_probe_failure(failure));
    report
}

/// Mirrors the progress of a sweep into the live counters of its session.
pub fn mirror_progress(
    live: &mut LiveBirthdayProgress,
    before: &SweepCounters,
    after: &SweepCounters,
)
    requires
        before.targets_examined <= after.targets_examined,
        before.targets_attempted <= after.targets_attempted,
        before.budget_skipped <= after.budget_skipped,
        before.logical_probes_attempted <= after.logical_probes_attempted,
        before.probe_path_errors <= after.probe_path_errors,
    ensures
        final(live).counters == (crate::punch_reports::LiveBirthdayCounters {
            targets_examined: crate::histogram::add32(
                old(live).counters.targets_examined,
                (after.targets_examined - before.targets_examined) as u32,
            ),
            targets_attempted: crate::histogram::add32(
                old(live).counters.targets_attempted,
                (after.targets_attempted - before.targets_attempted) as u32,
            ),
            budget_skipped: crate::histogram::add32(
                old(live).counters.budget_skipped,
                (after.budget_skipped - before.budget_skipped) as u32,
            ),
            logical_probes_attempted: crate::histogram::add32(
                old(live).counters.logical_probes_attempted,
                (after.logical_probes_attempted - before.logical_probes_attempted) as u32,
            ),
            probe_path_errors: crate::histogram::add32(
                old(live).counters.probe_path_errors,
                (after.probe_path_errors - before.probe_path_errors) as u32,
            ),
            ..old(live).counters
        }),
        final(live).sent_target_endpoints == old(live).sent_target_endpoints,
        final(live).per_socket_sent == old(live).per_socket_sent,
        final(live).first_send_at_ms == old(live).first_send_at_ms,
        final(live).last_send_at_ms == old(live).last_send_at_ms,
{
    live.counters.targets_examined = live.counters.targets_examined.saturating_add(
        after.targets_examined - before.targets_examined,
    );
    live.counters.targets_attempted = live.counters.targets_attempted.saturating_add(
        after.targets_attempted - before.targets_attempted,
    );
    live.counters.budget_skipped = live.counters.budget_skipped.saturating_add(
        after.budget_skipped - before.budget_skipped,
    );
    live.counters.logical_probes_attempted = live.counters.logical_probes_attempted.saturating_add(
        after.logical_probes_attempted - before.logical_probes_attempted,
    );
    live.counters.probe_path_errors = live.counters.probe_path_errors.saturating_add(
        after.probe_path_errors - before.probe_path_errors,
    );
}

/// Whether the live counters of a session and the books of its only sweep
/// agree on what was sent and what was not.
pub open spec fn sends_agree(
    live: crate::punch_reports::LiveBirthdayCounters,
    sweep: SweepCounters,
) -> bool {
    &&& live.logical_probes_sent == sweep.logical_probes_sent
    &&& live.logical_probe_send_failures == sweep.logical_probe_send_failures
    &&& live.physical_datagrams_sent == sweep.physical_datagrams_sent
    &&& live.physical_bytes_sent == sweep.physical_bytes_sent
    &&& live.physical_send_errors == sweep.physical_send_errors
    &&& live.physical_send_error_bytes == sweep.physical_send_error_bytes
    &&& live.partial_physical_send_errors == sweep.partial_physical_send_errors
}

/// A probe is booked live as its sweep books it: datagram by datagram, a copy
/// for older peers that left or did not, or the probe that was refused.
pub proof fn law_live_sends_agree_with_the_sweep(
    live: crate::punch_reports::LiveBirthdayCounters,
    sweep: SweepCounters,
    probe: SentProbe,
    failed: FailedProbe,
    bytes: u64,
    copy_bytes: u64,
)
    requires
        sends_agree(live, sweep),
        bytes + copy_bytes <= u64::MAX,
        failed.kind == ProbeSendFailureKind::PhysicalSend,
        failed.physical_send_errors == 1,
    ensures
        probe.datagrams_sent == 1 && probe.physical_send_errors == 0 && probe.physical_bytes_sent
            == bytes && probe.physical_send_error_bytes == 0 ==> sends_agree(
            live.with_datagram(true, bytes),
            sweep.sent(probe),
        ),
        probe.datagrams_sent == 2 && probe.physical_send_errors == 0 && probe.physical_bytes_sent
            == bytes + copy_bytes && probe.physical_send_error_bytes == 0 ==> sends_agree(
            live.with_datagram(true, bytes).with_datagram(false, copy_bytes),
            sweep.sent(probe),
        ),
        probe.datagrams_sent == 1 && probe.physical_send_errors == 1 && probe.physical_bytes_sent
            == bytes && probe.physical_send_error_bytes == copy_bytes ==> sends_agree(
            live.with_datagram(true, bytes).with_send_error(false, copy_bytes),
            sweep.sent(probe),
        ),
        sends_agree(
            live.with_send_error(true, failed.physical_send_error_bytes),
            sweep.failed(failed),
        ),
{
}

/// The books of a finished sweep balance: every attempted target was skipped
/// or probed, and every probe was sent or failed.
pub proof fn law_sweep_books_balance(sweep: SocketSweep)
    requires
        sweep.wf(),
        sweep.phase is Finished,
        sweep.counters.targets_attempted < u32::MAX,
    ensures
        ({
            let r = sweep.spec_report();
            &&& r.targets_attempted <= r.targets_examined
            &&& r.targets_attempted == r.budget_skipped + r.logical_probes_attempted
            &&& r.logical_probes_attempted == r.logical_probes_sent + r.logical_probe_send_failures
                + r.probe_path_errors
        }),
{
}

/// No target is given out to be probed once a fence is broken.
pub proof fn law_broken_fence_gives_out_nothing(fence: SweepFence, state: SweepState)
    requires
        state.network_generation != fence.network_generation || state.remote_candidate_epoch
            != fence.remote_candidate_epoch || (fence.profile is Some && state.plan
            != fence.profile) || (fence.has_token && (state.winner_selected
            || !state.token_current)) || state.direct || state.direct_commit_seq
            != fence.direct_commit_seq,
    ensures
        target_refusal(fence, state) is Some,
{
}

/// A target is given out exactly while nothing of the fence moved, nobody won
/// and the peer is not direct.
pub proof fn law_target_is_given_out(fence: SweepFence, state: SweepState)
    ensures
        target_refusal(fence, state) is None <==> {
            &&& !(fence.has_token && state.winner_selected)
            &&& state.network_generation == fence.network_generation
            &&& state.remote_candidate_epoch == fence.remote_candidate_epoch
            &&& fence.profile is Some ==> state.plan == fence.profile
            &&& fence.has_token ==> state.token_current
            &&& !state.direct
            &&& state.direct_commit_seq == fence.direct_commit_seq
        },
{
}

/// What a refused target ends: a winner ends the sweep, everything else the
/// round, for the first reason there is.
pub proof fn law_target_refusals(fence: SweepFence, state: SweepState)
    ensures
        ({
            let r = target_refusal(fence, state);
            let won = fence.has_token && state.winner_selected;
            let network = !won && state.network_generation == fence.network_generation;
            let epoch = network && state.remote_candidate_epoch == fence.remote_candidate_epoch;
            let plan = epoch && (fence.profile is None || state.plan == fence.profile);
            let token = plan && (fence.has_token ==> state.token_current);
            &&& won <==> r == Some(TargetRefusal::Sweep)
            &&& !won && !network <==> r == Some(
                TargetRefusal::Round(Some(BirthdaySweepFailureKind::NetworkGenerationChanged)),
            )
            &&& network && !epoch <==> r == Some(
                TargetRefusal::Round(Some(BirthdaySweepFailureKind::CandidateEpochChanged)),
            )
            &&& epoch && !plan && state.plan is Some <==> r == Some(
                TargetRefusal::Round(Some(BirthdaySweepFailureKind::ProfileGenerationChanged)),
            )
            &&& epoch && !plan && state.plan is None <==> r == Some(
                TargetRefusal::Round(Some(BirthdaySweepFailureKind::PeerSessionChanged)),
            )
            &&& plan && !token <==> r == Some(
                TargetRefusal::Round(Some(BirthdaySweepFailureKind::SessionRetired)),
            )
            &&& token && (state.direct || state.direct_commit_seq != fence.direct_commit_seq)
                <==> r == Some(TargetRefusal::Round(None))
        }),
{
}

/// A probe of a sweep that depends on profiles fails exactly where the plan is
/// another, and tells which side moved.
pub proof fn law_profile_failures(profile: (u64, u64), plan: Option<(u64, u64)>)
    ensures
        profile_failure(None, plan) is None,
        profile_failure(Some(profile), plan) is None <==> plan == Some(profile),
        plan is None <==> profile_failure(Some(profile), plan) == Some(
            ProbeSendFailureKind::PeerSessionChanged,
        ),
        plan is Some && (plan->0).0 != profile.0 <==> profile_failure(Some(profile), plan) == Some(
            ProbeSendFailureKind::LocalProfileGenerationChanged,
        ),
        plan is Some && (plan->0).0 == profile.0 && (plan->0).1 != profile.1 <==> profile_failure(
            Some(profile),
            plan,
        ) == Some(ProbeSendFailureKind::RemoteProfileGenerationChanged),
{
}

/// A sweep starts with empty books and counts as complete until it is cut
/// short.
pub proof fn law_blank_sweep(socket: usize)
    ensures
        ({
            let c = SweepCounters::blank(socket);
            &&& c.logical_probes_attempted == 0 && c.logical_probes_sent == 0
            &&& c.logical_probe_send_failures == 0 && c.probe_path_errors == 0
            &&& c.physical_datagrams_sent == 0 && c.physical_bytes_sent == 0
            &&& c.physical_send_errors == 0 && c.physical_send_error_bytes == 0
            &&& c.partial_physical_send_errors == 0 && c.budget_skipped == 0
            &&& c.first_send_at_ms is None && c.last_send_at_ms is None
            &&& c.sending_socket == socket
            &&& c.targets_examined == 0 && c.targets_attempted == 0
            &&& c.completed
            &&& c.failure_kind is None && c.last_budget_reason is None
        }),
{
}

/// Each step of a sweep books one thing and nothing else.
pub proof fn law_sweep_steps(
    c: SweepCounters,
    kind: Option<BirthdaySweepFailureKind>,
    reason: BudgetReason,
)
    requires
        c.targets_examined < u32::MAX,
        c.targets_attempted < u32::MAX,
        c.budget_skipped < u32::MAX,
        c.logical_probes_attempted < u32::MAX,
    ensures
        c.examined() == (SweepCounters {
            targets_examined: (c.targets_examined + 1) as u32,
            ..c
        }),
        c.attempted() == (SweepCounters {
            targets_attempted: (c.targets_attempted + 1) as u32,
            ..c
        }),
        c.probed() == (SweepCounters {
            logical_probes_attempted: (c.logical_probes_attempted + 1) as u32,
            ..c
        }),
        c.skipped(reason) == (SweepCounters {
            budget_skipped: (c.budget_skipped + 1) as u32,
            last_budget_reason: Some(reason),
            ..c
        }),
        !c.cut_short(kind).completed,
        c.cut_short(kind).failure_kind == crate::failure::combined(c.failure_kind, kind),
        c.cut_short(kind) == (SweepCounters {
            completed: false,
            failure_kind: c.cut_short(kind).failure_kind,
            ..c
        }),
{
}

/// What a sent probe books: itself, its datagrams and bytes, and those of its
/// datagrams that failed.
pub proof fn law_sweep_books_a_sent_probe(c: SweepCounters, p: SentProbe)
    requires
        c.logical_probes_sent < u32::MAX,
        c.physical_datagrams_sent + p.datagrams_sent <= u32::MAX,
        c.physical_bytes_sent + p.physical_bytes_sent <= u64::MAX,
        c.physical_send_errors + p.physical_send_errors <= u32::MAX,
        c.physical_send_error_bytes + p.physical_send_error_bytes <= u64::MAX,
        c.partial_physical_send_errors + p.physical_send_errors <= u32::MAX,
    ensures
        ({
            let s = c.sent(p);
            &&& s.logical_probes_sent == c.logical_probes_sent + 1
            &&& s.physical_datagrams_sent == c.physical_datagrams_sent + p.datagrams_sent
            &&& s.physical_bytes_sent == c.physical_bytes_sent + p.physical_bytes_sent
            &&& s.physical_send_errors == c.physical_send_errors + p.physical_send_errors
            &&& s.physical_send_error_bytes == c.physical_send_error_bytes
                + p.physical_send_error_bytes
            &&& s.partial_physical_send_errors == c.partial_physical_send_errors
                + p.physical_send_errors
            &&& c.first_send_at_ms is Some ==> s.first_send_at_ms == c.first_send_at_ms
            &&& c.first_send_at_ms is None ==> s.first_send_at_ms == p.first_send_at_ms
            &&& p.first_send_at_ms is None ==> s.last_send_at_ms == c.last_send_at_ms
            &&& p.first_send_at_ms is Some ==> s.last_send_at_ms is Some && s.last_send_at_ms->0
                >= p.first_send_at_ms->0
            &&& s.sending_socket == p.socket_index
            &&& s.logical_probe_send_failures == c.logical_probe_send_failures
            &&& s.probe_path_errors == c.probe_path_errors
            &&& s.completed == c.completed && s.failure_kind == c.failure_kind
            &&& s.logical_probes_attempted == c.logical_probes_attempted
            &&& s.targets_attempted == c.targets_attempted
        }),
{
}

/// A failed send is local to its target, and the sweep goes on; every other
/// failure cuts it short, with its reason.
pub proof fn law_sweep_books_a_failed_probe(c: SweepCounters, p: FailedProbe)
    requires
        c.physical_send_errors + p.physical_send_errors <= u32::MAX,
        c.physical_send_error_bytes + p.physical_send_error_bytes <= u64::MAX,
        c.logical_probe_send_failures < u32::MAX,
        c.probe_path_errors < u32::MAX,
    ensures
        ({
            let f = c.failed(p);
            let local = p.kind == ProbeSendFailureKind::PhysicalSend && p.physical_send_errors > 0;
            &&& SweepCounters::is_send_error(p) <==> local
            &&& f.physical_send_error_bytes == c.physical_send_error_bytes
                + p.physical_send_error_bytes
            &&& local ==> f.physical_send_errors == c.physical_send_errors + p.physical_send_errors
                && f.logical_probe_send_failures == c.logical_probe_send_failures + 1
                && f.probe_path_errors == c.probe_path_errors && f.completed == c.completed
                && f.failure_kind == c.failure_kind
            &&& !local ==> f.physical_send_errors == c.physical_send_errors
                && f.logical_probe_send_failures == c.logical_probe_send_failures
                && f.probe_path_errors == c.probe_path_errors + 1 && !f.completed
                && f.failure_kind is Some
            &&& !local && c.failure_kind is None ==> f.failure_kind == Some(
                BirthdaySweepFailureKind::of_probe(p.kind),
            )
            &&& f.logical_probes_sent == c.logical_probes_sent
            &&& f.physical_datagrams_sent == c.physical_datagrams_sent
        }),
{
}

/// A sweep stands at a target exactly where its round has one at its place,
/// and keeps its plan while its schedule, fence and assignment stay.
pub proof fn law_sweep_position(sweep: SocketSweep, next: SocketSweep)
    ensures
        sweep.at_target() <==> sweep.round < sweep.schedule@.len() && sweep.position
            < sweep.schedule@[sweep.round as int].endpoints@.len(),
        sweep.target() == sweep.schedule@[sweep.round as int].endpoints@[sweep.position as int],
        sweep.same_plan(&next) <==> next.schedule == sweep.schedule && next.fence == sweep.fence
            && next.assigned == sweep.assigned,
        sweep.wf() ==> sweep.sent_endpoints@.no_duplicates() && sweep.round
            <= sweep.schedule@.len(),
        sweep.wf() && (sweep.phase is Quarantine || sweep.phase is Admission || sweep.phase
            is Sending) ==> sweep.at_target(),
{
}

/// The report of a sweep tells its books; what was assigned and not tried is
/// told as cancelled.
pub proof fn law_sweep_report(sweep: SocketSweep)
    requires
        sweep.assigned <= u32::MAX,
        sweep.sent_endpoints@.len() <= u32::MAX,
    ensures
        ({
            let r = sweep.spec_report();
            let c = sweep.counters;
            &&& r.packets_sent == c.logical_probes_sent
            &&& r.logical_probes_sent == c.logical_probes_sent
            &&& r.logical_probes_attempted == c.logical_probes_attempted
            &&& r.logical_probe_send_failures == c.logical_probe_send_failures
            &&& r.physical_datagrams_sent == c.physical_datagrams_sent
            &&& r.physical_bytes_sent == c.physical_bytes_sent
            &&& r.physical_send_errors == c.physical_send_errors
            &&& r.physical_send_error_bytes == c.physical_send_error_bytes
            &&& r.partial_physical_send_errors == c.partial_physical_send_errors
            &&& r.probe_path_errors == c.probe_path_errors
            &&& r.unique_target_endpoints == sweep.sent_endpoints@.len()
            &&& r.sent_target_endpoints == sweep.sent_endpoints@
            &&& r.first_send_at_ms == c.first_send_at_ms
            &&& r.last_send_at_ms == c.last_send_at_ms
            &&& c.physical_datagrams_sent == 0 ==> r.per_socket_sent.len() == 0
            &&& c.physical_datagrams_sent > 0 ==> r.per_socket_sent.len() == 1
                && r.per_socket_sent[0] == (c.sending_socket, c.physical_datagrams_sent)
            &&& r.budget_skipped == c.budget_skipped
            &&& r.targets_assigned == sweep.assigned
            &&& r.targets_examined == c.targets_examined
            &&& r.targets_attempted == c.targets_attempted
            &&& sweep.assigned >= c.targets_attempted ==> r.targets_cancelled
                + c.targets_attempted == sweep.assigned
            &&& sweep.assigned < c.targets_attempted ==> r.targets_cancelled == 0
            &&& r.target_processing_completed == c.completed
            &&& r.failure_kind == c.failure_kind
            &&& r.birthday is None
            &&& !r.worker_failed
            &&& !r.epoch_budget_exhausted && !r.candidate_iteration_capped
        }),
{
}

/// Live and own books agree on the sends where they agree on each count.
pub proof fn law_agreeing_sends(
    live: crate::punch_reports::LiveBirthdayCounters,
    sweep: SweepCounters,
)
    ensures
        sends_agree(live, sweep) <==> {
            &&& live.logical_probes_sent == sweep.logical_probes_sent
            &&& live.logical_probe_send_failures == sweep.logical_probe_send_failures
            &&& live.physical_datagrams_sent == sweep.physical_datagrams_sent
            &&& live.physical_bytes_sent == sweep.physical_bytes_sent
            &&& live.physical_send_errors == sweep.physical_send_errors
            &&& live.physical_send_error_bytes == sweep.physical_send_error_bytes
            &&& live.partial_physical_send_errors == sweep.partial_physical_send_errors
        },
{
}

/// While no counter is full, every target that was tried was skipped or probed
/// or is being decided on, and every probe was sent, failed or is under way.
pub proof fn law_balanced_sweep(sweep: SocketSweep)
    requires
        sweep.balanced(),
        sweep.counters.targets_attempted < u32::MAX,
    ensures
        ({
            let c = sweep.counters;
            &&& c.targets_attempted <= c.targets_examined
            &&& sweep.phase is Quarantine || sweep.phase is Admission ==> c.targets_attempted
                == c.budget_skipped + c.logical_probes_attempted + 1
            &&& !(sweep.phase is Quarantine || sweep.phase is Admission) ==> c.targets_attempted
                == c.budget_skipped + c.logical_probes_attempted
            &&& sweep.phase is Sending ==> c.logical_probes_attempted == c.logical_probes_sent
                + c.logical_probe_send_failures + c.probe_path_errors + 1
            &&& !(sweep.phase is Sending) ==> c.logical_probes_attempted == c.logical_probes_sent
                + c.logical_probe_send_failures + c.probe_path_errors
        }),
{
}

} // verus!

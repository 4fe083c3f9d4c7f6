//! The scheduler of a birthday session: up to two waves over the session's
//! sockets, and the verdict on what they did.

use vstd::prelude::*;
use crate::birthday::{
    hard_hard_birthday_packets_planned, hard_hard_birthday_socket_plan,
    hard_hard_birthday_wave_assignments, hard_hard_birthday_wave_count, HardHardSocketSnapshot,
};
use crate::failure::{
    combine_birthday_failure_kind, BirthdaySweepFailureKind, BirthdayStopReason,
};
use crate::histogram::{clamp_u32, lists};
use crate::net::SocketAddr;
use crate::punch_reports::{
    merge_punch_send_reports, update_birthday_sweep_counters, BirthdayDegradation,
    BirthdaySweepReport, LiveBirthdayCounters, LiveBirthdayProgress, Punch, PunchSendReport,
};

verus! {

/// What a session was started under.
#[derive(Clone, Copy, Debug)]
pub struct SessionFence {
    pub network_generation: u64,
    pub remote_candidate_epoch: u64,
    /// Local and remote profile generation.
    pub profile: (u64, u64),
    pub direct_commit_seq: Option<u64>,
}

/// How things stand now.
#[derive(Clone, Copy, Debug)]
pub struct SessionState {
    pub winner_selected: bool,
    pub direct: bool,
    pub network_generation: u64,
    pub peer_session_current: bool,
    pub remote_candidate_epoch: u64,
    /// Local and remote profile generation of the peer's plan, if it has one.
    pub plan: Option<(u64, u64)>,
    pub token_current: bool,
    pub direct_commit_seq: Option<u64>,
}

/// The first reason, in order of precedence, to end a session.
pub open spec fn stop_reason(
    fence: SessionFence,
    state: SessionState,
) -> Option<BirthdayStopReason> {
    if state.winner_selected {
        Some(BirthdayStopReason::WinnerSelected)
    } else if state.direct {
        Some(BirthdayStopReason::DirectConfirmed)
    } else if state.network_generation != fence.network_generation {
        Some(BirthdayStopReason::Failure(BirthdaySweepFailureKind::NetworkGenerationChanged))
    } else if !state.peer_session_current {
        Some(BirthdayStopReason::Failure(BirthdaySweepFailureKind::PeerSessionChanged))
    } else if state.remote_candidate_epoch != fence.remote_candidate_epoch {
        Some(BirthdayStopReason::Failure(BirthdaySweepFailureKind::CandidateEpochChanged))
    } else if state.plan != Some(fence.profile) {
        Some(BirthdayStopReason::Failure(BirthdaySweepFailureKind::ProfileGenerationChanged))
    } else if !state.token_current {
        Some(BirthdayStopReason::Failure(BirthdaySweepFailureKind::SessionRetired))
    } else if state.direct_commit_seq != fence.direct_commit_seq {
        Some(BirthdayStopReason::DirectCommitSeqChanged)
    } else {
        None
    }
}

/// Whether two optional numbers agree.
pub fn same_number(a: Option<u64>, b: Option<u64>) -> (r: bool)
    ensures
        r == (a == b),
{
    match (a, b) {
        (Some(x), Some(y)) => x == y,
        (None, None) => true,
        _ => false,
    }
}

pub fn hard_hard_birthday_stop_reason(
    fence: &SessionFence,
    state: &SessionState,
) -> (r: Option<BirthdayStopReason>)
    ensures
        r == stop_reason(*fence, *state),
{
    if state.winner_selected {
        return Some(BirthdayStopReason::WinnerSelected);
    }
    if state.direct {
        return Some(BirthdayStopReason::DirectConfirmed);
    }
    if state.network_generation != fence.network_generation {
        return Some(
            BirthdayStopReason::Failure(BirthdaySweepFailureKind::NetworkGenerationChanged),
        );
    }
    if !state.peer_session_current {
        return Some(BirthdayStopReason::Failure(BirthdaySweepFailureKind::PeerSessionChanged));
    }
    if state.remote_candidate_epoch != fence.remote_candidate_epoch {
        return Some(BirthdayStopReason::Failure(BirthdaySweepFailureKind::CandidateEpochChanged));
    }
    let profile_current: bool = match state.plan {
        Some(plan) => plan.0 == fence.profile.0 && plan.1 == fence.profile.1,
        None => false,
    };
    if !profile_current {
        return Some(
            BirthdayStopReason::Failure(BirthdaySweepFailureKind::ProfileGenerationChanged),
        );
    }
    if !state.token_current {
        return Some(BirthdayStopReason::Failure(BirthdaySweepFailureKind::SessionRetired));
    }
    if !same_number(state.direct_commit_seq, fence.direct_commit_seq) {
        return Some(BirthdayStopReason::DirectCommitSeqChanged);
    }
    None
}

/// The targets with a port, in order and without repetition.
pub open spec fn distinct_targets(targets: Seq<SocketAddr>) -> Seq<SocketAddr>
    decreases targets.len(),
{
    if targets.len() == 0 {
        Seq::empty()
    } else {
        let before = distinct_targets(targets.drop_last());
        if targets.last().port == 0 || before.contains(targets.last()) {
            before
        } else {
            before.push(targets.last())
        }
    }
}

/// The targets that a session probes: at most `max` of the distinct ones.
pub open spec fn effective_targets(targets: Seq<SocketAddr>, max: usize) -> Seq<SocketAddr> {
    crate::birthday::at_most(distinct_targets(targets), max as nat)
}

proof fn lemma_distinct_prefix(targets: Seq<SocketAddr>, n: int)
    requires
        0 <= n <= targets.len(),
    ensures
        distinct_targets(targets.take(n)).len() <= distinct_targets(targets).len(),
        distinct_targets(targets.take(n)) == distinct_targets(targets).take(
            distinct_targets(targets.take(n)).len() as int,
        ),
    decreases targets.len(),
{
    if n == targets.len() {
        assert(targets.take(n) =~= targets);
        let d = distinct_targets(targets);
        assert(d =~= d.take(d.len() as int));
    } else {
        let rest = targets.drop_last();
        lemma_distinct_prefix(rest, n);
        assert(rest.take(n) =~= targets.take(n));
        let k = distinct_targets(targets.take(n)).len() as int;
        assert(distinct_targets(targets).take(k) =~= distinct_targets(rest).take(k));
    }
}

fn select_targets(targets: &Vec<SocketAddr>, max: usize) -> (r: Vec<SocketAddr>)
    requires
        max > 0,
    ensures
        r@ == effective_targets(targets@, max),
{
    let mut selected: Vec<SocketAddr> = Vec::new();
    let mut i: usize = 0;
    assert(targets@.take(0) =~= Seq::empty());
    while i < targets.len()
        invariant
            i <= targets@.len(),
            selected@ == distinct_targets(targets@.take(i as int)),
            selected@.len() < max,
        decreases targets@.len() - i,
    {
        let target: SocketAddr = targets[i];
        assert(targets@.take(i + 1).drop_last() =~= targets@.take(i as int));
        if target.port() != 0 && !lists(&selected, target) {
            selected.push(target);
            if selected.len() == max {
                proof {
                    lemma_distinct_prefix(targets@, i + 1);
                }
                return selected;
            }
        }
        i += 1;
    }
    assert(targets@.take(i as int) =~= targets@);
    selected
}

/// The report of a session that is about to start.
pub open spec fn planned_report(
    requested_level: usize,
    generated: usize,
    signaled: usize,
    targets: nat,
    snapshot: Seq<HardHardSocketSnapshot>,
) -> BirthdaySweepReport {
    let requested = crate::birthday::sockets_for(requested_level);
    let usable = crate::birthday::usable_sockets(snapshot).len() as usize;
    BirthdaySweepReport {
        requested_level,
        generated_candidate_count: generated,
        signaled_candidate_count: signaled,
        effective_target_count: targets as usize,
        requested_socket_count: requested,
        attached_socket_count: crate::birthday::attached_sockets(snapshot) as usize,
        usable_socket_count: usable,
        unavailable_socket_count: if usable < requested {
            (requested - usable) as usize
        } else {
            0
        },
        socket_count: usable,
        waves_planned: crate::birthday::waves_for(usable),
        packets_planned: crate::birthday::packets_for(usable, targets as usize),
        degraded_reason: if 0 < usable < requested {
            Some(BirthdayDegradation::PartialSocketUnavailable)
        } else {
            None
        },
        ..BirthdaySweepReport::blank()
    }
}

/// A session under way.
pub struct BirthdaySweep {
    pub birthday: BirthdaySweepReport,
    pub aggregate: PunchSendReport,
    pub targets: Vec<SocketAddr>,
    pub sockets: Vec<usize>,
    pub next_wave: usize,
}

/// The outcome of planning a session.
pub enum BirthdaySweepStart {
    /// There is nothing to probe or nothing to probe from.
    Finished(PunchSendReport),
    Running(BirthdaySweep),
}

/// The outcome of asking for a wave.
pub enum WaveStart {
    /// Probe the i-th list of targets from the i-th socket.
    Probe(Vec<Vec<SocketAddr>>),
    /// All waves are through, or the session ended quietly.
    Done,
    /// The session ended with an error.
    Failed(BirthdaySweepError),
}

/// The outcome of a finished wave.
#[derive(Clone, Copy, Debug, PartialEq, Eq, Structural)]
pub enum WaveEnd {
    Continue,
    Stopped,
    Failed(BirthdaySweepError),
}

/// The error of a session.
#[derive(Clone, Copy, Debug, PartialEq, Eq, Structural)]
pub enum BirthdaySweepError {
    Stopped(BirthdaySweepFailureKind),
    WorkerStopped(BirthdaySweepFailureKind),
    AllSendsFailed,
}

impl BirthdaySweepError {
    pub open spec fn text(self) -> Seq<char> {
        match self {
            Self::Stopped(kind) => "hard-hard birthday stopped: "@ + kind.text(),
            Self::WorkerStopped(kind) => "hard-hard birthday worker stopped: "@ + kind.text(),
            Self::AllSendsFailed =>
                "hard-hard birthday probes all failed at the physical send boundary"@,
        }
    }

    pub fn message(self) -> (r: String)
        ensures
            r@ == self.text(),
    {
        match self {
            Self::Stopped(kind) => {
                let mut text: String = "hard-hard birthday stopped: ".to_owned();
                text.append(kind.stop_reason());
                text
            },
            Self::WorkerStopped(kind) => {
                let mut text: String = "hard-hard birthday worker stopped: ".to_owned();
                text.append(kind.stop_reason());
                text
            },
            Self::AllSendsFailed =>
                "hard-hard birthday probes all failed at the physical send boundary".to_owned(),
        }
    }
}

/// The books of one wave once the scheduler has entered what it assigned: a
/// worker that was lost returned nothing, so what no worker reached counts as
/// cancelled.
pub open spec fn closed_wave(wave: Punch, assigned: nat) -> Punch {
    let assigned = crate::histogram::clamp32(assigned);
    Punch {
        targets_assigned: assigned,
        targets_cancelled: crate::histogram::max32(
            wave.targets_cancelled,
            if assigned >= wave.targets_attempted {
                (assigned - wave.targets_attempted) as u32
            } else {
                0
            },
        ),
        ..wave
    }
}

/// The live counters once `assigned` targets were handed out, `cancelled` were
/// given up, and `workers` workers have returned.
pub open spec fn wave_booked(
    counters: LiveBirthdayCounters,
    assigned: nat,
    cancelled: u32,
    workers: u32,
) -> LiveBirthdayCounters {
    LiveBirthdayCounters {
        targets_assigned: crate::histogram::add32(
            counters.targets_assigned,
            crate::histogram::clamp32(assigned),
        ),
        targets_cancelled: crate::histogram::add32(counters.targets_cancelled, cancelled),
        workers_completed: crate::histogram::add32(counters.workers_completed, workers),
        ..counters
    }
}

/// Books what the scheduler knows of a wave in the live counters: whoever
/// watches a session sees it before the workers' own books come back.
pub fn book_wave_live(
    live: &mut LiveBirthdayProgress,
    assigned: usize,
    cancelled: u32,
    workers: u32,
)
    ensures
        *final(live) == (LiveBirthdayProgress {
            counters: wave_booked(old(live).counters, assigned as nat, cancelled, workers),
            ..*old(live)
        }),
{
    live.counters.targets_assigned = live.counters.targets_assigned.saturating_add(
        clamp_u32(assigned),
    );
    live.counters.targets_cancelled = live.counters.targets_cancelled.saturating_add(cancelled);
    live.counters.workers_completed = live.counters.workers_completed.saturating_add(workers);
}

/// The verdict on a finished wave: the session's report, its books and what
/// comes next. `wave` is the closed wave, `aggregate` the books with the wave
/// merged in, `stop` the reason to end, if there is one.
pub open spec fn wave_verdict(
    birthday: BirthdaySweepReport,
    aggregate: Punch,
    wave: Punch,
    completed: bool,
    failure: Option<BirthdaySweepFailureKind>,
    stop: Option<BirthdayStopReason>,
) -> (BirthdaySweepReport, Punch, WaveEnd) {
    let failure = if failure is Some {
        failure
    } else {
        wave.failure_kind
    };
    if failure is Some {
        let kind = failure->0;
        let books = Punch {
            failure_kind: Some(kind),
            worker_failed: aggregate.worker_failed || kind == BirthdaySweepFailureKind::WorkerJoin,
            ..aggregate
        };
        let report = BirthdaySweepReport {
            stop_reason: Some(BirthdayStopReason::Failure(kind)),
            ..birthday
        };
        (
            crate::punch_reports::swept(report, books),
            books,
            WaveEnd::Failed(BirthdaySweepError::WorkerStopped(kind)),
        )
    } else if !completed {
        let reason = if stop is Some {
            stop->0
        } else {
            BirthdayStopReason::Failure(BirthdaySweepFailureKind::SocketUnavailable)
        };
        let report = BirthdaySweepReport { stop_reason: Some(reason), ..birthday };
        (crate::punch_reports::swept(report, aggregate), aggregate, WaveEnd::Stopped)
    } else {
        let completed_waves = if birthday.waves_fully_completed < usize::MAX {
            (birthday.waves_fully_completed + 1) as usize
        } else {
            birthday.waves_fully_completed
        };
        let report = crate::punch_reports::swept(
            BirthdaySweepReport {
                waves_fully_completed: completed_waves,
                waves_completed: completed_waves,
                ..birthday
            },
            aggregate,
        );
        let unavailable = BirthdayStopReason::Failure(BirthdaySweepFailureKind::SocketUnavailable);
        if stop is Some {
            (BirthdaySweepReport { stop_reason: stop, ..report }, aggregate, WaveEnd::Stopped)
        } else if wave.epoch_budget_exhausted {
            (
                BirthdaySweepReport {
                    stop_reason: Some(BirthdayStopReason::EpochBudgetExhausted),
                    ..report
                },
                aggregate,
                WaveEnd::Stopped,
            )
        } else if wave.candidate_iteration_capped {
            (
                BirthdaySweepReport {
                    stop_reason: Some(BirthdayStopReason::CandidateIterationCapped),
                    ..report
                },
                aggregate,
                WaveEnd::Stopped,
            )
        } else if wave.packets_sent == 0 && wave.budget_skipped > 0 {
            (
                BirthdaySweepReport {
                    stop_reason: Some(BirthdayStopReason::BudgetExhausted),
                    ..report
                },
                aggregate,
                WaveEnd::Stopped,
            )
        } else if wave.packets_sent == 0 && wave.logical_probes_attempted == 0
            && wave.physical_send_errors == 0 {
            // A failed send is local to its target: only a wave that tried
            // nothing at all finds the sockets unavailable.
            (
                BirthdaySweepReport { stop_reason: Some(unavailable), ..report },
                Punch {
                    failure_kind: Some(BirthdaySweepFailureKind::SocketUnavailable),
                    ..aggregate
                },
                WaveEnd::Stopped,
            )
        } else {
            (report, aggregate, WaveEnd::Continue)
        }
    }
}

/// What the verdict on a wave looks at.
struct WaveFacts {
    failure_kind: Option<BirthdaySweepFailureKind>,
    epoch_budget_exhausted: bool,
    candidate_iteration_capped: bool,
    packets_sent: u32,
    budget_skipped: u32,
    logical_probes_attempted: u32,
    physical_send_errors: u32,
}

impl BirthdaySweep {
    pub open spec fn targets(&self) -> Seq<SocketAddr> {
        self.targets@
    }

    pub open spec fn sockets(&self) -> Seq<usize> {
        self.sockets@
    }

    /// The wave that comes next.
    pub open spec fn next_wave(&self) -> usize {
        self.next_wave
    }

    /// Waves are started in turn, completed after they were started, and
    /// never exceed the plan.
    pub open spec fn wf(&self) -> bool {
        &&& self.birthday.waves_planned == crate::birthday::waves_for(self.sockets().len() as usize)
        &&& self.sockets().len() <= usize::MAX
        &&& self.next_wave() == self.birthday.waves_started
        &&& self.birthday.waves_started <= self.birthday.waves_planned
        &&& self.birthday.waves_completed <= self.birthday.waves_started
        &&& self.birthday.waves_fully_completed == self.birthday.waves_completed
        &&& crate::histogram::total(self.aggregate.per_socket_sent@) <= u32::MAX
    }

    /// Plans a session over the exact sockets of a snapshot.
    pub fn plan(
        targets: &Vec<SocketAddr>,
        requested_level: usize,
        generated_candidate_count: usize,
        signaled_candidate_count: usize,
        snapshot: Vec<HardHardSocketSnapshot>,
        max_targets: usize,
    ) -> (start: BirthdaySweepStart)
        requires
            max_targets > 0,
        ensures
            ({
                let effective = effective_targets(targets@, max_targets);
                let usable = crate::birthday::usable_sockets(snapshot@);
                let report = planned_report(
                    requested_level,
                    generated_candidate_count,
                    signaled_candidate_count,
                    effective.len(),
                    snapshot@,
                );
                match start {
                    BirthdaySweepStart::Finished(done) => {
                        &&& effective.len() == 0 || usable.len() == 0
                        &&& done@ == (Punch {
                            failure_kind: if effective.len() == 0 {
                                None
                            } else {
                                Some(BirthdaySweepFailureKind::SocketUnavailable)
                            },
                            birthday: Some(
                                BirthdaySweepReport {
                                    stop_reason: Some(
                                        if effective.len() == 0 {
                                            BirthdayStopReason::EmptyTargets
                                        } else {
                                            BirthdayStopReason::Failure(
                                                BirthdaySweepFailureKind::SocketUnavailable,
                                            )
                                        },
                                    ),
                                    ..report
                                },
                            ),
                            ..Punch::blank()
                        })
                    },
                    BirthdaySweepStart::Running(sweep) => {
                        &&& effective.len() > 0 && usable.len() > 0
                        &&& sweep.wf()
                        &&& sweep.birthday == report
                        &&& sweep.aggregate@ == Punch::blank()
                        &&& sweep.targets() == effective
                        &&& sweep.sockets() == usable
                        &&& sweep.next_wave() == 0
                    },
                }
            }),
    {
        let effective: Vec<SocketAddr> = select_targets(targets, max_targets);
        let plan = hard_hard_birthday_socket_plan(requested_level, snapshot);
        let mut birthday: BirthdaySweepReport = BirthdaySweepReport::default();
        birthday.requested_level = requested_level;
        birthday.generated_candidate_count = generated_candidate_count;
        birthday.signaled_candidate_count = signaled_candidate_count;
        birthday.effective_target_count = effective.len();
        birthday.requested_socket_count = plan.requested_socket_count;
        birthday.attached_socket_count = plan.attached_socket_count;
        birthday.usable_socket_count = plan.usable_socket_count;
        birthday.unavailable_socket_count = plan.unavailable_socket_count;
        birthday.socket_count = plan.usable_socket_count;
        birthday.waves_planned = hard_hard_birthday_wave_count(plan.usable_socket_count);
        birthday.packets_planned = hard_hard_birthday_packets_planned(
            plan.usable_socket_count,
            effective.len(),
        );
        if plan.usable_socket_count == 1 {
            birthday.degraded_reason = Some(
                if plan.requested_socket_count > 1 {
                    BirthdayDegradation::PartialSocketUnavailable
                } else {
                    BirthdayDegradation::SingleSocket
                },
            );
        } else if plan.usable_socket_count > 0 && plan.usable_socket_count
            < plan.requested_socket_count {
            birthday.degraded_reason = Some(BirthdayDegradation::PartialSocketUnavailable);
        }
        let mut aggregate: PunchSendReport = PunchSendReport::default();
        assert(birthday == planned_report(
            requested_level,
            generated_candidate_count,
            signaled_candidate_count,
            effective@.len(),
            snapshot@,
        ));
        if effective.len() == 0 {
            birthday.stop_reason = Some(BirthdayStopReason::EmptyTargets);
            update_birthday_sweep_counters(&mut birthday, &aggregate);
            aggregate.birthday = Some(birthday);
            return BirthdaySweepStart::Finished(aggregate);
        }
        if plan.usable_socket_indices.len() == 0 {
            birthday.stop_reason = Some(
                BirthdayStopReason::Failure(BirthdaySweepFailureKind::SocketUnavailable),
            );
            aggregate.failure_kind = Some(BirthdaySweepFailureKind::SocketUnavailable);
            update_birthday_sweep_counters(&mut birthday, &aggregate);
            aggregate.birthday = Some(birthday);
            return BirthdaySweepStart::Finished(aggregate);
        }
        BirthdaySweepStart::Running(
            BirthdaySweep {
                birthday,
                aggregate,
                targets: effective,
                sockets: plan.usable_socket_indices,
                next_wave: 0,
            },
        )
    }

    /// The socket that probes the i-th list of a wave.
    pub fn socket(&self, i: usize) -> (socket: usize)
        requires
            i < self.sockets().len(),
        ensures
            socket == self.sockets()[i as int],
    {
        self.sockets[i]
    }

    /// Asks for the next wave. `stop` is the reason to end the session, as it
    /// stands before a wave other than the first.
    pub fn begin_wave(&mut self, stop: Option<BirthdayStopReason>) -> (start: WaveStart)
        requires
            old(self).wf(),
        ensures
            final(self).wf(),
            final(self).targets() == old(self).targets(),
            final(self).sockets() == old(self).sockets(),
            ({
                let wave = old(self).next_wave();
                let stop = if wave == 0 {
                    None
                } else {
                    stop
                };
                if wave >= old(self).birthday.waves_planned {
                    &&& start is Done
                    &&& final(self).birthday == old(self).birthday
                    &&& final(self).aggregate == old(self).aggregate
                } else if stop is Some && stop->0 is Failure {
                    let kind = stop->0->Failure_0;
                    let books = Punch {
                        failure_kind: crate::failure::combined(
                            old(self).aggregate.failure_kind,
                            Some(kind),
                        ),
                        ..old(self).aggregate@
                    };
                    &&& start == WaveStart::Failed(BirthdaySweepError::Stopped(kind))
                    &&& final(self).aggregate@ == books
                    &&& final(self).birthday == crate::punch_reports::swept(
                        BirthdaySweepReport { stop_reason: stop, ..old(self).birthday },
                        books,
                    )
                } else if stop is Some {
                    &&& start is Done
                    &&& final(self).birthday == (BirthdaySweepReport {
                        stop_reason: stop,
                        ..old(self).birthday
                    })
                    &&& final(self).aggregate == old(self).aggregate
                } else {
                    let sockets = old(self).sockets().len() as int;
                    &&& start matches WaveStart::Probe(lists) && lists@.len() == sockets
                        && forall|s: int|
                        0 <= s < sockets ==> (#[trigger] lists@[s])@ == crate::birthday::assigned(
                            old(self).targets(),
                            wave as int,
                            sockets,
                            s,
                        )
                    &&& final(self).aggregate == old(self).aggregate
                    &&& final(self).birthday == crate::punch_reports::swept(
                        BirthdaySweepReport {
                            waves_started: (old(self).birthday.waves_started + 1) as usize,
                            targets_assigned: if old(self).birthday.targets_assigned + old(self).targets().len() <= usize::MAX {
                                (old(self).birthday.targets_assigned + old(self).targets().len()) as usize
                            } else {
                                usize::MAX
                            },
                            ..old(self).birthday
                        },
                        old(self).aggregate@,
                    )
                }
            }),
    {
        let wave: usize = self.next_wave;
        if wave >= self.birthday.waves_planned {
            return WaveStart::Done;
        }
        if wave > 0 {
            if let Some(reason) = stop {
                self.birthday.stop_reason = Some(reason);
                if let BirthdayStopReason::Failure(kind) = reason {
                    self.aggregate.failure_kind = combine_birthday_failure_kind(
                        self.aggregate.failure_kind,
                        Some(kind),
                    );
                    update_birthday_sweep_counters(&mut self.birthday, &self.aggregate);
                    return WaveStart::Failed(BirthdaySweepError::Stopped(kind));
                }
                return WaveStart::Done;
            }
        }
        self.birthday.waves_started = self.birthday.waves_started + 1;
        self.next_wave = wave + 1;
        let assignments = hard_hard_birthday_wave_assignments(
            self.sockets.len(),
            self.targets.clone(),
            wave,
        );
        assert(self.targets@ =~= old(self).targets@);
        self.birthday.targets_assigned = self.birthday.targets_assigned.saturating_add(
            self.targets.len(),
        );
        update_birthday_sweep_counters(&mut self.birthday, &self.aggregate);
        WaveStart::Probe(assignments)
    }

    /// Books live that a wave has handed out every target.
    pub fn book_wave_started(&self, live: &mut LiveBirthdayProgress)
        ensures
            *final(live) == (LiveBirthdayProgress {
                counters: wave_booked(old(live).counters, self.targets().len(), 0, 0),
                ..*old(live)
            }),
    {
        book_wave_live(live, self.targets.len(), 0, 0);
    }

    /// Books live what a wave gave up, as closing it will count it.
    pub fn book_wave_closed(&self, wave_report: &PunchSendReport, live: &mut LiveBirthdayProgress)
        ensures
            *final(live) == (LiveBirthdayProgress {
                counters: wave_booked(
                    old(live).counters,
                    0,
                    closed_wave(wave_report@, self.targets().len()).targets_cancelled,
                    0,
                ),
                ..*old(live)
            }),
    {
        let unreached: u32 = clamp_u32(self.targets.len()).saturating_sub(
            wave_report.targets_attempted,
        );
        let cancelled: u32 = if wave_report.targets_cancelled < unreached {
            unreached
        } else {
            wave_report.targets_cancelled
        };
        book_wave_live(live, 0, cancelled, 0);
    }

    /// Closes a wave whose workers have all been booked in `wave_report`.
    /// `stop` is the reason to end the session, as it stands after the wave.
    pub fn finish_wave(
        &mut self,
        wave_report: PunchSendReport,
        wave_fully_completed: bool,
        failure_kind: Option<BirthdaySweepFailureKind>,
        stop: Option<BirthdayStopReason>,
    ) -> (end: WaveEnd)
        requires
            old(self).wf(),
            old(self).birthday.waves_completed < old(self).birthday.waves_started,
            old(self).aggregate@.can_merge(wave_report@),
        ensures
            final(self).wf(),
            final(self).targets() == old(self).targets(),
            final(self).sockets() == old(self).sockets(),
            final(self).next_wave() == old(self).next_wave(),
            ({
                let wave = closed_wave(wave_report@, old(self).targets().len());
                exists|books: Punch| #[trigger]
                    old(self).aggregate@.merges_to(wave, books) && (
                        final(self).birthday,
                        final(self).aggregate@,
                        end,
                    ) == wave_verdict(
                        old(self).birthday,
                        books,
                        wave,
                        wave_fully_completed,
                        failure_kind,
                        stop,
                    )
            }),
    {
        let mut wave_report: PunchSendReport = wave_report;
        let ghost raw = wave_report@;
        let assigned: u32 = clamp_u32(self.targets.len());
        wave_report.targets_assigned = assigned;
        let unreached: u32 = assigned.saturating_sub(wave_report.targets_attempted);
        if wave_report.targets_cancelled < unreached {
            wave_report.targets_cancelled = unreached;
        }
        let ghost wave = wave_report@;
        assert(wave == closed_wave(raw, self.targets@.len()));
        let facts = WaveFacts {
            failure_kind: match failure_kind {
                Some(kind) => Some(kind),
                None => wave_report.failure_kind,
            },
            epoch_budget_exhausted: wave_report.epoch_budget_exhausted,
            candidate_iteration_capped: wave_report.candidate_iteration_capped,
            packets_sent: wave_report.packets_sent,
            budget_skipped: wave_report.budget_skipped,
            logical_probes_attempted: wave_report.logical_probes_attempted,
            physical_send_errors: wave_report.physical_send_errors,
        };
        merge_punch_send_reports(&mut self.aggregate, wave_report);
        self.judge_wave(facts, wave_fully_completed, stop, Ghost(wave), Ghost(failure_kind))
    }

    fn judge_wave(
        &mut self,
        facts: WaveFacts,
        wave_fully_completed: bool,
        stop: Option<BirthdayStopReason>,
        Ghost(wave): Ghost<Punch>,
        Ghost(failure): Ghost<Option<BirthdaySweepFailureKind>>,
    ) -> (end: WaveEnd)
        requires
            old(self).wf(),
            old(self).birthday.waves_completed < old(self).birthday.waves_started,
            facts.failure_kind == if failure is Some {
                failure
            } else {
                wave.failure_kind
            },
            facts.epoch_budget_exhausted == wave.epoch_budget_exhausted,
            facts.candidate_iteration_capped == wave.candidate_iteration_capped,
            facts.packets_sent == wave.packets_sent,
            facts.budget_skipped == wave.budget_skipped,
            facts.logical_probes_attempted == wave.logical_probes_attempted,
            facts.physical_send_errors == wave.physical_send_errors,
        ensures
            final(self).wf(),
            final(self).targets == old(self).targets,
            final(self).sockets == old(self).sockets,
            final(self).next_wave == old(self).next_wave,
            (final(self).birthday, final(self).aggregate@, end) == wave_verdict(
                old(self).birthday,
                old(self).aggregate@,
                wave,
                wave_fully_completed,
                failure,
                stop,
            ),
    {
        if let Some(kind) = facts.failure_kind {
            self.aggregate.failure_kind = Some(kind);
            self.aggregate.worker_failed = self.aggregate.worker_failed || matches!(
                kind,
                BirthdaySweepFailureKind::WorkerJoin
            );
            self.birthday.stop_reason = Some(BirthdayStopReason::Failure(kind));
            update_birthday_sweep_counters(&mut self.birthday, &self.aggregate);
            return WaveEnd::Failed(BirthdaySweepError::WorkerStopped(kind));
        }
        if !wave_fully_completed {
            self.birthday.stop_reason = Some(
                match stop {
                    Some(reason) => reason,
                    None => BirthdayStopReason::Failure(
                        BirthdaySweepFailureKind::SocketUnavailable,
                    ),
                },
            );
            update_birthday_sweep_counters(&mut self.birthday, &self.aggregate);
            return WaveEnd::Stopped;
        }
        self.birthday.waves_fully_completed = self.birthday.waves_fully_completed.saturating_add(
            1,
        );
        self.birthday.waves_completed = self.birthday.waves_fully_completed;
        update_birthday_sweep_counters(&mut self.birthday, &self.aggregate);
        if let Some(reason) = stop {
            self.birthday.stop_reason = Some(reason);
            return WaveEnd::Stopped;
        }
        if facts.epoch_budget_exhausted {
            self.birthday.stop_reason = Some(BirthdayStopReason::EpochBudgetExhausted);
            return WaveEnd::Stopped;
        }
        if facts.candidate_iteration_capped {
            self.birthday.stop_reason = Some(BirthdayStopReason::CandidateIterationCapped);
            return WaveEnd::Stopped;
        }
        if facts.packets_sent == 0 && facts.budget_skipped > 0 {
            self.birthday.stop_reason = Some(BirthdayStopReason::BudgetExhausted);
            return WaveEnd::Stopped;
        }
        if facts.packets_sent == 0 && facts.budget_skipped == 0 {
            if facts.logical_probes_attempted == 0 && facts.physical_send_errors == 0 {
                self.birthday.stop_reason = Some(
                    BirthdayStopReason::Failure(BirthdaySweepFailureKind::SocketUnavailable),
                );
                self.aggregate.failure_kind = Some(BirthdaySweepFailureKind::SocketUnavailable);
                return WaveEnd::Stopped;
            }
        }
        WaveEnd::Continue
    }

    /// Ends a session that did not fail. One or more failed sends are no
    /// reason to fail early; only a session all of whose probes failed at the
    /// socket is an error.
    pub fn conclude(&mut self) -> (result: Result<(), BirthdaySweepError>)
        requires
            old(self).wf(),
        ensures
            final(self).wf(),
            ({
                let before = old(self).aggregate@;
                let failed = old(self).birthday.stop_reason is None
                    && crate::punch_reports::only_send_errors(before);
                if failed {
                    let books = Punch {
                        failure_kind: Some(BirthdaySweepFailureKind::Send),
                        ..before
                    };
                    &&& result == Err::<(), BirthdaySweepError>(BirthdaySweepError::AllSendsFailed)
                    &&& final(self).aggregate@ == books
                    &&& final(self).birthday == crate::punch_reports::swept(
                        BirthdaySweepReport {
                            stop_reason: Some(
                                BirthdayStopReason::Failure(BirthdaySweepFailureKind::Send),
                            ),
                            ..old(self).birthday
                        },
                        books,
                    )
                } else {
                    let books = Punch {
                        unique_target_endpoints: crate::histogram::clamp32(
                            before.sent_target_endpoints.len(),
                        ),
                        ..before
                    };
                    &&& result is Ok
                    &&& final(self).birthday == crate::punch_reports::swept(
                        BirthdaySweepReport {
                            stop_reason: if old(self).birthday.stop_reason is None {
                                Some(BirthdayStopReason::Completed)
                            } else {
                                old(self).birthday.stop_reason
                            },
                            ..old(self).birthday
                        },
                        books,
                    )
                    &&& final(self).aggregate@ == (Punch {
                        birthday: Some(final(self).birthday),
                        ..books
                    })
                }
            }),
    {
        if self.birthday.stop_reason.is_none() && self.aggregate.logical_probes_attempted > 0
            && self.aggregate.logical_probes_sent == 0
            && self.aggregate.logical_probe_send_failures > 0
            && self.aggregate.physical_send_errors > 0 {
            self.aggregate.failure_kind = Some(BirthdaySweepFailureKind::Send);
            self.birthday.stop_reason = Some(
                BirthdayStopReason::Failure(BirthdaySweepFailureKind::Send),
            );
            update_birthday_sweep_counters(&mut self.birthday, &self.aggregate);
            return Err(BirthdaySweepError::AllSendsFailed);
        }
        if self.birthday.stop_reason.is_none() {
            self.birthday.stop_reason = Some(BirthdayStopReason::Completed);
        }
        self.aggregate.unique_target_endpoints = clamp_u32(
            self.aggregate.sent_target_endpoints.len(),
        );
        update_birthday_sweep_counters(&mut self.birthday, &self.aggregate);
        self.aggregate.birthday = Some(self.birthday);
        Ok(())
    }
}

/// A session whose fence no longer holds sends no further wave: whatever the
/// reason, the second wave is refused.
pub proof fn law_broken_fence_stops(fence: SessionFence, state: SessionState)
    requires
        state.network_generation != fence.network_generation || !state.peer_session_current
            || state.remote_candidate_epoch != fence.remote_candidate_epoch || state.plan != Some(
            fence.profile,
        ) || !state.token_current || state.direct_commit_seq != fence.direct_commit_seq
            || state.direct || state.winner_selected,
    ensures
        stop_reason(fence, state) is Some,
{
}

/// A session never assigns more than two waves.
pub proof fn law_at_most_two_waves(sweep: BirthdaySweep)
    requires
        sweep.wf(),
    ensures
        sweep.birthday.waves_started <= 2,
        sweep.birthday.waves_completed <= sweep.birthday.waves_started,
{
}

/// What is booked live of a wave adds up, in whatever portions it is booked.
pub proof fn law_live_bookings_add_up(
    counters: LiveBirthdayCounters,
    assigned: nat,
    cancelled: u32,
    workers: u32,
    more_assigned: nat,
    more_cancelled: u32,
    more_workers: u32,
)
    ensures
        wave_booked(
            wave_booked(counters, assigned, cancelled, workers),
            more_assigned,
            more_cancelled,
            more_workers,
        ) == wave_booked(
            counters,
            assigned + more_assigned,
            crate::histogram::add32(cancelled, more_cancelled),
            crate::histogram::add32(workers, more_workers),
        ),
{
}

/// The live counters keep step with the session's books: where they agree on
/// the targets before a wave, they do once it was booked live and merged.
pub proof fn law_live_targets_keep_step(
    counters: LiveBirthdayCounters,
    before: Punch,
    after: Punch,
    wave: Punch,
    targets: nat,
    workers: u32,
)
    requires
        counters.targets_assigned == before.targets_assigned,
        counters.targets_cancelled == before.targets_cancelled,
        before.merges_to(closed_wave(wave, targets), after),
    ensures
        ({
            let started = wave_booked(counters, targets, 0, 0);
            let returned = wave_booked(started, 0, 0, workers);
            let closed = wave_booked(
                returned,
                0,
                closed_wave(wave, targets).targets_cancelled,
                0,
            );
            &&& closed.targets_assigned == after.targets_assigned
            &&& closed.targets_cancelled == after.targets_cancelled
            &&& closed.workers_completed == crate::histogram::add32(
                counters.workers_completed,
                workers,
            )
        }),
{
}

/// A session goes on exactly while nothing of its fence moved and nobody won.
pub proof fn law_session_goes_on(fence: SessionFence, state: SessionState)
    ensures
        stop_reason(fence, state) is None <==> {
            &&& !state.winner_selected
            &&& !state.direct
            &&& state.network_generation == fence.network_generation
            &&& state.peer_session_current
            &&& state.remote_candidate_epoch == fence.remote_candidate_epoch
            &&& state.plan == Some(fence.profile)
            &&& state.token_current
            &&& state.direct_commit_seq == fence.direct_commit_seq
        },
{
}

/// A session that ends tells the first of the reasons.
pub proof fn law_session_ends_for_the_first_reason(fence: SessionFence, state: SessionState)
    ensures
        ({
            let r = stop_reason(fence, state);
            let open = !state.winner_selected && !state.direct;
            let network = open && state.network_generation == fence.network_generation;
            let peer = network && state.peer_session_current;
            let epoch = peer && state.remote_candidate_epoch == fence.remote_candidate_epoch;
            let plan = epoch && state.plan == Some(fence.profile);
            let token = plan && state.token_current;
            &&& state.winner_selected <==> r == Some(BirthdayStopReason::WinnerSelected)
            &&& !state.winner_selected && state.direct <==> r == Some(
                BirthdayStopReason::DirectConfirmed,
            )
            &&& open && !network <==> r == Some(
                BirthdayStopReason::Failure(BirthdaySweepFailureKind::NetworkGenerationChanged),
            )
            &&& network && !peer <==> r == Some(
                BirthdayStopReason::Failure(BirthdaySweepFailureKind::PeerSessionChanged),
            )
            &&& peer && !epoch <==> r == Some(
                BirthdayStopReason::Failure(BirthdaySweepFailureKind::CandidateEpochChanged),
            )
            &&& epoch && !plan <==> r == Some(
                BirthdayStopReason::Failure(BirthdaySweepFailureKind::ProfileGenerationChanged),
            )
            &&& plan && !token <==> r == Some(
                BirthdayStopReason::Failure(BirthdaySweepFailureKind::SessionRetired),
            )
            &&& token && state.direct_commit_seq != fence.direct_commit_seq <==> r == Some(
                BirthdayStopReason::DirectCommitSeqChanged,
            )
        }),
{
}

/// The targets are those with a port, each once, and a further one stands
/// behind those before it.
pub proof fn law_distinct_targets(targets: Seq<SocketAddr>, target: SocketAddr)
    ensures
        distinct_targets(targets).contains(target) <==> targets.contains(target) && target.port
            != 0,
        distinct_targets(targets).no_duplicates(),
        distinct_targets(targets).len() <= targets.len(),
        distinct_targets(targets.push(target)) == if target.port == 0 || targets.contains(target) {
            distinct_targets(targets)
        } else {
            distinct_targets(targets).push(target)
        },
    decreases targets.len(),
{
    assert(targets.push(target).drop_last() =~= targets);
    if targets.len() > 0 {
        let rest = targets.drop_last();
        let last = targets.last();
        let before = distinct_targets(rest);
        law_distinct_targets(rest, target);
        law_distinct_targets(rest, last);
        assert(targets =~= rest.push(last));
        assert(targets.contains(target) <==> rest.contains(target) || target == last) by {
            if rest.contains(target) {
                let i = choose|i: int| 0 <= i < rest.len() && rest[i] == target;
                assert(targets[i] == target);
            }
            if target == last {
                assert(targets[targets.len() - 1] == target);
            }
            if targets.contains(target) {
                let i = choose|i: int| 0 <= i < targets.len() && targets[i] == target;
                if i < rest.len() {
                    assert(rest[i] == target);
                }
            }
        }
        if last.port != 0 && !before.contains(last) {
            let after = before.push(last);
            assert(after.contains(target) <==> before.contains(target) || target == last) by {
                if before.contains(target) {
                    let i = choose|i: int| 0 <= i < before.len() && before[i] == target;
                    assert(after[i] == target);
                }
                if target == last {
                    assert(after[after.len() - 1] == target);
                }
                if after.contains(target) {
                    let i = choose|i: int| 0 <= i < after.len() && after[i] == target;
                    if i < before.len() {
                        assert(before[i] == target);
                    }
                }
            }
        }
    }
}

/// A session probes all its distinct targets where they are not too many, and
/// else the first of them.
pub proof fn law_effective_targets(targets: Seq<SocketAddr>, max: usize)
    ensures
        distinct_targets(targets).len() <= max ==> effective_targets(targets, max)
            == distinct_targets(targets),
        distinct_targets(targets).len() > max ==> effective_targets(targets, max)
            == distinct_targets(targets).take(max as int),
{
}

/// What a session's report holds before its first wave.
pub proof fn law_planned_report(
    level: usize,
    generated: usize,
    signaled: usize,
    targets: usize,
    snapshot: Seq<HardHardSocketSnapshot>,
)
    requires
        snapshot.len() <= usize::MAX,
        crate::birthday::usable_sockets(snapshot).len() <= usize::MAX,
    ensures
        ({
            let r = planned_report(level, generated, signaled, targets as nat, snapshot);
            let usable = crate::birthday::usable_sockets(snapshot).len();
            let wanted = crate::birthday::sockets_for(level);
            &&& r.requested_level == level
            &&& r.generated_candidate_count == generated
            &&& r.signaled_candidate_count == signaled
            &&& r.effective_target_count == targets
            &&& r.requested_socket_count == wanted
            &&& r.usable_socket_count == usable && r.socket_count == usable
            &&& usable >= wanted ==> r.unavailable_socket_count == 0
            &&& usable < wanted ==> r.unavailable_socket_count + usable == wanted
            &&& r.degraded_reason is Some <==> 0 < usable < wanted
            &&& r.degraded_reason matches Some(d) ==> d
                == BirthdayDegradation::PartialSocketUnavailable
            &&& r.stop_reason is None
            &&& r.waves_started == 0 && r.waves_completed == 0 && r.waves_fully_completed == 0
            &&& r.targets_assigned == 0 && r.targets_attempted == 0
        }),
{
}

/// A closed wave was assigned what it was assigned, and of that everything that
/// was neither tried nor given up counts as given up.
pub proof fn law_closed_wave(wave: Punch, assigned: nat)
    requires
        assigned <= u32::MAX,
    ensures
        ({
            let closed = closed_wave(wave, assigned);
            &&& closed.targets_assigned == assigned
            &&& closed.targets_cancelled >= wave.targets_cancelled
            &&& closed.targets_cancelled + wave.targets_attempted >= assigned
            &&& closed.targets_cancelled == wave.targets_cancelled || closed.targets_cancelled
                + wave.targets_attempted == assigned
            &&& closed.targets_attempted == wave.targets_attempted
            &&& closed.packets_sent == wave.packets_sent
            &&& closed.failure_kind == wave.failure_kind
            &&& closed.budget_skipped == wave.budget_skipped
            &&& closed.epoch_budget_exhausted == wave.epoch_budget_exhausted
            &&& closed.candidate_iteration_capped == wave.candidate_iteration_capped
        }),
{
}

/// What is booked live of a wave is added, and nothing else changes.
pub proof fn law_wave_is_booked(
    c: LiveBirthdayCounters,
    assigned: nat,
    cancelled: u32,
    workers: u32,
)
    requires
        c.targets_assigned + assigned <= u32::MAX,
        c.targets_cancelled + cancelled <= u32::MAX,
        c.workers_completed + workers <= u32::MAX,
    ensures
        ({
            let b = wave_booked(c, assigned, cancelled, workers);
            &&& b.targets_assigned == c.targets_assigned + assigned
            &&& b.targets_cancelled == c.targets_cancelled + cancelled
            &&& b.workers_completed == c.workers_completed + workers
            &&& b.targets_examined == c.targets_examined
            &&& b.targets_attempted == c.targets_attempted
            &&& b.physical_datagrams_sent == c.physical_datagrams_sent
            &&& b.logical_probes_sent == c.logical_probes_sent
        }),
{
}

/// A wave ends the session with an error exactly where a worker failed or the
/// wave did, and is followed by another exactly where it was completed, nothing
/// asks to stop, no budget ran out and something was tried.
pub proof fn law_wave_ends(
    birthday: BirthdaySweepReport,
    aggregate: Punch,
    wave: Punch,
    completed: bool,
    failure: Option<BirthdaySweepFailureKind>,
    stop: Option<BirthdayStopReason>,
)
    ensures
        ({
            let (report, books, end) = wave_verdict(
                birthday,
                aggregate,
                wave,
                completed,
                failure,
                stop,
            );
            let kind = if failure is Some {
                failure
            } else {
                wave.failure_kind
            };
            let silent = wave.packets_sent == 0 && wave.logical_probes_attempted == 0
                && wave.physical_send_errors == 0;
            &&& end is Failed <==> failure is Some || wave.failure_kind is Some
            &&& end matches WaveEnd::Failed(e) ==> kind matches Some(k) && e
                == BirthdaySweepError::WorkerStopped(k) && books.failure_kind == kind
                && report.stop_reason == Some(BirthdayStopReason::Failure(k))
            &&& end is Failed ==> (books.worker_failed <==> aggregate.worker_failed || kind == Some(
                BirthdaySweepFailureKind::WorkerJoin,
            ))
            &&& end is Continue <==> kind is None && completed && stop is None
                && !wave.epoch_budget_exhausted && !wave.candidate_iteration_capped && !(
            wave.packets_sent == 0 && wave.budget_skipped > 0) && !silent
            &&& end is Continue ==> books == aggregate && report.stop_reason
                == birthday.stop_reason
            &&& end is Stopped ==> report.stop_reason is Some
        }),
{
}

/// Why a session stops after a wave: what asks to stop comes first, then the
/// epoch's budget, then the cap on candidates, then the budget, and only a
/// wave that tried nothing finds the sockets unavailable.
pub proof fn law_wave_stops_for_the_first_reason(
    birthday: BirthdaySweepReport,
    aggregate: Punch,
    wave: Punch,
    completed: bool,
    stop: Option<BirthdayStopReason>,
)
    requires
        wave.failure_kind is None,
    ensures
        ({
            let (report, books, end) = wave_verdict(
                birthday,
                aggregate,
                wave,
                completed,
                None,
                stop,
            );
            let quiet = completed && stop is None;
            let epoch = quiet && wave.epoch_budget_exhausted;
            let cap = quiet && !epoch && wave.candidate_iteration_capped;
            let budget = quiet && !epoch && !cap && wave.packets_sent == 0 && wave.budget_skipped
                > 0;
            let silent = quiet && !epoch && !cap && !budget && wave.packets_sent == 0
                && wave.logical_probes_attempted == 0 && wave.physical_send_errors == 0;
            let unavailable = Some(
                BirthdayStopReason::Failure(BirthdaySweepFailureKind::SocketUnavailable),
            );
            &&& stop is Some ==> end is Stopped && report.stop_reason == stop
            &&& !completed && stop is None ==> end is Stopped && report.stop_reason
                == unavailable && books == aggregate
            &&& epoch ==> report.stop_reason == Some(BirthdayStopReason::EpochBudgetExhausted)
            &&& cap ==> report.stop_reason == Some(BirthdayStopReason::CandidateIterationCapped)
            &&& budget ==> report.stop_reason == Some(BirthdayStopReason::BudgetExhausted)
            &&& silent ==> report.stop_reason == unavailable && books.failure_kind == Some(
                BirthdaySweepFailureKind::SocketUnavailable,
            )
            &&& !silent ==> books == aggregate
            &&& completed && birthday.waves_fully_completed < usize::MAX
                ==> report.waves_fully_completed == birthday.waves_fully_completed + 1
                && report.waves_completed == birthday.waves_fully_completed + 1
            &&& !completed ==> report.waves_completed == birthday.waves_completed
        }),
{
}

/// The state that a sweep shows is what it holds, and one that is well formed
/// has started no more waves than its sockets allow.
pub proof fn law_sweep_shows_its_state(sweep: BirthdaySweep)
    ensures
        sweep.targets() == sweep.targets@,
        sweep.sockets() == sweep.sockets@,
        sweep.next_wave() == sweep.next_wave,
        sweep.wf() ==> sweep.next_wave == sweep.birthday.waves_started
            && sweep.birthday.waves_started <= sweep.birthday.waves_planned
            && sweep.birthday.waves_completed <= sweep.birthday.waves_started
            && sweep.birthday.waves_fully_completed == sweep.birthday.waves_completed,
{
}

} // verus!

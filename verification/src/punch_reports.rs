//! The books of a punch: what was planned, tried, sent and skipped.

use vstd::prelude::*;
use crate::failure::{
    combine_birthday_failure_kind, BirthdaySweepFailureKind, BirthdayStopReason, DaemonError,
    ProbeSendFailureKind,
};
use crate::histogram::{
    add_new, add_row, add_rows, clamp_u32, earlier_of, later_of, max_u32, max_u64, raise_rows, sort_rows,
    sum_datagrams,
};
use crate::net::SocketAddr;

verus! {

/// Why a birthday session ran with fewer sockets than it asked for.
#[derive(Clone, Copy, Debug, PartialEq, Eq, Structural)]
pub enum BirthdayDegradation {
    PartialSocketUnavailable,
    SingleSocket,
}

impl BirthdayDegradation {
    pub open spec fn text(self) -> Seq<char> {
        match self {
            Self::PartialSocketUnavailable => "partial_socket_unavailable"@,
            Self::SingleSocket => "single_socket"@,
        }
    }

    pub fn label(self) -> (r: &'static str)
        ensures
            r@ == self.text(),
    {
        match self {
            Self::PartialSocketUnavailable => "partial_socket_unavailable",
            Self::SingleSocket => "single_socket",
        }
    }
}

/// The plan and the progress of a birthday session.
#[derive(Clone, Copy, Debug, PartialEq, Eq, Structural)]
pub struct BirthdaySweepReport {
    pub requested_level: usize,
    pub generated_candidate_count: usize,
    pub signaled_candidate_count: usize,
    pub effective_target_count: usize,
    pub requested_socket_count: usize,
    pub attached_socket_count: usize,
    pub usable_socket_count: usize,
    pub unavailable_socket_count: usize,
    pub socket_count: usize,
    pub waves_planned: usize,
    pub waves_started: usize,
    pub waves_completed: usize,
    pub waves_fully_completed: usize,
    pub packets_planned: usize,
    pub targets_assigned: usize,
    pub targets_attempted: usize,
    pub targets_examined: usize,
    pub targets_budget_skipped: usize,
    pub targets_cancelled: usize,
    pub logical_probes_attempted: usize,
    pub logical_probes_sent: usize,
    pub logical_probe_send_failures: usize,
    pub physical_datagrams_sent: usize,
    pub physical_send_errors: usize,
    pub partial_physical_send_errors: usize,
    pub degraded_reason: Option<BirthdayDegradation>,
    pub stop_reason: Option<BirthdayStopReason>,
}

impl BirthdaySweepReport {
    pub open spec fn blank() -> Self {
        BirthdaySweepReport {
            requested_level: 0,
            generated_candidate_count: 0,
            signaled_candidate_count: 0,
            effective_target_count: 0,
            requested_socket_count: 0,
            attached_socket_count: 0,
            usable_socket_count: 0,
            unavailable_socket_count: 0,
            socket_count: 0,
            waves_planned: 0,
            waves_started: 0,
            waves_completed: 0,
            waves_fully_completed: 0,
            packets_planned: 0,
            targets_assigned: 0,
            targets_attempted: 0,
            targets_examined: 0,
            targets_budget_skipped: 0,
            targets_cancelled: 0,
            logical_probes_attempted: 0,
            logical_probes_sent: 0,
            logical_probe_send_failures: 0,
            physical_datagrams_sent: 0,
            physical_send_errors: 0,
            partial_physical_send_errors: 0,
            degraded_reason: None,
            stop_reason: None,
        }
    }
}

impl Default for BirthdaySweepReport {
    fn default() -> (r: Self)
        ensures
            r == BirthdaySweepReport::blank(),
    {
        BirthdaySweepReport {
            requested_level: 0,
            generated_candidate_count: 0,
            signaled_candidate_count: 0,
            effective_target_count: 0,
            requested_socket_count: 0,
            attached_socket_count: 0,
            usable_socket_count: 0,
            unavailable_socket_count: 0,
            socket_count: 0,
            waves_planned: 0,
            waves_started: 0,
            waves_completed: 0,
            waves_fully_completed: 0,
            packets_planned: 0,
            targets_assigned: 0,
            targets_attempted: 0,
            targets_examined: 0,
            targets_budget_skipped: 0,
            targets_cancelled: 0,
            logical_probes_attempted: 0,
            logical_probes_sent: 0,
            logical_probe_send_failures: 0,
            physical_datagrams_sent: 0,
            physical_send_errors: 0,
            partial_physical_send_errors: 0,
            degraded_reason: None,
            stop_reason: None,
        }
    }
}

/// What a punch did.
#[derive(Debug)]
pub struct PunchSendReport {
    pub packets_sent: u32,
    pub logical_probes_attempted: u32,
    pub logical_probes_sent: u32,
    pub logical_probe_send_failures: u32,
    pub physical_datagrams_sent: u32,
    pub physical_bytes_sent: u64,
    pub physical_send_errors: u32,
    pub physical_send_error_bytes: u64,
    pub partial_physical_send_errors: u32,
    pub probe_path_errors: u32,
    pub unique_target_endpoints: u32,
    pub first_send_at_ms: Option<u64>,
    pub last_send_at_ms: Option<u64>,
    pub per_socket_sent: Vec<(usize, u32)>,
    pub budget_skipped: u32,
    pub epoch_budget_exhausted: bool,
    pub candidate_iteration_capped: bool,
    pub sent_target_endpoints: Vec<SocketAddr>,
    pub targets_assigned: u32,
    pub targets_examined: u32,
    pub targets_attempted: u32,
    pub targets_cancelled: u32,
    pub target_processing_completed: bool,
    pub worker_failed: bool,
    pub failure_kind: Option<BirthdaySweepFailureKind>,
    pub birthday: Option<BirthdaySweepReport>,
}

/// The contents of a [`PunchSendReport`].
#[verifier::ext_equal]
pub struct Punch {
    pub packets_sent: u32,
    pub logical_probes_attempted: u32,
    pub logical_probes_sent: u32,
    pub logical_probe_send_failures: u32,
    pub physical_datagrams_sent: u32,
    pub physical_bytes_sent: u64,
    pub physical_send_errors: u32,
    pub physical_send_error_bytes: u64,
    pub partial_physical_send_errors: u32,
    pub probe_path_errors: u32,
    pub unique_target_endpoints: u32,
    pub first_send_at_ms: Option<u64>,
    pub last_send_at_ms: Option<u64>,
    pub per_socket_sent: Seq<(usize, u32)>,
    pub budget_skipped: u32,
    pub epoch_budget_exhausted: bool,
    pub candidate_iteration_capped: bool,
    pub sent_target_endpoints: Seq<SocketAddr>,
    pub targets_assigned: u32,
    pub targets_examined: u32,
    pub targets_attempted: u32,
    pub targets_cancelled: u32,
    pub target_processing_completed: bool,
    pub worker_failed: bool,
    pub failure_kind: Option<BirthdaySweepFailureKind>,
    pub birthday: Option<BirthdaySweepReport>,
}

impl Punch {
    pub open spec fn blank() -> Punch {
        Punch {
            packets_sent: 0,
            logical_probes_attempted: 0,
            logical_probes_sent: 0,
            logical_probe_send_failures: 0,
            physical_datagrams_sent: 0,
            physical_bytes_sent: 0,
            physical_send_errors: 0,
            physical_send_error_bytes: 0,
            partial_physical_send_errors: 0,
            probe_path_errors: 0,
            unique_target_endpoints: 0,
            first_send_at_ms: None,
            last_send_at_ms: None,
            per_socket_sent: Seq::empty(),
            budget_skipped: 0,
            epoch_budget_exhausted: false,
            candidate_iteration_capped: false,
            sent_target_endpoints: Seq::empty(),
            targets_assigned: 0,
            targets_examined: 0,
            targets_attempted: 0,
            targets_cancelled: 0,
            target_processing_completed: false,
            worker_failed: false,
            failure_kind: None,
            birthday: None,
        }
    }

    /// The logical probes of a report: old-style reports count packets only.
    pub open spec fn sent_probes(self) -> u32 {
        crate::histogram::max32(self.logical_probes_sent, self.packets_sent)
    }

    /// The rows that merging `source` into `self` yields, unsorted.
    pub open spec fn merged_rows(self, source: Punch) -> Seq<(usize, u32)> {
        crate::histogram::with_all_added(self.per_socket_sent, source.per_socket_sent)
    }

    /// What merging `source` into `self` yields, with `rows` the sorted
    /// histogram. The histogram decides how many datagrams were sent.
    pub open spec fn merged(self, source: Punch, rows: Seq<(usize, u32)>) -> Punch {
        let assigned = crate::histogram::add32(self.targets_assigned, source.targets_assigned);
        Punch {
            packets_sent: crate::histogram::add32(self.packets_sent, source.sent_probes()),
            logical_probes_sent: crate::histogram::add32(
                self.logical_probes_sent,
                source.sent_probes(),
            ),
            logical_probes_attempted: crate::histogram::add32(
                self.logical_probes_attempted,
                crate::histogram::max32(source.logical_probes_attempted, source.sent_probes()),
            ),
            logical_probe_send_failures: crate::histogram::add32(
                self.logical_probe_send_failures,
                source.logical_probe_send_failures,
            ),
            physical_datagrams_sent: crate::histogram::total(rows) as u32,
            physical_bytes_sent: crate::histogram::add64(
                self.physical_bytes_sent,
                source.physical_bytes_sent,
            ),
            physical_send_errors: crate::histogram::add32(
                self.physical_send_errors,
                source.physical_send_errors,
            ),
            physical_send_error_bytes: crate::histogram::add64(
                self.physical_send_error_bytes,
                source.physical_send_error_bytes,
            ),
            partial_physical_send_errors: crate::histogram::add32(
                self.partial_physical_send_errors,
                source.partial_physical_send_errors,
            ),
            probe_path_errors: crate::histogram::add32(
                self.probe_path_errors,
                source.probe_path_errors,
            ),
            unique_target_endpoints: self.unique_target_endpoints,
            first_send_at_ms: crate::histogram::earlier(
                self.first_send_at_ms,
                source.first_send_at_ms,
            ),
            last_send_at_ms: crate::histogram::later(self.last_send_at_ms, source.last_send_at_ms),
            per_socket_sent: rows,
            budget_skipped: crate::histogram::add32(self.budget_skipped, source.budget_skipped),
            epoch_budget_exhausted: self.epoch_budget_exhausted || source.epoch_budget_exhausted,
            candidate_iteration_capped: self.candidate_iteration_capped
                || source.candidate_iteration_capped,
            sent_target_endpoints: crate::histogram::with_new(
                self.sent_target_endpoints,
                source.sent_target_endpoints,
            ),
            targets_assigned: assigned,
            targets_examined: crate::histogram::add32(
                self.targets_examined,
                crate::histogram::max32(source.targets_examined, source.targets_attempted),
            ),
            targets_attempted: crate::histogram::add32(
                self.targets_attempted,
                source.targets_attempted,
            ),
            targets_cancelled: crate::histogram::add32(
                self.targets_cancelled,
                source.targets_cancelled,
            ),
            target_processing_completed: source.target_processing_completed && (assigned == 0
                || self.target_processing_completed),
            worker_failed: self.worker_failed || source.worker_failed || source.failure_kind
                == Some(BirthdaySweepFailureKind::WorkerJoin),
            failure_kind: crate::failure::combined(self.failure_kind, source.failure_kind),
            birthday: self.birthday,
        }
    }

    /// Whether the two histograms of a merge add up within thirty-two bits.
    pub open spec fn can_merge(self, source: Punch) -> bool {
        &&& crate::histogram::total(source.per_socket_sent) <= u32::MAX
        &&& crate::histogram::total(self.merged_rows(source)) <= u32::MAX
    }

    /// `next` is what merging `source` into `self` yields.
    pub open spec fn merges_to(self, source: Punch, next: Punch) -> bool {
        &&& crate::histogram::is_sorting_of(next.per_socket_sent, self.merged_rows(source))
        &&& next == self.merged(source, next.per_socket_sent)
        &&& crate::histogram::total(next.per_socket_sent) == crate::histogram::total(
            self.merged_rows(source),
        )
    }
}

impl PunchSendReport {
    pub open spec fn view(&self) -> Punch {
        Punch {
            packets_sent: self.packets_sent,
            logical_probes_attempted: self.logical_probes_attempted,
            logical_probes_sent: self.logical_probes_sent,
            logical_probe_send_failures: self.logical_probe_send_failures,
            physical_datagrams_sent: self.physical_datagrams_sent,
            physical_bytes_sent: self.physical_bytes_sent,
            physical_send_errors: self.physical_send_errors,
            physical_send_error_bytes: self.physical_send_error_bytes,
            partial_physical_send_errors: self.partial_physical_send_errors,
            probe_path_errors: self.probe_path_errors,
            unique_target_endpoints: self.unique_target_endpoints,
            first_send_at_ms: self.first_send_at_ms,
            last_send_at_ms: self.last_send_at_ms,
            per_socket_sent: self.per_socket_sent@,
            budget_skipped: self.budget_skipped,
            epoch_budget_exhausted: self.epoch_budget_exhausted,
            candidate_iteration_capped: self.candidate_iteration_capped,
            sent_target_endpoints: self.sent_target_endpoints@,
            targets_assigned: self.targets_assigned,
            targets_examined: self.targets_examined,
            targets_attempted: self.targets_attempted,
            targets_cancelled: self.targets_cancelled,
            target_processing_completed: self.target_processing_completed,
            worker_failed: self.worker_failed,
            failure_kind: self.failure_kind,
            birthday: self.birthday,
        }
    }
}

impl Default for PunchSendReport {
    fn default() -> (r: Self)
        ensures
            r@ == Punch::blank(),
    {
        PunchSendReport {
            packets_sent: 0,
            logical_probes_attempted: 0,
            logical_probes_sent: 0,
            logical_probe_send_failures: 0,
            physical_datagrams_sent: 0,
            physical_bytes_sent: 0,
            physical_send_errors: 0,
            physical_send_error_bytes: 0,
            partial_physical_send_errors: 0,
            probe_path_errors: 0,
            unique_target_endpoints: 0,
            first_send_at_ms: None,
            last_send_at_ms: None,
            per_socket_sent: Vec::new(),
            budget_skipped: 0,
            epoch_budget_exhausted: false,
            candidate_iteration_capped: false,
            sent_target_endpoints: Vec::new(),
            targets_assigned: 0,
            targets_examined: 0,
            targets_attempted: 0,
            targets_cancelled: 0,
            target_processing_completed: false,
            worker_failed: false,
            failure_kind: None,
            birthday: None,
        }
    }
}

impl Clone for PunchSendReport {
    fn clone(&self) -> (r: Self)
        ensures
            r@ == self@,
    {
        let mut per_socket_sent: Vec<(usize, u32)> = Vec::new();
        for i in 0..self.per_socket_sent.len()
            invariant
                per_socket_sent@ == self.per_socket_sent@.take(i as int),
        {
            per_socket_sent.push(self.per_socket_sent[i]);
            assert(self.per_socket_sent@.take(i + 1) =~= self.per_socket_sent@.take(
                i as int,
            ).push(self.per_socket_sent@[i as int]));
        }
        let sent_target_endpoints: Vec<SocketAddr> = self.sent_target_endpoints.clone();
        assert(per_socket_sent@ =~= self.per_socket_sent@);
        assert(sent_target_endpoints@ =~= self.sent_target_endpoints@);
        PunchSendReport {
            packets_sent: self.packets_sent,
            logical_probes_attempted: self.logical_probes_attempted,
            logical_probes_sent: self.logical_probes_sent,
            logical_probe_send_failures: self.logical_probe_send_failures,
            physical_datagrams_sent: self.physical_datagrams_sent,
            physical_bytes_sent: self.physical_bytes_sent,
            physical_send_errors: self.physical_send_errors,
            physical_send_error_bytes: self.physical_send_error_bytes,
            partial_physical_send_errors: self.partial_physical_send_errors,
            probe_path_errors: self.probe_path_errors,
            unique_target_endpoints: self.unique_target_endpoints,
            first_send_at_ms: self.first_send_at_ms,
            last_send_at_ms: self.last_send_at_ms,
            per_socket_sent,
            budget_skipped: self.budget_skipped,
            epoch_budget_exhausted: self.epoch_budget_exhausted,
            candidate_iteration_capped: self.candidate_iteration_capped,
            sent_target_endpoints,
            targets_assigned: self.targets_assigned,
            targets_examined: self.targets_examined,
            targets_attempted: self.targets_attempted,
            targets_cancelled: self.targets_cancelled,
            target_processing_completed: self.target_processing_completed,
            worker_failed: self.worker_failed,
            failure_kind: self.failure_kind,
            birthday: self.birthday,
        }
    }
}

/// Adds a report to another.
pub fn merge_punch_send_reports(destination: &mut PunchSendReport, source: PunchSendReport)
    requires
        old(destination)@.can_merge(source@),
    ensures
        old(destination)@.merges_to(source@, final(destination)@),
{
    let source_logical_sent: u32 = max_u32(source.logical_probes_sent, source.packets_sent);
    let source_logical_attempted: u32 = max_u32(
        source.logical_probes_attempted,
        source_logical_sent,
    );
    let source_targets_examined: u32 = max_u32(source.targets_examined, source.targets_attempted);
    let source_physical_datagrams_sent: u32 = max_u32(
        source.physical_datagrams_sent,
        sum_datagrams(&source.per_socket_sent),
    );
    destination.packets_sent = destination.packets_sent.saturating_add(source_logical_sent);
    destination.logical_probes_sent = destination.logical_probes_sent.saturating_add(
        source_logical_sent,
    );
    destination.logical_probes_attempted = destination.logical_probes_attempted.saturating_add(
        source_logical_attempted,
    );
    destination.logical_probe_send_failures =
    destination.logical_probe_send_failures.saturating_add(source.logical_probe_send_failures);
    destination.physical_datagrams_sent = destination.physical_datagrams_sent.saturating_add(
        source_physical_datagrams_sent,
    );
    destination.physical_bytes_sent = destination.physical_bytes_sent.saturating_add(
        source.physical_bytes_sent,
    );
    destination.physical_send_errors = destination.physical_send_errors.saturating_add(
        source.physical_send_errors,
    );
    destination.physical_send_error_bytes = destination.physical_send_error_bytes.saturating_add(
        source.physical_send_error_bytes,
    );
    destination.partial_physical_send_errors =
    destination.partial_physical_send_errors.saturating_add(source.partial_physical_send_errors);
    destination.probe_path_errors = destination.probe_path_errors.saturating_add(
        source.probe_path_errors,
    );
    destination.budget_skipped = destination.budget_skipped.saturating_add(source.budget_skipped);
    destination.targets_assigned = destination.targets_assigned.saturating_add(
        source.targets_assigned,
    );
    destination.targets_examined = destination.targets_examined.saturating_add(
        source_targets_examined,
    );
    destination.targets_attempted = destination.targets_attempted.saturating_add(
        source.targets_attempted,
    );
    destination.targets_cancelled = destination.targets_cancelled.saturating_add(
        source.targets_cancelled,
    );
    if destination.targets_assigned == 0 {
        destination.target_processing_completed = source.target_processing_completed;
    } else {
        destination.target_processing_completed = destination.target_processing_completed
            && source.target_processing_completed;
    }
    let source_joins: bool = matches!(
        source.failure_kind,
        Some(BirthdaySweepFailureKind::WorkerJoin)
    );
    destination.worker_failed = destination.worker_failed || source.worker_failed || source_joins;
    destination.failure_kind = combine_birthday_failure_kind(
        destination.failure_kind,
        source.failure_kind,
    );
    destination.epoch_budget_exhausted = destination.epoch_budget_exhausted
        || source.epoch_budget_exhausted;
    destination.candidate_iteration_capped = destination.candidate_iteration_capped
        || source.candidate_iteration_capped;
    destination.first_send_at_ms = earlier_of(
        destination.first_send_at_ms,
        source.first_send_at_ms,
    );
    destination.last_send_at_ms = later_of(destination.last_send_at_ms, source.last_send_at_ms);
    add_new(&mut destination.sent_target_endpoints, &source.sent_target_endpoints);
    add_rows(&mut destination.per_socket_sent, &source.per_socket_sent);
    normalize_physical_send_dimensions(destination);
}

/// Keeps the datagram total exact after reports of several workers have been
/// merged: every send records its socket, so the histogram is the total.
pub fn normalize_physical_send_dimensions(report: &mut PunchSendReport)
    requires
        crate::histogram::total(old(report).per_socket_sent@) <= u32::MAX,
    ensures
        crate::histogram::is_sorting_of(
            final(report).per_socket_sent@,
            old(report).per_socket_sent@,
        ),
        crate::histogram::total(final(report).per_socket_sent@) == crate::histogram::total(
            old(report).per_socket_sent@,
        ),
        final(report)@ == (Punch {
            per_socket_sent: final(report).per_socket_sent@,
            physical_datagrams_sent: crate::histogram::total(
                final(report).per_socket_sent@,
            ) as u32,
            ..old(report)@
        }),
{
    sort_rows(&mut report.per_socket_sent);
    report.physical_datagrams_sent = sum_datagrams(&report.per_socket_sent);
}

/// The counters of a birthday report that come from the merged punch report.
pub open spec fn swept(birthday: BirthdaySweepReport, aggregate: Punch) -> BirthdaySweepReport {
    BirthdaySweepReport {
        targets_assigned: if birthday.targets_assigned >= aggregate.targets_assigned as usize {
            birthday.targets_assigned
        } else {
            aggregate.targets_assigned as usize
        },
        targets_attempted: aggregate.targets_attempted as usize,
        targets_examined: crate::histogram::max32(
            aggregate.targets_examined,
            aggregate.targets_attempted,
        ) as usize,
        logical_probes_attempted: crate::histogram::max32(
            aggregate.logical_probes_attempted,
            aggregate.sent_probes(),
        ) as usize,
        logical_probes_sent: aggregate.sent_probes() as usize,
        logical_probe_send_failures: aggregate.logical_probe_send_failures as usize,
        physical_datagrams_sent: crate::histogram::total(aggregate.per_socket_sent) as usize,
        physical_send_errors: aggregate.physical_send_errors as usize,
        partial_physical_send_errors: aggregate.partial_physical_send_errors as usize,
        targets_budget_skipped: aggregate.budget_skipped as usize,
        targets_cancelled: aggregate.targets_cancelled as usize,
        ..birthday
    }
}

pub fn update_birthday_sweep_counters(
    birthday: &mut BirthdaySweepReport,
    aggregate: &PunchSendReport,
)
    requires
        crate::histogram::total(aggregate.per_socket_sent@) <= u32::MAX,
    ensures
        *final(birthday) == swept(*old(birthday), aggregate@),
{
    let assigned: usize = aggregate.targets_assigned as usize;
    if birthday.targets_assigned < assigned {
        birthday.targets_assigned = assigned;
    }
    birthday.targets_attempted = aggregate.targets_attempted as usize;
    birthday.targets_examined = max_u32(
        aggregate.targets_examined,
        aggregate.targets_attempted,
    ) as usize;
    let logical_probes_sent: u32 = max_u32(aggregate.logical_probes_sent, aggregate.packets_sent);
    birthday.logical_probes_attempted = max_u32(
        aggregate.logical_probes_attempted,
        logical_probes_sent,
    ) as usize;
    birthday.logical_probes_sent = logical_probes_sent as usize;
    birthday.logical_probe_send_failures = aggregate.logical_probe_send_failures as usize;
    birthday.physical_datagrams_sent = sum_datagrams(&aggregate.per_socket_sent) as usize;
    birthday.physical_send_errors = aggregate.physical_send_errors as usize;
    birthday.partial_physical_send_errors = aggregate.partial_physical_send_errors as usize;
    birthday.targets_budget_skipped = aggregate.budget_skipped as usize;
    birthday.targets_cancelled = aggregate.targets_cancelled as usize;
}

/// An error of the task runtime, as opposed to one of the task.
#[verifier::external_type_specification]
#[verifier::external_body]
pub struct ExJoinError(tokio::task::JoinError);

/// What came of one worker: how many targets it was assigned and what it did
/// with them, unless its task did not end by itself.
pub type WorkerResult = Result<
    (usize, Result<PunchSendReport, DaemonError>),
    tokio::task::JoinError,
>;

/// The failure of one worker.
pub open spec fn wave_failure(joined: WorkerResult) -> Option<BirthdaySweepFailureKind> {
    match joined {
        Ok((_, Ok(report))) => report.failure_kind,
        Ok((_, Err(_))) => Some(BirthdaySweepFailureKind::ProbeRegistrationFailed),
        Err(_) => Some(BirthdaySweepFailureKind::WorkerJoin),
    }
}

/// Whether a worker was done with its targets and did not fail.
pub open spec fn clean(joined: WorkerResult) -> bool {
    joined matches Ok((_, Ok(report))) && report.target_processing_completed
        && report.failure_kind is None
}

/// Books the result of one worker. What a failed worker did before it failed
/// stays on the books.
pub fn record_birthday_worker_result(
    wave_report: &mut PunchSendReport,
    wave_fully_completed: &mut bool,
    failure_kind: &mut Option<BirthdaySweepFailureKind>,
    joined: WorkerResult,
)
    requires
        joined matches Ok((_, Ok(report))) ==> old(wave_report)@.can_merge(report@),
    ensures
        *final(failure_kind) == crate::failure::combined(
            *old(failure_kind),
            wave_failure(joined),
        ),
        *final(wave_fully_completed) == (*old(wave_fully_completed) && clean(joined)),
        match joined {
            Ok((_, Ok(report))) => old(wave_report)@.merges_to(report@, final(wave_report)@),
            Ok((assigned, Err(_))) => final(wave_report)@ == (Punch {
                probe_path_errors: crate::histogram::add32(old(wave_report)@.probe_path_errors, 1),
                targets_cancelled: crate::histogram::add32(
                    old(wave_report)@.targets_cancelled,
                    crate::histogram::clamp32(assigned as nat),
                ),
                ..old(wave_report)@
            }),
            Err(_) => final(wave_report)@ == (Punch { worker_failed: true, ..old(wave_report)@ }),
        },
{
    match joined {
        Ok((_assigned_count, Ok(report))) => {
            *wave_fully_completed = *wave_fully_completed && report.target_processing_completed
                && report.failure_kind.is_none();
            *failure_kind = combine_birthday_failure_kind(*failure_kind, report.failure_kind);
            merge_punch_send_reports(wave_report, report);
        },
        Ok((assigned_count, Err(_error))) => {
            *wave_fully_completed = false;
            *failure_kind = combine_birthday_failure_kind(
                *failure_kind,
                Some(
                    BirthdaySweepFailureKind::from_probe_failure(
                        ProbeSendFailureKind::ProbeRegistrationFailed,
                    ),
                ),
            );
            wave_report.probe_path_errors = wave_report.probe_path_errors.saturating_add(1);
            wave_report.targets_cancelled = wave_report.targets_cancelled.saturating_add(
                clamp_u32(assigned_count),
            );
        },
        Err(_join_error) => {
            *wave_fully_completed = false;
            *failure_kind = combine_birthday_failure_kind(
                *failure_kind,
                Some(BirthdaySweepFailureKind::WorkerJoin),
            );
            wave_report.worker_failed = true;
        },
    }
}

/// Whether a finished sweep did nothing but fail at the socket.
pub open spec fn only_send_errors(report: Punch) -> bool {
    &&& report.logical_probes_attempted > 0
    &&& report.logical_probes_sent == 0
    &&& report.logical_probe_send_failures > 0
    &&& report.physical_send_errors > 0
}

/// Classifies a complete sweep that only met send errors. Birthday workers do
/// not: their scheduler first gives every target and wave a chance to send.
pub fn finalize_physical_send_failure(report: &mut PunchSendReport)
    ensures
        final(report)@ == (if old(report).failure_kind is None && only_send_errors(old(report)@) {
            Punch { failure_kind: Some(BirthdaySweepFailureKind::Send), ..old(report)@ }
        } else {
            old(report)@
        }),
{
    if report.failure_kind.is_none() && report.logical_probes_attempted > 0
        && report.logical_probes_sent == 0 && report.logical_probe_send_failures > 0
        && report.physical_send_errors > 0 {
        report.failure_kind = Some(BirthdaySweepFailureKind::Send);
    }
}

/// Counters that workers raise while they run.
#[derive(Clone, Copy, Debug, PartialEq, Eq, Structural)]
pub struct LiveBirthdayCounters {
    pub targets_assigned: u32,
    pub targets_examined: u32,
    pub targets_attempted: u32,
    pub targets_cancelled: u32,
    pub budget_skipped: u32,
    pub logical_probes_attempted: u32,
    pub logical_probes_sent: u32,
    pub logical_probe_send_failures: u32,
    pub physical_datagrams_sent: u32,
    pub physical_bytes_sent: u64,
    pub physical_send_errors: u32,
    pub physical_send_error_bytes: u64,
    pub partial_physical_send_errors: u32,
    pub probe_path_errors: u32,
    pub workers_completed: u32,
}

/// What is known of a session before its workers return.
pub struct LiveBirthdayProgress {
    pub counters: LiveBirthdayCounters,
    pub sent_target_endpoints: Vec<SocketAddr>,
    pub per_socket_sent: Vec<(usize, u32)>,
    pub first_send_at_ms: Option<u64>,
    pub last_send_at_ms: Option<u64>,
}

impl LiveBirthdayCounters {
    /// The counters once a probe, or its copy for older peers, has left.
    pub open spec fn with_datagram(self, first: bool, bytes: u64) -> LiveBirthdayCounters {
        LiveBirthdayCounters {
            logical_probes_sent: if first {
                crate::histogram::add32(self.logical_probes_sent, 1)
            } else {
                self.logical_probes_sent
            },
            physical_datagrams_sent: crate::histogram::add32(self.physical_datagrams_sent, 1),
            physical_bytes_sent: crate::histogram::add64(self.physical_bytes_sent, bytes),
            ..self
        }
    }

    /// The counters once the socket refused a probe, or its copy for older
    /// peers after the probe itself had left.
    pub open spec fn with_send_error(self, first: bool, bytes: u64) -> LiveBirthdayCounters {
        LiveBirthdayCounters {
            logical_probe_send_failures: if first {
                crate::histogram::add32(self.logical_probe_send_failures, 1)
            } else {
                self.logical_probe_send_failures
            },
            physical_send_errors: crate::histogram::add32(self.physical_send_errors, 1),
            physical_send_error_bytes: crate::histogram::add64(
                self.physical_send_error_bytes,
                bytes,
            ),
            partial_physical_send_errors: if first {
                self.partial_physical_send_errors
            } else {
                crate::histogram::add32(self.partial_physical_send_errors, 1)
            },
            ..self
        }
    }
}

impl LiveBirthdayProgress {
    fn book_datagram(&mut self, socket_index: usize, sent_at_ms: u64, bytes: u64)
        ensures
            final(self).counters == old(self).counters.with_datagram(false, bytes),
            final(self).sent_target_endpoints == old(self).sent_target_endpoints,
            final(self).per_socket_sent@ == crate::histogram::with_added(
                old(self).per_socket_sent@,
                (socket_index, 1),
            ),
            final(self).first_send_at_ms == crate::histogram::earlier(
                old(self).first_send_at_ms,
                Some(sent_at_ms),
            ),
            final(self).last_send_at_ms == crate::histogram::later(
                old(self).last_send_at_ms,
                Some(sent_at_ms),
            ),
    {
        self.counters.physical_datagrams_sent =
        self.counters.physical_datagrams_sent.saturating_add(1);
        self.counters.physical_bytes_sent = self.counters.physical_bytes_sent.saturating_add(bytes);
        add_row(&mut self.per_socket_sent, socket_index, 1);
        self.first_send_at_ms = earlier_of(self.first_send_at_ms, Some(sent_at_ms));
        self.last_send_at_ms = later_of(self.last_send_at_ms, Some(sent_at_ms));
    }

    /// Books a probe the moment that it left, so that a worker which is lost
    /// afterwards does not lose it.
    pub fn record_primary_success(
        &mut self,
        socket_index: usize,
        endpoint: SocketAddr,
        sent_at_ms: u64,
        bytes: u64,
    )
        ensures
            final(self).counters == old(self).counters.with_datagram(true, bytes),
            final(self).sent_target_endpoints@ == crate::histogram::with_new(
                old(self).sent_target_endpoints@,
                seq![endpoint],
            ),
            final(self).per_socket_sent@ == crate::histogram::with_added(
                old(self).per_socket_sent@,
                (socket_index, 1),
            ),
            final(self).first_send_at_ms == crate::histogram::earlier(
                old(self).first_send_at_ms,
                Some(sent_at_ms),
            ),
            final(self).last_send_at_ms == crate::histogram::later(
                old(self).last_send_at_ms,
                Some(sent_at_ms),
            ),
    {
        self.book_datagram(socket_index, sent_at_ms, bytes);
        self.counters.logical_probes_sent = self.counters.logical_probes_sent.saturating_add(1);
        let one: Vec<SocketAddr> = vec![endpoint];
        assert(one@ =~= seq![endpoint]);
        add_new(&mut self.sent_target_endpoints, &one);
    }

    /// Books a probe that the socket refused.
    pub fn record_primary_error(&mut self, bytes: u64)
        ensures
            *final(self) == (LiveBirthdayProgress {
                counters: old(self).counters.with_send_error(true, bytes),
                ..*old(self)
            }),
    {
        self.counters.logical_probe_send_failures =
        self.counters.logical_probe_send_failures.saturating_add(1);
        self.counters.physical_send_errors = self.counters.physical_send_errors.saturating_add(1);
        self.counters.physical_send_error_bytes =
        self.counters.physical_send_error_bytes.saturating_add(bytes);
    }

    /// Books the copy of a probe for older peers.
    pub fn record_compatibility_success(&mut self, socket_index: usize, sent_at_ms: u64, bytes: u64)
        ensures
            final(self).counters == old(self).counters.with_datagram(false, bytes),
            final(self).sent_target_endpoints == old(self).sent_target_endpoints,
            final(self).per_socket_sent@ == crate::histogram::with_added(
                old(self).per_socket_sent@,
                (socket_index, 1),
            ),
            final(self).first_send_at_ms == crate::histogram::earlier(
                old(self).first_send_at_ms,
                Some(sent_at_ms),
            ),
            final(self).last_send_at_ms == crate::histogram::later(
                old(self).last_send_at_ms,
                Some(sent_at_ms),
            ),
    {
        self.book_datagram(socket_index, sent_at_ms, bytes);
    }

    /// Books a copy that the socket refused after the probe itself had left.
    pub fn record_compatibility_error(&mut self, bytes: u64)
        ensures
            *final(self) == (LiveBirthdayProgress {
                counters: old(self).counters.with_send_error(false, bytes),
                ..*old(self)
            }),
    {
        self.counters.physical_send_errors = self.counters.physical_send_errors.saturating_add(1);
        self.counters.partial_physical_send_errors =
        self.counters.partial_physical_send_errors.saturating_add(1);
        self.counters.physical_send_error_bytes =
        self.counters.physical_send_error_bytes.saturating_add(bytes);
    }
}

/// Updates the counters of a session that is watched live.
pub fn update_live_birthday_counters<F: FnOnce(LiveBirthdayCounters) -> LiveBirthdayCounters>(
    live: Option<&mut LiveBirthdayProgress>,
    update: F,
)
    requires
        live matches Some(p) ==> update.requires((p.counters,)),
    ensures
        live matches Some(p) ==> {
            &&& update.ensures((p.counters,), final(p).counters)
            &&& final(p).sent_target_endpoints == p.sent_target_endpoints
            &&& final(p).per_socket_sent == p.per_socket_sent
            &&& final(p).first_send_at_ms == p.first_send_at_ms
            &&& final(p).last_send_at_ms == p.last_send_at_ms
        },
{
    if let Some(progress) = live {
        progress.counters = update(progress.counters);
    }
}

/// The rows that raising a report to the live counts yields, unsorted.
pub open spec fn live_rows(report: Punch, live: LiveBirthdayProgress) -> Seq<(usize, u32)> {
    crate::histogram::with_all_raised(report.per_socket_sent, live.per_socket_sent@)
}

/// A report raised to at least the live counts, with `rows` the sorted
/// histogram.
pub open spec fn raised(
    report: Punch,
    live: LiveBirthdayProgress,
    rows: Seq<(usize, u32)>,
) -> Punch {
    let c = live.counters;
    let sent = crate::histogram::max32(
        crate::histogram::max32(report.logical_probes_sent, c.logical_probes_sent),
        report.packets_sent,
    );
    let endpoints = crate::histogram::with_new(
        report.sent_target_endpoints,
        live.sent_target_endpoints@,
    );
    Punch {
        targets_assigned: crate::histogram::max32(report.targets_assigned, c.targets_assigned),
        targets_examined: crate::histogram::max32(report.targets_examined, c.targets_examined),
        targets_attempted: crate::histogram::max32(report.targets_attempted, c.targets_attempted),
        targets_cancelled: crate::histogram::max32(report.targets_cancelled, c.targets_cancelled),
        budget_skipped: crate::histogram::max32(report.budget_skipped, c.budget_skipped),
        logical_probes_sent: sent,
        logical_probes_attempted: crate::histogram::max32(
            crate::histogram::max32(report.logical_probes_attempted, c.logical_probes_attempted),
            sent,
        ),
        logical_probe_send_failures: crate::histogram::max32(
            report.logical_probe_send_failures,
            c.logical_probe_send_failures,
        ),
        packets_sent: crate::histogram::max32(report.packets_sent, sent),
        physical_datagrams_sent: crate::histogram::total(rows) as u32,
        physical_bytes_sent: crate::histogram::max64(
            report.physical_bytes_sent,
            c.physical_bytes_sent,
        ),
        physical_send_errors: crate::histogram::max32(
            report.physical_send_errors,
            c.physical_send_errors,
        ),
        physical_send_error_bytes: crate::histogram::max64(
            report.physical_send_error_bytes,
            c.physical_send_error_bytes,
        ),
        partial_physical_send_errors: crate::histogram::max32(
            report.partial_physical_send_errors,
            c.partial_physical_send_errors,
        ),
        probe_path_errors: crate::histogram::max32(report.probe_path_errors, c.probe_path_errors),
        sent_target_endpoints: endpoints,
        unique_target_endpoints: crate::histogram::clamp32(endpoints.len()),
        per_socket_sent: rows,
        first_send_at_ms: crate::histogram::earlier(
            report.first_send_at_ms,
            live.first_send_at_ms,
        ),
        last_send_at_ms: crate::histogram::later(report.last_send_at_ms, live.last_send_at_ms),
        ..report
    }
}

/// Raises a report to at least what was seen live, so that a worker that
/// never returned still counts.
pub fn apply_live_birthday_counters(report: &mut PunchSendReport, live: &LiveBirthdayProgress)
    requires
        crate::histogram::total(live_rows(old(report)@, *live)) <= u32::MAX,
    ensures
        crate::histogram::is_sorting_of(
            final(report).per_socket_sent@,
            live_rows(old(report)@, *live),
        ),
        crate::histogram::total(final(report).per_socket_sent@) == crate::histogram::total(
            live_rows(old(report)@, *live),
        ),
        final(report)@ == raised(old(report)@, *live, final(report).per_socket_sent@),
{
    let counters: LiveBirthdayCounters = live.counters;
    report.targets_assigned = max_u32(report.targets_assigned, counters.targets_assigned);
    report.targets_examined = max_u32(report.targets_examined, counters.targets_examined);
    report.targets_attempted = max_u32(report.targets_attempted, counters.targets_attempted);
    report.targets_cancelled = max_u32(report.targets_cancelled, counters.targets_cancelled);
    report.budget_skipped = max_u32(report.budget_skipped, counters.budget_skipped);
    report.logical_probes_sent = max_u32(
        max_u32(report.logical_probes_sent, counters.logical_probes_sent),
        report.packets_sent,
    );
    report.logical_probes_attempted = max_u32(
        max_u32(report.logical_probes_attempted, counters.logical_probes_attempted),
        report.logical_probes_sent,
    );
    report.logical_probe_send_failures = max_u32(
        report.logical_probe_send_failures,
        counters.logical_probe_send_failures,
    );
    report.packets_sent = max_u32(report.packets_sent, report.logical_probes_sent);
    report.physical_datagrams_sent = max_u32(
        report.physical_datagrams_sent,
        counters.physical_datagrams_sent,
    );
    report.physical_bytes_sent = max_u64(report.physical_bytes_sent, counters.physical_bytes_sent);
    report.physical_send_errors = max_u32(
        report.physical_send_errors,
        counters.physical_send_errors,
    );
    report.physical_send_error_bytes = max_u64(
        report.physical_send_error_bytes,
        counters.physical_send_error_bytes,
    );
    report.partial_physical_send_errors = max_u32(
        report.partial_physical_send_errors,
        counters.partial_physical_send_errors,
    );
    report.probe_path_errors = max_u32(report.probe_path_errors, counters.probe_path_errors);
    add_new(&mut report.sent_target_endpoints, &live.sent_target_endpoints);
    report.unique_target_endpoints = clamp_u32(report.sent_target_endpoints.len());
    raise_rows(&mut report.per_socket_sent, &live.per_socket_sent);
    report.first_send_at_ms = earlier_of(report.first_send_at_ms, live.first_send_at_ms);
    report.last_send_at_ms = later_of(report.last_send_at_ms, live.last_send_at_ms);
    normalize_physical_send_dimensions(report);
}

/// A published state of a birthday session.
pub struct BirthdaySweepProgress {
    pub birthday: BirthdaySweepReport,
    pub aggregate: PunchSendReport,
}

/// The state to publish: the books so far, raised to what was seen live.
pub fn publish_birthday_sweep_progress(
    birthday: &BirthdaySweepReport,
    aggregate: &PunchSendReport,
    live: &LiveBirthdayProgress,
) -> (published: BirthdaySweepProgress)
    requires
        crate::histogram::total(live_rows(aggregate@, *live)) <= u32::MAX,
    ensures
        crate::histogram::is_sorting_of(
            published.aggregate.per_socket_sent@,
            live_rows(aggregate@, *live),
        ),
        published.aggregate@ == raised(
            aggregate@,
            *live,
            published.aggregate.per_socket_sent@,
        ),
        published.birthday == swept(*birthday, published.aggregate@),
{
    let mut published_aggregate: PunchSendReport = aggregate.clone();
    apply_live_birthday_counters(&mut published_aggregate, live);
    let mut published_birthday: BirthdaySweepReport = *birthday;
    update_birthday_sweep_counters(&mut published_birthday, &published_aggregate);
    BirthdaySweepProgress { birthday: published_birthday, aggregate: published_aggregate }
}

/// After a merge the datagram total equals the sum over the sockets.
pub proof fn law_merged_total_is_histogram_total(before: Punch, source: Punch, after: Punch)
    requires
        before.can_merge(source),
        before.merges_to(source, after),
    ensures
        after.physical_datagrams_sent == crate::histogram::total(after.per_socket_sent),
{
}

/// Raising a report to the live counts loses nothing that was booked and
/// nothing that was seen live.
pub proof fn law_live_counts_only_raise(
    report: Punch,
    live: LiveBirthdayProgress,
    rows: Seq<(usize, u32)>,
)
    ensures
        ({
            let after = raised(report, live, rows);
            let c = live.counters;
            &&& after.targets_assigned >= report.targets_assigned
            &&& after.targets_assigned >= c.targets_assigned
            &&& after.targets_examined >= report.targets_examined
            &&& after.targets_examined >= c.targets_examined
            &&& after.targets_attempted >= report.targets_attempted
            &&& after.targets_attempted >= c.targets_attempted
            &&& after.targets_cancelled >= report.targets_cancelled
            &&& after.targets_cancelled >= c.targets_cancelled
            &&& after.budget_skipped >= report.budget_skipped
            &&& after.budget_skipped >= c.budget_skipped
            &&& after.packets_sent >= report.packets_sent
            &&& after.logical_probes_sent >= report.logical_probes_sent
            &&& after.logical_probes_sent >= c.logical_probes_sent
            &&& after.logical_probes_attempted >= report.logical_probes_attempted
            &&& after.logical_probes_attempted >= c.logical_probes_attempted
            &&& after.logical_probe_send_failures >= report.logical_probe_send_failures
            &&& after.logical_probe_send_failures >= c.logical_probe_send_failures
            &&& after.physical_bytes_sent >= report.physical_bytes_sent
            &&& after.physical_bytes_sent >= c.physical_bytes_sent
            &&& after.physical_send_errors >= report.physical_send_errors
            &&& after.physical_send_errors >= c.physical_send_errors
            &&& after.physical_send_error_bytes >= report.physical_send_error_bytes
            &&& after.physical_send_error_bytes >= c.physical_send_error_bytes
            &&& after.partial_physical_send_errors >= report.partial_physical_send_errors
            &&& after.partial_physical_send_errors >= c.partial_physical_send_errors
            &&& after.probe_path_errors >= report.probe_path_errors
            &&& after.probe_path_errors >= c.probe_path_errors
            &&& after.failure_kind == report.failure_kind
        }),
{
}

/// Where no socket has two rows, raising a report to the live counts gives
/// every socket the larger of its two counts. The datagram total is then no
/// less than either sum over the sockets.
pub proof fn law_live_rows_take_the_larger_count(
    report: Punch,
    live: LiveBirthdayProgress,
    rows: Seq<(usize, u32)>,
    socket: usize,
)
    requires
        crate::histogram::one_row_each(report.per_socket_sent),
        crate::histogram::one_row_each(live.per_socket_sent@),
        crate::histogram::is_sorting_of(rows, live_rows(report, live)),
        crate::histogram::total(rows) <= u32::MAX,
    ensures
        crate::histogram::one_row_each(rows),
        crate::histogram::count_of(rows, socket) == crate::histogram::max32(
            crate::histogram::count_of(report.per_socket_sent, socket),
            crate::histogram::count_of(live.per_socket_sent@, socket),
        ),
        raised(report, live, rows).physical_datagrams_sent >= crate::histogram::total(
            report.per_socket_sent,
        ),
        raised(report, live, rows).physical_datagrams_sent >= crate::histogram::total(
            live.per_socket_sent@,
        ),
{
    lemma_live_rows_cover(report, live, rows);
    crate::histogram::lemma_all_raised(report.per_socket_sent, live.per_socket_sent@, socket);
    crate::histogram::lemma_sorted_rows(rows, live_rows(report, live), socket);
    crate::histogram::lemma_covered_total(report.per_socket_sent, rows);
    crate::histogram::lemma_covered_total(live.per_socket_sent@, rows);
}

proof fn lemma_live_rows_cover(
    report: Punch,
    live: LiveBirthdayProgress,
    rows: Seq<(usize, u32)>,
)
    requires
        crate::histogram::one_row_each(report.per_socket_sent),
        crate::histogram::one_row_each(live.per_socket_sent@),
        crate::histogram::is_sorting_of(rows, live_rows(report, live)),
    ensures
        crate::histogram::one_row_each(rows),
        crate::histogram::covered_by(report.per_socket_sent, rows),
        crate::histogram::covered_by(live.per_socket_sent@, rows),
{
    let a = report.per_socket_sent;
    let b = live.per_socket_sent@;
    crate::histogram::lemma_all_raised(a, b, 0);
    crate::histogram::lemma_sorted_rows(rows, live_rows(report, live), 0);
    assert forall|i: int| 0 <= i < a.len() implies crate::histogram::has_row(
        rows,
        (#[trigger] a[i]).0,
    ) && crate::histogram::count_of(rows, a[i].0) >= a[i].1 by {
        crate::histogram::lemma_row_is(a, i);
        crate::histogram::lemma_all_raised(a, b, a[i].0);
        crate::histogram::lemma_sorted_rows(rows, live_rows(report, live), a[i].0);
    }
    assert forall|i: int| 0 <= i < b.len() implies crate::histogram::has_row(
        rows,
        (#[trigger] b[i]).0,
    ) && crate::histogram::count_of(rows, b[i].0) >= b[i].1 by {
        crate::histogram::lemma_row_is(b, i);
        crate::histogram::lemma_all_raised(a, b, b[i].0);
        crate::histogram::lemma_sorted_rows(rows, live_rows(report, live), b[i].0);
    }
}

/// Raising a report to the same live counts a second time changes nothing.
pub proof fn law_live_counts_apply_once(
    report: Punch,
    live: LiveBirthdayProgress,
    rows: Seq<(usize, u32)>,
    rows_again: Seq<(usize, u32)>,
)
    requires
        crate::histogram::one_row_each(report.per_socket_sent),
        crate::histogram::one_row_each(live.per_socket_sent@),
        crate::histogram::is_sorting_of(rows, live_rows(report, live)),
        crate::histogram::is_sorting_of(
            rows_again,
            live_rows(raised(report, live, rows), live),
        ),
    ensures
        raised(raised(report, live, rows), live, rows_again) == raised(report, live, rows),
{
    lemma_live_rows_cover(report, live, rows);
    crate::histogram::lemma_raised_by_covered(rows, live.per_socket_sent@);
    crate::histogram::lemma_sorting_is_unique(rows_again, rows);
    crate::histogram::lemma_with_new_twice(
        report.sent_target_endpoints,
        live.sent_target_endpoints@,
    );
}

/// One after the other, `results` are booked: `completed` and `failures` are
/// what the two flags of the wave are before the first, between two, and after
/// the last of them.
pub open spec fn booked(
    results: Seq<WorkerResult>,
    completed: Seq<bool>,
    failures: Seq<Option<BirthdaySweepFailureKind>>,
) -> bool {
    &&& completed.len() == results.len() + 1
    &&& failures.len() == results.len() + 1
    &&& completed[0]
    &&& failures[0] is None
    &&& forall|i: int|
        0 <= i < results.len() ==> #[trigger] completed[i + 1] == (completed[i] && clean(
            results[i],
        ))
    &&& forall|i: int|
        0 <= i < results.len() ==> #[trigger] failures[i + 1] == crate::failure::combined(
            failures[i],
            wave_failure(results[i]),
        )
}

/// `kind` is the weightiest failure of the first `n` results, if one failed.
pub open spec fn weightiest(
    results: Seq<WorkerResult>,
    n: int,
    kind: Option<BirthdaySweepFailureKind>,
) -> bool {
    match kind {
        None => forall|i: int| 0 <= i < n ==> wave_failure(#[trigger] results[i]) is None,
        Some(k) => {
            &&& exists|i: int| 0 <= i < n && wave_failure(#[trigger] results[i]) == Some(k)
            &&& forall|i: int|
                0 <= i < n ==> (wave_failure(#[trigger] results[i]) matches Some(f) ==> f.priority()
                    <= k.priority())
        },
    }
}

proof fn lemma_booked_so_far(
    results: Seq<WorkerResult>,
    completed: Seq<bool>,
    failures: Seq<Option<BirthdaySweepFailureKind>>,
    n: int,
)
    requires
        booked(results, completed, failures),
        0 <= n <= results.len(),
    ensures
        completed[n] <==> forall|i: int| 0 <= i < n ==> clean(#[trigger] results[i]),
        weightiest(results, n, failures[n]),
    decreases n,
{
    if n > 0 {
        let m = n - 1;
        lemma_booked_so_far(results, completed, failures, m);
        assert(completed[m + 1] == (completed[m] && clean(results[m])));
        assert(failures[m + 1] == crate::failure::combined(failures[m], wave_failure(results[m])));
        if completed[n] {
            assert forall|i: int| 0 <= i < n implies clean(#[trigger] results[i]) by {}
        }
        if failures[n] is Some && failures[m] is Some && failures[n] == failures[m] {
            let k = failures[m]->0;
            let w = choose|i: int| 0 <= i < m && wave_failure(#[trigger] results[i]) == Some(k);
            assert(wave_failure(results[w]) == Some(k));
        }
    }
}

/// A wave is complete exactly where every worker was done with its targets
/// and none failed, and its failure is the weightiest of theirs. Once it is not
/// complete it stays so.
pub proof fn law_wave_outcome(
    results: Seq<WorkerResult>,
    completed: Seq<bool>,
    failures: Seq<Option<BirthdaySweepFailureKind>>,
)
    requires
        booked(results, completed, failures),
    ensures
        completed.last() <==> forall|i: int|
            0 <= i < results.len() ==> clean(#[trigger] results[i]),
        weightiest(results, results.len() as int, failures.last()),
        forall|i: int, j: int|
            0 <= i <= j < completed.len() && !(#[trigger] completed[i]) ==> !(
            #[trigger] completed[j]),
{
    lemma_booked_so_far(results, completed, failures, results.len() as int);
    assert forall|i: int, j: int|
        0 <= i <= j < completed.len() && !(#[trigger] completed[i]) implies !(
    #[trigger] completed[j]) by {
        lemma_booked_so_far(results, completed, failures, i);
        lemma_booked_so_far(results, completed, failures, j);
    }
}

/// The order in which the workers return decides neither whether the wave is
/// complete nor what its failure is.
pub proof fn law_wave_outcome_is_order_free(
    results: Seq<WorkerResult>,
    completed: Seq<bool>,
    failures: Seq<Option<BirthdaySweepFailureKind>>,
    other_results: Seq<WorkerResult>,
    other_completed: Seq<bool>,
    other_failures: Seq<Option<BirthdaySweepFailureKind>>,
)
    requires
        booked(results, completed, failures),
        booked(other_results, other_completed, other_failures),
        results.to_multiset() == other_results.to_multiset(),
    ensures
        completed.last() == other_completed.last(),
        failures.last() == other_failures.last(),
{
    law_wave_outcome(results, completed, failures);
    law_wave_outcome(other_results, other_completed, other_failures);
    lemma_each_among(results, other_results);
    lemma_each_among(other_results, results);
    let a = failures.last();
    let b = other_failures.last();
    if let Some(k) = a {
        let i = choose|i: int|
            0 <= i < results.len() && wave_failure(#[trigger] results[i]) == Some(k);
        let j = choose|j: int| 0 <= j < other_results.len() && other_results[j] == results[i];
        assert(wave_failure(other_results[j]) == Some(k));
    }
    if let Some(k) = b {
        let i = choose|i: int|
            0 <= i < other_results.len() && wave_failure(#[trigger] other_results[i]) == Some(k);
        let j = choose|j: int| 0 <= j < results.len() && results[j] == other_results[i];
        assert(wave_failure(results[j]) == Some(k));
    }
    if completed.last() {
        assert forall|i: int| 0 <= i < other_results.len() implies clean(
            #[trigger] other_results[i],
        ) by {
            let j = choose|j: int| 0 <= j < results.len() && results[j] == other_results[i];
            assert(clean(results[j]));
        }
    }
    if other_completed.last() {
        assert forall|i: int| 0 <= i < results.len() implies clean(#[trigger] results[i]) by {
            let j = choose|j: int| 0 <= j < other_results.len() && other_results[j] == results[i];
            assert(clean(other_results[j]));
        }
    }
}

proof fn lemma_each_among(a: Seq<WorkerResult>, b: Seq<WorkerResult>)
    requires
        a.to_multiset() == b.to_multiset(),
    ensures
        forall|i: int| 0 <= i < a.len() ==> b.contains(#[trigger] a[i]),
{
    a.to_multiset_ensures();
    b.to_multiset_ensures();
    assert forall|i: int| 0 <= i < a.len() implies b.contains(#[trigger] a[i]) by {
        let x = a[i];
        assert(a.contains(x));
        assert(a.to_multiset().count(x) > 0);
        assert(b.to_multiset().count(x) > 0);
        assert(b.contains(x));
    }
}

/// A blank report tells of nothing.
pub proof fn law_blank_report()
    ensures
        ({
            let b = Punch::blank();
            &&& b.packets_sent == 0 && b.logical_probes_attempted == 0
            &&& b.logical_probes_sent == 0 && b.logical_probe_send_failures == 0
            &&& b.physical_datagrams_sent == 0 && b.physical_bytes_sent == 0
            &&& b.physical_send_errors == 0 && b.physical_send_error_bytes == 0
            &&& b.partial_physical_send_errors == 0 && b.probe_path_errors == 0
            &&& b.unique_target_endpoints == 0 && b.budget_skipped == 0
            &&& b.first_send_at_ms is None && b.last_send_at_ms is None
            &&& b.per_socket_sent.len() == 0 && b.sent_target_endpoints.len() == 0
            &&& !b.epoch_budget_exhausted && !b.candidate_iteration_capped
            &&& b.targets_assigned == 0 && b.targets_examined == 0
            &&& b.targets_attempted == 0 && b.targets_cancelled == 0
            &&& !b.target_processing_completed && !b.worker_failed
            &&& b.failure_kind is None && b.birthday is None
        }),
{
}

/// The probes that a report tells of: its probes or its packets, whichever are
/// more.
pub proof fn law_sent_probes(p: Punch)
    ensures
        p.logical_probes_sent >= p.packets_sent ==> p.sent_probes() == p.logical_probes_sent,
        p.logical_probes_sent < p.packets_sent ==> p.sent_probes() == p.packets_sent,
{
}

/// Merging adds what is counted, where it fits; a probe that was sent was
/// tried, and a target that was tried was looked at.
pub proof fn law_merging_adds_the_counts(a: Punch, b: Punch, next: Punch)
    requires
        a.merges_to(b, next),
        a.packets_sent + b.sent_probes() <= u32::MAX,
        a.logical_probes_sent + b.sent_probes() <= u32::MAX,
        a.logical_probes_attempted + b.logical_probes_attempted <= u32::MAX,
        a.logical_probes_attempted + b.sent_probes() <= u32::MAX,
        a.logical_probe_send_failures + b.logical_probe_send_failures <= u32::MAX,
        a.physical_bytes_sent + b.physical_bytes_sent <= u64::MAX,
        a.physical_send_errors + b.physical_send_errors <= u32::MAX,
        a.physical_send_error_bytes + b.physical_send_error_bytes <= u64::MAX,
        a.partial_physical_send_errors + b.partial_physical_send_errors <= u32::MAX,
        a.probe_path_errors + b.probe_path_errors <= u32::MAX,
        a.budget_skipped + b.budget_skipped <= u32::MAX,
        a.targets_assigned + b.targets_assigned <= u32::MAX,
        a.targets_examined + b.targets_examined <= u32::MAX,
        a.targets_examined + b.targets_attempted <= u32::MAX,
        a.targets_attempted + b.targets_attempted <= u32::MAX,
        a.targets_cancelled + b.targets_cancelled <= u32::MAX,
    ensures
        next.packets_sent == a.packets_sent + b.sent_probes(),
        next.logical_probes_sent == a.logical_probes_sent + b.sent_probes(),
        b.logical_probes_attempted >= b.sent_probes() ==> next.logical_probes_attempted
            == a.logical_probes_attempted + b.logical_probes_attempted,
        b.logical_probes_attempted < b.sent_probes() ==> next.logical_probes_attempted
            == a.logical_probes_attempted + b.sent_probes(),
        next.logical_probe_send_failures == a.logical_probe_send_failures
            + b.logical_probe_send_failures,
        next.physical_bytes_sent == a.physical_bytes_sent + b.physical_bytes_sent,
        next.physical_send_errors == a.physical_send_errors + b.physical_send_errors,
        next.physical_send_error_bytes == a.physical_send_error_bytes
            + b.physical_send_error_bytes,
        next.partial_physical_send_errors == a.partial_physical_send_errors
            + b.partial_physical_send_errors,
        next.probe_path_errors == a.probe_path_errors + b.probe_path_errors,
        next.budget_skipped == a.budget_skipped + b.budget_skipped,
        next.targets_assigned == a.targets_assigned + b.targets_assigned,
        b.targets_examined >= b.targets_attempted ==> next.targets_examined == a.targets_examined
            + b.targets_examined,
        b.targets_examined < b.targets_attempted ==> next.targets_examined == a.targets_examined
            + b.targets_attempted,
        next.targets_attempted == a.targets_attempted + b.targets_attempted,
        next.targets_cancelled == a.targets_cancelled + b.targets_cancelled,
{
}

/// What merging does with what is not counted: a budget that ran out in one of
/// the two ran out, a lost worker stays lost, the graver failure is told, and
/// the work is done where it was done in both.
pub proof fn law_merging_keeps_the_signs(a: Punch, b: Punch, next: Punch)
    requires
        a.merges_to(b, next),
    ensures
        next.epoch_budget_exhausted <==> a.epoch_budget_exhausted || b.epoch_budget_exhausted,
        next.candidate_iteration_capped <==> a.candidate_iteration_capped
            || b.candidate_iteration_capped,
        next.worker_failed <==> a.worker_failed || b.worker_failed || b.failure_kind == Some(
            BirthdaySweepFailureKind::WorkerJoin,
        ),
        b.failure_kind is None ==> next.failure_kind == a.failure_kind,
        a.failure_kind is None ==> next.failure_kind == b.failure_kind,
        next.failure_kind == crate::failure::combined(a.failure_kind, b.failure_kind),
        next.target_processing_completed ==> b.target_processing_completed,
        a.target_processing_completed && b.target_processing_completed
            ==> next.target_processing_completed,
        !a.target_processing_completed && (a.targets_assigned > 0 || b.targets_assigned > 0)
            ==> !next.target_processing_completed,
        b.target_processing_completed && a.targets_assigned == 0 && b.targets_assigned == 0
            ==> next.target_processing_completed,
        next.unique_target_endpoints == a.unique_target_endpoints,
        next.birthday == a.birthday,
        next.sent_target_endpoints == crate::histogram::with_new(
            a.sent_target_endpoints,
            b.sent_target_endpoints,
        ),
        next.first_send_at_ms is None <==> a.first_send_at_ms is None && b.first_send_at_ms is None,
        a.first_send_at_ms is Some ==> next.first_send_at_ms->0 <= a.first_send_at_ms->0,
        b.first_send_at_ms is Some ==> next.first_send_at_ms->0 <= b.first_send_at_ms->0,
        next.last_send_at_ms is None <==> a.last_send_at_ms is None && b.last_send_at_ms is None,
        a.last_send_at_ms is Some ==> next.last_send_at_ms->0 >= a.last_send_at_ms->0,
        b.last_send_at_ms is Some ==> next.last_send_at_ms->0 >= b.last_send_at_ms->0,
{
}

/// The rows of a merged report are those of both, added by socket and in
/// order, and its datagrams are their sum.
pub proof fn law_merged_rows_in_order(a: Punch, b: Punch, next: Punch, i: int, j: int)
    requires
        a.merges_to(b, next),
        a.can_merge(b),
        0 <= i <= j < next.per_socket_sent.len(),
    ensures
        next.per_socket_sent[i].0 <= next.per_socket_sent[j].0,
        next.per_socket_sent.to_multiset() == crate::histogram::with_all_added(
            a.per_socket_sent,
            b.per_socket_sent,
        ).to_multiset(),
        next.physical_datagrams_sent == crate::histogram::total(next.per_socket_sent),
        a.merged_rows(b) == crate::histogram::with_all_added(a.per_socket_sent, b.per_socket_sent),
{
}

/// Two reports can be merged exactly where their datagrams can be counted.
pub proof fn law_reports_that_merge(a: Punch, b: Punch)
    ensures
        a.can_merge(b) <==> crate::histogram::total(b.per_socket_sent) <= u32::MAX
            && crate::histogram::total(
            crate::histogram::with_all_added(a.per_socket_sent, b.per_socket_sent),
        ) <= u32::MAX,
{
}

/// The report of a session follows its books.
pub proof fn law_session_report_follows_the_books(report: BirthdaySweepReport, books: Punch)
    requires
        crate::histogram::total(books.per_socket_sent) <= u32::MAX,
    ensures
        ({
            let r = swept(report, books);
            &&& report.targets_assigned >= books.targets_assigned ==> r.targets_assigned
                == report.targets_assigned
            &&& report.targets_assigned < books.targets_assigned ==> r.targets_assigned
                == books.targets_assigned
            &&& r.targets_attempted == books.targets_attempted
            &&& r.targets_examined >= books.targets_examined && r.targets_examined
                >= books.targets_attempted
            &&& r.targets_examined == books.targets_examined || r.targets_examined
                == books.targets_attempted
            &&& r.logical_probes_sent == books.sent_probes()
            &&& r.logical_probes_attempted >= books.logical_probes_attempted
                && r.logical_probes_attempted >= books.sent_probes()
            &&& r.logical_probes_attempted == books.logical_probes_attempted
                || r.logical_probes_attempted == books.sent_probes()
            &&& r.logical_probe_send_failures == books.logical_probe_send_failures
            &&& r.physical_datagrams_sent == crate::histogram::total(books.per_socket_sent)
            &&& r.physical_send_errors == books.physical_send_errors
            &&& r.partial_physical_send_errors == books.partial_physical_send_errors
            &&& r.targets_budget_skipped == books.budget_skipped
            &&& r.targets_cancelled == books.targets_cancelled
            &&& r.requested_level == report.requested_level
            &&& r.waves_planned == report.waves_planned
            &&& r.waves_started == report.waves_started
            &&& r.waves_completed == report.waves_completed
            &&& r.stop_reason == report.stop_reason
            &&& r.degraded_reason == report.degraded_reason
            &&& r.socket_count == report.socket_count
        }),
{
}

/// What a worker's end tells: its own failure, a failed registration where it
/// ended with an error, and a lost worker where it did not end by itself.
pub proof fn law_worker_ends(joined: WorkerResult)
    ensures
        joined is Err ==> wave_failure(joined) == Some(BirthdaySweepFailureKind::WorkerJoin)
            && !clean(joined),
        joined matches Ok((_, ended)) ==> (ended is Err ==> wave_failure(joined) == Some(
            BirthdaySweepFailureKind::ProbeRegistrationFailed,
        ) && !clean(joined)) && (ended matches Ok(report) ==> wave_failure(joined)
            == report.failure_kind && (clean(joined) <==> report.target_processing_completed
            && report.failure_kind is None)),
{
}

/// A report is of failed sends only exactly where probes were tried, none was
/// sent, and sends failed.
pub proof fn law_only_send_errors(report: Punch)
    ensures
        only_send_errors(report) <==> report.logical_probes_attempted > 0
            && report.logical_probes_sent == 0 && report.logical_probe_send_failures > 0
            && report.physical_send_errors > 0,
{
}

/// A datagram is booked live with its bytes, and the first of a probe as a sent
/// probe; a failed one likewise, and any but the first as a part of a probe.
pub proof fn law_live_datagrams(c: LiveBirthdayCounters, first: bool, bytes: u64)
    requires
        c.logical_probes_sent < u32::MAX,
        c.physical_datagrams_sent < u32::MAX,
        c.physical_bytes_sent + bytes <= u64::MAX,
        c.logical_probe_send_failures < u32::MAX,
        c.physical_send_errors < u32::MAX,
        c.physical_send_error_bytes + bytes <= u64::MAX,
        c.partial_physical_send_errors < u32::MAX,
    ensures
        c.with_datagram(first, bytes) == (LiveBirthdayCounters {
            logical_probes_sent: (c.logical_probes_sent + if first {
                1int
            } else {
                0
            }) as u32,
            physical_datagrams_sent: (c.physical_datagrams_sent + 1) as u32,
            physical_bytes_sent: (c.physical_bytes_sent + bytes) as u64,
            ..c
        }),
        c.with_send_error(first, bytes) == (LiveBirthdayCounters {
            logical_probe_send_failures: (c.logical_probe_send_failures + if first {
                1int
            } else {
                0
            }) as u32,
            partial_physical_send_errors: (c.partial_physical_send_errors + if first {
                0int
            } else {
                1
            }) as u32,
            physical_send_errors: (c.physical_send_errors + 1) as u32,
            physical_send_error_bytes: (c.physical_send_error_bytes + bytes) as u64,
            ..c
        }),
{
}

/// A report that is raised by live counts takes the larger of each, and keeps
/// what is not counted live.
pub proof fn law_raised_report(r: Punch, live: LiveBirthdayProgress, rows: Seq<(usize, u32)>)
    requires
        crate::histogram::total(rows) <= u32::MAX,
    ensures
        ({
            let n = raised(r, live, rows);
            let c = live.counters;
            &&& n.targets_assigned == if r.targets_assigned >= c.targets_assigned {
                r.targets_assigned
            } else {
                c.targets_assigned
            }
            &&& n.targets_examined == if r.targets_examined >= c.targets_examined {
                r.targets_examined
            } else {
                c.targets_examined
            }
            &&& n.targets_attempted == if r.targets_attempted >= c.targets_attempted {
                r.targets_attempted
            } else {
                c.targets_attempted
            }
            &&& n.targets_cancelled == if r.targets_cancelled >= c.targets_cancelled {
                r.targets_cancelled
            } else {
                c.targets_cancelled
            }
            &&& n.budget_skipped == if r.budget_skipped >= c.budget_skipped {
                r.budget_skipped
            } else {
                c.budget_skipped
            }
            &&& n.logical_probes_sent >= r.logical_probes_sent && n.logical_probes_sent
                >= c.logical_probes_sent && n.logical_probes_sent >= r.packets_sent
            &&& n.logical_probes_sent == r.logical_probes_sent || n.logical_probes_sent
                == c.logical_probes_sent || n.logical_probes_sent == r.packets_sent
            &&& n.packets_sent == n.logical_probes_sent
            &&& n.logical_probes_attempted >= n.logical_probes_sent && n.logical_probes_attempted
                >= r.logical_probes_attempted && n.logical_probes_attempted
                >= c.logical_probes_attempted
            &&& n.logical_probes_attempted == n.logical_probes_sent || n.logical_probes_attempted
                == r.logical_probes_attempted || n.logical_probes_attempted
                == c.logical_probes_attempted
            &&& n.logical_probe_send_failures == if r.logical_probe_send_failures
                >= c.logical_probe_send_failures {
                r.logical_probe_send_failures
            } else {
                c.logical_probe_send_failures
            }
            &&& n.physical_datagrams_sent == crate::histogram::total(rows)
            &&& n.per_socket_sent == rows
            &&& n.physical_bytes_sent == if r.physical_bytes_sent >= c.physical_bytes_sent {
                r.physical_bytes_sent
            } else {
                c.physical_bytes_sent
            }
            &&& n.physical_send_errors == if r.physical_send_errors >= c.physical_send_errors {
                r.physical_send_errors
            } else {
                c.physical_send_errors
            }
            &&& n.physical_send_error_bytes == if r.physical_send_error_bytes
                >= c.physical_send_error_bytes {
                r.physical_send_error_bytes
            } else {
                c.physical_send_error_bytes
            }
            &&& n.partial_physical_send_errors == if r.partial_physical_send_errors
                >= c.partial_physical_send_errors {
                r.partial_physical_send_errors
            } else {
                c.partial_physical_send_errors
            }
            &&& n.probe_path_errors == if r.probe_path_errors >= c.probe_path_errors {
                r.probe_path_errors
            } else {
                c.probe_path_errors
            }
            &&& n.sent_target_endpoints.len() <= u32::MAX ==> n.unique_target_endpoints
                == n.sent_target_endpoints.len()
            &&& n.sent_target_endpoints == crate::histogram::with_new(
                r.sent_target_endpoints,
                live.sent_target_endpoints@,
            )
            &&& n.first_send_at_ms == crate::histogram::earlier(
                r.first_send_at_ms,
                live.first_send_at_ms,
            )
            &&& n.last_send_at_ms == crate::histogram::later(
                r.last_send_at_ms,
                live.last_send_at_ms,
            )
            &&& n.failure_kind == r.failure_kind && n.worker_failed == r.worker_failed
            &&& n.birthday == r.birthday
            &&& n.target_processing_completed == r.target_processing_completed
            &&& n.epoch_budget_exhausted == r.epoch_budget_exhausted
            &&& n.candidate_iteration_capped == r.candidate_iteration_capped
            &&& live_rows(r, live) == crate::histogram::with_all_raised(
                r.per_socket_sent,
                live.per_socket_sent@,
            )
        }),
{
}

/// What the workers of a wave come to, worker by worker: the wave goes on being
/// complete while each was clean, and the graver failure is kept.
pub proof fn law_booked_workers(
    results: Seq<WorkerResult>,
    completed: Seq<bool>,
    failures: Seq<Option<BirthdaySweepFailureKind>>,
    i: int,
)
    requires
        booked(results, completed, failures),
        0 <= i < results.len(),
    ensures
        completed[0],
        failures[0] is None,
        completed[i + 1] <==> completed[i] && clean(results[i]),
        failures[i + 1] == crate::failure::combined(failures[i], wave_failure(results[i])),
        completed.len() == results.len() + 1,
        failures.len() == results.len() + 1,
{
}

/// The weightiest failure is one of the workers', and none is weightier; there
/// is none exactly where no worker failed.
pub proof fn law_weightiest_failure(
    results: Seq<WorkerResult>,
    n: int,
    kind: BirthdaySweepFailureKind,
    i: int,
)
    requires
        0 <= i < n <= results.len(),
    ensures
        weightiest(results, n, None) ==> wave_failure(results[i]) is None,
        weightiest(results, n, Some(kind)) ==> (exists|j: int|
            0 <= j < n && wave_failure(#[trigger] results[j]) == Some(kind)),
        weightiest(results, n, Some(kind)) ==> (wave_failure(results[i]) matches Some(f)
            ==> f.priority() <= kind.priority()),
{
}

} // verus!

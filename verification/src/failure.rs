//! Why a probe, a sweep or a birthday session ended.

use vstd::prelude::*;

verus! {

#[derive(Debug)]
pub enum DaemonError {
    Network(String),
}

/// Why one probe did not go out.
#[derive(Clone, Copy, Debug, PartialEq, Eq, Structural)]
pub enum ProbeSendFailureKind {
    PhysicalSend,
    NetworkGenerationChanged,
    CandidateEpochChanged,
    LocalProfileGenerationChanged,
    RemoteProfileGenerationChanged,
    PeerSessionChanged,
    SessionRetired,
    SocketUnavailable,
    SocketRevoked,
    ProbeRegistrationFailed,
    ProbeEncodingFailed,
}

/// A probe that failed, with the sends that returned an error.
#[derive(Debug)]
pub struct ProbeSendFailure {
    pub error: DaemonError,
    pub kind: ProbeSendFailureKind,
    pub physical_send_errors: u8,
    pub physical_send_error_bytes: u64,
}

impl ProbeSendFailure {
    /// A failure before anything reached the socket.
    pub fn new(kind: ProbeSendFailureKind, error: DaemonError) -> (failure: Self)
        ensures
            failure.kind == kind,
            failure.error == error,
            failure.physical_send_errors == 0,
            failure.physical_send_error_bytes == 0,
    {
        ProbeSendFailure { error, kind, physical_send_errors: 0, physical_send_error_bytes: 0 }
    }

    /// A failure of the socket itself.
    pub fn with_physical_send_error(error: DaemonError, bytes: u64) -> (failure: Self)
        ensures
            failure.kind == ProbeSendFailureKind::PhysicalSend,
            failure.error == error,
            failure.physical_send_errors == 1,
            failure.physical_send_error_bytes == bytes,
    {
        ProbeSendFailure {
            error,
            kind: ProbeSendFailureKind::PhysicalSend,
            physical_send_errors: 1,
            physical_send_error_bytes: bytes,
        }
    }
}

/// Why a sweep failed.
#[derive(Clone, Copy, Debug, PartialEq, Eq, Structural)]
pub enum BirthdaySweepFailureKind {
    WorkerJoin,
    NetworkGenerationChanged,
    CandidateEpochChanged,
    ProfileGenerationChanged,
    PeerSessionChanged,
    SessionRetired,
    SocketRevoked,
    SocketUnavailable,
    ProbeRegistrationFailed,
    ProbeEncodingFailed,
    Send,
}

/// Why a birthday session ended, failed or not.
#[derive(Clone, Copy, Debug, PartialEq, Eq, Structural)]
pub enum BirthdayStopReason {
    Failure(BirthdaySweepFailureKind),
    WinnerSelected,
    DirectConfirmed,
    DirectCommitSeqChanged,
    EmptyTargets,
    EpochBudgetExhausted,
    CandidateIterationCapped,
    BudgetExhausted,
    Completed,
}

impl BirthdaySweepFailureKind {
    pub open spec fn of_probe(kind: ProbeSendFailureKind) -> Self {
        match kind {
            ProbeSendFailureKind::PhysicalSend => Self::Send,
            ProbeSendFailureKind::NetworkGenerationChanged => Self::NetworkGenerationChanged,
            ProbeSendFailureKind::CandidateEpochChanged => Self::CandidateEpochChanged,
            ProbeSendFailureKind::LocalProfileGenerationChanged => Self::ProfileGenerationChanged,
            ProbeSendFailureKind::RemoteProfileGenerationChanged => Self::ProfileGenerationChanged,
            ProbeSendFailureKind::PeerSessionChanged => Self::PeerSessionChanged,
            ProbeSendFailureKind::SessionRetired => Self::SessionRetired,
            ProbeSendFailureKind::SocketUnavailable => Self::SocketUnavailable,
            ProbeSendFailureKind::SocketRevoked => Self::SocketRevoked,
            ProbeSendFailureKind::ProbeRegistrationFailed => Self::ProbeRegistrationFailed,
            ProbeSendFailureKind::ProbeEncodingFailed => Self::ProbeEncodingFailed,
        }
    }

    /// The sweep failure that a probe failure amounts to. The sweep does not
    /// tell the two profile generations apart.
    pub fn from_probe_failure(kind: ProbeSendFailureKind) -> (r: Self)
        ensures
            r == Self::of_probe(kind),
    {
        match kind {
            ProbeSendFailureKind::PhysicalSend => Self::Send,
            ProbeSendFailureKind::NetworkGenerationChanged => Self::NetworkGenerationChanged,
            ProbeSendFailureKind::CandidateEpochChanged => Self::CandidateEpochChanged,
            ProbeSendFailureKind::LocalProfileGenerationChanged => Self::ProfileGenerationChanged,
            ProbeSendFailureKind::RemoteProfileGenerationChanged => Self::ProfileGenerationChanged,
            ProbeSendFailureKind::PeerSessionChanged => Self::PeerSessionChanged,
            ProbeSendFailureKind::SessionRetired => Self::SessionRetired,
            ProbeSendFailureKind::SocketUnavailable => Self::SocketUnavailable,
            ProbeSendFailureKind::SocketRevoked => Self::SocketRevoked,
            ProbeSendFailureKind::ProbeRegistrationFailed => Self::ProbeRegistrationFailed,
            ProbeSendFailureKind::ProbeEncodingFailed => Self::ProbeEncodingFailed,
        }
    }

    pub open spec fn text(self) -> Seq<char> {
        match self {
            Self::WorkerJoin => "worker_join_failed"@,
            Self::NetworkGenerationChanged => "network_generation_changed"@,
            Self::CandidateEpochChanged => "candidate_epoch_changed"@,
            Self::ProfileGenerationChanged => "profile_generation_changed"@,
            Self::PeerSessionChanged => "peer_session_changed"@,
            Self::SessionRetired => "session_retired"@,
            Self::SocketRevoked => "socket_revoked"@,
            Self::SocketUnavailable => "socket_unavailable"@,
            Self::ProbeRegistrationFailed => "probe_registration_failed"@,
            Self::ProbeEncodingFailed => "probe_encoding_failed"@,
            Self::Send => "send_error"@,
        }
    }

    pub fn stop_reason(self) -> (r: &'static str)
        ensures
            r@ == self.text(),
    {
        match self {
            Self::WorkerJoin => "worker_join_failed",
            Self::NetworkGenerationChanged => "network_generation_changed",
            Self::CandidateEpochChanged => "candidate_epoch_changed",
            Self::ProfileGenerationChanged => "profile_generation_changed",
            Self::PeerSessionChanged => "peer_session_changed",
            Self::SessionRetired => "session_retired",
            Self::SocketRevoked => "socket_revoked",
            Self::SocketUnavailable => "socket_unavailable",
            Self::ProbeRegistrationFailed => "probe_registration_failed",
            Self::ProbeEncodingFailed => "probe_encoding_failed",
            Self::Send => "send_error",
        }
    }

    /// The failure with the given stop reason, if it names one.
    pub fn from_stop_reason(reason: &str) -> (r: Option<Self>)
        ensures
            match r {
                Some(kind) => kind.text() == reason@,
                None => forall|kind: Self| #[trigger] kind.text() != reason@,
            },
    {
        let reason: String = reason.to_owned();
        if reason == Self::WorkerJoin.stop_reason().to_owned() {
            Some(Self::WorkerJoin)
        } else if reason == Self::NetworkGenerationChanged.stop_reason().to_owned() {
            Some(Self::NetworkGenerationChanged)
        } else if reason == Self::CandidateEpochChanged.stop_reason().to_owned() {
            Some(Self::CandidateEpochChanged)
        } else if reason == Self::ProfileGenerationChanged.stop_reason().to_owned() {
            Some(Self::ProfileGenerationChanged)
        } else if reason == Self::PeerSessionChanged.stop_reason().to_owned() {
            Some(Self::PeerSessionChanged)
        } else if reason == Self::SessionRetired.stop_reason().to_owned() {
            Some(Self::SessionRetired)
        } else if reason == Self::SocketRevoked.stop_reason().to_owned() {
            Some(Self::SocketRevoked)
        } else if reason == Self::SocketUnavailable.stop_reason().to_owned() {
            Some(Self::SocketUnavailable)
        } else if reason == Self::ProbeRegistrationFailed.stop_reason().to_owned() {
            Some(Self::ProbeRegistrationFailed)
        } else if reason == Self::ProbeEncodingFailed.stop_reason().to_owned() {
            Some(Self::ProbeEncodingFailed)
        } else if reason == Self::Send.stop_reason().to_owned() {
            Some(Self::Send)
        } else {
            assert forall|kind: Self| #[trigger] kind.text() != reason@ by {
                match kind {
                    Self::WorkerJoin => {},
                    Self::NetworkGenerationChanged => {},
                    Self::CandidateEpochChanged => {},
                    Self::ProfileGenerationChanged => {},
                    Self::PeerSessionChanged => {},
                    Self::SessionRetired => {},
                    Self::SocketRevoked => {},
                    Self::SocketUnavailable => {},
                    Self::ProbeRegistrationFailed => {},
                    Self::ProbeEncodingFailed => {},
                    Self::Send => {},
                }
            }
            None
        }
    }

    /// How much a failure says: of two failures the one with the higher
    /// priority is reported.
    pub open spec fn priority(self) -> u8 {
        match self {
            Self::WorkerJoin => 100,
            Self::NetworkGenerationChanged => 90,
            Self::CandidateEpochChanged => 80,
            Self::ProfileGenerationChanged => 70,
            Self::PeerSessionChanged => 60,
            Self::SessionRetired => 50,
            Self::SocketRevoked => 40,
            Self::SocketUnavailable => 30,
            Self::ProbeRegistrationFailed => 20,
            Self::ProbeEncodingFailed => 10,
            Self::Send => 1,
        }
    }
}

pub fn birthday_failure_priority(kind: BirthdaySweepFailureKind) -> (r: u8)
    ensures
        r == kind.priority(),
{
    match kind {
        BirthdaySweepFailureKind::WorkerJoin => 100,
        BirthdaySweepFailureKind::NetworkGenerationChanged => 90,
        BirthdaySweepFailureKind::CandidateEpochChanged => 80,
        BirthdaySweepFailureKind::ProfileGenerationChanged => 70,
        BirthdaySweepFailureKind::PeerSessionChanged => 60,
        BirthdaySweepFailureKind::SessionRetired => 50,
        BirthdaySweepFailureKind::SocketRevoked => 40,
        BirthdaySweepFailureKind::SocketUnavailable => 30,
        BirthdaySweepFailureKind::ProbeRegistrationFailed => 20,
        BirthdaySweepFailureKind::ProbeEncodingFailed => 10,
        BirthdaySweepFailureKind::Send => 1,
    }
}

/// The failure of higher priority, the left one on a tie.
pub open spec fn combined(
    left: Option<BirthdaySweepFailureKind>,
    right: Option<BirthdaySweepFailureKind>,
) -> Option<BirthdaySweepFailureKind> {
    match (left, right) {
        (None, value) => value,
        (value, None) => value,
        (Some(l), Some(r)) => if r.priority() > l.priority() {
            Some(r)
        } else {
            Some(l)
        },
    }
}

pub fn combine_birthday_failure_kind(
    left: Option<BirthdaySweepFailureKind>,
    right: Option<BirthdaySweepFailureKind>,
) -> (r: Option<BirthdaySweepFailureKind>)
    ensures
        r == combined(left, right),
{
    match (left, right) {
        (None, value) => value,
        (value, None) => value,
        (Some(l), Some(r)) => if birthday_failure_priority(r) > birthday_failure_priority(l) {
            Some(r)
        } else {
            Some(l)
        },
    }
}

impl BirthdayStopReason {
    pub open spec fn text(self) -> Seq<char> {
        match self {
            Self::Failure(kind) => kind.text(),
            Self::WinnerSelected => "winner_selected"@,
            Self::DirectConfirmed => "direct_confirmed"@,
            Self::DirectCommitSeqChanged => "direct_commit_seq_changed"@,
            Self::EmptyTargets => "empty_targets"@,
            Self::EpochBudgetExhausted => "epoch_budget_exhausted"@,
            Self::CandidateIterationCapped => "candidate_iteration_capped"@,
            Self::BudgetExhausted => "budget_exhausted"@,
            Self::Completed => "completed"@,
        }
    }

    pub fn label(self) -> (r: &'static str)
        ensures
            r@ == self.text(),
    {
        match self {
            Self::Failure(kind) => kind.stop_reason(),
            Self::WinnerSelected => "winner_selected",
            Self::DirectConfirmed => "direct_confirmed",
            Self::DirectCommitSeqChanged => "direct_commit_seq_changed",
            Self::EmptyTargets => "empty_targets",
            Self::EpochBudgetExhausted => "epoch_budget_exhausted",
            Self::CandidateIterationCapped => "candidate_iteration_capped",
            Self::BudgetExhausted => "budget_exhausted",
            Self::Completed => "completed",
        }
    }
}

proof fn lemma_texts_differ(a: BirthdaySweepFailureKind, b: BirthdaySweepFailureKind)
    requires
        a.text() == b.text(),
    ensures
        a == b,
{
    reveal_strlit("worker_join_failed");
    reveal_strlit("network_generation_changed");
    reveal_strlit("candidate_epoch_changed");
    reveal_strlit("profile_generation_changed");
    reveal_strlit("peer_session_changed");
    reveal_strlit("session_retired");
    reveal_strlit("socket_revoked");
    reveal_strlit("socket_unavailable");
    reveal_strlit("probe_registration_failed");
    reveal_strlit("probe_encoding_failed");
    reveal_strlit("send_error");
    let x = a.text();
    let y = b.text();
    assert(x.len() == y.len());
    assert(x[0] == y[0]);
    assert(x[1] == y[1]);
    assert(x[2] == y[2]);
    assert(x[7] == y[7]);
}

/// A stop reason names at most one failure, so reading a failure's reason
/// back gives the failure.
pub proof fn law_stop_reason_round_trip(kind: BirthdaySweepFailureKind, back: BirthdaySweepFailureKind)
    requires
        back.text() == kind.text(),
    ensures
        back == kind,
{
    lemma_texts_differ(back, kind);
}

/// The report of several failures does not depend on the order in which they
/// came, nor on how they were grouped or repeated.
pub proof fn law_combination_is_order_free(
    a: Option<BirthdaySweepFailureKind>,
    b: Option<BirthdaySweepFailureKind>,
    c: Option<BirthdaySweepFailureKind>,
)
    ensures
        combined(a, b) == combined(b, a),
        combined(combined(a, b), c) == combined(a, combined(b, c)),
        combined(a, a) == a,
{
}

/// A failed probe tells the sweep its own reason; either profile that moved is
/// a moved profile, and a refused packet a failed send.
pub proof fn law_probe_failures_tell_the_sweep()
    ensures
        BirthdaySweepFailureKind::of_probe(ProbeSendFailureKind::PhysicalSend)
            == BirthdaySweepFailureKind::Send,
        BirthdaySweepFailureKind::of_probe(ProbeSendFailureKind::NetworkGenerationChanged)
            == BirthdaySweepFailureKind::NetworkGenerationChanged,
        BirthdaySweepFailureKind::of_probe(ProbeSendFailureKind::CandidateEpochChanged)
            == BirthdaySweepFailureKind::CandidateEpochChanged,
        BirthdaySweepFailureKind::of_probe(ProbeSendFailureKind::LocalProfileGenerationChanged)
            == BirthdaySweepFailureKind::ProfileGenerationChanged,
        BirthdaySweepFailureKind::of_probe(ProbeSendFailureKind::RemoteProfileGenerationChanged)
            == BirthdaySweepFailureKind::ProfileGenerationChanged,
        BirthdaySweepFailureKind::of_probe(ProbeSendFailureKind::PeerSessionChanged)
            == BirthdaySweepFailureKind::PeerSessionChanged,
        BirthdaySweepFailureKind::of_probe(ProbeSendFailureKind::SessionRetired)
            == BirthdaySweepFailureKind::SessionRetired,
        BirthdaySweepFailureKind::of_probe(ProbeSendFailureKind::SocketUnavailable)
            == BirthdaySweepFailureKind::SocketUnavailable,
        BirthdaySweepFailureKind::of_probe(ProbeSendFailureKind::SocketRevoked)
            == BirthdaySweepFailureKind::SocketRevoked,
        BirthdaySweepFailureKind::of_probe(ProbeSendFailureKind::ProbeRegistrationFailed)
            == BirthdaySweepFailureKind::ProbeRegistrationFailed,
        BirthdaySweepFailureKind::of_probe(ProbeSendFailureKind::ProbeEncodingFailed)
            == BirthdaySweepFailureKind::ProbeEncodingFailed,
{
}

/// The order of the failures, from the gravest: a lost worker, then what moved
/// of the fence, then the socket, then the probe.
pub proof fn law_failures_by_gravity()
    ensures
        BirthdaySweepFailureKind::WorkerJoin.priority() == 100,
        BirthdaySweepFailureKind::NetworkGenerationChanged.priority() == 90,
        BirthdaySweepFailureKind::CandidateEpochChanged.priority() == 80,
        BirthdaySweepFailureKind::ProfileGenerationChanged.priority() == 70,
        BirthdaySweepFailureKind::PeerSessionChanged.priority() == 60,
        BirthdaySweepFailureKind::SessionRetired.priority() == 50,
        BirthdaySweepFailureKind::SocketRevoked.priority() == 40,
        BirthdaySweepFailureKind::SocketUnavailable.priority() == 30,
        BirthdaySweepFailureKind::ProbeRegistrationFailed.priority() == 20,
        BirthdaySweepFailureKind::ProbeEncodingFailed.priority() == 10,
        BirthdaySweepFailureKind::Send.priority() == 1,
{
}

/// Of two failures one is kept, and none that is graver than it is lost.
pub proof fn law_graver_failure_is_kept(
    left: Option<BirthdaySweepFailureKind>,
    right: Option<BirthdaySweepFailureKind>,
)
    ensures
        combined(left, right) is None <==> left is None && right is None,
        combined(left, right) is Some ==> combined(left, right) == left || combined(left, right)
            == right,
        left is Some ==> combined(left, right)->0.priority() >= left->0.priority(),
        right is Some ==> combined(left, right)->0.priority() >= right->0.priority(),
        left is Some && right is Some && left->0.priority() == right->0.priority() ==> combined(
            left,
            right,
        ) == left,
{
}

} // verus!

//! The recovery heartbeat of a peer that is only reachable through a relay:
//! who may send it, and what one beat does.

use vstd::prelude::*;
use crate::heartbeat_budget::{
    RelayBackoffHeartbeatBudget, RelayBackoffHeartbeatReservation,
    RelayBackoffHeartbeatReservationRejection, RelayBackoffHeartbeatTarget,
};
use crate::pending::ProbeSendResult;
use crate::punch_reports::{Punch, PunchSendReport};
use crate::table::{Table, TableKey};

verus! {

/// Who sends heartbeats. A worker that was told to stop is quitting until it
/// says that it has stopped; only then may another one start.
pub struct RelayBackoffHeartbeatRegistry {
    pub closed: bool,
    /// The token of each peer's worker that may send.
    pub active: Table<String, u64>,
    pub quitting: Table<String, u64>,
    /// The interval of a worker wanted once the quitting one has stopped.
    pub pending_restarts: Table<String, u64>,
    pub next_token: u64,
}

/// The contents of a registry.
#[verifier::ext_equal]
pub struct Heartbeats {
    pub closed: bool,
    pub active: Map<Seq<char>, u64>,
    pub quitting: Map<Seq<char>, u64>,
    pub pending: Map<Seq<char>, u64>,
    pub next_token: u64,
}

impl Heartbeats {
    /// What starting a worker for `peer` yields.
    pub open spec fn registered(self, peer: Seq<char>, interval: u64) -> Heartbeats {
        if self.closed || self.active.dom().contains(peer) {
            self
        } else if self.quitting.dom().contains(peer) {
            Heartbeats { pending: self.pending.insert(peer, interval), ..self }
        } else {
            Heartbeats {
                active: self.active.insert(peer, self.next_token),
                next_token: (self.next_token + 1) as u64,
                ..self
            }
        }
    }

    /// Whether a worker for `peer` may start at once.
    pub open spec fn can_start(self, peer: Seq<char>) -> bool {
        !self.closed && !self.active.dom().contains(peer) && !self.quitting.dom().contains(peer)
    }

    pub open spec fn cancelled(self, peer: Seq<char>) -> Heartbeats {
        if self.active.dom().contains(peer) {
            Heartbeats {
                active: self.active.remove(peer),
                quitting: self.quitting.insert(peer, self.active[peer]),
                ..self
            }
        } else {
            self
        }
    }

    pub open spec fn owns_active(self, peer: Seq<char>, token: u64) -> bool {
        self.active.dom().contains(peer) && self.active[peer] == token
    }

    pub open spec fn owns_quitting(self, peer: Seq<char>, token: u64) -> bool {
        self.quitting.dom().contains(peer) && self.quitting[peer] == token
    }

    /// Whether a worker has a lease, to send or to quit.
    pub open spec fn owns(self, peer: Seq<char>, token: u64) -> bool {
        self.owns_active(peer, token) || self.owns_quitting(peer, token)
    }

    /// Whether the worker of some peer has a lease under this token.
    pub open spec fn owned(self, token: u64) -> bool {
        exists|p: Seq<char>| #[trigger] self.owns(p, token)
    }

    /// What the exit of a worker yields: only its own lease goes.
    pub open spec fn exited(self, peer: Seq<char>, token: u64) -> Heartbeats {
        if self.owns_active(peer, token) {
            Heartbeats {
                active: self.active.remove(peer),
                pending: self.pending.remove(peer),
                ..self
            }
        } else if self.owns_quitting(peer, token) {
            Heartbeats {
                quitting: self.quitting.remove(peer),
                pending: self.pending.remove(peer),
                ..self
            }
        } else {
            self
        }
    }

    pub open spec fn consistent(self) -> bool {
        &&& forall|p: Seq<char>| #[trigger]
            self.active.dom().contains(p) ==> !self.quitting.dom().contains(p) && self.active[p]
                < self.next_token
        &&& forall|p: Seq<char>| #[trigger]
            self.quitting.dom().contains(p) ==> self.quitting[p] < self.next_token
        &&& forall|p: Seq<char>| #[trigger]
            self.pending.dom().contains(p) ==> self.quitting.dom().contains(p)
        &&& self.closed ==> self.active == Map::<Seq<char>, u64>::empty() && self.quitting
            == Map::<Seq<char>, u64>::empty() && self.pending == Map::<Seq<char>, u64>::empty()
    }
}

proof fn lemma_registered(h: Heartbeats, peer: Seq<char>, interval: u64)
    requires
        h.consistent(),
        h.next_token < u64::MAX,
    ensures
        h.registered(peer, interval).consistent(),
{
    let next = h.registered(peer, interval);
    assert forall|p: Seq<char>| #[trigger] next.active.dom().contains(p) implies
        !next.quitting.dom().contains(p) && next.active[p] < next.next_token by {
        assert(p == peer || h.active.dom().contains(p));
    }
    assert forall|p: Seq<char>| #[trigger] next.pending.dom().contains(p) implies
        next.quitting.dom().contains(p) by {
        assert(p == peer || h.pending.dom().contains(p));
    }
}

proof fn lemma_cancelled(h: Heartbeats, peer: Seq<char>)
    requires
        h.consistent(),
    ensures
        h.cancelled(peer).consistent(),
{
    let next = h.cancelled(peer);
    assert forall|p: Seq<char>| #[trigger] next.active.dom().contains(p) implies
        !next.quitting.dom().contains(p) && next.active[p] < next.next_token by {
        assert(h.active.dom().contains(p));
    }
    assert forall|p: Seq<char>| #[trigger] next.quitting.dom().contains(p) implies
        next.quitting[p] < next.next_token by {
        assert(p == peer || h.quitting.dom().contains(p));
    }
    assert forall|p: Seq<char>| #[trigger] next.pending.dom().contains(p) implies
        next.quitting.dom().contains(p) by {
        assert(h.pending.dom().contains(p));
    }
}

impl RelayBackoffHeartbeatRegistry {
    pub open spec fn view(&self) -> Heartbeats {
        Heartbeats {
            closed: self.closed,
            active: self.active@,
            quitting: self.quitting@,
            pending: self.pending_restarts@,
            next_token: self.next_token,
        }
    }

    pub open spec fn wf(&self) -> bool {
        &&& self.active.wf()
        &&& self.quitting.wf()
        &&& self.pending_restarts.wf()
        &&& self@.consistent()
    }

    pub fn new() -> (r: Self)
        ensures
            r.wf(),
            r@ == (Heartbeats {
                closed: false,
                active: Map::empty(),
                quitting: Map::empty(),
                pending: Map::empty(),
                next_token: 1,
            }),
    {
        RelayBackoffHeartbeatRegistry {
            closed: false,
            active: Table::new(),
            quitting: Table::new(),
            pending_restarts: Table::new(),
            next_token: 1,
        }
    }

    /// Makes a worker the sender for a peer and gives its token. A request
    /// that comes while the old worker is quitting is remembered.
    pub fn register_relay_backoff_heartbeat(&mut self, peer_id: &str, interval: u64) -> (token:
        Option<u64>)
        requires
            old(self).wf(),
            old(self).next_token < u64::MAX,
        ensures
            final(self).wf(),
            interval == 0 ==> token is None && final(self)@ == old(self)@,
            interval > 0 ==> {
                &&& token == if old(self)@.can_start(peer_id@) {
                    Some(old(self).next_token)
                } else {
                    None
                }
                &&& final(self)@ == old(self)@.registered(peer_id@, interval)
            },
    {
        if interval == 0 || self.closed {
            return None;
        }
        proof {
            lemma_registered(self@, peer_id@, interval);
        }
        let peer: String = peer_id.to_owned();
        if self.active.contains(&peer) {
            return None;
        }
        if self.quitting.contains(&peer) {
            let _ = self.pending_restarts.insert(peer, interval);
            assert(self@ =~= old(self)@.registered(peer_id@, interval));
            return None;
        }
        let token: u64 = self.next_token;
        self.next_token = token + 1;
        let _ = self.active.insert(peer, token);
        assert(self@ =~= old(self)@.registered(peer_id@, interval));
        Some(token)
    }

    /// Revokes a peer's sender, before it is told to stop. Returns the token
    /// of the worker to tell.
    pub fn cancel_relay_backoff_heartbeat(&mut self, peer_id: &str) -> (revoked: Option<u64>)
        requires
            old(self).wf(),
        ensures
            final(self).wf(),
            final(self)@ == old(self)@.cancelled(peer_id@),
            revoked == if old(self)@.active.dom().contains(peer_id@) {
                Some(old(self)@.active[peer_id@])
            } else {
                None
            },
    {
        proof {
            lemma_cancelled(self@, peer_id@);
        }
        let peer: String = peer_id.to_owned();
        match self.active.remove(&peer) {
            Some(token) => {
                let _ = self.quitting.insert(peer, token);
                assert(self@ =~= old(self)@.cancelled(peer_id@));
                Some(token)
            },
            None => None,
        }
    }

    /// Revokes every sender for good: nothing starts or restarts any more.
    /// Returns the tokens of the workers to tell.
    pub fn cancel_all_relay_backoff_heartbeats(&mut self) -> (revoked: Vec<u64>)
        requires
            old(self).wf(),
        ensures
            final(self).wf(),
            final(self)@ == (Heartbeats {
                closed: true,
                active: Map::empty(),
                quitting: Map::empty(),
                pending: Map::empty(),
                next_token: old(self).next_token,
            }),
            forall|p: Seq<char>| #[trigger]
                old(self)@.active.dom().contains(p) ==> revoked@.contains(old(self)@.active[p]),
            forall|p: Seq<char>| #[trigger]
                old(self)@.quitting.dom().contains(p) ==> revoked@.contains(
                    old(self)@.quitting[p],
                ),
            forall|i: int|
                0 <= i < revoked@.len() ==> old(self)@.owned(#[trigger] revoked@[i]),
    {
        self.closed = true;
        self.pending_restarts.clear();
        let ghost before = old(self)@;
        let mut revoked: Vec<u64> = Vec::new();
        let active: usize = self.active.len();
        proof {
            self.active.lemma_seq();
            self.quitting.lemma_seq();
        }
        let mut i: usize = 0;
        while i < active
            invariant
                i <= active,
                active == self.active.seq().len(),
                self.active.wf(),
                before.active == self.active@,
                revoked@.len() == i,
                forall|j: int| 0 <= j < i ==> #[trigger] revoked@[j] == self.active.seq()[j].1,
                forall|j: int| 0 <= j < i ==> before.owned(#[trigger] revoked@[j]),
            decreases active - i,
        {
            let row: &(String, u64) = self.active.row(i);
            let ghost owner = row.0.name();
            revoked.push(row.1);
            assert(before.owns(owner, revoked@[i as int]));
            i += 1;
        }
        let quitting: usize = self.quitting.len();
        let mut k: usize = 0;
        while k < quitting
            invariant
                k <= quitting,
                quitting == self.quitting.seq().len(),
                active == self.active.seq().len(),
                self.quitting.wf(),
                before.quitting == self.quitting@,
                revoked@.len() == active + k,
                forall|j: int|
                    0 <= j < active ==> #[trigger] revoked@[j] == self.active.seq()[j].1,
                forall|j: int|
                    0 <= j < k ==> revoked@[active + j] == (#[trigger] self.quitting.seq()[j]).1,
                forall|j: int|
                    0 <= j < revoked@.len() ==> before.owned(#[trigger] revoked@[j]),
            decreases quitting - k,
        {
            let row: &(String, u64) = self.quitting.row(k);
            let ghost owner = row.0.name();
            let ghost at = revoked@.len() as int;
            revoked.push(row.1);
            assert(before.owns(owner, revoked@[at]));
            k += 1;
        }
        proof {
            assert forall|p: Seq<char>| #[trigger]
                before.active.dom().contains(p) implies revoked@.contains(before.active[p]) by {
                let j = choose|j: int|
                    0 <= j < self.active.seq().len() && (#[trigger] self.active.seq()[j]).0.name()
                        == p;
                assert(revoked@[j] == self.active.seq()[j].1);
            }
            assert forall|p: Seq<char>| #[trigger]
                before.quitting.dom().contains(p) implies revoked@.contains(
                before.quitting[p],
            ) by {
                let j = choose|j: int|
                    0 <= j < self.quitting.seq().len() && (
                    #[trigger] self.quitting.seq()[j]).0.name() == p;
                assert(revoked@[active + j] == self.quitting.seq()[j].1);
            }
        }
        self.active.clear();
        self.quitting.clear();
        revoked
    }

    /// Removes the lease of a worker that has stopped sending, and gives the
    /// interval of a restart that was asked for meanwhile.
    pub fn complete_relay_backoff_heartbeat_exit(&mut self, peer_id: &str, owner_token: u64) -> (
    restart: Option<u64>)
        requires
            old(self).wf(),
        ensures
            final(self).wf(),
            final(self)@ == old(self)@.exited(peer_id@, owner_token),
            restart == if old(self)@.owns(peer_id@, owner_token) && old(self)@.pending.dom().contains(peer_id@) {
                Some(old(self)@.pending[peer_id@])
            } else {
                None
            },
    {
        let peer: String = peer_id.to_owned();
        let owns_active: bool = match self.active.get(&peer) {
            Some(token) => *token == owner_token,
            None => false,
        };
        if owns_active {
            let _ = self.active.remove(&peer);
        } else {
            let owns_quitting: bool = match self.quitting.get(&peer) {
                Some(token) => *token == owner_token,
                None => false,
            };
            if !owns_quitting {
                return None;
            }
            let _ = self.quitting.remove(&peer);
        }
        self.pending_restarts.remove(&peer)
    }

    /// Whether a worker may still send.
    pub fn relay_backoff_heartbeat_owner_valid_sync(&self, peer_id: &str, owner_token: u64) -> (r:
        bool)
        requires
            self.wf(),
        ensures
            r == self@.owns_active(peer_id@, owner_token),
    {
        match self.active.get(&peer_id.to_owned()) {
            Some(token) => *token == owner_token,
            None => false,
        }
    }
}

/// At no time may two workers send for one peer, nor one while another quits.
pub proof fn law_one_sender_for_a_peer(h: Heartbeats, peer: Seq<char>, a: u64, b: u64)
    requires
        h.consistent(),
        h.owns_active(peer, a),
    ensures
        h.owns_active(peer, b) ==> a == b,
        !h.quitting.dom().contains(peer),
        !h.can_start(peer),
{
}

/// A worker may not send from the moment it is cancelled.
pub proof fn law_cancelled_worker_may_not_send(h: Heartbeats, peer: Seq<char>, token: u64)
    ensures
        !h.cancelled(peer).owns_active(peer, token),
{
}

/// A restart asked for while a worker quits is neither lost nor started
/// early: the exit of that worker hands it out, and then a worker can start.
pub proof fn law_restart_waits_for_the_exit(h: Heartbeats, peer: Seq<char>, interval: u64)
    requires
        h.consistent(),
        h.quitting.dom().contains(peer),
    ensures
        !h.can_start(peer),
        h.registered(peer, interval).pending[peer] == interval,
        h.registered(peer, interval).pending.dom().contains(peer),
        h.registered(peer, interval).owns_quitting(peer, h.quitting[peer]),
        h.registered(peer, interval).exited(peer, h.quitting[peer]).can_start(peer),
{
}

/// The late exit of an old worker never takes a newer one's lease.
pub proof fn law_late_exit_spares_newer_worker(
    h: Heartbeats,
    peer: Seq<char>,
    old_token: u64,
    new_token: u64,
)
    requires
        h.owns_active(peer, new_token),
        old_token != new_token,
        h.consistent(),
    ensures
        h.exited(peer, old_token) == h,
{
}

/// A closed registry starts nothing and remembers nothing.
pub proof fn law_closed_registry_stays_empty(h: Heartbeats, peer: Seq<char>, interval: u64)
    requires
        h.consistent(),
        h.closed,
    ensures
        h.registered(peer, interval) == h,
        h.cancelled(peer) == h,
        !h.can_start(peer),
{
}

/// What a worker looks at before each beat and each send.
#[derive(Clone, Copy, Debug)]
pub struct HeartbeatGates {
    pub cancelled: bool,
    pub peer_exists: bool,
    pub direct: bool,
    /// The relay still carries the peer's traffic.
    pub available: bool,
    /// The worker is the registered sender.
    pub owner_valid: bool,
    pub network_generation: u64,
}

/// Whether a worker may send.
pub open spec fn owner_gate(gates: HeartbeatGates) -> bool {
    !gates.cancelled && gates.peer_exists && !gates.direct && gates.available && gates.owner_valid
}

pub fn heartbeat_owner_gate(gates: &HeartbeatGates) -> (r: bool)
    ensures
        r == owner_gate(*gates),
{
    !gates.cancelled && gates.peer_exists && !gates.direct && gates.available && gates.owner_valid
}

/// Whether a worker goes on to another beat: it was not cancelled, its peer
/// is there and not direct, and there is something to probe.
pub fn heartbeat_continues(
    cancelled: bool,
    direct: bool,
    peer_exists: bool,
    target_count: Option<usize>,
) -> (r: bool)
    ensures
        r == (!cancelled && !direct && peer_exists && target_count is Some && target_count->0 > 0),
{
    if cancelled || direct || !peer_exists {
        return false;
    }
    match target_count {
        Some(count) => count > 0,
        None => false,
    }
}

/// Counts a beat, and says whether it is one to be told of.
pub fn count_beat(beats: &mut u32) -> (tell: bool)
    ensures
        *final(beats) == crate::histogram::add32(*old(beats), 1),
        tell == (*final(beats) % 15 == 0),
{
    *beats = beats.saturating_add(1);
    *beats % 15 == 0
}

/// What a beat waits for.
#[derive(Clone, Copy, Debug, PartialEq, Eq, Structural)]
pub enum BeatPhase {
    /// Its target.
    Target,
    /// Room in the budget.
    Reservation,
    /// The gates, once more, with the room held.
    Gate,
    /// The outcome of the send.
    Sending,
    Finished,
}

/// Why a beat ended as it did.
#[derive(Clone, Copy, Debug, PartialEq, Eq, Structural)]
pub enum BeatReason {
    Rejected(RelayBackoffHeartbeatReservationRejection),
    RevokedBeforeSend,
    Committed,
    SendError,
}

impl BeatReason {
    pub open spec fn text(self) -> Seq<char> {
        match self {
            Self::Rejected(rejection) => rejection.text(),
            Self::RevokedBeforeSend => "heartbeat_owner_or_path_revoked_before_send"@,
            Self::Committed => "actual_kernel_datagrams_committed"@,
            Self::SendError => "udp_send_error_reservation_released"@,
        }
    }

    pub fn label(self) -> (r: &'static str)
        ensures
            r@ == self.text(),
    {
        match self {
            Self::Rejected(rejection) => rejection.reason(),
            Self::RevokedBeforeSend => "heartbeat_owner_or_path_revoked_before_send",
            Self::Committed => "actual_kernel_datagrams_committed",
            Self::SendError => "udp_send_error_reservation_released",
        }
    }
}

/// What is told of a beat.
#[derive(Clone, Copy, Debug, PartialEq, Eq, Structural)]
pub struct BeatRecord {
    pub target: RelayBackoffHeartbeatTarget,
    pub packets_sent: u32,
    pub budget_skipped: u32,
    pub reason: BeatReason,
}

impl BeatRecord {
    /// The name of the event.
    pub open spec fn stage_text(self) -> Seq<char> {
        if self.budget_skipped > 0 {
            "relay_backoff_heartbeat_beat_deferred"@
        } else if self.packets_sent == 0 {
            "relay_backoff_heartbeat_send_error"@
        } else {
            "relay_backoff_heartbeat_beat_completed"@
        }
    }

    pub fn stage(&self) -> (r: &'static str)
        ensures
            r@ == self.stage_text(),
    {
        if self.budget_skipped > 0 {
            "relay_backoff_heartbeat_beat_deferred"
        } else if self.packets_sent == 0 {
            "relay_backoff_heartbeat_send_error"
        } else {
            "relay_backoff_heartbeat_beat_completed"
        }
    }

    /// The datagrams of the first socket and of the others.
    pub fn sent_by_socket(&self) -> (r: (u32, u32))
        ensures
            r == if self.target.socket_index == 0 {
                (self.packets_sent, 0u32)
            } else {
                (0u32, self.packets_sent)
            },
    {
        if self.target.socket_index == 0 {
            (self.packets_sent, 0)
        } else {
            (0, self.packets_sent)
        }
    }

    /// The endpoints, and with them the ports, that the beat reached.
    pub fn unique_targets(&self) -> (n: u32)
        ensures
            n == if self.packets_sent > 0 {
                1u32
            } else {
                0
            },
    {
        if self.packets_sent > 0 {
            1
        } else {
            0
        }
    }
}

/// One beat: at most one probe, to one endpoint, from one socket.
#[derive(Clone, Copy, Debug, PartialEq, Eq, Structural)]
pub struct HeartbeatBeat {
    pub generation: u64,
    pub phase: BeatPhase,
    pub target: Option<RelayBackoffHeartbeatTarget>,
    pub record: Option<BeatRecord>,
    pub sent: Option<ProbeSendResult>,
}

impl HeartbeatBeat {
    pub open spec fn wf(&self) -> bool {
        &&& (self.phase is Reservation || self.phase is Gate || self.phase is Sending
            ==> self.target is Some)
        &&& (self.record matches Some(r) ==> self.phase is Finished && Some(r.target)
            == self.target && r.packets_sent == (if self.sent is Some {
            self.sent->0.datagrams_sent as u32
        } else {
            0
        }))
        &&& (self.sent is Some ==> self.record is Some)
        &&& (self.phase !is Finished ==> self.record is None)
    }

    /// Whether a beat has anything to do.
    pub open spec fn starts(gates: HeartbeatGates, generation: u64, target_count: usize) -> bool {
        &&& target_count > 0
        &&& gates.peer_exists
        &&& !gates.direct
        &&& gates.network_generation == generation
        &&& owner_gate(gates)
    }

    pub fn begin(gates: &HeartbeatGates, generation: u64, target_count: usize) -> (beat: Self)
        ensures
            beat.wf(),
            beat == (HeartbeatBeat {
                generation,
                phase: if Self::starts(*gates, generation, target_count) {
                    BeatPhase::Target
                } else {
                    BeatPhase::Finished
                },
                target: None,
                record: None,
                sent: None,
            }),
    {
        let idle: bool = target_count == 0 || !gates.peer_exists || gates.direct
            || gates.network_generation != generation || !heartbeat_owner_gate(gates);
        HeartbeatBeat {
            generation,
            phase: if idle {
                BeatPhase::Finished
            } else {
                BeatPhase::Target
            },
            target: None,
            record: None,
            sent: None,
        }
    }

    pub fn on_target(&mut self, target: Option<RelayBackoffHeartbeatTarget>)
        requires
            old(self).wf(),
            old(self).phase is Target,
        ensures
            final(self).wf(),
            *final(self) == (HeartbeatBeat {
                phase: if target is Some {
                    BeatPhase::Reservation
                } else {
                    BeatPhase::Finished
                },
                target,
                ..*old(self)
            }),
    {
        self.phase = if target.is_some() {
            BeatPhase::Reservation
        } else {
            BeatPhase::Finished
        };
        self.target = target;
    }

    /// The beat, over for the given reason.
    pub open spec fn ended(
        self,
        reason: BeatReason,
        budget_skipped: u32,
        sent: Option<ProbeSendResult>,
    ) -> HeartbeatBeat {
        HeartbeatBeat {
            phase: BeatPhase::Finished,
            record: Some(
                BeatRecord {
                    target: self.target->0,
                    packets_sent: if sent is Some {
                        sent->0.datagrams_sent as u32
                    } else {
                        0
                    },
                    budget_skipped,
                    reason,
                },
            ),
            sent,
            ..self
        }
    }

    fn end(&mut self, reason: BeatReason, budget_skipped: u32, sent: Option<ProbeSendResult>)
        requires
            old(self).wf(),
            old(self).target is Some,
        ensures
            final(self).wf(),
            *final(self) == old(self).ended(reason, budget_skipped, sent),
    {
        self.record = match self.target {
            Some(target) => Some(
                BeatRecord {
                    target,
                    packets_sent: match sent {
                        Some(result) => result.datagrams_sent as u32,
                        None => 0,
                    },
                    budget_skipped,
                    reason,
                },
            ),
            None => None,
        };
        self.sent = sent;
        self.phase = BeatPhase::Finished;
    }

    /// A beat without room is deferred to the next one.
    pub fn on_reservation(
        &mut self,
        rejection: Option<RelayBackoffHeartbeatReservationRejection>,
    )
        requires
            old(self).wf(),
            old(self).phase is Reservation,
        ensures
            final(self).wf(),
            *final(self) == match rejection {
                Some(rejection) => old(self).ended(BeatReason::Rejected(rejection), 1, None),
                None => HeartbeatBeat { phase: BeatPhase::Gate, ..*old(self) },
            },
    {
        match rejection {
            Some(rejection) => {
                self.end(BeatReason::Rejected(rejection), 1, None);
            },
            None => {
                self.phase = BeatPhase::Gate;
            },
        }
    }

    /// Looks at the gates a last time, with the room held: workers that send
    /// at once cannot take more than there is, and a revoked one sends nothing.
    pub fn on_gate(&mut self, gates: &HeartbeatGates) -> (send: Option<
        RelayBackoffHeartbeatTarget,
    >)
        requires
            old(self).wf(),
            old(self).phase is Gate,
        ensures
            final(self).wf(),
            if owner_gate(*gates) && gates.network_generation == old(self).generation {
                &&& send == old(self).target
                &&& *final(self) == (HeartbeatBeat { phase: BeatPhase::Sending, ..*old(self) })
            } else {
                &&& send is None
                &&& *final(self) == old(self).ended(BeatReason::RevokedBeforeSend, 0, None)
            },
    {
        if heartbeat_owner_gate(gates) && gates.network_generation == self.generation {
            self.phase = BeatPhase::Sending;
            self.target
        } else {
            self.end(BeatReason::RevokedBeforeSend, 0, None);
            None
        }
    }

    pub fn on_sent(&mut self, sent: Option<ProbeSendResult>)
        requires
            old(self).wf(),
            old(self).phase is Sending,
        ensures
            final(self).wf(),
            *final(self) == old(self).ended(
                if sent is Some {
                    BeatReason::Committed
                } else {
                    BeatReason::SendError
                },
                0,
                sent,
            ),
    {
        if sent.is_some() {
            self.end(BeatReason::Committed, 0, sent);
        } else {
            self.end(BeatReason::SendError, 0, None);
        }
    }

    /// The report of a beat.
    pub open spec fn spec_report(&self) -> Punch {
        match (self.record, self.sent) {
            (Some(record), Some(sent)) => Punch {
                packets_sent: sent.datagrams_sent as u32,
                unique_target_endpoints: 1,
                first_send_at_ms: sent.first_send_at_ms,
                per_socket_sent: seq![(sent.socket_index, sent.datagrams_sent as u32)],
                ..Punch::blank()
            },
            (Some(record), None) => Punch {
                budget_skipped: record.budget_skipped,
                ..Punch::blank()
            },
            _ => Punch::blank(),
        }
    }

    pub fn report(&self) -> (report: PunchSendReport)
        requires
            self.wf(),
        ensures
            report@ == self.spec_report(),
    {
        let mut report: PunchSendReport = PunchSendReport::default();
        match (self.record, self.sent) {
            (Some(_), Some(sent)) => {
                report.packets_sent = sent.datagrams_sent as u32;
                report.unique_target_endpoints = 1;
                report.first_send_at_ms = sent.first_send_at_ms;
                report.per_socket_sent.push((sent.socket_index, sent.datagrams_sent as u32));
                assert(report@.per_socket_sent =~= self.spec_report().per_socket_sent);
            },
            (Some(record), None) => {
                report.budget_skipped = record.budget_skipped;
            },
            _ => {},
        }
        report
    }
}

/// Settles the room that a beat held: what was sent is committed, and a beat
/// that sent nothing leaves no trace.
pub fn settle_beat(
    budget: &mut RelayBackoffHeartbeatBudget,
    reservation: RelayBackoffHeartbeatReservation,
    sent: Option<ProbeSendResult>,
    now: u64,
)
    requires
        old(budget).wf(),
    ensures
        final(budget).wf(),
        old(budget).reservations().dom().contains(reservation.spec_id()) ==> old(budget).settled_to(
            final(budget),
            reservation.spec_id(),
            if sent is Some {
                sent->0.datagrams_sent as usize
            } else {
                0
            },
            now,
        ),
        !old(budget).reservations().dom().contains(reservation.spec_id()) ==> old(budget).same_as(
            final(budget),
        ),
{
    match sent {
        Some(result) => budget.commit(reservation, result.datagrams_sent as usize, now),
        None => budget.release(reservation, now),
    }
}

/// A beat whose owner, peer, path or network changed after it took its room
/// gives out no target to send to.
pub proof fn law_revoked_beat_sends_nothing(
    before: HeartbeatBeat,
    after: HeartbeatBeat,
    gates: HeartbeatGates,
)
    requires
        before.wf(),
        before.phase is Gate,
        !owner_gate(gates) || gates.network_generation != before.generation,
        after == before.ended(BeatReason::RevokedBeforeSend, 0, None),
    ensures
        after.spec_report() == Punch::blank(),
        after.phase is Finished,
{
}

/// A worker is registered exactly where the registry is open and the peer has
/// none, neither at work nor quitting; while one quits, the restart waits.
pub proof fn law_registration(h: Heartbeats, peer: Seq<char>, interval: u64, other: Seq<char>)
    requires
        h.next_token < u64::MAX,
        other != peer,
    ensures
        ({
            let n = h.registered(peer, interval);
            let active = h.active.dom().contains(peer);
            let quitting = h.quitting.dom().contains(peer);
            &&& h.can_start(peer) <==> !h.closed && !active && !quitting
            &&& h.can_start(peer) ==> n.active.dom().contains(peer) && n.active[peer]
                == h.next_token && n.next_token == h.next_token + 1 && n.quitting == h.quitting
                && n.pending == h.pending
            &&& h.closed || active ==> n == h
            &&& !h.closed && !active && quitting ==> n.active == h.active && n.quitting
                == h.quitting && n.pending.dom().contains(peer) && n.pending[peer] == interval
                && n.next_token == h.next_token
            &&& n.closed == h.closed
            &&& n.active.dom().contains(other) == h.active.dom().contains(other)
            &&& h.active.dom().contains(other) ==> n.active[other] == h.active[other]
        }),
{
}

/// A cancelled worker quits under its token; where there is none, nothing
/// changes.
pub proof fn law_cancellation(h: Heartbeats, peer: Seq<char>, other: Seq<char>)
    requires
        other != peer,
    ensures
        ({
            let n = h.cancelled(peer);
            &&& !n.active.dom().contains(peer)
            &&& h.active.dom().contains(peer) ==> n.quitting.dom().contains(peer)
                && n.quitting[peer] == h.active[peer]
            &&& !h.active.dom().contains(peer) ==> n == h
            &&& n.active.dom().contains(other) == h.active.dom().contains(other)
            &&& h.active.dom().contains(other) ==> n.active[other] == h.active[other]
            &&& n.quitting.dom().contains(other) == h.quitting.dom().contains(other)
            &&& h.quitting.dom().contains(other) ==> n.quitting[other] == h.quitting[other]
            &&& n.pending == h.pending && n.next_token == h.next_token && n.closed == h.closed
        }),
{
}

/// A worker owns its peer's place by its token, and its exit frees the place
/// and the restart that waits for it; any other exit changes nothing.
pub proof fn law_exit(h: Heartbeats, peer: Seq<char>, token: u64, other: Seq<char>)
    requires
        other != peer,
        h.consistent(),
    ensures
        ({
            let n = h.exited(peer, token);
            &&& h.owns_active(peer, token) <==> h.active.dom().contains(peer) && h.active[peer]
                == token
            &&& h.owns_quitting(peer, token) <==> h.quitting.dom().contains(peer)
                && h.quitting[peer] == token
            &&& h.owns(peer, token) <==> h.owns_active(peer, token) || h.owns_quitting(peer, token)
            &&& h.owns(peer, token) ==> !n.active.dom().contains(peer)
                && !n.quitting.dom().contains(peer) && !n.pending.dom().contains(peer)
            &&& !h.owns(peer, token) ==> n == h
            &&& n.active.dom().contains(other) == h.active.dom().contains(other)
            &&& n.quitting.dom().contains(other) == h.quitting.dom().contains(other)
            &&& n.pending.dom().contains(other) == h.pending.dom().contains(other)
            &&& n.next_token == h.next_token && n.closed == h.closed
            &&& h.owns(peer, token) ==> h.owned(token)
        }),
{
}

/// In a consistent registry a peer has one worker at most, a restart waits only
/// for one that quits, no token is given twice, and a closed one is empty.
pub proof fn law_consistent_heartbeats(h: Heartbeats, peer: Seq<char>)
    requires
        h.consistent(),
    ensures
        !(h.active.dom().contains(peer) && h.quitting.dom().contains(peer)),
        h.pending.dom().contains(peer) ==> h.quitting.dom().contains(peer),
        h.active.dom().contains(peer) ==> h.active[peer] < h.next_token,
        h.quitting.dom().contains(peer) ==> h.quitting[peer] < h.next_token,
        h.closed ==> !h.active.dom().contains(peer) && !h.quitting.dom().contains(peer)
            && !h.pending.dom().contains(peer),
{
}

/// A beat starts exactly where there is something to beat at, in the worker's
/// network, for a peer that is there and not direct, over a relay that carries
/// it, by its registered worker that nobody cancelled.
pub proof fn law_beat_starts(gates: HeartbeatGates, generation: u64, target_count: usize)
    ensures
        owner_gate(gates) <==> !gates.cancelled && gates.peer_exists && !gates.direct
            && gates.available && gates.owner_valid,
        HeartbeatBeat::starts(gates, generation, target_count) <==> target_count > 0
            && gates.network_generation == generation && !gates.cancelled && gates.peer_exists
            && !gates.direct && gates.available && gates.owner_valid,
{
}

/// A beat that ends tells its target, what it sent and what it skipped.
pub proof fn law_beat_ends(
    beat: HeartbeatBeat,
    target: RelayBackoffHeartbeatTarget,
    reason: BeatReason,
    skipped: u32,
    sent: ProbeSendResult,
)
    requires
        beat.target == Some(target),
    ensures
        ({
            let n = beat.ended(reason, skipped, Some(sent));
            let r = n.record->0;
            &&& n.phase is Finished && n.record is Some && n.sent == Some(sent)
            &&& r.target == target && r.reason == reason && r.budget_skipped == skipped
            &&& r.packets_sent == sent.datagrams_sent
            &&& n.generation == beat.generation && n.target == beat.target
        }),
        ({
            let n = beat.ended(reason, skipped, None);
            let r = n.record->0;
            &&& n.phase is Finished && n.record is Some && n.sent is None
            &&& r.target == target && r.reason == reason && r.budget_skipped == skipped
            &&& r.packets_sent == 0
        }),
{
}

/// The report of a beat tells its one probe, or what was skipped, or nothing.
pub proof fn law_beat_report(beat: HeartbeatBeat)
    ensures
        ({
            let r = beat.spec_report();
            &&& beat.record is None ==> r == Punch::blank()
            &&& beat.record is Some && beat.sent is Some ==> {
                let s = beat.sent->0;
                &&& r.packets_sent == s.datagrams_sent
                &&& r.unique_target_endpoints == 1
                &&& r.first_send_at_ms == s.first_send_at_ms
                &&& r.per_socket_sent.len() == 1
                &&& r.per_socket_sent[0] == (s.socket_index, s.datagrams_sent as u32)
                &&& r.budget_skipped == 0
            }
            &&& beat.record is Some && beat.sent is None ==> r.budget_skipped
                == beat.record->0.budget_skipped && r.packets_sent == 0 && r.per_socket_sent.len()
                == 0 && r.unique_target_endpoints == 0
            &&& r.failure_kind is None && r.birthday is None
        }),
{
}

/// A beat is told as deferred where it was skipped, as failed where nothing
/// left, and as completed otherwise.
pub proof fn law_beat_stages(r: BeatRecord)
    ensures
        r.budget_skipped > 0 ==> r.stage_text() == "relay_backoff_heartbeat_beat_deferred"@,
        r.budget_skipped == 0 && r.packets_sent == 0 ==> r.stage_text()
            == "relay_backoff_heartbeat_send_error"@,
        r.budget_skipped == 0 && r.packets_sent > 0 ==> r.stage_text()
            == "relay_backoff_heartbeat_beat_completed"@,
{
}

} // verus!

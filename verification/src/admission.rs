//! Admission of what comes in and of what is sent in answer: replayed and
//! excessive punches, binding maintenance, and reverse checks.

use vstd::prelude::*;
use crate::net::SocketAddr;
use crate::pending::ProbeNonce;
use crate::table::{Table, TableKey};
use crate::window::{evict_earliest, saturating_since, WindowLog};

verus! {

#[derive(Clone, Copy, Debug, PartialEq, Eq, Structural)]
pub enum PunchPacketKind {
    Punch,
    Ack,
}

#[derive(Clone, Copy, Debug, PartialEq, Eq, Structural)]
pub enum AuthenticatedPunchAdmission {
    Accepted,
    Replay,
    RateLimited,
}

/// A peer and an endpoint that it sent from.
pub struct PunchSource {
    pub peer_id: String,
    pub source: SocketAddr,
}

impl TableKey for PunchSource {
    type Name = (Seq<char>, SocketAddr);

    open spec fn name(&self) -> (Seq<char>, SocketAddr) {
        (self.peer_id@, self.source)
    }

    fn same(&self, other: &Self) -> (r: bool) {
        self.peer_id == other.peer_id && self.source == other.source
    }
}

/// What makes a punch the same punch.
pub struct PunchIdentity {
    pub peer_id: String,
    pub generation: u64,
    pub nonce: ProbeNonce,
    pub kind: PunchPacketKind,
}

/// What a [`PunchIdentity`] stands for.
pub struct Punched {
    pub peer: Seq<char>,
    pub generation: u64,
    pub nonce: u128,
    pub kind: PunchPacketKind,
}

impl TableKey for PunchIdentity {
    type Name = Punched;

    open spec fn name(&self) -> Punched {
        Punched {
            peer: self.peer_id@,
            generation: self.generation,
            nonce: self.nonce,
            kind: self.kind,
        }
    }

    fn same(&self, other: &Self) -> (r: bool) {
        self.peer_id == other.peer_id && self.generation == other.generation && self.nonce
            == other.nonce && self.kind == other.kind
    }
}

#[derive(Clone, Copy, Debug, PartialEq, Eq, Structural)]
pub struct AuthenticatedPunchLimits {
    pub rate_window: u64,
    pub rate_limit_per_source: usize,
    pub replay_window: u64,
    pub replay_max_entries: usize,
    /// What is left once the table of replays overflowed.
    pub replay_target_entries: usize,
}

/// What was recently seen of authenticated punches.
pub struct AuthenticatedPunchGate {
    pub limits: AuthenticatedPunchLimits,
    pub rate: WindowLog<PunchSource>,
    pub replay: Table<PunchIdentity, u64>,
}

impl AuthenticatedPunchGate {
    /// No source exceeds its rate.
    pub open spec fn wf(&self) -> bool {
        &&& self.rate.wf()
        &&& self.replay.wf()
        &&& forall|k: (Seq<char>, SocketAddr)| #[trigger]
            self.rate.log(k).len() <= self.limits.rate_limit_per_source
    }

    /// The punches of a source that count at `now`.
    pub open spec fn live_rate(&self, k: (Seq<char>, SocketAddr), now: u64) -> Seq<u64> {
        crate::window::live(self.rate.log(k), now, self.limits.rate_window)
    }

    /// The punches that would be taken for replays at `now`.
    pub open spec fn live_replay(&self, now: u64) -> Map<Punched, u64> {
        crate::table::kept(
            self.replay@,
            |_p: Punched, seen_at: u64|
                crate::window::elapsed(now, seen_at) < self.limits.replay_window,
        )
    }

    /// What is decided about a punch.
    pub open spec fn verdict(
        &self,
        punch: Punched,
        source: SocketAddr,
        now: u64,
    ) -> AuthenticatedPunchAdmission {
        if self.live_rate((punch.peer, source), now).len() >= self.limits.rate_limit_per_source {
            AuthenticatedPunchAdmission::RateLimited
        } else if self.live_replay(now).dom().contains(punch) {
            AuthenticatedPunchAdmission::Replay
        } else {
            AuthenticatedPunchAdmission::Accepted
        }
    }

    /// Whether `after` is what a decision about a punch leaves. A punch counts
    /// against the rate of its source unless the rate refuses it, and an
    /// accepted one is remembered; where too many are remembered the earliest
    /// go.
    pub open spec fn admitted_to(
        &self,
        after: AuthenticatedPunchGate,
        punch: Punched,
        source: SocketAddr,
        now: u64,
    ) -> bool {
        let verdict = self.verdict(punch, source, now);
        let remembered = self.live_replay(now).insert(punch, now);
        let target = self.limits.replay_target_entries as int;
        &&& after.limits == self.limits
        &&& forall|k: (Seq<char>, SocketAddr)| #[trigger]
            after.rate.log(k) == if k == (punch.peer, source) && !(verdict is RateLimited) {
                self.live_rate(k, now).push(now)
            } else {
                self.live_rate(k, now)
            }
        &&& match verdict {
            AuthenticatedPunchAdmission::RateLimited => after.replay@ == self.replay@,
            AuthenticatedPunchAdmission::Replay => after.replay@ == self.live_replay(now),
            AuthenticatedPunchAdmission::Accepted => {
                &&& remembered.dom().finite()
                &&& if remembered.dom().len() <= self.limits.replay_max_entries {
                    after.replay@ == remembered
                } else {
                    crate::window::without_earliest(
                        remembered,
                        after.replay@,
                        if remembered.dom().len() >= target {
                            (remembered.dom().len() - target) as nat
                        } else {
                            0
                        },
                    )
                }
            },
        }
    }

    pub fn new(limits: AuthenticatedPunchLimits) -> (gate: Self)
        ensures
            gate.wf(),
            gate.limits == limits,
            gate.replay@ == Map::<Punched, u64>::empty(),
            forall|k: (Seq<char>, SocketAddr)| #[trigger]
                gate.rate.log(k) == Seq::<u64>::empty(),
    {
        AuthenticatedPunchGate { limits, rate: WindowLog::new(), replay: Table::new() }
    }

    /// Admits a punch whose authentication was verified. A punch counts
    /// against the rate of its source unless the rate refuses it; an accepted
    /// one is remembered. Once too many are remembered the earliest go.
    pub fn admit_authenticated_punch(
        &mut self,
        peer_id: &str,
        generation: u64,
        kind: PunchPacketKind,
        nonce: ProbeNonce,
        source: SocketAddr,
        now: u64,
    ) -> (admission: AuthenticatedPunchAdmission)
        requires
            old(self).wf(),
        ensures
            final(self).wf(),
            admission == old(self).verdict(
                Punched { peer: peer_id@, generation, nonce, kind },
                source,
                now,
            ),
            old(self).admitted_to(
                *final(self),
                Punched { peer: peer_id@, generation, nonce, kind },
                source,
                now,
            ),
    {
        let limits: AuthenticatedPunchLimits = self.limits;
        let window_of = |_k: &PunchSource| -> (r: u64)
            ensures
                r == limits.rate_window,
        {
            limits.rate_window
        };
        self.rate.prune(
            now,
            window_of,
            Ghost(|_k: (Seq<char>, SocketAddr)| limits.rate_window),
        );
        proof {
            assert forall|k: (Seq<char>, SocketAddr)| #[trigger]
                self.rate.log(k).len() <= limits.rate_limit_per_source by {
                crate::window::lemma_live_len(old(self).rate.log(k), now, limits.rate_window);
            }
        }
        let key = PunchSource { peer_id: peer_id.to_owned(), source };
        if self.rate.count(&key) >= limits.rate_limit_per_source {
            return AuthenticatedPunchAdmission::RateLimited;
        }
        self.rate.record(key, now);
        let recent = |_p: &PunchIdentity, seen_at: &u64| -> (r: bool)
            ensures
                r == (crate::window::elapsed(now, *seen_at) < limits.replay_window),
        {
            saturating_since(now, *seen_at) < limits.replay_window
        };
        self.replay.retain(
            recent,
            Ghost(
                |_p: Punched, seen_at: u64|
                    crate::window::elapsed(now, seen_at) < limits.replay_window,
            ),
        );
        assert(self.replay@ =~= old(self).live_replay(now));
        let identity = PunchIdentity { peer_id: peer_id.to_owned(), generation, nonce, kind };
        if self.replay.contains(&identity) {
            return AuthenticatedPunchAdmission::Replay;
        }
        let _ = self.replay.insert(identity, now);
        let count: usize = self.replay.len();
        if count > limits.replay_max_entries {
            evict_earliest(
                &mut self.replay,
                count.saturating_sub(limits.replay_target_entries),
            );
        }
        AuthenticatedPunchAdmission::Accepted
    }

    /// Forgets an accepted punch whose adoption failed, so that its repetition
    /// is no replay.
    pub fn rollback_authenticated_punch_replay_admission(
        &mut self,
        peer_id: &str,
        generation: u64,
        kind: PunchPacketKind,
        nonce: ProbeNonce,
    )
        requires
            old(self).wf(),
        ensures
            final(self).wf(),
            final(self).limits == old(self).limits,
            final(self).rate == old(self).rate,
            final(self).replay@ == old(self).replay@.remove(
                Punched { peer: peer_id@, generation, nonce, kind },
            ),
    {
        let identity = PunchIdentity { peer_id: peer_id.to_owned(), generation, nonce, kind };
        let _ = self.replay.remove(&identity);
    }
}

/// A punch that is still remembered is not accepted again.
pub proof fn law_remembered_punch_is_not_accepted(
    gate: AuthenticatedPunchGate,
    punch: Punched,
    source: SocketAddr,
    now: u64,
)
    requires
        gate.replay@.dom().contains(punch),
        crate::window::elapsed(now, gate.replay@[punch]) < gate.limits.replay_window,
    ensures
        !(gate.verdict(punch, source, now) is Accepted),
{
}

/// A punch is accepted once: as long as the table of replays did not overflow,
/// its repetition within the replay window is not, whatever its source.
pub proof fn law_punch_is_accepted_once(
    gate: AuthenticatedPunchGate,
    after: AuthenticatedPunchGate,
    punch: Punched,
    source: SocketAddr,
    now: u64,
    other_source: SocketAddr,
    later: u64,
)
    requires
        gate.verdict(punch, source, now) is Accepted,
        gate.admitted_to(after, punch, source, now),
        gate.live_replay(now).insert(punch, now).dom().len() <= gate.limits.replay_max_entries,
        crate::window::elapsed(later, now) < gate.limits.replay_window,
    ensures
        !(after.verdict(punch, other_source, later) is Accepted),
{
    law_remembered_punch_is_not_accepted(after, punch, other_source, later);
}

/// Rolling an accepted punch back makes room for its repetition: it is
/// accepted unless its source exceeds the rate.
pub proof fn law_rolled_back_punch_is_no_replay(
    gate: AuthenticatedPunchGate,
    after: AuthenticatedPunchGate,
    punch: Punched,
    source: SocketAddr,
    now: u64,
)
    requires
        after.limits == gate.limits,
        after.replay@ == gate.replay@.remove(punch),
    ensures
        !(after.verdict(punch, source, now) is Replay),
{
}

/// A peer and one of its local sockets.
pub struct PeerSocket {
    pub peer_id: String,
    pub socket_index: usize,
}

impl TableKey for PeerSocket {
    type Name = (Seq<char>, usize);

    open spec fn name(&self) -> (Seq<char>, usize) {
        (self.peer_id@, self.socket_index)
    }

    fn same(&self, other: &Self) -> (r: bool) {
        self.peer_id == other.peer_id && self.socket_index == other.socket_index
    }
}

/// The small budget of binding maintenance. It is not part of the traversal
/// budgets: keeping bindings warm is no traversal.
pub struct NatMaintainerBudget {
    pub window: u64,
    pub per_peer_socket: usize,
    pub sent: WindowLog<PeerSocket>,
}

impl NatMaintainerBudget {
    pub open spec fn wf(&self) -> bool {
        &&& self.sent.wf()
        &&& forall|k: (Seq<char>, usize)| #[trigger]
            self.sent.log(k).len() <= self.per_peer_socket
    }

    pub open spec fn live(&self, k: (Seq<char>, usize), now: u64) -> Seq<u64> {
        crate::window::live(self.sent.log(k), now, self.window)
    }

    pub fn new(window: u64, per_peer_socket: usize) -> (budget: Self)
        ensures
            budget.wf(),
            budget.window == window,
            budget.per_peer_socket == per_peer_socket,
            forall|k: (Seq<char>, usize)| #[trigger] budget.sent.log(k) == Seq::<u64>::empty(),
    {
        NatMaintainerBudget { window, per_peer_socket, sent: WindowLog::new() }
    }

    /// Admits one maintenance probe. A skipped beat repeats at the next
    /// interval.
    pub fn admit_nat_maintainer_probe(&mut self, peer_id: &str, socket_index: usize, now: u64) -> (
    admitted: bool)
        requires
            old(self).wf(),
        ensures
            final(self).wf(),
            final(self).window == old(self).window,
            final(self).per_peer_socket == old(self).per_peer_socket,
            admitted == (old(self).live((peer_id@, socket_index), now).len()
                < old(self).per_peer_socket),
            forall|k: (Seq<char>, usize)| #[trigger]
                final(self).sent.log(k) == if admitted && k == (peer_id@, socket_index) {
                    old(self).live(k, now).push(now)
                } else {
                    old(self).live(k, now)
                },
    {
        let window: u64 = self.window;
        let window_of = |_k: &PeerSocket| -> (r: u64)
            ensures
                r == window,
        {
            window
        };
        self.sent.prune(now, window_of, Ghost(|_k: (Seq<char>, usize)| window));
        proof {
            assert forall|k: (Seq<char>, usize)| #[trigger]
                self.sent.log(k).len() <= self.per_peer_socket by {
                crate::window::lemma_live_len(old(self).sent.log(k), now, window);
            }
        }
        let key = PeerSocket { peer_id: peer_id.to_owned(), socket_index };
        if self.sent.count(&key) >= self.per_peer_socket {
            return false;
        }
        self.sent.record(key, now);
        true
    }
}

/// A peer's reverse connectivity check.
#[derive(Clone, Copy, Debug, PartialEq, Eq, Structural)]
pub struct TriggeredCheckRecord {
    pub latest_endpoint: SocketAddr,
    pub last_sent_at: u64,
    pub in_flight: bool,
}

/// The reverse checks under way and those that cool down.
pub struct TriggeredChecks {
    pub cooldown: u64,
    pub checks: Table<String, TriggeredCheckRecord>,
}

impl TriggeredChecks {
    pub open spec fn wf(&self) -> bool {
        self.checks.wf()
    }

    /// The checks that still hold a peer back at `now`.
    pub open spec fn holding(&self, now: u64) -> Map<Seq<char>, TriggeredCheckRecord> {
        crate::table::kept(
            self.checks@,
            |_p: Seq<char>, r: TriggeredCheckRecord|
                r.in_flight || crate::window::elapsed(now, r.last_sent_at) < self.cooldown,
        )
    }

    /// Whether a check for the peer may start at `now`: none holds it back,
    /// and the clock has run for at least one cooldown.
    pub open spec fn admits(&self, peer: Seq<char>, now: u64) -> bool {
        !self.holding(now).dom().contains(peer) && now >= self.cooldown
    }

    /// The checks after an endpoint of the peer was observed.
    pub open spec fn checked(&self, peer: Seq<char>, endpoint: SocketAddr, now: u64) -> Map<
        Seq<char>,
        TriggeredCheckRecord,
    > {
        let holding = self.holding(now);
        let record = if holding.dom().contains(peer) {
            TriggeredCheckRecord { latest_endpoint: endpoint, ..holding[peer] }
        } else if self.admits(peer, now) {
            TriggeredCheckRecord {
                latest_endpoint: endpoint,
                last_sent_at: (now - self.cooldown) as u64,
                in_flight: true,
            }
        } else {
            TriggeredCheckRecord {
                latest_endpoint: endpoint,
                last_sent_at: now,
                in_flight: false,
            }
        };
        holding.insert(peer, record)
    }

    /// The checks after the one of the peer was sent.
    pub open spec fn completed(&self, peer: Seq<char>, sent_at: u64) -> Map<
        Seq<char>,
        TriggeredCheckRecord,
    > {
        if self.checks@.dom().contains(peer) {
            self.checks@.insert(
                peer,
                TriggeredCheckRecord {
                    in_flight: false,
                    last_sent_at: sent_at,
                    ..self.checks@[peer]
                },
            )
        } else {
            self.checks@
        }
    }

    pub fn new(cooldown: u64) -> (r: Self)
        ensures
            r.wf(),
            r.cooldown == cooldown,
            r.checks@ == Map::<Seq<char>, TriggeredCheckRecord>::empty(),
    {
        TriggeredChecks { cooldown, checks: Table::new() }
    }

    /// Admits one reverse check for a peer. Another endpoint or socket updates
    /// the one record of the peer, but neither adds a check nor shortens the
    /// cooldown.
    pub fn admit_triggered_check(
        &mut self,
        peer_id: &str,
        observed_endpoint: SocketAddr,
        now: u64,
    ) -> (endpoint: Option<SocketAddr>)
        requires
            old(self).wf(),
        ensures
            final(self).wf(),
            final(self).cooldown == old(self).cooldown,
            endpoint == if old(self).admits(peer_id@, now) {
                Some(observed_endpoint)
            } else {
                None
            },
            final(self).checks@ == old(self).checked(peer_id@, observed_endpoint, now),
    {
        let cooldown: u64 = self.cooldown;
        let holds = |_p: &String, r: &TriggeredCheckRecord| -> (b: bool)
            ensures
                b == (r.in_flight || crate::window::elapsed(now, r.last_sent_at) < cooldown),
        {
            r.in_flight || saturating_since(now, r.last_sent_at) < cooldown
        };
        self.checks.retain(
            holds,
            Ghost(
                |_p: Seq<char>, r: TriggeredCheckRecord|
                    r.in_flight || crate::window::elapsed(now, r.last_sent_at) < cooldown,
            ),
        );
        assert(self.checks@ =~= old(self).holding(now));
        let peer: String = peer_id.to_owned();
        let mut record: TriggeredCheckRecord = match self.checks.get(&peer) {
            Some(record) => *record,
            None => TriggeredCheckRecord {
                latest_endpoint: observed_endpoint,
                last_sent_at: if now >= cooldown {
                    now - cooldown
                } else {
                    now
                },
                in_flight: false,
            },
        };
        record.latest_endpoint = observed_endpoint;
        let refused: bool = record.in_flight || saturating_since(now, record.last_sent_at)
            < cooldown;
        if !refused {
            record.in_flight = true;
        }
        let _ = self.checks.insert(peer, record);
        if refused {
            None
        } else {
            Some(observed_endpoint)
        }
    }

    /// Ends a check. The record stays until it cooled down, with the newest
    /// endpoint seen meanwhile.
    pub fn complete_triggered_check(&mut self, peer_id: &str, sent_at: u64)
        requires
            old(self).wf(),
        ensures
            final(self).wf(),
            final(self).cooldown == old(self).cooldown,
            final(self).checks@ == old(self).completed(peer_id@, sent_at),
    {
        if let Some(record) = self.checks.get_mut(&peer_id.to_owned()) {
            record.in_flight = false;
            record.last_sent_at = sent_at;
        }
    }
}

/// A peer has one check at a time: after one was admitted no other is, until
/// that one was sent and its cooldown is over, whatever the endpoint.
pub proof fn law_one_check_per_peer(
    checks: TriggeredChecks,
    started: TriggeredChecks,
    done: TriggeredChecks,
    peer: Seq<char>,
    endpoint: SocketAddr,
    now: u64,
    sent_at: u64,
    later: u64,
)
    requires
        checks.admits(peer, now),
        started.cooldown == checks.cooldown,
        started.checks@ == checks.checked(peer, endpoint, now),
        done.cooldown == checks.cooldown,
        done.checks@ == started.completed(peer, sent_at),
    ensures
        !started.admits(peer, later),
        crate::window::elapsed(later, sent_at) < checks.cooldown ==> !done.admits(peer, later),
        crate::window::elapsed(later, sent_at) >= checks.cooldown && later >= checks.cooldown
            ==> done.admits(peer, later),
{
}

/// What was observed while a check was under way is not lost: the newest
/// endpoint stands in the record.
pub proof fn law_newest_endpoint_is_kept(
    checks: TriggeredChecks,
    peer: Seq<char>,
    endpoint: SocketAddr,
    now: u64,
)
    ensures
        checks.checked(peer, endpoint, now).dom().contains(peer),
        checks.checked(peer, endpoint, now)[peer].latest_endpoint == endpoint,
{
}

/// A punch is refused for its rate exactly where its source has as many live
/// entries as are allowed, a replay exactly where it was seen within the
/// window, and accepted otherwise.
pub proof fn law_admission_verdict(
    gate: AuthenticatedPunchGate,
    punch: Punched,
    source: SocketAddr,
    now: u64,
)
    ensures
        ({
            let recent = crate::window::live(
                gate.rate.log((punch.peer, source)),
                now,
                gate.limits.rate_window,
            ).len();
            let full = recent >= gate.limits.rate_limit_per_source;
            let seen = gate.replay@.dom().contains(punch) && gate.limits.replay_window > 0 && now
                - gate.replay@[punch] < gate.limits.replay_window;
            &&& full <==> gate.verdict(punch, source, now) is RateLimited
            &&& !full && seen <==> gate.verdict(punch, source, now) is Replay
            &&& !full && !seen <==> gate.verdict(punch, source, now) is Accepted
        }),
{
}

/// What an admission leaves behind: one more entry of its source unless that
/// one is over its rate, none of any other; an accepted punch is remembered
/// with its time, and the live ones with theirs, unless there are too many.
pub proof fn law_admission_books(
    gate: AuthenticatedPunchGate,
    after: AuthenticatedPunchGate,
    punch: Punched,
    source: SocketAddr,
    now: u64,
    key: (Seq<char>, SocketAddr),
    other: Punched,
)
    requires
        gate.admitted_to(after, punch, source, now),
        key != (punch.peer, source),
        other != punch,
    ensures
        after.limits == gate.limits,
        after.rate.log(key) == crate::window::live(
            gate.rate.log(key),
            now,
            gate.limits.rate_window,
        ),
        ({
            let before = crate::window::live(
                gate.rate.log((punch.peer, source)),
                now,
                gate.limits.rate_window,
            );
            let kept = after.rate.log((punch.peer, source));
            if gate.verdict(punch, source, now) is RateLimited {
                kept == before
            } else {
                kept == before.push(now)
            }
        }),
        gate.verdict(punch, source, now) is RateLimited ==> after.replay@ == gate.replay@,
        gate.verdict(punch, source, now) is Replay ==> after.replay@.dom().contains(punch)
            && after.replay@[punch] == gate.replay@[punch],
        gate.verdict(punch, source, now) is Accepted && gate.live_replay(now).insert(
            punch,
            now,
        ).dom().len() <= gate.limits.replay_max_entries ==> after.replay@.dom().contains(punch)
            && after.replay@[punch] == now && (after.replay@.dom().contains(other)
            <==> gate.replay@.dom().contains(other) && gate.limits.replay_window > 0 && now
            - gate.replay@[other] < gate.limits.replay_window),
        after.replay@.dom().contains(other) ==> gate.replay@.dom().contains(other)
            && after.replay@[other] == gate.replay@[other],
{
}

/// A table of replays that overflows is cut to its target, the earliest first.
pub proof fn law_overflowing_replays_are_cut(
    gate: AuthenticatedPunchGate,
    after: AuthenticatedPunchGate,
    punch: Punched,
    source: SocketAddr,
    now: u64,
)
    requires
        gate.admitted_to(after, punch, source, now),
        gate.verdict(punch, source, now) is Accepted,
        gate.live_replay(now).insert(punch, now).dom().len() > gate.limits.replay_max_entries,
        gate.limits.replay_target_entries <= gate.limits.replay_max_entries,
    ensures
        after.replay@.dom().len() == gate.limits.replay_target_entries,
        forall|gone: Punched, stays: Punched|
            #![trigger gate.replay@[gone], after.replay@[stays]]
            gate.live_replay(now).dom().contains(gone) && !after.replay@.dom().contains(gone)
                && after.replay@.dom().contains(stays) && gone != punch && stays != punch
                ==> gate.replay@[gone] <= gate.replay@[stays],
{
    let remembered = gate.live_replay(now).insert(punch, now);
    assert forall|gone: Punched, stays: Punched|
        #![trigger gate.replay@[gone], after.replay@[stays]]
        gate.live_replay(now).dom().contains(gone) && !after.replay@.dom().contains(gone)
            && after.replay@.dom().contains(stays) && gone != punch && stays
            != punch implies gate.replay@[gone] <= gate.replay@[stays] by {
        assert(remembered.dom().contains(gone));
        assert(remembered.dom().contains(stays));
    }
}

/// The rate and the budget of a key count its live entries.
pub proof fn law_live_counts(
    gate: AuthenticatedPunchGate,
    budget: NatMaintainerBudget,
    source: (Seq<char>, SocketAddr),
    socket: (Seq<char>, usize),
    now: u64,
)
    ensures
        gate.live_rate(source, now) == crate::window::live(
            gate.rate.log(source),
            now,
            gate.limits.rate_window,
        ),
        budget.live(socket, now) == crate::window::live(budget.sent.log(socket), now, budget.window),
        gate.wf() ==> gate.rate.log(source).len() <= gate.limits.rate_limit_per_source,
        budget.wf() ==> budget.sent.log(socket).len() <= budget.per_peer_socket,
{
}

/// A check is admitted exactly where none of the peer is in flight and the last
/// one is as old as the cooldown.
pub proof fn law_check_admission(checks: TriggeredChecks, peer: Seq<char>, now: u64)
    ensures
        ({
            let known = checks.checks@.dom().contains(peer);
            let r = checks.checks@[peer];
            let held = known && (r.in_flight || (checks.cooldown > 0 && now - r.last_sent_at
                < checks.cooldown));
            &&& checks.holding(now).dom().contains(peer) <==> held
            &&& held ==> checks.holding(now)[peer] == r
            &&& checks.admits(peer, now) <==> !held && now >= checks.cooldown
        }),
{
}

/// What a check leaves behind: the newest endpoint in any case; an admitted one
/// is in flight; one that was held back changes nothing else.
pub proof fn law_check_books(
    checks: TriggeredChecks,
    peer: Seq<char>,
    endpoint: SocketAddr,
    now: u64,
    other: Seq<char>,
)
    requires
        other != peer,
    ensures
        ({
            let after = checks.checked(peer, endpoint, now);
            let held = checks.holding(now).dom().contains(peer);
            &&& after.dom().contains(peer)
            &&& after[peer].latest_endpoint == endpoint
            &&& held ==> after[peer].in_flight == checks.checks@[peer].in_flight
                && after[peer].last_sent_at == checks.checks@[peer].last_sent_at
            &&& checks.admits(peer, now) ==> after[peer].in_flight && after[peer].last_sent_at
                == now - checks.cooldown
            &&& !held && !checks.admits(peer, now) ==> !after[peer].in_flight
                && after[peer].last_sent_at == now
            &&& after.dom().contains(other) == checks.holding(now).dom().contains(other)
            &&& after.dom().contains(other) ==> after[other] == checks.checks@[other]
        }),
{
}

/// A completed check is no longer in flight and was sent when it was; where
/// there is none, and of any other peer, nothing changes.
pub proof fn law_completed_check(
    checks: TriggeredChecks,
    peer: Seq<char>,
    sent_at: u64,
    other: Seq<char>,
)
    requires
        other != peer,
    ensures
        ({
            let after = checks.completed(peer, sent_at);
            &&& after.dom().contains(peer) <==> checks.checks@.dom().contains(peer)
            &&& after.dom().contains(peer) ==> !after[peer].in_flight && after[peer].last_sent_at
                == sent_at && after[peer].latest_endpoint == checks.checks@[peer].latest_endpoint
            &&& after.dom().contains(other) == checks.checks@.dom().contains(other)
            &&& after.dom().contains(other) ==> after[other] == checks.checks@[other]
        }),
{
}

} // verus!

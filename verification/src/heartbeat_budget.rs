//! The low-priority, process-wide budget of relay-backed heartbeat probes.
//!
//! It is separate from the recovery-epoch credit: a frozen epoch must not
//! silence a heartbeat, and a heartbeat must not consume the foreground
//! traversal allowance. A send reserves its room before it waits for the
//! socket, so that concurrent workers cannot oversubscribe a limit, and
//! commits only the datagrams that left.

use vstd::prelude::*;
use crate::net::{IpAddr, SocketAddr};
use crate::table::{Table, TableKey};
use crate::window::{saturating_since, WindowLog};

verus! {

broadcast use vstd::string::group_string_axioms;

pub const RELAY_BACKOFF_HEARTBEAT_BUDGET_WINDOW: u64 = 60_000_000_000;

pub const RELAY_BACKOFF_HEARTBEAT_GLOBAL_PER_WINDOW: usize = 240;

pub const RELAY_BACKOFF_HEARTBEAT_PER_PEER_PER_WINDOW: usize = 24;

pub const RELAY_BACKOFF_HEARTBEAT_PER_REMOTE_IP_PER_WINDOW: usize = 120;

/// One normal heartbeat cadence.
pub const RELAY_BACKOFF_HEARTBEAT_SERVICE_SLOT: u64 = 3_000_000_000;

/// The window's packets spread over its cadences. The rotating roster only
/// matters above that peer count.
pub const RELAY_BACKOFF_HEARTBEAT_PEERS_PER_SERVICE_SLOT: usize = 12;

pub const RELAY_BACKOFF_HEARTBEAT_ACTIVE_PEER_RETENTION_SLOTS: u64 = 40;

/// What one heartbeat log counts.
pub enum RelayBackoffHeartbeatBudgetKey {
    Network,
    Peer(String),
    RemoteIp(IpAddr),
}

/// What a [`RelayBackoffHeartbeatBudgetKey`] stands for.
pub enum HeartbeatScope {
    Network,
    Peer(Seq<char>),
    RemoteIp(IpAddr),
}

impl HeartbeatScope {
    /// How many packets may be committed or reserved at a time.
    pub open spec fn limit(self) -> usize {
        match self {
            HeartbeatScope::Network => RELAY_BACKOFF_HEARTBEAT_GLOBAL_PER_WINDOW,
            HeartbeatScope::Peer(_) => RELAY_BACKOFF_HEARTBEAT_PER_PEER_PER_WINDOW,
            HeartbeatScope::RemoteIp(_) => RELAY_BACKOFF_HEARTBEAT_PER_REMOTE_IP_PER_WINDOW,
        }
    }

    /// Whether a heartbeat to `ip` of `peer` counts against this scope.
    pub open spec fn counts(self, peer: Seq<char>, ip: IpAddr) -> bool {
        match self {
            HeartbeatScope::Network => true,
            HeartbeatScope::Peer(p) => p == peer,
            HeartbeatScope::RemoteIp(i) => i == ip,
        }
    }
}

impl TableKey for RelayBackoffHeartbeatBudgetKey {
    type Name = HeartbeatScope;

    open spec fn name(&self) -> HeartbeatScope {
        match self {
            RelayBackoffHeartbeatBudgetKey::Network => HeartbeatScope::Network,
            RelayBackoffHeartbeatBudgetKey::Peer(p) => HeartbeatScope::Peer(p@),
            RelayBackoffHeartbeatBudgetKey::RemoteIp(ip) => HeartbeatScope::RemoteIp(*ip),
        }
    }

    fn same(&self, other: &Self) -> (r: bool) {
        match (self, other) {
            (
                RelayBackoffHeartbeatBudgetKey::Network,
                RelayBackoffHeartbeatBudgetKey::Network,
            ) => true,
            (
                RelayBackoffHeartbeatBudgetKey::Peer(a),
                RelayBackoffHeartbeatBudgetKey::Peer(b),
            ) => *a == *b,
            (
                RelayBackoffHeartbeatBudgetKey::RemoteIp(a),
                RelayBackoffHeartbeatBudgetKey::RemoteIp(b),
            ) => *a == *b,
            _ => false,
        }
    }
}

/// A peer together with a number: a service slot or a generation.
pub struct PeerNumber {
    pub peer_id: String,
    pub number: u64,
}

impl TableKey for PeerNumber {
    type Name = (Seq<char>, u64);

    open spec fn name(&self) -> (Seq<char>, u64) {
        (self.peer_id@, self.number)
    }

    fn same(&self, other: &Self) -> (r: bool) {
        self.peer_id == other.peer_id && self.number == other.number
    }
}

/// Room held by a send that has not yet reported its datagram count.
pub struct PendingReservation {
    peer_id: String,
    remote_ip: IpAddr,
    packet_capacity: usize,
    service_slot: u64,
}

/// What a pending reservation holds.
pub struct Reservation {
    pub peer: Seq<char>,
    pub remote_ip: IpAddr,
    pub capacity: nat,
    pub slot: u64,
}

impl PendingReservation {
    pub closed spec fn view(&self) -> Reservation {
        Reservation {
            peer: self.peer_id@,
            remote_ip: self.remote_ip,
            capacity: self.packet_capacity as nat,
            slot: self.service_slot,
        }
    }
}

/// A peer's use of one service slot.
#[derive(Clone, Copy, Debug, PartialEq, Eq, Structural)]
pub enum RelayBackoffHeartbeatServiceSlot {
    Reserved(u64),
    Committed,
}

/// A provisional allocation, to be settled by
/// [`RelayBackoffHeartbeatBudget::commit`] or
/// [`RelayBackoffHeartbeatBudget::release`].
pub struct RelayBackoffHeartbeatReservation {
    id: u64,
}

impl RelayBackoffHeartbeatReservation {
    pub closed spec fn spec_id(&self) -> u64 {
        self.id
    }

    pub fn id(&self) -> (id: u64)
        ensures
            id == self.spec_id(),
    {
        self.id
    }
}

#[derive(Clone, Copy, Debug, PartialEq, Eq, Structural)]
pub enum RelayBackoffHeartbeatReservationRejection {
    BudgetLimited,
    FairnessDeferred,
    ForegroundYield,
}

impl RelayBackoffHeartbeatReservationRejection {
    pub open spec fn text(self) -> Seq<char> {
        match self {
            Self::BudgetLimited => "relay_backoff_heartbeat_budget_limited"@,
            Self::FairnessDeferred => "relay_backoff_heartbeat_fairness_deferred"@,
            Self::ForegroundYield => "relay_backoff_heartbeat_foreground_reserved"@,
        }
    }

    pub fn reason(self) -> (r: &'static str)
        ensures
            r@ == self.text(),
    {
        match self {
            Self::BudgetLimited => "relay_backoff_heartbeat_budget_limited",
            Self::FairnessDeferred => "relay_backoff_heartbeat_fairness_deferred",
            Self::ForegroundYield => "relay_backoff_heartbeat_foreground_reserved",
        }
    }
}

#[derive(Clone, Copy, Debug, PartialEq, Eq, Structural)]
pub enum RelayBackoffHeartbeatTargetGroup {
    Priority,
    Predicted,
    Fallback,
}

impl RelayBackoffHeartbeatTargetGroup {
    pub open spec fn text(self) -> Seq<char> {
        match self {
            Self::Priority => "priority"@,
            Self::Predicted => "predicted"@,
            Self::Fallback => "fallback"@,
        }
    }

    pub fn label(self) -> (r: &'static str)
        ensures
            r@ == self.text(),
    {
        match self {
            Self::Priority => "priority",
            Self::Predicted => "predicted",
            Self::Fallback => "fallback",
        }
    }
}

/// An endpoint selected for exactly one heartbeat send. The endpoint group is
/// chosen before a local socket, so that candidates and sockets never
/// multiply.
#[derive(Clone, Copy, Debug, PartialEq, Eq, Structural)]
pub struct RelayBackoffHeartbeatTarget {
    pub endpoint: SocketAddr,
    pub socket_index: usize,
    pub group: RelayBackoffHeartbeatTargetGroup,
}

/// How far a peer's heartbeat has walked through its endpoint groups.
#[derive(Clone, Copy, Debug, PartialEq, Eq, Structural)]
pub struct RelayBackoffHeartbeatCursor {
    pub priority: usize,
    pub predicted: usize,
    pub fallback: usize,
    pub socket: usize,
    pub beat: u64,
}

/// One more, up to the largest value.
pub open spec fn bumped(n: usize) -> usize {
    if n < usize::MAX {
        (n + 1) as usize
    } else {
        n
    }
}

impl RelayBackoffHeartbeatCursor {
    pub open spec fn start() -> Self {
        RelayBackoffHeartbeatCursor { priority: 0, predicted: 0, fallback: 0, socket: 0, beat: 0 }
    }

    /// The group whose turn it is: of five beats the first is the priority
    /// group's, the last the fallback group's, and the others the predicted
    /// group's.
    pub open spec fn preferred(self) -> RelayBackoffHeartbeatTargetGroup {
        if self.beat % 5 == 0 {
            RelayBackoffHeartbeatTargetGroup::Priority
        } else if self.beat % 5 == 4 {
            RelayBackoffHeartbeatTargetGroup::Fallback
        } else {
            RelayBackoffHeartbeatTargetGroup::Predicted
        }
    }

    /// The group that is served: the preferred one, or the first that has an
    /// endpoint.
    pub open spec fn served(
        self,
        priority: Seq<SocketAddr>,
        predicted: Seq<SocketAddr>,
        fallback: Seq<SocketAddr>,
    ) -> RelayBackoffHeartbeatTargetGroup {
        let preferred = self.preferred();
        if endpoints_of(preferred, priority, predicted, fallback).len() > 0 {
            preferred
        } else if priority.len() > 0 {
            RelayBackoffHeartbeatTargetGroup::Priority
        } else if predicted.len() > 0 {
            RelayBackoffHeartbeatTargetGroup::Predicted
        } else {
            RelayBackoffHeartbeatTargetGroup::Fallback
        }
    }

    /// The position of this cursor in a group.
    pub open spec fn position(self, group: RelayBackoffHeartbeatTargetGroup) -> usize {
        match group {
            RelayBackoffHeartbeatTargetGroup::Priority => self.priority,
            RelayBackoffHeartbeatTargetGroup::Predicted => self.predicted,
            RelayBackoffHeartbeatTargetGroup::Fallback => self.fallback,
        }
    }

    /// The cursor after one beat that served `group`.
    pub open spec fn advanced(self, group: RelayBackoffHeartbeatTargetGroup) -> Self {
        RelayBackoffHeartbeatCursor {
            priority: if group == RelayBackoffHeartbeatTargetGroup::Priority {
                bumped(self.priority)
            } else {
                self.priority
            },
            predicted: if group == RelayBackoffHeartbeatTargetGroup::Predicted {
                bumped(self.predicted)
            } else {
                self.predicted
            },
            fallback: if group == RelayBackoffHeartbeatTargetGroup::Fallback {
                bumped(self.fallback)
            } else {
                self.fallback
            },
            socket: bumped(self.socket),
            beat: if self.beat < u64::MAX {
                (self.beat + 1) as u64
            } else {
                self.beat
            },
        }
    }
}

/// The cursors that stay once `peer` is in `generation`: its own of that
/// generation and all of other peers.
pub open spec fn only_generation(peer: Seq<char>, generation: u64) -> spec_fn(
    (Seq<char>, u64),
    RelayBackoffHeartbeatCursor,
) -> bool {
    |k: (Seq<char>, u64), _c: RelayBackoffHeartbeatCursor| k.0 != peer || k.1 == generation
}

pub open spec fn endpoints_of(
    group: RelayBackoffHeartbeatTargetGroup,
    priority: Seq<SocketAddr>,
    predicted: Seq<SocketAddr>,
    fallback: Seq<SocketAddr>,
) -> Seq<SocketAddr> {
    match group {
        RelayBackoffHeartbeatTargetGroup::Priority => priority,
        RelayBackoffHeartbeatTargetGroup::Predicted => predicted,
        RelayBackoffHeartbeatTargetGroup::Fallback => fallback,
    }
}

/// Byte-wise lexicographic order.
pub open spec fn bytes_below(a: Seq<u8>, b: Seq<u8>) -> bool
    decreases a.len(),
{
    if b.len() == 0 {
        false
    } else if a.len() == 0 {
        true
    } else if a[0] != b[0] {
        a[0] < b[0]
    } else {
        bytes_below(a.drop_first(), b.drop_first())
    }
}

/// The order of peer names.
pub open spec fn name_below(a: Seq<char>, b: Seq<char>) -> bool {
    bytes_below(vstd::utf8::encode_utf8(a), vstd::utf8::encode_utf8(b))
}

fn str_below(a: &str, b: &str) -> (r: bool)
    ensures
        r == name_below(a@, b@),
{
    let x: &[u8] = a.as_bytes();
    let y: &[u8] = b.as_bytes();
    let mut i: usize = 0;
    proof {
        assert(x@.skip(0) =~= x@);
        assert(y@.skip(0) =~= y@);
    }
    while i < x.len() && i < y.len() && x[i] == y[i]
        invariant
            i <= x@.len(),
            i <= y@.len(),
            x@ == vstd::utf8::encode_utf8(a@),
            y@ == vstd::utf8::encode_utf8(b@),
            bytes_below(x@.skip(i as int), y@.skip(i as int)) == name_below(a@, b@),
        decreases x@.len() - i,
    {
        proof {
            assert(x@.skip(i as int).drop_first() =~= x@.skip(i as int + 1));
            assert(y@.skip(i as int).drop_first() =~= y@.skip(i as int + 1));
        }
        i += 1;
    }
    if i >= y.len() {
        false
    } else if i >= x.len() {
        true
    } else {
        x[i] < y[i]
    }
}

/// How many of the names come before `peer`.
pub open spec fn rank(names: Set<Seq<char>>, peer: Seq<char>) -> nat {
    names.filter(|n: Seq<char>| name_below(n, peer)).len()
}

/// Whether the roster of a service slot has a place for `peer`: all of up to
/// twelve peers have one; of more, the twelve in name order from a start that
/// moves on by one with every slot.
pub open spec fn on_roster(names: Set<Seq<char>>, peer: Seq<char>, slot: u64) -> bool {
    names.len() <= RELAY_BACKOFF_HEARTBEAT_PEERS_PER_SERVICE_SLOT || exists|offset: int|
        0 <= offset < RELAY_BACKOFF_HEARTBEAT_PEERS_PER_SERVICE_SLOT && #[trigger] roster_place(
            names.len() as int,
            slot,
            offset,
        ) == rank(names, peer)
}

/// The rank that the given place of a slot's roster serves.
pub open spec fn roster_place(peers: int, slot: u64, offset: int) -> int {
    (slot as usize as int % peers + offset) % peers
}

fn rank_of(active: &Table<String, u64>, peer_id: &str) -> (r: usize)
    requires
        active.wf(),
    ensures
        r == rank(active@.dom(), peer_id@),
        r <= active@.dom().len(),
{
    let n: usize = active.len();
    let mut i: usize = 0;
    let mut below: usize = 0;
    let ghost mut seen: Set<Seq<char>> = Set::empty();
    proof {
        active.lemma_seq();
    }
    while i < n
        invariant
            active.wf(),
            n == active.seq().len(),
            i <= n,
            below <= i,
            seen.finite(),
            seen.len() == below,
            forall|k: Seq<char>| #[trigger]
                seen.contains(k) <==> exists|j: int|
                    0 <= j < i && (#[trigger] active.seq()[j]).0@ == k && name_below(k, peer_id@),
            forall|a: int, b: int|
                0 <= a < b < n ==> (#[trigger] active.seq()[a]).0@ != (#[trigger] active.seq()[b]).0@,
        decreases n - i,
    {
        let row = active.row(i);
        if str_below(row.0.as_str(), peer_id) {
            proof {
                let k = active.seq()[i as int].0@;
                assert(!seen.contains(k));
                let next = seen.insert(k);
                assert forall|m: Seq<char>| #[trigger]
                    next.contains(m) <==> exists|j: int|
                        0 <= j < i + 1 && (#[trigger] active.seq()[j]).0@ == m && name_below(
                            m,
                            peer_id@,
                        ) by {
                    if seen.contains(m) {
                        let j = choose|j: int|
                            0 <= j < i && (#[trigger] active.seq()[j]).0@ == m && name_below(
                                m,
                                peer_id@,
                            );
                        assert(active.seq()[j].0@ == m);
                    }
                    if m == k {
                        assert(active.seq()[i as int].0@ == m);
                    }
                }
                seen = next;
            }
            below += 1;
        }
        i += 1;
    }
    proof {
        active.lemma_seq();
        let filtered = active@.dom().filter(|k: Seq<char>| name_below(k, peer_id@));
        assert forall|k: Seq<char>| #[trigger] seen.contains(k) == filtered.contains(k) by {
            if seen.contains(k) {
                let j = choose|j: int|
                    0 <= j < n && (#[trigger] active.seq()[j]).0@ == k && name_below(k, peer_id@);
                assert(active@.dom().contains(active.seq()[j].0.name()));
            }
            if filtered.contains(k) {
                let j = choose|j: int|
                    0 <= j < active.seq().len() && (#[trigger] active.seq()[j]).0.name() == k;
                assert(active.seq()[j].0@ == k);
            }
        }
        assert(seen =~= filtered);
    }
    below
}

/// What a reservation holds of a scope.
pub open spec fn weight(r: Reservation, scope: HeartbeatScope) -> nat {
    if scope.counts(r.peer, r.remote_ip) {
        r.capacity
    } else {
        0
    }
}

/// What all reservations together hold of a scope.
pub open spec fn held(m: Map<u64, Reservation>, scope: HeartbeatScope) -> nat
    decreases m.dom().len(),
    when m.dom().finite()
{
    if m.dom().len() == 0 {
        0
    } else {
        let id = m.dom().choose();
        weight(m[id], scope) + held(m.remove(id), scope)
    }
}

proof fn lemma_held_remove(m: Map<u64, Reservation>, id: u64, scope: HeartbeatScope)
    requires
        m.dom().finite(),
        m.dom().contains(id),
    ensures
        held(m, scope) == weight(m[id], scope) + held(m.remove(id), scope),
    decreases m.dom().len(),
{
    let c = m.dom().choose();
    if c != id {
        lemma_held_remove(m.remove(c), id, scope);
        assert(m.remove(id).dom().contains(c));
        lemma_held_remove(m.remove(id), c, scope);
        assert(m.remove(c).remove(id) =~= m.remove(id).remove(c));
    }
}

proof fn lemma_held_insert(m: Map<u64, Reservation>, id: u64, r: Reservation, scope: HeartbeatScope)
    requires
        m.dom().finite(),
        !m.dom().contains(id),
    ensures
        held(m.insert(id, r), scope) == weight(r, scope) + held(m, scope),
{
    lemma_held_remove(m.insert(id, r), id, scope);
    assert(m.insert(id, r).remove(id) =~= m);
}

/// The budget and the scheduler of relay-backed heartbeats.
pub struct RelayBackoffHeartbeatBudget {
    /// Only packets that entered the send path.
    committed: WindowLog<RelayBackoffHeartbeatBudgetKey>,
    /// Room held by sends that are under way.
    reserved: Table<RelayBackoffHeartbeatBudgetKey, usize>,
    reservations: Table<u64, PendingReservation>,
    /// A peer gets at most one endpoint group in one service slot.
    service_slots: Table<PeerNumber, RelayBackoffHeartbeatServiceSlot>,
    active_peers: Table<String, u64>,
    cursors: Table<PeerNumber, RelayBackoffHeartbeatCursor>,
    service_epoch: u64,
    next_reservation_id: u64,
}

impl RelayBackoffHeartbeatBudget {
    /// The packets committed against a scope.
    pub closed spec fn committed(&self, scope: HeartbeatScope) -> Seq<u64> {
        self.committed.log(scope)
    }

    /// The room held against a scope.
    pub closed spec fn reserved(&self, scope: HeartbeatScope) -> nat {
        if self.reserved@.dom().contains(scope) {
            self.reserved@[scope] as nat
        } else {
            0
        }
    }

    /// The scopes that take up room for packets sent.
    pub closed spec fn committed_scopes(&self) -> Set<HeartbeatScope> {
        self.committed.keys()
    }

    /// The scopes that take up room for packets held.
    pub closed spec fn reserved_scopes(&self) -> Set<HeartbeatScope> {
        self.reserved@.dom()
    }

    /// The reservations that are not settled yet.
    pub closed spec fn reservations(&self) -> Map<u64, Reservation> {
        self.reservations@.map_values(|p: PendingReservation| p@)
    }

    pub closed spec fn service_slots(&self) -> Map<
        (Seq<char>, u64),
        RelayBackoffHeartbeatServiceSlot,
    > {
        self.service_slots@
    }

    /// The service slot in which each active peer was last seen.
    pub closed spec fn active_peers(&self) -> Map<Seq<char>, u64> {
        self.active_peers@
    }

    pub closed spec fn cursors(&self) -> Map<(Seq<char>, u64), RelayBackoffHeartbeatCursor> {
        self.cursors@
    }

    pub closed spec fn service_epoch(&self) -> u64 {
        self.service_epoch
    }

    pub closed spec fn next_reservation_id(&self) -> u64 {
        self.next_reservation_id
    }

    spec fn tables_wf(&self) -> bool {
        &&& self.committed.wf()
        &&& self.reserved.wf()
        &&& forall|scope: HeartbeatScope| #[trigger]
            self.reserved@.dom().contains(scope) ==> self.reserved@[scope] > 0
        &&& self.reservations.wf()
        &&& self.service_slots.wf()
        &&& self.active_peers.wf()
        &&& self.cursors.wf()
    }

    pub closed spec fn wf(&self) -> bool {
        &&& self.tables_wf()
        &&& self.sound()
    }

    /// An open reservation has the slot of its peer to itself.
    pub open spec fn marks(&self, id: u64) -> bool {
        let key = (self.reservations()[id].peer, self.reservations()[id].slot);
        &&& self.service_slots().dom().contains(key)
        &&& self.service_slots()[key] == RelayBackoffHeartbeatServiceSlot::Reserved(id)
    }

    /// What is held equals what the open reservations ask for, and together
    /// with what was sent it never exceeds a limit.
    pub open spec fn sound(&self) -> bool {
        &&& self.reservations().dom().finite()
        &&& forall|id: u64| #[trigger]
            self.reservations().dom().contains(id) ==> id < self.next_reservation_id()
        &&& forall|id: u64| #[trigger]
            self.reservations().dom().contains(id) ==> self.marks(id)
        &&& forall|scope: HeartbeatScope| #[trigger]
            self.reserved(scope) == held(self.reservations(), scope)
        &&& forall|scope: HeartbeatScope| #[trigger]
            self.committed(scope).len() + self.reserved(scope) <= scope.limit()
    }

    /// The service slot of a time.
    pub open spec fn slot_at(&self, now: u64) -> u64 {
        crate::window::elapsed(now, self.service_epoch()) / RELAY_BACKOFF_HEARTBEAT_SERVICE_SLOT
    }

    /// The packets committed against a scope that still count at `now`.
    pub open spec fn live_committed(&self, scope: HeartbeatScope, now: u64) -> Seq<u64> {
        crate::window::live(self.committed(scope), now, RELAY_BACKOFF_HEARTBEAT_BUDGET_WINDOW)
    }

    /// The peers that take part in the rotation once `peer` asks in `slot`.
    pub open spec fn active_with(&self, peer: Seq<char>, slot: u64) -> Map<Seq<char>, u64> {
        crate::table::kept(
            self.active_peers().insert(peer, slot),
            |_p: Seq<char>, last: u64|
                slot - last <= RELAY_BACKOFF_HEARTBEAT_ACTIVE_PEER_RETENTION_SLOTS,
        )
    }

    /// The slot entries that a request in `slot` leaves: those of the slot
    /// and those of sends under way.
    pub open spec fn slots_in(&self, slot: u64) -> Map<
        (Seq<char>, u64),
        RelayBackoffHeartbeatServiceSlot,
    > {
        crate::table::kept(
            self.service_slots(),
            |k: (Seq<char>, u64), v: RelayBackoffHeartbeatServiceSlot| k.1 == slot || v is Reserved,
        )
    }

    /// Whether a scope has no room for `capacity` more packets at `now`.
    pub open spec fn over(&self, scope: HeartbeatScope, capacity: usize, now: u64) -> bool {
        self.live_committed(scope, now).len() + self.reserved(scope) + capacity > scope.limit()
    }

    /// Why a request is refused, if it is.
    pub open spec fn refusal(
        &self,
        peer: Seq<char>,
        ip: IpAddr,
        capacity: usize,
        now: u64,
    ) -> Option<RelayBackoffHeartbeatReservationRejection> {
        let slot = self.slot_at(now);
        if capacity == 0 {
            Some(RelayBackoffHeartbeatReservationRejection::BudgetLimited)
        } else if self.slots_in(slot).dom().contains((peer, slot)) {
            Some(RelayBackoffHeartbeatReservationRejection::FairnessDeferred)
        } else if !on_roster(self.active_with(peer, slot).dom(), peer, slot) {
            Some(RelayBackoffHeartbeatReservationRejection::FairnessDeferred)
        } else if self.over(HeartbeatScope::Network, capacity, now) || self.over(
            HeartbeatScope::Peer(peer),
            capacity,
            now,
        ) || self.over(HeartbeatScope::RemoteIp(ip), capacity, now) {
            Some(RelayBackoffHeartbeatReservationRejection::BudgetLimited)
        } else {
            None
        }
    }

    pub fn new(service_epoch: u64) -> (budget: Self)
        ensures
            budget.wf(),
            forall|scope: HeartbeatScope| #[trigger]
                budget.committed(scope) == Seq::<u64>::empty(),
            forall|scope: HeartbeatScope| #[trigger] budget.reserved(scope) == 0,
            budget.reservations() == Map::<u64, Reservation>::empty(),
            budget.service_slots() == Map::<
                (Seq<char>, u64),
                RelayBackoffHeartbeatServiceSlot,
            >::empty(),
            budget.active_peers() == Map::<Seq<char>, u64>::empty(),
            budget.cursors() == Map::<(Seq<char>, u64), RelayBackoffHeartbeatCursor>::empty(),
            budget.service_epoch() == service_epoch,
            budget.next_reservation_id() == 1,
    {
        let budget = RelayBackoffHeartbeatBudget {
            committed: WindowLog::new(),
            reserved: Table::new(),
            reservations: Table::new(),
            service_slots: Table::new(),
            active_peers: Table::new(),
            cursors: Table::new(),
            service_epoch,
            next_reservation_id: 1,
        };
        assert(budget.reservations() =~= Map::<u64, Reservation>::empty());
        budget
    }

    /// The cursor of a peer in a generation.
    pub open spec fn cursor(&self, peer: Seq<char>, generation: u64) -> RelayBackoffHeartbeatCursor {
        if self.cursors().dom().contains((peer, generation)) {
            self.cursors()[(peer, generation)]
        } else {
            RelayBackoffHeartbeatCursor::start()
        }
    }

    /// What selecting a target does: there is none exactly where there is no
    /// socket or no endpoint; otherwise the cursor says which endpoint of
    /// which group and which socket it is, moves on, and stays the peer's only
    /// one.
    pub open spec fn beats_to(
        &self,
        next: &RelayBackoffHeartbeatBudget,
        target: Option<RelayBackoffHeartbeatTarget>,
        peer: Seq<char>,
        generation: u64,
        priority: Seq<SocketAddr>,
        predicted: Seq<SocketAddr>,
        fallback: Seq<SocketAddr>,
        socket_count: usize,
    ) -> bool {
        let cursor = self.cursor(peer, generation);
        let group = cursor.served(priority, predicted, fallback);
        let endpoints = endpoints_of(group, priority, predicted, fallback);
        &&& target is None <==> socket_count == 0 || (priority.len() == 0 && predicted.len() == 0
            && fallback.len() == 0)
        &&& target is None ==> next.cursors() == self.cursors()
        &&& target matches Some(t) ==> {
            &&& t.group == group
            &&& t.endpoint == endpoints[cursor.position(group) as int % endpoints.len() as int]
            &&& t.socket_index == cursor.socket as int % socket_count as int
            &&& next.cursors() == crate::table::kept(
                self.cursors(),
                only_generation(peer, generation),
            ).insert((peer, generation), cursor.advanced(group))
        }
    }

    /// `next` has the same cursors of `peer`.
    pub open spec fn same_cursors(
        &self,
        next: &RelayBackoffHeartbeatBudget,
        peer: Seq<char>,
    ) -> bool {
        forall|g: u64|
            #![trigger next.cursors().dom().contains((peer, g))]
            #![trigger self.cursors().dom().contains((peer, g))]
            {
                &&& next.cursors().dom().contains((peer, g)) <==> self.cursors().dom().contains(
                    (peer, g),
                )
                &&& self.cursors().dom().contains((peer, g)) ==> next.cursors()[(peer, g)]
                    == self.cursors()[(peer, g)]
            }
    }

    /// Selects exactly one endpoint group and one local socket for a beat.
    /// The cursor belongs to the peer and its generation, not to a worker, so
    /// that replacing a worker cannot restart a sweep.
    pub fn next_target(
        &mut self,
        peer_id: &str,
        generation: u64,
        priority: &[SocketAddr],
        predicted: &[SocketAddr],
        fallback: &[SocketAddr],
        socket_count: usize,
    ) -> (target: Option<RelayBackoffHeartbeatTarget>)
        requires
            old(self).wf(),
        ensures
            final(self).wf(),
            old(self).beats_to(
                final(self),
                target,
                peer_id@,
                generation,
                priority@,
                predicted@,
                fallback@,
                socket_count,
            ),
            target is None ==> *final(self) == *old(self),
            forall|scope: HeartbeatScope| #[trigger]
                final(self).committed(scope) == old(self).committed(scope),
            forall|scope: HeartbeatScope| #[trigger]
                final(self).reserved(scope) == old(self).reserved(scope),
            final(self).reservations() == old(self).reservations(),
            final(self).service_slots() == old(self).service_slots(),
            final(self).active_peers() == old(self).active_peers(),
            final(self).service_epoch() == old(self).service_epoch(),
            final(self).next_reservation_id() == old(self).next_reservation_id(),
    {
        if socket_count == 0 || (priority.len() == 0 && predicted.len() == 0 && fallback.len()
            == 0) {
            return None;
        }
        let peer: String = peer_id.to_owned();
        let keep = |k: &PeerNumber, _c: &RelayBackoffHeartbeatCursor| -> (r: bool)
            ensures
                r == (k.peer_id@ != peer_id@ || k.number == generation),
        {
            !(k.peer_id == peer) || k.number == generation
        };
        self.cursors.retain(
            keep,
            Ghost(only_generation(peer_id@, generation)),
        );
        let key = PeerNumber { peer_id: peer_id.to_owned(), number: generation };
        let cursor: RelayBackoffHeartbeatCursor = match self.cursors.get(&key) {
            Some(cursor) => *cursor,
            None => RelayBackoffHeartbeatCursor {
                priority: 0,
                predicted: 0,
                fallback: 0,
                socket: 0,
                beat: 0,
            },
        };
        let turn: u64 = cursor.beat % 5;
        let preferred = if turn == 0 {
            RelayBackoffHeartbeatTargetGroup::Priority
        } else if turn == 4 {
            RelayBackoffHeartbeatTargetGroup::Fallback
        } else {
            RelayBackoffHeartbeatTargetGroup::Predicted
        };
        let preferred_len: usize = match preferred {
            RelayBackoffHeartbeatTargetGroup::Priority => priority.len(),
            RelayBackoffHeartbeatTargetGroup::Predicted => predicted.len(),
            RelayBackoffHeartbeatTargetGroup::Fallback => fallback.len(),
        };
        let group = if preferred_len > 0 {
            preferred
        } else if priority.len() > 0 {
            RelayBackoffHeartbeatTargetGroup::Priority
        } else if predicted.len() > 0 {
            RelayBackoffHeartbeatTargetGroup::Predicted
        } else {
            RelayBackoffHeartbeatTargetGroup::Fallback
        };
        let mut next = cursor;
        next.beat = cursor.beat.saturating_add(1);
        let endpoint: SocketAddr = match group {
            RelayBackoffHeartbeatTargetGroup::Priority => {
                next.priority = cursor.priority.saturating_add(1);
                priority[cursor.priority % priority.len()]
            },
            RelayBackoffHeartbeatTargetGroup::Predicted => {
                next.predicted = cursor.predicted.saturating_add(1);
                predicted[cursor.predicted % predicted.len()]
            },
            RelayBackoffHeartbeatTargetGroup::Fallback => {
                next.fallback = cursor.fallback.saturating_add(1);
                fallback[cursor.fallback % fallback.len()]
            },
        };
        let socket_index: usize = cursor.socket % socket_count;
        next.socket = cursor.socket.saturating_add(1);
        let _ = self.cursors.insert(key, next);
        proof {
            assert(cursor == old(self).cursor(peer_id@, generation));
            assert(next == cursor.advanced(group));
            assert(self.cursors() =~= crate::table::kept(
                old(self).cursors(),
                only_generation(peer_id@, generation),
            ).insert((peer_id@, generation), cursor.advanced(group)));
        }
        assert forall|scope: HeartbeatScope| #[trigger]
            self.committed(scope) == old(self).committed(scope) by {}
        assert forall|scope: HeartbeatScope| #[trigger]
            self.reserved(scope) == old(self).reserved(scope) by {}
        Some(RelayBackoffHeartbeatTarget { endpoint, socket_index, group })
    }

    /// Everything but the logs, the slots and the roster is as before, and
    /// those have forgotten what no longer counts once `peer` asks at `now`.
    pub open spec fn aged_to(
        &self,
        next: &RelayBackoffHeartbeatBudget,
        peer: Seq<char>,
        now: u64,
    ) -> bool {
        &&& forall|scope: HeartbeatScope| #[trigger]
            next.committed(scope) == self.live_committed(scope, now)
        &&& forall|scope: HeartbeatScope| #[trigger] next.reserved(scope) == self.reserved(scope)
        &&& next.reservations() == self.reservations()
        &&& next.service_slots() == self.slots_in(self.slot_at(now))
        &&& next.active_peers() == self.active_with(peer, self.slot_at(now))
        &&& next.cursors() == self.cursors()
        &&& next.service_epoch() == self.service_epoch()
        &&& next.next_reservation_id() == self.next_reservation_id()
    }

    fn age(&mut self, peer_id: &str, now: u64) -> (slot: u64)
        requires
            old(self).wf(),
        ensures
            final(self).wf(),
            slot == old(self).slot_at(now),
            old(self).aged_to(final(self), peer_id@, now),
    {
        let window_of = |_k: &RelayBackoffHeartbeatBudgetKey| -> (r: u64)
            ensures
                r == RELAY_BACKOFF_HEARTBEAT_BUDGET_WINDOW,
        {
            RELAY_BACKOFF_HEARTBEAT_BUDGET_WINDOW
        };
        self.committed.prune(
            now,
            window_of,
            Ghost(|_s: HeartbeatScope| RELAY_BACKOFF_HEARTBEAT_BUDGET_WINDOW),
        );
        let slot: u64 = saturating_since(now, self.service_epoch)
            / RELAY_BACKOFF_HEARTBEAT_SERVICE_SLOT;
        let _ = self.active_peers.insert(peer_id.to_owned(), slot);
        let recent = |_p: &String, last: &u64| -> (r: bool)
            ensures
                r == (slot - *last <= RELAY_BACKOFF_HEARTBEAT_ACTIVE_PEER_RETENTION_SLOTS),
        {
            slot.saturating_sub(*last) <= RELAY_BACKOFF_HEARTBEAT_ACTIVE_PEER_RETENTION_SLOTS
        };
        self.active_peers.retain(
            recent,
            Ghost(
                |_p: Seq<char>, last: u64|
                    slot - last <= RELAY_BACKOFF_HEARTBEAT_ACTIVE_PEER_RETENTION_SLOTS,
            ),
        );
        let current = |k: &PeerNumber, v: &RelayBackoffHeartbeatServiceSlot| -> (r: bool)
            ensures
                r == (k.number == slot || *v is Reserved),
        {
            k.number == slot || matches!(v, RelayBackoffHeartbeatServiceSlot::Reserved(_))
        };
        self.service_slots.retain(
            current,
            Ghost(
                |k: (Seq<char>, u64), v: RelayBackoffHeartbeatServiceSlot|
                    k.1 == slot || v is Reserved,
            ),
        );
        proof {
            assert(self.reservations() =~= old(self).reservations());
            assert forall|scope: HeartbeatScope| #[trigger]
                self.reserved(scope) == old(self).reserved(scope) by {}
            assert forall|scope: HeartbeatScope| #[trigger]
                self.committed(scope) == old(self).live_committed(scope, now) by {
                assert(self.committed.log(scope) == crate::window::live(
                    old(self).committed.log(scope),
                    now,
                    RELAY_BACKOFF_HEARTBEAT_BUDGET_WINDOW,
                ));
            }
            assert forall|scope: HeartbeatScope| #[trigger]
                self.committed(scope).len() + self.reserved(scope) <= scope.limit() by {
                crate::window::lemma_live_len(
                    old(self).committed(scope),
                    now,
                    RELAY_BACKOFF_HEARTBEAT_BUDGET_WINDOW,
                );
                assert(old(self).committed(scope).len() + old(self).reserved(scope)
                    <= scope.limit());
            }
            assert(self.active_peers() =~= old(self).active_with(peer_id@, slot));
            assert(self.service_slots() =~= old(self).slots_in(slot));
        }
        slot
    }

    fn scheduled(&self, peer_id: &str, slot: u64) -> (r: bool)
        requires
            self.wf(),
        ensures
            r == on_roster(self.active_peers().dom(), peer_id@, slot),
    {
        let n: usize = self.active_peers.len();
        if n <= RELAY_BACKOFF_HEARTBEAT_PEERS_PER_SERVICE_SLOT {
            return true;
        }
        let own: usize = rank_of(&self.active_peers, peer_id);
        let start: usize = (slot as usize) % n;
        let mut offset: usize = 0;
        while offset < RELAY_BACKOFF_HEARTBEAT_PEERS_PER_SERVICE_SLOT
            invariant
                offset <= RELAY_BACKOFF_HEARTBEAT_PEERS_PER_SERVICE_SLOT,
                n == self.active_peers().dom().len(),
                n > RELAY_BACKOFF_HEARTBEAT_PEERS_PER_SERVICE_SLOT,
                start == slot as usize as int % n as int,
                start < n,
                own == rank(self.active_peers().dom(), peer_id@),
                forall|o: int|
                    0 <= o < offset ==> #[trigger] roster_place(n as int, slot, o) != own,
            decreases RELAY_BACKOFF_HEARTBEAT_PEERS_PER_SERVICE_SLOT - offset,
        {
            // Kept below `n` by subtraction, since the sum may not fit.
            let place: usize = if start < n - offset {
                start + offset
            } else {
                start - (n - offset)
            };
            proof {
                let sum = start as int + offset as int;
                assert(place == sum % n as int) by (nonlinear_arith)
                    requires
                        0 <= start < n,
                        0 <= offset < n,
                        sum == start as int + offset as int,
                        sum < n ==> place == sum,
                        sum >= n ==> place == sum - n,
                ;
                assert(roster_place(n as int, slot, offset as int) == place);
            }
            if place == own {
                return true;
            }
            offset += 1;
        }
        false
    }

    fn has_room(&self, key: &RelayBackoffHeartbeatBudgetKey, capacity: usize, limit: usize) -> (r:
        bool)
        requires
            self.wf(),
            limit == key.name().limit(),
        ensures
            r == (self.committed(key.name()).len() + self.reserved(key.name()) + capacity <= limit),
    {
        let held: usize = match self.reserved.get(key) {
            Some(held) => *held,
            None => 0,
        };
        let sent: usize = self.committed.count(key);
        assert(self.committed(key.name()).len() + self.reserved(key.name()) <= limit);
        sent.saturating_add(held).saturating_add(capacity) <= limit
    }

    fn hold(&mut self, key: RelayBackoffHeartbeatBudgetKey, capacity: usize)
        requires
            old(self).tables_wf(),
            capacity > 0,
            old(self).reserved(key.name()) + capacity <= usize::MAX,
        ensures
            final(self).tables_wf(),
            final(self).reserved(key.name()) == old(self).reserved(key.name()) + capacity,
            forall|scope: HeartbeatScope|
                scope != key.name() ==> #[trigger] final(self).reserved(scope) == old(self).reserved(scope),
            final(self).committed == old(self).committed,
            final(self).reservations == old(self).reservations,
            final(self).service_slots == old(self).service_slots,
            final(self).active_peers == old(self).active_peers,
            final(self).cursors == old(self).cursors,
            final(self).service_epoch == old(self).service_epoch,
            final(self).next_reservation_id == old(self).next_reservation_id,
    {
        let current: usize = match self.reserved.get(&key) {
            Some(held) => *held,
            None => 0,
        };
        let _ = self.reserved.insert(key, current + capacity);
    }

    /// Gives back `capacity` and records `sent` packets of it.
    fn settle_scope(
        &mut self,
        key: RelayBackoffHeartbeatBudgetKey,
        again: RelayBackoffHeartbeatBudgetKey,
        capacity: usize,
        sent: usize,
        now: u64,
    )
        requires
            old(self).tables_wf(),
            again.name() == key.name(),
            old(self).reserved(key.name()) >= capacity,
        ensures
            final(self).tables_wf(),
            final(self).reserved(key.name()) == old(self).reserved(key.name()) - capacity,
            forall|scope: HeartbeatScope|
                scope != key.name() ==> #[trigger] final(self).reserved(scope) == old(self).reserved(scope),
            final(self).committed(key.name()) == old(self).committed(key.name()) + Seq::new(
                sent as nat,
                |_i: int| now,
            ),
            forall|scope: HeartbeatScope|
                scope != key.name() ==> #[trigger] final(self).committed(scope) == old(self).committed(scope),
            final(self).reservations == old(self).reservations,
            final(self).service_slots == old(self).service_slots,
            final(self).active_peers == old(self).active_peers,
            final(self).cursors == old(self).cursors,
            final(self).service_epoch == old(self).service_epoch,
            final(self).next_reservation_id == old(self).next_reservation_id,
    {
        let current: usize = match self.reserved.get(&key) {
            Some(held) => *held,
            None => 0,
        };
        let remaining: usize = current.saturating_sub(capacity);
        if remaining == 0 {
            let _ = self.reserved.remove(&key);
        } else {
            let _ = self.reserved.insert(key, remaining);
        }
        let ghost name = again.name();
        let ghost after = *self;
        let mut n: usize = 0;
        assert(self.committed(name) =~= old(self).committed(name) + Seq::new(
            0nat,
            |_i: int| now,
        ));
        while n < sent
            invariant
                n <= sent,
                name == again.name(),
                self.committed.wf(),
                self.reserved == after.reserved,
                self.reservations == after.reservations,
                self.service_slots == after.service_slots,
                self.active_peers == after.active_peers,
                self.cursors == after.cursors,
                self.service_epoch == after.service_epoch,
                self.next_reservation_id == after.next_reservation_id,
                self.committed(name) == old(self).committed(name) + Seq::new(
                    n as nat,
                    |_i: int| now,
                ),
                forall|scope: HeartbeatScope|
                    scope != name ==> #[trigger] self.committed(scope) == old(self).committed(
                        scope,
                    ),
            decreases sent - n,
        {
            let ghost before = *self;
            let copy = match &again {
                RelayBackoffHeartbeatBudgetKey::Network => RelayBackoffHeartbeatBudgetKey::Network,
                RelayBackoffHeartbeatBudgetKey::Peer(p) => RelayBackoffHeartbeatBudgetKey::Peer(
                    p.clone(),
                ),
                RelayBackoffHeartbeatBudgetKey::RemoteIp(ip) =>
                    RelayBackoffHeartbeatBudgetKey::RemoteIp(*ip),
            };
            self.committed.record(copy, now);
            n += 1;
            assert(self.committed(name) =~= old(self).committed(name) + Seq::new(
                n as nat,
                |_i: int| now,
            ));
            assert forall|scope: HeartbeatScope|
                scope != name implies #[trigger] self.committed(scope) == old(self).committed(
                scope,
            ) by {
                assert(self.committed.log(scope) == before.committed(scope));
            }
        }
    }

    /// What granting a reservation does: the room is held under a fresh
    /// identifier and the peer's service slot is taken.
    pub open spec fn granted_to(
        &self,
        next: &RelayBackoffHeartbeatBudget,
        peer: Seq<char>,
        ip: IpAddr,
        capacity: usize,
        now: u64,
    ) -> bool {
        let slot = self.slot_at(now);
        let id = self.next_reservation_id();
        &&& next.next_reservation_id() == id + 1
        &&& next.reservations() == self.reservations().insert(
            id,
            Reservation { peer, remote_ip: ip, capacity: capacity as nat, slot },
        )
        &&& forall|scope: HeartbeatScope| #[trigger]
            next.reserved(scope) == self.reserved(scope) + if scope.counts(peer, ip) {
                capacity as nat
            } else {
                0
            }
        &&& forall|scope: HeartbeatScope| #[trigger]
            next.committed(scope) == self.live_committed(scope, now)
        &&& next.service_slots() == self.slots_in(slot).insert(
            (peer, slot),
            RelayBackoffHeartbeatServiceSlot::Reserved(id),
        )
        &&& next.active_peers() == self.active_with(peer, slot)
        &&& next.cursors() == self.cursors()
        &&& next.service_epoch() == self.service_epoch()
    }

    /// Nothing changed.
    pub open spec fn same_as(&self, next: &RelayBackoffHeartbeatBudget) -> bool {
        &&& forall|scope: HeartbeatScope| #[trigger] next.committed(scope) == self.committed(scope)
        &&& forall|scope: HeartbeatScope| #[trigger] next.reserved(scope) == self.reserved(scope)
        &&& next.reservations() == self.reservations()
        &&& next.service_slots() == self.service_slots()
        &&& next.active_peers() == self.active_peers()
        &&& next.cursors() == self.cursors()
        &&& next.service_epoch() == self.service_epoch()
        &&& next.next_reservation_id() == self.next_reservation_id()
    }

    /// Provisionally reserves room for one endpoint and socket. The send
    /// commits its exact datagram count afterwards; a send that failed or was
    /// cancelled releases the room and leaves no trace.
    #[verifier::rlimit(40)]
    pub fn reserve(
        &mut self,
        peer_id: &str,
        remote_ip: IpAddr,
        packet_capacity: usize,
        now: u64,
    ) -> (result: Result<
        RelayBackoffHeartbeatReservation,
        RelayBackoffHeartbeatReservationRejection,
    >)
        requires
            old(self).wf(),
            old(self).refusal(peer_id@, remote_ip, packet_capacity, now) is None ==> old(
                self,
            ).next_reservation_id() < u64::MAX,
        ensures
            final(self).wf(),
            match old(self).refusal(peer_id@, remote_ip, packet_capacity, now) {
                Some(rejection) => {
                    &&& result == Err::<
                        RelayBackoffHeartbeatReservation,
                        RelayBackoffHeartbeatReservationRejection,
                    >(rejection)
                    &&& packet_capacity == 0 ==> *final(self) == *old(self)
                    &&& packet_capacity != 0 ==> old(self).aged_to(final(self), peer_id@, now)
                },
                None => {
                    &&& result matches Ok(reservation) && reservation.spec_id() == old(self).next_reservation_id()
                    &&& old(self).granted_to(
                        final(self),
                        peer_id@,
                        remote_ip,
                        packet_capacity,
                        now,
                    )
                },
            },
    {
        if packet_capacity == 0 {
            return Err(RelayBackoffHeartbeatReservationRejection::BudgetLimited);
        }
        let slot: u64 = self.age(peer_id, now);
        let slot_key = PeerNumber { peer_id: peer_id.to_owned(), number: slot };
        if self.service_slots.contains(&slot_key) {
            return Err(RelayBackoffHeartbeatReservationRejection::FairnessDeferred);
        }
        if !self.scheduled(peer_id, slot) {
            return Err(RelayBackoffHeartbeatReservationRejection::FairnessDeferred);
        }
        let network_key = RelayBackoffHeartbeatBudgetKey::Network;
        let peer_key = RelayBackoffHeartbeatBudgetKey::Peer(peer_id.to_owned());
        let remote_ip_key = RelayBackoffHeartbeatBudgetKey::RemoteIp(remote_ip);
        if !self.has_room(
            &network_key,
            packet_capacity,
            RELAY_BACKOFF_HEARTBEAT_GLOBAL_PER_WINDOW,
        ) || !self.has_room(
            &peer_key,
            packet_capacity,
            RELAY_BACKOFF_HEARTBEAT_PER_PEER_PER_WINDOW,
        ) || !self.has_room(
            &remote_ip_key,
            packet_capacity,
            RELAY_BACKOFF_HEARTBEAT_PER_REMOTE_IP_PER_WINDOW,
        ) {
            return Err(RelayBackoffHeartbeatReservationRejection::BudgetLimited);
        }
        let ghost aged = *self;
        let id: u64 = self.next_reservation_id;
        self.next_reservation_id = id + 1;
        self.hold(network_key, packet_capacity);
        let ghost network_held = *self;
        self.hold(peer_key, packet_capacity);
        let ghost peer_held = *self;
        self.hold(remote_ip_key, packet_capacity);
        let ghost all_held = *self;
        let pending = PendingReservation {
            peer_id: peer_id.to_owned(),
            remote_ip,
            packet_capacity,
            service_slot: slot,
        };
        let ghost entry = pending@;
        let _ = self.reservations.insert(id, pending);
        let _ = self.service_slots.insert(
            slot_key,
            RelayBackoffHeartbeatServiceSlot::Reserved(id),
        );
        proof {
            assert(!aged.reservations().dom().contains(id));
            assert(self.reservations() =~= aged.reservations().insert(id, entry));
            assert forall|scope: HeartbeatScope| #[trigger]
                self.reserved(scope) == aged.reserved(scope) + weight(entry, scope) by {
                assert(self.reserved(scope) == all_held.reserved(scope));
                assert(all_held.reserved(scope) == peer_held.reserved(scope) + if scope
                    == HeartbeatScope::RemoteIp(remote_ip) {
                    packet_capacity as nat
                } else {
                    0
                });
                assert(peer_held.reserved(scope) == network_held.reserved(scope) + if scope
                    == HeartbeatScope::Peer(peer_id@) {
                    packet_capacity as nat
                } else {
                    0
                });
            }
            assert forall|scope: HeartbeatScope| #[trigger]
                self.committed(scope) == aged.committed(scope) by {}
            assert forall|scope: HeartbeatScope| #[trigger]
                self.reserved(scope) == held(self.reservations(), scope) by {
                lemma_held_insert(aged.reservations(), id, entry, scope);
                assert(aged.reserved(scope) == held(aged.reservations(), scope));
            }
            assert forall|scope: HeartbeatScope| #[trigger]
                self.committed(scope).len() + self.reserved(scope) <= scope.limit() by {
                assert(aged.committed(scope).len() + aged.reserved(scope) <= scope.limit());
                assert(self.committed(scope) == aged.committed(scope));
            }
        }
        Ok(RelayBackoffHeartbeatReservation { id })
    }

    /// What settling a reservation with `actual` packets does.
    pub open spec fn settled_to(
        &self,
        next: &RelayBackoffHeartbeatBudget,
        id: u64,
        actual: usize,
        now: u64,
    ) -> bool {
        let r = self.reservations()[id];
        let sent = if actual < r.capacity {
            actual as nat
        } else {
            r.capacity
        };
        let key = (r.peer, r.slot);
        &&& next.reservations() == self.reservations().remove(id)
        &&& forall|scope: HeartbeatScope| #[trigger]
            next.reserved(scope) == self.reserved(scope) - weight(r, scope)
        &&& forall|scope: HeartbeatScope| #[trigger]
            next.committed(scope) == if scope.counts(r.peer, r.remote_ip) {
                self.committed(scope) + Seq::new(sent, |_i: int| now)
            } else {
                self.committed(scope)
            }
        &&& next.service_slots() == if sent > 0 {
            self.service_slots().insert(key, RelayBackoffHeartbeatServiceSlot::Committed)
        } else if self.service_slots().dom().contains(key) && self.service_slots()[key]
            == RelayBackoffHeartbeatServiceSlot::Reserved(id) {
            self.service_slots().remove(key)
        } else {
            self.service_slots()
        }
        &&& next.active_peers() == self.active_peers()
        &&& next.cursors() == self.cursors()
        &&& next.service_epoch() == self.service_epoch()
        &&& next.next_reservation_id() == self.next_reservation_id()
    }

    /// Settles a reservation: its room is returned, and the packets that were
    /// sent, at most the reserved number, are committed. A reservation that
    /// is not open is ignored.
    #[verifier::rlimit(40)]
    pub fn finish_reservation(&mut self, id: u64, actual_packets: usize, now: u64)
        requires
            old(self).wf(),
        ensures
            final(self).wf(),
            old(self).reservations().dom().contains(id) ==> old(self).settled_to(
                final(self),
                id,
                actual_packets,
                now,
            ),
            !old(self).reservations().dom().contains(id) ==> old(self).same_as(final(self)),
    {
        let reservation = match self.reservations.remove(&id) {
            Some(reservation) => reservation,
            None => {
                assert(self.reservations() =~= old(self).reservations());
                assert forall|scope: HeartbeatScope| #[trigger]
                    self.committed(scope) == old(self).committed(scope) by {}
                assert forall|scope: HeartbeatScope| #[trigger]
                    self.reserved(scope) == old(self).reserved(scope) by {}
                assert forall|scope: HeartbeatScope| #[trigger]
                    self.committed(scope).len() + self.reserved(scope) <= scope.limit() by {
                    assert(old(self).committed(scope).len() + old(self).reserved(scope)
                        <= scope.limit());
                }
                return ;
            },
        };
        let capacity: usize = reservation.packet_capacity;
        let sent: usize = if actual_packets < capacity {
            actual_packets
        } else {
            capacity
        };
        let ghost entry = reservation@;
        proof {
            assert(self.reservations() =~= old(self).reservations().remove(id));
            assert forall|scope: HeartbeatScope| #[trigger]
                old(self).reserved(scope) == weight(entry, scope) + held(
                    self.reservations(),
                    scope,
                ) by {
                lemma_held_remove(old(self).reservations(), id, scope);
            }
            assert forall|scope: HeartbeatScope| #[trigger]
                self.reserved(scope) == old(self).reserved(scope) by {}
            assert forall|scope: HeartbeatScope| #[trigger]
                self.committed(scope) == old(self).committed(scope) by {}
        }
        let ghost opened = *self;
        self.settle_scope(
            RelayBackoffHeartbeatBudgetKey::Network,
            RelayBackoffHeartbeatBudgetKey::Network,
            capacity,
            sent,
            now,
        );
        self.settle_scope(
            RelayBackoffHeartbeatBudgetKey::Peer(reservation.peer_id.clone()),
            RelayBackoffHeartbeatBudgetKey::Peer(reservation.peer_id.clone()),
            capacity,
            sent,
            now,
        );
        self.settle_scope(
            RelayBackoffHeartbeatBudgetKey::RemoteIp(reservation.remote_ip),
            RelayBackoffHeartbeatBudgetKey::RemoteIp(reservation.remote_ip),
            capacity,
            sent,
            now,
        );
        let ghost settled = *self;
        let service_key = PeerNumber {
            peer_id: reservation.peer_id,
            number: reservation.service_slot,
        };
        if sent == 0 {
            let owned = match self.service_slots.get(&service_key) {
                Some(RelayBackoffHeartbeatServiceSlot::Reserved(owner)) => *owner == id,
                _ => false,
            };
            if owned {
                let _ = self.service_slots.remove(&service_key);
            }
        } else {
            let _ = self.service_slots.insert(
                service_key,
                RelayBackoffHeartbeatServiceSlot::Committed,
            );
        }
        proof {
            assert forall|scope: HeartbeatScope| #[trigger]
                self.reserved(scope) == old(self).reserved(scope) - weight(entry, scope) by {
                assert(self.reserved(scope) == settled.reserved(scope));
            }
            assert forall|scope: HeartbeatScope| #[trigger]
                self.committed(scope) == if scope.counts(entry.peer, entry.remote_ip) {
                    old(self).committed(scope) + Seq::new(sent as nat, |_i: int| now)
                } else {
                    old(self).committed(scope)
                } by {
                assert(self.committed(scope) == settled.committed(scope));
            }
            assert(self.reservations() =~= old(self).reservations().remove(id));
            assert forall|scope: HeartbeatScope| #[trigger]
                self.reserved(scope) == held(self.reservations(), scope) by {
                assert(old(self).reserved(scope) == weight(entry, scope) + held(
                    self.reservations(),
                    scope,
                ));
            }
            assert forall|scope: HeartbeatScope| #[trigger]
                self.committed(scope).len() + self.reserved(scope) <= scope.limit() by {
                assert(old(self).committed(scope).len() + old(self).reserved(scope)
                    <= scope.limit());
            }
        }
    }

    /// Records the datagrams that a reserved send emitted.
    pub fn commit(
        &mut self,
        reservation: RelayBackoffHeartbeatReservation,
        actual_packets: usize,
        now: u64,
    )
        requires
            old(self).wf(),
        ensures
            final(self).wf(),
            old(self).reservations().dom().contains(reservation.spec_id()) ==> old(self).settled_to(
                final(self),
                reservation.spec_id(),
                actual_packets,
                now,
            ),
            !old(self).reservations().dom().contains(reservation.spec_id()) ==> old(self).same_as(
                final(self),
            ),
    {
        self.finish_reservation(reservation.id, actual_packets, now);
    }

    /// Returns a reservation unused.
    pub fn release(&mut self, reservation: RelayBackoffHeartbeatReservation, now: u64)
        requires
            old(self).wf(),
        ensures
            final(self).wf(),
            old(self).reservations().dom().contains(reservation.spec_id()) ==> old(self).settled_to(
                final(self),
                reservation.spec_id(),
                0,
                now,
            ),
            !old(self).reservations().dom().contains(reservation.spec_id()) ==> old(self).same_as(
                final(self),
            ),
    {
        self.finish_reservation(reservation.id, 0, now);
    }

    /// Reserves one heartbeat send unless foreground traversal is busy. A
    /// peer that still needs the legacy packet gets room for two datagrams.
    pub fn reserve_probe(
        &mut self,
        local: &crate::probe_budget::OutboundProbeBudget,
        process: Option<&crate::probe_budget::OutboundProbeBudget>,
        peer_id: &str,
        peer_addr: SocketAddr,
        requires_legacy_probe: bool,
        now: u64,
    ) -> (result: Result<
        RelayBackoffHeartbeatReservation,
        RelayBackoffHeartbeatReservationRejection,
    >)
        requires
            old(self).wf(),
            old(self).next_reservation_id() < u64::MAX,
            local.wf(),
            process matches Some(p) ==> p.wf(),
        ensures
            final(self).wf(),
            ({
                let busy = local.spec_foreground_burst_active() || (process matches Some(p)
                    && p.spec_foreground_burst_active());
                let capacity = if requires_legacy_probe {
                    2usize
                } else {
                    1usize
                };
                if busy {
                    &&& result == Err::<
                        RelayBackoffHeartbeatReservation,
                        RelayBackoffHeartbeatReservationRejection,
                    >(RelayBackoffHeartbeatReservationRejection::ForegroundYield)
                    &&& *final(self) == *old(self)
                } else {
                    match old(self).refusal(peer_id@, peer_addr.ip, capacity, now) {
                        Some(rejection) => result == Err::<
                            RelayBackoffHeartbeatReservation,
                            RelayBackoffHeartbeatReservationRejection,
                        >(rejection) && old(self).aged_to(final(self), peer_id@, now),
                        None => {
                            &&& result matches Ok(reservation) && reservation.spec_id() == old(self).next_reservation_id()
                            &&& old(self).granted_to(
                                final(self),
                                peer_id@,
                                peer_addr.ip,
                                capacity,
                                now,
                            )
                        },
                    }
                }
            }),
    {
        if local.foreground_burst_active() {
            return Err(RelayBackoffHeartbeatReservationRejection::ForegroundYield);
        }
        if let Some(process) = process {
            if process.foreground_burst_active() {
                return Err(RelayBackoffHeartbeatReservationRejection::ForegroundYield);
            }
        }
        let packet_cost: usize = if requires_legacy_probe {
            2
        } else {
            1
        };
        self.reserve(peer_id, peer_addr.ip(), packet_cost, now)
    }

    /// A scope takes up room for as long as packets are held or counted against
    /// it, and no longer.
    pub proof fn law_held_scopes_have_packets(&self, scope: HeartbeatScope)
        requires
            self.wf(),
        ensures
            self.reserved_scopes().contains(scope) <==> self.reserved(scope) > 0,
            self.committed_scopes().contains(scope) <==> self.committed(scope).len() > 0,
    {
        self.committed.lemma_keys();
    }

    /// Reserved and committed packets together never exceed a limit, however
    /// many workers hold reservations, and so neither do those of the last
    /// window at any time.
    pub proof fn law_never_oversubscribed(&self, scope: HeartbeatScope, now: u64)
        requires
            self.wf(),
        ensures
            self.committed(scope).len() + held(self.reservations(), scope) <= scope.limit(),
            self.live_committed(scope, now).len() + held(self.reservations(), scope)
                <= match scope {
                HeartbeatScope::Network => 240int,
                HeartbeatScope::Peer(_) => 24,
                HeartbeatScope::RemoteIp(_) => 120,
            },
    {
        crate::window::lemma_live_len(
            self.committed(scope),
            now,
            RELAY_BACKOFF_HEARTBEAT_BUDGET_WINDOW,
        );
        assert(self.reserved(scope) == held(self.reservations(), scope));
        assert(self.committed(scope).len() + self.reserved(scope) <= scope.limit());
    }
}

/// Reserving and then releasing unused leaves no phantom entry: room, logs
/// and slots are what they would be had the peer only asked.
pub proof fn law_release_undoes_reserve(
    before: RelayBackoffHeartbeatBudget,
    reserved: RelayBackoffHeartbeatBudget,
    after: RelayBackoffHeartbeatBudget,
    peer: Seq<char>,
    ip: IpAddr,
    capacity: usize,
    now: u64,
    later: u64,
)
    requires
        before.wf(),
        before.refusal(peer, ip, capacity, now) is None,
        before.granted_to(&reserved, peer, ip, capacity, now),
        reserved.settled_to(&after, before.next_reservation_id(), 0, later),
    ensures
        after.reservations() == before.reservations(),
        forall|scope: HeartbeatScope| #[trigger] after.reserved(scope) == before.reserved(scope),
        forall|scope: HeartbeatScope| #[trigger]
            after.committed(scope) == before.live_committed(scope, now),
        after.service_slots() == before.slots_in(before.slot_at(now)),
{
    let id = before.next_reservation_id();
    let slot = before.slot_at(now);
    assert(after.reservations() =~= before.reservations());
    assert(after.service_slots() =~= before.slots_in(slot));
    assert forall|scope: HeartbeatScope| #[trigger]
        after.committed(scope) == before.live_committed(scope, now) by {
        assert(after.committed(scope) =~= reserved.committed(scope));
    }
}

/// After a release the next request of the peer in the same slot, for any
/// address and capacity, is answered as if nothing had been reserved.
pub proof fn law_released_slot_is_open_again(
    before: RelayBackoffHeartbeatBudget,
    reserved: RelayBackoffHeartbeatBudget,
    after: RelayBackoffHeartbeatBudget,
    peer: Seq<char>,
    ip: IpAddr,
    capacity: usize,
    now: u64,
    released_at: u64,
    next_ip: IpAddr,
    next_capacity: usize,
    again: u64,
)
    requires
        before.wf(),
        before.refusal(peer, ip, capacity, now) is None,
        before.granted_to(&reserved, peer, ip, capacity, now),
        reserved.settled_to(&after, before.next_reservation_id(), 0, released_at),
        now <= again,
        before.slot_at(again) == before.slot_at(now),
    ensures
        after.refusal(peer, next_ip, next_capacity, again) == before.refusal(
            peer,
            next_ip,
            next_capacity,
            again,
        ),
{
    law_release_undoes_reserve(before, reserved, after, peer, ip, capacity, now, released_at);
    let slot = before.slot_at(now);
    assert(after.slot_at(again) == slot);
    assert(after.slots_in(slot) =~= before.slots_in(slot));
    assert(after.active_with(peer, slot) =~= before.active_with(peer, slot));
    assert forall|scope: HeartbeatScope| #[trigger]
        after.live_committed(scope, again) == before.live_committed(scope, again) by {
        assert(after.committed(scope) == before.live_committed(scope, now));
        crate::window::lemma_live_twice(
            before.committed(scope),
            now,
            again,
            RELAY_BACKOFF_HEARTBEAT_BUDGET_WINDOW,
        );
    }
    assert forall|scope: HeartbeatScope| #[trigger]
        after.over(scope, next_capacity, again) == before.over(scope, next_capacity, again) by {
        assert(after.live_committed(scope, again) == before.live_committed(scope, again));
        assert(after.reserved(scope) == before.reserved(scope));
    }
    assert(after.over(HeartbeatScope::Network, next_capacity, again) == before.over(
        HeartbeatScope::Network,
        next_capacity,
        again,
    ));
    assert(after.over(HeartbeatScope::Peer(peer), next_capacity, again) == before.over(
        HeartbeatScope::Peer(peer),
        next_capacity,
        again,
    ));
    assert(after.over(HeartbeatScope::RemoteIp(next_ip), next_capacity, again) == before.over(
        HeartbeatScope::RemoteIp(next_ip),
        next_capacity,
        again,
    ));
}

/// While a reservation is open, and after it was settled with a packet sent,
/// the peer's requests in its slot are deferred.
pub proof fn law_served_slot_is_closed(
    before: RelayBackoffHeartbeatBudget,
    reserved: RelayBackoffHeartbeatBudget,
    after: RelayBackoffHeartbeatBudget,
    peer: Seq<char>,
    ip: IpAddr,
    capacity: usize,
    now: u64,
    sent: usize,
    settled_at: u64,
    next_ip: IpAddr,
    next_capacity: usize,
    again: u64,
)
    requires
        before.wf(),
        before.refusal(peer, ip, capacity, now) is None,
        before.granted_to(&reserved, peer, ip, capacity, now),
        reserved.settled_to(&after, before.next_reservation_id(), sent, settled_at),
        before.slot_at(again) == before.slot_at(now),
        next_capacity > 0,
    ensures
        reserved.refusal(peer, next_ip, next_capacity, again) == Some(
            RelayBackoffHeartbeatReservationRejection::FairnessDeferred,
        ),
        sent > 0 ==> after.refusal(peer, next_ip, next_capacity, again) == Some(
            RelayBackoffHeartbeatReservationRejection::FairnessDeferred,
        ),
{
    let slot = before.slot_at(now);
    assert(reserved.slot_at(again) == slot);
    assert(reserved.slots_in(slot).dom().contains((peer, slot)));
    if sent > 0 {
        assert(after.slot_at(again) == slot);
        assert(after.slots_in(slot).dom().contains((peer, slot)));
    }
}

/// A step in the life of a budget.
pub enum HeartbeatStep {
    /// A reservation that was granted.
    Granted { peer: Seq<char>, ip: IpAddr, capacity: usize, now: u64 },
    /// A request that was refused.
    Refused { peer: Seq<char>, now: u64 },
    /// A reservation that was settled.
    Settled { id: u64, sent: usize, now: u64 },
    /// Anything that changes no more than the cursors.
    Other,
}

/// `after` is what `before` becomes by a step.
pub open spec fn step_taken(
    before: RelayBackoffHeartbeatBudget,
    after: RelayBackoffHeartbeatBudget,
    step: HeartbeatStep,
) -> bool {
    match step {
        HeartbeatStep::Granted { peer, ip, capacity, now } => {
            &&& before.refusal(peer, ip, capacity, now) is None
            &&& before.granted_to(&after, peer, ip, capacity, now)
        },
        HeartbeatStep::Refused { peer, now } => before.aged_to(&after, peer, now),
        HeartbeatStep::Settled { id, sent, now } => {
            &&& before.reservations().dom().contains(id)
            &&& before.settled_to(&after, id, sent, now)
        },
        HeartbeatStep::Other => {
            &&& forall|scope: HeartbeatScope| #[trigger]
                after.committed(scope) == before.committed(scope)
            &&& forall|scope: HeartbeatScope| #[trigger]
                after.reserved(scope) == before.reserved(scope)
            &&& after.reservations() == before.reservations()
            &&& after.service_slots() == before.service_slots()
            &&& after.active_peers() == before.active_peers()
            &&& after.service_epoch() == before.service_epoch()
            &&& after.next_reservation_id() == before.next_reservation_id()
        },
    }
}

/// `states` are what a budget is before the first, between two, and after the
/// last of `steps`.
pub open spec fn is_history(
    states: Seq<RelayBackoffHeartbeatBudget>,
    steps: Seq<HeartbeatStep>,
) -> bool {
    &&& states.len() == steps.len() + 1
    &&& forall|i: int|
        0 <= i < steps.len() ==> step_taken(states[i], states[i + 1], #[trigger] steps[i])
}

proof fn lemma_step_keeps_marks(
    before: RelayBackoffHeartbeatBudget,
    after: RelayBackoffHeartbeatBudget,
    step: HeartbeatStep,
)
    requires
        before.sound(),
        step_taken(before, after, step),
    ensures
        forall|id: u64| #[trigger] after.reservations().dom().contains(id) ==> after.marks(id),
{
    assert forall|id: u64| #[trigger] after.reservations().dom().contains(id) implies after.marks(
        id,
    ) by {
        match step {
            HeartbeatStep::Granted { peer, ip, capacity, now } => {
                if id != before.next_reservation_id() {
                    assert(before.reservations().dom().contains(id));
                    assert(before.marks(id));
                }
            },
            _ => {
                assert(before.reservations().dom().contains(id));
                assert(before.marks(id));
            },
        }
    }
}

proof fn lemma_step_stays_sound(
    before: RelayBackoffHeartbeatBudget,
    after: RelayBackoffHeartbeatBudget,
    step: HeartbeatStep,
)
    requires
        before.sound(),
        step_taken(before, after, step),
    ensures
        after.sound(),
{
    lemma_step_keeps_marks(before, after, step);
    assert forall|scope: HeartbeatScope| #[trigger]
        after.reserved(scope) == held(after.reservations(), scope) && after.committed(scope).len()
            + after.reserved(scope) <= scope.limit() by {
        assert(before.reserved(scope) == held(before.reservations(), scope));
        assert(before.committed(scope).len() + before.reserved(scope) <= scope.limit());
        match step {
            HeartbeatStep::Granted { peer, ip, capacity, now } => {
                let id = before.next_reservation_id();
                let entry = Reservation {
                    peer,
                    remote_ip: ip,
                    capacity: capacity as nat,
                    slot: before.slot_at(now),
                };
                assert(!before.reservations().dom().contains(id));
                lemma_held_insert(before.reservations(), id, entry, scope);
                crate::window::lemma_live_len(
                    before.committed(scope),
                    now,
                    RELAY_BACKOFF_HEARTBEAT_BUDGET_WINDOW,
                );
                assert(after.committed(scope) == before.live_committed(scope, now));
                if scope.counts(peer, ip) {
                    assert(!before.over(scope, capacity, now));
                }
            },
            HeartbeatStep::Refused { peer, now } => {
                crate::window::lemma_live_len(
                    before.committed(scope),
                    now,
                    RELAY_BACKOFF_HEARTBEAT_BUDGET_WINDOW,
                );
                assert(after.committed(scope) == before.live_committed(scope, now));
            },
            HeartbeatStep::Settled { id, sent, now } => {
                lemma_held_remove(before.reservations(), id, scope);
                assert(after.committed(scope).len() <= before.committed(scope).len() + weight(
                    before.reservations()[id],
                    scope,
                ));
            },
            HeartbeatStep::Other => {
                assert(after.committed(scope) == before.committed(scope));
            },
        }
    }
}

/// Whatever requests and settlements a budget that started empty has seen, the
/// packets of the last window and those held never exceed a limit together.
pub proof fn law_history_never_oversubscribes(
    states: Seq<RelayBackoffHeartbeatBudget>,
    steps: Seq<HeartbeatStep>,
    i: int,
    scope: HeartbeatScope,
    now: u64,
)
    requires
        is_history(states, steps),
        states[0].reservations() == Map::<u64, Reservation>::empty(),
        forall|s: HeartbeatScope| #[trigger] states[0].committed(s).len() == 0,
        forall|s: HeartbeatScope| #[trigger] states[0].reserved(s) == 0,
        0 <= i < states.len(),
    ensures
        states[i].sound(),
        states[i].live_committed(scope, now).len() + held(states[i].reservations(), scope)
            <= match scope {
            HeartbeatScope::Network => 240int,
            HeartbeatScope::Peer(_) => 24,
            HeartbeatScope::RemoteIp(_) => 120,
        },
    decreases i,
{
    if i > 0 {
        law_history_never_oversubscribes(states, steps, i - 1, scope, now);
        let step = steps[i - 1];
        lemma_step_stays_sound(states[i - 1], states[i - 1 + 1], step);
    } else {
        assert forall|s: HeartbeatScope| #[trigger]
            states[0].reserved(s) == held(states[0].reservations(), s) && states[0].committed(
                s,
            ).len() + states[0].reserved(s) <= s.limit() by {
            assert(states[0].committed(s).len() == 0);
        }
    }
    assert(states[i].committed(scope).len() + states[i].reserved(scope) <= scope.limit());
    assert(states[i].reserved(scope) == held(states[i].reservations(), scope));
    crate::window::lemma_live_len(
        states[i].committed(scope),
        now,
        RELAY_BACKOFF_HEARTBEAT_BUDGET_WINDOW,
    );
}

/// For as long as a reservation is open, its peer's requests in the same slot
/// are deferred, whatever others do meanwhile.
pub proof fn law_open_reservation_closes_its_slot(
    budget: RelayBackoffHeartbeatBudget,
    id: u64,
    ip: IpAddr,
    capacity: usize,
    now: u64,
)
    requires
        budget.sound(),
        budget.reservations().dom().contains(id),
        budget.slot_at(now) == budget.reservations()[id].slot,
        capacity > 0,
    ensures
        budget.refusal(budget.reservations()[id].peer, ip, capacity, now) == Some(
            RelayBackoffHeartbeatReservationRejection::FairnessDeferred,
        ),
{
    let key = (budget.reservations()[id].peer, budget.reservations()[id].slot);
    assert(budget.service_slots().dom().contains(key));
}

/// Once a reservation was settled with a packet sent, its peer's requests are
/// deferred for as long as the slot lasts, whatever others do meanwhile.
pub proof fn law_committed_reservation_closes_its_slot(
    states: Seq<RelayBackoffHeartbeatBudget>,
    steps: Seq<HeartbeatStep>,
    i: int,
    peer: Seq<char>,
    slot: u64,
    ip: IpAddr,
    capacity: usize,
    now: u64,
)
    requires
        is_history(states, steps),
        steps.len() > 0,
        steps[0] matches HeartbeatStep::Settled { id, sent, now: at } && sent > 0
            && states[0].reservations()[id].capacity > 0 && states[0].reservations()[id].peer == peer
            && states[0].reservations()[id].slot == slot,
        forall|j: int|
            0 < j < steps.len() ==> (#[trigger] steps[j] matches HeartbeatStep::Granted {
                now: at,
                ..
            } ==> states[0].slot_at(at) == slot),
        forall|j: int|
            0 < j < steps.len() ==> (#[trigger] steps[j] matches HeartbeatStep::Refused {
                now: at,
                ..
            } ==> states[0].slot_at(at) == slot),
        0 < i < states.len(),
        states[0].slot_at(now) == slot,
        capacity > 0,
    ensures
        states[i].refusal(peer, ip, capacity, now) == Some(
            RelayBackoffHeartbeatReservationRejection::FairnessDeferred,
        ),
{
    lemma_committed_mark_stays(states, steps, i, peer, slot);
    assert(states[i].slot_at(now) == slot);
    assert(states[i].slots_in(slot).dom().contains((peer, slot)));
}

proof fn lemma_committed_mark_stays(
    states: Seq<RelayBackoffHeartbeatBudget>,
    steps: Seq<HeartbeatStep>,
    i: int,
    peer: Seq<char>,
    slot: u64,
)
    requires
        is_history(states, steps),
        steps.len() > 0,
        steps[0] matches HeartbeatStep::Settled { id, sent, now: at } && sent > 0
            && states[0].reservations()[id].capacity > 0 && states[0].reservations()[id].peer == peer
            && states[0].reservations()[id].slot == slot,
        forall|j: int|
            0 < j < steps.len() ==> (#[trigger] steps[j] matches HeartbeatStep::Granted {
                now: at,
                ..
            } ==> states[0].slot_at(at) == slot),
        forall|j: int|
            0 < j < steps.len() ==> (#[trigger] steps[j] matches HeartbeatStep::Refused {
                now: at,
                ..
            } ==> states[0].slot_at(at) == slot),
        0 < i < states.len(),
    ensures
        states[i].service_epoch() == states[0].service_epoch(),
        states[i].service_slots().dom().contains((peer, slot)),
        states[i].service_slots()[(peer, slot)] == RelayBackoffHeartbeatServiceSlot::Committed,
    decreases i,
{
    let j = i - 1;
    assert(step_taken(states[j], states[j + 1], steps[j]));
    if j > 0 {
        lemma_committed_mark_stays(states, steps, j, peer, slot);
        let before = states[j];
        match steps[j] {
            HeartbeatStep::Granted { peer: other, ip, capacity, now } => {
                assert(before.slot_at(now) == slot);
                assert(before.slots_in(slot).dom().contains((peer, slot)));
            },
            HeartbeatStep::Refused { peer: other, now } => {
                assert(before.slot_at(now) == slot);
                assert(before.slots_in(slot).dom().contains((peer, slot)));
            },
            _ => {},
        }
    }
}

/// Once a reservation was released, its peer's slot stays open, whatever
/// others reserve or settle, until that peer reserves in it again: the
/// reservation is gone, and a request of the peer in the slot is decided by
/// the roster and by the room that is left alone.
pub proof fn law_released_slot_stays_open(
    states: Seq<RelayBackoffHeartbeatBudget>,
    steps: Seq<HeartbeatStep>,
    i: int,
    id: u64,
    ip: IpAddr,
    capacity: usize,
    now: u64,
)
    requires
        is_history(states, steps),
        steps.len() > 0,
        states[0].sound(),
        steps[0] matches HeartbeatStep::Settled { id: settled, sent, .. } && settled == id && sent
            == 0,
        forall|j: int|
            0 < j < steps.len() ==> (#[trigger] steps[j] matches HeartbeatStep::Granted {
                peer,
                now: at,
                ..
            } ==> peer != states[0].reservations()[id].peer || states[0].slot_at(at)
                != states[0].reservations()[id].slot),
        0 < i < states.len(),
        states[0].slot_at(now) == states[0].reservations()[id].slot,
        capacity > 0,
    ensures
        ({
            let peer = states[0].reservations()[id].peer;
            let slot = states[0].reservations()[id].slot;
            let after = states[i];
            &&& !after.reservations().dom().contains(id)
            &&& !after.service_slots().dom().contains((peer, slot))
            &&& after.refusal(peer, ip, capacity, now) == if !on_roster(
                after.active_with(peer, slot).dom(),
                peer,
                slot,
            ) {
                Some(RelayBackoffHeartbeatReservationRejection::FairnessDeferred)
            } else if after.over(HeartbeatScope::Network, capacity, now) || after.over(
                HeartbeatScope::Peer(peer),
                capacity,
                now,
            ) || after.over(HeartbeatScope::RemoteIp(ip), capacity, now) {
                Some(RelayBackoffHeartbeatReservationRejection::BudgetLimited)
            } else {
                None
            }
        }),
{
    lemma_released_mark_stays_away(states, steps, i, id);
    let slot = states[0].reservations()[id].slot;
    assert(states[i].slot_at(now) == slot);
}

proof fn lemma_released_mark_stays_away(
    states: Seq<RelayBackoffHeartbeatBudget>,
    steps: Seq<HeartbeatStep>,
    i: int,
    id: u64,
)
    requires
        is_history(states, steps),
        steps.len() > 0,
        states[0].sound(),
        steps[0] matches HeartbeatStep::Settled { id: settled, sent, .. } && settled == id && sent
            == 0,
        forall|j: int|
            0 < j < steps.len() ==> (#[trigger] steps[j] matches HeartbeatStep::Granted {
                peer,
                now: at,
                ..
            } ==> peer != states[0].reservations()[id].peer || states[0].slot_at(at)
                != states[0].reservations()[id].slot),
        0 < i < states.len(),
    ensures
        states[i].sound(),
        states[i].service_epoch() == states[0].service_epoch(),
        id < states[i].next_reservation_id(),
        !states[i].reservations().dom().contains(id),
        !states[i].service_slots().dom().contains(
            (states[0].reservations()[id].peer, states[0].reservations()[id].slot),
        ),
    decreases i,
{
    let j = i - 1;
    let key = (states[0].reservations()[id].peer, states[0].reservations()[id].slot);
    assert(step_taken(states[j], states[j + 1], steps[j]));
    if j == 0 {
        lemma_step_stays_sound(states[j], states[j + 1], steps[j]);
        assert(states[0].reservations().dom().contains(id));
        assert(states[0].marks(id));
    } else {
        lemma_released_mark_stays_away(states, steps, j, id);
        lemma_step_stays_sound(states[j], states[j + 1], steps[j]);
        let before = states[j];
        match steps[j] {
            HeartbeatStep::Granted { peer, ip, capacity, now } => {
                assert(before.slot_at(now) == states[0].slot_at(now));
                assert(!before.slots_in(before.slot_at(now)).dom().contains(key));
            },
            HeartbeatStep::Refused { peer, now } => {
                assert(!before.slots_in(before.slot_at(now)).dom().contains(key));
            },
            HeartbeatStep::Settled { id: other, sent, now } => {
                assert(before.reservations().dom().contains(other));
                assert(before.marks(other));
            },
            HeartbeatStep::Other => {},
        }
    }
}

/// A request for no packets is refused and reserves nothing.
pub proof fn law_empty_request_is_refused(
    budget: RelayBackoffHeartbeatBudget,
    peer: Seq<char>,
    ip: IpAddr,
    now: u64,
)
    ensures
        budget.refusal(peer, ip, 0, now) == Some(
            RelayBackoffHeartbeatReservationRejection::BudgetLimited,
        ),
{
}

/// Step `i` of a history is a call of `next_target` for a peer in a
/// generation with predicted endpoints only, whose target `calls[i]` is, or,
/// where that is `None`, anything that leaves the peer's cursors alone.
pub open spec fn turn_at(
    states: Seq<RelayBackoffHeartbeatBudget>,
    calls: Seq<Option<RelayBackoffHeartbeatTarget>>,
    i: int,
    peer: Seq<char>,
    generation: u64,
    predicted: Seq<SocketAddr>,
    socket_count: usize,
) -> bool {
    match calls[i] {
        Some(target) => states[i].beats_to(
            &states[i + 1],
            Some(target),
            peer,
            generation,
            Seq::empty(),
            predicted,
            Seq::empty(),
            socket_count,
        ),
        None => states[i].same_cursors(&states[i + 1], peer),
    }
}

/// The number of calls among the first `i` steps of a history.
pub open spec fn calls_before(
    calls: Seq<Option<RelayBackoffHeartbeatTarget>>,
    i: nat,
) -> nat
    decreases i,
{
    if i == 0 {
        0
    } else {
        calls_before(calls, (i - 1) as nat) + if calls[i - 1] is Some {
            1nat
        } else {
            0
        }
    }
}

proof fn lemma_cursor_counts_calls(
    states: Seq<RelayBackoffHeartbeatBudget>,
    calls: Seq<Option<RelayBackoffHeartbeatTarget>>,
    i: nat,
    peer: Seq<char>,
    generation: u64,
    predicted: Seq<SocketAddr>,
    socket_count: usize,
)
    requires
        states.len() == calls.len() + 1,
        i <= calls.len() <= usize::MAX,
        predicted.len() > 0,
        socket_count > 0,
        !states[0].cursors().dom().contains((peer, generation)),
        forall|j: int|
            0 <= j < calls.len() ==> #[trigger] turn_at(
                states,
                calls,
                j,
                peer,
                generation,
                predicted,
                socket_count,
            ),
    ensures
        calls_before(calls, i) <= i,
        states[i as int].cursor(peer, generation).predicted == calls_before(calls, i),
        states[i as int].cursor(peer, generation).socket == calls_before(calls, i),
    decreases i,
{
    if i > 0 {
        let j = (i - 1) as nat;
        lemma_cursor_counts_calls(
            states,
            calls,
            j,
            peer,
            generation,
            predicted,
            socket_count,
        );
        assert(turn_at(states, calls, j as int, peer, generation, predicted, socket_count));
        let before = states[j as int];
        let after = states[i as int];
        if calls[j as int] is None {
            assert(before.cursors().dom().contains((peer, generation))
                <==> after.cursors().dom().contains((peer, generation)));
        } else {
            assert(after.cursors().dom().contains((peer, generation)));
        }
    }
}

/// Call for call the predicted endpoints and the sockets take turns: in a
/// peer's generation, the call that follows `k` others gets endpoint `k` and
/// socket `k` modulo their numbers, whatever goes on in between for other
/// peers. So no endpoint comes back before all the others had their turn.
pub proof fn law_predicted_endpoints_take_turns(
    states: Seq<RelayBackoffHeartbeatBudget>,
    calls: Seq<Option<RelayBackoffHeartbeatTarget>>,
    peer: Seq<char>,
    generation: u64,
    predicted: Seq<SocketAddr>,
    socket_count: usize,
)
    requires
        states.len() == calls.len() + 1,
        calls.len() <= usize::MAX,
        predicted.len() > 0,
        socket_count > 0,
        !states[0].cursors().dom().contains((peer, generation)),
        forall|j: int|
            0 <= j < calls.len() ==> #[trigger] turn_at(
                states,
                calls,
                j,
                peer,
                generation,
                predicted,
                socket_count,
            ),
    ensures
        forall|i: int|
            0 <= i < calls.len() && (#[trigger] calls[i]) is Some ==> ({
                let k = calls_before(calls, i as nat) as int;
                &&& calls[i]->0.group == RelayBackoffHeartbeatTargetGroup::Predicted
                &&& calls[i]->0.endpoint == predicted[k % predicted.len() as int]
                &&& calls[i]->0.socket_index == k % socket_count as int
            }),
        forall|i: int, j: int|
            0 <= i < j < calls.len() && calls_before(calls, i as nat) < calls_before(
                calls,
                j as nat,
            ) < calls_before(calls, i as nat) + predicted.len() ==> #[trigger] calls_before(
                calls,
                i as nat,
            ) as int % predicted.len() as int != #[trigger] calls_before(calls, j as nat) as int
                % predicted.len() as int,
{
    assert forall|i: int| 0 <= i < calls.len() && (#[trigger] calls[i]) is Some implies ({
        let k = calls_before(calls, i as nat) as int;
        &&& calls[i]->0.group == RelayBackoffHeartbeatTargetGroup::Predicted
        &&& calls[i]->0.endpoint == predicted[k % predicted.len() as int]
        &&& calls[i]->0.socket_index == k % socket_count as int
    }) by {
        lemma_cursor_counts_calls(
            states,
            calls,
            i as nat,
            peer,
            generation,
            predicted,
            socket_count,
        );
        assert(turn_at(states, calls, i, peer, generation, predicted, socket_count));
    }
    assert forall|i: int, j: int|
        0 <= i < j < calls.len() && calls_before(calls, i as nat) < calls_before(calls, j as nat)
            < calls_before(calls, i as nat) + predicted.len() implies #[trigger] calls_before(
        calls,
        i as nat,
    ) as int % predicted.len() as int != #[trigger] calls_before(calls, j as nat) as int
        % predicted.len() as int by {
        let a = calls_before(calls, i as nat) as int;
        let b = calls_before(calls, j as nat) as int;
        let n = predicted.len() as int;
        if a % n == b % n {
            vstd::arithmetic::div_mod::lemma_fundamental_div_mod(a, n);
            vstd::arithmetic::div_mod::lemma_fundamental_div_mod(b, n);
            let p = a / n;
            let q = b / n;
            assert(false) by (nonlinear_arith)
                requires
                    b - a == n * q - n * p,
                    0 < b - a < n,
            ;
        }
    }
}

/// A peer's new generation starts over: its first call gets the first
/// endpoint of its group and the first socket, however far the generation
/// before it had come.
pub proof fn law_new_generation_starts_over(
    before: RelayBackoffHeartbeatBudget,
    between: RelayBackoffHeartbeatBudget,
    again: RelayBackoffHeartbeatBudget,
    after: RelayBackoffHeartbeatBudget,
    peer: Seq<char>,
    old_generation: u64,
    last: RelayBackoffHeartbeatTarget,
    old_priority: Seq<SocketAddr>,
    old_predicted: Seq<SocketAddr>,
    old_fallback: Seq<SocketAddr>,
    old_sockets: usize,
    generation: u64,
    first: RelayBackoffHeartbeatTarget,
    priority: Seq<SocketAddr>,
    predicted: Seq<SocketAddr>,
    fallback: Seq<SocketAddr>,
    sockets: usize,
)
    requires
        generation != old_generation,
        before.beats_to(
            &between,
            Some(last),
            peer,
            old_generation,
            old_priority,
            old_predicted,
            old_fallback,
            old_sockets,
        ),
        between.same_cursors(&again, peer),
        again.beats_to(
            &after,
            Some(first),
            peer,
            generation,
            priority,
            predicted,
            fallback,
            sockets,
        ),
    ensures
        first.socket_index == 0,
        priority.len() > 0 ==> first.group == RelayBackoffHeartbeatTargetGroup::Priority
            && first.endpoint == priority[0],
        priority.len() == 0 && predicted.len() > 0 ==> first.group
            == RelayBackoffHeartbeatTargetGroup::Predicted && first.endpoint == predicted[0],
        priority.len() == 0 && predicted.len() == 0 ==> first.group
            == RelayBackoffHeartbeatTargetGroup::Fallback && first.endpoint == fallback[0],
{
    assert(!between.cursors().dom().contains((peer, generation)));
    assert(!again.cursors().dom().contains((peer, generation)));
    let group = RelayBackoffHeartbeatCursor::start().served(priority, predicted, fallback);
    let n = endpoints_of(group, priority, predicted, fallback).len() as int;
    assert(0int % n == 0) by (nonlinear_arith)
        requires
            n > 0,
    ;
    assert(0int % sockets as int == 0) by (nonlinear_arith)
        requires
            sockets > 0,
    ;
}

/// A peer's call leaves the cursors of every other peer alone.
pub proof fn law_calls_keep_other_cursors(
    before: RelayBackoffHeartbeatBudget,
    after: RelayBackoffHeartbeatBudget,
    target: Option<RelayBackoffHeartbeatTarget>,
    peer: Seq<char>,
    generation: u64,
    priority: Seq<SocketAddr>,
    predicted: Seq<SocketAddr>,
    fallback: Seq<SocketAddr>,
    sockets: usize,
    other: Seq<char>,
)
    requires
        before.beats_to(
            &after,
            target,
            peer,
            generation,
            priority,
            predicted,
            fallback,
            sockets,
        ),
        other != peer,
    ensures
        before.same_cursors(&after, other),
{
}

/// A peer that was served in a slot is not served again in it: neither an
/// open nor a committed reservation admits a second one.
pub proof fn law_one_group_per_slot(
    budget: RelayBackoffHeartbeatBudget,
    peer: Seq<char>,
    ip: IpAddr,
    capacity: usize,
    now: u64,
)
    requires
        budget.service_slots().dom().contains((peer, budget.slot_at(now))),
        capacity > 0,
    ensures
        budget.refusal(peer, ip, capacity, now) == Some(
            RelayBackoffHeartbeatReservationRejection::FairnessDeferred,
        ),
{
}

/// Nobody is starved: whatever the number of peers, every one of them is on
/// the roster of one of as many successive slots.
pub proof fn law_roster_reaches_every_peer(names: Set<Seq<char>>, peer: Seq<char>, from: u64)
    requires
        names.finite(),
        names.contains(peer),
        from + names.len() <= usize::MAX,
    ensures
        exists|slot: u64| from <= slot < from + names.len() && #[trigger] on_roster(
            names,
            peer,
            slot,
        ),
{
    let n = names.len() as int;
    if n <= RELAY_BACKOFF_HEARTBEAT_PEERS_PER_SERVICE_SLOT {
        assert(names.len() > 0) by {
            vstd::set::axiom_set_contains_len(names, peer);
        }
        assert(on_roster(names, peer, from));
    } else {
        let r = rank(names, peer) as int;
        let below = names.filter(|n: Seq<char>| name_below(n, peer));
        assert(below.len() < n) by {
            lemma_not_below_itself(vstd::utf8::encode_utf8(peer));
            assert(!below.contains(peer));
            assert(below.subset_of(names.remove(peer)));
            vstd::set_lib::lemma_len_subset(below, names.remove(peer));
        }
        let shift = (r - from as int % n + n) % n;
        let slot = (from + shift) as u64;
        assert(0 <= shift < n && slot as int % n == r) by (nonlinear_arith)
            requires
                n > 0,
                0 <= r < n,
                0 <= from,
                shift == (r - from as int % n + n) % n,
                slot == from + shift,
        {
            let f = from as int % n;
            if r >= f {
                assert(shift == r - f);
            } else {
                assert(shift == r - f + n);
            }
        }
        assert(roster_place(n, slot, 0) == r) by {
            assert(slot as usize as int == slot);
            assert((slot as int % n) % n == r) by (nonlinear_arith)
                requires
                    slot as int % n == r,
                    0 <= r < n,
            ;
        }
        assert(on_roster(names, peer, slot));
    }
}

proof fn lemma_not_below_itself(a: Seq<u8>)
    ensures
        !bytes_below(a, a),
    decreases a.len(),
{
    if a.len() > 0 {
        lemma_not_below_itself(a.drop_first());
    }
}

/// The limits of the heartbeats in a minute: for all, for a peer and for an
/// address; and what counts for which.
pub proof fn law_heartbeat_limits(peer: Seq<char>, ip: IpAddr, p: Seq<char>, i: IpAddr)
    ensures
        HeartbeatScope::Network.limit() == 240,
        HeartbeatScope::Peer(p).limit() == 24,
        HeartbeatScope::RemoteIp(i).limit() == 120,
        HeartbeatScope::Network.counts(peer, ip),
        HeartbeatScope::Peer(p).counts(peer, ip) <==> p == peer,
        HeartbeatScope::RemoteIp(i).counts(peer, ip) <==> i == ip,
        RELAY_BACKOFF_HEARTBEAT_BUDGET_WINDOW == 60_000_000_000,
{
}

/// A peer's first beat of five goes to the priority endpoints, the last to the
/// fallback ones, those between to the predicted; a group that is empty is
/// replaced by the first that is not.
pub proof fn law_beats_by_group(
    c: RelayBackoffHeartbeatCursor,
    priority: Seq<SocketAddr>,
    predicted: Seq<SocketAddr>,
    fallback: Seq<SocketAddr>,
)
    ensures
        ({
            let g = c.served(priority, predicted, fallback);
            let place = c.beat % 5;
            &&& c.preferred() == RelayBackoffHeartbeatTargetGroup::Priority <==> place == 0
            &&& c.preferred() == RelayBackoffHeartbeatTargetGroup::Fallback <==> place == 4
            &&& c.preferred() == RelayBackoffHeartbeatTargetGroup::Predicted <==> 1 <= place <= 3
            &&& place == 0 && priority.len() > 0 ==> g == RelayBackoffHeartbeatTargetGroup::Priority
            &&& place == 4 && fallback.len() > 0 ==> g == RelayBackoffHeartbeatTargetGroup::Fallback
            &&& 1 <= place <= 3 && predicted.len() > 0 ==> g
                == RelayBackoffHeartbeatTargetGroup::Predicted
            &&& place == 0 && priority.len() == 0 && predicted.len() > 0 ==> g
                == RelayBackoffHeartbeatTargetGroup::Predicted
            &&& place == 4 && fallback.len() == 0 && priority.len() > 0 ==> g
                == RelayBackoffHeartbeatTargetGroup::Priority
            &&& place == 4 && fallback.len() == 0 && priority.len() == 0 && predicted.len() > 0
                ==> g == RelayBackoffHeartbeatTargetGroup::Predicted
            &&& 1 <= place <= 3 && predicted.len() == 0 && priority.len() > 0 ==> g
                == RelayBackoffHeartbeatTargetGroup::Priority
            &&& predicted.len() == 0 && priority.len() == 0 ==> g
                == RelayBackoffHeartbeatTargetGroup::Fallback
        }),
        endpoints_of(
            RelayBackoffHeartbeatTargetGroup::Priority,
            priority,
            predicted,
            fallback,
        ) == priority,
        endpoints_of(
            RelayBackoffHeartbeatTargetGroup::Predicted,
            priority,
            predicted,
            fallback,
        ) == predicted,
        endpoints_of(
            RelayBackoffHeartbeatTargetGroup::Fallback,
            priority,
            predicted,
            fallback,
        ) == fallback,
{
}

/// A beat moves the cursor of its group, of the sockets and of the beats by
/// one, and leaves those of the other groups.
pub proof fn law_cursor_advances(c: RelayBackoffHeartbeatCursor)
    requires
        c.priority < usize::MAX,
        c.predicted < usize::MAX,
        c.fallback < usize::MAX,
        c.socket < usize::MAX,
        c.beat < u64::MAX,
    ensures
        c.advanced(RelayBackoffHeartbeatTargetGroup::Priority) == (RelayBackoffHeartbeatCursor {
            priority: (c.priority + 1) as usize,
            socket: (c.socket + 1) as usize,
            beat: (c.beat + 1) as u64,
            ..c
        }),
        c.advanced(RelayBackoffHeartbeatTargetGroup::Predicted) == (RelayBackoffHeartbeatCursor {
            predicted: (c.predicted + 1) as usize,
            socket: (c.socket + 1) as usize,
            beat: (c.beat + 1) as u64,
            ..c
        }),
        c.advanced(RelayBackoffHeartbeatTargetGroup::Fallback) == (RelayBackoffHeartbeatCursor {
            fallback: (c.fallback + 1) as usize,
            socket: (c.socket + 1) as usize,
            beat: (c.beat + 1) as u64,
            ..c
        }),
        c.position(RelayBackoffHeartbeatTargetGroup::Priority) == c.priority,
        c.position(RelayBackoffHeartbeatTargetGroup::Predicted) == c.predicted,
        c.position(RelayBackoffHeartbeatTargetGroup::Fallback) == c.fallback,
        bumped(usize::MAX) == usize::MAX,
        RelayBackoffHeartbeatCursor::start().priority == 0,
        RelayBackoffHeartbeatCursor::start().predicted == 0,
        RelayBackoffHeartbeatCursor::start().fallback == 0,
        RelayBackoffHeartbeatCursor::start().socket == 0,
        RelayBackoffHeartbeatCursor::start().beat == 0,
{
}

/// A beat finds a target exactly where there is a socket and an endpoint; its
/// endpoint and its socket are taken in turn, and the peer's cursors of other
/// generations are dropped.
pub proof fn law_beat_target(
    b: RelayBackoffHeartbeatBudget,
    next: RelayBackoffHeartbeatBudget,
    target: Option<RelayBackoffHeartbeatTarget>,
    peer: Seq<char>,
    generation: u64,
    priority: Seq<SocketAddr>,
    predicted: Seq<SocketAddr>,
    fallback: Seq<SocketAddr>,
    sockets: usize,
    other: Seq<char>,
    g: u64,
)
    requires
        b.beats_to(
            &next,
            target,
            peer,
            generation,
            priority,
            predicted,
            fallback,
            sockets,
        ),
        other != peer,
        g != generation,
    ensures
        target is Some <==> sockets > 0 && (priority.len() > 0 || predicted.len() > 0
            || fallback.len() > 0),
        target is None ==> next.cursors() == b.cursors(),
        target matches Some(t) ==> {
            let c = b.cursor(peer, generation);
            let list = endpoints_of(t.group, priority, predicted, fallback);
            &&& t.group == c.served(priority, predicted, fallback)
            &&& t.socket_index == c.socket as int % sockets as int
            &&& t.endpoint == list[c.position(t.group) as int % list.len() as int]
            &&& next.cursor(peer, generation) == c.advanced(t.group)
            &&& !next.cursors().dom().contains((peer, g))
            &&& next.cursor(other, g) == b.cursor(other, g)
            &&& next.cursor(other, generation) == b.cursor(other, generation)
        },
        b.cursors().dom().contains((peer, generation)) ==> b.cursor(peer, generation)
            == b.cursors()[(peer, generation)],
        !b.cursors().dom().contains((peer, generation)) ==> b.cursor(peer, generation)
            == RelayBackoffHeartbeatCursor::start(),
{
}

/// Names are ordered by the first byte that differs, and one that ends there
/// comes first.
pub proof fn law_names_by_bytes(a: Seq<u8>, b: Seq<u8>, i: int)
    requires
        0 <= i <= a.len(),
        i <= b.len(),
        forall|j: int| 0 <= j < i ==> a[j] == b[j],
    ensures
        i == a.len() && i < b.len() ==> bytes_below(a, b),
        i == b.len() ==> !bytes_below(a, b),
        i < a.len() && i < b.len() && a[i] < b[i] ==> bytes_below(a, b),
        i < a.len() && i < b.len() && a[i] > b[i] ==> !bytes_below(a, b),
    decreases i,
{
    if i > 0 {
        assert forall|j: int| 0 <= j < i - 1 implies a.drop_first()[j] == b.drop_first()[j] by {
            assert(a[j + 1] == b[j + 1]);
        }
        law_names_by_bytes(a.drop_first(), b.drop_first(), i - 1);
        assert(a[0] == b[0]);
        if i < a.len() && i < b.len() {
            assert(a.drop_first()[i - 1] == a[i]);
            assert(b.drop_first()[i - 1] == b[i]);
        }
    }
}

/// The rank of a peer is the number of names before its own.
pub proof fn law_rank_counts_the_names_before(
    names: Set<Seq<char>>,
    name: Seq<char>,
    peer: Seq<char>,
)
    requires
        names.finite(),
        !names.contains(name),
    ensures
        rank(Set::empty(), peer) == 0,
        rank(names.insert(name), peer) == rank(names, peer) + if bytes_below(
            vstd::utf8::encode_utf8(name),
            vstd::utf8::encode_utf8(peer),
        ) {
            1int
        } else {
            0
        },
{
    let before = |n: Seq<char>| name_below(n, peer);
    assert(Set::<Seq<char>>::empty().filter(before) =~= Set::empty());
    if name_below(name, peer) {
        assert(names.insert(name).filter(before) =~= names.filter(before).insert(name));
    } else {
        assert(names.insert(name).filter(before) =~= names.filter(before));
    }
}

/// Up to twelve peers are all on the roster; of more, the twelve that follow
/// the slot's own place, round the ring.
pub proof fn law_roster_is_a_window(names: Set<Seq<char>>, peer: Seq<char>, slot: u64)
    requires
        rank(names, peer) < names.len(),
    ensures
        names.len() <= 12 ==> on_roster(names, peer, slot),
        names.len() > 12 ==> {
            let n = names.len() as int;
            let at = slot as usize as int % n;
            let r = rank(names, peer) as int;
            on_roster(names, peer, slot) <==> at <= r < at + 12 || r + n < at + 12
        },
{
    if names.len() > 12 {
        let n = names.len() as int;
        let s = slot as usize as int;
        let at = s % n;
        let r = rank(names, peer) as int;
        assert(0 <= at < n) by (nonlinear_arith)
            requires
                at == s % n,
                n > 12,
        ;
        assert forall|offset: int| 0 <= offset < 12 implies #[trigger] roster_place(n, slot, offset)
            == if at + offset < n {
            at + offset
        } else {
            at + offset - n
        } by {
            let sum = at + offset;
            if sum < n {
                assert(sum % n == sum) by (nonlinear_arith)
                    requires
                        0 <= sum < n,
                ;
            } else {
                assert(sum % n == sum - n) by (nonlinear_arith)
                    requires
                        n <= sum < 2 * n,
                        n > 0,
                ;
            }
        }
        if at <= r < at + 12 {
            assert(roster_place(n, slot, r - at) == r);
        } else if r + n < at + 12 {
            assert(roster_place(n, slot, r + n - at) == r);
        }
    }
}

/// What is held for a scope is what its reservations may send together.
pub proof fn law_held_adds_up(
    m: Map<u64, Reservation>,
    id: u64,
    r: Reservation,
    scope: HeartbeatScope,
)
    requires
        m.dom().finite(),
        !m.dom().contains(id),
    ensures
        held(Map::empty(), scope) == 0,
        scope.counts(r.peer, r.remote_ip) ==> held(m.insert(id, r), scope) == held(m, scope)
            + r.capacity,
        !scope.counts(r.peer, r.remote_ip) ==> held(m.insert(id, r), scope) == held(m, scope),
        scope.counts(r.peer, r.remote_ip) ==> weight(r, scope) == r.capacity,
        !scope.counts(r.peer, r.remote_ip) ==> weight(r, scope) == 0,
{
    lemma_held_insert(m, id, r, scope);
}

/// A service slot lasts three seconds, from the epoch on.
pub proof fn law_service_slots(b: RelayBackoffHeartbeatBudget, now: u64)
    ensures
        now <= b.service_epoch() ==> b.slot_at(now) == 0,
        now >= b.service_epoch() ==> b.slot_at(now) * 3_000_000_000 <= now - b.service_epoch() < (
        b.slot_at(now) + 1) * 3_000_000_000,
{
}

/// A peer is active in the slot that it asks in, and for forty slots after; a
/// mark is kept for its own slot, and while it is reserved.
pub proof fn law_active_peers_and_marks(
    b: RelayBackoffHeartbeatBudget,
    peer: Seq<char>,
    slot: u64,
    other: Seq<char>,
    k: (Seq<char>, u64),
)
    requires
        other != peer,
    ensures
        b.active_with(peer, slot).dom().contains(peer),
        b.active_with(peer, slot)[peer] == slot,
        b.active_with(peer, slot).dom().contains(other) <==> b.active_peers().dom().contains(other)
            && slot - b.active_peers()[other] <= 40,
        b.active_with(peer, slot).dom().contains(other) ==> b.active_with(peer, slot)[other]
            == b.active_peers()[other],
        b.slots_in(slot).dom().contains(k) <==> b.service_slots().dom().contains(k) && (k.1 == slot
            || b.service_slots()[k] is Reserved),
        b.slots_in(slot).dom().contains(k) ==> b.slots_in(slot)[k] == b.service_slots()[k],
{
}

/// A budget is overrun exactly where its live packets, those held and the new
/// ones are more than its limit.
pub proof fn law_overrun(
    b: RelayBackoffHeartbeatBudget,
    scope: HeartbeatScope,
    capacity: usize,
    now: u64,
)
    ensures
        b.live_committed(scope, now) == crate::window::live(
            b.committed(scope),
            now,
            60_000_000_000,
        ),
        b.over(scope, capacity, now) <==> crate::window::live(
            b.committed(scope),
            now,
            60_000_000_000,
        ).len() + b.reserved(scope) + capacity > scope.limit(),
{
}

/// A reservation is granted exactly where it is for something, the peer was not
/// served in this slot, it is the peer's turn, and no budget is overrun;
/// otherwise it is deferred for its slot or turn, or limited.
pub proof fn law_reservation_refusals(
    b: RelayBackoffHeartbeatBudget,
    peer: Seq<char>,
    ip: IpAddr,
    capacity: usize,
    now: u64,
)
    ensures
        ({
            let slot = b.slot_at(now);
            let r = b.refusal(peer, ip, capacity, now);
            let served = b.service_slots().dom().contains((peer, slot));
            let turn = on_roster(b.active_with(peer, slot).dom(), peer, slot);
            let room = !b.over(HeartbeatScope::Network, capacity, now) && !b.over(
                HeartbeatScope::Peer(peer),
                capacity,
                now,
            ) && !b.over(HeartbeatScope::RemoteIp(ip), capacity, now);
            &&& r is None <==> capacity > 0 && !served && turn && room
            &&& capacity > 0 && (served || !turn) <==> r == Some(
                RelayBackoffHeartbeatReservationRejection::FairnessDeferred,
            )
            &&& capacity == 0 || (!served && turn && !room) <==> r == Some(
                RelayBackoffHeartbeatReservationRejection::BudgetLimited,
            )
        }),
{
}

/// What a refused request leaves: only live packets, the marks that still
/// count, and the peer as an active one.
pub proof fn law_refused_request_ages_the_budget(
    b: RelayBackoffHeartbeatBudget,
    next: RelayBackoffHeartbeatBudget,
    peer: Seq<char>,
    now: u64,
    scope: HeartbeatScope,
)
    requires
        b.aged_to(&next, peer, now),
    ensures
        next.committed(scope) == crate::window::live(b.committed(scope), now, 60_000_000_000),
        next.reserved(scope) == b.reserved(scope),
        next.reservations() == b.reservations(),
        next.service_slots() == b.slots_in(b.slot_at(now)),
        next.active_peers() == b.active_with(peer, b.slot_at(now)),
        next.cursors() == b.cursors(),
        next.service_epoch() == b.service_epoch(),
        next.next_reservation_id() == b.next_reservation_id(),
{
}

/// What a granted reservation leaves: itself under a fresh number, its room in
/// each budget that counts it, and the peer's slot marked.
pub proof fn law_granted_reservation(
    b: RelayBackoffHeartbeatBudget,
    next: RelayBackoffHeartbeatBudget,
    peer: Seq<char>,
    ip: IpAddr,
    capacity: usize,
    now: u64,
    scope: HeartbeatScope,
    other: u64,
)
    requires
        b.granted_to(&next, peer, ip, capacity, now),
        other != b.next_reservation_id(),
    ensures
        ({
            let id = b.next_reservation_id();
            let slot = b.slot_at(now);
            &&& next.next_reservation_id() == id + 1
            &&& next.reservations().dom().contains(id)
            &&& next.reservations()[id].peer == peer && next.reservations()[id].remote_ip == ip
            &&& next.reservations()[id].capacity == capacity && next.reservations()[id].slot == slot
            &&& next.reservations().dom().contains(other) == b.reservations().dom().contains(other)
            &&& scope.counts(peer, ip) ==> next.reserved(scope) == b.reserved(scope) + capacity
            &&& !scope.counts(peer, ip) ==> next.reserved(scope) == b.reserved(scope)
            &&& next.committed(scope) == crate::window::live(
                b.committed(scope),
                now,
                60_000_000_000,
            )
            &&& next.service_slots().dom().contains((peer, slot))
            &&& next.service_slots()[(peer, slot)] == RelayBackoffHeartbeatServiceSlot::Reserved(id)
            &&& next.active_peers().dom().contains(peer) && next.active_peers()[peer] == slot
            &&& next.cursors() == b.cursors() && next.service_epoch() == b.service_epoch()
        }),
{
}

/// What a settled reservation leaves: its room free, one live packet for each
/// that was sent but no more than were reserved, and its slot marked as served
/// where something was, open again where nothing was.
pub proof fn law_settled_reservation(
    b: RelayBackoffHeartbeatBudget,
    next: RelayBackoffHeartbeatBudget,
    id: u64,
    actual: usize,
    now: u64,
    scope: HeartbeatScope,
    other: u64,
)
    requires
        b.settled_to(&next, id, actual, now),
        b.sound(),
        b.reservations().dom().contains(id),
        other != id,
    ensures
        ({
            let r = b.reservations()[id];
            let counts = scope.counts(r.peer, r.remote_ip);
            let n = next.committed(scope).len() - b.committed(scope).len();
            let key = (r.peer, r.slot);
            &&& !next.reservations().dom().contains(id)
            &&& next.reservations().dom().contains(other) == b.reservations().dom().contains(other)
            &&& counts ==> next.reserved(scope) + r.capacity == b.reserved(scope)
            &&& !counts ==> next.reserved(scope) == b.reserved(scope) && next.committed(scope)
                == b.committed(scope)
            &&& counts && actual <= r.capacity ==> n == actual
            &&& counts && actual > r.capacity ==> n == r.capacity
            &&& forall|i: int|
                b.committed(scope).len() <= i < next.committed(scope).len()
                    ==> #[trigger] next.committed(scope)[i] == now
            &&& actual > 0 && r.capacity > 0 ==> next.service_slots().dom().contains(key)
                && next.service_slots()[key] == RelayBackoffHeartbeatServiceSlot::Committed
            &&& actual == 0 ==> !next.service_slots().dom().contains(key)
            &&& next.active_peers() == b.active_peers() && next.cursors() == b.cursors()
            &&& next.service_epoch() == b.service_epoch()
            &&& next.next_reservation_id() == b.next_reservation_id()
        }),
{
    assert(b.marks(id));
}

/// A budget that stays the same stays so in everything that is known of it.
pub proof fn law_same_budget(
    b: RelayBackoffHeartbeatBudget,
    next: RelayBackoffHeartbeatBudget,
    scope: HeartbeatScope,
)
    requires
        b.same_as(&next),
    ensures
        next.committed(scope) == b.committed(scope),
        next.reserved(scope) == b.reserved(scope),
        next.reservations() == b.reservations(),
        next.service_slots() == b.service_slots(),
        next.active_peers() == b.active_peers(),
        next.cursors() == b.cursors(),
        next.service_epoch() == b.service_epoch(),
        next.next_reservation_id() == b.next_reservation_id(),
{
}

/// In a sound budget every reservation has its slot marked and a number that
/// was given out, what is held is what the reservations may send, and no limit
/// is exceeded.
pub proof fn law_sound_budget(b: RelayBackoffHeartbeatBudget, id: u64, scope: HeartbeatScope)
    requires
        b.sound(),
    ensures
        b.reservations().dom().contains(id) ==> id < b.next_reservation_id()
            && b.service_slots().dom().contains(
            (b.reservations()[id].peer, b.reservations()[id].slot),
        ) && b.service_slots()[(b.reservations()[id].peer, b.reservations()[id].slot)]
            == RelayBackoffHeartbeatServiceSlot::Reserved(id),
        b.reserved(scope) == held(b.reservations(), scope),
        b.committed(scope).len() + b.reserved(scope) <= scope.limit(),
{
    if b.reservations().dom().contains(id) {
        assert(b.marks(id));
    }
}

} // verus!

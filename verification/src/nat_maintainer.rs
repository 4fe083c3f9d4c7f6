//! Workers that keep NAT bindings toward a peer warm: one lease for each
//! peer, endpoint and socket, and one worker for each lease.

use vstd::prelude::*;
use crate::histogram::max_u64;
use crate::net::SocketAddr;
use crate::table::{Table, TableKey};
use crate::window::saturating_since;

verus! {

/// A binding that is kept warm.
pub struct Binding {
    pub peer_id: String,
    pub endpoint: SocketAddr,
    pub socket_index: usize,
}

/// What a [`Binding`] stands for.
pub struct Bound {
    pub peer: Seq<char>,
    pub endpoint: SocketAddr,
    pub socket: usize,
}

impl TableKey for Binding {
    type Name = Bound;

    open spec fn name(&self) -> Bound {
        Bound { peer: self.peer_id@, endpoint: self.endpoint, socket: self.socket_index }
    }

    fn same(&self, other: &Self) -> (r: bool) {
        self.peer_id == other.peer_id && self.endpoint == other.endpoint && self.socket_index
            == other.socket_index
    }
}

/// How long a binding is kept warm, and by which worker.
#[derive(Clone, Copy, Debug, PartialEq, Eq, Structural)]
pub struct NatMaintainerLease {
    pub expires_at: u64,
    pub worker_token: u64,
}

impl NatMaintainerLease {
    /// The lease held until at least `expires_at`.
    pub open spec fn renewed(self, expires_at: u64) -> NatMaintainerLease {
        NatMaintainerLease {
            expires_at: crate::histogram::max64(self.expires_at, expires_at),
            ..self
        }
    }

    pub fn renew_until(&mut self, expires_at: u64)
        ensures
            *final(self) == old(self).renewed(expires_at),
    {
        self.expires_at = max_u64(self.expires_at, expires_at);
    }
}

/// What a worker finds of its lease.
#[derive(Clone, Copy, Debug, PartialEq, Eq, Structural)]
pub enum NatMaintainerLeaseStatus {
    /// The lease holds until then.
    Active(u64),
    Expired,
    /// Another worker has it.
    Replaced,
}

/// The leases that have not run out at `now`.
pub open spec fn unexpired(leases: Map<Bound, NatMaintainerLease>, now: u64) -> Map<
    Bound,
    NatMaintainerLease,
> {
    crate::table::kept(leases, |_b: Bound, l: NatMaintainerLease| l.expires_at > now)
}

/// The first `n` sockets, in order, that hold a lease (or that hold none).
pub open spec fn sockets_with(
    leases: Map<Bound, NatMaintainerLease>,
    peer: Seq<char>,
    endpoint: SocketAddr,
    held: bool,
    n: nat,
) -> Seq<usize>
    decreases n,
{
    if n == 0 {
        Seq::empty()
    } else {
        let before = sockets_with(leases, peer, endpoint, held, (n - 1) as nat);
        let socket = (n - 1) as usize;
        if leases.dom().contains(Bound { peer, endpoint, socket }) == held {
            before.push(socket)
        } else {
            before
        }
    }
}

/// The leases after the first `n` sockets renewed theirs or were given one.
pub open spec fn leased(
    leases: Map<Bound, NatMaintainerLease>,
    peer: Seq<char>,
    endpoint: SocketAddr,
    n: nat,
    expires_at: u64,
    first_token: u64,
) -> Map<Bound, NatMaintainerLease> {
    Map::new(
        |b: Bound|
            leases.dom().contains(b) || (b.peer == peer && b.endpoint == endpoint && b.socket < n),
        |b: Bound|
            if b.peer != peer || b.endpoint != endpoint || b.socket >= n {
                leases[b]
            } else if leases.dom().contains(b) {
                leases[b].renewed(expires_at)
            } else {
                NatMaintainerLease {
                    expires_at,
                    worker_token: (first_token + sockets_with(
                        leases,
                        peer,
                        endpoint,
                        false,
                        b.socket as nat,
                    ).len()) as u64,
                }
            },
    )
}

proof fn lemma_sockets_len(
    leases: Map<Bound, NatMaintainerLease>,
    peer: Seq<char>,
    endpoint: SocketAddr,
    n: nat,
)
    ensures
        sockets_with(leases, peer, endpoint, false, n).len() + sockets_with(
            leases,
            peer,
            endpoint,
            true,
            n,
        ).len() == n,
    decreases n,
{
    if n > 0 {
        lemma_sockets_len(leases, peer, endpoint, (n - 1) as nat);
    }
}

/// The bindings kept warm.
pub struct NatMaintainers {
    pub leases: Table<Binding, NatMaintainerLease>,
    pub next_token: u64,
}

/// The workers to start, each with its token, and the sockets that have one.
pub struct MaintainerStart {
    pub started: Vec<(usize, u64)>,
    pub suppressed: Vec<usize>,
}

impl NatMaintainers {
    pub open spec fn wf(&self) -> bool {
        &&& self.leases.wf()
        &&& forall|b: Bound| #[trigger]
            self.leases@.dom().contains(b) ==> self.leases@[b].worker_token < self.next_token
        &&& forall|a: Bound, b: Bound| #[trigger]
            self.leases@.dom().contains(a) && #[trigger] self.leases@.dom().contains(b) && a != b
                ==> self.leases@[a].worker_token != self.leases@[b].worker_token
    }

    pub fn new() -> (r: Self)
        ensures
            r.wf(),
            r.leases@ == Map::<Bound, NatMaintainerLease>::empty(),
            r.next_token == 0,
    {
        NatMaintainers { leases: Table::new(), next_token: 0 }
    }

    /// Whether a request asks for any maintenance.
    pub open spec fn asks(interval: u64, duration: u64, sockets: usize) -> bool {
        interval > 0 && duration > 0 && sockets > 0
    }

    /// What a request does: every socket without an unexpired lease gets one
    /// and a worker, with a token of its own, and every other lease is held for
    /// longer.
    pub open spec fn starts_to(
        &self,
        next: &NatMaintainers,
        started: Seq<(usize, u64)>,
        suppressed: Seq<usize>,
        peer: Seq<char>,
        endpoint: SocketAddr,
        interval: u64,
        duration: u64,
        sockets: usize,
        now: u64,
    ) -> bool {
        if Self::asks(interval, duration, sockets) {
            let live = unexpired(self.leases@, now);
            let fresh = sockets_with(live, peer, endpoint, false, sockets as nat);
            &&& started == Seq::new(fresh.len(), |k: int| (fresh[k], (self.next_token + k) as u64))
            &&& suppressed == sockets_with(live, peer, endpoint, true, sockets as nat)
            &&& next.next_token == self.next_token + fresh.len()
            &&& next.leases@ == leased(
                live,
                peer,
                endpoint,
                sockets as nat,
                (now + duration) as u64,
                self.next_token,
            )
        } else {
            &&& started.len() == 0
            &&& suppressed.len() == 0
            &&& next.leases@ == self.leases@
            &&& next.next_token == self.next_token
        }
    }

    /// Renews the lease of every socket that has one, and gives one to every
    /// socket that has none. A request that asks for nothing changes nothing.
    pub fn start(
        &mut self,
        peer_id: &str,
        endpoint: SocketAddr,
        interval: u64,
        duration: u64,
        socket_count: usize,
        now: u64,
    ) -> (r: MaintainerStart)
        requires
            old(self).wf(),
            Self::asks(interval, duration, socket_count) ==> now + duration <= u64::MAX,
            Self::asks(interval, duration, socket_count) ==> old(self).next_token + socket_count
                <= u64::MAX,
        ensures
            final(self).wf(),
            old(self).starts_to(
                final(self),
                r.started@,
                r.suppressed@,
                peer_id@,
                endpoint,
                interval,
                duration,
                socket_count,
                now,
            ),
            !Self::asks(interval, duration, socket_count) ==> *final(self) == *old(self),
    {
        let mut started: Vec<(usize, u64)> = Vec::new();
        let mut suppressed: Vec<usize> = Vec::new();
        if interval == 0 || duration == 0 || socket_count == 0 {
            return MaintainerStart { started, suppressed };
        }
        let expires_at: u64 = now + duration;
        let unexpired_lease = |_b: &Binding, l: &NatMaintainerLease| -> (r: bool)
            ensures
                r == (l.expires_at > now),
        {
            l.expires_at > now
        };
        self.leases.retain(
            unexpired_lease,
            Ghost(|_b: Bound, l: NatMaintainerLease| l.expires_at > now),
        );
        let ghost live = unexpired(old(self).leases@, now);
        let ghost first = old(self).next_token;
        assert(self.leases@ =~= live);
        assert(leased(live, peer_id@, endpoint, 0, expires_at, first) =~= live);
        let mut socket: usize = 0;
        while socket < socket_count
            invariant
                socket <= socket_count,
                self.wf(),
                first + socket_count <= u64::MAX,
                first == old(self).next_token,
                self.next_token == first + sockets_with(
                    live,
                    peer_id@,
                    endpoint,
                    false,
                    socket as nat,
                ).len(),
                self.leases@ == leased(live, peer_id@, endpoint, socket as nat, expires_at, first),
                started@ =~= ({
                    let fresh = sockets_with(live, peer_id@, endpoint, false, socket as nat);
                    Seq::new(fresh.len(), |k: int| (fresh[k], (first + k) as u64))
                }),
                suppressed@ == sockets_with(live, peer_id@, endpoint, true, socket as nat),
            decreases socket_count - socket,
        {
            proof {
                lemma_sockets_len(live, peer_id@, endpoint, socket as nat);
            }
            let key = Binding { peer_id: peer_id.to_owned(), endpoint, socket_index: socket };
            let ghost name = key.name();
            let ghost before = self.leases@;
            assert(before.dom().contains(name) == live.dom().contains(name));
            let held: bool = match self.leases.get_mut(&key) {
                Some(lease) => {
                    lease.renew_until(expires_at);
                    true
                },
                None => false,
            };
            if held {
                suppressed.push(socket);
            } else {
                let worker_token: u64 = self.next_token;
                self.next_token = worker_token + 1;
                let _ = self.leases.insert(key, NatMaintainerLease { expires_at, worker_token });
                started.push((socket, worker_token));
            }
            assert(self.leases@ =~= leased(
                live,
                peer_id@,
                endpoint,
                (socket + 1) as nat,
                expires_at,
                first,
            ));
            socket += 1;
        }
        assert(started@ =~= ({
            let fresh = sockets_with(live, peer_id@, endpoint, false, socket_count as nat);
            Seq::new(fresh.len(), |k: int| (fresh[k], (old(self).next_token + k) as u64))
        }));
        MaintainerStart { started, suppressed }
    }

    /// What a worker finds of its lease at `now`.
    pub open spec fn spec_status(&self, binding: Bound, worker_token: u64, now: u64) ->
        NatMaintainerLeaseStatus {
        if !self.leases@.dom().contains(binding) {
            NatMaintainerLeaseStatus::Expired
        } else if self.leases@[binding].worker_token != worker_token {
            NatMaintainerLeaseStatus::Replaced
        } else if self.leases@[binding].expires_at > now {
            NatMaintainerLeaseStatus::Active(self.leases@[binding].expires_at)
        } else {
            NatMaintainerLeaseStatus::Expired
        }
    }

    /// Looks up a worker's lease, and drops it where it has run out.
    pub fn nat_maintainer_lease_status(
        &mut self,
        binding: &Binding,
        worker_token: u64,
        now: u64,
    ) -> (status: NatMaintainerLeaseStatus)
        requires
            old(self).wf(),
        ensures
            final(self).wf(),
            final(self).next_token == old(self).next_token,
            status == old(self).spec_status(binding.name(), worker_token, now),
            final(self).leases@ == if status is Expired {
                old(self).leases@.remove(binding.name())
            } else {
                old(self).leases@
            },
    {
        let status: NatMaintainerLeaseStatus = match self.leases.get(binding) {
            None => NatMaintainerLeaseStatus::Expired,
            Some(lease) => {
                if lease.worker_token != worker_token {
                    NatMaintainerLeaseStatus::Replaced
                } else if lease.expires_at > now {
                    NatMaintainerLeaseStatus::Active(lease.expires_at)
                } else {
                    NatMaintainerLeaseStatus::Expired
                }
            },
        };
        if matches!(status, NatMaintainerLeaseStatus::Expired) {
            let _ = self.leases.remove(binding);
        }
        status
    }

    /// Drops a worker's lease, unless another worker has it.
    pub fn remove_nat_maintainer_lease_if_owned(
        &mut self,
        binding: &Binding,
        worker_token: u64,
    ) -> (removed: bool)
        requires
            old(self).wf(),
        ensures
            final(self).wf(),
            final(self).next_token == old(self).next_token,
            removed == (old(self).leases@.dom().contains(binding.name())
                && old(self).leases@[binding.name()].worker_token == worker_token),
            final(self).leases@ == if removed {
                old(self).leases@.remove(binding.name())
            } else {
                old(self).leases@
            },
    {
        let owned: bool = match self.leases.get(binding) {
            Some(lease) => lease.worker_token == worker_token,
            None => false,
        };
        if owned {
            let _ = self.leases.remove(binding);
        }
        owned
    }
}

/// Why a worker stopped.
#[derive(Clone, Copy, Debug, PartialEq, Eq, Structural)]
pub enum MaintainerStop {
    DurationElapsed,
    LeaseReplaced,
    DirectConfirmed,
    SendError,
}

impl MaintainerStop {
    pub open spec fn text(self) -> Seq<char> {
        match self {
            Self::DurationElapsed => "duration_elapsed"@,
            Self::LeaseReplaced => "lease_replaced"@,
            Self::DirectConfirmed => "direct_confirmed"@,
            Self::SendError => "send_error"@,
        }
    }

    pub fn reason(self) -> (r: &'static str)
        ensures
            r@ == self.text(),
    {
        match self {
            Self::DurationElapsed => "duration_elapsed",
            Self::LeaseReplaced => "lease_replaced",
            Self::DirectConfirmed => "direct_confirmed",
            Self::SendError => "send_error",
        }
    }
}

/// What a worker waits for.
#[derive(Clone, Copy, Debug, PartialEq, Eq, Structural)]
pub enum MaintainerPhase {
    /// Its lease, before the first beat.
    Initial,
    /// Whether the peer is direct, and its lease, before a beat.
    Beat,
    /// Whether its budget has room.
    Admission,
    /// The outcome of the send.
    Sending,
    /// Its lease, after a beat.
    Pause,
    Stopped(MaintainerStop),
}

/// The status of a lease, as a stop.
pub open spec fn lease_stop(status: NatMaintainerLeaseStatus) -> Option<MaintainerStop> {
    match status {
        NatMaintainerLeaseStatus::Active(_) => None,
        NatMaintainerLeaseStatus::Expired => Some(MaintainerStop::DurationElapsed),
        NatMaintainerLeaseStatus::Replaced => Some(MaintainerStop::LeaseReplaced),
    }
}

/// The shorter of a wait and what is left until `deadline`.
pub open spec fn wait_until(wait: u64, deadline: u64, now: u64) -> u64 {
    if wait <= crate::window::elapsed(deadline, now) {
        wait
    } else {
        crate::window::elapsed(deadline, now)
    }
}

fn shorter_wait(wait: u64, deadline: u64, now: u64) -> (r: u64)
    ensures
        r == wait_until(wait, deadline, now),
{
    let left: u64 = saturating_since(deadline, now);
    if wait <= left {
        wait
    } else {
        left
    }
}

/// A worker that keeps one binding warm.
#[derive(Clone, Copy, Debug, PartialEq, Eq, Structural)]
pub struct MaintainerWorker {
    pub interval: u64,
    pub initial_delay: u64,
    pub phase: MaintainerPhase,
    pub sent: u32,
    pub skipped: u32,
}

impl MaintainerWorker {
    /// A worker; without an initial delay its first beat comes at once.
    pub fn new(interval: u64, initial_delay: u64) -> (worker: Self)
        ensures
            worker == (MaintainerWorker {
                interval,
                initial_delay,
                phase: if initial_delay == 0 {
                    MaintainerPhase::Beat
                } else {
                    MaintainerPhase::Initial
                },
                sent: 0,
                skipped: 0,
            }),
    {
        MaintainerWorker {
            interval,
            initial_delay,
            phase: if initial_delay == 0 {
                MaintainerPhase::Beat
            } else {
                MaintainerPhase::Initial
            },
            sent: 0,
            skipped: 0,
        }
    }

    fn stop_for(&mut self, status: NatMaintainerLeaseStatus) -> (stopped: bool)
        ensures
            stopped == (lease_stop(status) is Some),
            *final(self) == match lease_stop(status) {
                Some(stop) => MaintainerWorker {
                    phase: MaintainerPhase::Stopped(stop),
                    ..*old(self)
                },
                None => *old(self),
            },
    {
        match status {
            NatMaintainerLeaseStatus::Active(_) => false,
            NatMaintainerLeaseStatus::Expired => {
                self.phase = MaintainerPhase::Stopped(MaintainerStop::DurationElapsed);
                true
            },
            NatMaintainerLeaseStatus::Replaced => {
                self.phase = MaintainerPhase::Stopped(MaintainerStop::LeaseReplaced);
                true
            },
        }
    }

    /// The wait before the first beat, where the lease still holds.
    pub fn on_initial(&mut self, status: NatMaintainerLeaseStatus, now: u64) -> (wait: Option<u64>)
        requires
            old(self).phase is Initial,
        ensures
            match status {
                NatMaintainerLeaseStatus::Active(deadline) => {
                    &&& wait == Some(wait_until(old(self).initial_delay, deadline, now))
                    &&& *final(self) == (MaintainerWorker {
                        phase: MaintainerPhase::Beat,
                        ..*old(self)
                    })
                },
                _ => wait is None && *final(self) == (MaintainerWorker {
                    phase: MaintainerPhase::Stopped(lease_stop(status)->0),
                    ..*old(self)
                }),
            },
    {
        if self.stop_for(status) {
            return None;
        }
        self.phase = MaintainerPhase::Beat;
        match status {
            NatMaintainerLeaseStatus::Active(deadline) => Some(
                shorter_wait(self.initial_delay, deadline, now),
            ),
            _ => None,
        }
    }

    /// A direct path ends the maintenance before its lease is looked at.
    pub fn on_beat(&mut self, direct: bool, status: NatMaintainerLeaseStatus) -> (ask: bool)
        requires
            old(self).phase is Beat,
        ensures
            ask == (!direct && status is Active),
            *final(self) == (MaintainerWorker {
                phase: if direct {
                    MaintainerPhase::Stopped(MaintainerStop::DirectConfirmed)
                } else {
                    match lease_stop(status) {
                        Some(stop) => MaintainerPhase::Stopped(stop),
                        None => MaintainerPhase::Admission,
                    }
                },
                ..*old(self)
            }),
    {
        if direct {
            self.phase = MaintainerPhase::Stopped(MaintainerStop::DirectConfirmed);
            return false;
        }
        if self.stop_for(status) {
            return false;
        }
        self.phase = MaintainerPhase::Admission;
        true
    }

    /// A beat that the budget holds back is skipped, not failed.
    pub fn on_admission(&mut self, admitted: bool)
        requires
            old(self).phase is Admission,
        ensures
            *final(self) == if admitted {
                MaintainerWorker { phase: MaintainerPhase::Sending, ..*old(self) }
            } else {
                MaintainerWorker {
                    phase: MaintainerPhase::Pause,
                    skipped: crate::histogram::add32(old(self).skipped, 1),
                    ..*old(self)
                }
            },
    {
        if admitted {
            self.phase = MaintainerPhase::Sending;
        } else {
            self.skipped = self.skipped.saturating_add(1);
            self.phase = MaintainerPhase::Pause;
        }
    }

    /// A failed send ends the maintenance.
    pub fn on_sent(&mut self, sent: bool)
        requires
            old(self).phase is Sending,
        ensures
            *final(self) == if sent {
                MaintainerWorker {
                    phase: MaintainerPhase::Pause,
                    sent: crate::histogram::add32(old(self).sent, 1),
                    ..*old(self)
                }
            } else {
                MaintainerWorker {
                    phase: MaintainerPhase::Stopped(MaintainerStop::SendError),
                    ..*old(self)
                }
            },
    {
        if sent {
            self.sent = self.sent.saturating_add(1);
            self.phase = MaintainerPhase::Pause;
        } else {
            self.phase = MaintainerPhase::Stopped(MaintainerStop::SendError);
        }
    }

    /// The wait before the next beat, where the lease still holds.
    pub fn on_pause(&mut self, status: NatMaintainerLeaseStatus, now: u64) -> (wait: Option<u64>)
        requires
            old(self).phase is Pause,
        ensures
            match status {
                NatMaintainerLeaseStatus::Active(deadline) => {
                    &&& wait == Some(wait_until(old(self).interval, deadline, now))
                    &&& *final(self) == (MaintainerWorker {
                        phase: MaintainerPhase::Beat,
                        ..*old(self)
                    })
                },
                _ => wait is None && *final(self) == (MaintainerWorker {
                    phase: MaintainerPhase::Stopped(lease_stop(status)->0),
                    ..*old(self)
                }),
            },
    {
        if self.stop_for(status) {
            return None;
        }
        self.phase = MaintainerPhase::Beat;
        match status {
            NatMaintainerLeaseStatus::Active(deadline) => Some(
                shorter_wait(self.interval, deadline, now),
            ),
            _ => None,
        }
    }

    /// Why the last beat that was skipped was.
    pub fn last_skip_reason(&self) -> (r: &'static str)
        ensures
            r@ == if self.skipped > 0 {
                "nat_maintainer_budget_limited"@
            } else {
                "none"@
            },
    {
        if self.skipped > 0 {
            "nat_maintainer_budget_limited"
        } else {
            "none"
        }
    }
}

proof fn lemma_sockets_are(
    leases: Map<Bound, NatMaintainerLease>,
    peer: Seq<char>,
    endpoint: SocketAddr,
    held: bool,
    n: nat,
)
    requires
        n <= usize::MAX,
    ensures
        forall|socket: usize| #[trigger]
            sockets_with(leases, peer, endpoint, held, n).contains(socket) <==> socket < n
                && leases.dom().contains(Bound { peer, endpoint, socket }) == held,
        forall|i: int, j: int|
            0 <= i < j < sockets_with(leases, peer, endpoint, held, n).len() ==> (
            #[trigger] sockets_with(leases, peer, endpoint, held, n)[i]) < (
            #[trigger] sockets_with(leases, peer, endpoint, held, n)[j]),
    decreases n,
{
    if n > 0 {
        let m = (n - 1) as nat;
        let last = m as usize;
        let before = sockets_with(leases, peer, endpoint, held, m);
        let after = sockets_with(leases, peer, endpoint, held, n);
        lemma_sockets_are(leases, peer, endpoint, held, m);
        assert forall|socket: usize| #[trigger] after.contains(socket) <==> socket < n
            && leases.dom().contains(Bound { peer, endpoint, socket }) == held by {
            assert(before.contains(socket) <==> socket < m && leases.dom().contains(
                Bound { peer, endpoint, socket },
            ) == held);
            if before.contains(socket) {
                let k = choose|k: int| 0 <= k < before.len() && before[k] == socket;
                assert(after[k] == socket);
            }
            if socket == last && after.len() > before.len() {
                assert(after[before.len() as int] == socket);
            }
        }
        assert forall|i: int, j: int| 0 <= i < j < after.len() implies (#[trigger] after[i]) < (
        #[trigger] after[j]) by {
            if j == before.len() {
                assert(before.contains(before[i]));
            }
        }
    }
}

/// A request without an interval or a duration starts no worker and gives or
/// renews no lease.
pub proof fn law_no_interval_or_duration_starts_nothing(
    before: NatMaintainers,
    after: NatMaintainers,
    started: Seq<(usize, u64)>,
    suppressed: Seq<usize>,
    peer: Seq<char>,
    endpoint: SocketAddr,
    interval: u64,
    duration: u64,
    sockets: usize,
    now: u64,
)
    requires
        interval == 0 || duration == 0,
        before.starts_to(
            &after,
            started,
            suppressed,
            peer,
            endpoint,
            interval,
            duration,
            sockets,
            now,
        ),
    ensures
        started.len() == 0,
        after.leases@ == before.leases@,
{
}

/// Any other request starts one worker for each socket that has no unexpired
/// lease, in the order of the sockets, and no further one.
pub proof fn law_workers_start_for_sockets_without_lease(
    before: NatMaintainers,
    after: NatMaintainers,
    started: Seq<(usize, u64)>,
    suppressed: Seq<usize>,
    peer: Seq<char>,
    endpoint: SocketAddr,
    interval: u64,
    duration: u64,
    sockets: usize,
    now: u64,
    socket: usize,
)
    requires
        interval > 0,
        duration > 0,
        before.starts_to(
            &after,
            started,
            suppressed,
            peer,
            endpoint,
            interval,
            duration,
            sockets,
            now,
        ),
    ensures
        (exists|i: int| 0 <= i < started.len() && (#[trigger] started[i]).0 == socket) <==> socket
            < sockets && !unexpired(before.leases@, now).dom().contains(
            Bound { peer, endpoint, socket },
        ),
        forall|i: int, j: int|
            0 <= i < j < started.len() ==> (#[trigger] started[i]).0 < (#[trigger] started[j]).0,
{
    let live = unexpired(before.leases@, now);
    let fresh = sockets_with(live, peer, endpoint, false, sockets as nat);
    lemma_sockets_are(live, peer, endpoint, false, sockets as nat);
    if sockets > 0 {
        assert(fresh.contains(socket) <==> socket < sockets && live.dom().contains(
            Bound { peer, endpoint, socket },
        ) == false);
        if fresh.contains(socket) {
            let k = choose|k: int| 0 <= k < fresh.len() && fresh[k] == socket;
            assert(started[k].0 == socket);
        }
        assert forall|i: int|
            0 <= i < started.len() && (#[trigger] started[i]).0 == socket implies fresh.contains(
            socket,
        ) by {
            assert(fresh[i] == socket);
        }
        assert forall|i: int, j: int| 0 <= i < j < started.len() implies (
        #[trigger] started[i]).0 < (#[trigger] started[j]).0 by {
            assert(fresh[i] < fresh[j]);
        }
    }
}

/// The same request once more, while the leases that it gave hold, starts no
/// worker.
pub proof fn law_equal_request_starts_nothing(
    before: NatMaintainers,
    between: NatMaintainers,
    after: NatMaintainers,
    started: Seq<(usize, u64)>,
    suppressed: Seq<usize>,
    started_again: Seq<(usize, u64)>,
    suppressed_again: Seq<usize>,
    peer: Seq<char>,
    endpoint: SocketAddr,
    interval: u64,
    duration: u64,
    sockets: usize,
    now: u64,
    again: u64,
)
    requires
        now + duration <= u64::MAX,
        again < now + duration || !NatMaintainers::asks(interval, duration, sockets),
        before.starts_to(
            &between,
            started,
            suppressed,
            peer,
            endpoint,
            interval,
            duration,
            sockets,
            now,
        ),
        between.starts_to(
            &after,
            started_again,
            suppressed_again,
            peer,
            endpoint,
            interval,
            duration,
            sockets,
            again,
        ),
    ensures
        started_again.len() == 0,
{
    if NatMaintainers::asks(interval, duration, sockets) {
        let live = unexpired(between.leases@, again);
        let fresh = sockets_with(live, peer, endpoint, false, sockets as nat);
        lemma_sockets_are(live, peer, endpoint, false, sockets as nat);
        if fresh.len() > 0 {
            let socket = fresh[0];
            assert(fresh.contains(socket));
            assert(between.leases@.dom().contains(Bound { peer, endpoint, socket }));
            assert(live.dom().contains(Bound { peer, endpoint, socket }));
        }
    }
}

/// A started worker owns the lease of its socket until the lease runs out.
pub proof fn law_started_worker_owns_its_lease(
    before: NatMaintainers,
    after: NatMaintainers,
    peer: Seq<char>,
    endpoint: SocketAddr,
    sockets: usize,
    socket: usize,
    expires_at: u64,
    now: u64,
)
    requires
        socket < sockets,
        expires_at > now,
        !unexpired(before.leases@, now).dom().contains(Bound { peer, endpoint, socket }),
        after.leases@ == leased(
            unexpired(before.leases@, now),
            peer,
            endpoint,
            sockets as nat,
            expires_at,
            before.next_token,
        ),
    ensures
        after.spec_status(
            Bound { peer, endpoint, socket },
            (before.next_token + sockets_with(
                unexpired(before.leases@, now),
                peer,
                endpoint,
                false,
                socket as nat,
            ).len()) as u64,
            now,
        ) == NatMaintainerLeaseStatus::Active(expires_at),
{
}

/// A second request for a binding that is kept warm starts no second worker:
/// the lease keeps its worker and is only ever prolonged.
pub proof fn law_one_worker_for_a_binding(
    before: NatMaintainers,
    after: NatMaintainers,
    peer: Seq<char>,
    endpoint: SocketAddr,
    sockets: usize,
    expires_at: u64,
    now: u64,
    binding: Bound,
)
    requires
        before.leases@.dom().contains(binding),
        before.leases@[binding].expires_at > now,
        after.leases@ == leased(
            unexpired(before.leases@, now),
            peer,
            endpoint,
            sockets as nat,
            expires_at,
            before.next_token,
        ),
    ensures
        after.leases@.dom().contains(binding),
        after.leases@[binding].worker_token == before.leases@[binding].worker_token,
        after.leases@[binding].expires_at >= before.leases@[binding].expires_at,
{
    assert(unexpired(before.leases@, now).dom().contains(binding));
}

/// A renewed lease keeps its worker and never ends earlier.
pub proof fn law_renewed_lease(lease: NatMaintainerLease, expires_at: u64)
    ensures
        lease.renewed(expires_at).worker_token == lease.worker_token,
        expires_at > lease.expires_at ==> lease.renewed(expires_at).expires_at == expires_at,
        expires_at <= lease.expires_at ==> lease.renewed(expires_at).expires_at
            == lease.expires_at,
{
}

/// A lease holds exactly until it ends.
pub proof fn law_unexpired_leases(
    leases: Map<Bound, NatMaintainerLease>,
    now: u64,
    binding: Bound,
)
    ensures
        unexpired(leases, now).dom().contains(binding) <==> leases.dom().contains(binding) && now
            < leases[binding].expires_at,
        unexpired(leases, now).dom().contains(binding) ==> unexpired(leases, now)[binding]
            == leases[binding],
{
}

/// The sockets with a lease and those without are together all of them, each
/// in one of the two lists, in order.
pub proof fn law_sockets_by_lease(
    leases: Map<Bound, NatMaintainerLease>,
    peer: Seq<char>,
    endpoint: SocketAddr,
    held: bool,
    n: nat,
    socket: usize,
)
    requires
        n <= usize::MAX,
    ensures
        sockets_with(leases, peer, endpoint, held, n).contains(socket) <==> socket < n && (
        leases.dom().contains(Bound { peer, endpoint, socket }) <==> held),
        sockets_with(leases, peer, endpoint, held, n).len() + sockets_with(
            leases,
            peer,
            endpoint,
            !held,
            n,
        ).len() == n,
        forall|i: int, j: int|
            #![trigger sockets_with(leases, peer, endpoint, held, n)[i], sockets_with(leases, peer, endpoint, held, n)[j]]
            0 <= i < j < sockets_with(leases, peer, endpoint, held, n).len() ==> sockets_with(
                leases,
                peer,
                endpoint,
                held,
                n,
            )[i] < sockets_with(leases, peer, endpoint, held, n)[j],
        forall|i: int|
            0 <= i < sockets_with(leases, peer, endpoint, held, n).len()
                ==> #[trigger] sockets_with(leases, peer, endpoint, held, n)[i] < n,
    decreases n,
{
    if n > 0 {
        let m = (n - 1) as nat;
        law_sockets_by_lease(leases, peer, endpoint, held, m, socket);
        law_sockets_by_lease(leases, peer, endpoint, !held, m, socket);
        let before = sockets_with(leases, peer, endpoint, held, m);
        let after = sockets_with(leases, peer, endpoint, held, n);
        let last = m as usize;
        if leases.dom().contains(Bound { peer, endpoint, socket: last }) == held {
            assert(after == before.push(last));
            if before.contains(socket) {
                let i = choose|i: int| 0 <= i < before.len() && before[i] == socket;
                assert(after[i] == socket);
            }
            if socket == last {
                assert(after[after.len() - 1] == socket);
            }
            if after.contains(socket) {
                let i = choose|i: int| 0 <= i < after.len() && after[i] == socket;
                if i < before.len() {
                    assert(before[i] == socket);
                }
            }
            assert forall|i: int, j: int|
                #![trigger after[i], after[j]]
                0 <= i < j < after.len() implies after[i] < after[j] by {
                if j < before.len() {
                    assert(before[i] < before[j]);
                } else {
                    assert(before[i] == after[i]);
                    assert(before[i] < m);
                }
            }
            assert forall|i: int| 0 <= i < after.len() implies #[trigger] after[i] < n by {
                if i < before.len() {
                    assert(before[i] == after[i]);
                }
            }
        }
    }
}

/// Every socket of the request is leased afterwards: one with a lease keeps its
/// worker, and no lease ends earlier than it did; no other binding changes.
pub proof fn law_leased_bindings(
    leases: Map<Bound, NatMaintainerLease>,
    peer: Seq<char>,
    endpoint: SocketAddr,
    n: nat,
    expires_at: u64,
    first_token: u64,
    binding: Bound,
)
    ensures
        ({
            let next = leased(leases, peer, endpoint, n, expires_at, first_token);
            let asked = binding.peer == peer && binding.endpoint == endpoint && binding.socket < n;
            let known = leases.dom().contains(binding);
            &&& next.dom().contains(binding) <==> known || asked
            &&& known && !asked ==> next[binding] == leases[binding]
            &&& known && asked ==> next[binding].worker_token == leases[binding].worker_token
            &&& known && asked && expires_at >= leases[binding].expires_at
                ==> next[binding].expires_at == expires_at
            &&& known && asked && expires_at < leases[binding].expires_at
                ==> next[binding].expires_at == leases[binding].expires_at
            &&& !known && asked ==> next[binding].expires_at == expires_at
        }),
{
}

/// A request starts a worker for each socket without a live lease, with fresh
/// tokens in order, and suppresses the others; one without an interval, a
/// duration or a socket does nothing.
pub proof fn law_request_starts_workers(
    m: NatMaintainers,
    next: NatMaintainers,
    started: Seq<(usize, u64)>,
    suppressed: Seq<usize>,
    peer: Seq<char>,
    endpoint: SocketAddr,
    interval: u64,
    duration: u64,
    sockets: usize,
    now: u64,
)
    requires
        m.starts_to(
            &next,
            started,
            suppressed,
            peer,
            endpoint,
            interval,
            duration,
            sockets,
            now,
        ),
        m.next_token + sockets <= u64::MAX,
        now + duration <= u64::MAX,
    ensures
        NatMaintainers::asks(interval, duration, sockets) <==> interval > 0 && duration > 0
            && sockets > 0,
        interval == 0 || duration == 0 || sockets == 0 ==> started.len() == 0 && suppressed.len()
            == 0 && next.leases@ == m.leases@ && next.next_token == m.next_token,
        interval > 0 && duration > 0 && sockets > 0 ==> started.len() + suppressed.len() == sockets
            && next.next_token == m.next_token + started.len() && (forall|k: int|
            0 <= k < started.len() ==> (#[trigger] started[k]).1 == m.next_token + k) && (forall|
            s: usize,
        |
            suppressed.contains(s) <==> #[trigger] unexpired(m.leases@, now).dom().contains(
                Bound { peer, endpoint, socket: s },
            ) && s < sockets) && (forall|s: usize|
            s < sockets ==> #[trigger] next.leases@.dom().contains(
                Bound { peer, endpoint, socket: s },
            ) && next.leases@[Bound { peer, endpoint, socket: s }].expires_at >= now + duration),
{
    if interval > 0 && duration > 0 && sockets > 0 {
        let live = unexpired(m.leases@, now);
        law_sockets_by_lease(live, peer, endpoint, false, sockets as nat, 0);
        assert forall|s: usize|
            suppressed.contains(s) <==> #[trigger] unexpired(m.leases@, now).dom().contains(
                Bound { peer, endpoint, socket: s },
            ) && s < sockets by {
            law_sockets_by_lease(live, peer, endpoint, true, sockets as nat, s);
        }
    }
}

/// A worker's lease is active exactly while it is there, is this worker's and
/// has not ended; of another worker's it is told that it was replaced.
pub proof fn law_lease_status(m: NatMaintainers, binding: Bound, token: u64, now: u64)
    ensures
        ({
            let s = m.spec_status(binding, token, now);
            let known = m.leases@.dom().contains(binding);
            let l = m.leases@[binding];
            &&& known && l.worker_token == token && now < l.expires_at <==> s is Active
            &&& s matches NatMaintainerLeaseStatus::Active(until) ==> until == l.expires_at
            &&& known && l.worker_token != token <==> s is Replaced
        }),
{
}

/// A worker stops exactly where its lease is not active, and tells why.
pub proof fn law_lease_stops_the_worker(until: u64)
    ensures
        lease_stop(NatMaintainerLeaseStatus::Active(until)) is None,
        lease_stop(NatMaintainerLeaseStatus::Expired) == Some(MaintainerStop::DurationElapsed),
        lease_stop(NatMaintainerLeaseStatus::Replaced) == Some(MaintainerStop::LeaseReplaced),
{
}

/// A worker waits as long as it is to, but not past the end of its lease.
pub proof fn law_wait_ends_with_the_lease(wait: u64, deadline: u64, now: u64)
    ensures
        deadline <= now ==> wait_until(wait, deadline, now) == 0,
        deadline > now && now + wait <= deadline ==> wait_until(wait, deadline, now) == wait,
        deadline > now && now + wait > deadline ==> wait_until(wait, deadline, now) == deadline
            - now,
{
}

} // verus!

//! The dedicated punch sockets: who owns one, which one a peer's traffic is
//! pinned to, and how a generation takes one over or gives it back.
//!
//! A socket starts provisional and belongs to the generation that measures
//! with it. Committing pins it as the peer's socket but keeps the way back
//! open; finalizing hands it over for good.

use vstd::prelude::*;
use crate::birthday::HardHardSocketSnapshot;
use crate::failure::ProbeSendFailureKind;
use crate::net::SocketAddr;
use crate::table::{Table, TableKey};
use crate::text::{is_text, same_text};

verus! {

#[derive(Clone, Copy, Debug, PartialEq, Eq, Structural)]
pub enum DynamicSocketPhase {
    /// Owned by the generation under way.
    Provisional,
    /// Pinned, but a cancelled generation still gives it back.
    CommittedPendingHandoff,
    /// Handed over: only the end of the peer removes it.
    Finalized,
}

impl DynamicSocketPhase {
    /// Whether peer traffic may use the socket.
    pub open spec fn usable(self) -> bool {
        !(self is Provisional)
    }

    pub fn is_usable(self) -> (r: bool)
        ensures
            r == self.usable(),
    {
        !matches!(self, DynamicSocketPhase::Provisional)
    }

    pub fn is_finalized(self) -> (r: bool)
        ensures
            r == (self is Finalized),
    {
        matches!(self, DynamicSocketPhase::Finalized)
    }
}

/// The socket that a peer's traffic uses. Every change of mind has a new
/// epoch.
#[derive(Clone, Copy, Debug, PartialEq, Eq, Structural)]
pub struct PeerSocketPin {
    pub socket_index: usize,
    pub epoch: u64,
}

/// A dedicated punch socket.
pub struct DynamicPunchSocket {
    pub socket_index: usize,
    pub local_endpoint: Option<SocketAddr>,
    pub peer_id: String,
    pub network_generation: u64,
    pub punch_generation: u64,
    pub hard_hard_session_token: Option<String>,
    pub created_at: u64,
    /// How often authenticated traffic of the peer came in on it.
    pub authenticated_evidence: u64,
    pub phase: DynamicSocketPhase,
}

/// What a [`DynamicPunchSocket`] is.
pub struct DynamicSocket {
    pub socket_index: usize,
    pub local_endpoint: Option<SocketAddr>,
    pub peer: Seq<char>,
    pub network_generation: u64,
    pub punch_generation: u64,
    pub token: Option<Seq<char>>,
    pub created_at: u64,
    pub evidence: u64,
    pub phase: DynamicSocketPhase,
}

impl DynamicPunchSocket {
    pub open spec fn view(&self) -> DynamicSocket {
        DynamicSocket {
            socket_index: self.socket_index,
            local_endpoint: self.local_endpoint,
            peer: self.peer_id@,
            network_generation: self.network_generation,
            punch_generation: self.punch_generation,
            token: crate::text::text_of(self.hard_hard_session_token),
            created_at: self.created_at,
            evidence: self.authenticated_evidence,
            phase: self.phase,
        }
    }
}

/// The outcome of a commit.
#[derive(Clone, Copy, Debug, PartialEq, Eq, Structural)]
pub struct CommitOutcome {
    pub committed: bool,
    /// The pin that the commit replaced. A cancelled generation restores it,
    /// but only while the peer is still pinned as this commit pinned it.
    pub predecessor: Option<PeerSocketPin>,
    /// The pin that the commit installed; a speculative receiver has none.
    pub installed: Option<PeerSocketPin>,
    /// The committed generation that this handoff depends on.
    pub generation_fence: u64,
    /// The socket's evidence at commit time. Evidence that came afterwards
    /// keeps the socket.
    pub evidence_at_commit: u64,
}

impl CommitOutcome {
    pub open spec fn spec_refused() -> CommitOutcome {
        CommitOutcome {
            committed: false,
            predecessor: None,
            installed: None,
            generation_fence: 0,
            evidence_at_commit: 0,
        }
    }

    pub fn refused() -> (r: CommitOutcome)
        ensures
            r == CommitOutcome::spec_refused(),
    {
        CommitOutcome {
            committed: false,
            predecessor: None,
            installed: None,
            generation_fence: 0,
            evidence_at_commit: 0,
        }
    }

    pub fn committed(&self) -> (r: bool)
        ensures
            r == self.committed,
    {
        self.committed
    }

    pub fn predecessor(&self) -> (r: Option<PeerSocketPin>)
        ensures
            r == self.predecessor,
    {
        self.predecessor
    }

    pub fn installed(&self) -> (r: Option<PeerSocketPin>)
        ensures
            r == self.installed,
    {
        self.installed
    }
}

#[derive(Clone, Copy, Debug, PartialEq, Eq, Structural)]
pub enum DynamicSocketAttachError {
    NoInboundChannel,
    Superseded,
    CapacityRejected,
    ReaderStartupFailed,
}

/// The exact socket that a session measured with.
pub struct SocketIdentity {
    pub peer_id: String,
    pub socket_index: usize,
    pub network_generation: u64,
    pub punch_generation: u64,
    pub session_token: String,
    pub socket_local_endpoint: SocketAddr,
}

/// Which indices are dedicated sockets, and how many of them there may be.
#[derive(Clone, Copy, Debug, PartialEq, Eq, Structural)]
pub struct SocketLimits {
    pub dynamic_index_base: usize,
    pub max_dynamic: usize,
}

/// The next epoch; the last one is never left.
pub open spec fn next_epoch(epoch: u64) -> u64 {
    if epoch < u64::MAX {
        (epoch + 1) as u64
    } else {
        epoch
    }
}

/// What a [`SocketState`] holds.
#[verifier::ext_equal]
pub struct Sockets {
    pub dynamic: Map<usize, DynamicSocket>,
    pub affinity: Map<Seq<char>, PeerSocketPin>,
    pub affinity_epoch: u64,
    pub cleanup_epochs: Map<Seq<char>, u64>,
    /// The newest generation that committed, by peer.
    pub committed: Map<Seq<char>, u64>,
}

impl Sockets {
    /// Whether a peer is pinned to a socket.
    pub open spec fn pinned(self, peer: Seq<char>, index: usize) -> bool {
        self.affinity.dom().contains(peer) && self.affinity[peer].socket_index == index
    }

    /// The pin of a peer.
    pub open spec fn pin(self, peer: Seq<char>) -> Option<PeerSocketPin> {
        if self.affinity.dom().contains(peer) {
            Some(self.affinity[peer])
        } else {
            None
        }
    }

    /// The cleanup epoch of a peer, zero where it was never cleaned up.
    pub open spec fn cleanup_epoch(self, peer: Seq<char>) -> u64 {
        if self.cleanup_epochs.dom().contains(peer) {
            self.cleanup_epochs[peer]
        } else {
            0
        }
    }

    /// The newest committed generation of a peer, zero where there is none.
    pub open spec fn committed_generation(self, peer: Seq<char>) -> u64 {
        if self.committed.dom().contains(peer) {
            self.committed[peer]
        } else {
            0
        }
    }

    /// A socket is gone, and so is the pin of its owner if it was pinned to
    /// it.
    pub open spec fn without(self, index: usize) -> Sockets {
        let peer = self.dynamic[index].peer;
        Sockets {
            dynamic: self.dynamic.remove(index),
            affinity: if self.pinned(peer, index) {
                self.affinity.remove(peer)
            } else {
                self.affinity
            },
            ..self
        }
    }

    pub open spec fn with_phase(self, index: usize, phase: DynamicSocketPhase) -> Sockets {
        Sockets {
            dynamic: self.dynamic.insert(
                index,
                DynamicSocket { phase, ..self.dynamic[index] },
            ),
            ..self
        }
    }

    /// Whether a socket may make room for one of `peer`: never another socket
    /// of the same peer, nor one of a peer with a confirmed path.
    pub open spec fn evictable(self, index: usize, peer: Seq<char>, direct: Seq<String>) -> bool {
        &&& self.dynamic.dom().contains(index)
        &&& self.dynamic[index].peer != peer
        &&& !(exists|i: int|
            0 <= i < direct.len() && (#[trigger] direct[i])@ == self.dynamic[index].peer)
    }

    /// Whether a socket is the oldest of those that may make room.
    pub open spec fn is_eviction(self, index: usize, peer: Seq<char>, direct: Seq<String>) -> bool {
        &&& self.evictable(index, peer, direct)
        &&& forall|other: usize| #[trigger]
            self.evictable(other, peer, direct) ==> self.dynamic[index].created_at
                <= self.dynamic[other].created_at
    }

    /// Whether a provisional socket may be committed.
    pub open spec fn can_commit(
        self,
        peer: Seq<char>,
        index: usize,
        network_generation: u64,
        punch_generation: u64,
        current_generation: u64,
        cancelled: bool,
    ) -> bool {
        let e = self.dynamic[index];
        &&& self.dynamic.dom().contains(index)
        &&& e.phase is Provisional
        &&& e.peer == peer
        &&& e.network_generation == network_generation
        &&& e.network_generation == current_generation
        &&& e.punch_generation == punch_generation
        &&& !cancelled
        &&& self.committed.dom().contains(peer) ==> self.committed[peer] <= punch_generation
    }

    /// What a commit that pins leaves.
    pub open spec fn committed_and_pinned(
        self,
        peer: Seq<char>,
        index: usize,
        punch_generation: u64,
    ) -> Sockets {
        let epoch = next_epoch(self.affinity_epoch);
        Sockets {
            affinity: self.affinity.insert(peer, PeerSocketPin { socket_index: index, epoch }),
            affinity_epoch: epoch,
            committed: self.committed.insert(peer, punch_generation),
            ..self.with_phase(index, DynamicSocketPhase::CommittedPendingHandoff)
        }
    }

    /// Whether a committed socket may be handed over: everything that the
    /// commit saw still holds.
    pub open spec fn can_finalize(
        self,
        peer: Seq<char>,
        index: usize,
        outcome: Option<CommitOutcome>,
        current_generation: u64,
        cancelled: bool,
    ) -> bool {
        let e = self.dynamic[index];
        &&& outcome is Some
        &&& (outcome->0).committed
        &&& e.peer == peer
        &&& e.network_generation == current_generation
        &&& self.committed_generation(peer) == (outcome->0).generation_fence
        &&& !cancelled
        &&& match (outcome->0).installed {
            Some(installed) => e.punch_generation == self.committed_generation(peer) && self.pin(
                peer,
            ) == Some(installed),
            None => e.punch_generation != 0,
        }
    }

    /// Whether a rollback may restore a pin: the socket is a pool member or
    /// still there.
    pub open spec fn restorable(
        self,
        predecessor: Option<PeerSocketPin>,
        index: usize,
        pool: usize,
        base: usize,
    ) -> bool {
        &&& predecessor is Some
        &&& {
            let at = (predecessor->0).socket_index;
            at < pool || (at >= base && at != index && self.dynamic.dom().contains(at))
        }
    }

    /// What rolling a commit back leaves, and whether the socket goes.
    pub open spec fn rolled_back(
        self,
        index: usize,
        outcome: CommitOutcome,
        pool: usize,
        base: usize,
    ) -> (Sockets, bool) {
        let e = self.dynamic[index];
        if !self.dynamic.dom().contains(index) || e.phase is Finalized {
            (self, false)
        } else if e.evidence > outcome.evidence_at_commit {
            // The mapping carried the peer's traffic after the commit.
            (self.with_phase(index, DynamicSocketPhase::Finalized), false)
        } else if outcome.installed is None {
            (self.without(index), true)
        } else if self.pin(e.peer) == outcome.installed {
            let rest = Sockets { dynamic: self.dynamic.remove(index), ..self };
            if self.restorable(outcome.predecessor, index, pool, base) {
                let epoch = next_epoch(self.affinity_epoch);
                (
                    Sockets {
                        affinity: self.affinity.insert(
                            e.peer,
                            PeerSocketPin {
                                socket_index: (outcome.predecessor->0).socket_index,
                                epoch,
                            },
                        ),
                        affinity_epoch: epoch,
                        ..rest
                    },
                    true,
                )
            } else {
                (Sockets { affinity: self.affinity.remove(e.peer), ..rest }, true)
            }
        } else if self.pinned(e.peer, index) {
            // Fresh evidence pinned the socket again.
            (self.with_phase(index, DynamicSocketPhase::Finalized), false)
        } else {
            // A newer owner holds the pin and keeps it.
            (Sockets { dynamic: self.dynamic.remove(index), ..self }, true)
        }
    }

    /// What becomes of a socket whose generation was abandoned.
    pub open spec fn abandoned(
        self,
        index: usize,
        outcome: Option<CommitOutcome>,
        pool: usize,
        base: usize,
    ) -> (Sockets, bool) {
        if !self.dynamic.dom().contains(index) || self.dynamic[index].phase is Finalized {
            (self, false)
        } else if outcome is Some && (outcome->0).committed {
            self.rolled_back(index, outcome->0, pool, base)
        } else if self.dynamic[index].phase is Provisional {
            (self.without(index), true)
        } else {
            (self, false)
        }
    }

    /// Whether a socket belongs to a session.
    pub open spec fn of_session(self, index: usize, peer: Seq<char>, token: Seq<char>) -> bool {
        &&& self.dynamic.dom().contains(index)
        &&& self.dynamic[index].peer == peer
        &&& self.dynamic[index].token == Some(token)
    }

    /// Whether a socket may win a session.
    pub open spec fn can_win(
        self,
        index: usize,
        peer: Seq<char>,
        token: Seq<char>,
        network_generation: u64,
    ) -> bool {
        &&& self.of_session(index, peer, token)
        &&& self.dynamic[index].network_generation == network_generation
        &&& self.dynamic[index].phase.usable()
        &&& self.dynamic[index].local_endpoint is Some
    }

    /// What selecting a winner leaves: it is pinned and handed over, and the
    /// other sockets of its session are gone.
    pub open spec fn with_winner(
        self,
        index: usize,
        peer: Seq<char>,
        token: Seq<char>,
        network_generation: u64,
    ) -> Sockets {
        let epoch = next_epoch(self.affinity_epoch);
        let winner = DynamicSocket {
            evidence: next_epoch(self.dynamic[index].evidence),
            phase: DynamicSocketPhase::Finalized,
            ..self.dynamic[index]
        };
        Sockets {
            dynamic: crate::table::kept(
                self.dynamic.insert(index, winner),
                |i: usize, e: DynamicSocket|
                    !(i != index && e.peer == peer && e.network_generation == network_generation
                        && e.token == Some(token)),
            ),
            affinity: self.affinity.insert(peer, PeerSocketPin { socket_index: index, epoch }),
            affinity_epoch: epoch,
            ..self
        }
    }

    /// Whether the live socket is the one that was measured with, and the
    /// peer is pinned to it.
    pub open spec fn is_current(self, id: SocketIdentity, current_generation: u64) -> bool {
        let e = self.dynamic[id.socket_index];
        &&& self.dynamic.dom().contains(id.socket_index)
        &&& e.peer == id.peer_id@
        &&& e.network_generation == id.network_generation
        &&& e.punch_generation == id.punch_generation
        &&& e.phase.usable()
        &&& e.local_endpoint == Some(id.socket_local_endpoint)
        &&& self.pinned(id.peer_id@, id.socket_index)
        &&& current_generation == id.network_generation
    }

    /// All sockets and the pin of a peer are gone.
    pub open spec fn without_peer(self, peer: Seq<char>) -> Sockets {
        Sockets {
            dynamic: crate::table::kept(
                self.dynamic,
                |_i: usize, e: DynamicSocket| e.peer != peer,
            ),
            affinity: self.affinity.remove(peer),
            ..self
        }
    }
}

/// The dedicated sockets and the peers' pins.
pub struct SocketState {
    pub dynamic: Table<usize, DynamicPunchSocket>,
    pub affinity: Table<String, PeerSocketPin>,
    pub affinity_epoch: u64,
    pub probe_cleanup_epochs: Table<String, u64>,
    pub committed_punch_generations: Table<String, u64>,
    pub limits: SocketLimits,
}

impl SocketState {
    pub open spec fn view(&self) -> Sockets {
        Sockets {
            dynamic: self.dynamic@.map_values(|e: DynamicPunchSocket| e@),
            affinity: self.affinity@,
            affinity_epoch: self.affinity_epoch,
            cleanup_epochs: self.probe_cleanup_epochs@,
            committed: self.committed_punch_generations@,
        }
    }

    pub open spec fn tables_wf(&self) -> bool {
        &&& self.dynamic.wf()
        &&& self.affinity.wf()
        &&& self.probe_cleanup_epochs.wf()
        &&& self.committed_punch_generations.wf()
    }

    /// There are never too many sockets, and a peer is only ever pinned to a
    /// dedicated socket that is there and that it owns.
    pub open spec fn wf(&self) -> bool {
        &&& self.tables_wf()
        &&& self@.dynamic.dom().finite()
        &&& self@.dynamic.dom().len() <= self.limits.max_dynamic
        &&& self.indices_wf()
        &&& self.pins_wf()
    }

    pub open spec fn indices_wf(&self) -> bool {
        forall|i: usize| #[trigger]
            self@.dynamic.dom().contains(i) ==> i >= self.limits.dynamic_index_base
                && self@.dynamic[i].socket_index == i
    }

    pub open spec fn pins_wf(&self) -> bool {
        forall|peer: Seq<char>| #[trigger]
            self@.affinity.dom().contains(peer) && self@.affinity[peer].socket_index
                >= self.limits.dynamic_index_base ==> {
                let i = self@.affinity[peer].socket_index;
                self@.dynamic.dom().contains(i) && self@.dynamic[i].peer == peer
            }
    }

    /// The pin that a commit replaced still names a socket of the same peer,
    /// if it names one at all: indices are never given out twice.
    pub open spec fn outcome_ok(&self, index: usize, outcome: CommitOutcome) -> bool {
        match outcome.predecessor {
            Some(pin) => self@.dynamic.dom().contains(pin.socket_index)
                && self@.dynamic.dom().contains(index) ==> self@.dynamic[pin.socket_index].peer
                == self@.dynamic[index].peer,
            None => true,
        }
    }

    /// Whether the pin that a commit replaced still names a socket of the same
    /// peer, if it names one at all.
    pub fn outcome_holds(&self, index: usize, outcome: &CommitOutcome) -> (r: bool)
        requires
            self.wf(),
        ensures
            r == self.outcome_ok(index, *outcome),
    {
        let pin: PeerSocketPin = match outcome.predecessor {
            Some(pin) => pin,
            None => {
                return true;
            },
        };
        match (self.dynamic.get(&pin.socket_index), self.dynamic.get(&index)) {
            (Some(before), Some(entry)) => {
                assert(self@.dynamic[pin.socket_index] == before@);
                assert(self@.dynamic[index] == entry@);
                before.peer_id == entry.peer_id
            },
            _ => true,
        }
    }

    pub fn new(limits: SocketLimits) -> (state: Self)
        ensures
            state.wf(),
            state.limits == limits,
            state@ == (Sockets {
                dynamic: Map::empty(),
                affinity: Map::empty(),
                affinity_epoch: 0,
                cleanup_epochs: Map::empty(),
                committed: Map::empty(),
            }),
    {
        let state = SocketState {
            dynamic: Table::new(),
            affinity: Table::new(),
            affinity_epoch: 0,
            probe_cleanup_epochs: Table::new(),
            committed_punch_generations: Table::new(),
            limits,
        };
        assert(state@.dynamic =~= Map::<usize, DynamicSocket>::empty());
        state
    }

    /// The number of dedicated sockets.
    pub fn dynamic_socket_count(&self) -> (n: usize)
        requires
            self.wf(),
        ensures
            n == self@.dynamic.dom().len(),
    {
        let n: usize = self.dynamic.len();
        assert(self@.dynamic.dom() =~= self.dynamic@.dom());
        n
    }

    fn bump_epoch(&mut self) -> (epoch: u64)
        requires
            old(self).tables_wf(),
        ensures
            *final(self) == (SocketState { affinity_epoch: epoch, ..*old(self) }),
            epoch == next_epoch(old(self).affinity_epoch),
    {
        self.affinity_epoch = self.affinity_epoch.saturating_add(1);
        self.affinity_epoch
    }

    /// Takes a socket out and clears its owner's pin if it names it.
    fn remove_entry(&mut self, socket_index: usize) -> (removed: Option<DynamicPunchSocket>)
        requires
            old(self).wf(),
        ensures
            final(self).wf(),
            final(self).limits == old(self).limits,
            match removed {
                Some(entry) => {
                    &&& old(self)@.dynamic.dom().contains(socket_index)
                    &&& entry@ == old(self)@.dynamic[socket_index]
                    &&& final(self)@ == old(self)@.without(socket_index)
                },
                None => !old(self)@.dynamic.dom().contains(socket_index) && final(self)@ == old(self)@,
            },
    {
        match self.dynamic.remove(&socket_index) {
            None => {
                assert(self@.dynamic =~= old(self)@.dynamic);
                None
            },
            Some(entry) => {
                let pinned: bool = match self.affinity.get(&entry.peer_id) {
                    Some(pin) => pin.socket_index == socket_index,
                    None => false,
                };
                if pinned {
                    let _ = self.affinity.remove(&entry.peer_id);
                }
                proof {
                    assert(self@.dynamic =~= old(self)@.dynamic.remove(socket_index));
                    assert(self@.affinity =~= old(self)@.without(socket_index).affinity);
                    vstd::set::axiom_set_remove_len(old(self)@.dynamic.dom(), socket_index);
                }
                Some(entry)
            },
        }
    }

    fn set_phase(&mut self, socket_index: usize, phase: DynamicSocketPhase)
        requires
            old(self).wf(),
            old(self)@.dynamic.dom().contains(socket_index),
        ensures
            final(self).wf(),
            final(self).limits == old(self).limits,
            final(self)@ == old(self)@.with_phase(socket_index, phase),
    {
        if let Some(entry) = self.dynamic.get_mut(&socket_index) {
            entry.phase = phase;
        }
        proof {
            assert(self@.dynamic =~= old(self)@.with_phase(socket_index, phase).dynamic);
            assert(self@.dynamic.dom() =~= old(self)@.dynamic.dom());
        }
    }

    fn oldest_evictable(&self, peer_id: &str, direct: &Vec<String>) -> (r: Option<usize>)
        requires
            self.wf(),
        ensures
            match r {
                Some(index) => self@.is_eviction(index, peer_id@, direct@),
                None => forall|i: usize| !#[trigger] self@.evictable(i, peer_id@, direct@),
            },
    {
        let n: usize = self.dynamic.len();
        let mut best: Option<(usize, u64)> = None;
        let mut i: usize = 0;
        while i < n
            invariant
                self.wf(),
                n == self.dynamic.seq().len(),
                i <= n,
                match best {
                    Some((index, created_at)) => {
                        &&& self@.evictable(index, peer_id@, direct@)
                        &&& self@.dynamic[index].created_at == created_at
                        &&& forall|j: int|
                            0 <= j < i && self@.evictable(
                                (#[trigger] self.dynamic.seq()[j]).0,
                                peer_id@,
                                direct@,
                            ) ==> created_at <= self@.dynamic[self.dynamic.seq()[j].0].created_at
                    },
                    None => forall|j: int|
                        0 <= j < i ==> !self@.evictable(
                            (#[trigger] self.dynamic.seq()[j]).0,
                            peer_id@,
                            direct@,
                        ),
                },
            decreases n - i,
        {
            let row = self.dynamic.row(i);
            let own: bool = same_text(row.1.peer_id.as_str(), peer_id);
            let confirmed: bool = crate::text::lists_text(direct, row.1.peer_id.as_str());
            assert(self@.dynamic[row.0] == row.1@);
            if !own && !confirmed {
                assert(self@.evictable(row.0, peer_id@, direct@));
                let better: bool = match best {
                    Some((_, created_at)) => row.1.created_at < created_at,
                    None => true,
                };
                if better {
                    best = Some((row.0, row.1.created_at));
                }
            }
            i += 1;
        }
        proof {
            self.dynamic.lemma_seq();
            assert forall|other: usize| #[trigger]
                self@.evictable(other, peer_id@, direct@) implies best is Some && (
            best->0).1 <= self@.dynamic[other].created_at by {
                assert(self.dynamic@.dom().contains(other));
                let j = choose|j: int|
                    0 <= j < self.dynamic.seq().len() && (#[trigger] self.dynamic.seq()[j]).0.name()
                        == other;
                assert(self.dynamic.seq()[j].0 == other);
            }
        }
        match best {
            Some((index, _)) => Some(index),
            None => None,
        }
    }

    /// Registers a fresh socket for a generation, in one step with the check
    /// of the capacity. A full table gives up its oldest socket that may go;
    /// `direct` names the peers with a confirmed path. Without a channel for
    /// what the socket receives there is nothing to register it for.
    pub fn attach_dynamic_punch_socket(
        &mut self,
        inbound_channel: bool,
        peer_id: &str,
        socket_index: usize,
        local_endpoint: Option<SocketAddr>,
        network_generation: u64,
        punch_generation: u64,
        now: u64,
        current_generation: u64,
        cancelled: bool,
        direct: &Vec<String>,
    ) -> (result: Result<Option<DynamicPunchSocket>, DynamicSocketAttachError>)
        requires
            old(self).wf(),
            inbound_channel ==> socket_index >= old(self).limits.dynamic_index_base,
            inbound_channel ==> !old(self)@.dynamic.dom().contains(socket_index),
        ensures
            final(self).wf(),
            final(self).limits == old(self).limits,
            ({
                let before = old(self)@;
                let fresh = DynamicSocket {
                    socket_index,
                    local_endpoint,
                    peer: peer_id@,
                    network_generation,
                    punch_generation,
                    token: None,
                    created_at: now,
                    evidence: 0,
                    phase: DynamicSocketPhase::Provisional,
                };
                let full = before.dynamic.dom().len() >= old(self).limits.max_dynamic;
                let stale = current_generation != network_generation || cancelled;
                match result {
                    Err(error) => {
                        &&& final(self)@ == before
                        &&& error == if !inbound_channel {
                            DynamicSocketAttachError::NoInboundChannel
                        } else if stale {
                            DynamicSocketAttachError::Superseded
                        } else {
                            DynamicSocketAttachError::CapacityRejected
                        }
                        &&& !inbound_channel || stale || (full && forall|i: usize|
                            !#[trigger] before.evictable(i, peer_id@, direct@))
                    },
                    Ok(None) => {
                        &&& inbound_channel && !stale && !full
                        &&& final(self)@ == (Sockets {
                            dynamic: before.dynamic.insert(socket_index, fresh),
                            ..before
                        })
                    },
                    Ok(Some(evicted)) => {
                        let left = before.without(evicted.socket_index);
                        &&& inbound_channel && !stale && full
                        &&& before.is_eviction(evicted.socket_index, peer_id@, direct@)
                        &&& evicted@ == before.dynamic[evicted.socket_index]
                        &&& final(self)@ == (Sockets {
                            dynamic: left.dynamic.insert(socket_index, fresh),
                            ..left
                        })
                    },
                }
            }),
    {
        if !inbound_channel {
            return Err(DynamicSocketAttachError::NoInboundChannel);
        }
        if current_generation != network_generation || cancelled {
            return Err(DynamicSocketAttachError::Superseded);
        }
        let mut evicted: Option<DynamicPunchSocket> = None;
        let count: usize = self.dynamic_socket_count();
        if count >= self.limits.max_dynamic {
            match self.oldest_evictable(peer_id, direct) {
                None => {
                    return Err(DynamicSocketAttachError::CapacityRejected);
                },
                Some(index) => {
                    evicted = self.remove_entry(index);
                },
            }
        }
        let ghost left = *self;
        let entry = DynamicPunchSocket {
            socket_index,
            local_endpoint,
            peer_id: peer_id.to_owned(),
            network_generation,
            punch_generation,
            hard_hard_session_token: None,
            created_at: now,
            authenticated_evidence: 0,
            phase: DynamicSocketPhase::Provisional,
        };
        let ghost fresh = entry@;
        let _ = self.dynamic.insert(socket_index, entry);
        proof {
            assert(self@.dynamic =~= left@.dynamic.insert(socket_index, fresh));
            assert(self@.dynamic.dom() =~= left@.dynamic.dom().insert(socket_index));
            assert(left@.dynamic.dom().len() < self.limits.max_dynamic) by {
                if evicted is Some {
                    let gone = (evicted->0).socket_index;
                    assert(left@.dynamic.dom() =~= old(self)@.dynamic.dom().remove(gone));
                    vstd::set::axiom_set_remove_len(old(self)@.dynamic.dom(), gone);
                }
            }
            vstd::set::axiom_set_insert_len(left@.dynamic.dom(), socket_index);
        }
        Ok(evicted)
    }

    fn provisional_of(
        &self,
        peer_id: &str,
        socket_index: usize,
        network_generation: u64,
        punch_generation: u64,
        current_generation: u64,
        cancelled: bool,
    ) -> (evidence: Option<u64>)
        requires
            self.wf(),
        ensures
            evidence is Some <==> self@.can_commit(
                peer_id@,
                socket_index,
                network_generation,
                punch_generation,
                current_generation,
                cancelled,
            ),
            evidence matches Some(n) ==> n == self@.dynamic[socket_index].evidence,
    {
        let entry = match self.dynamic.get(&socket_index) {
            Some(entry) => entry,
            None => {
                return None;
            },
        };
        assert(self@.dynamic[socket_index] == entry@);
        if entry.phase.is_usable() || !same_text(entry.peer_id.as_str(), peer_id)
            || entry.network_generation != network_generation || entry.network_generation
            != current_generation || entry.punch_generation != punch_generation {
            return None;
        }
        if cancelled {
            return None;
        }
        let newer: bool = match self.committed_punch_generations.get(&peer_id.to_owned()) {
            Some(committed) => *committed > punch_generation,
            None => false,
        };
        if newer {
            return None;
        }
        Some(entry.authenticated_evidence)
    }

    /// Commits a provisional socket and pins it as the peer's. Nothing
    /// happens if its generation is stale, cancelled or older than one that
    /// committed.
    pub fn commit_and_pin(
        &mut self,
        peer_id: &str,
        socket_index: usize,
        network_generation: u64,
        punch_generation: u64,
        current_generation: u64,
        cancelled: bool,
    ) -> (outcome: CommitOutcome)
        requires
            old(self).wf(),
        ensures
            final(self).wf(),
            final(self).limits == old(self).limits,
            ({
                let before = old(self)@;
                if before.can_commit(
                    peer_id@,
                    socket_index,
                    network_generation,
                    punch_generation,
                    current_generation,
                    cancelled,
                ) {
                    &&& final(self)@ == before.committed_and_pinned(
                        peer_id@,
                        socket_index,
                        punch_generation,
                    )
                    &&& outcome == (CommitOutcome {
                        committed: true,
                        predecessor: before.pin(peer_id@),
                        installed: Some(
                            PeerSocketPin {
                                socket_index,
                                epoch: next_epoch(before.affinity_epoch),
                            },
                        ),
                        generation_fence: punch_generation,
                        evidence_at_commit: before.dynamic[socket_index].evidence,
                    })
                    &&& final(self).outcome_ok(socket_index, outcome)
                } else {
                    &&& final(self)@ == before
                    &&& outcome == CommitOutcome::spec_refused()
                }
            }),
    {
        let evidence_at_commit: u64 = match self.provisional_of(
            peer_id,
            socket_index,
            network_generation,
            punch_generation,
            current_generation,
            cancelled,
        ) {
            Some(evidence) => evidence,
            None => {
                return CommitOutcome::refused();
            },
        };
        let predecessor: Option<PeerSocketPin> = match self.affinity.get(&peer_id.to_owned()) {
            Some(pin) => Some(*pin),
            None => None,
        };
        self.set_phase(socket_index, DynamicSocketPhase::CommittedPendingHandoff);
        let epoch: u64 = self.bump_epoch();
        let installed = PeerSocketPin { socket_index, epoch };
        let _ = self.affinity.insert(peer_id.to_owned(), installed);
        let _ = self.committed_punch_generations.insert(peer_id.to_owned(), punch_generation);
        assert(self@ =~= old(self)@.committed_and_pinned(peer_id@, socket_index, punch_generation));
        CommitOutcome {
            committed: true,
            predecessor,
            installed: Some(installed),
            generation_fence: punch_generation,
            evidence_at_commit,
        }
    }

    /// Commits a further receiver of a session without touching the pin,
    /// which belongs to the session's first socket.
    pub fn commit_speculative(
        &mut self,
        peer_id: &str,
        socket_index: usize,
        network_generation: u64,
        punch_generation: u64,
        current_generation: u64,
        cancelled: bool,
    ) -> (outcome: CommitOutcome)
        requires
            old(self).wf(),
        ensures
            final(self).wf(),
            final(self).limits == old(self).limits,
            ({
                let before = old(self)@;
                if before.committed.dom().contains(peer_id@) && before.can_commit(
                    peer_id@,
                    socket_index,
                    network_generation,
                    punch_generation,
                    current_generation,
                    cancelled,
                ) {
                    &&& final(self)@ == before.with_phase(
                        socket_index,
                        DynamicSocketPhase::CommittedPendingHandoff,
                    )
                    &&& outcome == (CommitOutcome {
                        committed: true,
                        predecessor: None,
                        installed: None,
                        generation_fence: before.committed[peer_id@],
                        evidence_at_commit: before.dynamic[socket_index].evidence,
                    })
                } else {
                    &&& final(self)@ == before
                    &&& outcome == CommitOutcome::spec_refused()
                }
            }),
    {
        let evidence_at_commit: u64 = match self.provisional_of(
            peer_id,
            socket_index,
            network_generation,
            punch_generation,
            current_generation,
            cancelled,
        ) {
            Some(evidence) => evidence,
            None => {
                return CommitOutcome::refused();
            },
        };
        let generation_fence: u64 = match self.committed_punch_generations.get(
            &peer_id.to_owned(),
        ) {
            Some(committed) => *committed,
            None => {
                return CommitOutcome::refused();
            },
        };
        self.set_phase(socket_index, DynamicSocketPhase::CommittedPendingHandoff);
        CommitOutcome {
            committed: true,
            predecessor: None,
            installed: None,
            generation_fence,
            evidence_at_commit,
        }
    }

    /// Hands a committed socket over for good, if everything that the commit
    /// saw still holds. A socket that was handed over stays so.
    pub fn finalize(
        &mut self,
        peer_id: &str,
        socket_index: usize,
        outcome: Option<CommitOutcome>,
        current_generation: u64,
        cancelled: bool,
    ) -> (finalized: bool)
        requires
            old(self).wf(),
        ensures
            final(self).wf(),
            final(self).limits == old(self).limits,
            ({
                let before = old(self)@;
                let there = before.dynamic.dom().contains(socket_index);
                let phase = before.dynamic[socket_index].phase;
                &&& finalized <==> there && (phase is Finalized || (phase
                    is CommittedPendingHandoff && before.can_finalize(
                    peer_id@,
                    socket_index,
                    outcome,
                    current_generation,
                    cancelled,
                )))
                &&& final(self)@ == if finalized && !(phase is Finalized) {
                    before.with_phase(socket_index, DynamicSocketPhase::Finalized)
                } else {
                    before
                }
            }),
    {
        let entry = match self.dynamic.get(&socket_index) {
            Some(entry) => entry,
            None => {
                return false;
            },
        };
        assert(self@.dynamic[socket_index] == entry@);
        if !entry.phase.is_usable() {
            return false;
        }
        if entry.phase.is_finalized() {
            return true;
        }
        let committed_generation: u64 = match self.committed_punch_generations.get(
            &peer_id.to_owned(),
        ) {
            Some(committed) => *committed,
            None => 0,
        };
        let revalidated: bool = match outcome {
            None => false,
            Some(outcome) => {
                if !outcome.committed || !same_text(entry.peer_id.as_str(), peer_id)
                    || entry.network_generation != current_generation || committed_generation
                    != outcome.generation_fence || cancelled {
                    false
                } else {
                    match outcome.installed {
                        Some(installed) => {
                            let pinned: bool = match self.affinity.get(&peer_id.to_owned()) {
                                Some(pin) => *pin == installed,
                                None => false,
                            };
                            entry.punch_generation == committed_generation && pinned
                        },
                        None => entry.punch_generation != 0,
                    }
                }
            },
        };
        if !revalidated {
            return false;
        }
        self.set_phase(socket_index, DynamicSocketPhase::Finalized);
        true
    }

    /// The superseded socket that a finalized handoff detaches.
    pub open spec fn superseded_by(&self, outcome: CommitOutcome, socket_index: usize) -> Option<
        PeerSocketPin,
    > {
        if outcome.predecessor is Some && (outcome.predecessor->0).socket_index
            >= self.limits.dynamic_index_base && (outcome.predecessor->0).socket_index
            != socket_index {
            outcome.predecessor
        } else {
            None
        }
    }

    pub fn predecessor_to_detach(&self, outcome: &CommitOutcome, socket_index: usize) -> (r: Option<
        PeerSocketPin,
    >)
        ensures
            r == self.superseded_by(*outcome, socket_index),
    {
        match outcome.predecessor {
            Some(pin) => if pin.socket_index >= self.limits.dynamic_index_base && pin.socket_index
                != socket_index {
                Some(pin)
            } else {
                None
            },
            None => None,
        }
    }

    /// Takes the socket of a superseded generation out, unless traffic has
    /// pinned it again. The index alone decides that: fresh evidence on the
    /// same socket has a new epoch.
    pub fn detach_predecessor_unless_repinned(
        &mut self,
        peer_id: &str,
        predecessor: PeerSocketPin,
    ) -> (removed: Option<DynamicPunchSocket>)
        requires
            old(self).wf(),
        ensures
            final(self).wf(),
            final(self).limits == old(self).limits,
            ({
                let before = old(self)@;
                let index = predecessor.socket_index;
                let goes = !before.pinned(peer_id@, index) && before.dynamic.dom().contains(index)
                    && before.dynamic[index].peer == peer_id@;
                &&& removed is Some <==> goes
                &&& removed matches Some(entry) ==> entry@ == before.dynamic[index]
                &&& final(self)@ == if goes {
                    before.without(index)
                } else {
                    before
                }
            }),
    {
        let repinned: bool = match self.affinity.get(&peer_id.to_owned()) {
            Some(pin) => pin.socket_index == predecessor.socket_index,
            None => false,
        };
        if repinned {
            return None;
        }
        let own: bool = match self.dynamic.get(&predecessor.socket_index) {
            Some(entry) => {
                assert(self@.dynamic[predecessor.socket_index] == entry@);
                same_text(entry.peer_id.as_str(), peer_id)
            },
            None => false,
        };
        if !own {
            return None;
        }
        self.remove_entry(predecessor.socket_index)
    }

    /// Decides about a committed socket whose generation was cancelled.
    /// `pool` is the number of pool sockets.
    pub fn rollback_committed_entry(
        &mut self,
        socket_index: usize,
        outcome: &CommitOutcome,
        pool: usize,
    ) -> (removed: Option<DynamicPunchSocket>)
        requires
            old(self).wf(),
            pool <= old(self).limits.dynamic_index_base,
            old(self).outcome_ok(socket_index, *outcome),
        ensures
            final(self).wf(),
            final(self).limits == old(self).limits,
            (final(self)@, removed is Some) == old(self)@.rolled_back(
                socket_index,
                *outcome,
                pool,
                old(self).limits.dynamic_index_base,
            ),
            removed matches Some(entry) ==> entry@ == old(self)@.dynamic[socket_index],
    {
        let (peer, evidence): (String, u64) = match self.dynamic.get(&socket_index) {
            Some(entry) => {
                assert(self@.dynamic[socket_index] == entry@);
                if entry.phase.is_finalized() {
                    return None;
                }
                (entry.peer_id.clone(), entry.authenticated_evidence)
            },
            None => {
                return None;
            },
        };
        if evidence > outcome.evidence_at_commit {
            self.set_phase(socket_index, DynamicSocketPhase::Finalized);
            return None;
        }
        let installed: PeerSocketPin = match outcome.installed {
            Some(installed) => installed,
            None => {
                return self.remove_entry(socket_index);
            },
        };
        let affinity: Option<PeerSocketPin> = match self.affinity.get(&peer) {
            Some(pin) => Some(*pin),
            None => None,
        };
        let (owned, repinned): (bool, bool) = match affinity {
            Some(pin) => (pin == installed, pin.socket_index == socket_index),
            None => (false, false),
        };
        if !owned && repinned {
            self.set_phase(socket_index, DynamicSocketPhase::Finalized);
            return None;
        }
        let removed = self.dynamic.remove(&socket_index);
        proof {
            assert(self@.dynamic =~= old(self)@.dynamic.remove(socket_index));
            vstd::set::axiom_set_remove_len(old(self)@.dynamic.dom(), socket_index);
        }
        if owned {
            let restored: Option<usize> = match outcome.predecessor {
                Some(pin) => if pin.socket_index < pool || (pin.socket_index
                    >= self.limits.dynamic_index_base && self.dynamic.contains(
                    &pin.socket_index,
                )) {
                    Some(pin.socket_index)
                } else {
                    None
                },
                None => None,
            };
            match restored {
                Some(index) => {
                    let epoch: u64 = self.bump_epoch();
                    let _ = self.affinity.insert(
                        peer,
                        PeerSocketPin { socket_index: index, epoch },
                    );
                },
                None => {
                    let _ = self.affinity.remove(&peer);
                },
            }
        }
        removed
    }

    /// Decides about a socket whose generation was abandoned or cancelled.
    /// `outcome` is the last commit that was published for it.
    pub fn abandon(
        &mut self,
        socket_index: usize,
        outcome: Option<CommitOutcome>,
        pool: usize,
    ) -> (removed: Option<DynamicPunchSocket>)
        requires
            old(self).wf(),
            pool <= old(self).limits.dynamic_index_base,
            outcome matches Some(o) ==> old(self).outcome_ok(socket_index, o),
        ensures
            final(self).wf(),
            final(self).limits == old(self).limits,
            (final(self)@, removed is Some) == old(self)@.abandoned(
                socket_index,
                outcome,
                pool,
                old(self).limits.dynamic_index_base,
            ),
            removed matches Some(entry) ==> entry@ == old(self)@.dynamic[socket_index],
    {
        let phase: DynamicSocketPhase = match self.dynamic.get(&socket_index) {
            Some(entry) => {
                assert(self@.dynamic[socket_index] == entry@);
                entry.phase
            },
            None => {
                return None;
            },
        };
        if phase.is_finalized() {
            return None;
        }
        if let Some(outcome) = outcome {
            if outcome.committed {
                return self.rollback_committed_entry(socket_index, &outcome, pool);
            }
        }
        if phase.is_usable() {
            return None;
        }
        self.remove_entry(socket_index)
    }

    /// Takes one socket out. A socket that is gone already is no error.
    pub fn detach_dynamic_socket_by_index(&mut self, socket_index: usize) -> (removed: Option<
        DynamicPunchSocket,
    >)
        requires
            old(self).wf(),
        ensures
            final(self).wf(),
            final(self).limits == old(self).limits,
            match removed {
                Some(entry) => {
                    &&& old(self)@.dynamic.dom().contains(socket_index)
                    &&& entry@ == old(self)@.dynamic[socket_index]
                    &&& final(self)@ == old(self)@.without(socket_index)
                },
                None => !old(self)@.dynamic.dom().contains(socket_index) && final(self)@ == old(self)@,
            },
    {
        self.remove_entry(socket_index)
    }

    /// Takes a socket out only if it still is the one that a session measured
    /// with.
    pub fn detach_hard_hard_socket_if_identity(&mut self, identity: &SocketIdentity) -> (removed:
        Option<DynamicPunchSocket>)
        requires
            old(self).wf(),
        ensures
            final(self).wf(),
            final(self).limits == old(self).limits,
            ({
                let before = old(self)@;
                let index = identity.socket_index;
                let e = before.dynamic[index];
                let same = before.dynamic.dom().contains(index) && e.peer == identity.peer_id@
                    && e.network_generation == identity.network_generation && e.punch_generation
                    == identity.punch_generation && (e.token is None || e.token == Some(
                    identity.session_token@,
                )) && e.phase.usable() && e.local_endpoint == Some(identity.socket_local_endpoint);
                &&& removed is Some <==> same
                &&& removed matches Some(entry) ==> entry@ == e
                &&& final(self)@ == if same {
                    before.without(index)
                } else {
                    before
                }
            }),
    {
        let same: bool = match self.dynamic.get(&identity.socket_index) {
            Some(entry) => {
                assert(self@.dynamic[identity.socket_index] == entry@);
                let endpoint: bool = match entry.local_endpoint {
                    Some(endpoint) => endpoint == identity.socket_local_endpoint,
                    None => false,
                };
                same_text(entry.peer_id.as_str(), identity.peer_id.as_str())
                    && entry.network_generation == identity.network_generation
                    && entry.punch_generation == identity.punch_generation && (
                entry.hard_hard_session_token.is_none() || is_text(
                    &entry.hard_hard_session_token,
                    identity.session_token.as_str(),
                )) && entry.phase.is_usable() && endpoint
            },
            None => false,
        };
        if !same {
            return None;
        }
        self.remove_entry(identity.socket_index)
    }

    /// Binds a session's token to one of its sockets.
    pub fn tag_hard_hard_socket(&mut self, peer_id: &str, socket_index: usize, token: &str) -> (
    tagged: bool)
        requires
            old(self).wf(),
        ensures
            final(self).wf(),
            final(self).limits == old(self).limits,
            tagged <==> old(self)@.dynamic.dom().contains(socket_index)
                && old(self)@.dynamic[socket_index].peer == peer_id@
                && old(self)@.dynamic[socket_index].phase.usable() && token@.len() > 0,
            final(self)@ == if tagged {
                Sockets {
                    dynamic: old(self)@.dynamic.insert(
                        socket_index,
                        DynamicSocket {
                            token: Some(token@),
                            ..old(self)@.dynamic[socket_index]
                        },
                    ),
                    ..old(self)@
                }
            } else {
                old(self)@
            },
    {
        let fits: bool = match self.dynamic.get(&socket_index) {
            Some(entry) => {
                assert(self@.dynamic[socket_index] == entry@);
                same_text(entry.peer_id.as_str(), peer_id) && entry.phase.is_usable()
                    && !token.is_empty()
            },
            None => false,
        };
        if !fits {
            return false;
        }
        let tag: Option<String> = Some(token.to_owned());
        if let Some(entry) = self.dynamic.get_mut(&socket_index) {
            entry.hard_hard_session_token = tag;
        }
        proof {
            assert(self@.dynamic =~= old(self)@.dynamic.insert(
                socket_index,
                DynamicSocket { token: Some(token@), ..old(self)@.dynamic[socket_index] },
            ));
            assert(self@.dynamic.dom() =~= old(self)@.dynamic.dom());
        }
        true
    }

    /// The token of the session that a socket belongs to.
    pub fn hard_hard_socket_token(&self, socket_index: usize) -> (token: Option<String>)
        requires
            self.wf(),
        ensures
            crate::text::text_of(token) == if self@.dynamic.dom().contains(socket_index) {
                self@.dynamic[socket_index].token
            } else {
                None
            },
    {
        match self.dynamic.get(&socket_index) {
            Some(entry) => {
                assert(self@.dynamic[socket_index] == entry@);
                match &entry.hard_hard_session_token {
                    Some(token) => Some(token.clone()),
                    None => None,
                }
            },
            None => None,
        }
    }

    /// The usable sockets of a session, in no particular order.
    pub fn hard_hard_socket_indices_for_token(&self, peer_id: &str, token: &str) -> (indices: Vec<
        usize,
    >)
        requires
            self.wf(),
        ensures
            indices@.no_duplicates(),
            forall|i: usize| #[trigger]
                indices@.contains(i) <==> self@.of_session(i, peer_id@, token@)
                    && self@.dynamic[i].phase.usable(),
    {
        let n: usize = self.dynamic.len();
        let mut indices: Vec<usize> = Vec::new();
        let mut i: usize = 0;
        proof {
            self.dynamic.lemma_seq();
        }
        while i < n
            invariant
                self.wf(),
                n == self.dynamic.seq().len(),
                i <= n,
                forall|a: int, b: int|
                    0 <= a < b < n ==> (#[trigger] self.dynamic.seq()[a]).0 != (
                    #[trigger] self.dynamic.seq()[b]).0,
                indices@.no_duplicates(),
                forall|k: usize| #[trigger]
                    indices@.contains(k) ==> exists|j: int|
                        0 <= j < i && (#[trigger] self.dynamic.seq()[j]).0 == k,
                forall|k: usize| #[trigger]
                    indices@.contains(k) ==> self@.of_session(k, peer_id@, token@)
                        && self@.dynamic[k].phase.usable(),
                forall|j: int|
                    0 <= j < i && self@.of_session(
                        (#[trigger] self.dynamic.seq()[j]).0,
                        peer_id@,
                        token@,
                    ) && self@.dynamic[self.dynamic.seq()[j].0].phase.usable() ==> indices@.contains(
                        self.dynamic.seq()[j].0,
                    ),
            decreases n - i,
        {
            let row = self.dynamic.row(i);
            assert(self@.dynamic[row.0] == row.1@);
            if same_text(row.1.peer_id.as_str(), peer_id) && is_text(
                &row.1.hard_hard_session_token,
                token,
            ) && row.1.phase.is_usable() {
                let ghost before = indices@;
                assert(!before.contains(row.0)) by {
                    if before.contains(row.0) {
                        let j = choose|j: int|
                            0 <= j < i && (#[trigger] self.dynamic.seq()[j]).0 == row.0;
                        assert(self.dynamic.seq()[j].0 != self.dynamic.seq()[i as int].0);
                    }
                }
                indices.push(row.0);
                proof {
                    assert forall|k: usize| #[trigger] indices@.contains(k) implies k == row.0
                        || before.contains(k) by {
                        let at = choose|at: int| 0 <= at < indices@.len() && indices@[at] == k;
                        if at < before.len() {
                            assert(before[at] == k);
                        }
                    }
                    assert forall|k: usize| before.contains(k) implies #[trigger] indices@.contains(
                        k,
                    ) by {
                        let at = choose|at: int| 0 <= at < before.len() && before[at] == k;
                        assert(indices@[at] == k);
                    }
                    assert(indices@[before.len() as int] == row.0);
                    assert forall|k: usize| #[trigger] indices@.contains(k) implies exists|j: int|
                        0 <= j < i + 1 && (#[trigger] self.dynamic.seq()[j]).0 == k by {
                        if k == row.0 {
                            assert(self.dynamic.seq()[i as int].0 == k);
                        } else {
                            let j = choose|j: int|
                                0 <= j < i && (#[trigger] self.dynamic.seq()[j]).0 == k;
                            assert(self.dynamic.seq()[j].0 == k);
                        }
                    }
                }
            }
            i += 1;
        }
        proof {
            self.dynamic.lemma_seq();
            assert forall|k: usize| self@.of_session(k, peer_id@, token@)
                && self@.dynamic[k].phase.usable() implies #[trigger] indices@.contains(k) by {
                assert(self.dynamic@.dom().contains(k));
                let j = choose|j: int|
                    0 <= j < self.dynamic.seq().len() && (#[trigger] self.dynamic.seq()[j]).0.name()
                        == k;
                assert(self.dynamic.seq()[j].0 == k);
            }
        }
        indices
    }

    /// How one requested socket of a session stands.
    pub open spec fn snapshot_of(
        &self,
        index: usize,
        peer: Seq<char>,
        token: Seq<char>,
        current_generation: u64,
    ) -> HardHardSocketSnapshot {
        let attached = self@.of_session(index, peer, token);
        HardHardSocketSnapshot {
            socket_index: index,
            attached,
            usable: attached && self@.dynamic[index].phase.usable()
                && self@.dynamic[index].network_generation == current_generation,
        }
    }

    /// How the requested sockets of a session stand, each once and in order.
    /// A missing one is listed as such; none is substituted.
    pub fn hard_hard_socket_snapshot_for_token(
        &self,
        peer_id: &str,
        token: &str,
        requested: &[usize],
        current_generation: u64,
    ) -> (snapshot: Vec<HardHardSocketSnapshot>)
        requires
            self.wf(),
        ensures
            ({
                let distinct = crate::birthday::deduplicated(requested@);
                &&& snapshot@.len() == distinct.len()
                &&& forall|i: int|
                    0 <= i < distinct.len() ==> #[trigger] snapshot@[i] == self.snapshot_of(
                        distinct[i],
                        peer_id@,
                        token@,
                        current_generation,
                    )
            }),
    {
        let mut snapshot: Vec<HardHardSocketSnapshot> = Vec::new();
        let mut seen: Vec<usize> = Vec::new();
        let mut i: usize = 0;
        assert(requested@.take(0) =~= Seq::empty());
        while i < requested.len()
            invariant
                self.wf(),
                i <= requested@.len(),
                seen@ == crate::birthday::deduplicated(requested@.take(i as int)),
                snapshot@.len() == seen@.len(),
                forall|j: int|
                    0 <= j < seen@.len() ==> #[trigger] snapshot@[j] == self.snapshot_of(
                        seen@[j],
                        peer_id@,
                        token@,
                        current_generation,
                    ),
            decreases requested@.len() - i,
        {
            assert(requested@.take(i + 1).drop_last() =~= requested@.take(i as int));
            let index: usize = requested[i];
            if !lists_index(&seen, index) {
                let (attached, usable): (bool, bool) = match self.dynamic.get(&index) {
                    Some(entry) => {
                        assert(self@.dynamic[index] == entry@);
                        let attached: bool = same_text(entry.peer_id.as_str(), peer_id) && is_text(
                            &entry.hard_hard_session_token,
                            token,
                        );
                        (
                            attached,
                            attached && entry.phase.is_usable() && entry.network_generation
                                == current_generation,
                        )
                    },
                    None => (false, false),
                };
                seen.push(index);
                snapshot.push(HardHardSocketSnapshot { socket_index: index, attached, usable });
            }
            i += 1;
        }
        assert(requested@.take(i as int) =~= requested@);
        snapshot
    }

    /// Takes the sockets of a session out, but for the one to keep, and
    /// clears the pin if it named one of them.
    pub fn detach_hard_hard_sockets_for_token(
        &mut self,
        peer_id: &str,
        token: &str,
        preserve: Option<usize>,
    ) -> (removed: Vec<(usize, DynamicPunchSocket)>)
        requires
            old(self).wf(),
        ensures
            final(self).wf(),
            final(self).limits == old(self).limits,
            ({
                let before = old(self)@;
                let goes = |i: usize, e: DynamicSocket|
                    preserve != Some(i) && e.peer == peer_id@ && e.token == Some(token@);
                &&& all_removed(removed@, before.dynamic, goes)
                &&& final(self)@ == (Sockets {
                    dynamic: crate::table::kept(
                        before.dynamic,
                        |i: usize, e: DynamicSocket| !goes(i, e),
                    ),
                    affinity: if before.affinity.dom().contains(peer_id@) && before.dynamic.dom().contains(
                        before.affinity[peer_id@].socket_index,
                    ) && goes(
                        before.affinity[peer_id@].socket_index,
                        before.dynamic[before.affinity[peer_id@].socket_index],
                    ) {
                        before.affinity.remove(peer_id@)
                    } else {
                        before.affinity
                    },
                    ..before
                })
            }),
    {
        let ghost goes = |i: usize, e: DynamicSocket|
            preserve != Some(i) && e.peer == peer_id@ && e.token == Some(token@);
        let pick = |i: &usize, e: &DynamicPunchSocket| -> (r: bool)
            ensures
                r == (preserve != Some(*i) && e@.peer == peer_id@ && e@.token == Some(token@)),
        {
            let kept: bool = match preserve {
                Some(index) => index == *i,
                None => false,
            };
            !kept && same_text(e.peer_id.as_str(), peer_id) && is_text(
                &e.hard_hard_session_token,
                token,
            )
        };
        let removed = self.take_sockets(pick, Ghost(goes));
        let peer: String = peer_id.to_owned();
        let stale: bool = match self.affinity.get(&peer) {
            Some(pin) => pin.socket_index >= self.limits.dynamic_index_base
                && !self.dynamic.contains(&pin.socket_index),
            None => false,
        };
        if stale {
            let _ = self.affinity.remove(&peer);
        }
        proof {
            let before = old(self)@;
            let at = before.affinity[peer_id@].socket_index;
            let left = crate::table::kept(
                before.dynamic,
                |i: usize, e: DynamicSocket| !goes(i, e),
            );
            assert(self@.dynamic == left);
            assert(left.dom().contains(at) == (before.dynamic.dom().contains(at) && !goes(
                at,
                before.dynamic[at],
            )));
            assert(self@.dynamic.dom().contains(at) == self.dynamic@.dom().contains(at));
            if before.dynamic.dom().contains(at) {
                assert(at >= self.limits.dynamic_index_base);
            }
            assert(stale == (before.affinity.dom().contains(peer_id@) && before.dynamic.dom().contains(
                at,
            ) && goes(at, before.dynamic[at])));
            assert(self@ =~= Sockets {
                dynamic: left,
                affinity: if stale {
                    before.affinity.remove(peer_id@)
                } else {
                    before.affinity
                },
                ..before
            });
        }
        removed
    }

    fn take_sockets<F: Fn(&usize, &DynamicPunchSocket) -> bool>(
        &mut self,
        pick: F,
        Ghost(goes): Ghost<spec_fn(usize, DynamicSocket) -> bool>,
    ) -> (removed: Vec<(usize, DynamicPunchSocket)>)
        requires
            old(self).wf(),
            forall|i: &usize, e: &DynamicPunchSocket| #[trigger] pick.requires((i, e)),
            forall|i: &usize, e: &DynamicPunchSocket, r: bool|
                #[trigger] pick.ensures((i, e), r) ==> r == goes(*i, e@),
        ensures
            final(self).tables_wf(),
            final(self).indices_wf(),
            final(self)@.dynamic.dom().finite(),
            final(self)@.dynamic.dom().len() <= old(self)@.dynamic.dom().len(),
            *final(self) == (SocketState { dynamic: final(self).dynamic, ..*old(self) }),
            final(self)@.dynamic == crate::table::kept(
                old(self)@.dynamic,
                |i: usize, e: DynamicSocket| !goes(i, e),
            ),
            all_removed(removed@, old(self)@.dynamic, goes),
    {
        let ghost picked = |i: usize, e: DynamicPunchSocket| goes(i, e@);
        let removed = self.dynamic.take_where(pick, Ghost(picked));
        proof {
            assert(self@.dynamic =~= crate::table::kept(
                old(self)@.dynamic,
                |i: usize, e: DynamicSocket| !goes(i, e),
            ));
            assert(self@.dynamic.dom().subset_of(old(self)@.dynamic.dom()));
            vstd::set_lib::lemma_len_subset(self@.dynamic.dom(), old(self)@.dynamic.dom());
            assert forall|i: usize| #[trigger] old(self)@.dynamic.dom().contains(i) && goes(
                i,
                old(self)@.dynamic[i],
            ) implies exists|j: int| 0 <= j < removed@.len() && (#[trigger] removed@[j]).0 == i by {
                assert(old(self).dynamic@.dom().contains(i));
                let j = choose|j: int|
                    0 <= j < removed@.len() && (#[trigger] removed@[j]).0.name() == i;
                assert(removed@[j].0 == i);
            }
        }
        removed
    }

    /// Whether a socket may win its session, and what identifies it.
    pub fn winner_candidate(
        &self,
        peer_id: &str,
        token: &str,
        socket_index: usize,
        network_generation: u64,
    ) -> (r: Option<(u64, SocketAddr)>)
        requires
            self.wf(),
        ensures
            r is Some <==> self@.can_win(socket_index, peer_id@, token@, network_generation),
            r matches Some((generation, endpoint)) ==> generation
                == self@.dynamic[socket_index].punch_generation && Some(endpoint)
                == self@.dynamic[socket_index].local_endpoint,
    {
        match self.dynamic.get(&socket_index) {
            None => None,
            Some(entry) => {
                assert(self@.dynamic[socket_index] == entry@);
                if !same_text(entry.peer_id.as_str(), peer_id) || entry.network_generation
                    != network_generation || !entry.phase.is_usable() || !is_text(
                    &entry.hard_hard_session_token,
                    token,
                ) {
                    return None;
                }
                match entry.local_endpoint {
                    Some(endpoint) => Some((entry.punch_generation, endpoint)),
                    None => None,
                }
            },
        }
    }

    /// Makes a socket the winner of its session: it is pinned, its evidence
    /// counted and handed over in one step, and the losers are taken out. The
    /// session's manager has just selected it.
    pub fn promote_hard_hard_winner(
        &mut self,
        peer_id: &str,
        token: &str,
        socket_index: usize,
        network_generation: u64,
    ) -> (losers: Vec<(usize, DynamicPunchSocket)>)
        requires
            old(self).wf(),
            old(self)@.can_win(socket_index, peer_id@, token@, network_generation),
        ensures
            final(self).wf(),
            final(self).limits == old(self).limits,
            final(self)@ == old(self)@.with_winner(
                socket_index,
                peer_id@,
                token@,
                network_generation,
            ),
            all_removed(
                losers@,
                old(self)@.dynamic,
                |i: usize, e: DynamicSocket|
                    i != socket_index && e.peer == peer_id@ && e.network_generation
                        == network_generation && e.token == Some(token@),
            ),
    {
        let ghost loses = |i: usize, e: DynamicSocket|
            i != socket_index && e.peer == peer_id@ && e.network_generation == network_generation
                && e.token == Some(token@);
        let ghost winner = DynamicSocket {
            evidence: next_epoch(self@.dynamic[socket_index].evidence),
            phase: DynamicSocketPhase::Finalized,
            ..self@.dynamic[socket_index]
        };
        if let Some(entry) = self.dynamic.get_mut(&socket_index) {
            entry.authenticated_evidence = entry.authenticated_evidence.saturating_add(1);
            entry.phase = DynamicSocketPhase::Finalized;
        }
        let ghost promoted = *self;
        proof {
            assert(self@.dynamic =~= old(self)@.dynamic.insert(socket_index, winner));
            assert(self@.dynamic.dom() =~= old(self)@.dynamic.dom());
        }
        let pick = |i: &usize, e: &DynamicPunchSocket| -> (r: bool)
            ensures
                r == (*i != socket_index && e@.peer == peer_id@ && e@.network_generation
                    == network_generation && e@.token == Some(token@)),
        {
            *i != socket_index && same_text(e.peer_id.as_str(), peer_id) && e.network_generation
                == network_generation && is_text(&e.hard_hard_session_token, token)
        };
        let losers = self.take_sockets(pick, Ghost(loses));
        let epoch: u64 = self.bump_epoch();
        let _ = self.affinity.insert(peer_id.to_owned(), PeerSocketPin { socket_index, epoch });
        proof {
            let expected = old(self)@.with_winner(
                socket_index,
                peer_id@,
                token@,
                network_generation,
            );
            assert(self@.dynamic =~= expected.dynamic);
            assert(self@ =~= expected);
            assert forall|i: usize| #[trigger] old(self)@.dynamic.dom().contains(i) && loses(
                i,
                old(self)@.dynamic[i],
            ) implies exists|j: int| 0 <= j < losers@.len() && (#[trigger] losers@[j]).0 == i by {
                assert(promoted@.dynamic.dom().contains(i));
            }
        }
        losers
    }

    /// Whether the live socket is still the one that a session measured with
    /// and the peer is pinned to it.
    pub fn hard_hard_socket_identity_is_current(
        &self,
        identity: &SocketIdentity,
        current_generation: u64,
    ) -> (r: bool)
        requires
            self.wf(),
        ensures
            r == self@.is_current(*identity, current_generation),
    {
        match self.dynamic.get(&identity.socket_index) {
            None => false,
            Some(entry) => {
                assert(self@.dynamic[identity.socket_index] == entry@);
                let endpoint: bool = match entry.local_endpoint {
                    Some(endpoint) => endpoint == identity.socket_local_endpoint,
                    None => false,
                };
                let pinned: bool = match self.affinity.get(&identity.peer_id) {
                    Some(pin) => pin.socket_index == identity.socket_index,
                    None => false,
                };
                same_text(entry.peer_id.as_str(), identity.peer_id.as_str())
                    && entry.network_generation == identity.network_generation
                    && entry.punch_generation == identity.punch_generation
                    && entry.phase.is_usable() && endpoint && pinned && current_generation
                    == identity.network_generation
            },
        }
    }

    /// Whether that socket has also carried authenticated traffic. The pin
    /// alone is no proof: it is set before the first acknowledgement.
    pub fn hard_hard_socket_identity_has_authenticated_evidence(
        &self,
        identity: &SocketIdentity,
        current_generation: u64,
    ) -> (r: bool)
        requires
            self.wf(),
        ensures
            r == (self@.is_current(*identity, current_generation)
                && self@.dynamic[identity.socket_index].evidence > 0),
    {
        let evidence: u64 = match self.dynamic.get(&identity.socket_index) {
            Some(entry) => {
                assert(self@.dynamic[identity.socket_index] == entry@);
                entry.authenticated_evidence
            },
            None => 0,
        };
        self.hard_hard_socket_identity_is_current(identity, current_generation) && evidence > 0
    }

    /// Takes all dedicated sockets out; pins to pool sockets stay.
    pub fn detach_all_dynamic_punch_sockets(&mut self) -> (removed: Vec<
        (usize, DynamicPunchSocket),
    >)
        requires
            old(self).wf(),
        ensures
            final(self).wf(),
            final(self).limits == old(self).limits,
            all_removed(removed@, old(self)@.dynamic, |_i: usize, _e: DynamicSocket| true),
            final(self)@ == (Sockets {
                dynamic: Map::empty(),
                affinity: crate::table::kept(
                    old(self)@.affinity,
                    |_p: Seq<char>, pin: PeerSocketPin|
                        pin.socket_index < old(self).limits.dynamic_index_base,
                ),
                ..old(self)@
            }),
    {
        let base: usize = self.limits.dynamic_index_base;
        let pick = |_i: &usize, _e: &DynamicPunchSocket| -> (r: bool)
            ensures
                r,
        {
            true
        };
        let removed = self.take_sockets(pick, Ghost(|_i: usize, _e: DynamicSocket| true));
        let keep = |_p: &String, pin: &PeerSocketPin| -> (r: bool)
            ensures
                r == (pin.socket_index < base),
        {
            pin.socket_index < base
        };
        self.affinity.retain(
            keep,
            Ghost(|_p: Seq<char>, pin: PeerSocketPin| pin.socket_index < base),
        );
        proof {
            assert(self@.dynamic =~= Map::<usize, DynamicSocket>::empty());
            assert(self@.affinity =~= crate::table::kept(
                old(self)@.affinity,
                |_p: Seq<char>, pin: PeerSocketPin|
                    pin.socket_index < old(self).limits.dynamic_index_base,
            ));
        }
        removed
    }

    /// Takes all sockets and the pin of a peer out.
    pub fn detach_dynamic_punch_socket(&mut self, peer_id: &str) -> (removed: Vec<
        (usize, DynamicPunchSocket),
    >)
        requires
            old(self).wf(),
        ensures
            final(self).wf(),
            final(self).limits == old(self).limits,
            final(self)@ == old(self)@.without_peer(peer_id@),
            all_removed(
                removed@,
                old(self)@.dynamic,
                |_i: usize, e: DynamicSocket| e.peer == peer_id@,
            ),
    {
        let pick = |_i: &usize, e: &DynamicPunchSocket| -> (r: bool)
            ensures
                r == (e@.peer == peer_id@),
        {
            same_text(e.peer_id.as_str(), peer_id)
        };
        let removed = self.take_sockets(
            pick,
            Ghost(|_i: usize, e: DynamicSocket| e.peer == peer_id@),
        );
        let _ = self.affinity.remove(&peer_id.to_owned());
        proof {
            assert(self@.dynamic =~= old(self)@.without_peer(peer_id@).dynamic);
            assert(self@ =~= old(self)@.without_peer(peer_id@));
        }
        removed
    }

    /// The cleanup epoch of a peer.
    pub fn peer_probe_cleanup_epoch(&self, peer_id: &str) -> (epoch: u64)
        requires
            self.wf(),
        ensures
            epoch == self@.cleanup_epoch(peer_id@),
    {
        match self.probe_cleanup_epochs.get(&peer_id.to_owned()) {
            Some(epoch) => *epoch,
            None => 0,
        }
    }

    /// Moves a peer's cleanup epoch on, so that nothing stamped before it is
    /// taken for current.
    pub fn bump_cleanup_epoch(&mut self, peer_id: &str)
        requires
            old(self).wf(),
        ensures
            final(self).wf(),
            final(self).limits == old(self).limits,
            final(self)@ == (Sockets {
                cleanup_epochs: old(self)@.cleanup_epochs.insert(
                    peer_id@,
                    next_epoch(old(self)@.cleanup_epoch(peer_id@)),
                ),
                ..old(self)@
            }),
    {
        let epoch: u64 = self.peer_probe_cleanup_epoch(peer_id).saturating_add(1);
        let _ = self.probe_cleanup_epochs.insert(peer_id.to_owned(), epoch);
    }

    /// The epoch of a peer's pin, zero where it has none.
    pub open spec fn pin_epoch(&self, peer: Seq<char>) -> u64 {
        match self@.pin(peer) {
            Some(pin) => pin.epoch,
            None => 0,
        }
    }

    pub fn affinity_epoch_of(&self, peer_id: &str) -> (epoch: u64)
        requires
            self.wf(),
        ensures
            epoch == self.pin_epoch(peer_id@),
    {
        match self.affinity.get(&peer_id.to_owned()) {
            Some(pin) => pin.epoch,
            None => 0,
        }
    }

    /// Whether exactly the named socket may send for a peer. There is no
    /// substitute: a prediction measured on one socket is void on another.
    pub open spec fn sends_for(
        &self,
        peer: Seq<char>,
        index: usize,
        current_generation: u64,
    ) -> bool {
        &&& self@.dynamic.dom().contains(index)
        &&& self@.dynamic[index].peer == peer
        &&& self@.dynamic[index].phase.usable()
        &&& self@.dynamic[index].network_generation == current_generation
    }

    pub fn resolve_dynamic_socket_index_for_send(
        &self,
        peer_id: &str,
        socket_index: usize,
        current_generation: u64,
    ) -> (r: Option<usize>)
        requires
            self.wf(),
        ensures
            r == if self.sends_for(peer_id@, socket_index, current_generation) {
                Some(socket_index)
            } else {
                None
            },
    {
        if socket_index < self.limits.dynamic_index_base {
            return None;
        }
        match self.dynamic.get(&socket_index) {
            None => None,
            Some(entry) => {
                assert(self@.dynamic[socket_index] == entry@);
                if !same_text(entry.peer_id.as_str(), peer_id) || !entry.phase.is_usable()
                    || entry.network_generation != current_generation {
                    None
                } else {
                    Some(socket_index)
                }
            },
        }
    }

    /// Why the named socket may not send for a peer.
    pub fn classify_dynamic_socket_failure_kind(
        &self,
        peer_id: &str,
        socket_index: usize,
        current_generation: u64,
    ) -> (kind: ProbeSendFailureKind)
        requires
            self.wf(),
        ensures
            kind == if !self@.dynamic.dom().contains(socket_index) {
                ProbeSendFailureKind::SocketUnavailable
            } else if self@.dynamic[socket_index].peer != peer_id@
                || !self@.dynamic[socket_index].phase.usable() {
                ProbeSendFailureKind::SocketRevoked
            } else if self@.dynamic[socket_index].network_generation != current_generation {
                ProbeSendFailureKind::NetworkGenerationChanged
            } else {
                ProbeSendFailureKind::SocketUnavailable
            },
    {
        if socket_index < self.limits.dynamic_index_base {
            return ProbeSendFailureKind::SocketUnavailable;
        }
        match self.dynamic.get(&socket_index) {
            None => ProbeSendFailureKind::SocketUnavailable,
            Some(entry) => {
                assert(self@.dynamic[socket_index] == entry@);
                if !same_text(entry.peer_id.as_str(), peer_id) || !entry.phase.is_usable() {
                    ProbeSendFailureKind::SocketRevoked
                } else if entry.network_generation != current_generation {
                    ProbeSendFailureKind::NetworkGenerationChanged
                } else {
                    ProbeSendFailureKind::SocketUnavailable
                }
            },
        }
    }

    /// However generations interleave, a peer pinned to a dedicated socket is
    /// pinned to one that is there and that it owns, and there are never more
    /// of them than the limit.
    pub proof fn law_no_stale_pin(&self, peer: Seq<char>)
        requires
            self.wf(),
        ensures
            self@.affinity.dom().contains(peer) && self@.affinity[peer].socket_index
                >= self.limits.dynamic_index_base ==> self@.dynamic.dom().contains(
                self@.affinity[peer].socket_index,
            ) && self@.dynamic[self@.affinity[peer].socket_index].peer == peer,
            self@.dynamic.dom().len() <= self.limits.max_dynamic,
    {
    }
}

/// `removed` is what `goes` selects of `m`, each entry once.
pub open spec fn all_removed(
    removed: Seq<(usize, DynamicPunchSocket)>,
    m: Map<usize, DynamicSocket>,
    goes: spec_fn(usize, DynamicSocket) -> bool,
) -> bool {
    &&& forall|j: int|
        0 <= j < removed.len() ==> {
            let row = #[trigger] removed[j];
            m.dom().contains(row.0) && m[row.0] == row.1@ && goes(row.0, m[row.0])
        }
    &&& forall|i: usize|
        #[trigger] m.dom().contains(i) && goes(i, m[i]) ==> exists|j: int|
            0 <= j < removed.len() && (#[trigger] removed[j]).0 == i
    &&& forall|a: int, b: int|
        0 <= a < b < removed.len() ==> (#[trigger] removed[a]).0 != (#[trigger] removed[b]).0
}

fn lists_index(list: &Vec<usize>, index: usize) -> (r: bool)
    ensures
        r == list@.contains(index),
{
    let mut i: usize = 0;
    while i < list.len()
        invariant
            i <= list@.len(),
            forall|j: int| 0 <= j < i ==> list@[j] != index,
        decreases list@.len() - i,
    {
        if list[i] == index {
            return true;
        }
        i += 1;
    }
    false
}

/// An older generation never pins over a newer one: once a generation has
/// committed for a peer, an older commit changes nothing.
pub proof fn law_older_generation_never_commits(
    sockets: Sockets,
    peer: Seq<char>,
    index: usize,
    network_generation: u64,
    older: u64,
    current_generation: u64,
    cancelled: bool,
)
    requires
        sockets.committed.dom().contains(peer),
        older < sockets.committed[peer],
    ensures
        !sockets.can_commit(peer, index, network_generation, older, current_generation, cancelled),
{
}

/// A commit never lowers the committed generation of any peer.
pub proof fn law_committed_generation_is_monotone(
    sockets: Sockets,
    peer: Seq<char>,
    other: Seq<char>,
    index: usize,
    network_generation: u64,
    punch_generation: u64,
    current_generation: u64,
    cancelled: bool,
)
    requires
        sockets.can_commit(
            peer,
            index,
            network_generation,
            punch_generation,
            current_generation,
            cancelled,
        ),
    ensures
        sockets.committed_and_pinned(peer, index, punch_generation).committed_generation(other)
            >= sockets.committed_generation(other),
{
}

/// A socket that was handed over, or that carried authenticated traffic after
/// its commit, survives the cancellation of its generation.
pub proof fn law_rollback_keeps_proven_sockets(
    sockets: Sockets,
    index: usize,
    outcome: CommitOutcome,
    pool: usize,
    base: usize,
)
    requires
        sockets.dynamic.dom().contains(index),
        sockets.dynamic[index].phase is Finalized || sockets.dynamic[index].evidence
            > outcome.evidence_at_commit,
    ensures
        !sockets.rolled_back(index, outcome, pool, base).1,
        sockets.rolled_back(index, outcome, pool, base).0.dynamic[index].phase is Finalized,
        sockets.rolled_back(index, outcome, pool, base).0.affinity == sockets.affinity,
{
}

/// A rollback restores the replaced pin only while the peer is still pinned
/// as the commit pinned it: a newer owner keeps the peer.
pub proof fn law_rollback_spares_newer_owner(
    sockets: Sockets,
    index: usize,
    outcome: CommitOutcome,
    pool: usize,
    base: usize,
)
    requires
        sockets.dynamic.dom().contains(index),
        outcome.installed is Some,
        sockets.pin(sockets.dynamic[index].peer) != outcome.installed,
    ensures
        sockets.rolled_back(index, outcome, pool, base).0.affinity == sockets.affinity,
{
}

/// Committing and rolling back at once leads back to the replaced socket, if
/// it still stands.
pub proof fn law_rollback_undoes_commit(
    sockets: Sockets,
    peer: Seq<char>,
    index: usize,
    punch_generation: u64,
    pool: usize,
    base: usize,
)
    requires
        sockets.dynamic.dom().contains(index),
        sockets.dynamic[index].peer == peer,
        sockets.restorable(sockets.pin(peer), index, pool, base),
    ensures
        ({
            let after = sockets.committed_and_pinned(peer, index, punch_generation);
            let outcome = CommitOutcome {
                committed: true,
                predecessor: sockets.pin(peer),
                installed: Some(
                    PeerSocketPin {
                        socket_index: index,
                        epoch: next_epoch(sockets.affinity_epoch),
                    },
                ),
                generation_fence: punch_generation,
                evidence_at_commit: sockets.dynamic[index].evidence,
            };
            let (back, gone) = after.rolled_back(index, outcome, pool, base);
            &&& gone
            &&& back.dynamic == sockets.dynamic.remove(index)
            &&& back.pinned(peer, sockets.affinity[peer].socket_index)
        }),
{
    let after = sockets.committed_and_pinned(peer, index, punch_generation);
    assert(after.dynamic.remove(index) =~= sockets.dynamic.remove(index));
}

/// After a peer's sockets were taken out nothing of it is left.
pub proof fn law_nothing_left_of_peer(sockets: Sockets, peer: Seq<char>)
    ensures
        !sockets.without_peer(peer).affinity.dom().contains(peer),
        forall|i: usize| #[trigger]
            sockets.without_peer(peer).dynamic.dom().contains(i) ==> sockets.without_peer(
                peer,
            ).dynamic[i].peer != peer,
{
}

/// A dedicated socket sends for a peer exactly where it is there, is the
/// peer's, belongs to the current network and was committed, whether or not it
/// was handed over.
pub proof fn law_committed_socket_sends_for_its_owner(
    state: SocketState,
    peer: Seq<char>,
    index: usize,
    current_generation: u64,
)
    ensures
        state.sends_for(peer, index, current_generation) <==> {
            &&& state@.dynamic.dom().contains(index)
            &&& state@.dynamic[index].peer == peer
            &&& state@.dynamic[index].network_generation == current_generation
            &&& (state@.dynamic[index].phase == DynamicSocketPhase::CommittedPendingHandoff
                || state@.dynamic[index].phase == DynamicSocketPhase::Finalized)
        },
{
}

/// Handing a committed socket over changes for nobody whether it sends.
pub proof fn law_handover_keeps_sending(
    before: SocketState,
    after: SocketState,
    peer: Seq<char>,
    handed_over: usize,
    index: usize,
    current_generation: u64,
)
    requires
        before@.dynamic.dom().contains(handed_over),
        before@.dynamic[handed_over].phase == DynamicSocketPhase::CommittedPendingHandoff,
        after@ == before@.with_phase(handed_over, DynamicSocketPhase::Finalized),
    ensures
        after.sends_for(peer, index, current_generation) == before.sends_for(
            peer,
            index,
            current_generation,
        ),
{
}

/// A commit makes its socket send for the peer; before it the socket did not.
pub proof fn law_commit_makes_the_socket_send(
    before: SocketState,
    after: SocketState,
    peer: Seq<char>,
    index: usize,
    network_generation: u64,
    punch_generation: u64,
    current_generation: u64,
    cancelled: bool,
)
    requires
        before@.can_commit(
            peer,
            index,
            network_generation,
            punch_generation,
            current_generation,
            cancelled,
        ),
        after@ == before@.committed_and_pinned(peer, index, punch_generation),
    ensures
        !before.sends_for(peer, index, current_generation),
        after.sends_for(peer, index, current_generation),
        after@.pinned(peer, index),
{
}

/// A socket is committed exactly where it is there, was not committed yet,
/// belongs to the peer, to both generations and to the current network, nobody
/// cancelled, and no newer generation of the peer committed before.
pub proof fn law_commit_conditions(
    sockets: Sockets,
    peer: Seq<char>,
    index: usize,
    network_generation: u64,
    punch_generation: u64,
    current_generation: u64,
    cancelled: bool,
)
    ensures
        sockets.can_commit(
            peer,
            index,
            network_generation,
            punch_generation,
            current_generation,
            cancelled,
        ) <==> {
            &&& !cancelled
            &&& network_generation == current_generation
            &&& sockets.dynamic.dom().contains(index)
            &&& sockets.dynamic[index].peer == peer
            &&& sockets.dynamic[index].phase == DynamicSocketPhase::Provisional
            &&& sockets.dynamic[index].network_generation == network_generation
            &&& sockets.dynamic[index].punch_generation == punch_generation
            &&& sockets.committed_generation(peer) <= punch_generation
        },
{
}

/// What a commit changes: the socket's phase, the peer's pin, which is newer
/// than any before it, and the peer's committed generation.
pub proof fn law_commit_effects(
    sockets: Sockets,
    peer: Seq<char>,
    index: usize,
    punch_generation: u64,
    other: Seq<char>,
    i: usize,
)
    requires
        sockets.dynamic.dom().contains(index),
        sockets.affinity_epoch < u64::MAX,
        other != peer,
        i != index,
    ensures
        ({
            let after = sockets.committed_and_pinned(peer, index, punch_generation);
            &&& after.dynamic[index].phase == DynamicSocketPhase::CommittedPendingHandoff
            &&& after.dynamic[index].peer == sockets.dynamic[index].peer
            &&& after.dynamic[index].evidence == sockets.dynamic[index].evidence
            &&& after.dynamic[index].token == sockets.dynamic[index].token
            &&& after.dynamic[index].network_generation == sockets.dynamic[index].network_generation
            &&& after.dynamic.dom().contains(i) == sockets.dynamic.dom().contains(i)
            &&& sockets.dynamic.dom().contains(i) ==> after.dynamic[i] == sockets.dynamic[i]
            &&& after.pin(peer) matches Some(pin) && pin.socket_index == index && pin.epoch
                > sockets.affinity_epoch && pin.epoch == after.affinity_epoch
            &&& after.pin(other) == sockets.pin(other)
            &&& after.committed_generation(peer) == punch_generation
            &&& after.committed_generation(other) == sockets.committed_generation(other)
            &&& after.cleanup_epoch(other) == sockets.cleanup_epoch(other)
            &&& after.cleanup_epoch(peer) == sockets.cleanup_epoch(peer)
        }),
{
}

/// A committed socket is handed over exactly while its own commit is the
/// peer's newest, the network is the same, nobody cancelled, and the pin that
/// the commit installed still stands. A socket that was committed to receive
/// only has no pin to ask after.
pub proof fn law_handover_conditions(
    sockets: Sockets,
    peer: Seq<char>,
    index: usize,
    outcome: CommitOutcome,
    current_generation: u64,
    cancelled: bool,
)
    ensures
        !sockets.can_finalize(peer, index, None, current_generation, cancelled),
        sockets.can_finalize(peer, index, Some(outcome), current_generation, cancelled) <==> {
            &&& !cancelled
            &&& outcome.committed
            &&& sockets.dynamic[index].peer == peer
            &&& sockets.dynamic[index].network_generation == current_generation
            &&& outcome.generation_fence == sockets.committed_generation(peer)
            &&& outcome.installed is None ==> sockets.dynamic[index].punch_generation != 0
            &&& outcome.installed is Some ==> sockets.pin(peer) == outcome.installed
                && sockets.dynamic[index].punch_generation == sockets.committed_generation(peer)
        },
{
}

/// A peer's pin, cleanup epoch and committed generation are what the tables
/// hold of it, and nothing and zero where they hold none.
pub proof fn law_peer_lookups(sockets: Sockets, peer: Seq<char>, index: usize)
    ensures
        sockets.pin(peer) is Some <==> sockets.affinity.dom().contains(peer),
        sockets.pin(peer) matches Some(pin) ==> pin == sockets.affinity[peer],
        sockets.pinned(peer, index) <==> (sockets.pin(peer) matches Some(pin) && pin.socket_index
            == index),
        sockets.cleanup_epochs.dom().contains(peer) ==> sockets.cleanup_epoch(peer)
            == sockets.cleanup_epochs[peer],
        !sockets.cleanup_epochs.dom().contains(peer) ==> sockets.cleanup_epoch(peer) == 0,
        sockets.committed.dom().contains(peer) ==> sockets.committed_generation(peer)
            == sockets.committed[peer],
        !sockets.committed.dom().contains(peer) ==> sockets.committed_generation(peer) == 0,
{
}

/// Epochs only grow, by one at a time, until there is no larger one.
pub proof fn law_epochs_grow(epoch: u64)
    ensures
        epoch < u64::MAX ==> next_epoch(epoch) == epoch + 1,
        epoch == u64::MAX ==> next_epoch(epoch) == epoch,
{
}

/// Taking a socket out takes its pin with it and leaves every other socket and
/// pin, and the peer's history, as they are.
pub proof fn law_detached_socket_takes_its_pin(
    sockets: Sockets,
    index: usize,
    other: Seq<char>,
    i: usize,
)
    requires
        sockets.dynamic.dom().contains(index),
    ensures
        ({
            let after = sockets.without(index);
            let owner = sockets.dynamic[index].peer;
            &&& !after.dynamic.dom().contains(index)
            &&& i != index ==> after.dynamic.dom().contains(i) == sockets.dynamic.dom().contains(i)
            &&& i != index && sockets.dynamic.dom().contains(i) ==> after.dynamic[i]
                == sockets.dynamic[i]
            &&& !after.pinned(owner, index)
            &&& other != owner ==> after.pin(other) == sockets.pin(other)
            &&& !sockets.pinned(owner, index) ==> after.pin(owner) == sockets.pin(owner)
            &&& after.affinity_epoch == sockets.affinity_epoch
            &&& after.committed == sockets.committed
            &&& after.cleanup_epochs == sockets.cleanup_epochs
        }),
{
}

/// Only the phase of one socket changes with it.
pub proof fn law_phase_change_is_local(
    sockets: Sockets,
    index: usize,
    phase: DynamicSocketPhase,
    i: usize,
)
    requires
        sockets.dynamic.dom().contains(index),
    ensures
        ({
            let after = sockets.with_phase(index, phase);
            &&& after.dynamic[index].phase == phase
            &&& after.dynamic[index].peer == sockets.dynamic[index].peer
            &&& after.dynamic[index].evidence == sockets.dynamic[index].evidence
            &&& after.dynamic[index].token == sockets.dynamic[index].token
            &&& after.dynamic[index].created_at == sockets.dynamic[index].created_at
            &&& after.dynamic[index].local_endpoint == sockets.dynamic[index].local_endpoint
            &&& after.dynamic[index].network_generation == sockets.dynamic[index].network_generation
            &&& after.dynamic[index].punch_generation == sockets.dynamic[index].punch_generation
            &&& after.dynamic.dom() == sockets.dynamic.dom()
            &&& i != index && sockets.dynamic.dom().contains(i) ==> after.dynamic[i]
                == sockets.dynamic[i]
            &&& after.affinity == sockets.affinity
            &&& after.committed == sockets.committed
        }),
{
    assert(sockets.with_phase(index, phase).dynamic.dom() =~= sockets.dynamic.dom());
}

/// A socket may be given up for another peer's exactly where its own peer has
/// no confirmed path, and the one that is given up is the oldest of those.
pub proof fn law_oldest_foreign_socket_is_evicted(
    sockets: Sockets,
    index: usize,
    other: usize,
    peer: Seq<char>,
    direct: Seq<String>,
)
    ensures
        sockets.evictable(index, peer, direct) <==> {
            &&& sockets.dynamic.dom().contains(index)
            &&& sockets.dynamic[index].peer != peer
            &&& forall|i: int|
                0 <= i < direct.len() ==> (#[trigger] direct[i])@ != sockets.dynamic[index].peer
        },
        sockets.is_eviction(index, peer, direct) ==> sockets.evictable(index, peer, direct),
        sockets.is_eviction(index, peer, direct) && sockets.evictable(other, peer, direct)
            ==> sockets.dynamic[index].created_at <= sockets.dynamic[other].created_at,
{
}

/// A replaced pin can be restored where its socket still stands: in the pool,
/// or as another dedicated socket.
pub proof fn law_restorable_pins(
    sockets: Sockets,
    pin: PeerSocketPin,
    index: usize,
    pool: usize,
    base: usize,
)
    ensures
        !sockets.restorable(None, index, pool, base),
        pin.socket_index < pool ==> sockets.restorable(Some(pin), index, pool, base),
        pool <= pin.socket_index < base ==> !sockets.restorable(Some(pin), index, pool, base),
        pool <= pin.socket_index && base <= pin.socket_index ==> (sockets.restorable(
            Some(pin),
            index,
            pool,
            base,
        ) <==> pin.socket_index != index && sockets.dynamic.dom().contains(pin.socket_index)),
{
}

/// Rolling a commit back takes its socket out, unless the socket was handed
/// over, carried traffic since, or was pinned again: then it is there for good.
/// No other socket is touched, and no other peer's pin.
pub proof fn law_rollback_outcomes(
    sockets: Sockets,
    index: usize,
    outcome: CommitOutcome,
    pool: usize,
    base: usize,
    other: Seq<char>,
    i: usize,
)
    requires
        sockets.dynamic.dom().contains(index),
        other != sockets.dynamic[index].peer,
        i != index,
    ensures
        ({
            let (after, gone) = sockets.rolled_back(index, outcome, pool, base);
            let e = sockets.dynamic[index];
            let repinned = outcome.installed is Some && sockets.pin(e.peer) != outcome.installed
                && sockets.pinned(e.peer, index);
            let stays = e.phase == DynamicSocketPhase::Finalized || e.evidence
                > outcome.evidence_at_commit || repinned;
            &&& gone <==> !stays
            &&& after.dynamic.dom().contains(index) <==> stays
            &&& stays ==> after.dynamic[index].phase == DynamicSocketPhase::Finalized
            &&& stays ==> after.affinity == sockets.affinity
            &&& after.dynamic.dom().contains(i) == sockets.dynamic.dom().contains(i)
            &&& sockets.dynamic.dom().contains(i) ==> after.dynamic[i] == sockets.dynamic[i]
            &&& after.pin(other) == sockets.pin(other)
            &&& after.committed == sockets.committed
            &&& !stays && sockets.pin(e.peer) == outcome.installed && outcome.installed is Some
                && sockets.restorable(outcome.predecessor, index, pool, base) ==> (after.pin(
                e.peer,
            ) matches Some(pin) && pin.socket_index == (outcome.predecessor->0).socket_index)
            &&& !stays && sockets.pin(e.peer) == outcome.installed && outcome.installed is Some
                && !sockets.restorable(outcome.predecessor, index, pool, base) ==> after.pin(e.peer)
                is None
            &&& !stays && outcome.installed is Some && sockets.pin(e.peer) != outcome.installed
                ==> after.pin(e.peer) == sockets.pin(e.peer)
            &&& !stays && outcome.installed is None ==> !after.pinned(e.peer, index)
        }),
{
}

/// A generation that ends gives its socket back: one that never committed goes,
/// one that did is rolled back, one that was handed over stays, and so does
/// one whose commit nobody tells of.
pub proof fn law_abandoned_sockets(
    sockets: Sockets,
    index: usize,
    outcome: Option<CommitOutcome>,
    pool: usize,
    base: usize,
)
    ensures
        ({
            let (after, gone) = sockets.abandoned(index, outcome, pool, base);
            let there = sockets.dynamic.dom().contains(index);
            let phase = sockets.dynamic[index].phase;
            let committed = outcome is Some && (outcome->0).committed;
            &&& !there ==> !gone && after == sockets
            &&& there && phase == DynamicSocketPhase::Finalized ==> !gone && after == sockets
            &&& there && phase == DynamicSocketPhase::Provisional && !committed ==> gone
                && !after.dynamic.dom().contains(index)
            &&& there && phase == DynamicSocketPhase::CommittedPendingHandoff && !committed
                ==> !gone && after == sockets
            &&& there && phase != DynamicSocketPhase::Finalized && committed ==> (after, gone)
                == sockets.rolled_back(index, outcome->0, pool, base)
        }),
{
}

/// A socket belongs to a session of its peer by its token, and may win it
/// where it was committed in the network of the session and has an address.
pub proof fn law_winner_conditions(
    sockets: Sockets,
    index: usize,
    peer: Seq<char>,
    token: Seq<char>,
    network_generation: u64,
)
    ensures
        sockets.of_session(index, peer, token) <==> sockets.dynamic.dom().contains(index)
            && sockets.dynamic[index].peer == peer && sockets.dynamic[index].token == Some(token),
        sockets.can_win(index, peer, token, network_generation) <==> {
            &&& sockets.dynamic.dom().contains(index)
            &&& sockets.dynamic[index].peer == peer
            &&& sockets.dynamic[index].token == Some(token)
            &&& sockets.dynamic[index].network_generation == network_generation
            &&& sockets.dynamic[index].phase != DynamicSocketPhase::Provisional
            &&& sockets.dynamic[index].local_endpoint is Some
        },
{
}

/// The winner of a session is handed over and pinned, with one more piece of
/// evidence; the other sockets of the session are gone, and every other socket
/// and pin stays.
pub proof fn law_winner_takes_the_session(
    sockets: Sockets,
    index: usize,
    peer: Seq<char>,
    token: Seq<char>,
    network_generation: u64,
    other: Seq<char>,
    i: usize,
)
    requires
        sockets.can_win(index, peer, token, network_generation),
        sockets.affinity_epoch < u64::MAX,
        sockets.dynamic[index].evidence < u64::MAX,
        other != peer,
        i != index,
    ensures
        ({
            let after = sockets.with_winner(index, peer, token, network_generation);
            let rival = sockets.dynamic.dom().contains(i) && sockets.dynamic[i].peer == peer
                && sockets.dynamic[i].token == Some(token) && sockets.dynamic[i].network_generation
                == network_generation;
            &&& after.dynamic.dom().contains(index)
            &&& after.dynamic[index].phase == DynamicSocketPhase::Finalized
            &&& after.dynamic[index].evidence == sockets.dynamic[index].evidence + 1
            &&& after.dynamic[index].token == Some(token)
            &&& after.pin(peer) matches Some(pin) && pin.socket_index == index && pin.epoch
                > sockets.affinity_epoch
            &&& after.pin(other) == sockets.pin(other)
            &&& after.dynamic.dom().contains(i) <==> sockets.dynamic.dom().contains(i) && !rival
            &&& after.dynamic.dom().contains(i) ==> after.dynamic[i] == sockets.dynamic[i]
            &&& after.committed == sockets.committed
        }),
{
}

/// The identity of a socket is current exactly while the very same socket is
/// there, committed, pinned and of the current network.
pub proof fn law_current_identity(
    sockets: Sockets,
    id: SocketIdentity,
    current_generation: u64,
)
    ensures
        sockets.is_current(id, current_generation) <==> {
            let e = sockets.dynamic[id.socket_index];
            &&& sockets.dynamic.dom().contains(id.socket_index)
            &&& e.phase != DynamicSocketPhase::Provisional
            &&& e.peer == id.peer_id@
            &&& e.punch_generation == id.punch_generation
            &&& e.network_generation == id.network_generation
            &&& id.network_generation == current_generation
            &&& e.local_endpoint == Some(id.socket_local_endpoint)
            &&& (sockets.pin(id.peer_id@) matches Some(pin) && pin.socket_index
                == id.socket_index)
        },
{
}

/// Taking a peer out touches nothing of the others.
pub proof fn law_peer_removal_spares_the_others(
    sockets: Sockets,
    peer: Seq<char>,
    other: Seq<char>,
    i: usize,
)
    requires
        other != peer,
    ensures
        sockets.without_peer(peer).dynamic.dom().contains(i) <==> sockets.dynamic.dom().contains(i)
            && sockets.dynamic[i].peer != peer,
        sockets.without_peer(peer).dynamic.dom().contains(i) ==> sockets.without_peer(
            peer,
        ).dynamic[i] == sockets.dynamic[i],
        sockets.without_peer(peer).pin(other) == sockets.pin(other),
        sockets.without_peer(peer).pin(peer) is None,
        sockets.without_peer(peer).committed == sockets.committed,
        sockets.without_peer(peer).cleanup_epochs == sockets.cleanup_epochs,
{
}

/// A session's snapshot marks a socket attached where it carries the session's
/// token for the peer, and usable where it was committed in the current
/// network, too.
pub proof fn law_snapshot_marks(
    state: SocketState,
    index: usize,
    peer: Seq<char>,
    token: Seq<char>,
    current_generation: u64,
)
    ensures
        ({
            let snapshot = state.snapshot_of(index, peer, token, current_generation);
            let e = state@.dynamic[index];
            &&& snapshot.socket_index == index
            &&& snapshot.attached <==> state@.dynamic.dom().contains(index) && e.peer == peer
                && e.token == Some(token)
            &&& snapshot.usable <==> snapshot.attached && e.network_generation
                == current_generation && e.phase != DynamicSocketPhase::Provisional
        }),
{
}

/// The socket that a commit superseded is a dedicated one other than its own.
pub proof fn law_superseded_socket(state: SocketState, outcome: CommitOutcome, index: usize)
    ensures
        state.superseded_by(outcome, index) matches Some(pin) ==> outcome.predecessor == Some(pin)
            && pin.socket_index >= state.limits.dynamic_index_base && pin.socket_index != index,
        state.superseded_by(outcome, index) is None ==> (outcome.predecessor matches Some(pin)
            ==> pin.socket_index < state.limits.dynamic_index_base || pin.socket_index == index),
{
}

/// The epoch of a peer without a pin is zero, and otherwise its pin's.
pub proof fn law_pin_epoch(state: SocketState, peer: Seq<char>)
    ensures
        state@.affinity.dom().contains(peer) ==> state.pin_epoch(peer)
            == state@.affinity[peer].epoch,
        !state@.affinity.dom().contains(peer) ==> state.pin_epoch(peer) == 0,
{
}

/// What was removed is what was to go, each socket once.
pub proof fn law_removed_is_what_goes(
    removed: Seq<(usize, DynamicPunchSocket)>,
    m: Map<usize, DynamicSocket>,
    goes: spec_fn(usize, DynamicSocket) -> bool,
    i: usize,
)
    requires
        all_removed(removed, m, goes),
    ensures
        (exists|j: int| 0 <= j < removed.len() && (#[trigger] removed[j]).0 == i)
            <==> m.dom().contains(i) && goes(i, m[i]),
        forall|j: int|
            0 <= j < removed.len() && (#[trigger] removed[j]).0 == i ==> removed[j].1@ == m[i],
        forall|a: int, b: int|
            0 <= a < b < removed.len() ==> (#[trigger] removed[a]).0 != (#[trigger] removed[b]).0,
{
}

/// A refused commit committed nothing, and replaced and installed no pin.
pub proof fn law_refused_commit_is_empty()
    ensures
        !CommitOutcome::spec_refused().committed,
        CommitOutcome::spec_refused().predecessor is None,
        CommitOutcome::spec_refused().installed is None,
        CommitOutcome::spec_refused().generation_fence == 0,
        CommitOutcome::spec_refused().evidence_at_commit == 0,
{
}

/// A commit can be rolled back where the socket it replaced, if it is still
/// there beside the committed one, is of the same peer.
pub proof fn law_outcome_holds_for_one_peer(
    state: SocketState,
    index: usize,
    outcome: CommitOutcome,
)
    ensures
        outcome.predecessor is None ==> state.outcome_ok(index, outcome),
        outcome.predecessor matches Some(pin) ==> (state.outcome_ok(index, outcome) <==> !(
        state@.dynamic.dom().contains(pin.socket_index) && state@.dynamic.dom().contains(index)
            && state@.dynamic[pin.socket_index].peer != state@.dynamic[index].peer)),
{
}

/// In a well-formed state every dedicated socket stands at its own index, in
/// the range of the dedicated ones, and a peer is pinned to a dedicated socket
/// only where that one is there and its own.
pub proof fn law_well_formed_sockets(state: SocketState, peer: Seq<char>, index: usize)
    requires
        state.wf(),
    ensures
        state@.dynamic.dom().contains(index) ==> index >= state.limits.dynamic_index_base
            && state@.dynamic[index].socket_index == index,
        state@.pinned(peer, index) && index >= state.limits.dynamic_index_base
            ==> state@.dynamic.dom().contains(index) && state@.dynamic[index].peer == peer,
{
}

} // verus!

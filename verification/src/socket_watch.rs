//! The watch over a dedicated socket while its generation is under way, and
//! the end of one that was taken out.
//!
//! A generation can be cancelled or dropped at any point. The watch sees to it
//! that its socket is then given back, unless the socket was handed over.

use vstd::prelude::*;
use crate::diagnostics::SocketDiagnostics;
use crate::pending::PendingProbes;
use crate::socket_state::{CommitOutcome, DynamicPunchSocket, DynamicSocketPhase, SocketState};

verus! {

/// What the watch does next.
#[derive(Clone, Copy, Debug, PartialEq, Eq, Structural)]
pub enum WatchStep {
    /// The socket belongs to its peer for good: acknowledge and stop.
    HandedOver,
    /// The generation ended: give the socket back.
    GiveBack,
    /// Nothing happened yet.
    Wait,
}

/// What the watch knows of the generation's commit.
#[derive(Clone, Copy, Debug, PartialEq, Eq, Structural)]
pub struct SocketWatch {
    pub committed: Option<CommitOutcome>,
}

/// What became of a socket that was to be given back.
pub struct GivenBack {
    /// The handoff won after all, and is acknowledged.
    pub acknowledge: bool,
    /// The socket to close.
    pub removed: Option<DynamicPunchSocket>,
}

impl SocketWatch {
    pub fn new() -> (watch: Self)
        ensures
            watch.committed is None,
    {
        SocketWatch { committed: None }
    }

    /// Takes in the commit that is published at the moment. A refused one is
    /// none.
    pub fn on_published(&mut self, published: Option<CommitOutcome>)
        ensures
            final(self).committed == if published is Some && (published->0).committed {
                published
            } else {
                old(self).committed
            },
    {
        if let Some(outcome) = published {
            if outcome.committed {
                self.committed = Some(outcome);
            }
        }
    }

    /// What comes next. A handoff comes before a cancellation, so that a stop
    /// signal that races it never wins.
    pub fn step(&self, handed_over: bool, cancelled: bool, stopped: bool) -> (step: WatchStep)
        ensures
            step == if handed_over {
                WatchStep::HandedOver
            } else if cancelled || stopped {
                WatchStep::GiveBack
            } else {
                WatchStep::Wait
            },
    {
        if handed_over {
            WatchStep::HandedOver
        } else if cancelled || stopped {
            WatchStep::GiveBack
        } else {
            WatchStep::Wait
        }
    }

    /// The commit that a socket is given back from. One that the watch has
    /// not seen counts only for a socket that was committed.
    pub open spec fn commit_of(
        self,
        phase: DynamicSocketPhase,
        published: Option<CommitOutcome>,
    ) -> Option<CommitOutcome> {
        if self.committed is Some {
            self.committed
        } else if phase is Provisional {
            None
        } else {
            published
        }
    }

    /// Gives the socket of an ended generation back, in one step with a last
    /// look at whether it was handed over.
    pub fn give_back(
        &self,
        state: &mut SocketState,
        socket_index: usize,
        handed_over: bool,
        published: Option<CommitOutcome>,
        pool: usize,
    ) -> (r: GivenBack)
        requires
            old(state).wf(),
            pool <= old(state).limits.dynamic_index_base,
            self.committed matches Some(o) ==> old(state).outcome_ok(socket_index, o),
            published matches Some(o) ==> old(state).outcome_ok(socket_index, o),
        ensures
            final(state).wf(),
            final(state).limits == old(state).limits,
            ({
                let there = old(state)@.dynamic.dom().contains(socket_index);
                let e = old(state)@.dynamic[socket_index];
                let kept = !there || handed_over || e.phase is Finalized;
                &&& r.acknowledge == (handed_over || (there && e.phase is Finalized))
                &&& kept ==> final(state)@ == old(state)@ && r.removed is None
                &&& !kept ==> (final(state)@, r.removed is Some) == old(state)@.abandoned(
                    socket_index,
                    self.commit_of(e.phase, published),
                    pool,
                    old(state).limits.dynamic_index_base,
                )
                &&& r.removed matches Some(entry) ==> entry@ == e
            }),
    {
        let phase: DynamicSocketPhase = match state.dynamic.get(&socket_index) {
            Some(entry) => {
                assert(state@.dynamic[socket_index] == entry@);
                entry.phase
            },
            None => {
                return GivenBack { acknowledge: handed_over, removed: None };
            },
        };
        if handed_over || phase.is_finalized() {
            return GivenBack { acknowledge: true, removed: None };
        }
        let outcome: Option<CommitOutcome> = match self.committed {
            Some(outcome) => Some(outcome),
            None => if phase.is_usable() {
                published
            } else {
                None
            },
        };
        let removed = state.abandon(socket_index, outcome, pool);
        GivenBack { acknowledge: false, removed }
    }
}

/// Whether the reader of a socket that was taken out may stop: nothing is
/// being sent from it any more, and no probe of it waits for an answer.
pub fn is_drained(pending: &PendingProbes, socket_index: usize, outstanding_sends: usize) -> (r:
    bool)
    requires
        pending.wf(),
    ensures
        r == (outstanding_sends == 0 && forall|n: u128| #[trigger]
            pending.probes@.dom().contains(n) ==> pending.probes@[n].socket_index != socket_index),
{
    outstanding_sends == 0 && !pending.waits_on_socket(socket_index)
}

/// Closes what is kept of a socket that was taken out. Where it did not drain
/// in time its probes are dropped: no answer can reach them any more.
pub fn close_books(
    pending: &mut PendingProbes,
    diagnostics: &mut SocketDiagnostics,
    socket_index: usize,
    drained: bool,
)
    requires
        old(pending).wf(),
        old(diagnostics).wf(),
    ensures
        final(pending).wf(),
        final(diagnostics).wf(),
        drained ==> *final(pending) == *old(pending),
        !drained ==> final(pending).probes@ == crate::table::kept(
            old(pending).probes@,
            |_n: u128, p: crate::pending::PendingProbe| p.socket_index != socket_index,
        ) && final(pending).bindings@ == crate::pending::pruned(
            old(pending).bindings@,
            final(pending).probes@,
        ),
        *final(diagnostics) == (SocketDiagnostics {
            dynamic: final(diagnostics).dynamic,
            ..*old(diagnostics)
        }),
        final(diagnostics).dynamic@ == old(diagnostics).dynamic@.remove(socket_index),
{
    if !drained {
        pending.drop_pending_probes_for_socket(socket_index);
    }
    diagnostics.detach_dynamic(socket_index);
}

/// A socket that was handed over is never taken back, whatever stop signal
/// races the handoff.
pub proof fn law_handed_over_socket_stays(
    sockets: crate::socket_state::Sockets,
    watch: SocketWatch,
    index: usize,
    published: Option<CommitOutcome>,
    pool: usize,
    base: usize,
)
    requires
        sockets.dynamic.dom().contains(index),
        sockets.dynamic[index].phase is Finalized,
    ensures
        sockets.abandoned(index, watch.commit_of(sockets.dynamic[index].phase, published), pool, base)
            == (sockets, false),
{
}

/// A generation that ended before it committed leaves no socket and no pin to
/// it.
pub proof fn law_uncommitted_generation_leaves_nothing(
    sockets: crate::socket_state::Sockets,
    index: usize,
    published: Option<CommitOutcome>,
    pool: usize,
    base: usize,
)
    requires
        sockets.dynamic.dom().contains(index),
        sockets.dynamic[index].phase is Provisional,
    ensures
        ({
            let watch = SocketWatch { committed: None };
            let after = sockets.abandoned(
                index,
                watch.commit_of(sockets.dynamic[index].phase, published),
                pool,
                base,
            );
            &&& after.1
            &&& !after.0.dynamic.dom().contains(index)
            &&& !after.0.pinned(sockets.dynamic[index].peer, index)
        }),
{
}

/// The watch goes by the commit that it knows; of a socket that is no longer
/// provisional it learns the published one, and of a provisional one nothing.
pub proof fn law_known_commit(
    watch: SocketWatch,
    phase: DynamicSocketPhase,
    published: Option<CommitOutcome>,
)
    ensures
        watch.committed is Some ==> watch.commit_of(phase, published) == watch.committed,
        watch.committed is None && phase == DynamicSocketPhase::Provisional ==> watch.commit_of(
            phase,
            published,
        ) is None,
        watch.committed is None && (phase == DynamicSocketPhase::CommittedPendingHandoff || phase
            == DynamicSocketPhase::Finalized) ==> watch.commit_of(phase, published) == published,
{
}

} // verus!

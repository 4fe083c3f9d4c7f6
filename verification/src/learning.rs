//! What was learned of how a NAT hands out ports, by destination: what holds
//! towards the observers need not hold towards a peer.

use vstd::prelude::*;
use crate::table::{Table, TableKey};

verus! {

/// The destination that a measurement was taken toward.
pub enum DestinationScope {
    /// The observers: the prior where nothing is known of a peer.
    Stun,
    /// One peer, as its own mapping was seen on the wire.
    Peer(String),
}

/// What a [`DestinationScope`] stands for.
pub enum Destination {
    Stun,
    Peer(Seq<char>),
}

impl TableKey for DestinationScope {
    type Name = Destination;

    open spec fn name(&self) -> Destination {
        match self {
            DestinationScope::Stun => Destination::Stun,
            DestinationScope::Peer(peer) => Destination::Peer(peer@),
        }
    }

    fn same(&self, other: &Self) -> (r: bool) {
        match (self, other) {
            (DestinationScope::Stun, DestinationScope::Stun) => true,
            (DestinationScope::Peer(a), DestinationScope::Peer(b)) => *a == *b,
            _ => false,
        }
    }
}

/// The learners of one network generation. `L` is what learns.
pub struct LearningCache<L> {
    network_generation: u64,
    entries: Table<DestinationScope, L>,
}

impl<L> LearningCache<L> {
    pub closed spec fn wf(&self) -> bool {
        self.entries.wf()
    }

    pub closed spec fn generation(&self) -> u64 {
        self.network_generation
    }

    pub closed spec fn learned(&self) -> Map<Destination, L> {
        self.entries@
    }

    /// What counts under a generation: nothing learned under another one.
    pub open spec fn learned_at(&self, generation: u64) -> Map<Destination, L> {
        if self.generation() == generation {
            self.learned()
        } else {
            Map::empty()
        }
    }

    /// An empty cache, which belongs to no generation in use.
    pub fn new() -> (cache: Self)
        ensures
            cache.wf(),
            cache.generation() == u64::MAX,
            cache.learned() == Map::<Destination, L>::empty(),
    {
        LearningCache { network_generation: u64::MAX, entries: Table::new() }
    }

    /// Forgets everything when the network generation moved on.
    pub fn reset_if_generation_changed(&mut self, generation: u64)
        requires
            old(self).wf(),
        ensures
            final(self).wf(),
            final(self).generation() == generation,
            final(self).learned() == old(self).learned_at(generation),
    {
        if generation != self.network_generation {
            self.entries.clear();
            self.network_generation = generation;
        }
    }

    /// The learner of a destination, which is `fresh` where there is none.
    pub fn entry(&mut self, scope: DestinationScope, fresh: L) -> (learner: &mut L)
        requires
            old(self).wf(),
        ensures
            final(self).wf(),
            final(self).generation() == old(self).generation(),
            *learner == if old(self).learned().dom().contains(scope.name()) {
                old(self).learned()[scope.name()]
            } else {
                fresh
            },
            final(self).learned() == old(self).learned().insert(scope.name(), *final(learner)),
    {
        self.entries.entry(scope, fresh)
    }

    /// The learner of a peer, under a generation.
    pub fn peer_scope(&self, peer_id: &str, generation: u64) -> (learner: Option<&L>)
        requires
            self.wf(),
        ensures
            match learner {
                Some(l) => self.learned_at(generation).dom().contains(Destination::Peer(peer_id@))
                    && *l == self.learned_at(generation)[Destination::Peer(peer_id@)],
                None => !self.learned_at(generation).dom().contains(Destination::Peer(peer_id@)),
            },
    {
        if self.network_generation != generation {
            return None;
        }
        self.entries.get(&DestinationScope::Peer(peer_id.to_owned()))
    }

    /// The learner to predict a peer's ports with: the peer's own, and that of
    /// the observers where nothing was seen of the peer.
    pub fn scope_for(&self, peer_id: &str, generation: u64) -> (learner: Option<&L>)
        requires
            self.wf(),
        ensures
            ({
                let learned = self.learned_at(generation);
                match learner {
                    Some(l) => learned.dom().contains(self.source_for(peer_id@, generation)) && *l
                        == learned[self.source_for(peer_id@, generation)],
                    None => !learned.dom().contains(self.source_for(peer_id@, generation)),
                }
            }),
    {
        match self.peer_scope(peer_id, generation) {
            Some(learner) => Some(learner),
            None => {
                if self.network_generation != generation {
                    return None;
                }
                self.entries.get(&DestinationScope::Stun)
            },
        }
    }

    /// The destination whose evidence counts for a peer.
    pub open spec fn source_for(&self, peer: Seq<char>, generation: u64) -> Destination {
        if self.learned_at(generation).dom().contains(Destination::Peer(peer)) {
            Destination::Peer(peer)
        } else {
            Destination::Stun
        }
    }

    /// A learner is never read under a generation that it did not learn in.
    pub proof fn law_new_network_forgets(&self, generation: u64, scope: Destination)
        requires
            self.generation() != generation,
        ensures
            !self.learned_at(generation).dom().contains(scope),
    {
    }
}

/// The steps from each port to the next; `difference` says how far one port
/// is from another.
pub fn model_deltas<F: Fn(u16, u16) -> i16>(ports: &[u16], difference: F) -> (deltas: Vec<i16>)
    requires
        forall|a: u16, b: u16| #[trigger] difference.requires((a, b)),
    ensures
        deltas@.len() == if ports@.len() == 0 {
            0
        } else {
            ports@.len() - 1
        },
        forall|i: int|
            0 <= i < deltas@.len() ==> difference.ensures(
                (ports@[i], ports@[i + 1]),
                #[trigger] deltas@[i],
            ),
{
    let mut deltas: Vec<i16> = Vec::new();
    let mut i: usize = 1;
    while i < ports.len()
        invariant
            1 <= i,
            deltas@.len() == i - 1,
            ports@.len() == 0 ==> i == 1,
            ports@.len() > 0 ==> i <= ports@.len(),
            forall|a: u16, b: u16| #[trigger] difference.requires((a, b)),
            forall|j: int|
                0 <= j < deltas@.len() ==> difference.ensures(
                    (ports@[j], ports@[j + 1]),
                    #[trigger] deltas@[j],
                ),
        decreases ports@.len() - i,
    {
        let delta: i16 = difference(ports[i - 1], ports[i]);
        deltas.push(delta);
        i += 1;
    }
    deltas
}

/// What was learned counts in its own network only, and a peer's own lesson
/// comes before that of the observers.
pub proof fn law_lesson_for_a_peer<L>(
    cache: LearningCache<L>,
    peer: Seq<char>,
    generation: u64,
    scope: Destination,
)
    ensures
        cache.generation() == generation ==> cache.learned_at(generation) == cache.learned(),
        cache.generation() != generation ==> !cache.learned_at(generation).dom().contains(scope),
        cache.generation() == generation && cache.learned().dom().contains(Destination::Peer(peer))
            <==> cache.source_for(peer, generation) == Destination::Peer(peer),
        cache.source_for(peer, generation) != Destination::Peer(peer) ==> cache.source_for(
            peer,
            generation,
        ) == Destination::Stun,
{
}

} // verus!

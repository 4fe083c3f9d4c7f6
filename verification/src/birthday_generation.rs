//! One birthday generation: several fresh sockets at once, a window of
//! guesses at the peer's ports, and one commit for them all.

use vstd::prelude::*;
use crate::birthday::{
    hard_hard_birthday_candidates, hard_hard_birthday_capacity_plan,
    hard_hard_birthday_socket_count, round_level,
};
use crate::fresh_mapping::{
    FreshMappingRejection, FreshState, MappingObservation, MIN_MAPPING_SAMPLES,
};
use crate::net::{IpAddr, SocketAddr};
use crate::socket_state::DynamicSocketAttachError;

verus! {

/// What a birthday generation needs to start.
#[derive(Clone, Copy, Debug)]
pub struct BirthdayStart {
    pub local_nat_requires_fresh_mapping: bool,
    pub cancelled: bool,
    pub direct: bool,
    pub local_node_known: bool,
    pub peer_key_known: bool,
    /// IPv4 observers.
    pub observer_count: usize,
}

/// Why a birthday generation does not start.
pub open spec fn birthday_start_rejection(start: BirthdayStart) -> Option<FreshMappingRejection> {
    if !start.local_nat_requires_fresh_mapping {
        Some(FreshMappingRejection::StableLocalNat)
    } else if start.cancelled || start.direct {
        Some(FreshMappingRejection::Superseded)
    } else if !start.local_node_known || !start.peer_key_known {
        Some(FreshMappingRejection::MissingProbeKey)
    } else if start.observer_count < MIN_MAPPING_SAMPLES {
        Some(FreshMappingRejection::InsufficientSamples)
    } else {
        None
    }
}

pub fn check_birthday_start(start: &BirthdayStart) -> (r: Option<FreshMappingRejection>)
    ensures
        r == birthday_start_rejection(*start),
{
    if !start.local_nat_requires_fresh_mapping {
        Some(FreshMappingRejection::StableLocalNat)
    } else if start.cancelled || start.direct {
        Some(FreshMappingRejection::Superseded)
    } else if !start.local_node_known || !start.peer_key_known {
        Some(FreshMappingRejection::MissingProbeKey)
    } else if start.observer_count < MIN_MAPPING_SAMPLES {
        Some(FreshMappingRejection::InsufficientSamples)
    } else {
        None
    }
}

/// Why all sockets of a generation are given up.
#[derive(Clone, Copy, Debug, PartialEq, Eq, Structural)]
pub enum BirthdayDetach {
    BindFailed,
    NoLocalEndpoint,
    AttachFailed,
    CapacityRejected,
    Superseded,
    PublicIpChanged,
    NoObservation,
    CommitFailed,
}

impl BirthdayDetach {
    pub open spec fn text(self) -> Seq<char> {
        match self {
            Self::BindFailed => "hard_hard_birthday_bind_failed"@,
            Self::NoLocalEndpoint => "hard_hard_birthday_no_local_endpoint"@,
            Self::AttachFailed => "hard_hard_birthday_attach_failed"@,
            Self::CapacityRejected => "hard_hard_birthday_capacity_rejected"@,
            Self::Superseded => "hard_hard_birthday_superseded"@,
            Self::PublicIpChanged => "hard_hard_birthday_public_ip_changed"@,
            Self::NoObservation => "hard_hard_birthday_no_observation"@,
            Self::CommitFailed => "hard_hard_birthday_commit_failed"@,
        }
    }

    pub fn reason(self) -> (r: &'static str)
        ensures
            r@ == self.text(),
    {
        match self {
            Self::BindFailed => "hard_hard_birthday_bind_failed",
            Self::NoLocalEndpoint => "hard_hard_birthday_no_local_endpoint",
            Self::AttachFailed => "hard_hard_birthday_attach_failed",
            Self::CapacityRejected => "hard_hard_birthday_capacity_rejected",
            Self::Superseded => "hard_hard_birthday_superseded",
            Self::PublicIpChanged => "hard_hard_birthday_public_ip_changed",
            Self::NoObservation => "hard_hard_birthday_no_observation",
            Self::CommitFailed => "hard_hard_birthday_commit_failed",
        }
    }
}

/// A socket of a generation.
#[derive(Clone, Copy, Debug, PartialEq, Eq, Structural)]
pub struct BirthdaySocket {
    pub socket_index: usize,
    pub punch_generation: u64,
    pub socket_local_endpoint: SocketAddr,
}

/// The outcome of taking up one more socket.
#[derive(Clone, Copy, Debug, PartialEq, Eq, Structural)]
pub enum BirthdayBind {
    Failed,
    NoLocalEndpoint,
    Refused(DynamicSocketAttachError),
    Attached(BirthdaySocket),
}

/// What a generation waits for.
#[derive(Clone, Copy, Debug, PartialEq, Eq, Structural)]
pub enum BirthdayPhase {
    /// One more socket.
    Bind,
    /// What its sockets measured.
    Measurement,
    /// The commit of a socket.
    Commit,
    /// The rejection, and why its sockets are given up.
    Rejected(FreshMappingRejection, BirthdayDetach),
    Ready,
}

/// All observations of all sockets, in order.
pub open spec fn flattened(by_socket: Seq<Vec<MappingObservation>>) -> Seq<MappingObservation>
    decreases by_socket.len(),
{
    if by_socket.len() == 0 {
        Seq::empty()
    } else {
        flattened(by_socket.drop_last()) + by_socket.last()@
    }
}

pub fn flatten_observations(by_socket: &Vec<Vec<MappingObservation>>) -> (all: Vec<
    MappingObservation,
>)
    ensures
        all@ == flattened(by_socket@),
{
    let mut all: Vec<MappingObservation> = Vec::new();
    let mut i: usize = 0;
    assert(by_socket@.take(0) =~= Seq::empty());
    while i < by_socket.len()
        invariant
            i <= by_socket@.len(),
            all@ == flattened(by_socket@.take(i as int)),
        decreases by_socket@.len() - i,
    {
        let ghost before = all@;
        let part: &Vec<MappingObservation> = &by_socket[i];
        let mut j: usize = 0;
        assert(before + part@.take(0) =~= before);
        while j < part.len()
            invariant
                j <= part@.len(),
                all@ == before + part@.take(j as int),
            decreases part@.len() - j,
        {
            assert(before + part@.take(j + 1) =~= (before + part@.take(j as int)).push(
                part@[j as int],
            ));
            all.push(part[j]);
            j += 1;
        }
        assert(part@.take(j as int) =~= part@);
        assert(by_socket@.take(i + 1).drop_last() =~= by_socket@.take(i as int));
        i += 1;
    }
    assert(by_socket@.take(i as int) =~= by_socket@);
    all
}

/// Whether all observations saw one public address.
pub open spec fn one_public_ip(all: Seq<MappingObservation>) -> bool {
    forall|i: int, j: int|
        0 <= i < all.len() && 0 <= j < all.len() ==> (#[trigger] all[i]).observed.ip == (
        #[trigger] all[j]).observed.ip
}

/// `ports` are the observed ports, each once, in ascending order.
pub open spec fn observed_ports(all: Seq<MappingObservation>, ports: Seq<u16>) -> bool {
    &&& forall|i: int, j: int| 0 <= i < j < ports.len() ==> ports[i] < ports[j]
    &&& forall|p: u16| #[trigger]
        ports.contains(p) <==> exists|i: int|
            0 <= i < all.len() && (#[trigger] all[i]).observed.port == p
}

/// There is only one such list.
proof fn lemma_observed_ports_unique(
    all: Seq<MappingObservation>,
    a: Seq<u16>,
    b: Seq<u16>,
    n: nat,
)
    requires
        observed_ports(all, a),
        observed_ports(all, b),
        n <= a.len(),
    ensures
        n <= b.len(),
        a.take(n as int) == b.take(n as int),
    decreases n,
{
    if n > 0 {
        lemma_observed_ports_unique(all, a, b, (n - 1) as nat);
        let k = n - 1;
        assert(a.contains(a[k]));
        assert(b.contains(a[k]));
        let j = choose|j: int| 0 <= j < b.len() && b[j] == a[k];
        if j < k {
            assert(a.take(k)[j] == b.take(k)[j]);
            assert(a[j] < a[k]);
        }
        assert(b.contains(b[k]));
        assert(a.contains(b[k]));
        let i = choose|i: int| 0 <= i < a.len() && a[i] == b[k];
        if i < k {
            assert(a.take(k)[i] == b.take(k)[i]);
            assert(b[i] < b[k]);
        }
        assert(a[k] == b[k]) by {
            if j > k {
                assert(b[k] < b[j]);
                if i > k {
                    assert(a[k] < a[i]);
                }
            }
        }
        assert(a.take(n as int) =~= a.take(k).push(a[k]));
        assert(b.take(n as int) =~= b.take(k).push(b[k]));
    } else {
        assert(a.take(0) =~= b.take(0));
    }
}

/// The observed ports are one list.
pub proof fn law_observed_ports_are_one_list(
    all: Seq<MappingObservation>,
    a: Seq<u16>,
    b: Seq<u16>,
)
    requires
        observed_ports(all, a),
        observed_ports(all, b),
    ensures
        a == b,
{
    lemma_observed_ports_unique(all, a, b, a.len());
    lemma_observed_ports_unique(all, b, a, b.len());
    assert(a.take(a.len() as int) =~= a);
    assert(b.take(a.len() as int) =~= b);
}

/// Puts a port in its place, unless it is there.
fn insert_port(ports: &mut Vec<u16>, port: u16)
    requires
        forall|i: int, j: int| 0 <= i < j < old(ports)@.len() ==> old(ports)@[i] < old(ports)@[j],
    ensures
        forall|i: int, j: int|
            0 <= i < j < final(ports)@.len() ==> final(ports)@[i] < final(ports)@[j],
        forall|p: u16| #[trigger]
            final(ports)@.contains(p) <==> old(ports)@.contains(p) || p == port,
{
    let mut at: usize = 0;
    while at < ports.len() && ports[at] < port
        invariant
            at <= ports@.len(),
            ports@ == old(ports)@,
            forall|i: int| 0 <= i < at ==> ports@[i] < port,
        decreases ports@.len() - at,
    {
        at += 1;
    }
    if at < ports.len() && ports[at] == port {
        assert(ports@[at as int] == port);
        return;
    }
    ports.insert(at, port);
    proof {
        let a = old(ports)@;
        let b = ports@;
        assert(b == a.insert(at as int, port));
        assert(b[at as int] == port);
        assert forall|p: u16| #[trigger] b.contains(p) <==> a.contains(p) || p == port by {
            if a.contains(p) {
                let i = choose|i: int| 0 <= i < a.len() && a[i] == p;
                if i < at {
                    assert(b[i] == p);
                } else {
                    assert(b[i + 1] == p);
                }
            }
            if b.contains(p) {
                let i = choose|i: int| 0 <= i < b.len() && b[i] == p;
                if i < at {
                    assert(a[i] == p);
                } else if i > at {
                    assert(a[i - 1] == p);
                }
            }
        }
    }
}

/// The observed ports, each once, in ascending order.
pub fn collect_observed_ports(all: &Vec<MappingObservation>) -> (ports: Vec<u16>)
    ensures
        observed_ports(all@, ports@),
{
    let mut ports: Vec<u16> = Vec::new();
    let mut i: usize = 0;
    while i < all.len()
        invariant
            i <= all@.len(),
            observed_ports(all@.take(i as int), ports@),
        decreases all@.len() - i,
    {
        let ghost seen = all@.take(i as int);
        let ghost next = all@.take(i + 1);
        let ghost before = ports@;
        insert_port(&mut ports, all[i].observed.port());
        proof {
            assert forall|p: u16| #[trigger] ports@.contains(p) <==> exists|k: int|
                0 <= k < next.len() && (#[trigger] next[k]).observed.port == p by {
                if before.contains(p) {
                    let k = choose|k: int|
                        0 <= k < seen.len() && (#[trigger] seen[k]).observed.port == p;
                    assert(next[k].observed.port == p);
                }
                if p == all@[i as int].observed.port {
                    assert(next[i as int].observed.port == p);
                }
                if exists|k: int| 0 <= k < next.len() && (#[trigger] next[k]).observed.port == p {
                    let k = choose|k: int|
                        0 <= k < next.len() && (#[trigger] next[k]).observed.port == p;
                    if k < i {
                        assert(seen[k].observed.port == p);
                        assert(before.contains(p));
                    }
                }
            }
        }
        i += 1;
    }
    assert(all@.take(i as int) =~= all@);
    ports
}

/// Whether all observations saw one public address.
fn check_one_public_ip(all: &Vec<MappingObservation>) -> (r: bool)
    ensures
        r == one_public_ip(all@),
{
    let mut i: usize = 1;
    while i < all.len()
        invariant
            1 <= i,
            forall|k: int| 0 <= k < i && k < all@.len() ==> (#[trigger] all@[k]).observed.ip
                == all@[0].observed.ip,
        decreases all@.len() - i,
    {
        if all[i].observed.ip() != all[0].observed.ip() {
            assert(all@[i as int].observed.ip != all@[0].observed.ip);
            return false;
        }
        i += 1;
    }
    true
}

/// The observers of a generation's socket: the first socket asks several, so
/// that a model can be read off it, and each other socket asks one.
pub open spec fn observers_for(observers: Seq<SocketAddr>, position: int) -> Seq<SocketAddr> {
    if position == 0 {
        crate::birthday::at_most(observers, 4)
    } else {
        seq![observers[position % observers.len() as int]]
    }
}

pub fn select_observers(observers: &Vec<SocketAddr>, position: usize) -> (chosen: Vec<SocketAddr>)
    requires
        observers@.len() > 0,
    ensures
        chosen@ == observers_for(observers@, position as int),
{
    let mut chosen: Vec<SocketAddr> = Vec::new();
    if position == 0 {
        let mut i: usize = 0;
        while i < observers.len() && i < 4
            invariant
                i <= 4,
                i <= observers@.len(),
                chosen@ == observers@.take(i as int),
            decreases 4 - i,
        {
            assert(observers@.take(i + 1) =~= observers@.take(i as int).push(
                observers@[i as int],
            ));
            chosen.push(observers[i]);
            i += 1;
        }
        assert(chosen@ =~= observers_for(observers@, 0));
    } else {
        chosen.push(observers[position % observers.len()]);
        assert(chosen@ =~= observers_for(observers@, position as int));
    }
    chosen
}

/// A birthday generation under way.
pub struct BirthdayGeneration {
    pub network_generation: u64,
    pub requested_level: usize,
    pub level: usize,
    pub attached: Vec<BirthdaySocket>,
    pub phase: BirthdayPhase,
    /// Sockets committed.
    pub committed: usize,
    pub public_ip: Option<IpAddr>,
    pub public_port_samples: Vec<u16>,
    pub observation_count: usize,
    pub candidate_endpoints: Vec<SocketAddr>,
}

/// The window of a generation.
pub struct BirthdayWindow {
    pub public_ip: Option<IpAddr>,
    pub ports: Seq<u16>,
    pub observation_count: int,
    pub candidates: Seq<SocketAddr>,
}

impl BirthdayGeneration {
    pub open spec fn window(&self) -> BirthdayWindow {
        BirthdayWindow {
            public_ip: self.public_ip,
            ports: self.public_port_samples@,
            observation_count: self.observation_count as int,
            candidates: self.candidate_endpoints@,
        }
    }

    pub open spec fn wf(&self) -> bool {
        &&& (self.requested_level == 64 || self.requested_level == 128 || self.requested_level
            == 256)
        &&& (self.level == 64 || self.level == 128 || self.level == 256)
        &&& self.level <= self.requested_level
        &&& (self.phase is Bind ==> self.level == self.requested_level && self.attached@.len()
            < crate::birthday::sockets_for(self.requested_level))
        &&& (self.phase is Measurement || self.phase is Commit || self.phase is Ready
            ==> self.attached@.len() == crate::birthday::sockets_for(self.level))
        &&& (self.phase is Commit ==> self.committed < self.attached@.len())
        &&& (self.phase is Ready ==> self.committed == self.attached@.len())
        &&& (self.phase is Commit || self.phase is Ready ==> self.candidate_endpoints@.len()
            == self.level && self.public_ip is Some)
    }

    /// A generation for the level that the request rounds up to.
    pub fn new(level: usize, network_generation: u64) -> (g: Self)
        ensures
            g.wf(),
            g.network_generation == network_generation,
            g.requested_level == crate::birthday::rounded_level(level),
            g.level == g.requested_level,
            g.attached@.len() == 0,
            g.phase is Bind,
            g.committed == 0,
            g.window() == (BirthdayWindow {
                public_ip: None,
                ports: Seq::empty(),
                observation_count: 0,
                candidates: Seq::empty(),
            }),
    {
        let requested: usize = round_level(level);
        BirthdayGeneration {
            network_generation,
            requested_level: requested,
            level: requested,
            attached: Vec::new(),
            phase: BirthdayPhase::Bind,
            committed: 0,
            public_ip: None,
            public_port_samples: Vec::new(),
            observation_count: 0,
            candidate_endpoints: Vec::new(),
        }
    }

    pub fn requested_socket_count(&self) -> (n: usize)
        ensures
            n == crate::birthday::sockets_for(self.requested_level),
    {
        hard_hard_birthday_socket_count(self.requested_level)
    }

    /// The plan and the window did not change.
    pub open spec fn same_plan(&self, next: &BirthdayGeneration) -> bool {
        &&& next.network_generation == self.network_generation
        &&& next.requested_level == self.requested_level
        &&& next.window() == self.window()
    }

    /// The rejection that a socket which was not taken up brings.
    pub open spec fn bind_rejection(bind: BirthdayBind) -> Option<BirthdayPhase> {
        match bind {
            BirthdayBind::Failed => Some(
                BirthdayPhase::Rejected(
                    FreshMappingRejection::BindFailed,
                    BirthdayDetach::BindFailed,
                ),
            ),
            BirthdayBind::NoLocalEndpoint => Some(
                BirthdayPhase::Rejected(
                    FreshMappingRejection::BindFailed,
                    BirthdayDetach::NoLocalEndpoint,
                ),
            ),
            BirthdayBind::Refused(DynamicSocketAttachError::CapacityRejected) => None,
            BirthdayBind::Refused(error) => Some(
                BirthdayPhase::Rejected(
                    crate::fresh_mapping::attach_rejection(error),
                    BirthdayDetach::AttachFailed,
                ),
            ),
            BirthdayBind::Attached(_) => None,
        }
    }

    /// Takes up a socket. Where there is no room for more, the generation
    /// goes on with fewer and gives up those that the lower level does not
    /// need; the sockets to give up are returned, the last one first.
    pub fn on_bound(&mut self, bind: BirthdayBind) -> (surplus: Vec<usize>)
        requires
            old(self).wf(),
            old(self).phase is Bind,
        ensures
            final(self).wf(),
            old(self).same_plan(final(self)),
            final(self).committed == old(self).committed,
            match bind {
                BirthdayBind::Attached(socket) => {
                    &&& surplus@.len() == 0
                    &&& final(self).attached@ == old(self).attached@.push(socket)
                    &&& final(self).level == old(self).level
                    &&& final(self).phase == if final(self).attached@.len()
                        == crate::birthday::sockets_for(old(self).requested_level) {
                        BirthdayPhase::Measurement
                    } else {
                        BirthdayPhase::Bind
                    }
                },
                BirthdayBind::Refused(DynamicSocketAttachError::CapacityRejected) => {
                    let n = old(self).attached@.len();
                    match crate::birthday::capacity_plan(old(self).requested_level, n as usize) {
                        Some((level, sockets)) => {
                            &&& final(self).phase is Measurement
                            &&& final(self).level == level
                            &&& final(self).attached@ == old(self).attached@.take(sockets as int)
                            &&& surplus@ == Seq::new(
                                (n - sockets) as nat,
                                |i: int| old(self).attached@[n - 1 - i].socket_index,
                            )
                        },
                        None => {
                            &&& surplus@.len() == 0
                            &&& final(self).attached@ == old(self).attached@
                            &&& final(self).level == old(self).level
                            &&& final(self).phase == BirthdayPhase::Rejected(
                                FreshMappingRejection::CapacityRejected,
                                BirthdayDetach::CapacityRejected,
                            )
                        },
                    }
                },
                _ => {
                    &&& surplus@.len() == 0
                    &&& final(self).attached@ == old(self).attached@
                    &&& final(self).level == old(self).level
                    &&& Some(final(self).phase) == Self::bind_rejection(bind)
                },
            },
    {
        let mut surplus: Vec<usize> = Vec::new();
        match bind {
            BirthdayBind::Attached(socket) => {
                self.attached.push(socket);
                if self.attached.len() == hard_hard_birthday_socket_count(self.requested_level) {
                    self.phase = BirthdayPhase::Measurement;
                }
            },
            BirthdayBind::Failed => {
                self.phase = BirthdayPhase::Rejected(
                    FreshMappingRejection::BindFailed,
                    BirthdayDetach::BindFailed,
                );
            },
            BirthdayBind::NoLocalEndpoint => {
                self.phase = BirthdayPhase::Rejected(
                    FreshMappingRejection::BindFailed,
                    BirthdayDetach::NoLocalEndpoint,
                );
            },
            BirthdayBind::Refused(DynamicSocketAttachError::CapacityRejected) => {
                match hard_hard_birthday_capacity_plan(self.requested_level, self.attached.len()) {
                    Some((level, sockets)) => {
                        self.level = level;
                        let ghost all = self.attached@;
                        while self.attached.len() > sockets
                            invariant
                                sockets <= self.attached@.len() <= all.len(),
                                self.attached@ == all.take(self.attached@.len() as int),
                                surplus@.len() == all.len() - self.attached@.len(),
                                forall|i: int|
                                    0 <= i < surplus@.len() ==> #[trigger] surplus@[i]
                                        == all[all.len() - 1 - i].socket_index,
                                self.network_generation == old(self).network_generation,
                                self.requested_level == old(self).requested_level,
                                self.level == level,
                                self.phase == old(self).phase,
                                self.committed == old(self).committed,
                                self.window() == old(self).window(),
                            decreases self.attached@.len(),
                        {
                            let ghost n = self.attached@.len() as int;
                            if let Some(last) = self.attached.pop() {
                                surplus.push(last.socket_index);
                            }
                            assert(self.attached@ =~= all.take(n - 1));
                        }
                        self.phase = BirthdayPhase::Measurement;
                    },
                    None => {
                        self.phase = BirthdayPhase::Rejected(
                            FreshMappingRejection::CapacityRejected,
                            BirthdayDetach::CapacityRejected,
                        );
                    },
                }
            },
            BirthdayBind::Refused(DynamicSocketAttachError::Superseded) => {
                self.phase = BirthdayPhase::Rejected(
                    FreshMappingRejection::Superseded,
                    BirthdayDetach::AttachFailed,
                );
            },
            BirthdayBind::Refused(_) => {
                self.phase = BirthdayPhase::Rejected(
                    FreshMappingRejection::BindFailed,
                    BirthdayDetach::AttachFailed,
                );
            },
        }
        surplus
    }

    /// Whether what the generation measured still counts.
    pub open spec fn superseded(&self, state: FreshState) -> bool {
        state.cancelled || state.network_generation != self.network_generation || state.direct
    }

    /// The rejection that a measurement brings before a window is drawn up.
    pub open spec fn measurement_rejection(
        &self,
        state: FreshState,
        all: Seq<MappingObservation>,
    ) -> Option<BirthdayPhase> {
        if self.superseded(state) {
            Some(
                BirthdayPhase::Rejected(
                    FreshMappingRejection::Superseded,
                    BirthdayDetach::Superseded,
                ),
            )
        } else if !one_public_ip(all) {
            Some(
                BirthdayPhase::Rejected(
                    FreshMappingRejection::PublicIpChanged,
                    BirthdayDetach::PublicIpChanged,
                ),
            )
        } else if all.len() == 0 {
            Some(
                BirthdayPhase::Rejected(
                    FreshMappingRejection::InsufficientSamples,
                    BirthdayDetach::NoObservation,
                ),
            )
        } else {
            None
        }
    }

    /// Draws up the window from what the sockets measured. It always reaches
    /// the level of the generation.
    pub fn on_measured(
        &mut self,
        state: &FreshState,
        by_socket: &Vec<Vec<MappingObservation>>,
        session_token: &str,
    )
        requires
            old(self).wf(),
            old(self).phase is Measurement,
        ensures
            final(self).wf(),
            final(self).network_generation == old(self).network_generation,
            final(self).requested_level == old(self).requested_level,
            final(self).level == old(self).level,
            final(self).attached == old(self).attached,
            ({
                let all = flattened(by_socket@);
                match old(self).measurement_rejection(*state, all) {
                    Some(rejected) => {
                        &&& final(self).phase == rejected
                        &&& final(self).window() == old(self).window()
                        &&& final(self).committed == old(self).committed
                    },
                    None => {
                        let ip = all[0].observed.ip;
                        let ports = final(self).public_port_samples@;
                        let guesses = crate::birthday::window_ports(
                            ip,
                            ports,
                            old(self).level,
                            session_token@,
                        );
                        &&& observed_ports(all, ports)
                        &&& final(self).public_ip == Some(ip)
                        &&& final(self).observation_count == all.len()
                        &&& final(self).candidate_endpoints@ == Seq::new(
                            guesses.len(),
                            |i: int| SocketAddr::spec_new(ip, guesses[i]),
                        )
                        &&& final(self).committed == 0
                        &&& guesses.len() == old(self).level
                        &&& final(self).phase is Commit
                    },
                }
            }),
    {
        if state.cancelled || state.network_generation != self.network_generation || state.direct {
            self.phase = BirthdayPhase::Rejected(
                FreshMappingRejection::Superseded,
                BirthdayDetach::Superseded,
            );
            return;
        }
        let all: Vec<MappingObservation> = flatten_observations(by_socket);
        if !check_one_public_ip(&all) {
            self.phase = BirthdayPhase::Rejected(
                FreshMappingRejection::PublicIpChanged,
                BirthdayDetach::PublicIpChanged,
            );
            return;
        }
        if all.len() == 0 {
            self.phase = BirthdayPhase::Rejected(
                FreshMappingRejection::InsufficientSamples,
                BirthdayDetach::NoObservation,
            );
            return;
        }
        let public_ip: IpAddr = all[0].observed.ip();
        let ports: Vec<u16> = collect_observed_ports(&all);
        let candidates: Vec<SocketAddr> = hard_hard_birthday_candidates(
            public_ip,
            ports.as_slice(),
            self.level,
            session_token,
        );
        self.phase = BirthdayPhase::Commit;
        self.committed = 0;
        self.public_ip = Some(public_ip);
        self.observation_count = all.len();
        self.public_port_samples = ports;
        self.candidate_endpoints = candidates;
    }

    /// The socket to commit next, and whether it is pinned. Only the first
    /// one is: the others receive on speculation.
    pub fn next_commit(&self) -> (r: (BirthdaySocket, bool))
        requires
            self.wf(),
            self.phase is Commit,
        ensures
            r.0 == self.attached@[self.committed as int],
            r.1 == (self.committed == 0),
    {
        (self.attached[self.committed], self.committed == 0)
    }

    /// Books the commit of a socket; one that fails takes all of them down.
    pub fn on_commit(&mut self, committed: bool, tagged: bool)
        requires
            old(self).wf(),
            old(self).phase is Commit,
        ensures
            final(self).wf(),
            old(self).same_plan(final(self)),
            final(self).level == old(self).level,
            final(self).attached == old(self).attached,
            if committed && tagged {
                &&& final(self).committed == old(self).committed + 1
                &&& final(self).phase == if final(self).committed == old(self).attached@.len() {
                    BirthdayPhase::Ready
                } else {
                    BirthdayPhase::Commit
                }
            } else {
                &&& final(self).committed == old(self).committed
                &&& final(self).phase == BirthdayPhase::Rejected(
                    FreshMappingRejection::Superseded,
                    BirthdayDetach::CommitFailed,
                )
            },
    {
        if !committed || !tagged {
            self.phase = BirthdayPhase::Rejected(
                FreshMappingRejection::Superseded,
                BirthdayDetach::CommitFailed,
            );
            return;
        }
        self.committed = self.committed + 1;
        if self.committed == self.attached.len() {
            self.phase = BirthdayPhase::Ready;
        }
    }
}

/// A generation that is ready has committed all sockets of its level, and its
/// window holds exactly as many guesses as the level, never more than asked.
pub proof fn law_ready_generation_fits_its_level(g: BirthdayGeneration)
    requires
        g.wf(),
        g.phase is Ready,
    ensures
        g.candidate_endpoints@.len() == g.level,
        g.level <= g.requested_level,
        g.committed == crate::birthday::sockets_for(g.level),
        g.attached@.len() == g.committed,
{
}

/// A generation starts exactly behind a mapping that changes, for a peer whose
/// key is known and that is neither direct nor cancelled, with three observers;
/// otherwise the first of these that fails is told.
pub proof fn law_start_conditions(start: BirthdayStart)
    ensures
        ({
            let r = birthday_start_rejection(start);
            let wanted = start.local_nat_requires_fresh_mapping;
            let ended = start.cancelled || start.direct;
            let keyed = start.local_node_known && start.peer_key_known;
            &&& r is None <==> wanted && !ended && keyed && start.observer_count >= 3
            &&& !wanted <==> r == Some(FreshMappingRejection::StableLocalNat)
            &&& wanted && ended <==> r == Some(FreshMappingRejection::Superseded)
            &&& wanted && !ended && !keyed <==> r == Some(FreshMappingRejection::MissingProbeKey)
            &&& wanted && !ended && keyed && start.observer_count < 3 <==> r == Some(
                FreshMappingRejection::InsufficientSamples,
            )
        }),
{
}

/// The observations of the sockets are put one after the other, in the order of
/// the sockets.
pub proof fn law_observations_in_turn(
    by_socket: Seq<Vec<MappingObservation>>,
    next: Vec<MappingObservation>,
)
    ensures
        flattened(Seq::empty()) == Seq::<MappingObservation>::empty(),
        flattened(by_socket.push(next)) == flattened(by_socket) + next@,
{
    assert(by_socket.push(next).drop_last() =~= by_socket);
}

/// There is one public address where no two observations differ in it, and the
/// observed ports are those of the observations, each once and in order.
pub proof fn law_observed_addresses(
    all: Seq<MappingObservation>,
    ports: Seq<u16>,
    i: int,
    j: int,
    port: u16,
)
    requires
        0 <= i < j < all.len(),
    ensures
        one_public_ip(all) ==> all[i].observed.ip == all[j].observed.ip,
        all.len() == 2 && all[i].observed.ip == all[j].observed.ip ==> one_public_ip(all),
        observed_ports(all, ports) ==> ports.contains(all[i].observed.port) && ports.contains(
            all[j].observed.port,
        ),
        observed_ports(all, ports) && ports.contains(port) ==> exists|k: int|
            0 <= k < all.len() && (#[trigger] all[k]).observed.port == port,
        observed_ports(all, ports) ==> forall|a: int, b: int|
            0 <= a < b < ports.len() ==> ports[a] < ports[b],
{
    if all.len() == 2 && all[i].observed.ip == all[j].observed.ip {
        assert(i == 0 && j == 1);
    }
}

/// The first socket asks up to four observers, every further one a single
/// observer, in turn.
pub proof fn law_observers_of_a_socket(observers: Seq<SocketAddr>, position: int)
    requires
        observers.len() > 0,
        position > 0,
    ensures
        observers.len() <= 4 ==> observers_for(observers, 0) == observers,
        observers.len() > 4 ==> observers_for(observers, 0) == observers.take(4),
        observers_for(observers, position).len() == 1,
        position < observers.len() ==> observers_for(observers, position)[0]
            == observers[position],
        observers_for(observers, position + observers.len()) == observers_for(observers, position),
{
    assert((position + observers.len()) % (observers.len() as int) == position % (
    observers.len() as int)) by (nonlinear_arith)
        requires
            observers.len() > 0,
    ;
    if position < observers.len() {
        assert(position % (observers.len() as int) == position) by (nonlinear_arith)
            requires
                0 < position < observers.len(),
        ;
    }
}

/// A generation whose plan stays keeps its network, its level and everything
/// it measured.
pub proof fn law_same_plan(g: BirthdayGeneration, next: BirthdayGeneration)
    requires
        g.same_plan(&next),
    ensures
        next.network_generation == g.network_generation,
        next.requested_level == g.requested_level,
        next.public_ip == g.public_ip,
        next.public_port_samples@ == g.public_port_samples@,
        next.observation_count == g.observation_count,
        next.candidate_endpoints@ == g.candidate_endpoints@,
{
}

/// A bind ends the generation exactly where it failed or the socket was refused
/// for anything but a lack of room.
pub proof fn law_bind_rejections(bind: BirthdayBind)
    ensures
        BirthdayGeneration::bind_rejection(bind) is None <==> bind is Attached || bind
            == BirthdayBind::Refused(DynamicSocketAttachError::CapacityRejected),
        bind is Failed ==> BirthdayGeneration::bind_rejection(bind) == Some(
            BirthdayPhase::Rejected(FreshMappingRejection::BindFailed, BirthdayDetach::BindFailed),
        ),
        bind is NoLocalEndpoint ==> BirthdayGeneration::bind_rejection(bind) == Some(
            BirthdayPhase::Rejected(
                FreshMappingRejection::BindFailed,
                BirthdayDetach::NoLocalEndpoint,
            ),
        ),
        BirthdayGeneration::bind_rejection(bind) matches Some(phase) ==> phase is Rejected,
        bind is Refused && BirthdayGeneration::bind_rejection(bind) is Some ==> (
        BirthdayGeneration::bind_rejection(bind)->0 matches BirthdayPhase::Rejected(_, detach)
            && detach == BirthdayDetach::AttachFailed),
{
}

/// What was measured is of use exactly while the generation was not
/// superseded, and something was observed, at one public address.
pub proof fn law_measurement_conditions(
    g: BirthdayGeneration,
    state: FreshState,
    all: Seq<MappingObservation>,
)
    ensures
        g.superseded(state) <==> state.cancelled || state.direct || state.network_generation
            != g.network_generation,
        g.measurement_rejection(state, all) is None <==> !state.cancelled && !state.direct
            && state.network_generation == g.network_generation && all.len() > 0 && (forall|
            i: int,
            j: int,
        |
            0 <= i < all.len() && 0 <= j < all.len() ==> (#[trigger] all[i]).observed.ip == (
            #[trigger] all[j]).observed.ip),
        g.superseded(state) <==> g.measurement_rejection(state, all) == Some(
            BirthdayPhase::Rejected(FreshMappingRejection::Superseded, BirthdayDetach::Superseded),
        ),
        !g.superseded(state) && all.len() == 0 <==> g.measurement_rejection(state, all) == Some(
            BirthdayPhase::Rejected(
                FreshMappingRejection::InsufficientSamples,
                BirthdayDetach::NoObservation,
            ),
        ),
        g.measurement_rejection(state, all) matches Some(phase) ==> (!g.superseded(state)
            && all.len() > 0 ==> phase == BirthdayPhase::Rejected(
            FreshMappingRejection::PublicIpChanged,
            BirthdayDetach::PublicIpChanged,
        )),
{
}

} // verus!

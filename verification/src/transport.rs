//! The transport itself: its sockets, and whom it is connected to.

use std::sync::Arc;
use vstd::prelude::*;
use crate::diagnostics::{
    SocketDiagnostics, UdpProbeRxSnapshot, UdpSocketPoolMemberDiagnostics,
};
use crate::failure::DaemonError;
use crate::net::{IpAddr, Ipv6Addr, SocketAddr};
use crate::socket_state::{SocketLimits, SocketState};

verus! {

/// A bound socket, with the address that the system told of it or why it
/// told none.
pub struct BoundSocket<S> {
    pub handle: Arc<S>,
    pub local_addr: Result<SocketAddr, String>,
}

impl<S> BoundSocket<S> {
    /// The address, where it is known.
    pub open spec fn address(&self) -> Option<SocketAddr> {
        match self.local_addr {
            Ok(addr) => Some(addr),
            Err(_) => None,
        }
    }

    /// Whether two are the same socket.
    pub open spec fn same_as(self, other: BoundSocket<S>) -> bool {
        &&& other.handle == self.handle
        &&& match (self.local_addr, other.local_addr) {
            (Ok(a), Ok(b)) => a == b,
            (Err(a), Err(b)) => a@ == b@,
            _ => false,
        }
    }

    /// The same socket once more.
    pub fn share(&self) -> (r: BoundSocket<S>)
        ensures
            self.same_as(r),
    {
        BoundSocket {
            handle: self.handle.clone(),
            local_addr: match &self.local_addr {
                Ok(addr) => Ok(*addr),
                Err(error) => Err(error.as_str().to_owned()),
            },
        }
    }

    pub fn local(&self) -> (addr: Option<SocketAddr>)
        ensures
            addr == self.address(),
    {
        match &self.local_addr {
            Ok(addr) => Some(*addr),
            Err(_) => None,
        }
    }
}

/// Most sockets of a pool.
pub const MAX_SOCKET_POOL_SIZE: usize = 4;

/// The sockets of a pool that was asked for.
pub fn socket_pool_size(count: usize) -> (n: usize)
    ensures
        n == if count < 1 {
            1
        } else if count > MAX_SOCKET_POOL_SIZE {
            MAX_SOCKET_POOL_SIZE
        } else {
            count
        },
{
    if count < 1 {
        1
    } else if count > MAX_SOCKET_POOL_SIZE {
        MAX_SOCKET_POOL_SIZE
    } else {
        count
    }
}

/// Where the further sockets of a pool are bound: beside the first one, with
/// ports of the system's choice.
pub fn pool_bind_address(primary: SocketAddr) -> (addr: SocketAddr)
    ensures
        addr == SocketAddr::spec_new(primary.ip, 0),
{
    SocketAddr::new(primary.ip(), 0)
}

/// Where the IPv6 socket beside an IPv4 one is bound: on the same port if it
/// can be, and on this host alone if the other one is.
pub fn ipv6_bind_address(bind_addr: SocketAddr, primary_port: Option<u16>) -> (addr: SocketAddr)
    ensures
        addr == SocketAddr::spec_new(
            IpAddr::V6(
                Ipv6Addr {
                    bits: if bind_addr.ip.spec_is_loopback() {
                        1
                    } else {
                        0
                    },
                },
            ),
            match primary_port {
                Some(port) => port,
                None => 0,
            },
        ),
{
    let bits: u128 = if bind_addr.ip().is_loopback() {
        1
    } else {
        0
    };
    let port: u16 = match primary_port {
        Some(port) => port,
        None => 0,
    };
    SocketAddr::new(IpAddr::V6(Ipv6Addr { bits }), port)
}

/// Where it is bound if that port is taken.
pub fn ipv6_fallback_address(wanted: SocketAddr) -> (addr: SocketAddr)
    ensures
        addr == SocketAddr::spec_new(wanted.ip, 0),
{
    SocketAddr::new(wanted.ip(), 0)
}

/// A UDP transport. `S` is a socket, `W` the registry of encrypted sessions,
/// `I` what takes in peer-reflexive observations, and `T` what is told of
/// paths to validate.
pub struct UdpTransport<S, W, I, T> {
    pub transport_instance_id: u64,
    pub socket: BoundSocket<S>,
    /// The pool, the first socket included; empty without a pool.
    pub sockets: Vec<BoundSocket<S>>,
    pub ipv6_socket: Option<BoundSocket<S>>,
    pub outbound_interface: Option<String>,
    pub pool_active: bool,
    pub diagnostics: SocketDiagnostics,
    pub socket_state: SocketState,
    pub local_node_id: Option<String>,
    pub wireguard_transport: Option<W>,
    pub peer_reflexive_ingress: Option<I>,
    pub validation_trigger: Option<T>,
}

impl<S, W, I, T> UdpTransport<S, W, I, T> {
    pub open spec fn wf(&self) -> bool {
        &&& self.diagnostics.wf()
        &&& self.socket_state.wf()
        &&& self.sockets@.len() <= MAX_SOCKET_POOL_SIZE
    }

    /// How many sockets there are: a pool, or the first one alone.
    pub open spec fn spec_socket_count(&self) -> int {
        if self.sockets@.len() == 0 {
            1
        } else {
            self.sockets@.len() as int
        }
    }

    /// The sockets that peers are reached from.
    pub open spec fn active(&self) -> Seq<BoundSocket<S>> {
        if self.sockets@.len() == 0 {
            seq![self.socket]
        } else {
            self.sockets@
        }
    }

    /// A transport with its first socket, and one for IPv6 if there is one.
    pub fn new(
        transport_instance_id: u64,
        socket: BoundSocket<S>,
        ipv6_socket: Option<BoundSocket<S>>,
        outbound_interface: Option<String>,
        ipv6_index: usize,
        limits: SocketLimits,
    ) -> (t: Self)
        ensures
            t.wf(),
            t.transport_instance_id == transport_instance_id,
            t.socket == socket,
            t.sockets@.len() == 0,
            t.ipv6_socket == ipv6_socket,
            t.outbound_interface == outbound_interface,
            !t.pool_active,
            t.diagnostics.pool@ == seq![UdpSocketPoolMemberDiagnostics::blank(0)],
            t.diagnostics.dynamic@ == Map::<usize, UdpSocketPoolMemberDiagnostics>::empty(),
            t.diagnostics.ipv6 == if ipv6_socket is Some {
                Some(UdpSocketPoolMemberDiagnostics::blank(ipv6_index))
            } else {
                None
            },
            t.diagnostics.ipv6_index == ipv6_index,
            t.diagnostics.dynamic_index_base == limits.dynamic_index_base,
            t.socket_state.limits == limits,
            t.socket_state@ == (crate::socket_state::Sockets {
                dynamic: Map::empty(),
                affinity: Map::empty(),
                affinity_epoch: 0,
                cleanup_epochs: Map::empty(),
                committed: Map::empty(),
            }),
            t.local_node_id is None,
            t.wireguard_transport is None,
            t.peer_reflexive_ingress is None,
            t.validation_trigger is None,
    {
        let diagnostics: SocketDiagnostics = SocketDiagnostics::new(
            limits.dynamic_index_base,
            ipv6_index,
            ipv6_socket.is_some(),
        );
        UdpTransport {
            transport_instance_id,
            socket,
            sockets: Vec::new(),
            ipv6_socket,
            outbound_interface,
            pool_active: false,
            diagnostics,
            socket_state: SocketState::new(limits),
            local_node_id: None,
            wireguard_transport: None,
            peer_reflexive_ingress: None,
            validation_trigger: None,
        }
    }

    /// A transport whose first socket was bound to `bind_addr`. Bound to an
    /// IPv6 address, that socket serves IPv6 as well; otherwise `beside` does,
    /// if there is one.
    pub fn from_bound(
        transport_instance_id: u64,
        bind_addr: SocketAddr,
        socket: BoundSocket<S>,
        beside: Option<BoundSocket<S>>,
        outbound_interface: Option<String>,
        ipv6_index: usize,
        limits: SocketLimits,
    ) -> (t: Self)
        ensures
            t.wf(),
            t.transport_instance_id == transport_instance_id,
            t.socket == socket,
            t.sockets@.len() == 0,
            bind_addr.ip is V6 ==> (t.ipv6_socket matches Some(six) && socket.same_as(six)),
            bind_addr.ip is V6 ==> t.ipv6_address() == t.socket.address(),
            bind_addr.ip is V4 ==> t.ipv6_socket == beside,
            t.outbound_interface == outbound_interface,
            !t.pool_active,
            t.diagnostics.pool@ == seq![UdpSocketPoolMemberDiagnostics::blank(0)],
            t.diagnostics.dynamic@ == Map::<usize, UdpSocketPoolMemberDiagnostics>::empty(),
            t.diagnostics.ipv6 == if t.ipv6_socket is Some {
                Some(UdpSocketPoolMemberDiagnostics::blank(ipv6_index))
            } else {
                None
            },
            t.diagnostics.ipv6_index == ipv6_index,
            t.diagnostics.dynamic_index_base == limits.dynamic_index_base,
            t.socket_state.limits == limits,
            t.socket_state@ == (crate::socket_state::Sockets {
                dynamic: Map::empty(),
                affinity: Map::empty(),
                affinity_epoch: 0,
                cleanup_epochs: Map::empty(),
                committed: Map::empty(),
            }),
            t.local_node_id is None,
            t.wireguard_transport is None,
            t.peer_reflexive_ingress is None,
            t.validation_trigger is None,
    {
        let ipv6_socket: Option<BoundSocket<S>> = if bind_addr.is_ipv6() {
            Some(socket.share())
        } else {
            beside
        };
        UdpTransport::new(
            transport_instance_id,
            socket,
            ipv6_socket,
            outbound_interface,
            ipv6_index,
            limits,
        )
    }

    /// The address of the IPv6 socket, where there is one and its address is
    /// known.
    pub open spec fn ipv6_address(&self) -> Option<SocketAddr> {
        match self.ipv6_socket {
            Some(socket) => socket.address(),
            None => None,
        }
    }

    /// `t` was built from this transport: it has the same identity, first
    /// socket, interface and dedicated sockets.
    pub open spec fn builds(&self, t: &Self) -> bool {
        &&& t.transport_instance_id == self.transport_instance_id
        &&& t.socket == self.socket
        &&& t.outbound_interface == self.outbound_interface
        &&& t.socket_state == self.socket_state
    }

    /// The interface that public traffic is held to, if any.
    pub fn outbound_interface(&self) -> (r: Option<&str>)
        ensures
            match (r, self.outbound_interface) {
                (Some(name), Some(interface)) => name@ == interface@,
                (None, None) => true,
                _ => false,
            },
    {
        match &self.outbound_interface {
            Some(interface) => Some(interface.as_str()),
            None => None,
        }
    }

    pub fn ipv6_socket(&self) -> (r: Option<Arc<S>>)
        ensures
            r == match self.ipv6_socket {
                Some(socket) => Some(socket.handle),
                None => None,
            },
    {
        match &self.ipv6_socket {
            Some(socket) => Some(socket.handle.clone()),
            None => None,
        }
    }

    pub fn ipv6_local_addr(&self) -> (r: Option<SocketAddr>)
        ensures
            r == self.ipv6_address(),
    {
        match &self.ipv6_socket {
            Some(socket) => socket.local(),
            None => None,
        }
    }

    /// Takes another IPv6 socket, with books of its own.
    pub fn with_ipv6_socket(self, ipv6_socket: BoundSocket<S>) -> (t: Self)
        requires
            self.wf(),
        ensures
            t.wf(),
            self.builds(&t),
            t == (UdpTransport {
                ipv6_socket: Some(ipv6_socket),
                diagnostics: SocketDiagnostics {
                    ipv6: Some(UdpSocketPoolMemberDiagnostics::blank(self.diagnostics.ipv6_index)),
                    ..self.diagnostics
                },
                ..self
            }),
    {
        let mut t = self;
        t.ipv6_socket = Some(ipv6_socket);
        t.diagnostics.ipv6 = Some(UdpSocketPoolMemberDiagnostics::new(t.diagnostics.ipv6_index));
        t
    }

    /// What tells this transport from the one before and the one after it.
    pub fn transport_instance_id(&self) -> (id: u64)
        ensures
            id == self.transport_instance_id,
    {
        self.transport_instance_id
    }

    /// Adds further sockets to the first one. The books of the pool start
    /// anew.
    pub fn with_socket_pool(self, more: Vec<BoundSocket<S>>) -> (t: Self)
        requires
            self.wf(),
            more@.len() < MAX_SOCKET_POOL_SIZE,
        ensures
            t.wf(),
            t.sockets@.len() == more@.len() + 1,
            self.socket.same_as(t.sockets@[0]),
            t.sockets@.drop_first() == more@,
            t.diagnostics.pool@ == Seq::new(
                more@.len() + 1,
                |i: int| UdpSocketPoolMemberDiagnostics::blank(i as usize),
            ),
            self.builds(&t),
            t == (UdpTransport {
                sockets: t.sockets,
                diagnostics: SocketDiagnostics { pool: t.diagnostics.pool, ..self.diagnostics },
                ..self
            }),
    {
        let mut t = self;
        let mut sockets: Vec<BoundSocket<S>> = Vec::new();
        let mut more: Vec<BoundSocket<S>> = more;
        sockets.push(t.socket.share());
        let ghost rest = more@;
        sockets.append(&mut more);
        assert(sockets@.drop_first() =~= rest);
        t.diagnostics.reset_pool(sockets.len());
        t.sockets = sockets;
        t
    }

    /// The socket at a place of the pool.
    pub fn active_socket(&self, socket_index: usize) -> (r: Option<&BoundSocket<S>>)
        ensures
            match r {
                Some(socket) => socket_index < self.active().len() && *socket
                    == self.active()[socket_index as int],
                None => socket_index >= self.active().len(),
            },
    {
        if self.sockets.len() == 0 {
            if socket_index == 0 {
                Some(&self.socket)
            } else {
                None
            }
        } else if socket_index < self.sockets.len() {
            Some(&self.sockets[socket_index])
        } else {
            None
        }
    }

    /// Number of live UDP sockets, including the primary data socket.
    pub fn socket_count(&self) -> (n: usize)
        ensures
            n == self.spec_socket_count(),
            n == self.active().len(),
    {
        if self.sockets.len() == 0 {
            1
        } else {
            self.sockets.len()
        }
    }

    /// Allows the further sockets to probe, or forbids it. They receive in
    /// any case, so that no mapping that is open goes unheard.
    pub fn set_socket_pool_active(&mut self, active: bool)
        ensures
            *final(self) == (UdpTransport { pool_active: active, ..*old(self) }),
    {
        self.pool_active = active;
    }

    pub fn socket_pool_active(&self) -> (r: bool)
        ensures
            r == (self.pool_active && self.spec_socket_count() > 1),
    {
        self.pool_active && self.socket_count() > 1
    }

    /// The sockets that a punch uses.
    pub fn punch_socket_count(&self) -> (n: usize)
        ensures
            n == if self.pool_active {
                self.spec_socket_count()
            } else {
                1
            },
    {
        if self.socket_pool_active() {
            self.socket_count()
        } else {
            1
        }
    }

    /// The identity that authenticated probes carry.
    pub fn with_local_node_id(self, node_id: String) -> (t: Self)
        ensures
            self.builds(&t),
            t == (UdpTransport { local_node_id: Some(node_id), ..self }),
    {
        let mut t = self;
        t.local_node_id = Some(node_id);
        t
    }

    /// The sessions that an authenticated probe confirms.
    pub fn with_wireguard_transport(self, transport: W) -> (t: Self)
        ensures
            self.builds(&t),
            t == (UdpTransport { wireguard_transport: Some(transport), ..self }),
    {
        let mut t = self;
        t.wireguard_transport = Some(transport);
        t
    }

    pub fn with_peer_reflexive_observer(self, ingress: I) -> (t: Self)
        ensures
            self.builds(&t),
            t == (UdpTransport { peer_reflexive_ingress: Some(ingress), ..self }),
    {
        let mut t = self;
        t.peer_reflexive_ingress = Some(ingress);
        t
    }

    pub fn with_validation_trigger(self, trigger: T) -> (t: Self)
        ensures
            self.builds(&t),
            t == (UdpTransport { validation_trigger: Some(trigger), ..self }),
    {
        let mut t = self;
        t.validation_trigger = Some(trigger);
        t
    }

    /// Return the local UDP socket address.
    pub fn local_addr(&self) -> (r: Result<SocketAddr, DaemonError>)
        ensures
            match self.socket.local_addr {
                Ok(addr) => r == Ok::<SocketAddr, DaemonError>(addr),
                Err(error) => r matches Err(DaemonError::Network(text)) && text@
                    == "failed to read UDP local addr: "@ + error@,
            },
    {
        match &self.socket.local_addr {
            Ok(addr) => Ok(*addr),
            Err(error) => {
                let mut text: String = "failed to read UDP local addr: ".to_owned();
                text.append(error.as_str());
                Err(DaemonError::Network(text))
            },
        }
    }

    /// The counters of the pool and of the dedicated sockets, in the order of
    /// their indices.
    pub fn socket_pool_diagnostics(&self) -> (r: Vec<UdpSocketPoolMemberDiagnostics>)
        requires
            self.wf(),
        ensures
            r@.to_multiset() == self.diagnostics.members().to_multiset(),
            forall|i: int, j: int|
                0 <= i <= j < r@.len() ==> (#[trigger] r@[i]).socket_index <= (
                #[trigger] r@[j]).socket_index,
    {
        self.diagnostics.socket_pool_diagnostics()
    }

    /// The counters of the IPv6 socket.
    pub fn ipv6_socket_diagnostics(&self) -> (r: Option<UdpSocketPoolMemberDiagnostics>)
        ensures
            r == self.diagnostics.ipv6,
    {
        self.diagnostics.ipv6
    }

    /// The receive counters of all sockets together.
    pub fn probe_rx_snapshot(&self) -> (snapshot: UdpProbeRxSnapshot)
        requires
            self.wf(),
        ensures
            snapshot == UdpProbeRxSnapshot::sum(self.diagnostics.all_members()),
    {
        self.diagnostics.probe_rx_snapshot()
    }

    /// The number of dedicated sockets.
    pub fn dynamic_socket_count(&self) -> (n: usize)
        requires
            self.wf(),
        ensures
            n == self.socket_state@.dynamic.dom().len(),
    {
        self.socket_state.dynamic_socket_count()
    }

    /// The socket that a probe leaves from. A pool socket is taken as it is;
    /// a dedicated one where the peer still owns one, and the socket of the
    /// peer's other traffic where it does not.
    pub fn socket_for_index_or_dynamic(
        &self,
        socket_index: usize,
        peer_known: bool,
        dedicated: Option<usize>,
        peer_socket: Option<usize>,
    ) -> (r: Option<usize>)
        ensures
            r == if socket_index < self.socket_state.limits.dynamic_index_base {
                if socket_index < self.spec_socket_count() {
                    Some(socket_index)
                } else {
                    None
                }
            } else if !peer_known {
                None
            } else if dedicated is Some {
                dedicated
            } else {
                peer_socket
            },
    {
        if socket_index < self.socket_state.limits.dynamic_index_base {
            return if socket_index < self.socket_count() {
                Some(socket_index)
            } else {
                None
            };
        }
        if !peer_known {
            return None;
        }
        match dedicated {
            Some(index) => Some(index),
            None => peer_socket,
        }
    }
}

/// There is always the first socket, and never more than a pool may have.
pub proof fn law_pool_is_bounded<S, W, I, T>(t: UdpTransport<S, W, I, T>)
    requires
        t.wf(),
    ensures
        1 <= t.spec_socket_count() <= MAX_SOCKET_POOL_SIZE,
        t.active().len() == t.spec_socket_count(),
        t.sockets@.len() == 0 ==> t.active()[0] == t.socket,
{
}

/// However often it is built upon, a transport keeps its identity, the
/// address of its first socket and the interface it is held to.
pub proof fn law_building_keeps_the_base<S, W, I, T>(steps: Seq<UdpTransport<S, W, I, T>>)
    requires
        steps.len() > 0,
        forall|i: int| 0 <= i < steps.len() - 1 ==> #[trigger] steps[i].builds(&steps[i + 1]),
    ensures
        steps[0].builds(&steps.last()),
        steps.last().socket.address() == steps[0].socket.address(),
    decreases steps.len(),
{
    if steps.len() > 1 {
        let init = steps.drop_last();
        assert forall|i: int| 0 <= i < init.len() - 1 implies #[trigger] init[i].builds(
            &init[i + 1],
        ) by {
            assert(steps[i].builds(&steps[i + 1]));
        }
        law_building_keeps_the_base(init);
        let k = steps.len() - 2;
        assert(steps[k].builds(&steps[k + 1]));
    }
}

/// Without an IPv6 socket there is no IPv6 address; with the first socket
/// doubling as one, the address of both is the same, known or not.
pub proof fn law_ipv6_address<S, W, I, T>(t: UdpTransport<S, W, I, T>)
    ensures
        t.ipv6_socket is None ==> t.ipv6_address() is None,
        (t.ipv6_socket matches Some(six) && t.socket.same_as(six)) ==> t.ipv6_address()
            == t.socket.address(),
{
}

/// The sockets that are in use: those of the pool, or the one socket where
/// there is no pool.
pub proof fn law_active_sockets<S, W, I, T>(t: UdpTransport<S, W, I, T>)
    ensures
        t.sockets@.len() == 0 ==> t.active().len() == 1 && t.active()[0] == t.socket,
        t.sockets@.len() > 0 ==> t.active() == t.sockets@,
        t.spec_socket_count() == t.active().len(),
        t.wf() ==> t.sockets@.len() <= 4,
{
}

/// The address of a socket is the one that is known of it, and two are the
/// same where they share a handle and what is known of their address.
pub proof fn law_socket_addresses<S>(a: BoundSocket<S>, b: BoundSocket<S>)
    ensures
        a.local_addr matches Ok(addr) ==> a.address() == Some(addr),
        a.local_addr is Err ==> a.address() is None,
        a.same_as(b) ==> a.handle == b.handle && a.address() == b.address(),
        a.handle == b.handle && a.address() is Some && a.address() == b.address() ==> a.same_as(b),
{
}

/// A step of building keeps the transport's identity, first socket, interface
/// and dedicated sockets.
pub proof fn law_building_step<S, W, I, T>(
    before: UdpTransport<S, W, I, T>,
    after: UdpTransport<S, W, I, T>,
)
    ensures
        before.builds(&after) <==> {
            &&& after.transport_instance_id == before.transport_instance_id
            &&& after.socket == before.socket
            &&& after.outbound_interface == before.outbound_interface
            &&& after.socket_state == before.socket_state
        },
        before.ipv6_socket is None ==> before.ipv6_address() is None,
        before.ipv6_socket matches Some(s) ==> before.ipv6_address() == s.address(),
{
}

} // verus!

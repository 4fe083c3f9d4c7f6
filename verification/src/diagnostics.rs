//! Counters of what sockets and peers did.

use vstd::prelude::*;
use crate::table::{Table, TableKey};
use crate::text::same_optional_text;
use crate::window::saturating_since;

verus! {

/// The counters of one socket.
#[derive(Clone, Copy, Debug, PartialEq, Eq, Structural)]
pub struct UdpSocketPoolMemberDiagnostics {
    pub socket_index: usize,
    pub datagrams_received: u64,
    pub known_peer_ip_datagrams_received: u64,
    pub authenticated_probe_packets_received: u64,
    pub authenticated_probe_malformed: u64,
    pub authenticated_probe_wrong_target: u64,
    pub authenticated_probe_no_key: u64,
    pub authenticated_probe_invalid_mac: u64,
    pub authenticated_probe_punches_received: u64,
    pub authenticated_probe_acks_observed: u64,
    pub authenticated_probe_acks_unmatched: u64,
    pub legacy_probe_acks_observed: u64,
    pub legacy_probe_acks_unmatched: u64,
    pub probe_acks_received: u64,
    pub probe_acks_sent: u64,
    pub probe_ack_retransmissions_sent: u64,
    pub probes_sent: u64,
    pub probe_retransmissions_sent: u64,
    pub relay_backoff_heartbeat_probes_sent: u64,
    pub nat_maintainer_probes_sent: u64,
    pub nat_maintainer_probe_skips: u64,
    pub encrypted_packets_received: u64,
    pub encrypted_packets_sent: u64,
    pub stun_mappings_discovered: u64,
}

/// One of the counters of a socket.
#[derive(Clone, Copy, Debug, PartialEq, Eq, Structural)]
pub enum SocketCounter {
    DatagramsReceived,
    KnownPeerIpDatagramsReceived,
    AuthenticatedProbePacketsReceived,
    AuthenticatedProbeMalformed,
    AuthenticatedProbeWrongTarget,
    AuthenticatedProbeNoKey,
    AuthenticatedProbeInvalidMac,
    AuthenticatedProbePunchesReceived,
    AuthenticatedProbeAcksObserved,
    AuthenticatedProbeAcksUnmatched,
    LegacyProbeAcksObserved,
    LegacyProbeAcksUnmatched,
    ProbeAcksReceived,
    ProbeAcksSent,
    ProbeAckRetransmissionsSent,
    ProbesSent,
    ProbeRetransmissionsSent,
    RelayBackoffHeartbeatProbesSent,
    NatMaintainerProbesSent,
    NatMaintainerProbeSkips,
    EncryptedPacketsReceived,
    EncryptedPacketsSent,
}

impl UdpSocketPoolMemberDiagnostics {
    pub open spec fn blank(socket_index: usize) -> Self {
        UdpSocketPoolMemberDiagnostics {
            socket_index,
            datagrams_received: 0,
            known_peer_ip_datagrams_received: 0,
            authenticated_probe_packets_received: 0,
            authenticated_probe_malformed: 0,
            authenticated_probe_wrong_target: 0,
            authenticated_probe_no_key: 0,
            authenticated_probe_invalid_mac: 0,
            authenticated_probe_punches_received: 0,
            authenticated_probe_acks_observed: 0,
            authenticated_probe_acks_unmatched: 0,
            legacy_probe_acks_observed: 0,
            legacy_probe_acks_unmatched: 0,
            probe_acks_received: 0,
            probe_acks_sent: 0,
            probe_ack_retransmissions_sent: 0,
            probes_sent: 0,
            probe_retransmissions_sent: 0,
            relay_backoff_heartbeat_probes_sent: 0,
            nat_maintainer_probes_sent: 0,
            nat_maintainer_probe_skips: 0,
            encrypted_packets_received: 0,
            encrypted_packets_sent: 0,
            stun_mappings_discovered: 0,
        }
    }

    /// One more of a counter.
    pub open spec fn counted(self, counter: SocketCounter) -> Self {
        match counter {
            SocketCounter::DatagramsReceived => UdpSocketPoolMemberDiagnostics {
                datagrams_received: crate::histogram::add64(self.datagrams_received, 1),
                ..self
            },
            SocketCounter::KnownPeerIpDatagramsReceived => UdpSocketPoolMemberDiagnostics {
                known_peer_ip_datagrams_received: crate::histogram::add64(self.known_peer_ip_datagrams_received, 1),
                ..self
            },
            SocketCounter::AuthenticatedProbePacketsReceived => UdpSocketPoolMemberDiagnostics {
                authenticated_probe_packets_received: crate::histogram::add64(self.authenticated_probe_packets_received, 1),
                ..self
            },
            SocketCounter::AuthenticatedProbeMalformed => UdpSocketPoolMemberDiagnostics {
                authenticated_probe_malformed: crate::histogram::add64(self.authenticated_probe_malformed, 1),
                ..self
            },
            SocketCounter::AuthenticatedProbeWrongTarget => UdpSocketPoolMemberDiagnostics {
                authenticated_probe_wrong_target: crate::histogram::add64(self.authenticated_probe_wrong_target, 1),
                ..self
            },
            SocketCounter::AuthenticatedProbeNoKey => UdpSocketPoolMemberDiagnostics {
                authenticated_probe_no_key: crate::histogram::add64(self.authenticated_probe_no_key, 1),
                ..self
            },
            SocketCounter::AuthenticatedProbeInvalidMac => UdpSocketPoolMemberDiagnostics {
                authenticated_probe_invalid_mac: crate::histogram::add64(self.authenticated_probe_invalid_mac, 1),
                ..self
            },
            SocketCounter::AuthenticatedProbePunchesReceived => UdpSocketPoolMemberDiagnostics {
                authenticated_probe_punches_received: crate::histogram::add64(self.authenticated_probe_punches_received, 1),
                ..self
            },
            SocketCounter::AuthenticatedProbeAcksObserved => UdpSocketPoolMemberDiagnostics {
                authenticated_probe_acks_observed: crate::histogram::add64(self.authenticated_probe_acks_observed, 1),
                ..self
            },
            SocketCounter::AuthenticatedProbeAcksUnmatched => UdpSocketPoolMemberDiagnostics {
                authenticated_probe_acks_unmatched: crate::histogram::add64(self.authenticated_probe_acks_unmatched, 1),
                ..self
            },
            SocketCounter::LegacyProbeAcksObserved => UdpSocketPoolMemberDiagnostics {
                legacy_probe_acks_observed: crate::histogram::add64(self.legacy_probe_acks_observed, 1),
                ..self
            },
            SocketCounter::LegacyProbeAcksUnmatched => UdpSocketPoolMemberDiagnostics {
                legacy_probe_acks_unmatched: crate::histogram::add64(self.legacy_probe_acks_unmatched, 1),
                ..self
            },
            SocketCounter::ProbeAcksReceived => UdpSocketPoolMemberDiagnostics {
                probe_acks_received: crate::histogram::add64(self.probe_acks_received, 1),
                ..self
            },
            SocketCounter::ProbeAcksSent => UdpSocketPoolMemberDiagnostics {
                probe_acks_sent: crate::histogram::add64(self.probe_acks_sent, 1),
                ..self
            },
            SocketCounter::ProbeAckRetransmissionsSent => UdpSocketPoolMemberDiagnostics {
                probe_ack_retransmissions_sent: crate::histogram::add64(self.probe_ack_retransmissions_sent, 1),
                ..self
            },
            SocketCounter::ProbesSent => UdpSocketPoolMemberDiagnostics {
                probes_sent: crate::histogram::add64(self.probes_sent, 1),
                ..self
            },
            SocketCounter::ProbeRetransmissionsSent => UdpSocketPoolMemberDiagnostics {
                probe_retransmissions_sent: crate::histogram::add64(self.probe_retransmissions_sent, 1),
                ..self
            },
            SocketCounter::RelayBackoffHeartbeatProbesSent => UdpSocketPoolMemberDiagnostics {
                relay_backoff_heartbeat_probes_sent: crate::histogram::add64(self.relay_backoff_heartbeat_probes_sent, 1),
                ..self
            },
            SocketCounter::NatMaintainerProbesSent => UdpSocketPoolMemberDiagnostics {
                nat_maintainer_probes_sent: crate::histogram::add64(self.nat_maintainer_probes_sent, 1),
                ..self
            },
            SocketCounter::NatMaintainerProbeSkips => UdpSocketPoolMemberDiagnostics {
                nat_maintainer_probe_skips: crate::histogram::add64(self.nat_maintainer_probe_skips, 1),
                ..self
            },
            SocketCounter::EncryptedPacketsReceived => UdpSocketPoolMemberDiagnostics {
                encrypted_packets_received: crate::histogram::add64(self.encrypted_packets_received, 1),
                ..self
            },
            SocketCounter::EncryptedPacketsSent => UdpSocketPoolMemberDiagnostics {
                encrypted_packets_sent: crate::histogram::add64(self.encrypted_packets_sent, 1),
                ..self
            },
        }
    }

    /// More mappings that the observers told of.
    pub open spec fn with_mappings(self, discovered: u64) -> Self {
        UdpSocketPoolMemberDiagnostics {
            stun_mappings_discovered: crate::histogram::add64(
                self.stun_mappings_discovered,
                discovered,
            ),
            ..self
        }
    }

    fn add_mappings(&mut self, discovered: u64)
        ensures
            *final(self) == old(self).with_mappings(discovered),
    {
        self.stun_mappings_discovered = self.stun_mappings_discovered.saturating_add(discovered);
    }

    pub fn new(socket_index: usize) -> (r: Self)
        ensures
            r == Self::blank(socket_index),
    {
        UdpSocketPoolMemberDiagnostics {
            socket_index,
            datagrams_received: 0,
            known_peer_ip_datagrams_received: 0,
            authenticated_probe_packets_received: 0,
            authenticated_probe_malformed: 0,
            authenticated_probe_wrong_target: 0,
            authenticated_probe_no_key: 0,
            authenticated_probe_invalid_mac: 0,
            authenticated_probe_punches_received: 0,
            authenticated_probe_acks_observed: 0,
            authenticated_probe_acks_unmatched: 0,
            legacy_probe_acks_observed: 0,
            legacy_probe_acks_unmatched: 0,
            probe_acks_received: 0,
            probe_acks_sent: 0,
            probe_ack_retransmissions_sent: 0,
            probes_sent: 0,
            probe_retransmissions_sent: 0,
            relay_backoff_heartbeat_probes_sent: 0,
            nat_maintainer_probes_sent: 0,
            nat_maintainer_probe_skips: 0,
            encrypted_packets_received: 0,
            encrypted_packets_sent: 0,
            stun_mappings_discovered: 0,
        }
    }

    pub fn count(&mut self, counter: SocketCounter)
        ensures
            *final(self) == old(self).counted(counter),
    {
        match counter {
            SocketCounter::DatagramsReceived => {
                self.datagrams_received = self.datagrams_received.saturating_add(1);
            },
            SocketCounter::KnownPeerIpDatagramsReceived => {
                self.known_peer_ip_datagrams_received = self.known_peer_ip_datagrams_received.saturating_add(1);
            },
            SocketCounter::AuthenticatedProbePacketsReceived => {
                self.authenticated_probe_packets_received = self.authenticated_probe_packets_received.saturating_add(1);
            },
            SocketCounter::AuthenticatedProbeMalformed => {
                self.authenticated_probe_malformed = self.authenticated_probe_malformed.saturating_add(1);
            },
            SocketCounter::AuthenticatedProbeWrongTarget => {
                self.authenticated_probe_wrong_target = self.authenticated_probe_wrong_target.saturating_add(1);
            },
            SocketCounter::AuthenticatedProbeNoKey => {
                self.authenticated_probe_no_key = self.authenticated_probe_no_key.saturating_add(1);
            },
            SocketCounter::AuthenticatedProbeInvalidMac => {
                self.authenticated_probe_invalid_mac = self.authenticated_probe_invalid_mac.saturating_add(1);
            },
            SocketCounter::AuthenticatedProbePunchesReceived => {
                self.authenticated_probe_punches_received = self.authenticated_probe_punches_received.saturating_add(1);
            },
            SocketCounter::AuthenticatedProbeAcksObserved => {
                self.authenticated_probe_acks_observed = self.authenticated_probe_acks_observed.saturating_add(1);
            },
            SocketCounter::AuthenticatedProbeAcksUnmatched => {
                self.authenticated_probe_acks_unmatched = self.authenticated_probe_acks_unmatched.saturating_add(1);
            },
            SocketCounter::LegacyProbeAcksObserved => {
                self.legacy_probe_acks_observed = self.legacy_probe_acks_observed.saturating_add(1);
            },
            SocketCounter::LegacyProbeAcksUnmatched => {
                self.legacy_probe_acks_unmatched = self.legacy_probe_acks_unmatched.saturating_add(1);
            },
            SocketCounter::ProbeAcksReceived => {
                self.probe_acks_received = self.probe_acks_received.saturating_add(1);
            },
            SocketCounter::ProbeAcksSent => {
                self.probe_acks_sent = self.probe_acks_sent.saturating_add(1);
            },
            SocketCounter::ProbeAckRetransmissionsSent => {
                self.probe_ack_retransmissions_sent = self.probe_ack_retransmissions_sent.saturating_add(1);
            },
            SocketCounter::ProbesSent => {
                self.probes_sent = self.probes_sent.saturating_add(1);
            },
            SocketCounter::ProbeRetransmissionsSent => {
                self.probe_retransmissions_sent = self.probe_retransmissions_sent.saturating_add(1);
            },
            SocketCounter::RelayBackoffHeartbeatProbesSent => {
                self.relay_backoff_heartbeat_probes_sent = self.relay_backoff_heartbeat_probes_sent.saturating_add(1);
            },
            SocketCounter::NatMaintainerProbesSent => {
                self.nat_maintainer_probes_sent = self.nat_maintainer_probes_sent.saturating_add(1);
            },
            SocketCounter::NatMaintainerProbeSkips => {
                self.nat_maintainer_probe_skips = self.nat_maintainer_probe_skips.saturating_add(1);
            },
            SocketCounter::EncryptedPacketsReceived => {
                self.encrypted_packets_received = self.encrypted_packets_received.saturating_add(1);
            },
            SocketCounter::EncryptedPacketsSent => {
                self.encrypted_packets_sent = self.encrypted_packets_sent.saturating_add(1);
            },
        }
    }
}

/// What was received in answer to probes.
#[derive(Clone, Copy, Debug, PartialEq, Eq, Structural)]
pub struct UdpProbeRxSnapshot {
    pub known_peer_ip_datagrams_received: u64,
    pub authenticated_probe_packets_received: u64,
    pub authenticated_probe_acks_observed: u64,
    pub authenticated_probe_acks_unmatched: u64,
    pub legacy_probe_acks_observed: u64,
    pub legacy_probe_acks_unmatched: u64,
    pub probe_acks_received: u64,
}

/// One of the counters of a snapshot.
#[derive(Clone, Copy, Debug, PartialEq, Eq, Structural)]
pub enum ProbeRxCounter {
    KnownPeerIpDatagramsReceived,
    AuthenticatedProbePacketsReceived,
    AuthenticatedProbeAcksObserved,
    AuthenticatedProbeAcksUnmatched,
    LegacyProbeAcksObserved,
    LegacyProbeAcksUnmatched,
    ProbeAcksReceived,
}

impl UdpProbeRxSnapshot {
    pub open spec fn blank() -> Self {
        UdpProbeRxSnapshot {
            known_peer_ip_datagrams_received: 0,
            authenticated_probe_packets_received: 0,
            authenticated_probe_acks_observed: 0,
            authenticated_probe_acks_unmatched: 0,
            legacy_probe_acks_observed: 0,
            legacy_probe_acks_unmatched: 0,
            probe_acks_received: 0,
        }
    }

    /// With the counters of a socket added.
    pub open spec fn plus(self, member: UdpSocketPoolMemberDiagnostics) -> Self {
        UdpProbeRxSnapshot {
            known_peer_ip_datagrams_received: crate::histogram::add64(
                self.known_peer_ip_datagrams_received,
                member.known_peer_ip_datagrams_received,
            ),
            authenticated_probe_packets_received: crate::histogram::add64(
                self.authenticated_probe_packets_received,
                member.authenticated_probe_packets_received,
            ),
            authenticated_probe_acks_observed: crate::histogram::add64(
                self.authenticated_probe_acks_observed,
                member.authenticated_probe_acks_observed,
            ),
            authenticated_probe_acks_unmatched: crate::histogram::add64(
                self.authenticated_probe_acks_unmatched,
                member.authenticated_probe_acks_unmatched,
            ),
            legacy_probe_acks_observed: crate::histogram::add64(
                self.legacy_probe_acks_observed,
                member.legacy_probe_acks_observed,
            ),
            legacy_probe_acks_unmatched: crate::histogram::add64(
                self.legacy_probe_acks_unmatched,
                member.legacy_probe_acks_unmatched,
            ),
            probe_acks_received: crate::histogram::add64(
                self.probe_acks_received,
                member.probe_acks_received,
            ),
        }
    }

    /// One more of a counter.
    pub open spec fn counted(self, counter: ProbeRxCounter) -> Self {
        match counter {
            ProbeRxCounter::KnownPeerIpDatagramsReceived => UdpProbeRxSnapshot {
                known_peer_ip_datagrams_received: crate::histogram::add64(self.known_peer_ip_datagrams_received, 1),
                ..self
            },
            ProbeRxCounter::AuthenticatedProbePacketsReceived => UdpProbeRxSnapshot {
                authenticated_probe_packets_received: crate::histogram::add64(self.authenticated_probe_packets_received, 1),
                ..self
            },
            ProbeRxCounter::AuthenticatedProbeAcksObserved => UdpProbeRxSnapshot {
                authenticated_probe_acks_observed: crate::histogram::add64(self.authenticated_probe_acks_observed, 1),
                ..self
            },
            ProbeRxCounter::AuthenticatedProbeAcksUnmatched => UdpProbeRxSnapshot {
                authenticated_probe_acks_unmatched: crate::histogram::add64(self.authenticated_probe_acks_unmatched, 1),
                ..self
            },
            ProbeRxCounter::LegacyProbeAcksObserved => UdpProbeRxSnapshot {
                legacy_probe_acks_observed: crate::histogram::add64(self.legacy_probe_acks_observed, 1),
                ..self
            },
            ProbeRxCounter::LegacyProbeAcksUnmatched => UdpProbeRxSnapshot {
                legacy_probe_acks_unmatched: crate::histogram::add64(self.legacy_probe_acks_unmatched, 1),
                ..self
            },
            ProbeRxCounter::ProbeAcksReceived => UdpProbeRxSnapshot {
                probe_acks_received: crate::histogram::add64(self.probe_acks_received, 1),
                ..self
            },
        }
    }

    /// The sum over sockets.
    pub open spec fn sum(members: Seq<UdpSocketPoolMemberDiagnostics>) -> Self
        decreases members.len(),
    {
        if members.len() == 0 {
            Self::blank()
        } else {
            Self::sum(members.drop_last()).plus(members.last())
        }
    }

    pub fn new() -> (r: Self)
        ensures
            r == Self::blank(),
    {
        UdpProbeRxSnapshot {
            known_peer_ip_datagrams_received: 0,
            authenticated_probe_packets_received: 0,
            authenticated_probe_acks_observed: 0,
            authenticated_probe_acks_unmatched: 0,
            legacy_probe_acks_observed: 0,
            legacy_probe_acks_unmatched: 0,
            probe_acks_received: 0,
        }
    }

    fn add_member(&mut self, member: &UdpSocketPoolMemberDiagnostics)
        ensures
            *final(self) == old(self).plus(*member),
    {
        self.known_peer_ip_datagrams_received = self.known_peer_ip_datagrams_received.saturating_add(
            member.known_peer_ip_datagrams_received,
        );
        self.authenticated_probe_packets_received = self.authenticated_probe_packets_received.saturating_add(
            member.authenticated_probe_packets_received,
        );
        self.authenticated_probe_acks_observed = self.authenticated_probe_acks_observed.saturating_add(
            member.authenticated_probe_acks_observed,
        );
        self.authenticated_probe_acks_unmatched = self.authenticated_probe_acks_unmatched.saturating_add(
            member.authenticated_probe_acks_unmatched,
        );
        self.legacy_probe_acks_observed = self.legacy_probe_acks_observed.saturating_add(
            member.legacy_probe_acks_observed,
        );
        self.legacy_probe_acks_unmatched = self.legacy_probe_acks_unmatched.saturating_add(
            member.legacy_probe_acks_unmatched,
        );
        self.probe_acks_received = self.probe_acks_received.saturating_add(
            member.probe_acks_received,
        );
    }

    pub fn count(&mut self, counter: ProbeRxCounter)
        ensures
            *final(self) == old(self).counted(counter),
    {
        match counter {
            ProbeRxCounter::KnownPeerIpDatagramsReceived => {
                self.known_peer_ip_datagrams_received = self.known_peer_ip_datagrams_received.saturating_add(1);
            },
            ProbeRxCounter::AuthenticatedProbePacketsReceived => {
                self.authenticated_probe_packets_received = self.authenticated_probe_packets_received.saturating_add(1);
            },
            ProbeRxCounter::AuthenticatedProbeAcksObserved => {
                self.authenticated_probe_acks_observed = self.authenticated_probe_acks_observed.saturating_add(1);
            },
            ProbeRxCounter::AuthenticatedProbeAcksUnmatched => {
                self.authenticated_probe_acks_unmatched = self.authenticated_probe_acks_unmatched.saturating_add(1);
            },
            ProbeRxCounter::LegacyProbeAcksObserved => {
                self.legacy_probe_acks_observed = self.legacy_probe_acks_observed.saturating_add(1);
            },
            ProbeRxCounter::LegacyProbeAcksUnmatched => {
                self.legacy_probe_acks_unmatched = self.legacy_probe_acks_unmatched.saturating_add(1);
            },
            ProbeRxCounter::ProbeAcksReceived => {
                self.probe_acks_received = self.probe_acks_received.saturating_add(1);
            },
        }
    }
}

/// The counters of all sockets: the pool, the dedicated ones and the one for
/// IPv6.
pub struct SocketDiagnostics {
    pub pool: Vec<UdpSocketPoolMemberDiagnostics>,
    pub dynamic: Table<usize, UdpSocketPoolMemberDiagnostics>,
    pub ipv6: Option<UdpSocketPoolMemberDiagnostics>,
    pub dynamic_index_base: usize,
    pub ipv6_index: usize,
}

impl SocketDiagnostics {
    pub open spec fn wf(&self) -> bool {
        self.dynamic.wf()
    }

    /// The counters of the pool and of the dedicated sockets.
    pub open spec fn members(&self) -> Seq<UdpSocketPoolMemberDiagnostics> {
        self.pool@ + self.dynamic.seq().map_values(
            |row: (usize, UdpSocketPoolMemberDiagnostics)| row.1,
        )
    }

    /// The counters of every socket.
    pub open spec fn all_members(&self) -> Seq<UdpSocketPoolMemberDiagnostics> {
        match self.ipv6 {
            Some(member) => self.members().push(member),
            None => self.members(),
        }
    }

    /// Starts the books with the primary socket alone.
    pub fn new(dynamic_index_base: usize, ipv6_index: usize, ipv6: bool) -> (r: Self)
        ensures
            r.wf(),
            r.pool@ == seq![UdpSocketPoolMemberDiagnostics::blank(0)],
            r.dynamic@ == Map::<usize, UdpSocketPoolMemberDiagnostics>::empty(),
            r.ipv6 == if ipv6 {
                Some(UdpSocketPoolMemberDiagnostics::blank(ipv6_index))
            } else {
                None
            },
            r.dynamic_index_base == dynamic_index_base,
            r.ipv6_index == ipv6_index,
    {
        let mut pool: Vec<UdpSocketPoolMemberDiagnostics> = Vec::new();
        pool.push(UdpSocketPoolMemberDiagnostics::new(0));
        SocketDiagnostics {
            pool,
            dynamic: Table::new(),
            ipv6: if ipv6 {
                Some(UdpSocketPoolMemberDiagnostics::new(ipv6_index))
            } else {
                None
            },
            dynamic_index_base,
            ipv6_index,
        }
    }

    /// Starts the books of a pool of sockets anew.
    pub fn reset_pool(&mut self, count: usize)
        requires
            old(self).wf(),
        ensures
            final(self).wf(),
            *final(self) == (SocketDiagnostics { pool: final(self).pool, ..*old(self) }),
            final(self).pool@ == Seq::new(
                count as nat,
                |i: int| UdpSocketPoolMemberDiagnostics::blank(i as usize),
            ),
    {
        let mut pool: Vec<UdpSocketPoolMemberDiagnostics> = Vec::new();
        let mut i: usize = 0;
        while i < count
            invariant
                i <= count,
                pool@ == Seq::new(
                    i as nat,
                    |i: int| UdpSocketPoolMemberDiagnostics::blank(i as usize),
                ),
            decreases count - i,
        {
            pool.push(UdpSocketPoolMemberDiagnostics::new(i));
            i += 1;
            assert(pool@ =~= Seq::new(
                i as nat,
                |i: int| UdpSocketPoolMemberDiagnostics::blank(i as usize),
            ));
        }
        self.pool = pool;
    }

    /// Starts the books of a dedicated socket.
    pub fn attach_dynamic(&mut self, socket_index: usize)
        requires
            old(self).wf(),
        ensures
            final(self).wf(),
            *final(self) == (SocketDiagnostics { dynamic: final(self).dynamic, ..*old(self) }),
            final(self).dynamic@ == old(self).dynamic@.insert(
                socket_index,
                UdpSocketPoolMemberDiagnostics::blank(socket_index),
            ),
    {
        let _ = self.dynamic.insert(
            socket_index,
            UdpSocketPoolMemberDiagnostics::new(socket_index),
        );
    }

    /// Closes the books of a dedicated socket.
    pub fn detach_dynamic(&mut self, socket_index: usize)
        requires
            old(self).wf(),
        ensures
            final(self).wf(),
            *final(self) == (SocketDiagnostics { dynamic: final(self).dynamic, ..*old(self) }),
            final(self).dynamic@ == old(self).dynamic@.remove(socket_index),
    {
        let _ = self.dynamic.remove(&socket_index);
    }

    /// Closes the books of every dedicated socket.
    pub fn detach_all_dynamic(&mut self)
        requires
            old(self).wf(),
        ensures
            final(self).wf(),
            *final(self) == (SocketDiagnostics { dynamic: final(self).dynamic, ..*old(self) }),
            final(self).dynamic@ == Map::<usize, UdpSocketPoolMemberDiagnostics>::empty(),
    {
        self.dynamic.clear();
    }

    /// Counts something on a socket. A socket that is not known counts
    /// nothing.
    pub fn update_socket_diagnostics(&mut self, socket_index: usize, counter: SocketCounter)
        requires
            old(self).wf(),
        ensures
            final(self).wf(),
            final(self).dynamic_index_base == old(self).dynamic_index_base,
            final(self).ipv6_index == old(self).ipv6_index,
            ({
                let ipv6 = socket_index == old(self).ipv6_index;
                let dynamic = !ipv6 && socket_index >= old(self).dynamic_index_base;
                &&& final(self).ipv6 == match old(self).ipv6 {
                    Some(member) => Some(
                        if ipv6 {
                            member.counted(counter)
                        } else {
                            member
                        },
                    ),
                    None => None,
                }
                &&& final(self).dynamic@ == if dynamic && old(self).dynamic@.dom().contains(
                    socket_index,
                ) {
                    old(self).dynamic@.insert(
                        socket_index,
                        old(self).dynamic@[socket_index].counted(counter),
                    )
                } else {
                    old(self).dynamic@
                }
                &&& final(self).pool@ == if !ipv6 && !dynamic && socket_index
                    < old(self).pool@.len() {
                    old(self).pool@.update(
                        socket_index as int,
                        old(self).pool@[socket_index as int].counted(counter),
                    )
                } else {
                    old(self).pool@
                }
            }),
    {
        if socket_index == self.ipv6_index {
            if let Some(member) = self.ipv6 {
                let mut member: UdpSocketPoolMemberDiagnostics = member;
                member.count(counter);
                self.ipv6 = Some(member);
            }
            return ;
        }
        if socket_index >= self.dynamic_index_base {
            if let Some(member) = self.dynamic.get_mut(&socket_index) {
                member.count(counter);
            }
            return ;
        }
        if socket_index < self.pool.len() {
            let mut member: UdpSocketPoolMemberDiagnostics = self.pool[socket_index];
            member.count(counter);
            self.pool.set(socket_index, member);
        }
    }

    /// Counts a datagram of a burst that repeats another one, and says whether
    /// the burst goes on: it ends at the first that does not leave. Only the
    /// sockets of the pool keep books of repetitions.
    pub fn count_repetition(
        &mut self,
        socket_index: usize,
        counter: SocketCounter,
        sent: bool,
    ) -> (goes_on: bool)
        requires
            old(self).wf(),
        ensures
            final(self).wf(),
            goes_on == sent,
            *final(self) == (SocketDiagnostics { pool: final(self).pool, ..*old(self) }),
            final(self).pool@ == if sent && socket_index < old(self).pool@.len() {
                old(self).pool@.update(
                    socket_index as int,
                    old(self).pool@[socket_index as int].counted(counter),
                )
            } else {
                old(self).pool@
            },
    {
        if sent && socket_index < self.pool.len() {
            let mut member: UdpSocketPoolMemberDiagnostics = self.pool[socket_index];
            member.count(counter);
            self.pool.set(socket_index, member);
        }
        sent
    }

    /// Whether `after` is this with mappings counted on a socket.
    pub open spec fn mapped_to(
        &self,
        after: SocketDiagnostics,
        socket_index: usize,
        discovered: u64,
    ) -> bool {
        let ipv6 = socket_index == self.ipv6_index;
        let dynamic = !ipv6 && socket_index >= self.dynamic_index_base;
        &&& after.dynamic_index_base == self.dynamic_index_base
        &&& after.ipv6_index == self.ipv6_index
        &&& after.ipv6 == if ipv6 && self.ipv6 is Some {
            Some(self.ipv6->0.with_mappings(discovered))
        } else {
            self.ipv6
        }
        &&& after.dynamic@ == if dynamic && self.dynamic@.dom().contains(socket_index) {
            self.dynamic@.insert(
                socket_index,
                self.dynamic@[socket_index].with_mappings(discovered),
            )
        } else {
            self.dynamic@
        }
        &&& after.pool@ == if !ipv6 && !dynamic && socket_index < self.pool@.len() {
            self.pool@.update(
                socket_index as int,
                self.pool@[socket_index as int].with_mappings(discovered),
            )
        } else {
            self.pool@
        }
    }

    /// Counts the mappings that the observers told of a socket.
    pub fn add_stun_mappings(&mut self, socket_index: usize, discovered: u64)
        requires
            old(self).wf(),
        ensures
            final(self).wf(),
            old(self).mapped_to(*final(self), socket_index, discovered),
    {
        if socket_index == self.ipv6_index {
            if let Some(member) = self.ipv6 {
                let mut member: UdpSocketPoolMemberDiagnostics = member;
                member.add_mappings(discovered);
                self.ipv6 = Some(member);
            }
            return ;
        }
        if socket_index >= self.dynamic_index_base {
            if let Some(member) = self.dynamic.get_mut(&socket_index) {
                member.add_mappings(discovered);
            }
            return ;
        }
        if socket_index < self.pool.len() {
            let mut member: UdpSocketPoolMemberDiagnostics = self.pool[socket_index];
            member.add_mappings(discovered);
            self.pool.set(socket_index, member);
        }
    }

    /// The counters of the pool and of the dedicated sockets, in the order of
    /// their indices. A dedicated socket can carry a peer's traffic and is
    /// shown like the others.
    pub fn socket_pool_diagnostics(&self) -> (r: Vec<UdpSocketPoolMemberDiagnostics>)
        requires
            self.wf(),
        ensures
            r@.to_multiset() == self.members().to_multiset(),
            forall|i: int, j: int|
                0 <= i <= j < r@.len() ==> (#[trigger] r@[i]).socket_index <= (
                #[trigger] r@[j]).socket_index,
    {
        let mut r: Vec<UdpSocketPoolMemberDiagnostics> = self.collect_members();
        sort_members(&mut r);
        r
    }

    fn collect_members(&self) -> (r: Vec<UdpSocketPoolMemberDiagnostics>)
        requires
            self.wf(),
        ensures
            r@ == self.members(),
    {
        let mut r: Vec<UdpSocketPoolMemberDiagnostics> = Vec::new();
        let mut i: usize = 0;
        while i < self.pool.len()
            invariant
                i <= self.pool@.len(),
                r@ == self.pool@.take(i as int),
            decreases self.pool@.len() - i,
        {
            r.push(self.pool[i]);
            i += 1;
            assert(r@ =~= self.pool@.take(i as int));
        }
        assert(r@ =~= self.pool@);
        let ghost values = self.dynamic.seq().map_values(
            |row: (usize, UdpSocketPoolMemberDiagnostics)| row.1,
        );
        let n: usize = self.dynamic.len();
        let mut j: usize = 0;
        assert(r@ =~= self.pool@ + values.take(0));
        while j < n
            invariant
                self.wf(),
                n == self.dynamic.seq().len(),
                j <= n,
                values == self.dynamic.seq().map_values(
                    |row: (usize, UdpSocketPoolMemberDiagnostics)| row.1,
                ),
                r@ == self.pool@ + values.take(j as int),
            decreases n - j,
        {
            r.push(self.dynamic.row(j).1);
            j += 1;
            assert(r@ =~= self.pool@ + values.take(j as int));
        }
        assert(values.take(n as int) =~= values);
        r
    }

    /// The receive counters of all sockets together.
    pub fn probe_rx_snapshot(&self) -> (snapshot: UdpProbeRxSnapshot)
        requires
            self.wf(),
        ensures
            snapshot == UdpProbeRxSnapshot::sum(self.all_members()),
    {
        let members: Vec<UdpSocketPoolMemberDiagnostics> = self.collect_members();
        let mut snapshot: UdpProbeRxSnapshot = UdpProbeRxSnapshot::new();
        let mut i: usize = 0;
        assert(members@.take(0) =~= Seq::empty());
        while i < members.len()
            invariant
                i <= members@.len(),
                snapshot == UdpProbeRxSnapshot::sum(members@.take(i as int)),
            decreases members@.len() - i,
        {
            assert(members@.take(i + 1).drop_last() =~= members@.take(i as int));
            snapshot.add_member(&members[i]);
            i += 1;
        }
        assert(members@.take(i as int) =~= members@);
        if let Some(member) = self.ipv6 {
            snapshot.add_member(&member);
            assert(self.all_members().drop_last() =~= members@);
        }
        snapshot
    }
}

fn sort_members(r: &mut Vec<UdpSocketPoolMemberDiagnostics>)
    ensures
        final(r)@.to_multiset() == old(r)@.to_multiset(),
        forall|i: int, j: int|
            0 <= i <= j < final(r)@.len() ==> (#[trigger] final(r)@[i]).socket_index <= (
            #[trigger] final(r)@[j]).socket_index,
{
    let n: usize = r.len();
    let mut i: usize = 0;
    while i < n
        invariant
            i <= n,
            n == r@.len(),
            r@.to_multiset() == old(r)@.to_multiset(),
            forall|a: int, b: int|
                0 <= a <= b < i ==> (#[trigger] r@[a]).socket_index <= (
                #[trigger] r@[b]).socket_index,
        decreases n - i,
    {
        let mut j: usize = i;
        while j > 0 && r[j - 1].socket_index > r[j].socket_index
            invariant
                j <= i < n,
                n == r@.len(),
                r@.to_multiset() == old(r)@.to_multiset(),
                forall|a: int, b: int|
                    0 <= a <= b <= i && a != j && b != j ==> (#[trigger] r@[a]).socket_index <= (
                    #[trigger] r@[b]).socket_index,
                forall|b: int|
                    j < b <= i ==> r@[j as int].socket_index < (#[trigger] r@[b]).socket_index,
            decreases j,
        {
            let left: UdpSocketPoolMemberDiagnostics = r[j - 1];
            let right: UdpSocketPoolMemberDiagnostics = r[j];
            proof {
                broadcast use vstd::seq_lib::group_to_multiset_ensures;

                let a = r@.update(j - 1, right);
                vstd::seq_lib::to_multiset_update(r@, j - 1, right);
                vstd::seq_lib::to_multiset_update(a, j as int, left);
                assert(a.update(j as int, left).to_multiset() =~= r@.to_multiset());
            }
            r.set(j - 1, right);
            r.set(j, left);
            j -= 1;
        }
        i += 1;
    }
}

/// A peer, a network generation and a probe session.
pub struct PeerRxKey {
    pub peer_id: String,
    pub generation: u64,
    pub session_id: Option<String>,
}

impl TableKey for PeerRxKey {
    type Name = (Seq<char>, u64, Option<Seq<char>>);

    open spec fn name(&self) -> (Seq<char>, u64, Option<Seq<char>>) {
        (self.peer_id@, self.generation, crate::text::text_of(self.session_id))
    }

    fn same(&self, other: &Self) -> (r: bool) {
        self.peer_id == other.peer_id && self.generation == other.generation
            && same_optional_text(&self.session_id, &other.session_id)
    }
}

#[derive(Clone, Copy, Debug, PartialEq, Eq, Structural)]
pub struct PeerProbeRxEntry {
    pub snapshot: UdpProbeRxSnapshot,
    pub last_updated: u64,
}

/// The receive counters of each peer's probe sessions. They are keyed by an
/// authenticated identity, never by a source address, and bounded.
pub struct PeerProbeRxDiagnostics {
    pub retention: u64,
    pub max_entries: usize,
    pub entries: Table<PeerRxKey, PeerProbeRxEntry>,
}

impl PeerProbeRxDiagnostics {
    pub open spec fn wf(&self) -> bool {
        self.entries.wf() && self.entries@.dom().finite() && self.max_entries > 0
            && self.entries@.dom().len() <= self.max_entries
    }

    /// The entries that are not too old at `now`.
    pub open spec fn recent(&self, now: u64) -> Map<
        (Seq<char>, u64, Option<Seq<char>>),
        PeerProbeRxEntry,
    > {
        crate::table::kept(
            self.entries@,
            |_k: (Seq<char>, u64, Option<Seq<char>>), e: PeerProbeRxEntry|
                crate::window::elapsed(now, e.last_updated) < self.retention,
        )
    }

    pub fn new(retention: u64, max_entries: usize) -> (r: Self)
        requires
            max_entries > 0,
        ensures
            r.wf(),
            r.retention == retention,
            r.max_entries == max_entries,
            r.entries@ == Map::<(Seq<char>, u64, Option<Seq<char>>), PeerProbeRxEntry>::empty(),
    {
        PeerProbeRxDiagnostics { retention, max_entries, entries: Table::new() }
    }

    fn expire(&mut self, now: u64)
        requires
            old(self).wf(),
        ensures
            final(self).wf(),
            *final(self) == (PeerProbeRxDiagnostics {
                entries: final(self).entries,
                ..*old(self)
            }),
            final(self).entries@ == old(self).recent(now),
    {
        let retention: u64 = self.retention;
        let keep = |_k: &PeerRxKey, e: &PeerProbeRxEntry| -> (r: bool)
            ensures
                r == (crate::window::elapsed(now, e.last_updated) < retention),
        {
            saturating_since(now, e.last_updated) < retention
        };
        self.entries.retain(
            keep,
            Ghost(
                |_k: (Seq<char>, u64, Option<Seq<char>>), e: PeerProbeRxEntry|
                    crate::window::elapsed(now, e.last_updated) < retention,
            ),
        );
        proof {
            assert(self.entries@ =~= old(self).recent(now));
            assert(self.entries@.dom().subset_of(old(self).entries@.dom()));
            vstd::set_lib::lemma_len_subset(self.entries@.dom(), old(self).entries@.dom());
        }
    }

    /// The counters of one probe session of a peer.
    pub fn probe_rx_snapshot_for_peer_session(
        &mut self,
        peer_id: String,
        generation: u64,
        session_id: Option<String>,
        now: u64,
    ) -> (snapshot: UdpProbeRxSnapshot)
        requires
            old(self).wf(),
        ensures
            final(self).wf(),
            final(self).retention == old(self).retention,
            final(self).max_entries == old(self).max_entries,
            final(self).entries@ == old(self).recent(now),
            ({
                let key = (peer_id@, generation, crate::text::text_of(session_id));
                snapshot == if old(self).recent(now).dom().contains(key) {
                    old(self).recent(now)[key].snapshot
                } else {
                    UdpProbeRxSnapshot::blank()
                }
            }),
    {
        self.expire(now);
        let key = PeerRxKey { peer_id, generation, session_id };
        match self.entries.get(&key) {
            Some(entry) => entry.snapshot,
            None => UdpProbeRxSnapshot::new(),
        }
    }

    /// Counts something for one probe session of a peer. A full table gives
    /// up the entry that was updated longest ago.
    pub fn update_peer_probe_rx_diagnostics(
        &mut self,
        peer_id: String,
        generation: u64,
        session_id: Option<String>,
        counter: ProbeRxCounter,
        now: u64,
    )
        requires
            old(self).wf(),
        ensures
            final(self).wf(),
            final(self).retention == old(self).retention,
            final(self).max_entries == old(self).max_entries,
            ({
                let key = (peer_id@, generation, crate::text::text_of(session_id));
                let recent = old(self).recent(now);
                let known = recent.dom().contains(key);
                let before = if known {
                    recent[key].snapshot
                } else {
                    UdpProbeRxSnapshot::blank()
                };
                let entry = PeerProbeRxEntry {
                    snapshot: before.counted(counter),
                    last_updated: now,
                };
                if known || recent.dom().len() < old(self).max_entries {
                    final(self).entries@ == recent.insert(key, entry)
                } else {
                    exists|oldest: (Seq<char>, u64, Option<Seq<char>>)| #[trigger]
                        recent.dom().contains(oldest) && (forall|other: (
                            Seq<char>,
                            u64,
                            Option<Seq<char>>,
                        )| #[trigger]
                            recent.dom().contains(other) ==> recent[oldest].last_updated
                                <= recent[other].last_updated) && final(self).entries@
                            == recent.remove(oldest).insert(key, entry)
                }
            }),
    {
        self.expire(now);
        let ghost recent = self.entries@;
        let key = PeerRxKey { peer_id, generation, session_id };
        let known: bool = self.entries.contains(&key);
        let count: usize = self.entries.len();
        if !known && count >= self.max_entries {
            let mut oldest: usize = 0;
            let mut i: usize = 1;
            proof {
                self.entries.lemma_seq();
            }
            while i < count
                invariant
                    self.entries.wf(),
                    self.entries@ == recent,
                    count == self.entries.seq().len(),
                    count > 0,
                    1 <= i <= count,
                    oldest < i,
                    forall|j: int|
                        0 <= j < i ==> self.entries.seq()[oldest as int].1.last_updated <= (
                        #[trigger] self.entries.seq()[j]).1.last_updated,
                decreases count - i,
            {
                if self.entries.row(i).1.last_updated < self.entries.row(oldest).1.last_updated {
                    oldest = i;
                }
                i += 1;
            }
            let ghost gone = self.entries.seq()[oldest as int];
            proof {
                assert forall|other: (Seq<char>, u64, Option<Seq<char>>)| #[trigger]
                    recent.dom().contains(other) implies gone.1.last_updated
                    <= recent[other].last_updated by {
                    let j = choose|j: int|
                        0 <= j < self.entries.seq().len() && (
                        #[trigger] self.entries.seq()[j]).0.name() == other;
                    assert(gone.1.last_updated <= self.entries.seq()[j].1.last_updated);
                }
            }
            let _ = self.entries.remove_row(oldest);
            proof {
                assert(recent.dom().contains(gone.0.name()));
                vstd::set::axiom_set_remove_len(recent.dom(), gone.0.name());
            }
        }
        let ghost left = self.entries@;
        let mut snapshot: UdpProbeRxSnapshot = match self.entries.get(&key) {
            Some(entry) => entry.snapshot,
            None => UdpProbeRxSnapshot::new(),
        };
        snapshot.count(counter);
        let _ = self.entries.insert(key, PeerProbeRxEntry { snapshot, last_updated: now });
        proof {
            vstd::set::axiom_set_insert_len(left.dom(), key.name());
        }
    }
}

/// A counter counts one, in its own field, and changes no other; a full one
/// stays.
pub proof fn law_each_counter_has_its_field(m: UdpSocketPoolMemberDiagnostics)
    ensures
        m.datagrams_received < u64::MAX ==> m.counted(SocketCounter::DatagramsReceived) == (UdpSocketPoolMemberDiagnostics {
            datagrams_received: (m.datagrams_received + 1) as u64,
            ..m
        }),
        m.datagrams_received == u64::MAX ==> m.counted(SocketCounter::DatagramsReceived) == m,
        m.known_peer_ip_datagrams_received < u64::MAX ==> m.counted(SocketCounter::KnownPeerIpDatagramsReceived) == (UdpSocketPoolMemberDiagnostics {
            known_peer_ip_datagrams_received: (m.known_peer_ip_datagrams_received + 1) as u64,
            ..m
        }),
        m.known_peer_ip_datagrams_received == u64::MAX ==> m.counted(SocketCounter::KnownPeerIpDatagramsReceived) == m,
        m.authenticated_probe_packets_received < u64::MAX ==> m.counted(SocketCounter::AuthenticatedProbePacketsReceived) == (UdpSocketPoolMemberDiagnostics {
            authenticated_probe_packets_received: (m.authenticated_probe_packets_received + 1) as u64,
            ..m
        }),
        m.authenticated_probe_packets_received == u64::MAX ==> m.counted(SocketCounter::AuthenticatedProbePacketsReceived) == m,
        m.authenticated_probe_malformed < u64::MAX ==> m.counted(SocketCounter::AuthenticatedProbeMalformed) == (UdpSocketPoolMemberDiagnostics {
            authenticated_probe_malformed: (m.authenticated_probe_malformed + 1) as u64,
            ..m
        }),
        m.authenticated_probe_malformed == u64::MAX ==> m.counted(SocketCounter::AuthenticatedProbeMalformed) == m,
        m.authenticated_probe_wrong_target < u64::MAX ==> m.counted(SocketCounter::AuthenticatedProbeWrongTarget) == (UdpSocketPoolMemberDiagnostics {
            authenticated_probe_wrong_target: (m.authenticated_probe_wrong_target + 1) as u64,
            ..m
        }),
        m.authenticated_probe_wrong_target == u64::MAX ==> m.counted(SocketCounter::AuthenticatedProbeWrongTarget) == m,
        m.authenticated_probe_no_key < u64::MAX ==> m.counted(SocketCounter::AuthenticatedProbeNoKey) == (UdpSocketPoolMemberDiagnostics {
            authenticated_probe_no_key: (m.authenticated_probe_no_key + 1) as u64,
            ..m
        }),
        m.authenticated_probe_no_key == u64::MAX ==> m.counted(SocketCounter::AuthenticatedProbeNoKey) == m,
        m.authenticated_probe_invalid_mac < u64::MAX ==> m.counted(SocketCounter::AuthenticatedProbeInvalidMac) == (UdpSocketPoolMemberDiagnostics {
            authenticated_probe_invalid_mac: (m.authenticated_probe_invalid_mac + 1) as u64,
            ..m
        }),
        m.authenticated_probe_invalid_mac == u64::MAX ==> m.counted(SocketCounter::AuthenticatedProbeInvalidMac) == m,
        m.authenticated_probe_punches_received < u64::MAX ==> m.counted(SocketCounter::AuthenticatedProbePunchesReceived) == (UdpSocketPoolMemberDiagnostics {
            authenticated_probe_punches_received: (m.authenticated_probe_punches_received + 1) as u64,
            ..m
        }),
        m.authenticated_probe_punches_received == u64::MAX ==> m.counted(SocketCounter::AuthenticatedProbePunchesReceived) == m,
        m.authenticated_probe_acks_observed < u64::MAX ==> m.counted(SocketCounter::AuthenticatedProbeAcksObserved) == (UdpSocketPoolMemberDiagnostics {
            authenticated_probe_acks_observed: (m.authenticated_probe_acks_observed + 1) as u64,
            ..m
        }),
        m.authenticated_probe_acks_observed == u64::MAX ==> m.counted(SocketCounter::AuthenticatedProbeAcksObserved) == m,
        m.authenticated_probe_acks_unmatched < u64::MAX ==> m.counted(SocketCounter::AuthenticatedProbeAcksUnmatched) == (UdpSocketPoolMemberDiagnostics {
            authenticated_probe_acks_unmatched: (m.authenticated_probe_acks_unmatched + 1) as u64,
            ..m
        }),
        m.authenticated_probe_acks_unmatched == u64::MAX ==> m.counted(SocketCounter::AuthenticatedProbeAcksUnmatched) == m,
        m.legacy_probe_acks_observed < u64::MAX ==> m.counted(SocketCounter::LegacyProbeAcksObserved) == (UdpSocketPoolMemberDiagnostics {
            legacy_probe_acks_observed: (m.legacy_probe_acks_observed + 1) as u64,
            ..m
        }),
        m.legacy_probe_acks_observed == u64::MAX ==> m.counted(SocketCounter::LegacyProbeAcksObserved) == m,
        m.legacy_probe_acks_unmatched < u64::MAX ==> m.counted(SocketCounter::LegacyProbeAcksUnmatched) == (UdpSocketPoolMemberDiagnostics {
            legacy_probe_acks_unmatched: (m.legacy_probe_acks_unmatched + 1) as u64,
            ..m
        }),
        m.legacy_probe_acks_unmatched == u64::MAX ==> m.counted(SocketCounter::LegacyProbeAcksUnmatched) == m,
        m.probe_acks_received < u64::MAX ==> m.counted(SocketCounter::ProbeAcksReceived) == (UdpSocketPoolMemberDiagnostics {
            probe_acks_received: (m.probe_acks_received + 1) as u64,
            ..m
        }),
        m.probe_acks_received == u64::MAX ==> m.counted(SocketCounter::ProbeAcksReceived) == m,
        m.probe_acks_sent < u64::MAX ==> m.counted(SocketCounter::ProbeAcksSent) == (UdpSocketPoolMemberDiagnostics {
            probe_acks_sent: (m.probe_acks_sent + 1) as u64,
            ..m
        }),
        m.probe_acks_sent == u64::MAX ==> m.counted(SocketCounter::ProbeAcksSent) == m,
        m.probe_ack_retransmissions_sent < u64::MAX ==> m.counted(SocketCounter::ProbeAckRetransmissionsSent) == (UdpSocketPoolMemberDiagnostics {
            probe_ack_retransmissions_sent: (m.probe_ack_retransmissions_sent + 1) as u64,
            ..m
        }),
        m.probe_ack_retransmissions_sent == u64::MAX ==> m.counted(SocketCounter::ProbeAckRetransmissionsSent) == m,
        m.probes_sent < u64::MAX ==> m.counted(SocketCounter::ProbesSent) == (UdpSocketPoolMemberDiagnostics {
            probes_sent: (m.probes_sent + 1) as u64,
            ..m
        }),
        m.probes_sent == u64::MAX ==> m.counted(SocketCounter::ProbesSent) == m,
        m.probe_retransmissions_sent < u64::MAX ==> m.counted(SocketCounter::ProbeRetransmissionsSent) == (UdpSocketPoolMemberDiagnostics {
            probe_retransmissions_sent: (m.probe_retransmissions_sent + 1) as u64,
            ..m
        }),
        m.probe_retransmissions_sent == u64::MAX ==> m.counted(SocketCounter::ProbeRetransmissionsSent) == m,
        m.relay_backoff_heartbeat_probes_sent < u64::MAX ==> m.counted(SocketCounter::RelayBackoffHeartbeatProbesSent) == (UdpSocketPoolMemberDiagnostics {
            relay_backoff_heartbeat_probes_sent: (m.relay_backoff_heartbeat_probes_sent + 1) as u64,
            ..m
        }),
        m.relay_backoff_heartbeat_probes_sent == u64::MAX ==> m.counted(SocketCounter::RelayBackoffHeartbeatProbesSent) == m,
        m.nat_maintainer_probes_sent < u64::MAX ==> m.counted(SocketCounter::NatMaintainerProbesSent) == (UdpSocketPoolMemberDiagnostics {
            nat_maintainer_probes_sent: (m.nat_maintainer_probes_sent + 1) as u64,
            ..m
        }),
        m.nat_maintainer_probes_sent == u64::MAX ==> m.counted(SocketCounter::NatMaintainerProbesSent) == m,
        m.nat_maintainer_probe_skips < u64::MAX ==> m.counted(SocketCounter::NatMaintainerProbeSkips) == (UdpSocketPoolMemberDiagnostics {
            nat_maintainer_probe_skips: (m.nat_maintainer_probe_skips + 1) as u64,
            ..m
        }),
        m.nat_maintainer_probe_skips == u64::MAX ==> m.counted(SocketCounter::NatMaintainerProbeSkips) == m,
        m.encrypted_packets_received < u64::MAX ==> m.counted(SocketCounter::EncryptedPacketsReceived) == (UdpSocketPoolMemberDiagnostics {
            encrypted_packets_received: (m.encrypted_packets_received + 1) as u64,
            ..m
        }),
        m.encrypted_packets_received == u64::MAX ==> m.counted(SocketCounter::EncryptedPacketsReceived) == m,
        m.encrypted_packets_sent < u64::MAX ==> m.counted(SocketCounter::EncryptedPacketsSent) == (UdpSocketPoolMemberDiagnostics {
            encrypted_packets_sent: (m.encrypted_packets_sent + 1) as u64,
            ..m
        }),
        m.encrypted_packets_sent == u64::MAX ==> m.counted(SocketCounter::EncryptedPacketsSent) == m,
{
}

/// A counter of what came in counts one, in its own field, and changes no
/// other; a full one stays.
pub proof fn law_each_received_counter_has_its_field(s: UdpProbeRxSnapshot)
    ensures
        s.known_peer_ip_datagrams_received < u64::MAX ==> s.counted(ProbeRxCounter::KnownPeerIpDatagramsReceived) == (UdpProbeRxSnapshot {
            known_peer_ip_datagrams_received: (s.known_peer_ip_datagrams_received + 1) as u64,
            ..s
        }),
        s.known_peer_ip_datagrams_received == u64::MAX ==> s.counted(ProbeRxCounter::KnownPeerIpDatagramsReceived) == s,
        s.authenticated_probe_packets_received < u64::MAX ==> s.counted(ProbeRxCounter::AuthenticatedProbePacketsReceived) == (UdpProbeRxSnapshot {
            authenticated_probe_packets_received: (s.authenticated_probe_packets_received + 1) as u64,
            ..s
        }),
        s.authenticated_probe_packets_received == u64::MAX ==> s.counted(ProbeRxCounter::AuthenticatedProbePacketsReceived) == s,
        s.authenticated_probe_acks_observed < u64::MAX ==> s.counted(ProbeRxCounter::AuthenticatedProbeAcksObserved) == (UdpProbeRxSnapshot {
            authenticated_probe_acks_observed: (s.authenticated_probe_acks_observed + 1) as u64,
            ..s
        }),
        s.authenticated_probe_acks_observed == u64::MAX ==> s.counted(ProbeRxCounter::AuthenticatedProbeAcksObserved) == s,
        s.authenticated_probe_acks_unmatched < u64::MAX ==> s.counted(ProbeRxCounter::AuthenticatedProbeAcksUnmatched) == (UdpProbeRxSnapshot {
            authenticated_probe_acks_unmatched: (s.authenticated_probe_acks_unmatched + 1) as u64,
            ..s
        }),
        s.authenticated_probe_acks_unmatched == u64::MAX ==> s.counted(ProbeRxCounter::AuthenticatedProbeAcksUnmatched) == s,
        s.legacy_probe_acks_observed < u64::MAX ==> s.counted(ProbeRxCounter::LegacyProbeAcksObserved) == (UdpProbeRxSnapshot {
            legacy_probe_acks_observed: (s.legacy_probe_acks_observed + 1) as u64,
            ..s
        }),
        s.legacy_probe_acks_observed == u64::MAX ==> s.counted(ProbeRxCounter::LegacyProbeAcksObserved) == s,
        s.legacy_probe_acks_unmatched < u64::MAX ==> s.counted(ProbeRxCounter::LegacyProbeAcksUnmatched) == (UdpProbeRxSnapshot {
            legacy_probe_acks_unmatched: (s.legacy_probe_acks_unmatched + 1) as u64,
            ..s
        }),
        s.legacy_probe_acks_unmatched == u64::MAX ==> s.counted(ProbeRxCounter::LegacyProbeAcksUnmatched) == s,
        s.probe_acks_received < u64::MAX ==> s.counted(ProbeRxCounter::ProbeAcksReceived) == (UdpProbeRxSnapshot {
            probe_acks_received: (s.probe_acks_received + 1) as u64,
            ..s
        }),
        s.probe_acks_received == u64::MAX ==> s.counted(ProbeRxCounter::ProbeAcksReceived) == s,
{
}

/// Fresh diagnostics have counted nothing.
pub proof fn law_blank_diagnostics(socket_index: usize)
    ensures
        UdpSocketPoolMemberDiagnostics::blank(socket_index).socket_index == socket_index,
        UdpSocketPoolMemberDiagnostics::blank(socket_index).stun_mappings_discovered == 0,
        UdpSocketPoolMemberDiagnostics::blank(socket_index).datagrams_received == 0,
        UdpSocketPoolMemberDiagnostics::blank(socket_index).known_peer_ip_datagrams_received == 0,
        UdpSocketPoolMemberDiagnostics::blank(socket_index).authenticated_probe_packets_received == 0,
        UdpSocketPoolMemberDiagnostics::blank(socket_index).authenticated_probe_malformed == 0,
        UdpSocketPoolMemberDiagnostics::blank(socket_index).authenticated_probe_wrong_target == 0,
        UdpSocketPoolMemberDiagnostics::blank(socket_index).authenticated_probe_no_key == 0,
        UdpSocketPoolMemberDiagnostics::blank(socket_index).authenticated_probe_invalid_mac == 0,
        UdpSocketPoolMemberDiagnostics::blank(socket_index).authenticated_probe_punches_received == 0,
        UdpSocketPoolMemberDiagnostics::blank(socket_index).authenticated_probe_acks_observed == 0,
        UdpSocketPoolMemberDiagnostics::blank(socket_index).authenticated_probe_acks_unmatched == 0,
        UdpSocketPoolMemberDiagnostics::blank(socket_index).legacy_probe_acks_observed == 0,
        UdpSocketPoolMemberDiagnostics::blank(socket_index).legacy_probe_acks_unmatched == 0,
        UdpSocketPoolMemberDiagnostics::blank(socket_index).probe_acks_received == 0,
        UdpSocketPoolMemberDiagnostics::blank(socket_index).probe_acks_sent == 0,
        UdpSocketPoolMemberDiagnostics::blank(socket_index).probe_ack_retransmissions_sent == 0,
        UdpSocketPoolMemberDiagnostics::blank(socket_index).probes_sent == 0,
        UdpSocketPoolMemberDiagnostics::blank(socket_index).probe_retransmissions_sent == 0,
        UdpSocketPoolMemberDiagnostics::blank(socket_index).relay_backoff_heartbeat_probes_sent == 0,
        UdpSocketPoolMemberDiagnostics::blank(socket_index).nat_maintainer_probes_sent == 0,
        UdpSocketPoolMemberDiagnostics::blank(socket_index).nat_maintainer_probe_skips == 0,
        UdpSocketPoolMemberDiagnostics::blank(socket_index).encrypted_packets_received == 0,
        UdpSocketPoolMemberDiagnostics::blank(socket_index).encrypted_packets_sent == 0,
        UdpProbeRxSnapshot::blank().known_peer_ip_datagrams_received == 0,
        UdpProbeRxSnapshot::blank().authenticated_probe_packets_received == 0,
        UdpProbeRxSnapshot::blank().authenticated_probe_acks_observed == 0,
        UdpProbeRxSnapshot::blank().authenticated_probe_acks_unmatched == 0,
        UdpProbeRxSnapshot::blank().legacy_probe_acks_observed == 0,
        UdpProbeRxSnapshot::blank().legacy_probe_acks_unmatched == 0,
        UdpProbeRxSnapshot::blank().probe_acks_received == 0,
{
}

/// The snapshot of some sockets adds up what each of them counted.
pub proof fn law_snapshot_adds_up(
    members: Seq<UdpSocketPoolMemberDiagnostics>,
    member: UdpSocketPoolMemberDiagnostics,
)
    ensures
        UdpProbeRxSnapshot::sum(Seq::empty()) == UdpProbeRxSnapshot::blank(),
        ({
            let before = UdpProbeRxSnapshot::sum(members);
            let after = UdpProbeRxSnapshot::sum(members.push(member));
            &&& before.known_peer_ip_datagrams_received + member.known_peer_ip_datagrams_received <= u64::MAX ==> after.known_peer_ip_datagrams_received
                == before.known_peer_ip_datagrams_received + member.known_peer_ip_datagrams_received
            &&& before.known_peer_ip_datagrams_received + member.known_peer_ip_datagrams_received > u64::MAX ==> after.known_peer_ip_datagrams_received
                == u64::MAX
            &&& before.authenticated_probe_packets_received + member.authenticated_probe_packets_received <= u64::MAX ==> after.authenticated_probe_packets_received
                == before.authenticated_probe_packets_received + member.authenticated_probe_packets_received
            &&& before.authenticated_probe_packets_received + member.authenticated_probe_packets_received > u64::MAX ==> after.authenticated_probe_packets_received
                == u64::MAX
            &&& before.authenticated_probe_acks_observed + member.authenticated_probe_acks_observed <= u64::MAX ==> after.authenticated_probe_acks_observed
                == before.authenticated_probe_acks_observed + member.authenticated_probe_acks_observed
            &&& before.authenticated_probe_acks_observed + member.authenticated_probe_acks_observed > u64::MAX ==> after.authenticated_probe_acks_observed
                == u64::MAX
            &&& before.authenticated_probe_acks_unmatched + member.authenticated_probe_acks_unmatched <= u64::MAX ==> after.authenticated_probe_acks_unmatched
                == before.authenticated_probe_acks_unmatched + member.authenticated_probe_acks_unmatched
            &&& before.authenticated_probe_acks_unmatched + member.authenticated_probe_acks_unmatched > u64::MAX ==> after.authenticated_probe_acks_unmatched
                == u64::MAX
            &&& before.legacy_probe_acks_observed + member.legacy_probe_acks_observed <= u64::MAX ==> after.legacy_probe_acks_observed
                == before.legacy_probe_acks_observed + member.legacy_probe_acks_observed
            &&& before.legacy_probe_acks_observed + member.legacy_probe_acks_observed > u64::MAX ==> after.legacy_probe_acks_observed
                == u64::MAX
            &&& before.legacy_probe_acks_unmatched + member.legacy_probe_acks_unmatched <= u64::MAX ==> after.legacy_probe_acks_unmatched
                == before.legacy_probe_acks_unmatched + member.legacy_probe_acks_unmatched
            &&& before.legacy_probe_acks_unmatched + member.legacy_probe_acks_unmatched > u64::MAX ==> after.legacy_probe_acks_unmatched
                == u64::MAX
            &&& before.probe_acks_received + member.probe_acks_received <= u64::MAX ==> after.probe_acks_received
                == before.probe_acks_received + member.probe_acks_received
            &&& before.probe_acks_received + member.probe_acks_received > u64::MAX ==> after.probe_acks_received
                == u64::MAX
        }),
{
    assert(members.push(member).drop_last() =~= members);
}

/// Discovered mappings are added to those of the socket.
pub proof fn law_mappings_are_added(m: UdpSocketPoolMemberDiagnostics, discovered: u64)
    ensures
        m.stun_mappings_discovered + discovered <= u64::MAX ==> m.with_mappings(discovered) == (
        UdpSocketPoolMemberDiagnostics {
            stun_mappings_discovered: (m.stun_mappings_discovered + discovered) as u64,
            ..m
        }),
        m.stun_mappings_discovered + discovered > u64::MAX ==> m.with_mappings(
            discovered,
        ).stun_mappings_discovered == u64::MAX,
{
}

/// Mappings count for the one socket that they were discovered on, wherever it
/// is kept, and for no other.
pub proof fn law_mappings_of_a_socket(
    d: SocketDiagnostics,
    after: SocketDiagnostics,
    index: usize,
    discovered: u64,
    i: int,
    other: usize,
)
    requires
        d.mapped_to(after, index, discovered),
        0 <= i < d.pool@.len(),
        i != index,
        other != index,
    ensures
        after.dynamic_index_base == d.dynamic_index_base,
        after.ipv6_index == d.ipv6_index,
        after.pool@.len() == d.pool@.len(),
        after.pool@[i] == d.pool@[i],
        after.dynamic@.dom().contains(other) == d.dynamic@.dom().contains(other),
        d.dynamic@.dom().contains(other) ==> after.dynamic@[other] == d.dynamic@[other],
        index != d.ipv6_index ==> after.ipv6 == d.ipv6,
        index == d.ipv6_index ==> after.pool@ == d.pool@ && after.dynamic@ == d.dynamic@ && (
        d.ipv6 matches Some(m) ==> after.ipv6 == Some(m.with_mappings(discovered))),
        index != d.ipv6_index && index < d.dynamic_index_base && index < d.pool@.len()
            ==> after.pool@[index as int] == d.pool@[index as int].with_mappings(discovered),
        index != d.ipv6_index && index >= d.dynamic_index_base && d.dynamic@.dom().contains(index)
            ==> after.dynamic@[index] == d.dynamic@[index].with_mappings(discovered),
{
}

/// The sockets that are told of are those of the pool, then the dedicated
/// ones, then the IPv6 socket.
pub proof fn law_members_in_order(d: SocketDiagnostics, i: int)
    ensures
        d.members().len() == d.pool@.len() + d.dynamic.seq().len(),
        0 <= i < d.pool@.len() ==> d.members()[i] == d.pool@[i],
        0 <= i < d.dynamic.seq().len() ==> d.members()[d.pool@.len() + i]
            == d.dynamic.seq()[i].1,
        d.ipv6 is None ==> d.all_members() == d.members(),
        d.ipv6 matches Some(m) ==> d.all_members() == d.members().push(m),
{
}

/// An entry is recent exactly while it is younger than the retention.
pub proof fn law_recent_entries(
    d: PeerProbeRxDiagnostics,
    now: u64,
    key: (Seq<char>, u64, Option<Seq<char>>),
)
    ensures
        d.recent(now).dom().contains(key) <==> d.entries@.dom().contains(key) && d.retention > 0
            && now - d.entries@[key].last_updated < d.retention,
        d.recent(now).dom().contains(key) ==> d.recent(now)[key] == d.entries@[key],
{
}

} // verus!

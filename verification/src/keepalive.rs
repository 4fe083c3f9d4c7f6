//! Consent checks on direct paths, and what counts as a datagram sent.

use vstd::prelude::*;
use crate::net::SocketAddr;
use crate::pending::{PendingProbePurpose, PendingProbes, ProbeNonce};
use crate::text::is_text;

verus! {

/// A keepalive that was not answered in time.
#[derive(Clone, Copy, Debug, PartialEq, Eq, Structural)]
pub struct KeepaliveTimeout {
    /// The probe asked for consent: its silence is told of.
    pub consent: bool,
    pub generation: u64,
    pub local_endpoint: Option<SocketAddr>,
}

/// Takes back a keepalive whose time is up. One that is gone was answered,
/// and one that was sent to somebody else does not count.
pub fn settle_keepalive(
    pending: &mut PendingProbes,
    nonce: ProbeNonce,
    peer_id: &str,
    endpoint: SocketAddr,
) -> (timeout: Option<KeepaliveTimeout>)
    requires
        old(pending).wf(),
    ensures
        final(pending).wf(),
        final(pending).probes@ == old(pending).probes@.remove(nonce),
        final(pending).bindings == old(pending).bindings,
        timeout == match old(pending).probe(nonce) {
            Some(probe) => if probe.is_of(peer_id@) && probe.endpoint == endpoint {
                Some(
                    KeepaliveTimeout {
                        consent: probe.purpose is ConsentCheck,
                        generation: probe.generation,
                        local_endpoint: probe.local_endpoint,
                    },
                )
            } else {
                None
            },
            None => None,
        },
{
    match pending.probes.remove(&nonce) {
        Some(probe) => {
            if is_text(&probe.peer_id, peer_id) && probe.endpoint == endpoint {
                Some(
                    KeepaliveTimeout {
                        consent: matches!(probe.purpose, PendingProbePurpose::ConsentCheck),
                        generation: probe.generation,
                        local_endpoint: probe.local_endpoint,
                    },
                )
            } else {
                None
            }
        },
        None => None,
    }
}

/// A packet that did not leave.
#[derive(Clone, Copy, Debug, PartialEq, Eq, Structural)]
pub enum PacketSendError {
    /// The peer has no socket.
    NoSocket,
    /// The socket that the packet belongs to is gone.
    SocketGone(usize),
    /// The socket refused it.
    Refused,
    /// The socket took only a part of it.
    Short { sent: usize, expected: usize },
}

/// Whether a packet left: a datagram that was cut short did not.
pub fn judge_packet_send(sent: Option<usize>, expected: usize) -> (r: Result<
    usize,
    PacketSendError,
>)
    ensures
        r == match sent {
            None => Err::<usize, PacketSendError>(PacketSendError::Refused),
            Some(n) => if n == expected {
                Ok::<usize, PacketSendError>(n)
            } else {
                Err::<usize, PacketSendError>(PacketSendError::Short { sent: n, expected })
            },
        },
{
    match sent {
        None => Err(PacketSendError::Refused),
        Some(n) => {
            if n == expected {
                Ok(n)
            } else {
                Err(PacketSendError::Short { sent: n, expected })
            }
        },
    }
}

} // verus!

//! The decisions of a peer-to-peer UDP transport: which probes may leave, from
//! which socket, under which budget, and what a received datagram is allowed
//! to change.

pub mod admission;
pub mod birthday;
pub mod birthday_generation;
pub mod birthday_sweep;
pub mod business_mtu;
pub mod diagnostics;
pub mod direct_validation;
pub mod failure;
pub mod fresh_mapping;
pub mod gather;
pub mod heartbeat;
pub mod heartbeat_budget;
pub mod histogram;
pub mod inbound;
pub mod keepalive;
pub mod learning;
pub mod nat_maintainer;
pub mod net;
pub mod pending;
pub mod probe_budget;
pub mod probe_send;
pub mod punch_reports;
pub mod punch_session;
pub mod socket_state;
pub mod socket_sweep;
pub mod socket_watch;
pub mod table;
pub mod text;
pub mod transport;
pub mod window;

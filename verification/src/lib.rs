//! A minimal userspace TCP endpoint: sequence-number arithmetic, the
//! per-connection state machine of RFC 793 (passive open, SYN handshake,
//! FIN teardown), reply-segment construction, and a demultiplexing table
//! keyed by the 4-tuple of a flow. Header parsing and serialization are
//! delegated to the `etherparse` codec behind a small trusted boundary;
//! the device itself (a TUN-style channel of raw IPv4 datagrams) is left
//! to the surrounding program.

pub mod demux;
pub mod laws;
pub mod seq32;
pub mod tcp;
pub mod wire;

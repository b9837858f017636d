//! How a role reaches the others: by variables between threads, by IPC between
//! processes, or by sockets across a network.

use crate::error::TransportError;
use bytes::Bytes;
use vstd::prelude::*;

verus! {

/// The largest datagram that a transport takes in whole; what goes beyond
/// is cut off on receipt.
pub const DATAGRAM_SIZE: usize = 512;

/// A best-effort pipe for datagrams. Nothing is promised of what it returns:
/// a datagram may be lost, and a send or a receive may fail at any time.
pub trait Connection {
    /// The local endpoint.
    fn address(&self) -> String;

    /// Transmits one datagram to `address`, and returns the local endpoint,
    /// the remote endpoint and the number of bytes sent.
    fn send(&self, address: String, data: Bytes) -> Result<(String, String, usize), TransportError>;

    /// Waits for one datagram, and returns the local endpoint, the remote
    /// endpoint and the payload.
    fn recv(&self) -> Result<(String, String, Bytes), TransportError>;
}

/// A connection between processes of one machine.
pub struct Ipc {}

/// A connection between threads of one process.
pub struct Channel {}

} // verus!

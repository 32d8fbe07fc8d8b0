//! The address of a peer, by which a connection is known.

use vstd::prelude::*;

verus! {

/// The socket address of a peer, as plain values: an IPv4 address and a
/// port, or an IPv6 address with its port, flow information and scope. Two
/// addresses are the same peer where all of these agree.
#[derive(Clone, Copy, Debug, PartialEq, Eq, Hash, Structural)]
pub enum PeerAddress {
    /// An IPv4 address, its four octets read as a big-endian number, and a
    /// port.
    V4 { ip: u32, port: u16 },
    /// An IPv6 address, its sixteen octets read as a big-endian number, with
    /// port, flow information and scope identifier.
    V6 { ip6: u128, port: u16, flowinfo: u32, scope_id: u32 },
}

} // verus!

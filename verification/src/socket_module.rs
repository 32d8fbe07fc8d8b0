//! The socket module: what a module that owns the sockets offers to the
//! others, and the states it goes through.

use vstd::prelude::*;

use crate::address::PeerAddress;

verus! {

/// Where a socket module stands.
#[derive(Clone, Copy, Debug, PartialEq, Eq, Structural)]
pub enum SocketModuleState {
    INIT,
    RUNNING,
    STOPPING,
    STOPPED,
}

/// A module that owns the sockets.
pub trait SocketModule {
    /// Sends `data` to the peer at `addr`.
    fn send_bytes(&self, addr: PeerAddress, data: Vec<u8>) -> Result<(), std::fmt::Error>;

    /// Whether there is a connection with the peer at `addr`.
    fn check_connected(&self, addr: PeerAddress) -> bool;

    /// Where the module stands.
    fn check_socket_module_state(&self) -> SocketModuleState;

    /// Starts to listen.
    fn start(&mut self) -> Result<(), std::fmt::Error>;
}

} // verus!

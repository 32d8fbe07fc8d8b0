//! A length-prefixed framing protocol for a TCP chat service, with the
//! streaming decoder, the per-connection registry and the command dispatcher
//! that sit on top of it.
//!
//! The library works on bytes and plain values. Whoever uses it owns the
//! sockets and the encoding of payloads: it reads into a buffer, hands the
//! buffer to [`base::TcpServerSide::begin_read`], writes back what each step
//! of [`base::TcpServerSide::serve_next`] answers, and ends the read with
//! [`registry::ConnectionRegistry::finish_read`]. Where the replies of a
//! read may wait until all its frames are handled,
//! [`base::parse_tcp_stream`] serves the read in one call.
//!
//! - [`chat_protocol`]: the frame and its fields.
//! - [`decoder`]: filling a frame from a byte stream, and cutting a stream
//!   into frames.
//! - [`registry`]: the connections, each with the frame it is building.
//! - [`protocol_factory`]: the handlers, by command.
//! - [`base`]: commands, serving a read, server and client.
//! - [`login_module`], [`chat_module`], [`p2p_module`]: the payloads, and
//!   what the handlers decide.

use vstd::prelude::*;

pub mod address;
pub mod base;
pub mod biz_module;
pub mod chat_module;
pub mod chat_protocol;
pub mod cli;
pub mod client;
pub mod config;
pub mod decoder;
pub mod errors_define;
pub mod login_module;
pub mod p2p_module;
pub mod protocol_factory;
pub mod registry;
pub mod server;
pub mod socket_module;
pub mod storage_module;

verus! {

/// The modules that a chat service is made of.
#[derive(Debug, Clone, Copy, PartialEq, Eq, Hash, Structural)]
pub enum ModuleNameEnum {
    Socket,
    Biz,
    Chat,
    P2p,
    Storage,
    Ui,
    Login,
}

} // verus!

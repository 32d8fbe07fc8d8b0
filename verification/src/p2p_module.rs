//! Peer-to-peer rendezvous: the messages by which a peer asks the server
//! for the address of another, and the server's handler for them.

use vstd::prelude::*;

use crate::address::PeerAddress;
use crate::errors_define::r_error;

verus! {

/// Peer discovery: it finds the peer that is logged in to an account.
pub trait P2pModule {
    /// The address of the peer that is logged in to `account`, if there is
    /// one.
    fn apply_p2p(&self, account: &str) -> Option<PeerAddress>;
}

/// The kinds of peer-to-peer message.
#[derive(Debug, Clone, Copy, PartialEq, Eq, Structural)]
pub enum P2pDataType {
    GetIpV4Req,
    GetIpV4Resp,
    TryConnectReq,
    TryConnectResp,
}

/// A peer-to-peer message: the payload of a frame with the P2p command. The
/// kind says how to read the body.
#[derive(Debug, Clone, PartialEq, Eq)]
pub struct P2pData {
    pub biz: P2pDataType,
    pub body: Vec<u8>,
}

/// Asks for the address of the peer that is logged in to `account`.
#[derive(Debug, Clone, PartialEq, Eq)]
pub struct GetIpV4Req {
    pub account: String,
}

/// The address of the peer that is logged in to `account`, as `ip:port`.
#[derive(Debug, Clone, PartialEq, Eq)]
pub struct GetIpV4Resp {
    pub account: String,
    pub ipv4: String,
}

/// What the server does with a peer-to-peer message.
#[derive(Debug, Clone, Copy, PartialEq, Eq, Structural)]
pub enum P2pRoute {
    /// The body is a [`GetIpV4Req`], to be answered.
    GetIpV4,
    /// The body asks for a connection to be tried.
    TryConnect,
    /// The server takes no messages of this kind.
    Unsupported,
}

/// The server's handler of peer-to-peer messages.
pub struct ServiceP2pHandler {}

impl ServiceP2pHandler {
    /// Where a message of kind `biz` goes: the server takes the two kinds of
    /// request, and no responses.
    pub fn route(&self, biz: P2pDataType) -> (route: P2pRoute)
        ensures
            route == (match biz {
                P2pDataType::GetIpV4Req => P2pRoute::GetIpV4,
                P2pDataType::TryConnectReq => P2pRoute::TryConnect,
                _ => P2pRoute::Unsupported,
            }),
    {
        match biz {
            P2pDataType::GetIpV4Req => P2pRoute::GetIpV4,
            P2pDataType::TryConnectReq => P2pRoute::TryConnect,
            _ => P2pRoute::Unsupported,
        }
    }

    /// Answers a request for the address of a peer. The server keeps no
    /// addresses to answer from yet, so nothing is answered.
    #[allow(non_snake_case)]
    pub fn handleGetIpV4Req(&self, address: PeerAddress, req: GetIpV4Req) -> (answer: Option<
        GetIpV4Resp,
    >)
        ensures
            answer is None,
    {
        None
    }

    /// Takes a request to try a connection. The server cannot do that yet:
    /// the request is an `InternalError`.
    #[allow(non_snake_case)]
    pub fn handleTryConnectReq(&self, address: PeerAddress, body: &Vec<u8>) -> (answer: Result<
        Option<Vec<u8>>,
        r_error,
    >)
        ensures
            answer matches Err(r_error::InternalError(msg)) && msg@ == "暂不支持的biz:TryConnectReq"@,
    {
        Err(r_error::InternalError("暂不支持的biz:TryConnectReq".to_owned()))
    }
}

} // verus!

//! Where the sockets are: host and port of the TCP service and of the web
//! service, and where a client keeps its account.

use vstd::prelude::*;
use vstd::string::StringExecFns;

verus! {

/// `host`, a colon and `port`.
pub open spec fn url_of(host: Seq<char>, port: Seq<char>) -> Seq<char> {
    host + ":"@ + port
}

fn join_url(host: &String, port: &String) -> (url: String)
    ensures
        url@ == url_of(host@, port@),
{
    let mut url = host.clone();
    url.append(":");
    url.append(port.as_str());
    url
}

/// Host and port of the TCP service.
pub struct TcpSocketConfig {
    pub tcp_host: String,
    pub tcp_port: String,
}

impl TcpSocketConfig {
    /// The address to bind or to connect to, as `host:port`.
    pub fn get_url(&self) -> (url: String)
        ensures
            url@ == url_of(self.tcp_host@, self.tcp_port@),
    {
        join_url(&self.tcp_host, &self.tcp_port)
    }
}

/// Host and port of the web service.
pub struct WebSocketConfig {
    pub web_host: String,
    pub web_port: String,
}

impl WebSocketConfig {
    /// The address to bind, as `host:port`.
    pub fn get_url(&self) -> (url: String)
        ensures
            url@ == url_of(self.web_host@, self.web_port@),
    {
        join_url(&self.web_host, &self.web_port)
    }
}

/// What a client is configured with.
pub struct ClientDefaultConfig {
    /// The directory in which the client keeps the account it is logged in
    /// to.
    pub account_save_path: String,
}

} // verus!

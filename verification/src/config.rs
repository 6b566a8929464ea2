//! The settings of the two programs, and the port number the server keeps
//! for an address.

use crate::client_info::{host_of, host_part, ssh_info_content, ssh_info_text};
use vstd::prelude::*;

verus! {

/// The server's settings: the port clients connect to, and the range
/// `[server_forward_port_start, server_forward_port_end)` from which forward
/// ports are drawn.
#[derive(Debug)]
pub struct ServerConfig {
    pub server_port: u16,
    pub server_forward_port_start: u16,
    pub server_forward_port_end: u16,
}

/// The client's settings: the bastion server's `host:port`, the local
/// address users are forwarded to, and the file that receives the note on
/// how to reach this machine.
#[derive(Debug)]
pub struct ClientConfig {
    pub client_server_addr: String,
    pub client_local_addr: String,
    pub client_ssh_info_file: String,
}

impl ClientConfig {
    /// The note on how to reach this machine through forward port `port`,
    /// naming the host part of the server's address.
    pub fn ssh_info(&self, port: u16) -> (text: String)
        ensures
            text@ == ssh_info_content(host_part(self.client_server_addr@), port),
    {
        let host = host_of(self.client_server_addr.as_str());
        ssh_info_text(host.as_str(), port)
    }
}

/// The port of a socket address.
#[derive(Clone, Copy, Debug, PartialEq, Eq, Structural, Hash)]
pub struct MySocketAddr(u16);

impl MySocketAddr {
    /// The port it holds.
    pub closed spec fn port(self) -> u16 {
        self.0
    }

    /// The address that holds `port`.
    pub closed spec fn with_port(port: u16) -> MySocketAddr {
        MySocketAddr(port)
    }
}

impl From<MySocketAddr> for u16 {
    fn from(value: MySocketAddr) -> (r: u16) {
        value.0
    }
}

impl vstd::std_specs::convert::FromSpecImpl<MySocketAddr> for u16 {
    open spec fn obeys_from_spec() -> bool {
        true
    }

    open spec fn from_spec(v: MySocketAddr) -> u16 {
        v.port()
    }
}

impl From<u16> for MySocketAddr {
    fn from(value: u16) -> (r: MySocketAddr) {
        MySocketAddr(value)
    }
}

impl vstd::std_specs::convert::FromSpecImpl<u16> for MySocketAddr {
    open spec fn obeys_from_spec() -> bool {
        true
    }

    open spec fn from_spec(v: u16) -> MySocketAddr {
        MySocketAddr::with_port(v)
    }
}

/// A port number turned into an address and back is the same number, and
/// an address is the one that holds its port.
pub proof fn lemma_socket_addr_port_roundtrip(port: u16, addr: MySocketAddr)
    ensures
        MySocketAddr::with_port(port).port() == port,
        MySocketAddr::with_port(addr.port()) == addr,
{
}

} // verus!

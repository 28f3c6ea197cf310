//! The closed set of local components, transport addresses, and the two
//! message shapes exchanged with the transport layer.

use vstd::prelude::*;

use crate::bytes::copy_bytes;
use crate::cryptde::Key;

verus! {

/// Logical sink inside the terminal node of a hop.
#[derive(Clone, Copy, PartialEq, Eq, Structural, Debug)]
pub enum Component {
    ProxyServer,
    ProxyClient,
    Neighborhood,
    Hopper,
}

/// An IPv4 address, as four octets.
#[derive(Clone, Copy, PartialEq, Eq, Structural, Debug)]
pub struct IpAddress(pub u8, pub u8, pub u8, pub u8);

/// An IPv4 socket address.
#[derive(Clone, Copy, PartialEq, Eq, Structural, Debug)]
pub struct SocketAddress {
    pub ip: IpAddress,
    pub port: u16,
}

impl SocketAddress {
    /// The address part, without the port.
    pub fn ip(&self) -> (r: IpAddress)
        ensures
            r == self.ip,
    {
        self.ip
    }
}

/// The placeholder peer address carried by a loopback delivery.  A
/// zero-hop package never crosses the wire, so its sender address is
/// semantically irrelevant; this named sentinel keeps an obviously fake
/// value out of real-address positions.
pub fn loopback_placeholder() -> (r: SocketAddress)
    ensures
        r == (SocketAddress { ip: IpAddress(1, 2, 3, 4), port: 5678 }),
{
    SocketAddress { ip: IpAddress(1, 2, 3, 4), port: 5678 }
}

/// Where the transport layer should deliver outbound bytes: a peer known
/// by key, or a socket known by address.
#[derive(PartialEq, Eq, Debug)]
pub enum Endpoint {
    Key(Key),
    Socket(SocketAddress),
}

impl Clone for Endpoint {
    fn clone(&self) -> (r: Endpoint)
        ensures
            r matches Endpoint::Key(k) ==> (self matches Endpoint::Key(s) && k@ == s@),
            r matches Endpoint::Socket(a) ==> (self matches Endpoint::Socket(s) && a == s),
    {
        match self {
            Endpoint::Key(k) => Endpoint::Key(k.clone()),
            Endpoint::Socket(a) => Endpoint::Socket(*a),
        }
    }
}

/// One unit of inbound data handed over by the transport layer.
#[derive(PartialEq, Eq, Debug)]
pub struct InboundClientData {
    pub peer_addr: SocketAddress,
    pub reception_port: Option<u16>,
    pub last_data: bool,
    pub sequence_number: Option<u64>,
    pub is_clandestine: bool,
    pub data: Vec<u8>,
}

impl Clone for InboundClientData {
    fn clone(&self) -> (r: InboundClientData)
        ensures
            r.peer_addr == self.peer_addr,
            r.reception_port == self.reception_port,
            r.last_data == self.last_data,
            r.sequence_number == self.sequence_number,
            r.is_clandestine == self.is_clandestine,
            r.data@ == self.data@,
    {
        InboundClientData {
            peer_addr: self.peer_addr,
            reception_port: self.reception_port,
            last_data: self.last_data,
            sequence_number: self.sequence_number,
            is_clandestine: self.is_clandestine,
            data: copy_bytes(&self.data),
        }
    }
}

/// One unit of outbound data handed to the transport layer.
#[derive(PartialEq, Eq, Debug)]
pub struct TransmitDataMsg {
    pub endpoint: Endpoint,
    pub last_data: bool,
    pub data: Vec<u8>,
    pub sequence_number: Option<u64>,
}

} // verus!

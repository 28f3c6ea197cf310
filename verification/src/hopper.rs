//! The hopper actor core: the message types it accepts, the dispatch
//! values it hands its sibling sinks, and the state that binds one
//! consuming service to one routing service.
//!
//! The actor loop itself (mailboxes, the one-time binding of sink
//! handles, the sends) is transport plumbing and lives outside the
//! library; the library contributes the decision: from one inbound
//! message to the one dispatch it causes, or the reason it is dropped.

use vstd::prelude::*;

use crate::codec::pow256;
use crate::consuming_service::consume_rel;
use crate::consuming_service::ConsumingError;
use crate::consuming_service::ConsumingService;
use crate::cryptde::decipher;
use crate::cryptde::null_cipher;
use crate::cryptde::CryptDe;
use crate::dispatcher::Component;
use crate::dispatcher::InboundClientData;
use crate::dispatcher::TransmitDataMsg;
use crate::hop::parse_hop;
use crate::live_cores_package::lcp_bytes;
use crate::live_cores_package::parse_lcp;
use crate::live_cores_package::ExpiredCoresPackage;
use crate::live_cores_package::ExpiredCoresPackagePackage;
use crate::live_cores_package::IncipientCoresPackage;
use crate::route::shifted;
use crate::routing_service::route_rel;
use crate::routing_service::RoutingError;
use crate::routing_service::RoutingService;

verus! {

/// One message to a sibling sink: what the hopper asks the rest of the
/// node to do with a processed package.
#[derive(PartialEq, Eq, Debug)]
pub enum Dispatch {
    ToDispatcher(TransmitDataMsg),
    ToHopper(InboundClientData),
    ToProxyServer(ExpiredCoresPackage),
    ToProxyClient(ExpiredCoresPackage),
    ToNeighborhood(ExpiredCoresPackagePackage),
}

/// The two message types the hopper actor accepts.
pub enum HopperMessage {
    Incipient(IncipientCoresPackage),
    Inbound(InboundClientData),
}

/// Why a message was dropped instead of dispatched.
#[derive(Clone, Copy, PartialEq, Eq, Structural, Debug)]
pub enum HopperError {
    Consuming(ConsumingError),
    Routing(RoutingError),
}

/// The hopper actor's state: one consuming service and one routing
/// service over one crypto engine.
pub struct Hopper {
    pub consuming: ConsumingService,
    pub routing: RoutingService,
}

impl Hopper {
    /// A hopper for the node whose engine is `cryptde`.
    pub fn new(cryptde: &CryptDe, is_bootstrap_node: bool) -> (r: Hopper)
        ensures
            r.consuming.cryptde.key@ == cryptde.key@,
            r.consuming.is_bootstrap_node == is_bootstrap_node,
            r.routing.cryptde.key@ == cryptde.key@,
            r.routing.is_bootstrap_node == is_bootstrap_node,
    {
        Hopper {
            consuming: ConsumingService::new(CryptDe::from_key(&cryptde.key), is_bootstrap_node),
            routing: RoutingService::new(CryptDe::from_key(&cryptde.key), is_bootstrap_node),
        }
    }

    /// Process one message: an incipient package goes through the
    /// consuming service, an inbound frame through the routing service.
    pub fn handle(&self, msg: HopperMessage) -> (r: Result<Dispatch, HopperError>)
        ensures
            match msg {
                HopperMessage::Incipient(p) => match r {
                    Ok(d) => consume_rel(
                        self.consuming.cryptde.key@,
                        self.consuming.is_bootstrap_node,
                        p,
                        Ok(d),
                    ),
                    Err(e) => e matches HopperError::Consuming(ce) && consume_rel(
                        self.consuming.cryptde.key@,
                        self.consuming.is_bootstrap_node,
                        p,
                        Err(ce),
                    ),
                },
                HopperMessage::Inbound(i) => match r {
                    Ok(d) => route_rel(
                        self.routing.cryptde.key@,
                        self.routing.is_bootstrap_node,
                        i,
                        Ok(d),
                    ),
                    Err(e) => e matches HopperError::Routing(re) && route_rel(
                        self.routing.cryptde.key@,
                        self.routing.is_bootstrap_node,
                        i,
                        Err(re),
                    ),
                },
            },
    {
        match msg {
            HopperMessage::Incipient(p) => match self.consuming.consume(p) {
                Ok(d) => Ok(d),
                Err(e) => Err(HopperError::Consuming(e)),
            },
            HopperMessage::Inbound(i) => match self.routing.route(i) {
                Ok(d) => Ok(d),
                Err(e) => Err(HopperError::Routing(e)),
            },
        }
    }
}

/// Zero-hop equivalence: consuming a package whose route's first hop is
/// addressed to this node hands the hopper a loopback frame, and routing
/// that frame delivers to the designated terminal component an expired
/// package carrying the very payload the originator supplied.
pub proof fn lemma_zero_hop_equivalence(
    key: Seq<u8>,
    incipient: IncipientCoresPackage,
    consume_r: Result<Dispatch, ConsumingError>,
    ibcd: InboundClientData,
    route_r: Result<Dispatch, RoutingError>,
    c: Component,
)
    requires
        key.len() > 0,
        incipient.payload@.len() > 0,
        key.len() + incipient.payload@.len() < pow256(8),
        incipient.payload_destination_key@ == key,
        2 <= incipient.route@.len() < pow256(8),
        forall|t: int|
            0 <= t < incipient.route@.len() ==> #[trigger] incipient.route@[t].len() < pow256(8),
        decipher(key, incipient.route@[0]) matches Some(hp0) && parse_hop(hp0) matches Some(hv0)
            && hv0.0 == key,
        decipher(key, incipient.route@[1]) matches Some(hp1) && parse_hop(hp1) matches Some(hv1)
            && hv1.1 == c,
        c != Component::Hopper,
        consume_rel(key, false, incipient, consume_r),
        consume_r matches Ok(d) && d matches Dispatch::ToHopper(i2) && i2 == ibcd,
        route_rel(key, false, ibcd, route_r),
    ensures
        c == Component::ProxyServer ==> (route_r matches Ok(d) && d
            matches Dispatch::ToProxyServer(e) && e.payload@ == incipient.payload@),
        c == Component::ProxyClient ==> (route_r matches Ok(d) && d
            matches Dispatch::ToProxyClient(e) && e.payload@ == incipient.payload@),
        c == Component::Neighborhood ==> (route_r matches Ok(d) && d
            matches Dispatch::ToNeighborhood(ep) && ep.expired.payload@ == incipient.payload@
            && ep.sender_ip == ibcd.peer_addr.ip),
{
    let r0 = incipient.route@;
    let p = incipient.payload@;
    let live_v = (shifted(r0), null_cipher(key, p));
    let ser = lcp_bytes(live_v);
    assert(ibcd.data@ == null_cipher(key, ser));
    assert(ser.len() > 0) by {
        crate::codec::lemma_header_len(crate::codec::major_array(), 2);
    }
    crate::cryptde::lemma_null_round_trip(key, ser);
    assert(decipher(key, ibcd.data@) == Some(ser));
    assert(shifted(r0).len() == r0.len());
    assert forall|t: int| 0 <= t < shifted(r0).len() implies #[trigger] shifted(r0)[t].len()
        < pow256(8) by {
        if t < r0.len() - 1 {
            assert(shifted(r0)[t] == r0[t + 1]);
        } else {
            assert(shifted(r0)[t] == crate::cryptde::garbage_bytes(r0[0].len()));
        }
    }
    crate::live_cores_package::lemma_parse_lcp(shifted(r0), null_cipher(key, p));
    assert(parse_lcp(ser) == Some(live_v));
    assert(shifted(r0)[0] == r0[1]);
    crate::cryptde::lemma_null_round_trip(key, p);
    assert(decipher(key, live_v.1) == Some(p));
}

} // verus!

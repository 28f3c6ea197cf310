//! The routing service: processes one inbound clandestine frame through
//! this node's hop.
//!
//! The frame is decrypted with this node's key and deserialized into a
//! live package; the leading hop is revealed.  A hop addressed onward
//! (component `Hopper`) is relayed: the route is shifted and the package
//! re-encrypted to the next peer.  A terminal hop delivers the expired
//! package to the named local component.  A bootstrap node admits only
//! `Neighborhood` deliveries and rejects everything else.

use vstd::prelude::*;

use crate::cryptde::decipher;
use crate::cryptde::null_cipher;
use crate::cryptde::CryptData;
use crate::cryptde::CryptDe;
use crate::cryptde::PlainData;
use crate::dispatcher::Component;
use crate::dispatcher::Endpoint;
use crate::dispatcher::InboundClientData;
use crate::dispatcher::IpAddress;
use crate::dispatcher::TransmitDataMsg;
use crate::hop::parse_hop;
use crate::hop::Hop;
use crate::hopper::Dispatch;
use crate::live_cores_package::lcp_bytes;
use crate::live_cores_package::parse_lcp;
use crate::live_cores_package::ExpiredCoresPackagePackage;
use crate::live_cores_package::LiveCoresPackage;
use crate::route::shifted;

verus! {

/// Why an inbound frame was dropped.
#[derive(Clone, Copy, PartialEq, Eq, Structural, Debug)]
pub enum RoutingError {
    /// The outer ciphertext is not addressed to this node.
    Decrypt,
    /// The decrypted bytes are not a live package.
    Deserialize,
    /// The leading hop cannot be read by this node.
    InvalidRoute,
    /// A bootstrap node refuses to route data to this component.
    Rejected(Component),
    /// The payload of a terminating package cannot be decrypted here.
    PayloadDecrypt,
    /// The relayed package cannot be encrypted to the next peer.
    Encrypt,
    /// An onward hop naming this node itself, which would loop forever.
    SelfRelay,
}

/// The live package an inbound frame carries, if this node can open it.
pub open spec fn inbound_lcp(key: Seq<u8>, data: Seq<u8>) -> Option<(Seq<Seq<u8>>, Seq<u8>)> {
    match decipher(key, data) {
        Some(plain) => parse_lcp(plain),
        None => None,
    }
}

/// The cleartext hop a live package's route leads with, if this node can
/// read it.
pub open spec fn hop_of(key: Seq<u8>, l: (Seq<Seq<u8>>, Seq<u8>)) -> Option<(Seq<u8>, Component)> {
    if l.0.len() == 0 {
        None
    } else {
        match decipher(key, l.0[0]) {
            Some(hp) => parse_hop(hp),
            None => None,
        }
    }
}

/// The cleartext hop an inbound frame leads with, if this node can read
/// it.
pub open spec fn inbound_hop(key: Seq<u8>, data: Seq<u8>) -> Option<(Seq<u8>, Component)> {
    match inbound_lcp(key, data) {
        Some(l) => hop_of(key, l),
        None => None,
    }
}

/// Exactly what relaying a live package onward returns: the shifted
/// package re-encrypted to the revealed peer, or the reason it cannot
/// be.
pub open spec fn relay_rel(
    key: Seq<u8>,
    l: (Seq<Seq<u8>>, Seq<u8>),
    hv: (Seq<u8>, Component),
    last_data: bool,
    r: Result<Dispatch, RoutingError>,
) -> bool {
    let ser = lcp_bytes((shifted(l.0), l.1));
    if hv.0.len() == 0 {
        r == Err::<Dispatch, RoutingError>(RoutingError::Encrypt)
    } else {
        r matches Ok(d) && d matches Dispatch::ToDispatcher(t) && (t.endpoint
            matches Endpoint::Key(k) && k@ == hv.0) && t.last_data == last_data
            && t.sequence_number is None && t.data@ == null_cipher(hv.0, ser)
    }
}

/// Exactly what a terminal delivery returns: the expired package at the
/// named component, or the reason it cannot be produced.
pub open spec fn terminal_rel(
    key: Seq<u8>,
    l: (Seq<Seq<u8>>, Seq<u8>),
    c: Component,
    sender_ip: IpAddress,
    r: Result<Dispatch, RoutingError>,
) -> bool {
    match decipher(key, l.1) {
        None => r == Err::<Dispatch, RoutingError>(RoutingError::PayloadDecrypt),
        Some(p) => {
            if c == Component::ProxyServer {
                r matches Ok(d) && d matches Dispatch::ToProxyServer(e) && e.remaining_route@
                    == l.0 && e.payload@ == p
            } else if c == Component::ProxyClient {
                r matches Ok(d) && d matches Dispatch::ToProxyClient(e) && e.remaining_route@
                    == l.0 && e.payload@ == p
            } else {
                r matches Ok(d) && d matches Dispatch::ToNeighborhood(ep) && ep.expired.remaining_route@
                    == l.0 && ep.expired.payload@ == p && ep.sender_ip == sender_ip
            }
        },
    }
}

/// Exactly what [`RoutingService::route`] returns for a given engine
/// key, bootstrap flag and inbound frame.
pub open spec fn route_rel(
    key: Seq<u8>,
    is_bootstrap: bool,
    ibcd: InboundClientData,
    r: Result<Dispatch, RoutingError>,
) -> bool {
    match decipher(key, ibcd.data@) {
        None => r == Err::<Dispatch, RoutingError>(RoutingError::Decrypt),
        Some(plain) => match parse_lcp(plain) {
            None => r == Err::<Dispatch, RoutingError>(RoutingError::Deserialize),
            Some(l) => match hop_of(key, l) {
                None => r == Err::<Dispatch, RoutingError>(RoutingError::InvalidRoute),
                Some(hv) => {
                    if is_bootstrap && hv.1 != Component::Neighborhood {
                        r == Err::<Dispatch, RoutingError>(RoutingError::Rejected(hv.1))
                    } else if hv.1 == Component::Hopper {
                        if hv.0 == key {
                            r == Err::<Dispatch, RoutingError>(RoutingError::SelfRelay)
                        } else {
                            relay_rel(key, l, hv, ibcd.last_data, r)
                        }
                    } else {
                        terminal_rel(key, l, hv.1, ibcd.peer_addr.ip, r)
                    }
                },
            },
        },
    }
}

/// Routes one inbound clandestine frame through this node's hop.
pub struct RoutingService {
    pub cryptde: CryptDe,
    pub is_bootstrap_node: bool,
}

impl RoutingService {
    /// A routing service for the node whose engine is `cryptde`.
    pub fn new(cryptde: CryptDe, is_bootstrap_node: bool) -> (r: RoutingService)
        ensures
            r.cryptde.key@ == cryptde.key@,
            r.is_bootstrap_node == is_bootstrap_node,
    {
        RoutingService { cryptde, is_bootstrap_node }
    }

    /// Process one inbound frame: relay it, deliver it locally, or drop
    /// it with the reason.
    pub fn route(&self, ibcd: InboundClientData) -> (r: Result<Dispatch, RoutingError>)
        ensures
            route_rel(self.cryptde.key@, self.is_bootstrap_node, ibcd, r),
    {
        let sender_ip = ibcd.peer_addr.ip();
        let last_data = ibcd.last_data;
        let live_package = match self.decrypt_and_deserialize_lcp(ibcd) {
            Ok(p) => p,
            Err(e) => {
                return Err(e);
            },
        };
        let next_hop = match live_package.next_hop(&self.cryptde) {
            Ok(h) => h,
            Err(_) => {
                return Err(RoutingError::InvalidRoute);
            },
        };
        if !self.should_route_data(next_hop.component) {
            return Err(RoutingError::Rejected(next_hop.component));
        }
        if next_hop.component == Component::Hopper && next_hop.next_key
            == self.cryptde.public_key() {
            return Err(RoutingError::SelfRelay);
        }
        self.route_data(sender_ip, next_hop, live_package, last_data)
    }

    /// Decrypt an inbound frame and deserialize the live package in it.
    fn decrypt_and_deserialize_lcp(&self, ibcd: InboundClientData) -> (r: Result<
        LiveCoresPackage,
        RoutingError,
    >)
        ensures
            match decipher(self.cryptde.key@, ibcd.data@) {
                None => r == Err::<LiveCoresPackage, RoutingError>(RoutingError::Decrypt),
                Some(plain) => match parse_lcp(plain) {
                    None => r == Err::<LiveCoresPackage, RoutingError>(RoutingError::Deserialize),
                    Some(l) => r matches Ok(p) && p@ == l,
                },
            },
    {
        let decrypted_package = match self.cryptde.decode(&CryptData { data: ibcd.data }) {
            Ok(p) => p,
            Err(_) => {
                return Err(RoutingError::Decrypt);
            },
        };
        match LiveCoresPackage::decode(decrypted_package.data.as_slice()) {
            Some(p) => Ok(p),
            None => Err(RoutingError::Deserialize),
        }
    }

    /// A bootstrap node routes only neighborhood deliveries.
    fn should_route_data(&self, component: Component) -> (r: bool)
        ensures
            r == (component == Component::Neighborhood || !self.is_bootstrap_node),
    {
        if component == Component::Neighborhood {
            true
        } else if self.is_bootstrap_node {
            false
        } else {
            true
        }
    }

    /// Dispatch an admitted package: onward for a `Hopper` hop, to the
    /// named local component otherwise.
    fn route_data(
        &self,
        sender_ip: IpAddress,
        next_hop: Hop,
        live_package: LiveCoresPackage,
        last_data: bool,
    ) -> (r: Result<Dispatch, RoutingError>)
        requires
            hop_of(self.cryptde.key@, live_package@) == Some(next_hop@),
            next_hop.component == Component::Hopper ==> next_hop.next_key@ != self.cryptde.key@,
        ensures
            next_hop.component == Component::Hopper ==> relay_rel(
                self.cryptde.key@,
                live_package@,
                next_hop@,
                last_data,
                r,
            ),
            next_hop.component != Component::Hopper ==> terminal_rel(
                self.cryptde.key@,
                live_package@,
                next_hop.component,
                sender_ip,
                r,
            ),
    {
        if next_hop.component == Component::Hopper {
            self.route_data_externally(live_package, last_data)
        } else {
            self.route_data_internally(next_hop.component, sender_ip, live_package)
        }
    }

    /// Deliver an expired package to the named local component.
    fn route_data_internally(
        &self,
        component: Component,
        sender_ip: IpAddress,
        live_package: LiveCoresPackage,
    ) -> (r: Result<Dispatch, RoutingError>)
        requires
            component != Component::Hopper,
        ensures
            terminal_rel(self.cryptde.key@, live_package@, component, sender_ip, r),
    {
        match component {
            Component::ProxyServer => self.handle_endpoint(component, live_package),
            Component::ProxyClient => self.handle_endpoint(component, live_package),
            Component::Neighborhood => self.handle_ip_endpoint(component, live_package, sender_ip),
            Component::Hopper => {
                // Unreachable: the caller sends Hopper hops outward instead.
                proof {
                    assert(false);
                }
                Err(RoutingError::PayloadDecrypt)
            },
        }
    }

    /// Relay a live package onward to the next peer.
    fn route_data_externally(&self, live_package: LiveCoresPackage, last_data: bool) -> (r: Result<
        Dispatch,
        RoutingError,
    >)
        requires
            hop_of(self.cryptde.key@, live_package@) is Some,
        ensures
            relay_rel(
                self.cryptde.key@,
                live_package@,
                hop_of(self.cryptde.key@, live_package@).unwrap(),
                last_data,
                r,
            ),
    {
        match self.to_transmit_data_msg(live_package, last_data) {
            Ok(m) => Ok(Dispatch::ToDispatcher(m)),
            Err(e) => Err(e),
        }
    }

    /// Shift a live package's route and re-encrypt it to the revealed
    /// peer.
    fn to_transmit_data_msg(&self, live_package: LiveCoresPackage, last_data: bool) -> (r: Result<
        TransmitDataMsg,
        RoutingError,
    >)
        requires
            hop_of(self.cryptde.key@, live_package@) is Some,
        ensures
            ({
                let hv = hop_of(self.cryptde.key@, live_package@).unwrap();
                let ser = lcp_bytes((shifted(live_package@.0), live_package@.1));
                &&& hv.0.len() == 0 ==> r == Err::<TransmitDataMsg, RoutingError>(
                    RoutingError::Encrypt,
                )
                &&& hv.0.len() > 0 ==> (r matches Ok(t) && (t.endpoint matches Endpoint::Key(k)
                    && k@ == hv.0) && t.last_data == last_data && t.sequence_number is None
                    && t.data@ == null_cipher(hv.0, ser))
            }),
    {
        let (next_key, next_live_package) = match live_package.to_next_live(&self.cryptde) {
            Ok(t) => t,
            Err(_) => {
                // Unreachable: the caller already revealed this hop, so the
                // shift decrypts the same head again.
                proof {
                    assert(false);
                }
                return Err(RoutingError::InvalidRoute);
            },
        };
        let next_live_package_ser = next_live_package.encode();
        assert(next_live_package_ser@.len() > 0) by {
            crate::codec::lemma_header_len(crate::codec::major_array(), 2);
        }
        let next_live_package_enc = match self.cryptde.encode(
            &next_key,
            &PlainData { data: next_live_package_ser },
        ) {
            Ok(c) => c,
            Err(_) => {
                return Err(RoutingError::Encrypt);
            },
        };
        Ok(
            TransmitDataMsg {
                endpoint: Endpoint::Key(next_key),
                last_data,
                data: next_live_package_enc.data,
                sequence_number: None,
            },
        )
    }

    /// Expire a terminating package for a component that needs no sender
    /// address.
    fn handle_endpoint(&self, component: Component, live_package: LiveCoresPackage) -> (r: Result<
        Dispatch,
        RoutingError,
    >)
        requires
            component == Component::ProxyServer || component == Component::ProxyClient,
        ensures
            forall|ip: IpAddress|
                #[trigger] terminal_rel(self.cryptde.key@, live_package@, component, ip, r),
    {
        let ghost l = live_package@;
        let expired_package = match live_package.to_expired(&self.cryptde) {
            Ok(e) => e,
            Err(_) => {
                return Err(RoutingError::PayloadDecrypt);
            },
        };
        if component == Component::ProxyServer {
            Ok(Dispatch::ToProxyServer(expired_package))
        } else {
            Ok(Dispatch::ToProxyClient(expired_package))
        }
    }

    /// Expire a terminating package for the neighborhood, which must know
    /// the ingress peer address.
    fn handle_ip_endpoint(
        &self,
        component: Component,
        live_package: LiveCoresPackage,
        sender_ip: IpAddress,
    ) -> (r: Result<Dispatch, RoutingError>)
        requires
            component == Component::Neighborhood,
        ensures
            terminal_rel(self.cryptde.key@, live_package@, component, sender_ip, r),
    {
        let expired_package = match live_package.to_expired(&self.cryptde) {
            Ok(e) => e,
            Err(_) => {
                return Err(RoutingError::PayloadDecrypt);
            },
        };
        Ok(
            Dispatch::ToNeighborhood(
                ExpiredCoresPackagePackage { expired: expired_package, sender_ip },
            ),
        )
    }
}

/// Bootstrap policy: with the bootstrap flag set, an inbound frame whose
/// revealed hop names `ProxyServer`, `ProxyClient` or `Hopper` produces
/// no downstream message, only the rejection naming that component; one
/// naming `Neighborhood` is admitted, and delivered whenever its payload
/// decrypts here.
pub proof fn lemma_bootstrap_policy(
    key: Seq<u8>,
    ibcd: InboundClientData,
    r: Result<Dispatch, RoutingError>,
    c: Component,
)
    requires
        route_rel(key, true, ibcd, r),
        inbound_hop(key, ibcd.data@) matches Some(hv) && hv.1 == c,
    ensures
        c != Component::Neighborhood ==> r == Err::<Dispatch, RoutingError>(
            RoutingError::Rejected(c),
        ),
        c == Component::Neighborhood && decipher(key, inbound_lcp(key, ibcd.data@).unwrap().1)
            is Some ==> (r matches Ok(d) && d matches Dispatch::ToNeighborhood(_)),
{
}

} // verus!

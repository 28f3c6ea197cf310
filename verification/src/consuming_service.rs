//! The consuming service: turns a locally originated package into its
//! on-the-wire form and decides where it goes.
//!
//! The payload is encrypted to its destination key, the route is shifted
//! past this node's own hop, the result is serialized and encrypted to
//! the revealed next peer.  A package addressed back to this node (the
//! zero-hop case) is handed to the hopper itself as a synthetic inbound
//! frame; any other package is handed to the dispatcher for the wire.  A
//! bootstrap node is not permitted to originate traffic: its consume
//! attempts are dropped.

use vstd::prelude::*;

use crate::cryptde::decipher;
use crate::cryptde::null_cipher;
use crate::cryptde::CryptDe;
use crate::cryptde::CryptdecError;
use crate::cryptde::PlainData;
use crate::dispatcher::loopback_placeholder;
use crate::dispatcher::Endpoint;
use crate::dispatcher::InboundClientData;
use crate::dispatcher::TransmitDataMsg;
use crate::hop::parse_hop;
use crate::hopper::Dispatch;
use crate::live_cores_package::lcp_bytes;
use crate::live_cores_package::IncipientCoresPackage;
use crate::live_cores_package::LiveCoresPackage;
use crate::live_cores_package::LiveCoresPackageError;
use crate::route::shifted;
use crate::route::RouteError;

verus! {

/// Why a consume attempt was dropped.
#[derive(Clone, Copy, PartialEq, Eq, Structural, Debug)]
pub enum ConsumingError {
    /// A bootstrap node must not originate traffic.
    BootstrapNode,
    /// The package could not be turned into on-the-wire form.
    Package(LiveCoresPackageError),
    /// The serialized package could not be encrypted to the next peer.
    Encryption(CryptdecError),
}

/// Exactly what [`ConsumingService::consume`] returns for a given engine
/// key, bootstrap flag and package.
pub open spec fn consume_rel(
    key: Seq<u8>,
    is_bootstrap: bool,
    incipient: IncipientCoresPackage,
    r: Result<Dispatch, ConsumingError>,
) -> bool {
    let dkey = incipient.payload_destination_key@;
    let p = incipient.payload@;
    let r0 = incipient.route@;
    if is_bootstrap {
        r == Err::<Dispatch, ConsumingError>(ConsumingError::BootstrapNode)
    } else if dkey.len() == 0 {
        r == Err::<Dispatch, ConsumingError>(
            ConsumingError::Package(LiveCoresPackageError::Encryption(CryptdecError::EmptyKey)),
        )
    } else if p.len() == 0 {
        r == Err::<Dispatch, ConsumingError>(
            ConsumingError::Package(LiveCoresPackageError::Encryption(CryptdecError::EmptyData)),
        )
    } else if r0.len() == 0 {
        r == Err::<Dispatch, ConsumingError>(
            ConsumingError::Package(LiveCoresPackageError::Route(RouteError::EmptyRoute)),
        )
    } else {
        match decipher(key, r0[0]) {
            None => r == Err::<Dispatch, ConsumingError>(
                ConsumingError::Package(LiveCoresPackageError::Route(RouteError::HopDecryptFailure)),
            ),
            Some(plain) => match parse_hop(plain) {
                None => r == Err::<Dispatch, ConsumingError>(
                    ConsumingError::Package(
                        LiveCoresPackageError::Route(RouteError::HopParseFailure),
                    ),
                ),
                Some(hv) => {
                    let ser = lcp_bytes((shifted(r0), null_cipher(dkey, p)));
                    if hv.0.len() == 0 {
                        r == Err::<Dispatch, ConsumingError>(
                            ConsumingError::Encryption(CryptdecError::EmptyKey),
                        )
                    } else if hv.0 == key {
                        r matches Ok(d) && d matches Dispatch::ToHopper(i) && i.peer_addr
                            == loopback_placeholder_spec() && i.reception_port is None
                            && i.last_data == false && i.sequence_number is None
                            && i.is_clandestine == true && i.data@ == null_cipher(hv.0, ser)
                    } else {
                        r matches Ok(d) && d matches Dispatch::ToDispatcher(t) && (t.endpoint
                            matches Endpoint::Key(k) && k@ == hv.0) && t.last_data == false
                            && t.sequence_number is None && t.data@ == null_cipher(hv.0, ser)
                    }
                },
            },
        }
    }
}

/// The loopback placeholder, at spec level.
pub open spec fn loopback_placeholder_spec() -> crate::dispatcher::SocketAddress {
    crate::dispatcher::SocketAddress { ip: crate::dispatcher::IpAddress(1, 2, 3, 4), port: 5678 }
}

/// Converts locally originated packages to on-the-wire form and decides
/// their first destination.
pub struct ConsumingService {
    pub cryptde: CryptDe,
    pub is_bootstrap_node: bool,
}

impl ConsumingService {
    /// A consuming service for the node whose engine is `cryptde`.
    pub fn new(cryptde: CryptDe, is_bootstrap_node: bool) -> (r: ConsumingService)
        ensures
            r.cryptde.key@ == cryptde.key@,
            r.is_bootstrap_node == is_bootstrap_node,
    {
        ConsumingService { cryptde, is_bootstrap_node }
    }

    /// Convert one incipient package and decide where it goes: back to
    /// the hopper for the zero-hop case, to the dispatcher otherwise.
    pub fn consume(&self, incipient_cores_package: IncipientCoresPackage) -> (r: Result<
        Dispatch,
        ConsumingError,
    >)
        ensures
            consume_rel(self.cryptde.key@, self.is_bootstrap_node, incipient_cores_package, r),
    {
        if self.is_bootstrap_node {
            return Err(ConsumingError::BootstrapNode);
        }
        let (live_package, next_node_key) = match LiveCoresPackage::from_incipient(
            incipient_cores_package,
            &self.cryptde,
        ) {
            Ok(t) => t,
            Err(e) => {
                return Err(ConsumingError::Package(e));
            },
        };
        let encrypted_package = match self.serialize_and_encrypt_lcp(
            live_package,
            &next_node_key,
        ) {
            Ok(c) => c,
            Err(e) => {
                return Err(ConsumingError::Encryption(e));
            },
        };
        if next_node_key == self.cryptde.public_key() {
            Ok(self.launch_zero_hop_lcp(encrypted_package))
        } else {
            Ok(self.launch_conventional_lcp(encrypted_package, next_node_key))
        }
    }

    /// Serialize a live package and encrypt it to the next peer.
    fn serialize_and_encrypt_lcp(
        &self,
        live_package: LiveCoresPackage,
        next_node_key: &crate::cryptde::Key,
    ) -> (r: Result<crate::cryptde::CryptData, CryptdecError>)
        ensures
            next_node_key@.len() == 0 ==> r == Err::<crate::cryptde::CryptData, CryptdecError>(
                CryptdecError::EmptyKey,
            ),
            next_node_key@.len() > 0 ==> (r matches Ok(c) && c@ == null_cipher(
                next_node_key@,
                lcp_bytes(live_package@),
            )),
    {
        let serialized_package = live_package.encode();
        assert(serialized_package@.len() > 0) by {
            crate::codec::lemma_header_len(crate::codec::major_array(), 2);
        }
        self.cryptde.encode(next_node_key, &PlainData { data: serialized_package })
    }

    /// Wrap ciphertext destined for this node itself as a synthetic
    /// inbound frame for the hopper.
    fn launch_zero_hop_lcp(&self, encrypted_package: crate::cryptde::CryptData) -> (r: Dispatch)
        ensures
            r matches Dispatch::ToHopper(i) && i.peer_addr == loopback_placeholder_spec()
                && i.reception_port is None && i.last_data == false && i.sequence_number is None
                && i.is_clandestine == true && i.data@ == encrypted_package@,
    {
        Dispatch::ToHopper(
            InboundClientData {
                peer_addr: loopback_placeholder(),
                reception_port: None,
                last_data: false,
                sequence_number: None,
                is_clandestine: true,
                data: encrypted_package.data,
            },
        )
    }

    /// Wrap ciphertext destined for a remote peer as a transmit order for
    /// the dispatcher.
    fn launch_conventional_lcp(
        &self,
        encrypted_package: crate::cryptde::CryptData,
        next_node_key: crate::cryptde::Key,
    ) -> (r: Dispatch)
        ensures
            r matches Dispatch::ToDispatcher(t) && (t.endpoint matches Endpoint::Key(k) && k@
                == next_node_key@) && t.last_data == false && t.sequence_number is None && t.data@
                == encrypted_package@,
    {
        Dispatch::ToDispatcher(
            TransmitDataMsg {
                endpoint: Endpoint::Key(next_node_key),
                last_data: false,
                data: encrypted_package.data,
                sequence_number: None,
            },
        )
    }
}

} // verus!

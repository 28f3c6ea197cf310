use hopper_lib::cryptde::CryptDe;
use hopper_lib::cryptde::CryptdecError;
use hopper_lib::cryptde::Key;
use hopper_lib::cryptde::PlainData;
use hopper_lib::dispatcher::Component;
use hopper_lib::dispatcher::InboundClientData;
use hopper_lib::dispatcher::IpAddress;
use hopper_lib::dispatcher::SocketAddress;
use hopper_lib::hop::encode_hop;
use hopper_lib::hop::Hop;
use hopper_lib::live_cores_package::IncipientCoresPackage;
use hopper_lib::live_cores_package::LiveCoresPackage;
use hopper_lib::live_cores_package::LiveCoresPackageError;
use hopper_lib::consuming_service::ConsumingError;
use hopper_lib::consuming_service::ConsumingService;
use hopper_lib::route::Route;
use hopper_lib::route::RouteError;
use hopper_lib::route::RouteSegment;
use hopper_lib::routing_service::RoutingError;
use hopper_lib::routing_service::RoutingService;

fn engine(key: &[u8]) -> CryptDe {
    CryptDe::from_key(&Key::new(key))
}

fn inbound(data: Vec<u8>) -> InboundClientData {
    InboundClientData {
        peer_addr: SocketAddress {
            ip: IpAddress(1, 2, 3, 4),
            port: 5678,
        },
        reception_port: None,
        last_data: false,
        sequence_number: None,
        is_clandestine: true,
        data,
    }
}

#[test]
fn routing_drops_a_frame_not_addressed_to_this_node() {
    let other = engine(b"other");
    let foreign = other
        .encode(&other.public_key(), &PlainData::new(b"whatever"))
        .unwrap();
    let subject = RoutingService::new(engine(b"self"), false);

    let result = subject.route(inbound(foreign.data));

    assert_eq!(result, Err(RoutingError::Decrypt));
}

#[test]
fn routing_drops_a_frame_that_is_no_package() {
    let cryptde = engine(b"self");
    let noise = cryptde
        .encode(&cryptde.public_key(), &PlainData::new(b"not a package"))
        .unwrap();
    let subject = RoutingService::new(engine(b"self"), false);

    let result = subject.route(inbound(noise.data));

    assert_eq!(result, Err(RoutingError::Deserialize));
}

#[test]
fn routing_drops_a_package_whose_head_hop_is_unreadable() {
    let cryptde = engine(b"self");
    let other = engine(b"other");
    // A structurally valid package whose hops are encrypted to another node.
    let foreign_hop = other
        .encode(&other.public_key(), &PlainData::new(b"opaque"))
        .unwrap();
    let lcp = LiveCoresPackage::new(
        Route {
            hops: vec![foreign_hop.clone(), foreign_hop],
        },
        cryptde
            .encode(&cryptde.public_key(), &PlainData::new(b"abcd"))
            .unwrap(),
    );
    let frame = cryptde
        .encode(&cryptde.public_key(), &PlainData::new(&lcp.encode()[..]))
        .unwrap();
    let subject = RoutingService::new(engine(b"self"), false);

    let result = subject.route(inbound(frame.data));

    assert_eq!(result, Err(RoutingError::InvalidRoute));
}

#[test]
fn routing_drops_a_terminal_package_whose_payload_is_not_for_this_node() {
    let cryptde = engine(b"self");
    let other = engine(b"other");
    let mut route = Route::construct(
        &vec![RouteSegment::new(
            vec![cryptde.public_key(), cryptde.public_key()],
            Component::ProxyServer,
        )],
        &cryptde,
    )
    .unwrap();
    route.shift(&cryptde).unwrap();
    let lcp = LiveCoresPackage::new(
        route,
        other
            .encode(&other.public_key(), &PlainData::new(b"abcd"))
            .unwrap(),
    );
    let frame = cryptde
        .encode(&cryptde.public_key(), &PlainData::new(&lcp.encode()[..]))
        .unwrap();
    let subject = RoutingService::new(engine(b"self"), false);

    let result = subject.route(inbound(frame.data));

    assert_eq!(result, Err(RoutingError::PayloadDecrypt));
}

#[test]
fn routing_drops_a_relay_whose_next_key_is_empty() {
    let cryptde = engine(b"self");
    // A head hop naming an empty next key with an onward component.
    let hop_plain = encode_hop(&Hop::new(&Key::new(b""), Component::Hopper));
    let head = cryptde
        .encode(&cryptde.public_key(), &PlainData::new(&hop_plain[..]))
        .unwrap();
    let lcp = LiveCoresPackage::new(
        Route {
            hops: vec![head.clone(), head],
        },
        cryptde
            .encode(&cryptde.public_key(), &PlainData::new(b"abcd"))
            .unwrap(),
    );
    let frame = cryptde
        .encode(&cryptde.public_key(), &PlainData::new(&lcp.encode()[..]))
        .unwrap();
    let subject = RoutingService::new(engine(b"self"), false);

    let result = subject.route(inbound(frame.data));

    assert_eq!(result, Err(RoutingError::Encrypt));
}

#[test]
fn consuming_drops_a_package_with_an_empty_destination_key() {
    let cryptde = engine(b"self");
    let route = Route::construct(
        &vec![RouteSegment::new(
            vec![cryptde.public_key(), cryptde.public_key()],
            Component::Neighborhood,
        )],
        &cryptde,
    )
    .unwrap();
    let incipient = IncipientCoresPackage::new(route, PlainData::new(b"abcd"), &Key::new(b""));
    let subject = ConsumingService::new(engine(b"self"), false);

    let result = subject.consume(incipient);

    assert_eq!(
        result,
        Err(ConsumingError::Package(LiveCoresPackageError::Encryption(
            CryptdecError::EmptyKey
        )))
    );
}

#[test]
fn consuming_drops_a_package_with_an_empty_route() {
    let cryptde = engine(b"self");
    let incipient = IncipientCoresPackage::new(
        Route { hops: vec![] },
        PlainData::new(b"abcd"),
        &cryptde.public_key(),
    );
    let subject = ConsumingService::new(engine(b"self"), false);

    let result = subject.consume(incipient);

    assert_eq!(
        result,
        Err(ConsumingError::Package(LiveCoresPackageError::Route(
            RouteError::EmptyRoute
        )))
    );
}

#[test]
fn consuming_drops_an_empty_payload() {
    let cryptde = engine(b"self");
    let route = Route::construct(
        &vec![RouteSegment::new(
            vec![cryptde.public_key(), cryptde.public_key()],
            Component::Neighborhood,
        )],
        &cryptde,
    )
    .unwrap();
    let incipient = IncipientCoresPackage::new(route, PlainData::new(b""), &cryptde.public_key());
    let subject = ConsumingService::new(engine(b"self"), false);

    let result = subject.consume(incipient);

    assert_eq!(
        result,
        Err(ConsumingError::Package(LiveCoresPackageError::Encryption(
            CryptdecError::EmptyData
        )))
    );
}

#[test]
fn routing_drops_a_relay_hop_addressed_to_this_node_itself() {
    let cryptde = engine(b"self");
    // An onward hop that names this node again: relaying it would loop
    // the package back here forever.
    let hop_plain = encode_hop(&Hop::new(&cryptde.public_key(), Component::Hopper));
    let head = cryptde
        .encode(&cryptde.public_key(), &PlainData::new(&hop_plain[..]))
        .unwrap();
    let lcp = LiveCoresPackage::new(
        Route {
            hops: vec![head.clone(), head],
        },
        cryptde
            .encode(&cryptde.public_key(), &PlainData::new(b"abcd"))
            .unwrap(),
    );
    let frame = cryptde
        .encode(&cryptde.public_key(), &PlainData::new(&lcp.encode()[..]))
        .unwrap();
    let subject = RoutingService::new(engine(b"self"), false);

    let result = subject.route(inbound(frame.data));

    assert_eq!(result, Err(RoutingError::SelfRelay));
}

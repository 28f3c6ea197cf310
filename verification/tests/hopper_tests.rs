use hopper_lib::cryptde::CryptDe;
use hopper_lib::cryptde::Key;
use hopper_lib::cryptde::PlainData;
use hopper_lib::dispatcher::Component;
use hopper_lib::dispatcher::Endpoint;
use hopper_lib::dispatcher::InboundClientData;
use hopper_lib::dispatcher::IpAddress;
use hopper_lib::dispatcher::SocketAddress;
use hopper_lib::dispatcher::TransmitDataMsg;
use hopper_lib::hopper::Dispatch;
use hopper_lib::hopper::Hopper;
use hopper_lib::hopper::HopperError;
use hopper_lib::hopper::HopperMessage;
use hopper_lib::live_cores_package::IncipientCoresPackage;
use hopper_lib::live_cores_package::LiveCoresPackage;
use hopper_lib::route::Route;
use hopper_lib::route::RouteSegment;
use hopper_lib::routing_service::RoutingError;

fn cryptde() -> CryptDe {
    CryptDe::from_key(&Key::new(&b"nodekey"[..]))
}

fn peer_addr() -> SocketAddress {
    SocketAddress {
        ip: IpAddress(1, 2, 3, 4),
        port: 5678,
    }
}

fn single_segment_route(cryptde: &CryptDe, keys: Vec<Key>, component: Component) -> Route {
    Route::construct(&vec![RouteSegment::new(keys, component)], cryptde).unwrap()
}

#[test]
fn converts_incipient_message_to_live_and_sends_to_dispatcher() {
    let cryptde = cryptde();
    let destination_key = Key::new(&[65, 65, 65]);
    let route = single_segment_route(
        &cryptde,
        vec![cryptde.public_key(), destination_key.clone()],
        Component::Neighborhood,
    );
    let payload = PlainData::new(&b"abcd"[..]);
    let incipient_cores_package =
        IncipientCoresPackage::new(route.clone(), payload, &destination_key);
    let incipient_cores_package_a = incipient_cores_package.clone();
    let subject = Hopper::new(&cryptde, false);

    let record = subject
        .handle(HopperMessage::Incipient(incipient_cores_package))
        .unwrap();

    let expected_lcp = LiveCoresPackage::from_incipient(incipient_cores_package_a, &cryptde)
        .unwrap()
        .0;
    let expected_lcp_ser = PlainData::new(&expected_lcp.encode()[..]);
    let expected_lcp_enc = cryptde.encode(&destination_key, &expected_lcp_ser).unwrap();
    assert_eq!(
        record,
        Dispatch::ToDispatcher(TransmitDataMsg {
            endpoint: Endpoint::Key(destination_key.clone()),
            last_data: false,
            sequence_number: None,
            data: expected_lcp_enc.data,
        })
    );
}

#[test]
fn hopper_sends_incipient_cores_package_to_recipient_component_when_next_hop_key_is_the_same_as_the_public_key_of_this_node(
) {
    let cryptde = cryptde();
    let destination_key = cryptde.public_key();
    let route = single_segment_route(
        &cryptde,
        vec![cryptde.public_key(), cryptde.public_key()],
        Component::ProxyClient,
    );
    let payload = PlainData::new(&b"abcd"[..]);
    let incipient_cores_package = IncipientCoresPackage::new(route, payload, &destination_key);
    let incipient_cores_package_a = incipient_cores_package.clone();
    let (lcp, _key) =
        LiveCoresPackage::from_incipient(incipient_cores_package_a, &cryptde).unwrap();
    let subject = Hopper::new(&cryptde, false);

    let loopback = subject
        .handle(HopperMessage::Incipient(incipient_cores_package))
        .unwrap();
    let inbound = match loopback {
        Dispatch::ToHopper(ibcd) => ibcd,
        other => panic!("expected a loopback delivery, got {:?}", other),
    };
    let record = subject.handle(HopperMessage::Inbound(inbound)).unwrap();

    let expected_ecp = lcp.to_expired(&cryptde).unwrap();
    assert_eq!(record, Dispatch::ToProxyClient(expected_ecp));
}

#[test]
fn converts_live_message_to_expired_for_proxy_client() {
    let cryptde = cryptde();
    let mut route = single_segment_route(
        &cryptde,
        vec![cryptde.public_key(), cryptde.public_key()],
        Component::ProxyClient,
    );
    route.shift(&cryptde).unwrap();
    let payload = PlainData::new(&b"abcd"[..]);
    let lcp = LiveCoresPackage::new(
        route,
        cryptde.encode(&cryptde.public_key(), &payload).unwrap(),
    );
    let lcp_a = lcp.clone();
    let data_ser = PlainData::new(&lcp.encode()[..]);
    let data_enc = cryptde.encode(&cryptde.public_key(), &data_ser).unwrap();
    let inbound_client_data = InboundClientData {
        peer_addr: peer_addr(),
        reception_port: None,
        sequence_number: None,
        last_data: false,
        is_clandestine: false,
        data: data_enc.data,
    };
    let subject = Hopper::new(&cryptde, false);

    let record = subject
        .handle(HopperMessage::Inbound(inbound_client_data))
        .unwrap();

    let expected_ecp = lcp_a.to_expired(&cryptde).unwrap();
    assert_eq!(record, Dispatch::ToProxyClient(expected_ecp));
}

#[test]
fn converts_live_message_to_expired_for_proxy_server() {
    let cryptde = cryptde();
    let mut route = single_segment_route(
        &cryptde,
        vec![cryptde.public_key(), cryptde.public_key()],
        Component::ProxyServer,
    );
    route.shift(&cryptde).unwrap();
    let payload = PlainData::new(&b"abcd"[..]);
    let lcp = LiveCoresPackage::new(
        route,
        cryptde.encode(&cryptde.public_key(), &payload).unwrap(),
    );
    let lcp_a = lcp.clone();
    let data_ser = PlainData::new(&lcp.encode()[..]);
    let data_enc = cryptde.encode(&cryptde.public_key(), &data_ser).unwrap();
    let inbound_client_data = InboundClientData {
        peer_addr: peer_addr(),
        reception_port: None,
        last_data: false,
        is_clandestine: false,
        sequence_number: None,
        data: data_enc.data,
    };
    let subject = Hopper::new(&cryptde, false);

    let record = subject
        .handle(HopperMessage::Inbound(inbound_client_data))
        .unwrap();

    let expected_ecp = lcp_a.to_expired(&cryptde).unwrap();
    assert_eq!(record, Dispatch::ToProxyServer(expected_ecp));
}

#[test]
fn refuses_data_for_proxy_client_if_is_bootstrap_node() {
    let cryptde = cryptde();
    let mut route = single_segment_route(
        &cryptde,
        vec![cryptde.public_key(), cryptde.public_key()],
        Component::ProxyClient,
    );
    route.shift(&cryptde).unwrap();
    let payload = PlainData::new(&b"abcd"[..]);
    let lcp = LiveCoresPackage::new(
        route,
        cryptde.encode(&cryptde.public_key(), &payload).unwrap(),
    );
    let data_ser = PlainData::new(&lcp.encode()[..]);
    let data_enc = cryptde.encode(&cryptde.public_key(), &data_ser).unwrap();
    let inbound_client_data = InboundClientData {
        peer_addr: peer_addr(),
        reception_port: None,
        last_data: false,
        is_clandestine: false,
        sequence_number: None,
        data: data_enc.data,
    };
    let subject = Hopper::new(&cryptde, true);

    let result = subject.handle(HopperMessage::Inbound(inbound_client_data));

    assert_eq!(
        result,
        Err(HopperError::Routing(RoutingError::Rejected(
            Component::ProxyClient
        )))
    );
}

#[test]
fn refuses_data_for_proxy_server_if_is_bootstrap_node() {
    let cryptde = cryptde();
    let mut route = single_segment_route(
        &cryptde,
        vec![cryptde.public_key(), cryptde.public_key()],
        Component::ProxyServer,
    );
    route.shift(&cryptde).unwrap();
    let payload = PlainData::new(&b"abcd"[..]);
    let lcp = LiveCoresPackage::new(
        route,
        cryptde.encode(&cryptde.public_key(), &payload).unwrap(),
    );
    let data_ser = PlainData::new(&lcp.encode()[..]);
    let data_enc = cryptde.encode(&cryptde.public_key(), &data_ser).unwrap();
    let inbound_client_data = InboundClientData {
        peer_addr: peer_addr(),
        reception_port: None,
        sequence_number: None,
        last_data: false,
        is_clandestine: false,
        data: data_enc.data,
    };
    let subject = Hopper::new(&cryptde, true);

    let result = subject.handle(HopperMessage::Inbound(inbound_client_data));

    assert_eq!(
        result,
        Err(HopperError::Routing(RoutingError::Rejected(
            Component::ProxyServer
        )))
    );
}

#[test]
fn refuses_data_for_hopper_if_is_bootstrap_node() {
    let cryptde = cryptde();
    let route = single_segment_route(
        &cryptde,
        vec![cryptde.public_key(), cryptde.public_key()],
        Component::Hopper,
    );
    let payload = PlainData::new(&b"abcd"[..]);
    let lcp = LiveCoresPackage::new(
        route,
        cryptde.encode(&cryptde.public_key(), &payload).unwrap(),
    );
    let data_ser = PlainData::new(&lcp.encode()[..]);
    let data_enc = cryptde.encode(&cryptde.public_key(), &data_ser).unwrap();
    let inbound_client_data = InboundClientData {
        peer_addr: peer_addr(),
        reception_port: None,
        last_data: false,
        is_clandestine: true,
        sequence_number: None,
        data: data_enc.data,
    };
    let subject = Hopper::new(&cryptde, true);

    let result = subject.handle(HopperMessage::Inbound(inbound_client_data));

    assert_eq!(
        result,
        Err(HopperError::Routing(RoutingError::Rejected(
            Component::Hopper
        )))
    );
}

#[test]
fn accepts_data_for_neighborhood_if_is_bootstrap_node() {
    let cryptde = cryptde();
    let mut route = single_segment_route(
        &cryptde,
        vec![cryptde.public_key(), cryptde.public_key()],
        Component::Neighborhood,
    );
    route.shift(&cryptde).unwrap();
    let payload = PlainData::new(&b"abcd"[..]);
    let lcp = LiveCoresPackage::new(
        route,
        cryptde.encode(&cryptde.public_key(), &payload).unwrap(),
    );
    let data_ser = PlainData::new(&lcp.encode()[..]);
    let data_enc = cryptde.encode(&cryptde.public_key(), &data_ser).unwrap();
    let inbound_client_data = InboundClientData {
        peer_addr: peer_addr(),
        reception_port: None,
        last_data: false,
        is_clandestine: true,
        sequence_number: None,
        data: data_enc.data,
    };
    let subject = Hopper::new(&cryptde, true);

    let record = subject
        .handle(HopperMessage::Inbound(inbound_client_data))
        .unwrap();

    let message = match record {
        Dispatch::ToNeighborhood(m) => m,
        other => panic!("expected a neighborhood delivery, got {:?}", other),
    };
    assert_eq!(message.expired.payload_data(), payload);
    assert_eq!(message.sender_ip, IpAddress(1, 2, 3, 4));
}

#[test]
fn rejects_data_for_non_neighborhood_component_if_is_bootstrap_node() {
    let cryptde = cryptde();
    let mut route = single_segment_route(
        &cryptde,
        vec![cryptde.public_key(), cryptde.public_key()],
        Component::ProxyClient,
    );
    route.shift(&cryptde).unwrap();
    let payload = PlainData::new(&b"abcd"[..]);
    let lcp = LiveCoresPackage::new(
        route,
        cryptde.encode(&cryptde.public_key(), &payload).unwrap(),
    );
    let data_ser = PlainData::new(&lcp.encode()[..]);
    let data_enc = cryptde.encode(&cryptde.public_key(), &data_ser).unwrap();
    let inbound_client_data = InboundClientData {
        peer_addr: peer_addr(),
        reception_port: None,
        last_data: false,
        is_clandestine: true,
        sequence_number: None,
        data: data_enc.data,
    };
    let subject = Hopper::new(&cryptde, true);

    let result = subject.handle(HopperMessage::Inbound(inbound_client_data));

    assert_eq!(
        result,
        Err(HopperError::Routing(RoutingError::Rejected(
            Component::ProxyClient
        )))
    );
}

#[test]
fn passes_on_inbound_client_data_not_meant_for_this_node() {
    let cryptde = cryptde();
    let next_key = Key::new(&[65, 65, 65]);
    let route = single_segment_route(
        &cryptde,
        vec![cryptde.public_key(), next_key.clone()],
        Component::Neighborhood,
    );
    let payload = PlainData::new(&b"abcd"[..]);
    let lcp = LiveCoresPackage::new(route, cryptde.encode(&next_key, &payload).unwrap());
    let lcp_a = lcp.clone();
    let data_ser = PlainData::new(&lcp.encode()[..]);
    let data_enc = cryptde.encode(&cryptde.public_key(), &data_ser).unwrap();
    let inbound_client_data = InboundClientData {
        peer_addr: peer_addr(),
        reception_port: None,
        last_data: true,
        is_clandestine: false,
        sequence_number: None,
        data: data_enc.data,
    };
    let subject = Hopper::new(&cryptde, false);

    let record = subject
        .handle(HopperMessage::Inbound(inbound_client_data))
        .unwrap();

    let expected_lcp = lcp_a.to_next_live(&cryptde).unwrap().1;
    let expected_lcp_ser = PlainData::new(&expected_lcp.encode()[..]);
    let expected_lcp_enc = cryptde.encode(&next_key, &expected_lcp_ser).unwrap();
    assert_eq!(
        record,
        Dispatch::ToDispatcher(TransmitDataMsg {
            endpoint: Endpoint::Key(next_key.clone()),
            last_data: true,
            sequence_number: None,
            data: expected_lcp_enc.data,
        })
    );
}

#[test]
fn zero_hop_package_reaches_the_neighborhood_with_the_payload_it_was_given() {
    let cryptde = cryptde();
    let destination_key = cryptde.public_key();
    let route = single_segment_route(
        &cryptde,
        vec![cryptde.public_key(), cryptde.public_key()],
        Component::Neighborhood,
    );
    let payload = PlainData::new(&b"abcd"[..]);
    let incipient = IncipientCoresPackage::new(route, payload.clone(), &destination_key);
    let subject = Hopper::new(&cryptde, false);

    let loopback = subject.handle(HopperMessage::Incipient(incipient)).unwrap();
    let inbound = match loopback {
        Dispatch::ToHopper(ibcd) => ibcd,
        other => panic!("expected a loopback delivery, got {:?}", other),
    };
    assert!(inbound.is_clandestine);
    assert!(!inbound.last_data);
    assert_eq!(inbound.sequence_number, None);
    // The documented placeholder for a loopback delivery, never a real
    // peer address.
    assert_eq!(inbound.peer_addr, hopper_lib::dispatcher::loopback_placeholder());
    let record = subject.handle(HopperMessage::Inbound(inbound.clone())).unwrap();

    let message = match record {
        Dispatch::ToNeighborhood(m) => m,
        other => panic!("expected a neighborhood delivery, got {:?}", other),
    };
    assert_eq!(message.expired.payload_data(), payload);
}

#[test]
fn bootstrap_node_refuses_to_originate_traffic() {
    let cryptde = cryptde();
    let destination_key = Key::new(&[65, 65, 65]);
    let route = single_segment_route(
        &cryptde,
        vec![cryptde.public_key(), destination_key.clone()],
        Component::Neighborhood,
    );
    let incipient =
        IncipientCoresPackage::new(route, PlainData::new(&b"abcd"[..]), &destination_key);
    let subject = Hopper::new(&cryptde, true);

    let result = subject.handle(HopperMessage::Incipient(incipient));

    assert_eq!(
        result,
        Err(HopperError::Consuming(
            hopper_lib::consuming_service::ConsumingError::BootstrapNode
        ))
    );
}

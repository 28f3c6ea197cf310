use hopper_lib::cryptde::CryptDe;
use hopper_lib::cryptde::CryptData;
use hopper_lib::cryptde::CryptdecError;
use hopper_lib::cryptde::Key;
use hopper_lib::cryptde::PlainData;
use hopper_lib::dispatcher::Component;
use hopper_lib::hop::Hop;
use hopper_lib::route::Route;
use hopper_lib::route::RouteError;
use hopper_lib::route::RouteSegment;

fn engine(key: &[u8]) -> CryptDe {
    CryptDe::from_key(&Key::new(key))
}

#[test]
fn crypto_engine_round_trips_a_payload() {
    let cryptde = engine(b"self");
    let plain = PlainData::new(b"hello");

    let cipher = cryptde.encode(&cryptde.public_key(), &plain).unwrap();
    let recovered = cryptde.decode(&cipher).unwrap();

    assert_eq!(recovered, plain);
}

#[test]
fn crypto_engine_reports_each_error() {
    let cryptde = engine(b"self");

    assert_eq!(
        cryptde.encode(&Key::new(b""), &PlainData::new(b"data")),
        Err(CryptdecError::EmptyKey)
    );
    assert_eq!(
        cryptde.encode(&Key::new(b"peer"), &PlainData::new(b"")),
        Err(CryptdecError::EmptyData)
    );
    assert_eq!(
        cryptde.decode(&CryptData::new(b"")),
        Err(CryptdecError::EmptyData)
    );
    // A ciphertext addressed to another node does not decrypt here.
    let other = engine(b"other");
    let foreign = other
        .encode(&other.public_key(), &PlainData::new(b"data"))
        .unwrap();
    assert_eq!(cryptde.decode(&foreign), Err(CryptdecError::InvalidKey));
}

#[test]
fn construct_rejects_a_segment_with_fewer_than_two_keys() {
    let cryptde = engine(b"self");
    let segments = vec![RouteSegment::new(
        vec![cryptde.public_key()],
        Component::Neighborhood,
    )];

    let result = Route::construct(&segments, &cryptde);

    assert!(matches!(result, Err(RouteError::InvalidSegments)));
}

#[test]
fn construct_rejects_an_empty_segment_list() {
    let cryptde = engine(b"self");

    let result = Route::construct(&vec![], &cryptde);

    assert!(matches!(result, Err(RouteError::InvalidSegments)));
}

#[test]
fn construct_rejects_an_empty_key() {
    let cryptde = engine(b"self");
    let segments = vec![RouteSegment::new(
        vec![cryptde.public_key(), Key::new(b"")],
        Component::Neighborhood,
    )];

    let result = Route::construct(&segments, &cryptde);

    assert!(matches!(result, Err(RouteError::EmptyKey)));
}

#[test]
fn a_route_has_one_hop_per_distinct_stop() {
    let cryptde = engine(b"k0");
    let keys = vec![Key::new(b"k0"), Key::new(b"k1"), Key::new(b"k2")];
    let route = Route::construct(
        &vec![RouteSegment::new(keys, Component::ProxyServer)],
        &cryptde,
    )
    .unwrap();

    assert_eq!(route.hops.len(), 3);
}

#[test]
fn onion_round_trip_reveals_each_hop_to_its_peer_only() {
    // Keys of one length, so every hop ciphertext has the same size.
    let k0 = Key::new(b"peer-000");
    let k1 = Key::new(b"peer-111");
    let k2 = Key::new(b"peer-222");
    let origin = CryptDe::from_key(&k0);
    let mut route = Route::construct(
        &vec![RouteSegment::new(
            vec![k0.clone(), k1.clone(), k2.clone()],
            Component::ProxyServer,
        )],
        &origin,
    )
    .unwrap();

    // At peer k0: an onward hop naming k1.
    let hop0 = route.shift(&CryptDe::from_key(&k0)).unwrap();
    assert_eq!(hop0, Hop::new(&k1, Component::Hopper));
    // At peer k1: an onward hop naming k2.
    let hop1 = route.shift(&CryptDe::from_key(&k1)).unwrap();
    assert_eq!(hop1, Hop::new(&k2, Component::Hopper));
    // At peer k2: the terminal hop naming k2 itself and the component.
    let hop2 = route.shift(&CryptDe::from_key(&k2)).unwrap();
    assert_eq!(hop2, Hop::new(&k2, Component::ProxyServer));
}

#[test]
fn shift_preserves_hop_count_and_uniform_ciphertext_length() {
    let k0 = Key::new(b"peer-000");
    let k1 = Key::new(b"peer-111");
    let origin = CryptDe::from_key(&k0);
    let mut route = Route::construct(
        &vec![RouteSegment::new(
            vec![k0.clone(), k1.clone()],
            Component::Neighborhood,
        )],
        &origin,
    )
    .unwrap();
    let lengths_before: Vec<usize> = route.hops.iter().map(|h| h.data.len()).collect();
    assert_eq!(lengths_before.len(), 2);
    assert_eq!(lengths_before[0], lengths_before[1]);

    route.shift(&origin).unwrap();

    let lengths_after: Vec<usize> = route.hops.iter().map(|h| h.data.len()).collect();
    assert_eq!(lengths_after, lengths_before);
}

#[test]
fn shift_reports_each_error_and_leaves_the_route_alone() {
    let cryptde = engine(b"self");

    let mut empty = Route { hops: vec![] };
    assert!(matches!(
        empty.shift(&cryptde),
        Err(RouteError::EmptyRoute)
    ));

    // A head hop addressed to someone else cannot be decrypted here.
    let other = engine(b"other");
    let foreign_hop = other
        .encode(&other.public_key(), &PlainData::new(b"anything"))
        .unwrap();
    let mut foreign = Route {
        hops: vec![foreign_hop.clone(), foreign_hop.clone()],
    };
    let before = foreign.clone();
    assert!(matches!(
        foreign.shift(&cryptde),
        Err(RouteError::HopDecryptFailure)
    ));
    assert_eq!(foreign, before);

    // A head hop that decrypts to bytes that are no hop encoding.
    let junk_hop = cryptde
        .encode(&cryptde.public_key(), &PlainData::new(b"junk"))
        .unwrap();
    let mut junk = Route {
        hops: vec![junk_hop.clone(), junk_hop.clone()],
    };
    assert!(matches!(
        junk.shift(&cryptde),
        Err(RouteError::HopParseFailure)
    ));
}

#[test]
fn first_hop_peeks_without_consuming() {
    let cryptde = engine(b"self");
    let next = Key::new(&[65, 65, 65]);
    let route = Route::construct(
        &vec![RouteSegment::new(
            vec![cryptde.public_key(), next.clone()],
            Component::Neighborhood,
        )],
        &cryptde,
    )
    .unwrap();
    let before = route.clone();

    let hop = route.first_hop(&cryptde).unwrap();

    assert_eq!(hop, Hop::new(&next, Component::Hopper));
    assert_eq!(route, before);
}

#[test]
fn a_two_segment_route_carries_the_junction_component() {
    let k0 = Key::new(b"origin--");
    let k1 = Key::new(b"exit----");
    let k2 = Key::new(b"return--");
    let origin = CryptDe::from_key(&k0);
    let mut route = Route::construct(
        &vec![
            RouteSegment::new(vec![k0.clone(), k1.clone()], Component::ProxyClient),
            RouteSegment::new(vec![k1.clone(), k2.clone()], Component::ProxyServer),
        ],
        &origin,
    )
    .unwrap();

    assert_eq!(route.hops.len(), 3);
    let hop0 = route.shift(&CryptDe::from_key(&k0)).unwrap();
    assert_eq!(hop0, Hop::new(&k1, Component::Hopper));
    // The junction hop names the next peer of the second leg but carries
    // the first leg's terminal component.
    let hop1 = route.shift(&CryptDe::from_key(&k1)).unwrap();
    assert_eq!(hop1, Hop::new(&k2, Component::ProxyClient));
    let hop2 = route.shift(&CryptDe::from_key(&k2)).unwrap();
    assert_eq!(hop2, Hop::new(&k2, Component::ProxyServer));
}

#[test]
fn signatures_verify_against_the_signer_key_only() {
    let cryptde = engine(b"signer");
    let data = PlainData::new(b"record");

    let signature = cryptde.sign(&data).unwrap();

    assert!(cryptde.verify_signature(&data, &signature, &cryptde.public_key()));
    assert!(!cryptde.verify_signature(&data, &signature, &Key::new(b"someone else")));
    assert!(!cryptde.verify_signature(&PlainData::new(b"tampered"), &signature, &cryptde.public_key()));
}

#[test]
fn a_hop_with_an_unknown_component_tag_is_refused() {
    // A two-element array of an empty key and the tag 4, which names no
    // component.
    let bytes: Vec<u8> = vec![0x82, 0x40, 0x04];

    assert_eq!(hopper_lib::hop::decode_hop(&bytes[..]), None);
}

#[test]
fn chunk_framer_hands_frames_back_in_arrival_order() {
    let mut framer = hopper_lib::framer::Framer::new_chunk();
    framer.add_data(b"first");
    framer.add_data(b"second");

    assert_eq!(framer.take_frame(), Some(b"first".to_vec()));
    assert_eq!(framer.take_frame(), Some(b"second".to_vec()));
    assert_eq!(framer.take_frame(), None);
}

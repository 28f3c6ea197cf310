use hopper_lib::discriminator::Discriminator;
use hopper_lib::discriminator::DiscriminatorFactory;
use hopper_lib::dispatcher::Component;
use hopper_lib::framer::Framer;
use hopper_lib::masquerader::MaskEntry;
use hopper_lib::masquerader::Masquerader;

fn table(entries: Vec<(&[u8], Component, &[u8])>) -> Masquerader {
    Masquerader::Table {
        entries: entries
            .into_iter()
            .map(|(masked, component, unmasked)| {
                MaskEntry::new(masked.to_vec(), component, unmasked.to_vec())
            })
            .collect(),
    }
}

#[test]
fn returns_none_if_no_data_has_been_added() {
    let mut subject = Discriminator::new(
        Framer::new_chunk(),
        vec![Masquerader::Null {
            component: Component::ProxyServer,
        }],
    );

    let result = subject.take_chunk();

    assert_eq!(result, None);
}

#[test]
fn returns_none_if_all_masqueraders_say_no() {
    let first_masquerader = table(vec![(b"other", Component::ProxyServer, b"not booga")]);
    let second_masquerader = table(vec![]);
    let mut subject = Discriminator::new(
        Framer::new_chunk(),
        vec![first_masquerader, second_masquerader],
    );
    subject.add_data(&b"booga"[..]);

    let result = subject.take_chunk();

    assert_eq!(result, None);
}

#[test]
fn returns_first_data_if_all_masqueraders_say_yes() {
    let mut framer = Framer::new_chunk();
    framer.add_data(&b"booga"[..]);
    let first_masquerader = table(vec![(b"booga", Component::ProxyClient, b"choose me")]);
    let second_masquerader = table(vec![(b"booga", Component::ProxyServer, b"don't choose me")]);
    let mut subject =
        Discriminator::new(framer, vec![first_masquerader, second_masquerader]);

    let result = subject.take_chunk();

    assert_eq!(
        result,
        Some((Component::ProxyClient, Vec::from(&b"choose me"[..])))
    );
}

#[test]
fn returns_second_data_if_first_masquerader_says_no() {
    let mut framer = Framer::new_chunk();
    framer.add_data(&b"booga"[..]);
    let first_masquerader = table(vec![]);
    let second_masquerader = table(vec![(b"booga", Component::ProxyServer, b"choose me")]);
    let mut subject =
        Discriminator::new(framer, vec![first_masquerader, second_masquerader]);

    let result = subject.take_chunk();

    assert_eq!(
        result,
        Some((Component::ProxyServer, Vec::from(&b"choose me"[..])))
    );
}

#[test]
fn frame_rejected_by_every_masquerader_is_consumed_and_lost() {
    let mut subject = Discriminator::new(Framer::new_chunk(), vec![table(vec![])]);
    subject.add_data(&b"lost"[..]);

    assert_eq!(subject.take_chunk(), None);
    // The rejected frame is gone: a second pull finds nothing either.
    assert_eq!(subject.take_chunk(), None);
}

#[test]
fn factory_makes_fresh_discriminators_with_the_same_behavior() {
    let factory = DiscriminatorFactory::new(
        Framer::new_chunk(),
        vec![table(vec![(b"frame", Component::Neighborhood, b"inner")])],
    );
    let factory_clone = factory.clone();

    let mut first = factory.make();
    let mut second = factory_clone.make();

    first.add_data(&b"frame"[..]);
    second.add_data(&b"frame"[..]);
    let expected = Some((Component::Neighborhood, Vec::from(&b"inner"[..])));
    assert_eq!(first.take_chunk(), expected);
    assert_eq!(second.take_chunk(), expected);
}

#[test]
fn null_masquerader_accepts_every_frame_unchanged() {
    let mut subject = Discriminator::new(
        Framer::new_chunk(),
        vec![Masquerader::Null {
            component: Component::Hopper,
        }],
    );
    subject.add_data(&b"anything"[..]);

    assert_eq!(
        subject.take_chunk(),
        Some((Component::Hopper, Vec::from(&b"anything"[..])))
    );
}

#[test]
fn masquerader_masks_and_unmasks_a_round_trip() {
    let subject = table(vec![(b"masked bytes", Component::ProxyServer, b"clear bytes")]);

    let masked = subject.mask(Component::ProxyServer, &b"clear bytes"[..]).unwrap();
    assert_eq!(masked, Vec::from(&b"masked bytes"[..]));
    assert_eq!(
        subject.try_unmask(&masked[..]),
        Some((Component::ProxyServer, Vec::from(&b"clear bytes"[..])))
    );
}

#[test]
fn masquerader_mask_refuses_an_unknown_payload() {
    let subject = table(vec![(b"masked bytes", Component::ProxyServer, b"clear bytes")]);

    let result = subject.mask(Component::ProxyClient, &b"clear bytes"[..]);

    assert_eq!(
        result,
        Err(hopper_lib::masquerader::MasqueradeError::NotRepresentable)
    );
}

#[test]
fn length_prefixed_framer_reassembles_across_deliveries() {
    let mut subject = Discriminator::new(
        Framer::new_length_prefixed(),
        vec![Masquerader::Null {
            component: Component::ProxyServer,
        }],
    );
    // Frame of five bytes, announced as [0, 5], delivered in two parts.
    subject.add_data(&[0u8, 5u8, b'h', b'e'][..]);
    assert_eq!(subject.take_chunk(), None);
    subject.add_data(&[b'l', b'l', b'o'][..]);

    assert_eq!(
        subject.take_chunk(),
        Some((Component::ProxyServer, Vec::from(&b"hello"[..])))
    );
}

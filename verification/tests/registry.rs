use rat::packet::Packet;
use rat::protocols::arp::ARPFrame;
use rat::protocols::ethernet::EthernetFrame;
use rat::protocols::icmp::ICMPFrame;
use rat::protocols::ipv4::IPv4Frame;
use rat::protocols::ipv6::IPv6Frame;
use rat::protocols::ospf::OSPFFrame;
use rat::protocols::tcp::TCPFrame;
use rat::protocols::udp::UDPFrame;
use rat::registry::{
    parse_protocol, parse_with_layout, ProtocolId, ProtocolKey, ProtocolRegistry, ProtocolRegistryBuilder,
    RegistryError,
};
use rat::utils::ParseError;

#[test]
fn registry_builder_root() {
    let registry = ProtocolRegistryBuilder::new_with_root::<EthernetFrame>()
        .register::<IPv4Frame>()
        .register::<IPv6Frame>()
        .register::<ARPFrame>()
        .register::<TCPFrame>()
        .build()
        .unwrap();

    assert_eq!(registry.root(), ProtocolId(0));
    assert_eq!(
        registry.resolve(registry.root(), ProtocolKey::new(0x0800)),
        Some(ProtocolId(1))
    );
}

#[test]
fn defaults_route_every_protocol() {
    let registry = ProtocolRegistry::builder().defaults().build().unwrap();
    let root = registry.root();
    assert_eq!(root, ProtocolId(0));
    assert_eq!(registry.len(), 8);
    assert_eq!(registry.resolve(root, ProtocolKey::new(0x0800)), Some(ProtocolId(1)));
    assert_eq!(registry.resolve(root, ProtocolKey::new(0x86dd)), Some(ProtocolId(2)));
    assert_eq!(registry.resolve(root, ProtocolKey::new(0x0806)), Some(ProtocolId(3)));
    assert_eq!(registry.resolve(ProtocolId(1), ProtocolKey::new(1)), Some(ProtocolId(4)));
    assert_eq!(registry.resolve(ProtocolId(1), ProtocolKey::new(89)), Some(ProtocolId(5)));
    assert_eq!(registry.resolve(ProtocolId(1), ProtocolKey::new(6)), Some(ProtocolId(6)));
    assert_eq!(registry.resolve(ProtocolId(1), ProtocolKey::new(17)), Some(ProtocolId(7)));
    // IPv6 has no children, and a selector of another parent does not route.
    assert_eq!(registry.resolve(ProtocolId(2), ProtocolKey::new(6)), None);
    assert_eq!(registry.resolve(root, ProtocolKey::new(6)), None);
    // An id past the registry resolves to nothing.
    assert_eq!(registry.resolve(ProtocolId(40), ProtocolKey::new(0x0800)), None);
    assert_eq!(registry.protocol(ProtocolId(1)).unwrap().tag, IPv4Frame::type_tag());
    assert!(registry.protocol(ProtocolId(8)).is_none());
}

#[test]
fn root_goes_first() {
    let registry = ProtocolRegistry::builder()
        .register::<IPv4Frame>()
        .root::<EthernetFrame>()
        .build()
        .unwrap();
    assert_eq!(registry.root(), ProtocolId(0));
    assert_eq!(registry.resolve(ProtocolId(0), ProtocolKey::new(0x0800)), Some(ProtocolId(1)));
}

#[test]
fn empty_builder_has_no_root() {
    let mut builder = ProtocolRegistryBuilder::default();
    assert!(matches!(builder.build(), Err(RegistryError::MissingRoot)));
    let mut builder = ProtocolRegistry::builder();
    builder.register::<IPv4Frame>().register::<TCPFrame>();
    // IPv4's parent, Ethernet, is missing.
    match builder.build() {
        Err(RegistryError::MissingParent(name)) => assert_eq!(name, "IPv4Frame"),
        other => panic!("unexpected {:?}", other.map(|r| r.len())),
    }
}

#[test]
fn repeated_protocol_counts_once() {
    let mut builder = ProtocolRegistry::builder();
    builder.root::<EthernetFrame>().register::<IPv4Frame>().register::<IPv4Frame>();
    let registry = builder.build().unwrap();
    assert_eq!(registry.len(), 2);
    assert_eq!(registry.resolve(ProtocolId(0), ProtocolKey::new(0x0800)), Some(ProtocolId(1)));
}

#[test]
fn readme_example_builds() {
    let registry = ProtocolRegistry::builder()
        .defaults()
        .register::<OSPFFrame>()
        .build()
        .expect("Failed to build ProtocolRegistry");
    assert_eq!(registry.len(), 8);
    assert_eq!(registry.resolve(ProtocolId(1), ProtocolKey::new(89)), Some(ProtocolId(5)));
}

#[test]
fn building_twice_gives_the_same_registry() {
    let mut builder = ProtocolRegistryBuilder::new_with_root::<EthernetFrame>();
    builder.register::<IPv4Frame>();
    let first = builder.build().unwrap();
    let second = builder.build().unwrap();
    assert_eq!(first.len(), 2);
    assert_eq!(second.len(), 2);
    assert_eq!(second.root(), ProtocolId(0));
    assert_eq!(second.resolve(ProtocolId(0), ProtocolKey::new(0x0800)), Some(ProtocolId(1)));
}

#[test]
fn too_many_protocols() {
    let mut builder = ProtocolRegistry::builder();
    for _ in 0..65536 {
        builder.register::<UDPFrame>();
    }
    assert!(matches!(builder.build(), Err(RegistryError::TooManyProtocols { max: 65535 })));
}

#[test]
fn repeat_does_not_hide_a_missing_parent() {
    // ICMP lacks its parent; IPv6 added twice counts once.
    let mut builder = ProtocolRegistry::builder();
    builder.register::<ICMPFrame>().register::<IPv6Frame>().register::<IPv6Frame>();
    match builder.build() {
        Err(RegistryError::MissingParent(name)) => assert_eq!(name, "ICMPFrame"),
        other => panic!("unexpected {:?}", other.map(|r| r.len())),
    }
}

#[test]
fn ids_and_keys_as_text() {
    assert_eq!(ProtocolId(31).to_string(), "0x1F");
    assert_eq!(ProtocolId(0).to_string(), "0x0");
    assert_eq!(ProtocolKey::new(2048).to_string(), "2048");
    assert_eq!(ProtocolId(7).index(), 7);
    assert_eq!(ProtocolKey::new(17).get(), 17);
}

fn ipv4_packet() -> Vec<u8> {
    let mut p = vec![0x45, 0x00, 0x00, 0x1c, 0x12, 0x34, 0x40, 0x00, 0x40, 0x11, 0xab, 0xcd, 10, 0, 0, 1, 10, 0, 0, 2];
    p.extend_from_slice(&[0x04, 0xd2, 0x00, 0x35, 0x00, 0x08, 0x00, 0x00]);
    p
}

#[test]
fn typed_and_layout_parsing_agree() {
    let p = ipv4_packet();
    let a = parse_protocol::<IPv4Frame>(&p).unwrap();
    let b = parse_with_layout(&IPv4Frame::layout(), &p).unwrap();
    assert_eq!(a, b);
    assert_eq!(a.header_len, 20);
    assert_eq!(a.packet_len, 28);
    assert_eq!(a.next, Some(ProtocolKey::new(17)));
    // IPv4 states no packet length: the packet is all of the data, padding too.
    let mut longer = p.clone();
    longer.push(0);
    let l = parse_protocol::<IPv4Frame>(&longer).unwrap();
    assert_eq!((l.header_len, l.packet_len), (20, 29));
    assert_eq!(parse_with_layout(&IPv4Frame::layout(), &longer), Ok(l));
    // Too short for the header.
    assert_eq!(parse_protocol::<IPv4Frame>(&p[..19]), Err(ParseError::InvalidValue));
    // No length field: the packet is all of the data.
    let u = parse_protocol::<UDPFrame>(&p[20..]).unwrap();
    assert_eq!((u.header_len, u.packet_len, u.next), (8, 8, None));
    let o = parse_protocol::<OSPFFrame>(&[0u8; 30]).unwrap();
    assert_eq!((o.header_len, o.packet_len), (24, 30));
    let a = parse_protocol::<ARPFrame>(&[0u8; 28]).unwrap();
    assert_eq!((a.header_len, a.packet_len, a.next), (28, 28, None));
}

#[test]
fn ihl_sets_header_length() {
    let mut p = ipv4_packet();
    p[0] = 0x46; // six words: longer than the data's 28 bytes is fine, but not the packet length
    let m = parse_protocol::<IPv4Frame>(&p).unwrap();
    assert_eq!(m.header_len, 24);
    p[0] = 0x4f; // fifteen words: 60 bytes, more than the packet
    assert_eq!(parse_protocol::<IPv4Frame>(&p), Err(ParseError::InvalidValue));
}

#[test]
fn keys_compare_by_value() {
    assert!(ProtocolKey::new(3) < ProtocolKey::new(5));
    assert!(ProtocolKey::new(0x86dd) > ProtocolKey::new(0x0800));
    assert_eq!(ProtocolKey::new(17), ProtocolKey::new(17));
    assert_ne!(ProtocolKey::new(17), ProtocolKey::new(6));
    assert_eq!(ProtocolKey::new(1).partial_cmp(&ProtocolKey::new(1)), Some(std::cmp::Ordering::Equal));
}

use bytes::Bytes;
use rat::packet::Packet;
use rat::parser::Parser;
use rat::protocols::ethernet::EthernetFrame;
use rat::protocols::ipv4::IPv4Frame;
use rat::protocols::tcp::TCPFrame;
use rat::protocols::udp::UDPFrame;
use rat::registry::{ProtocolId, ProtocolRegistry};
use rat::utils::ParseError;

#[test]
fn parser() {}

#[test]
fn header_len_defined_with_macro() {
    let registry = ProtocolRegistry::builder()
        .root::<EthernetFrame>()
        .register::<IPv4Frame>()
        .build()
        .unwrap();

    let parser = Parser::new(registry);

    let packet = Bytes::from_owner(b"&\xf1\x16\xd3A\xf2([\x0c8i\x15\x08\0E\0\0\xae\0\0@\07\x11\xb5\xef\xa2\x9f\xc6\x02\xc0\xa8d\x05\x01\xbb\xc8\xcc\0\x9ai\x81[ \xa6\x0euVjF\x99\x8bK+\xd6\x0feV\xd8\x9fR\xc0i\x8f\xadI|W\xe2\xf0Y\xf7\xe5\x0c\x13\x0c\xb3TM5\x03\x98SCN\xafk\xeaP\xbf\xdc\xf8\"\xd2\xb9%D\x1dR\x06~\xa2h^\xeel\xd2\xd7\x19\xfe\xf6\xed\x14!\x84\x03\x01\x0c\x14\x8c\xc7w,\xd8\xf3\xf4\x839\x8em~\x1c\x8fq*\xc4]JZ\xe8c\x95\xaf\xb37\xf1sOPb\xa9\xc3\xc0\x18L\xba\xaa\xeb5\x05\x8d\xaf\xcb\xa6\x8e\xc1o\x8bE\xae\"\xa7\x89X\xd6\x01\xb6\"$\x9b\xd3\xe5\x08\xf3\xd1B\xf8\x13");

    let mut layers = parser.parse(packet);
    let mut found = false;
    while let Some(layer) = layers.next() {
        let layer = layer.unwrap();

        if let Some(ipv4) = layer.get::<IPv4Frame>() {
            assert_eq!(ipv4.header_len(), ((ipv4.version_ihl & 0x0f) * 4) as usize);
            found = true;
            break;
        }
    }
    assert!(found);
}

fn frame() -> Vec<u8> {
    let mut f = vec![
        0x26, 0xf1, 0x16, 0xd3, 0x41, 0xf2, 0x28, 0x5b, 0x0c, 0x38, 0x69, 0x15, 0x08, 0x00,
    ];
    f.extend_from_slice(&[
        0x45, 0x00, 0x00, 0x1c, 0x12, 0x34, 0x40, 0x00, 0x40, 0x11, 0xab, 0xcd, 10, 0, 0, 1, 10, 0, 0, 2,
    ]);
    f.extend_from_slice(&[0x04, 0xd2, 0x00, 0x35, 0x00, 0x08, 0xbe, 0xef]);
    f
}

#[test]
fn walks_ethernet_ipv4_udp() {
    let registry = ProtocolRegistry::builder().defaults().build().unwrap();
    let parser = Parser::new(registry);
    let mut layers = parser.parse(Bytes::from(frame()));

    let eth = layers.next().unwrap().unwrap();
    assert_eq!(eth.protocol(), ProtocolId(0));
    assert!(eth.is::<EthernetFrame>());
    assert!(!eth.is::<IPv4Frame>());
    assert_eq!(eth.data().len(), 42);
    assert_eq!(eth.header().len(), 14);
    assert_eq!(eth.payload().len(), 28);
    let e = eth.get::<EthernetFrame>().unwrap();
    assert_eq!(e.ty, 0x0800);
    assert_eq!(*e.dst.octets(), [0x26, 0xf1, 0x16, 0xd3, 0x41, 0xf2]);
    assert!(eth.get::<IPv4Frame>().is_none());

    let ip = layers.next().unwrap().unwrap();
    assert_eq!(ip.protocol(), ProtocolId(1));
    assert_eq!(ip.data(), &frame()[14..]);
    let v4 = ip.get::<IPv4Frame>().unwrap();
    assert_eq!(v4.total_length, 28);
    assert_eq!(v4.protocol, 17);
    assert_eq!(v4.source_address.octets(), [10, 0, 0, 1]);
    assert_eq!(v4.destination_address.to_string(), "10.0.0.2");

    let udp = layers.next().unwrap().unwrap();
    assert_eq!(udp.protocol(), ProtocolId(7));
    let u = udp.get::<UDPFrame>().unwrap();
    assert_eq!((u.src, u.dst, u.lenght, u.checksum), (1234, 53, 8, 0xbeef));
    assert!(udp.get::<TCPFrame>().is_none());
    assert!(udp.payload().is_empty());

    assert!(layers.next().is_none());
    assert!(layers.next().is_none());
}

#[test]
fn short_frame_is_an_error_and_ends_the_walk() {
    let registry = ProtocolRegistry::builder().defaults().build().unwrap();
    let parser = Parser::new(registry);
    let mut layers = parser.parse(Bytes::from(vec![1u8, 2, 3]));
    assert!(matches!(layers.next(), Some(Err(ParseError::InvalidValue))));
    assert!(layers.next().is_none());
}

#[test]
fn padding_stays_in_the_ipv4_packet() {
    let registry = ProtocolRegistry::builder().defaults().build().unwrap();
    let parser = Parser::new(registry);
    let mut f = frame();
    f.push(0); // Ethernet padding after the UDP datagram
    let mut layers = parser.parse(Bytes::from(f));
    assert!(layers.next().unwrap().is_ok());
    let ip = layers.next().unwrap().unwrap();
    assert_eq!(ip.data().len(), 29);
    assert_eq!(ip.payload().len(), 9);
    let udp = layers.next().unwrap().unwrap();
    assert_eq!(udp.data().len(), 9);
    assert!(layers.next().is_none());
}

#[test]
fn unknown_ethertype_ends_after_ethernet() {
    let registry = ProtocolRegistry::builder().defaults().build().unwrap();
    let parser = Parser::new(registry);
    let mut f = frame();
    f[12] = 0x88;
    f[13] = 0xcc;
    let mut layers = parser.parse(Bytes::from(f));
    let eth = layers.next().unwrap().unwrap();
    assert_eq!(eth.payload().len(), 28);
    assert!(layers.next().is_none());
}

#[test]
fn get_is_the_parse_of_the_header() {
    let registry = ProtocolRegistry::builder().defaults().build().unwrap();
    let parser = Parser::new(registry);
    let mut layers = parser.parse(Bytes::from(frame()));
    let eth = layers.next().unwrap().unwrap();
    assert_eq!(eth.get::<EthernetFrame>(), EthernetFrame::parse(eth.header()).ok());
    let ip = layers.next().unwrap().unwrap();
    assert_eq!(ip.get::<IPv4Frame>(), IPv4Frame::parse(ip.header()).ok());
    assert_eq!(ip.get::<UDPFrame>(), None);
    let udp = layers.next().unwrap().unwrap();
    assert_eq!(udp.get::<UDPFrame>(), UDPFrame::parse(udp.header()).ok());
    // The walk yields no more than one item per byte, plus one.
    let mut count = 0;
    let mut walk = parser.parse(Bytes::from(frame()));
    while walk.next().is_some() {
        count += 1;
    }
    assert_eq!(count, 3);
}

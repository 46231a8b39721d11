use bytes::Bytes;
use rat::addrs::IPv6Addr;
use rat::format::{render_frame, FieldFormat, FieldKind};
use rat::packet::Packet;
use rat::parser::Parser;
use rat::protocols::ipv4::IPv4Frame;
use rat::protocols::ipv6::IPv6Frame;
use rat::protocols::udp::UDPFrame;
use rat::registry::{format_protocol, ProtocolRegistry};
use rat::utils::ParseError;

fn frame() -> Vec<u8> {
    let mut f = vec![
        0x26, 0xf1, 0x16, 0xd3, 0x41, 0xf2, 0x28, 0x5b, 0x0c, 0x38, 0x69, 0x15, 0x08, 0x00,
    ];
    f.extend_from_slice(&[
        0x45, 0x00, 0x00, 0x1c, 0x12, 0x34, 0x40, 0x00, 0x40, 0x11, 0xab, 0xcd, 10, 0, 0, 1, 10, 0, 0, 2,
    ]);
    f.extend_from_slice(&[0x04, 0xd2, 0x00, 0x35, 0x00, 0x08, 0xbe, 0xef]);
    f
}

#[test]
fn layers_print_their_fields() {
    let registry = ProtocolRegistry::builder().defaults().build().unwrap();
    let parser = Parser::new(registry);
    let mut layers = parser.parse(Bytes::from(frame()));

    let eth = layers.next().unwrap().unwrap();
    assert_eq!(
        eth.to_string().unwrap(),
        "▼ EthernetFrame\n    Dst: 26:F1:16:D3:41:F2\n    Src: 28:5B:0C:38:69:15\n    Ty:  2048\n"
    );
    let ip = layers.next().unwrap().unwrap();
    assert_eq!(
        ip.to_string().unwrap(),
        "▼ IPv4Frame\n    Version IHL:         69\n    TOS:                 0\n    Total Length:        28\n    ID:                  4660\n    Flags Fragment:      16384\n    Time To Live:        64\n    Protocol:            17\n    Checksum:            43981\n    Source Address:      10.0.0.1\n    Destination Address: 10.0.0.2\n"
    );
    let udp = layers.next().unwrap().unwrap();
    assert_eq!(
        udp.to_string().unwrap(),
        "▼ UDPFrame\n    Source Port:      1234\n    Destination Port: 53\n    Length:           8\n    Checksum:         48879\n"
    );
    assert!(layers.next().is_none());
}

#[test]
fn short_header_has_no_text() {
    // IHL of four words: a 16-byte header, shorter than the 20 bytes IPv4 reads.
    let mut f = frame();
    f[14] = 0x44;
    let registry = ProtocolRegistry::builder().defaults().build().unwrap();
    let parser = Parser::new(registry);
    let mut layers = parser.parse(Bytes::from(f));
    let _eth = layers.next().unwrap().unwrap();
    let ip = layers.next().unwrap().unwrap();
    assert_eq!(ip.header().len(), 16);
    assert_eq!(ip.to_string(), Err(ParseError::InvalidValue));
}

#[test]
fn render_pads_labels_to_the_longest() {
    let fields = vec![
        FieldFormat { label: "A", offset: 0, kind: FieldKind::Number { width: 1 } },
        FieldFormat { label: "Longer", offset: 1, kind: FieldKind::Number { width: 8 } },
        FieldFormat { label: "Addr", offset: 9, kind: FieldKind::IPv4 },
    ];
    let bytes = [7u8, 0, 0, 0, 0, 0, 0, 1, 0, 192, 168, 0, 1];
    assert_eq!(
        render_frame("Test", &fields, &bytes),
        "▼ Test\n    A:      7\n    Longer: 256\n    Addr:   192.168.0.1\n"
    );
    assert_eq!(render_frame("Empty", &Vec::new(), &bytes), "▼ Empty\n");
}

fn v6(groups: [u16; 8]) -> String {
    let mut o = [0u8; 16];
    for (i, g) in groups.iter().enumerate() {
        o[2 * i] = (g >> 8) as u8;
        o[2 * i + 1] = (g & 0xff) as u8;
    }
    IPv6Addr::from_octets(o).to_string()
}

#[test]
fn ipv6_text_forms() {
    assert_eq!(v6([0; 8]), "::");
    assert_eq!(v6([0, 0, 0, 0, 0, 0, 0, 1]), "::1");
    assert_eq!(v6([0x2001, 0xdb8, 0, 0, 0, 0, 0, 1]), "2001:db8::1");
    assert_eq!(v6([0xfe80, 0, 0, 0, 0, 0, 0, 0]), "fe80::");
    // The first of two equally long runs is the one shortened.
    assert_eq!(v6([1, 0, 0, 2, 0, 0, 3, 4]), "1::2:0:0:3:4");
    // A longer later run wins.
    assert_eq!(v6([1, 0, 0, 2, 0, 0, 0, 4]), "1:0:0:2::4");
    // A single zero group is written out.
    assert_eq!(v6([1, 0, 2, 3, 4, 5, 6, 7]), "1:0:2:3:4:5:6:7");
    assert_eq!(v6([0xabcd, 0xef01, 0x2345, 0x6789, 0xabcd, 0xef01, 0x2345, 0x6789]), "abcd:ef01:2345:6789:abcd:ef01:2345:6789");
    // IPv4-mapped addresses end in dotted decimal.
    assert_eq!(v6([0, 0, 0, 0, 0, 0xffff, 0xc0a8, 0x0001]), "::ffff:192.168.0.1");
    assert_eq!(v6([0x2001, 0xdb8, 0, 0, 1, 0, 0, 1]), "2001:db8::1:0:0:1");
    assert_eq!(v6([0, 0, 1, 0, 0, 0, 0, 0]), "0:0:1::");
    assert_eq!(v6([0, 0, 0, 0, 0, 0xffff, 0, 0]), "::ffff:0.0.0.0");
}

#[test]
fn protocol_text_from_bytes() {
    let udp = [0x04, 0xd2, 0x00, 0x35, 0x00, 0x08, 0xbe, 0xef, 0x99];
    assert_eq!(
        format_protocol::<UDPFrame>(&udp).unwrap(),
        "▼ UDPFrame\n    Source Port:      1234\n    Destination Port: 53\n    Length:           8\n    Checksum:         48879\n"
    );
    assert_eq!(format_protocol::<UDPFrame>(&udp[..7]), Err(ParseError::InvalidValue));
}

#[test]
fn layer_text_is_its_protocols_text() {
    let registry = ProtocolRegistry::builder().defaults().build().unwrap();
    let parser = Parser::new(registry);
    let mut layers = parser.parse(Bytes::from(frame()));
    let _eth = layers.next().unwrap().unwrap();
    let _ip = layers.next().unwrap().unwrap();
    let udp = layers.next().unwrap().unwrap();
    assert_eq!(udp.to_string().unwrap(), format_protocol::<UDPFrame>(udp.header()).unwrap());
}

#[test]
fn typed_headers_print_as_their_bytes() {
    let f = frame();
    let ip = IPv4Frame::parse(&f[14..]).unwrap();
    assert_eq!(ip.to_string(), format_protocol::<IPv4Frame>(&f[14..]).unwrap());
    let udp = UDPFrame::parse(&f[34..]).unwrap();
    assert_eq!(
        udp.to_string(),
        "▼ UDPFrame\n    Source Port:      1234\n    Destination Port: 53\n    Length:           8\n    Checksum:         48879\n"
    );

    let mut v6 = vec![0x60, 0, 0, 0, 0, 8, 17, 64];
    v6.extend_from_slice(&[0x20, 0x01, 0x0d, 0xb8, 0, 0, 0, 0, 0, 0, 0, 0, 0, 0, 0, 1]);
    v6.extend_from_slice(&[0xfe, 0x80, 0, 0, 0, 0, 0, 0, 0, 0, 0, 0, 0, 0, 0, 2]);
    let h = IPv6Frame::parse(&v6).unwrap();
    assert_eq!(
        h.to_string(),
        "▼ IPv6Frame\n    Version Tc Flow:     1610612736\n    Payload Length:      8\n    Next Header:         17\n    Hop Limit:           64\n    Source Address:      2001:db8::1\n    Destination Address: fe80::2\n"
    );
    assert_eq!(h.to_string(), format_protocol::<IPv6Frame>(&v6).unwrap());
}

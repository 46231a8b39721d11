use rat::addrs::{str_to_ifname, IPv4Addr, IPv6Addr, MacAddr};
use rat::packet::Packet;
use rat::packets::ethernet::{EtherType, ETHER_HDR_LEN};
use rat::protocols::arp::ARPFrame;
use rat::protocols::ipv6::IPv6Frame;
use rat::protocols::tcp::TCPFrame;
use rat::rat_rs::binding::packets::{RatEthernetHeader, RatIpHeader, RatTcpHeader, RatUdpHeader};
use rat::rat_rs::binding::{find_device, RatDevice, TimeVal};
use rat::rat_rs::packets::{
    EthernetHeader, IpHeader, Packet as CapturedPacket, PacketHeader, ParsedPacket, TcpHeader, TransportHeader,
    UdpHeader,
};
use rat::utils::ParseError;
use rat::wire::u16_from_be;

#[test]
fn it_works() {}

#[test]
fn addresses() {
    let a = IPv4Addr::new(192, 168, 0, 1);
    assert_eq!(a.octets(), [192, 168, 0, 1]);
    assert_eq!(a.to_string(), "192.168.0.1");
    let m = MacAddr::new([0x0a, 0x1b, 0x2c, 0x3d, 0x4e, 0xff]);
    assert_eq!(m.to_string(), "0A:1B:2C:3D:4E:FF");
    assert_eq!(*m.octets(), [0x0a, 0x1b, 0x2c, 0x3d, 0x4e, 0xff]);
    assert_eq!(m.bytes(), [0x0a, 0x1b, 0x2c, 0x3d, 0x4e, 0xff]);
    assert_eq!(MacAddr::new([0; 6]).to_string(), "00:00:00:00:00:00");
    let v6 = IPv6Addr::from_octets([1; 16]);
    assert_eq!(*v6.octets(), [1; 16]);
}

#[test]
fn interface_names() {
    let buf = str_to_ifname("en1").unwrap();
    assert_eq!(&buf[..4], &[101, 110, 49, 0]);
    assert!(buf[3..].iter().all(|&c| c == 0));
    assert_eq!(
        str_to_ifname("abcdefghijklmno").unwrap(),
        [97, 98, 99, 100, 101, 102, 103, 104, 105, 106, 107, 108, 109, 110, 111, 0]
    );
    let err = str_to_ifname("abcdefghijklmnop").unwrap_err();
    assert_eq!(err.kind(), std::io::ErrorKind::InvalidInput);
    let high = str_to_ifname("\u{e9}").unwrap();
    assert_eq!(high[0], 0xc3u8 as i8);
    assert_eq!(high[1], 0xa9u8 as i8);
}

#[test]
fn ether_types() {
    assert_eq!(EtherType::from(0x0800), EtherType::IP);
    assert_eq!(EtherType::from(0x86dd), EtherType::IPv6);
    assert_eq!(EtherType::from(0x9000), EtherType::Loopback);
    assert_eq!(EtherType::from(0x1234), EtherType::Unknown(0x1234));
    assert_eq!(EtherType::IP.to_string(), "IPv4");
    assert_eq!(EtherType::Vlan.to_string(), "802.1Q VLAN");
    assert_eq!(EtherType::Unknown(4660).to_string(), "Unknown(4660)");
    assert_eq!(ETHER_HDR_LEN, 14);
}

#[test]
fn frames_read_big_endian_fields() {
    let mut tcp = vec![0x01, 0xbb, 0xc8, 0xcc, 0, 0, 0, 1, 0, 0, 1, 0, 0x50, 0x18, 0x01, 0xf5, 0xab, 0xcd, 0, 0];
    let t = TCPFrame::parse(&tcp).unwrap();
    assert_eq!((t.source_port, t.destination_port), (443, 51404));
    assert_eq!((t.sequence_number, t.acknowledgment_number), (1, 256));
    assert_eq!((t.reserved, t.flags, t.window_size, t.checksum), (0x50, 0x18, 501, 0xabcd));
    assert_eq!(t.header_len(), 20);
    assert_eq!(t.next_selector(), None);
    tcp.pop();
    assert_eq!(TCPFrame::parse(&tcp), Err(ParseError::InvalidValue));

    let mut v6 = vec![0x60, 0, 0, 0, 0, 8, 17, 64];
    v6.extend_from_slice(&[0xfe; 16]);
    v6.extend_from_slice(&[0x01; 16]);
    let f = IPv6Frame::parse(&v6).unwrap();
    assert_eq!(f.version_tc_flow, 0x6000_0000);
    assert_eq!(f.payload_length, 8);
    assert_eq!(f.next_selector(), Some(17));
    assert_eq!(*f.dst_addr.octets(), [1; 16]);

    let arp = [0, 1, 8, 0, 6, 4, 0, 2, 1, 2, 3, 4, 5, 6, 10, 0, 0, 1, 7, 8, 9, 10, 11, 12, 10, 0, 0, 2];
    let a = ARPFrame::parse(&arp).unwrap();
    assert_eq!(a.operation, 2);
    assert_eq!(a.sender_ip_address.to_string(), "10.0.0.1");
    assert_eq!(a.target_hardware_address.to_string(), "07:08:09:0A:0B:0C");
}

#[test]
fn clock_text() {
    assert_eq!(TimeVal::new(3661, 5).to_string(), "01:01:01.000005");
    assert_eq!(TimeVal::new(86400 + 59, 999999).to_string(), "00:00:59.999999");
    assert_eq!(TimeVal::new(-1, 0).to_string(), "07:00:15.000000");
    assert_eq!(TimeVal::new(3661, 5).clock(), (1, 1, 1, 5));
}

#[test]
fn captured_headers_convert_from_network_order() {
    let eth = RatEthernetHeader { dhost: [1; 6], shost: [2; 6], ether_type: 0x0800u16.to_be() };
    let e = EthernetHeader::from(eth);
    assert_eq!((e.source, e.destination, e.ethertype), ([2; 6], [1; 6], 0x0800));
    let ip = RatIpHeader {
        version_ihl: 0x45,
        tos: 0,
        total_length: 20u16.to_be(),
        id: 0,
        flags_fragment: 0,
        ttl: 64,
        protocol: 6,
        checksum: 0,
        src_addr: 0x0a000001u32.to_be(),
        dst_addr: 0x0a000002u32.to_be(),
    };
    let i = IpHeader::from(ip);
    assert_eq!((i.src, i.dst, i.protocol, i.ttl), (0x0a000001, 0x0a000002, 6, 64));
    let tcp = RatTcpHeader {
        src_port: 443u16.to_be(),
        dst_port: 8080u16.to_be(),
        seq_num: 7u32.to_be(),
        ack_num: 9u32.to_be(),
        data_offset_reserved: 0x50,
        flags: 0x12,
        window_size: 0,
        checksum: 0,
        urgent_ptr: 0,
    };
    let udp = RatUdpHeader { src_port: 53u16.to_be(), dst_port: 5353u16.to_be(), length: 8u16.to_be(), checksum: 0 };
    let t = TcpHeader::from(tcp);
    assert_eq!((t.src_port, t.dst_port, t.seq, t.ack, t.flags), (443, 8080, 7, 9, 0x12));
    let u = UdpHeader::from(udp);
    assert_eq!((u.src_port, u.dst_port, u.length), (53, 5353, 8));
    assert_eq!(u16_from_be(u16_from_be(0x1234)), 0x1234);
    assert_eq!(u16_from_be(0x1234u16.to_be()), 0x1234);

    let p = ParsedPacket::from_parts(
        TimeVal::new(1, 2),
        vec![9, 9, 9],
        Some(eth),
        None,
        Some(ip),
        Some(tcp),
        Some(udp),
        vec![7],
    );
    let hs = p.headers();
    assert_eq!(hs.len(), 3);
    assert!(matches!(hs[0], PacketHeader::Ethernet(_)));
    assert!(matches!(hs[1], PacketHeader::Ip(_)));
    assert!(matches!(hs[2], PacketHeader::Transport(TransportHeader::Tcp(_))));
    assert_eq!(p.raw_data(), &[9, 9, 9]);
    assert_eq!(p.payload(), &[7]);
    assert_eq!(p.timestamp().to_string(), "00:00:01.000002");

    let q = ParsedPacket::from_parts(TimeVal::new(0, 0), vec![], None, None, None, None, Some(udp), vec![]);
    assert!(matches!(q.headers()[0], PacketHeader::Transport(TransportHeader::Udp(_))));
}

fn device(name: &str, mtu: u32) -> RatDevice {
    let mut n = [0u8; 16];
    n[..name.len()].copy_from_slice(name.as_bytes());
    RatDevice { name: n, mtu }
}

#[test]
fn devices_are_found_by_name() {
    let devices = [device("lo0", 16384), device("en0", 1500), device("en0", 9000), device("en1", 1500)];
    assert!(devices[1].is_named("en0"));
    assert!(!devices[1].is_named("en"));
    assert!(!devices[1].is_named("en00"));
    assert_eq!(find_device(&devices, 4, "en0"), Some(1));
    assert_eq!(find_device(&devices, 4, "en1"), Some(3));
    // Only the first `found` devices count.
    assert_eq!(find_device(&devices, 3, "en1"), None);
    assert_eq!(find_device(&devices, 40, "wlan0"), None);
    // A name of all sixteen bytes has no terminator and is compared whole.
    let full = device("abcdefghijklmnop", 1);
    assert!(full.is_named("abcdefghijklmnop"));
}

#[test]
fn mac_from_octets() {
    let m = MacAddr::from([0xde, 0xad, 0xbe, 0xef, 0x00, 0x01]);
    assert_eq!(m.to_string(), "DE:AD:BE:EF:00:01");
    assert_eq!(m.bytes(), [0xde, 0xad, 0xbe, 0xef, 0x00, 0x01]);
}

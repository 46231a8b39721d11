use rat::addrs::{IPv4Addr, IPv6Addr, NetworkInterfaceComp, NetworkInterfaceMap, SockAddr};

fn v4(a: u8, b: u8, c: u8, d: u8) -> Option<SockAddr> {
    Some(SockAddr::IpV4(IPv4Addr::new(a, b, c, d)))
}

fn link_local() -> Option<SockAddr> {
    let mut o = [0u8; 16];
    o[0] = 0xfe;
    o[1] = 0x80;
    o[15] = 1;
    Some(SockAddr::IpV6(IPv6Addr::from_octets(o)))
}

fn sample() -> NetworkInterfaceMap {
    NetworkInterfaceMap::from_entries(vec![
        (
            "en0".to_string(),
            NetworkInterfaceComp {
                address: v4(192, 168, 1, 2),
                netmask: v4(255, 255, 255, 0),
                destination: v4(192, 168, 1, 255),
            },
        ),
        ("lo0".to_string(), NetworkInterfaceComp { address: None, netmask: None, destination: None }),
        ("en0".to_string(), NetworkInterfaceComp { address: link_local(), netmask: None, destination: None }),
    ])
}

#[test]
fn entries_are_grouped_by_name() {
    let map = sample();
    assert!(map.contains_interface("en0"));
    assert!(map.contains_interface("lo0"));
    assert!(!map.contains_interface("en1"));
    let en0 = map.get_components("en0").unwrap();
    assert_eq!(en0.len(), 2);
    assert!(matches!(en0[1].address, Some(SockAddr::IpV6(_))));
    assert_eq!(map.get_components("lo0").unwrap().len(), 1);
    assert!(map.get_components("wlan0").is_none());
}

#[test]
fn map_as_text() {
    assert_eq!(
        sample().to_string(),
        "en0\n    inet  192.168.1.2  netmask 255.255.255.0  broadcast 192.168.1.255\n    inet6 fe80::1\nlo0\n    inet  <none>\n"
    );
    assert_eq!(NetworkInterfaceMap::from_entries(Vec::new()).to_string(), "");
}

#[test]
fn addresses_as_text() {
    assert_eq!(v4(10, 0, 0, 1).unwrap().to_string(), "10.0.0.1");
    assert_eq!(link_local().unwrap().to_string(), "fe80::1");
}

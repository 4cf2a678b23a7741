use ipnetwork::{Ipv4Network, Ipv6Network};
use moblink_rust::address::{
    find_ipv4, parse_octet, parse_socket_addr, AddressError, IpAddress, Ipv4Address, Ipv6Address,
    SocketAddress,
};

fn v6(segments: [u16; 8]) -> IpAddress {
    let [s0, s1, s2, s3, s4, s5, s6, s7] = segments;
    IpAddress::V6(Ipv6Address { s0, s1, s2, s3, s4, s5, s6, s7 })
}

#[test]
fn ipv4_addresses_are_written_in_dot_decimal_notation() {
    assert_eq!(Ipv4Address::new(192, 168, 1, 10).to_text(), "192.168.1.10");
    assert_eq!(Ipv4Address::new(0, 0, 0, 0).to_text(), "0.0.0.0");
    assert_eq!(Ipv4Address::new(255, 255, 255, 255).to_text(), "255.255.255.255");
}

#[test]
fn ipv4_addresses_are_read_as_they_are_written() {
    for a in [0u8, 9, 10, 99, 100, 255] {
        for d in [0u8, 1, 42, 199, 254] {
            let address = Ipv4Address::new(a, d, a, d);
            assert_eq!(Ipv4Address::parse(&address.to_text()), Some(address));
        }
    }
}

#[test]
fn ipv4_parse_agrees_with_another_parser() {
    for text in [
        "10.0.0.1", "127.0.0.1", "1.2.3", "1.2.3.4.5", "", ".", "...", "1..2.3", "01.2.3.4",
        "1.2.3.04", "256.1.1.1", "1.1.1.256", "1.1.1.1000", "a.b.c.d", " 1.2.3.4", "1.2.3.4 ",
        "+1.2.3.4", "-1.2.3.4", "1.2.3.4\n", "0.0.0.0", "00.0.0.0", "255.255.255.255", "::1",
        "1.2.3.4:80", "1,2,3,4", "1.2.3.", ".1.2.3", "\u{661}.2.3.4",
    ] {
        let expected = text.parse::<Ipv4Network>().ok().map(|network| network.ip().octets());
        let got = Ipv4Address::parse(text).map(|address| [address.a, address.b, address.c, address.d]);
        assert_eq!(got, expected, "{}", text);
    }
}

#[test]
fn octets_have_no_leading_zeros() {
    assert_eq!(parse_octet("0"), Some(0));
    assert_eq!(parse_octet("7"), Some(7));
    assert_eq!(parse_octet("255"), Some(255));
    assert_eq!(parse_octet("256"), None);
    assert_eq!(parse_octet("00"), None);
    assert_eq!(parse_octet("07"), None);
    assert_eq!(parse_octet(""), None);
    assert_eq!(parse_octet("1000"), None);
    assert_eq!(parse_octet("1x"), None);
}

#[test]
fn loopback_and_multicast_addresses_are_told() {
    assert!(Ipv4Address::new(127, 0, 0, 1).is_loopback());
    assert!(Ipv4Address::new(127, 255, 0, 1).is_loopback());
    assert!(!Ipv4Address::new(128, 0, 0, 1).is_loopback());
    assert!(Ipv4Address::new(224, 0, 0, 1).is_multicast());
    assert!(Ipv4Address::new(239, 255, 255, 255).is_multicast());
    assert!(!Ipv4Address::new(240, 0, 0, 1).is_multicast());
    assert!(!Ipv4Address::new(223, 0, 0, 1).is_multicast());
}

#[test]
fn carried_ipv4_addresses_are_taken_out() {
    let v4 = IpAddress::V4(Ipv4Address::new(10, 0, 0, 1));
    assert_eq!(v4.normalize(), v4);
    assert_eq!(v6([0, 0, 0, 0, 0, 0xffff, 0x0a00, 0x0001]).normalize(), v4);
    let low = v6([0, 0, 0, 0, 0, 0, 0x0a00, 0x0001]);
    assert_eq!(low.normalize(), low);
    let loopback = v6([0, 0, 0, 0, 0, 0, 0, 1]);
    assert_eq!(loopback.normalize(), loopback);
    let real = v6([0x2001, 0xdb8, 0, 0, 0, 0, 0, 1]);
    assert_eq!(real.normalize(), real);
    let other = v6([0, 0, 0, 0, 0, 0xfffe, 0x0a00, 0x0001]);
    assert_eq!(other.normalize(), other);
}

#[test]
fn normalizing_agrees_with_another_conversion() {
    for text in [
        "::ffff:192.168.1.2", "::192.168.1.2", "::1", "::", "::1:ffff:c0a8:102", "fe80::1",
        "2001:db8::1", "::fffe:1.2.3.4",
    ] {
        let address = text.parse::<Ipv6Network>().unwrap().ip();
        let expected = address.to_ipv4_mapped().map(|address| address.octets());
        let got = match v6(address.segments()).normalize() {
            IpAddress::V4(address) => Some([address.a, address.b, address.c, address.d]),
            IpAddress::V6(_) => None,
        };
        assert_eq!(got, expected, "{}", text);
    }
}

#[test]
fn normalizing_settles() {
    for ip in [
        v6([0, 0, 0, 0, 0, 0xffff, 1, 2]),
        v6([1, 2, 3, 4, 5, 6, 7, 8]),
        IpAddress::V4(Ipv4Address::new(1, 2, 3, 4)),
    ] {
        assert_eq!(ip.normalize().normalize(), ip.normalize());
    }
}

#[test]
fn the_first_ipv4_address_is_found() {
    let first = Ipv4Address::new(10, 0, 0, 1);
    let second = Ipv4Address::new(10, 0, 0, 2);
    let other = v6([0xfe80, 0, 0, 0, 0, 0, 0, 1]);
    assert_eq!(
        find_ipv4(&vec![other, IpAddress::V4(first), IpAddress::V4(second)]),
        Some(first)
    );
    assert_eq!(find_ipv4(&vec![other]), None);
    assert_eq!(find_ipv4(&vec![]), None);
    assert!(IpAddress::V4(first).is_ipv4());
    assert!(!other.is_ipv4());
}

#[test]
fn a_socket_address_may_lack_its_port() {
    let ip = IpAddress::V4(Ipv4Address::new(10, 0, 0, 1));
    let with_port = SocketAddress { ip, port: 5000, flow_info: 0, scope_id: 0 };
    assert_eq!(parse_socket_addr(Some(with_port), None), Ok(with_port));
    assert_eq!(
        parse_socket_addr(None, Some(ip)),
        Ok(SocketAddress { ip, port: 0, flow_info: 0, scope_id: 0 })
    );
    assert_eq!(parse_socket_addr(None, None), Err(AddressError::InvalidSyntax));
    assert_eq!(
        AddressError::InvalidSyntax.text(),
        "Invalid socket address syntax. Expected 'IP:port' or 'IP'."
    );
}

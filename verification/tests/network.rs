use moblink_rust::address::Ipv4Address;
use moblink_rust::network::{
    check_tun_ip_network, parse_tun_ip_network, NetworkError, TunNetwork,
};

fn address(d: u8) -> Ipv4Address {
    Ipv4Address::new(10, 3, 3, d)
}

#[test]
fn a_network_is_read_in_cidr_notation() {
    let network = parse_tun_ip_network("10.3.3.7/24").unwrap();
    assert_eq!(network, TunNetwork { address: address(7), prefix: 24 });
    assert_eq!(network.count(), 256);
}

#[test]
fn a_network_without_a_prefix_is_one_address() {
    let network = parse_tun_ip_network("10.3.3.7").unwrap();
    assert_eq!(network.prefix, 32);
    assert_eq!(network.count(), 1);
    assert_eq!(network.nth(0), Some(address(7)));
    assert_eq!(network.nth(1), None);
}

#[test]
fn positions_count_from_the_lowest_address() {
    let network = TunNetwork { address: address(77), prefix: 26 };
    assert_eq!(network.count(), 64);
    assert_eq!(network.nth(0), Some(address(64)));
    assert_eq!(network.nth(63), Some(address(127)));
    assert_eq!(network.nth(64), None);
    let all = TunNetwork { address: address(1), prefix: 0 };
    assert_eq!(all.count(), u32::MAX);
    assert_eq!(all.nth(0), Some(Ipv4Address::new(0, 0, 0, 0)));
    assert_eq!(all.nth(u32::MAX), None);
}

#[test]
fn different_positions_have_different_addresses() {
    let network = TunNetwork { address: address(0), prefix: 24 };
    let mut seen: Vec<Ipv4Address> = Vec::new();
    for n in 0..256u32 {
        let at = network.nth(n).unwrap();
        assert!(!seen.contains(&at));
        seen.push(at);
    }
}

#[test]
fn a_big_network_is_refused() {
    match parse_tun_ip_network("10.0.0.0/23") {
        Err(NetworkError::TooBig(size)) => assert_eq!(size, 512),
        other => panic!("{:?}", other),
    }
    assert_eq!(
        NetworkError::TooBig(512).text(),
        "TUN IP network too big (512 > 256)"
    );
    assert!(matches!(
        check_tun_ip_network(TunNetwork { address: address(0), prefix: 8 }),
        Err(NetworkError::TooBig(16777216))
    ));
    assert!(check_tun_ip_network(TunNetwork { address: address(0), prefix: 24 }).is_ok());
}

#[test]
fn a_text_that_is_no_network_is_refused() {
    for text in ["", "10.3.3.0/33", "10.3.3/24", "10.3.3.0/24/24", "x"] {
        match parse_tun_ip_network(text) {
            Err(NetworkError::Invalid(reason)) => {
                assert_eq!(NetworkError::Invalid(reason.clone()).text(), reason);
            }
            other => panic!("{:?}", other),
        }
    }
}

use moblink_rust::address::{IpAddress, Ipv4Address, Ipv6Address};
use moblink_rust::interfaces::{
    anchored_pattern, any_address_belongs_to_this_machine, get_first_ipv4_address, keep_marked,
    NetworkInterface, NetworkInterfaceFilter,
};

fn interface(name: &str, ds: &[u8]) -> NetworkInterface {
    NetworkInterface {
        name: name.to_string(),
        addresses: ds.iter().map(|d| IpAddress::V4(Ipv4Address::new(10, 0, 0, *d))).collect(),
    }
}

fn patterns(texts: &[&str]) -> Vec<String> {
    texts.iter().map(|text| text.to_string()).collect()
}

fn filtered(allow: &[&str], ignore: &[&str], names: &[&str]) -> Vec<String> {
    let filter = NetworkInterfaceFilter::new(patterns(allow), patterns(ignore));
    let mut interfaces: Vec<NetworkInterface> =
        names.iter().map(|name| interface(name, &[1])).collect();
    filter.filter(&mut interfaces);
    interfaces.into_iter().map(|interface| interface.name).collect()
}

#[test]
fn all_interfaces_are_used_by_default() {
    assert_eq!(filtered(&[], &[], &["eth0", "wlan0"]), vec!["eth0", "wlan0"]);
}

#[test]
fn interfaces_are_allowed_by_their_whole_names() {
    assert_eq!(
        filtered(&["eth.*"], &[], &["eth0", "veth1", "eth10", "wlan0"]),
        vec!["eth0", "eth10"]
    );
    assert_eq!(filtered(&["eth"], &[], &["eth0", "eth"]), vec!["eth"]);
}

#[test]
fn each_pattern_has_anchors_of_its_own() {
    assert_eq!(
        filtered(&["eth0", "wlan0"], &[], &["eth0", "eth01", "xwlan0", "wlan0"]),
        vec!["eth0", "wlan0"]
    );
    assert_eq!(anchored_pattern(&patterns(&["eth.*"])), "^eth.*$");
    assert_eq!(anchored_pattern(&patterns(&["a", "b", "c"])), "^a$|^b$|^c$");
    assert_eq!(anchored_pattern(&patterns(&[])), "");
}

#[test]
fn interfaces_are_ignored_by_their_whole_names() {
    assert_eq!(
        filtered(&[], &["docker.*", "br"], &["docker0", "br", "br0", "eth0"]),
        vec!["br0", "eth0"]
    );
    assert_eq!(filtered(&["eth.*"], &["eth1"], &["eth0", "eth1", "lo"]), vec!["eth0"]);
}

#[test]
fn patterns_that_cannot_be_used_are_left_out() {
    assert_eq!(filtered(&["("], &["["], &["eth0", "lo"]), vec!["eth0", "lo"]);
    assert_eq!(NetworkInterfaceFilter::compile(patterns(&["("])), None);
    assert_eq!(NetworkInterfaceFilter::compile(patterns(&[])), None);
    assert_eq!(
        NetworkInterfaceFilter::compile(patterns(&["eth0"])),
        Some("^eth0$".to_string())
    );
    let filter = NetworkInterfaceFilter::new(patterns(&["e.h0"]), patterns(&[]));
    assert!(filter.is_used("eth0"));
    assert!(!filter.is_used("lo"));
}

#[test]
fn marked_interfaces_are_kept_in_their_order() {
    let mut interfaces = vec![interface("a", &[]), interface("b", &[]), interface("c", &[])];
    keep_marked(&mut interfaces, &vec![true, false, true]);
    let names: Vec<&str> = interfaces.iter().map(|interface| interface.name.as_str()).collect();
    assert_eq!(names, vec!["a", "c"]);
}

#[test]
fn the_first_ipv4_address_of_an_interface_counts() {
    let mut both = interface("eth0", &[7, 8]);
    both.addresses.insert(
        0,
        IpAddress::V6(Ipv6Address { s0: 0xfe80, s1: 0, s2: 0, s3: 0, s4: 0, s5: 0, s6: 0, s7: 1 }),
    );
    assert_eq!(get_first_ipv4_address(&both), Some(Ipv4Address::new(10, 0, 0, 7)));
    assert_eq!(get_first_ipv4_address(&interface("eth1", &[])), None);
}

#[test]
fn addresses_of_this_machine_are_told() {
    let interfaces = vec![interface("lo", &[1]), interface("eth0", &[2, 3])];
    let at = |d: u8| Ipv4Address::new(10, 0, 0, d);
    assert!(any_address_belongs_to_this_machine(&vec![at(9), at(3)], &interfaces));
    assert!(!any_address_belongs_to_this_machine(&vec![at(9), at(8)], &interfaces));
    assert!(!any_address_belongs_to_this_machine(&vec![], &interfaces));
}

use moblink_rust::utils::{
    format_command, lookup_target, random_string, resolve_host, MDNS_SERVICE_TYPE,
};
use moblink_rust::address::Ipv4Address;
use moblink_rust::web::{host_from_url, host_or_empty, streamer_url, ParsedUrl};

#[test]
fn random_strings_are_64_letters_and_digits() {
    let first = random_string();
    assert_eq!(first.len(), 64);
    assert!(first.chars().all(|c| c.is_ascii_alphanumeric()));
    assert_ne!(first, random_string());
}

#[test]
fn commands_are_shown_with_their_arguments() {
    assert_eq!(format_command("ip", &["route", "add"]), "ip route add");
    assert_eq!(format_command("ip", &[]), "ip ");
}

#[test]
fn the_first_address_of_a_host_counts() {
    assert_eq!(lookup_target("example.com"), "example.com:9999");
    let found = vec!["10.0.0.1".to_string(), "10.0.0.2".to_string()];
    assert_eq!(resolve_host("h", Ok(found)), Ok("10.0.0.1".to_string()));
    assert_eq!(
        resolve_host("h", Ok(vec![])),
        Err("No address found for h".to_string())
    );
    assert_eq!(
        resolve_host("h", Err("timeout".to_string())),
        Err("DNS lookup for 'h' failed with error timeout".to_string())
    );
}

#[test]
fn the_service_type_is_moblink_over_tcp() {
    assert_eq!(MDNS_SERVICE_TYPE, "_moblink._tcp.local.");
}

#[test]
fn the_host_is_taken_out_of_a_web_address() {
    assert_eq!(host_from_url("ws://192.168.1.2:7777"), "192.168.1.2");
    assert_eq!(host_from_url("wss://Example.com/ws"), "example.com");
    assert_eq!(host_from_url("data:text/plain,x"), "");
    assert_eq!(host_from_url("no url"), "");
    assert_eq!(host_from_url(""), "");
}

#[test]
fn a_missing_host_is_an_empty_text() {
    assert_eq!(host_or_empty(None), "");
    assert_eq!(host_or_empty(Some(ParsedUrl { text: "data:x".to_string(), host: None })), "");
    assert_eq!(
        host_or_empty(Some(ParsedUrl {
            text: "ws://h/".to_string(),
            host: Some("h".to_string()),
        })),
        "h"
    );
}

#[test]
fn streamers_are_reached_by_websocket() {
    assert_eq!(streamer_url(Ipv4Address::new(192, 168, 1, 2), 7777), "ws://192.168.1.2:7777");
}

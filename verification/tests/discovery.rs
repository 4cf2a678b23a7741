use moblink_rust::address::{IpAddress, Ipv4Address, Ipv6Address};
use moblink_rust::discovery::{
    handle_streamer_found, handle_streamer_gone, start_manual, Backoff, RelayOptions,
};
use moblink_rust::relay::{ConnectionStatus, Relay, StartEffects, Status, StopEffects};
use moblink_rust::status::{status_or_default, status_source, status_text, StatusSource};

fn options(bind_address: &str) -> RelayOptions {
    RelayOptions {
        name: "name".to_string(),
        relay_id: "id".to_string(),
        password: "1234".to_string(),
        bind_address: bind_address.to_string(),
    }
}

fn v4(a: u8, d: u8) -> IpAddress {
    IpAddress::V4(Ipv4Address::new(a, 0, 0, d))
}

fn url(effects: StartEffects) -> String {
    match effects {
        StartEffects::Connect(url) => url,
        other => panic!("{:?}", other),
    }
}

#[test]
fn the_delays_double_up_to_32_seconds() {
    let mut backoff = Backoff::new();
    let mut delays: Vec<u64> = Vec::new();
    for _ in 0..8 {
        delays.push(backoff.next_delay());
    }
    assert_eq!(delays, vec![1, 2, 4, 8, 16, 32, 32, 32]);
}

#[test]
fn a_relay_is_started_for_a_given_web_address() {
    let mut relay = Relay::new("10.0.0.5".to_string());
    let effects = start_manual(&mut relay, &options(""), "ws://192.168.1.2:7777".to_string());
    assert_eq!(url(effects), "ws://192.168.1.2:7777/");
    assert_eq!(relay.bind_address(), "10.0.0.5");
    assert!(relay.is_started());
}

#[test]
fn a_given_bind_address_is_used() {
    let mut relay = Relay::new("10.0.0.5".to_string());
    start_manual(&mut relay, &options("10.0.0.9"), "ws://x".to_string());
    assert_eq!(relay.bind_address(), "10.0.0.9");
}

#[test]
fn the_last_reachable_address_of_a_streamer_is_used() {
    let v6 = IpAddress::V6(Ipv6Address { s0: 1, s1: 0, s2: 0, s3: 0, s4: 0, s5: 0, s6: 0, s7: 1 });
    let mut relay = Relay::new("10.0.0.5".to_string());
    let addresses = vec![v4(192, 1), v4(192, 2), v4(127, 1), v4(224, 1), v6];
    let effects = handle_streamer_found(&mut relay, &options("10.0.0.9"), &addresses, 7777);
    assert_eq!(url(effects), "ws://192.0.0.2:7777/");
    assert_eq!(relay.bind_address(), "10.0.0.9");
}

#[test]
fn a_relay_that_is_started_stays_with_its_streamer() {
    let mut relay = Relay::new("10.0.0.5".to_string());
    handle_streamer_found(&mut relay, &options(""), &vec![v4(192, 1)], 7777);
    assert!(matches!(
        handle_streamer_found(&mut relay, &options("10.0.0.9"), &vec![v4(192, 2)], 7777),
        StartEffects::Nothing
    ));
    assert_eq!(relay.bind_address(), "10.0.0.5");
}

#[test]
fn a_streamer_that_cannot_be_reached_is_not_connected_to() {
    let mut relay = Relay::new("10.0.0.5".to_string());
    assert!(matches!(
        handle_streamer_found(&mut relay, &options(""), &vec![v4(127, 1)], 7777),
        StartEffects::Nothing
    ));
    assert!(relay.is_started());
}

#[test]
fn a_relay_is_stopped_when_its_streamer_is_gone() {
    let mut relay = Relay::new("10.0.0.5".to_string());
    assert_eq!(handle_streamer_gone(&mut relay), None);
    handle_streamer_found(&mut relay, &options(""), &vec![v4(192, 1)], 7777);
    assert_eq!(
        handle_streamer_gone(&mut relay),
        Some(StopEffects { close_writer: false, report: Some(ConnectionStatus::Disconnected) })
    );
    assert!(!relay.is_started());
}

#[test]
fn an_executable_goes_before_a_file() {
    let executable = Some("./status.sh".to_string());
    let file = Some("status.json".to_string());
    assert!(matches!(
        status_source(&executable, &file),
        StatusSource::Executable(text) if text == "./status.sh"
    ));
    assert!(matches!(
        status_source(&None, &file),
        StatusSource::File(text) if text == "status.json"
    ));
    assert!(matches!(status_source(&None, &None), StatusSource::Unknown));
}

#[test]
fn the_status_is_decoded_from_valid_text_only() {
    let text = "{\"batteryPercentage\": 93} \u{1f50b}";
    assert_eq!(status_text(Some(text.as_bytes().to_vec())), Some(text.to_string()));
    assert_eq!(status_text(Some(vec![0xff, 0xfe])), None);
    assert_eq!(status_text(Some(vec![0xed, 0xa0, 0x80])), None);
    assert_eq!(status_text(None), None);
    let known = Status { battery_percentage: Some(93) };
    assert_eq!(status_or_default(Some(known)), known);
    assert_eq!(status_or_default(None), Status { battery_percentage: None });
}

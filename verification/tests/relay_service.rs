use std::path::PathBuf;

use moblink_rust::address::{IpAddress, Ipv4Address};
use moblink_rust::database::Database;
use moblink_rust::interfaces::{NetworkInterface, NetworkInterfaceFilter};
use moblink_rust::name_table::NameTable;
use moblink_rust::relay::{StartEffects, Status};
use moblink_rust::relay_service::{
    manual_streamer, parse_interface_name_overrides, parse_manual_streamers, RelayServiceConfig,
    RelayServiceInner, ServiceRelay, Streamer, UpdateEffects,
};
use moblink_rust::web::ParsedUrl;

fn texts(values: &[&str]) -> Vec<String> {
    values.iter().map(|value| value.to_string()).collect()
}

fn config(streamer_urls: &[&str]) -> RelayServiceConfig {
    RelayServiceConfig {
        password: "1234".to_string(),
        network_interfaces_to_allow: vec![],
        network_interfaces_to_ignore: texts(&["docker.*"]),
        streamer_urls: texts(streamer_urls),
        interface_name_overrides: texts(&["eth0=WAN"]),
        runtime_status_file: Some(PathBuf::from("status.json")),
        database: PathBuf::from("relays.json"),
    }
}

fn interface(name: &str, address: [u8; 4]) -> NetworkInterface {
    let [a, b, c, d] = address;
    NetworkInterface {
        name: name.to_string(),
        addresses: vec![IpAddress::V4(Ipv4Address::new(a, b, c, d))],
    }
}

fn interfaces() -> Vec<NetworkInterface> {
    vec![
        interface("lo", [127, 0, 0, 1]),
        interface("eth0", [10, 0, 0, 1]),
        interface("docker0", [172, 17, 0, 1]),
        interface("wwan0", [10, 0, 1, 1]),
    ]
}

fn started(effects: &UpdateEffects) -> Vec<(u8, &str)> {
    effects
        .started
        .iter()
        .map(|relay| (relay.interface_address.c, relay.streamer_url.as_str()))
        .collect()
}

fn stopped(relays: &[ServiceRelay]) -> Vec<(&str, &str)> {
    relays
        .iter()
        .map(|relay| (relay.interface_name.as_str(), relay.streamer_url.as_str()))
        .collect()
}

#[test]
fn labels_are_read_from_pairs() {
    let overrides = parse_interface_name_overrides(texts(&[
        "eth0=WAN",
        " wwan0 = LTE modem ",
        "nothing",
        "=x",
        "y=",
        " = ",
        "eth1=a=b",
        "eth0=Uplink",
    ]));
    assert_eq!(overrides.get("eth0"), Some("Uplink".to_string()));
    assert_eq!(overrides.get("wwan0"), Some("LTE modem".to_string()));
    assert_eq!(overrides.get("eth1"), Some("a=b".to_string()));
    assert_eq!(overrides.get("y"), None);
    assert_eq!(overrides.get(""), None);
    assert_eq!(overrides.entries().len(), 3);
}

#[test]
fn manual_streamers_are_named_by_their_hosts() {
    let streamers = parse_manual_streamers(texts(&[
        "ws://192.168.1.2:7777",
        "no url",
        "wss://Example.com/ws",
        "data:x",
    ]));
    let got: Vec<(&str, &str)> = streamers
        .iter()
        .map(|streamer| (streamer.name.as_str(), streamer.url.as_str()))
        .collect();
    assert_eq!(
        got,
        vec![
            ("192.168.1.2", "ws://192.168.1.2:7777"),
            ("example.com", "wss://Example.com/ws"),
            ("data:x", "data:x"),
        ]
    );
}

#[test]
fn a_manual_streamer_keeps_its_web_address() {
    let url = "ws://H".to_string();
    let parsed = ParsedUrl { text: "ws://h/".to_string(), host: Some("h".to_string()) };
    let streamer = manual_streamer(&url, Some(parsed)).unwrap();
    assert_eq!((streamer.name.as_str(), streamer.url.as_str()), ("h", "ws://H"));
    assert!(manual_streamer(&url, None).is_none());
}

#[test]
fn name_tables_hold_each_name_once() {
    let mut table = NameTable::from_entries(vec![
        ("a".to_string(), "1".to_string()),
        ("b".to_string(), "2".to_string()),
        ("a".to_string(), "3".to_string()),
    ]);
    assert_eq!(table.get("a"), Some("3".to_string()));
    assert!(table.contains("b"));
    assert!(!table.contains("c"));
    table.insert("c".to_string(), "4".to_string());
    table.insert("b".to_string(), "5".to_string());
    assert_eq!(
        table.entries(),
        vec![
            ("a".to_string(), "3".to_string()),
            ("b".to_string(), "5".to_string()),
            ("c".to_string(), "4".to_string()),
        ]
    );
    assert!(NameTable::new().entries().is_empty());
}

#[test]
fn the_relay_of_an_interface_keeps_its_identity() {
    let mut database = Database::new(PathBuf::from("relays.json"), NameTable::new());
    let first = database.get_relay_id("eth0");
    assert!(first.is_new);
    assert_eq!(first.id.len(), 36);
    assert_eq!(first.id.matches('-').count(), 4);
    assert!(first.id.chars().all(|c| c == '-' || c.is_ascii_digit() || ('a'..='f').contains(&c)));
    assert_eq!(&first.id[14..15], "4");
    assert!(["8", "9", "a", "b"].contains(&&first.id[19..20]));
    let other = database.get_relay_id("eth1");
    assert!(other.is_new);
    assert_ne!(first.id, other.id);
    let again = database.get_relay_id("eth0");
    assert!(!again.is_new);
    assert_eq!(again.id, first.id);
    assert_eq!(database.entries().len(), 2);
    assert_eq!(database.path(), &PathBuf::from("relays.json"));
    let given = database.get_relay_id_or("eth2", "x".to_string());
    assert!(given.is_new && given.id == "x");
    let known = database.get_relay_id_or("eth2", "y".to_string());
    assert!(!known.is_new && known.id == "x");
}

#[test]
fn one_relay_runs_per_interface_and_streamer() {
    let mut service = RelayServiceInner::new(config(&["ws://a", "ws://b"]), NameTable::new());
    let start = service.start();
    assert!(!start.find_streamers);
    assert!(start.update.unwrap().started.is_empty());
    service.update_network_interfaces(interfaces());
    let effects = service.updated();
    assert_eq!(
        started(&effects),
        vec![(0, "ws://a"), (0, "ws://b"), (1, "ws://a"), (1, "ws://b")]
    );
    assert!(effects.store_database);
    assert!(effects.stopped.is_empty());
    let again = service.updated();
    assert!(again.started.is_empty());
    assert!(again.stopped.is_empty());
    assert!(!again.store_database);
}

#[test]
fn a_started_relay_is_bound_to_its_interface() {
    let mut ids = NameTable::new();
    ids.insert("eth0".to_string(), "known".to_string());
    let mut service = RelayServiceInner::new(config(&["ws://192.168.1.2:7777"]), ids);
    service.start();
    service.update_network_interfaces(vec![interface("eth0", [10, 0, 0, 1])]);
    let mut effects = service.updated();
    assert!(!effects.store_database);
    let relay = effects.started.remove(0);
    assert!(relay.relay.is_started());
    assert_eq!(relay.relay.bind_address(), "10.0.0.1");
    assert!(matches!(
        relay.effects,
        StartEffects::Connect(url) if url == "ws://192.168.1.2:7777/"
    ));
    let shown = format!("{:?}", relay.relay);
    assert!(shown.contains("name: \"WAN\""));
    assert!(shown.contains("relay_id: \"known\""));
    assert!(shown.contains("password: \"1234\""));
}

#[test]
fn relays_of_interfaces_that_are_gone_are_stopped() {
    let mut service = RelayServiceInner::new(config(&["ws://a"]), NameTable::new());
    service.start();
    service.update_network_interfaces(interfaces());
    service.updated();
    service.update_network_interfaces(vec![
        interface("wwan0", [10, 0, 1, 1]),
        interface("eth0", [10, 0, 2, 1]),
    ]);
    let effects = service.updated();
    assert_eq!(stopped(&effects.stopped), vec![("eth0", "ws://a")]);
    assert_eq!(started(&effects), vec![(2, "ws://a")]);
    assert!(!effects.store_database);
    assert!(service.relay_already_added(Ipv4Address::new(10, 0, 1, 1), &"ws://a".to_string()));
    assert!(!service.relay_already_added(Ipv4Address::new(10, 0, 0, 1), &"ws://a".to_string()));
    assert!(!service.relay_already_added(Ipv4Address::new(10, 0, 1, 1), &"ws://b".to_string()));
}

#[test]
fn streamers_are_found_where_none_were_given() {
    let mut service = RelayServiceInner::new(config(&["no url"]), NameTable::new());
    let start = service.start();
    assert!(start.find_streamers);
    assert!(start.update.is_none());
    service.update_network_interfaces(interfaces());
    let streamer = vec![Ipv4Address::new(192, 168, 1, 2), Ipv4Address::new(192, 168, 1, 3)];
    let name = || Some("Moblin".to_string());
    let effects = service.handle_streamer_found(name(), &streamer, 7777, &interfaces()).unwrap();
    assert_eq!(
        started(&effects),
        vec![(0, "ws://192.168.1.2:7777"), (1, "ws://192.168.1.2:7777")]
    );
    let again = service.handle_streamer_found(name(), &streamer, 7777, &interfaces()).unwrap();
    assert!(again.started.is_empty());
    assert_eq!(again.runtime_status.unwrap().streamers.len(), 1);
}

#[test]
fn streamers_that_do_not_count_are_left_out() {
    let mut service = RelayServiceInner::new(config(&[]), NameTable::new());
    service.start();
    let there = vec![Ipv4Address::new(192, 168, 1, 2)];
    let here = vec![Ipv4Address::new(192, 168, 1, 2), Ipv4Address::new(10, 0, 0, 1)];
    let name = || Some("Moblin".to_string());
    assert!(service.handle_streamer_found(None, &there, 7777, &interfaces()).is_none());
    assert!(service.handle_streamer_found(name(), &here, 7777, &interfaces()).is_none());
    assert!(service.handle_streamer_found(name(), &vec![], 7777, &interfaces()).is_none());
    assert!(service.runtime_status().unwrap().streamers.is_empty());
}

#[test]
fn a_streamer_that_is_found_again_takes_its_new_name() {
    let mut service = RelayServiceInner::new(config(&[]), NameTable::new());
    service.add_streamer("a".to_string(), Ipv4Address::new(1, 2, 3, 4), 1);
    service.add_streamer("b".to_string(), Ipv4Address::new(1, 2, 3, 4), 2);
    service.add_streamer("c".to_string(), Ipv4Address::new(1, 2, 3, 4), 1);
    let status = service.runtime_status().unwrap();
    let got: Vec<(&str, &str)> = status
        .streamers
        .iter()
        .map(|streamer| (streamer.name.as_str(), streamer.url.as_str()))
        .collect();
    assert_eq!(got, vec![("b", "ws://1.2.3.4:2"), ("c", "ws://1.2.3.4:1")]);
}

#[test]
fn the_runtime_status_shows_relays_and_streamers() {
    let mut service = RelayServiceInner::new(config(&["ws://Example.com:7777"]), NameTable::new());
    let start = service.start();
    let status = start.runtime_status.unwrap();
    assert!(!status.connected);
    assert!(status.manual_streamer);
    service.update_network_interfaces(vec![interface("eth0", [10, 0, 0, 1])]);
    let status = service.updated().runtime_status.unwrap();
    assert!(status.connected);
    assert_eq!(status.streamers[0].name, "example.com");
    assert_eq!(status.streamers[0].url, "ws://Example.com:7777");
    assert_eq!(status.streamers[0].host, "example.com");
    assert_eq!(status.relays.len(), 1);
    assert_eq!(status.relays[0].interface_name, "eth0");
    assert_eq!(status.relays[0].interface_address, "10.0.0.1");
    assert_eq!(status.relays[0].streamer_name, "example.com");
    assert_eq!(status.relays[0].streamer_url, "ws://Example.com:7777");
    assert_eq!(status.relays[0].streamer_host, "example.com");
    assert_eq!(service.runtime_status_file(), &Some(PathBuf::from("status.json")));
}

#[test]
fn no_runtime_status_is_shown_without_a_file() {
    let mut hidden = config(&["ws://a"]);
    hidden.runtime_status_file = None;
    let mut service = RelayServiceInner::new(hidden, NameTable::new());
    assert!(service.start().runtime_status.is_none());
    assert!(service.updated().runtime_status.is_none());
}

#[test]
fn the_state_of_the_device_is_kept_for_the_relays() {
    let mut service = RelayServiceInner::new(config(&[]), NameTable::new());
    assert_eq!(service.status(), Status { battery_percentage: None });
    service.update_status(Some(Status { battery_percentage: Some(93) }));
    assert_eq!(service.status(), Status { battery_percentage: Some(93) });
    service.update_status(None);
    assert_eq!(service.status(), Status { battery_percentage: None });
}

#[test]
fn a_service_is_made_of_parts_that_were_read() {
    let streamer = Streamer { name: "m".to_string(), url: "ws://m".to_string() };
    let mut service = RelayServiceInner::with_parts(
        "1234".to_string(),
        NetworkInterfaceFilter::new(vec![], vec![]),
        vec![streamer.clone()],
        NameTable::new(),
        None,
        Database::new(PathBuf::from("relays.json"), NameTable::new()),
    );
    service.update_network_interfaces(interfaces());
    let start = service.start();
    let effects = start.update.unwrap();
    assert_eq!(started(&effects), vec![(0, "ws://m"), (0, "ws://m"), (1, "ws://m")]);
    assert_eq!(service.database().entries().len(), 3);
    assert_eq!(effects.started[1].interface_address.a, 172);
}

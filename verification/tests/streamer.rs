use moblink_rust::address::Ipv4Address;
use moblink_rust::network::{NetworkError, TunNetwork};
use moblink_rust::streamer::{
    handshake_headers, ConnectionError, StreamerConfig, StreamerInner,
};

fn config(network: &str) -> StreamerConfig {
    StreamerConfig {
        id: "box".to_string(),
        name: "My box".to_string(),
        address: "0.0.0.0".to_string(),
        port: 7777,
        tun_ip_network: network.to_string(),
        password: "1234".to_string(),
        destination_address: "172.16.0.9".to_string(),
        destination_port: 5000,
    }
}

fn address_of(streamer: &mut StreamerInner) -> (u32, String) {
    let relay = streamer.handle_relay_connection("192.168.1.5".to_string()).unwrap();
    assert_eq!(relay.destination_address(), "172.16.0.9");
    assert_eq!(relay.destination_port(), 5000);
    assert!(!relay.is_connected());
    (relay.unique_index(), relay.tun_ip_address())
}

#[test]
fn relays_get_the_addresses_between_the_first_and_the_last() {
    let mut streamer = StreamerInner::new(config("10.3.3.0/29")).unwrap();
    for index in 1..7u32 {
        let (got, address) = address_of(&mut streamer);
        assert_eq!(got, index);
        assert_eq!(address, format!("10.3.3.{}", index));
    }
    assert_eq!(streamer.number_of_relays(), 6);
    assert!(matches!(
        streamer.handle_relay_connection(String::new()),
        Err(ConnectionError::NoUniqueIndex)
    ));
}

#[test]
fn the_index_of_a_gone_relay_is_given_away_last() {
    let mut streamer = StreamerInner::new(config("10.3.3.0/29")).unwrap();
    let (first, _) = address_of(&mut streamer);
    let (second, _) = address_of(&mut streamer);
    streamer.remove_relay(first);
    assert_eq!(streamer.number_of_relays(), 1);
    let mut later: Vec<u32> = Vec::new();
    for _ in 0..5 {
        later.push(address_of(&mut streamer).0);
    }
    assert_eq!((first, second), (1, 2));
    assert_eq!(later, vec![3, 4, 5, 6, 1]);
}

#[test]
fn a_session_that_ends_gives_everything_back() {
    let mut streamer = StreamerInner::new(config("10.3.3.0/30")).unwrap();
    let mut first = streamer.handle_relay_connection("192.168.1.5".to_string()).unwrap();
    let mut second = streamer.handle_relay_connection("192.168.1.6".to_string()).unwrap();
    first.start();
    second.start();
    assert!(streamer.handle_relay_connection(String::new()).is_err());
    let effects = streamer.end_session(&mut second);
    assert!(effects.close_writer && !effects.stop_tun_receiver && !effects.drop_tun_writer);
    assert!(!second.is_connected() && first.is_connected());
    assert_eq!(streamer.number_of_relays(), 1);
    streamer.end_session(&mut first);
    assert_eq!(streamer.number_of_relays(), 0);
    assert_eq!(address_of(&mut streamer), (2, "10.3.3.2".to_string()));
    assert_eq!(address_of(&mut streamer), (1, "10.3.3.1".to_string()));
    assert!(streamer.handle_relay_connection(String::new()).is_err());
}

#[test]
fn small_networks_have_no_room_for_relays() {
    for text in ["10.3.3.0/32", "10.3.3.0/31"] {
        let mut streamer = StreamerInner::new(config(text)).unwrap();
        assert!(matches!(
            streamer.handle_relay_connection(String::new()),
            Err(ConnectionError::NoUniqueIndex)
        ));
    }
}

#[test]
fn a_streamer_needs_a_network_that_is_not_too_big() {
    assert!(matches!(
        StreamerInner::new(config("10.3.0.0/16")),
        Err(NetworkError::TooBig(65536))
    ));
    assert!(matches!(StreamerInner::new(config("x")), Err(NetworkError::Invalid(_))));
}

#[test]
fn a_streamer_takes_a_network_that_was_read() {
    let network = TunNetwork { address: Ipv4Address::new(10, 1, 1, 200), prefix: 24 };
    let mut streamer = StreamerInner::with_network(config(""), network);
    assert_eq!(address_of(&mut streamer), (1, "10.1.1.1".to_string()));
    assert_eq!(streamer.password(), "1234");
    assert_eq!(streamer.listener_address(), "0.0.0.0:7777");
}

#[test]
fn a_streamer_announces_itself() {
    let info = StreamerInner::new(config("10.3.3.0/24")).unwrap().create_mdns_service_info();
    assert_eq!(info.service_type, "_moblink._tcp.local.");
    assert_eq!(info.instance_name, "box");
    assert_eq!(info.host_name, "box.local.");
    assert_eq!(info.port, 7777);
    assert_eq!(info.property_name, "name");
    assert_eq!(info.property_value, "My box");
}

#[test]
fn the_handshake_has_headers() {
    let [protocol, origin, agent] = handshake_headers();
    assert_eq!((protocol.name, protocol.value), ("sec-websocket-protocol", "moblink"));
    assert_eq!((origin.name, origin.value), ("origin", "moblin://streamer"));
    assert_eq!((agent.name, agent.value), ("user-agent", "Moblin/1.0"));
}

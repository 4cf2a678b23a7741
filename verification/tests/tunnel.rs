use moblink_rust::address::Ipv4Address;
use moblink_rust::datagram::{read_datagram, PacketBuilder};
use moblink_rust::tunnel::{
    handle_relay_packet, handle_tun_port, start_relay_receiver, RelayReceiverError, TunAction,
    TunForwarder,
};

fn packet_to(destination: Ipv4Address, source_port: u16) -> Vec<u8> {
    PacketBuilder::new(Ipv4Address::new(10, 3, 3, 1), source_port, destination, 5000)
        .pack(b"payload")
        .unwrap()
}

#[test]
fn datagrams_to_the_destination_are_forwarded() {
    let destination = Ipv4Address::new(172, 16, 0, 9);
    let mut forwarder = TunForwarder::new("172.16.0.9".to_string());
    match forwarder.forward(&packet_to(destination, 40000)) {
        TunAction::Forward(port, payload) => {
            assert_eq!(port, Some(40000));
            assert_eq!(payload, b"payload");
        }
        other => panic!("{:?}", other),
    }
    assert!(matches!(
        forwarder.forward(&packet_to(destination, 40000)),
        TunAction::Forward(None, _)
    ));
    assert!(matches!(
        forwarder.forward(&packet_to(destination, 40001)),
        TunAction::Forward(Some(40001), _)
    ));
}

#[test]
fn other_datagrams_are_not_forwarded() {
    let mut forwarder = TunForwarder::new("172.16.0.9".to_string());
    let elsewhere = packet_to(Ipv4Address::new(172, 16, 0, 8), 40000);
    assert!(matches!(forwarder.forward(&elsewhere), TunAction::Nothing));
    assert!(matches!(forwarder.forward(&[0x60, 0, 0]), TunAction::Nothing));
    let mut nameless = TunForwarder::new("example.com".to_string());
    let packet = packet_to(Ipv4Address::new(172, 16, 0, 9), 40000);
    assert!(matches!(nameless.forward(&packet), TunAction::Nothing));
}

#[test]
fn packets_from_a_relay_come_from_the_destination() {
    let mut builder = start_relay_receiver("10.3.3.1", "172.16.0.9", 5000).unwrap();
    assert_eq!(builder.destination_port, 10000);
    assert!(handle_tun_port(&mut builder, Some(40000)).is_ok());
    let mut buffer = b"reply".to_vec();
    buffer.resize(2048, 0);
    let data = handle_relay_packet(&builder, Ok(5), &buffer).unwrap();
    assert_eq!(&data[12..16], &[172, 16, 0, 9]);
    assert_eq!(&data[20..24], &[0x13, 0x88, 0x9c, 0x40]);
    let datagram = read_datagram(&data).unwrap();
    assert_eq!(datagram.destination, Ipv4Address::new(10, 3, 3, 1));
    assert_eq!(datagram.payload, b"reply");
}

#[test]
fn receiving_from_a_relay_can_fail() {
    assert!(matches!(
        start_relay_receiver("x", "172.16.0.9", 5000),
        Err(RelayReceiverError::InvalidTunAddress)
    ));
    assert!(matches!(
        start_relay_receiver("10.3.3.1", "example.com", 5000),
        Err(RelayReceiverError::InvalidDestination)
    ));
    let mut builder = start_relay_receiver("10.3.3.1", "172.16.0.9", 5000).unwrap();
    let before = builder;
    assert!(matches!(
        handle_tun_port(&mut builder, None),
        Err(RelayReceiverError::TunPortMissing)
    ));
    assert_eq!(builder, before);
    assert!(matches!(
        handle_relay_packet(&builder, Err("gone".to_string()), &[]),
        Err(RelayReceiverError::Socket(reason)) if reason == "gone"
    ));
}

use moblink_rust::address::{IpAddress, Ipv4Address, SocketAddress};
use moblink_rust::forward::{to_streamer_step, ForwardAction, ForwardEvent, ToDestination};

fn at(d: u8) -> SocketAddress {
    SocketAddress {
        ip: IpAddress::V4(Ipv4Address::new(10, 0, 0, d)),
        port: 5000,
        flow_info: 0,
        scope_id: 0,
    }
}

fn sends(action: ForwardAction, to: SocketAddress, packet: &[u8]) -> bool {
    match action {
        ForwardAction::Send(address, data) => address == to && data == packet,
        _ => false,
    }
}

#[test]
fn packets_go_to_the_destination_as_they_came() {
    let mut streamer = None;
    let mut forwarder = ToDestination::new(at(9));
    let received = ForwardEvent::Received(at(1), vec![1, 2, 3]);
    assert!(sends(forwarder.step(&mut streamer, received), at(9), &[1, 2, 3]));
    assert_eq!(streamer, None);
}

#[test]
fn the_first_sender_whose_packet_was_sent_on_is_the_streamer() {
    let mut streamer = None;
    let mut forwarder = ToDestination::new(at(9));
    forwarder.step(&mut streamer, ForwardEvent::Received(at(1), vec![1]));
    forwarder.step(&mut streamer, ForwardEvent::ReceiveFailed);
    assert_eq!(streamer, None);
    forwarder.step(&mut streamer, ForwardEvent::Received(at(2), vec![1]));
    assert!(matches!(
        forwarder.step(&mut streamer, ForwardEvent::Sent),
        ForwardAction::Receive
    ));
    assert_eq!(streamer, Some(at(2)));
    forwarder.step(&mut streamer, ForwardEvent::Received(at(3), vec![1]));
    forwarder.step(&mut streamer, ForwardEvent::Sent);
    assert_eq!(streamer, Some(at(2)));
}

#[test]
fn the_forwarder_to_the_destination_stops_on_silence_and_failed_sends() {
    let mut streamer = None;
    let mut forwarder = ToDestination::new(at(9));
    assert!(matches!(
        forwarder.step(&mut streamer, ForwardEvent::ReceiveFailed),
        ForwardAction::Receive
    ));
    assert!(matches!(
        forwarder.step(&mut streamer, ForwardEvent::TimedOut),
        ForwardAction::Stop
    ));
    assert!(matches!(
        forwarder.step(&mut streamer, ForwardEvent::SendFailed),
        ForwardAction::Stop
    ));
}

#[test]
fn packets_go_to_the_streamer_once_it_is_known() {
    let received = || ForwardEvent::Received(at(9), vec![4, 5]);
    assert!(matches!(to_streamer_step(None, received()), ForwardAction::Receive));
    assert!(sends(to_streamer_step(Some(at(2)), received()), at(2), &[4, 5]));
    let streamer = Some(at(2));
    assert!(matches!(to_streamer_step(streamer, ForwardEvent::Sent), ForwardAction::Receive));
    assert!(matches!(
        to_streamer_step(streamer, ForwardEvent::ReceiveFailed),
        ForwardAction::Receive
    ));
    assert!(matches!(to_streamer_step(streamer, ForwardEvent::TimedOut), ForwardAction::Stop));
    assert!(matches!(to_streamer_step(streamer, ForwardEvent::SendFailed), ForwardAction::Stop));
}

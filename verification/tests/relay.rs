use moblink_rust::address::{AddressError, IpAddress, Ipv4Address, Ipv6Address, SocketAddress};
use moblink_rust::protocol::{
    Authentication, Hello, Identified, MessageRequest, MessageRequestData, MessageResponse,
    MessageToRelay, MessageToStreamer, MoblinkResult, Present, ResponseData, StartTunnelRequest,
    StartTunnelResponseData, StatusResponseData,
};
use moblink_rust::relay::{
    BindableInterface, ConnectResult, ConnectionStatus, MessageEffects, ReceiverAction, Relay,
    RelayError, StartEffects, Status, StopEffects, TunnelAction, TunnelError, TunnelEvent,
    TunnelPhase, TunnelSetup, WebsocketEvent,
};
use moblink_rust::web::ParsedUrl;

fn relay() -> Relay {
    let mut relay = Relay::new("10.0.0.5".to_string());
    relay.setup(
        "ws://192.168.1.2:7777".to_string(),
        "1234".to_string(),
        "id".to_string(),
        "name".to_string(),
    );
    relay
}

fn connected_relay() -> Relay {
    let mut relay = relay();
    relay.start();
    relay.handle_connect_result(ConnectResult::Connected);
    relay.handle_message(MessageToRelay::Identified(Identified {
        result: MoblinkResult::Okay(Present {}),
    }));
    relay
}

fn hello() -> MessageToRelay {
    MessageToRelay::Hello(Hello {
        api_version: "1.0".to_string(),
        authentication: Authentication {
            challenge: "challenge".to_string(),
            salt: "salt".to_string(),
        },
    })
}

fn start_tunnel(address: &str) -> MessageToRelay {
    MessageToRelay::Request(MessageRequest {
        id: 3,
        data: MessageRequestData::StartTunnel(StartTunnelRequest {
            address: address.to_string(),
            port: 5000,
        }),
    })
}

#[test]
fn a_start_connects_to_the_streamer() {
    let mut relay = relay();
    assert!(!relay.is_started());
    match relay.start() {
        StartEffects::Connect(url) => assert_eq!(url, "ws://192.168.1.2:7777/"),
        other => panic!("{:?}", other),
    }
    assert!(relay.is_started());
    assert!(matches!(relay.start(), StartEffects::Nothing));
}

#[test]
fn a_start_with_no_web_address_does_nothing() {
    let mut relay = Relay::new("10.0.0.5".to_string());
    assert!(matches!(relay.start(), StartEffects::Nothing));
    assert!(relay.is_started());
    assert_eq!(relay.update_status(), None);
}

#[test]
fn the_web_address_is_connected_to_in_its_normal_form() {
    let mut relay = relay();
    relay.start();
    let url = ParsedUrl { text: "ws://x/".to_string(), host: None };
    assert!(matches!(
        relay.start_with_url(Some(url)),
        StartEffects::Connect(text) if text == "ws://x/"
    ));
    assert!(matches!(relay.start_with_url(None), StartEffects::Nothing));
}

#[test]
fn a_stop_closes_the_websocket_and_tells_the_status() {
    let mut relay = connected_relay();
    assert_eq!(relay.update_status(), Some(ConnectionStatus::Connected));
    assert_eq!(
        relay.stop(),
        Some(StopEffects { close_writer: true, report: Some(ConnectionStatus::Disconnected) })
    );
    assert_eq!(relay.stop(), None);
    assert!(!relay.is_started());
}

#[test]
fn a_stopped_relay_gives_the_connection_up_when_it_is_to_start() {
    let mut relay = relay();
    assert!(matches!(
        relay.start_internal(),
        StartEffects::Stop(StopEffects {
            close_writer: false,
            report: Some(ConnectionStatus::Disconnected)
        })
    ));
}

#[test]
fn a_failed_connection_is_tried_again() {
    for result in [ConnectResult::Failed, ConnectResult::TimedOut] {
        let mut relay = relay();
        relay.start();
        let effects = relay.handle_connect_result(result).unwrap();
        assert_eq!(effects.stop.report, Some(ConnectionStatus::Connecting));
        assert!(!effects.stop.close_writer);
        assert!(matches!(
            relay.reconnect_timer_fired(effects.timer),
            StartEffects::Connect(_)
        ));
    }
}

#[test]
fn only_the_latest_timer_counts() {
    let mut relay = relay();
    relay.start();
    let first = relay.handle_connect_result(ConnectResult::Failed).unwrap();
    let second = relay.handle_connect_result(ConnectResult::Failed).unwrap();
    assert_ne!(first.timer, second.timer);
    assert!(matches!(relay.reconnect_timer_fired(first.timer), StartEffects::Nothing));
    assert!(matches!(relay.reconnect_timer_fired(second.timer), StartEffects::Connect(_)));
}

#[test]
fn no_timer_counts_after_a_stop() {
    let mut relay = relay();
    relay.start();
    let effects = relay.handle_connect_result(ConnectResult::Failed).unwrap();
    relay.stop();
    assert!(matches!(relay.reconnect_timer_fired(effects.timer), StartEffects::Nothing));
}

#[test]
fn the_challenge_is_answered_with_the_password() {
    let mut relay = connected_relay();
    match relay.handle_message(hello()) {
        MessageEffects::Send(MessageToStreamer::Identify(identify)) => {
            assert_eq!(identify.id, "id");
            assert_eq!(identify.name, "name");
            assert_eq!(
                identify.authentication,
                "2+OoFJ28QK3TmG6nKUHqW7aM+NfAHsqc1EgM78c6Ing="
            );
        }
        other => panic!("{:?}", other),
    }
}

#[test]
fn nothing_is_sent_without_a_websocket() {
    let mut relay = relay();
    assert!(matches!(
        relay.handle_message(hello()),
        MessageEffects::Fail(RelayError::NoWebsocketWriter)
    ));
    assert!(matches!(
        relay.identify("x".to_string()),
        MessageEffects::Fail(RelayError::NoWebsocketWriter)
    ));
}

#[test]
fn a_wrong_password_is_told() {
    let mut relay = relay();
    relay.start();
    relay.handle_connect_result(ConnectResult::Connected);
    assert!(matches!(
        relay.handle_message(MessageToRelay::Identified(Identified {
            result: MoblinkResult::WrongPassword(Present {}),
        })),
        MessageEffects::Report(Some(ConnectionStatus::WrongPassword))
    ));
}

#[test]
fn the_status_has_words() {
    assert_eq!(ConnectionStatus::Connected.text(), "Connected to streamer");
    assert_eq!(ConnectionStatus::WrongPassword.text(), "Wrong password");
    assert_eq!(ConnectionStatus::Connecting.text(), "Connecting to streamer");
    assert_eq!(ConnectionStatus::Disconnected.text(), "Disconnected from streamer");
    assert_eq!(RelayError::NoWebsocketWriter.text(), "No websocket writer");
    assert_eq!(
        RelayError::StatusFunctionNotSet.text(),
        "get_battery_percentage function not set"
    );
}

#[test]
fn the_battery_is_told_when_asked_for() {
    let mut relay = connected_relay();
    let ask = MessageToRelay::Request(MessageRequest {
        id: 9,
        data: MessageRequestData::Status(Present {}),
    });
    let request = match relay.handle_message(ask) {
        MessageEffects::AskStatus(request) => request,
        other => panic!("{:?}", other),
    };
    match relay.respond_status(&request, Status { battery_percentage: Some(93) }) {
        MessageEffects::Send(MessageToStreamer::Response(response)) => assert_eq!(
            response,
            MessageResponse {
                id: 9,
                result: MoblinkResult::Okay(Present {}),
                data: ResponseData::Status(StatusResponseData { battery_percentage: Some(93) }),
            }
        ),
        other => panic!("{:?}", other),
    }
}

#[test]
fn the_battery_of_a_relay_that_is_not_set_up_is_not_known() {
    let mut relay = Relay::new(String::new());
    let ask = MessageToRelay::Request(MessageRequest {
        id: 9,
        data: MessageRequestData::Status(Present {}),
    });
    assert!(matches!(
        relay.handle_message(ask),
        MessageEffects::Fail(RelayError::StatusFunctionNotSet)
    ));
    assert_eq!(Status::default(), Status { battery_percentage: None });
}

#[test]
fn websocket_events_are_taken_up() {
    let mut relay = connected_relay();
    let step = relay.handle_websocket_event(WebsocketEvent::Ping(vec![1, 2]));
    assert!(step.go_on);
    assert!(matches!(step.action, ReceiverAction::SendPong(data) if data == vec![1, 2]));
    for event in [WebsocketEvent::Unreadable, WebsocketEvent::Binary, WebsocketEvent::Pong] {
        let step = relay.handle_websocket_event(event);
        assert!(step.go_on);
        assert!(matches!(step.action, ReceiverAction::Nothing));
    }
    let step = relay.handle_websocket_event(WebsocketEvent::Message(hello()));
    assert!(step.go_on);
    assert!(matches!(step.action, ReceiverAction::Handle(MessageEffects::Send(_))));
}

#[test]
fn a_closed_websocket_is_opened_again() {
    let mut relay = connected_relay();
    let step = relay.handle_websocket_event(WebsocketEvent::Close);
    assert!(!step.go_on);
    match step.action {
        ReceiverAction::Reconnect(effects) => {
            assert!(effects.stop.close_writer);
            assert_eq!(effects.stop.report, Some(ConnectionStatus::Connecting));
        }
        other => panic!("{:?}", other),
    }
    let step = relay.handle_websocket_event(WebsocketEvent::Ping(vec![]));
    assert!(matches!(step.action, ReceiverAction::Nothing));
}

#[test]
fn only_a_reset_connection_is_opened_again_after_an_error() {
    let mut relay = connected_relay();
    let step = relay.handle_websocket_event(WebsocketEvent::Error("Out of memory".to_string()));
    assert!(!step.go_on);
    assert!(matches!(step.action, ReceiverAction::Nothing));
    let reset = "WebSocket protocol error: Connection reset without closing handshake";
    let step = relay.handle_websocket_event(WebsocketEvent::Error(reset.to_string()));
    assert!(!step.go_on);
    assert!(matches!(step.action, ReceiverAction::Reconnect(_)));
}

fn setup_of(relay: &mut Relay, address: &str) -> TunnelSetup {
    match relay.handle_message(start_tunnel(address)) {
        MessageEffects::StartTunnel(setup) => setup,
        other => panic!("{:?}", other),
    }
}

fn ip(d: u8) -> IpAddress {
    IpAddress::V4(Ipv4Address::new(10, 0, 0, d))
}

fn socket(ip: IpAddress, port: u16) -> SocketAddress {
    SocketAddress { ip, port, flow_info: 0, scope_id: 0 }
}

#[test]
fn a_tunnel_is_opened_step_by_step() {
    let mut relay = connected_relay();
    let mut setup = setup_of(&mut relay, "::ffff:10.0.0.9");
    assert_eq!(setup.address(), "::ffff:10.0.0.9");
    assert_eq!(setup.phase(), TunnelPhase::ReadingBindAddress);
    assert_eq!(relay.bind_address(), "10.0.0.5");
    assert_eq!(
        setup.step(&mut relay, TunnelEvent::BindAddressRead(None, Some(ip(5)))),
        TunnelAction::BindStreamer(socket(IpAddress::V4(Ipv4Address::new(0, 0, 0, 0)), 0))
    );
    assert_eq!(
        setup.step(&mut relay, TunnelEvent::StreamerBound(Some(4444))),
        TunnelAction::Respond(MessageResponse {
            id: 3,
            result: MoblinkResult::Okay(Present {}),
            data: ResponseData::StartTunnel(StartTunnelResponseData { port: 4444 }),
        })
    );
    assert_eq!(
        setup.step(&mut relay, TunnelEvent::ResponseSent(true)),
        TunnelAction::BindDestination(socket(ip(5), 0))
    );
    assert_eq!(
        setup.step(&mut relay, TunnelEvent::DestinationBound(true)),
        TunnelAction::ReadDestination
    );
    let mapped = IpAddress::V6(Ipv6Address {
        s0: 0,
        s1: 0,
        s2: 0,
        s3: 0,
        s4: 0,
        s5: 0xffff,
        s6: 0x0a00,
        s7: 0x0009,
    });
    let number = match setup.step(&mut relay, TunnelEvent::DestinationRead(Some(mapped))) {
        TunnelAction::Forward(address, number) => {
            assert_eq!(address, socket(ip(9), 5000));
            number
        }
        other => panic!("{:?}", other),
    };
    assert_eq!(setup.phase(), TunnelPhase::Forwarding);
    assert!(relay.tunnel_ended(number + 1).is_none());
    assert!(relay.tunnel_ended(number).is_some());
    assert!(relay.tunnel_ended(number).is_none());
}

#[test]
fn a_tunnel_to_an_ipv6_destination_stays_ipv6() {
    let mut relay = connected_relay();
    let mut setup = setup_of(&mut relay, "::1");
    let any = IpAddress::V6(Ipv6Address { s0: 0, s1: 0, s2: 0, s3: 0, s4: 0, s5: 0, s6: 0, s7: 0 });
    let loopback =
        IpAddress::V6(Ipv6Address { s0: 0, s1: 0, s2: 0, s3: 0, s4: 0, s5: 0, s6: 0, s7: 1 });
    setup.step(&mut relay, TunnelEvent::BindAddressRead(None, Some(any)));
    setup.step(&mut relay, TunnelEvent::StreamerBound(Some(4444)));
    assert_eq!(
        setup.step(&mut relay, TunnelEvent::ResponseSent(true)),
        TunnelAction::BindDestination(socket(any, 0))
    );
    setup.step(&mut relay, TunnelEvent::DestinationBound(true));
    match setup.step(&mut relay, TunnelEvent::DestinationRead(Some(loopback))) {
        TunnelAction::Forward(address, _) => assert_eq!(address, socket(loopback, 5000)),
        other => panic!("{:?}", other),
    }
}

#[test]
fn events_out_of_order_do_not_open_a_tunnel() {
    let mut relay = connected_relay();
    let mut setup = setup_of(&mut relay, "10.0.0.9");
    for event in [
        TunnelEvent::StreamerBound(Some(1)),
        TunnelEvent::ResponseSent(true),
        TunnelEvent::DestinationBound(true),
        TunnelEvent::DestinationRead(Some(ip(9))),
    ] {
        assert_eq!(setup.step(&mut relay, event), TunnelAction::Nothing);
        assert_eq!(setup.phase(), TunnelPhase::ReadingBindAddress);
    }
}

#[test]
fn each_step_of_a_tunnel_can_fail() {
    let events = [
        (
            TunnelEvent::BindAddressRead(None, Some(ip(5))),
            TunnelEvent::BindAddressRead(None, None),
            TunnelError::InvalidBindAddress(AddressError::InvalidSyntax),
        ),
        (
            TunnelEvent::StreamerBound(Some(1)),
            TunnelEvent::StreamerBound(None),
            TunnelError::StreamerSocket,
        ),
        (
            TunnelEvent::ResponseSent(true),
            TunnelEvent::ResponseSent(false),
            TunnelError::Response,
        ),
        (
            TunnelEvent::DestinationBound(true),
            TunnelEvent::DestinationBound(false),
            TunnelError::DestinationSocket,
        ),
        (
            TunnelEvent::DestinationRead(Some(ip(9))),
            TunnelEvent::DestinationRead(None),
            TunnelError::InvalidDestination,
        ),
    ];
    for failing in 0..events.len() {
        let mut relay = connected_relay();
        let mut setup = setup_of(&mut relay, "10.0.0.9");
        for i in 0..failing {
            setup.step(&mut relay, events[i].0);
        }
        let (good, bad, error) = events[failing];
        assert_eq!(setup.step(&mut relay, bad), TunnelAction::Fail(error));
        assert_eq!(setup.phase(), TunnelPhase::Failed);
        assert_eq!(setup.step(&mut relay, good), TunnelAction::Nothing);
    }
}

#[test]
fn a_tunnel_needs_a_websocket_to_respond() {
    let mut relay = connected_relay();
    let mut setup = setup_of(&mut relay, "10.0.0.9");
    setup.step(&mut relay, TunnelEvent::BindAddressRead(Some(socket(ip(5), 7)), None));
    relay.stop();
    assert_eq!(
        setup.step(&mut relay, TunnelEvent::StreamerBound(Some(1))),
        TunnelAction::Fail(TunnelError::NoWebsocketWriter)
    );
}

/// Opens a tunnel and tells its number.
fn open_tunnel(relay: &mut Relay) -> u64 {
    let mut setup = setup_of(relay, "10.0.0.9");
    setup.step(relay, TunnelEvent::BindAddressRead(None, Some(ip(5))));
    setup.step(relay, TunnelEvent::StreamerBound(Some(1)));
    setup.step(relay, TunnelEvent::ResponseSent(true));
    setup.step(relay, TunnelEvent::DestinationBound(true));
    match setup.step(relay, TunnelEvent::DestinationRead(Some(ip(9)))) {
        TunnelAction::Forward(_, number) => number,
        other => panic!("{:?}", other),
    }
}

#[test]
fn only_the_latest_tunnel_counts() {
    let mut relay = connected_relay();
    let first = open_tunnel(&mut relay);
    let second = open_tunnel(&mut relay);
    assert_ne!(first, second);
    assert!(relay.tunnel_ended(first).is_none());
    assert!(relay.tunnel_ended(second).is_some());
    assert!(relay.tunnel_ended(second).is_none());
}

#[test]
fn the_earlier_tunnel_does_not_count_after_the_later_one_ended() {
    let mut relay = connected_relay();
    let first = open_tunnel(&mut relay);
    let second = open_tunnel(&mut relay);
    assert!(relay.tunnel_ended(second).is_some());
    assert!(relay.tunnel_ended(first).is_none());
}

#[test]
fn no_tunnel_counts_after_a_stop() {
    let mut relay = connected_relay();
    let first = open_tunnel(&mut relay);
    let second = open_tunnel(&mut relay);
    relay.stop();
    relay.start();
    relay.handle_connect_result(ConnectResult::Connected);
    let third = open_tunnel(&mut relay);
    assert!(third != first && third != second);
    assert!(relay.tunnel_ended(first).is_none());
    assert!(relay.tunnel_ended(second).is_none());
    assert!(relay.tunnel_ended(third).is_some());
}

#[test]
fn numbers_of_tunnels_come_back() {
    let mut relay = connected_relay();
    assert_eq!((open_tunnel(&mut relay), open_tunnel(&mut relay)), (0, 1));
    relay.tunnel_ended(0);
    assert_eq!((open_tunnel(&mut relay), open_tunnel(&mut relay)), (0, 2));
}

#[test]
fn numbers_of_timers_come_back() {
    let mut relay = relay();
    relay.start();
    let timers = [relay.reconnect_soon().timer, relay.reconnect_soon().timer];
    assert_eq!(timers, [0, 1]);
    relay.reconnect_timer_fired(0);
    let timers = [relay.reconnect_soon().timer, relay.reconnect_soon().timer];
    assert_eq!(timers, [0, 2]);
    assert!(matches!(relay.reconnect_timer_fired(1), StartEffects::Nothing));
    assert!(matches!(relay.reconnect_timer_fired(0), StartEffects::Nothing));
    assert!(matches!(relay.reconnect_timer_fired(2), StartEffects::Connect(_)));
}

fn interface(is_up: bool, is_loopback: bool, ips: Vec<IpAddress>) -> BindableInterface {
    BindableInterface { is_up, is_loopback, ips }
}

#[test]
fn the_main_interface_is_bound_to_by_default() {
    let v6 = IpAddress::V6(Ipv6Address { s0: 1, s1: 0, s2: 0, s3: 0, s4: 0, s5: 0, s6: 0, s7: 1 });
    let interfaces = vec![
        interface(true, true, vec![ip(1)]),
        interface(false, false, vec![ip(2)]),
        interface(true, false, vec![]),
        interface(true, false, vec![v6, ip(4), ip(5)]),
        interface(true, false, vec![ip(6)]),
    ];
    assert_eq!(
        Relay::get_default_bind_address(&interfaces),
        Some("10.0.0.4".to_string())
    );
    assert_eq!(
        Relay::get_default_bind_address(&vec![interface(true, false, vec![v6])]),
        Some("0.0.0.0:0".to_string())
    );
    assert_eq!(Relay::get_default_bind_address(&vec![]), None);
}

#[test]
fn the_bind_address_can_be_set() {
    let mut relay = relay();
    relay.set_bind_address("10.0.0.7".to_string());
    assert_eq!(relay.bind_address(), "10.0.0.7");
}

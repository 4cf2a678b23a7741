use moblink_rust::protocol::{
    calculate_authentication, Hello, Identified, Identify, MessageRequest, MessageRequestData,
    MessageResponse, MessageToRelay, MessageToStreamer, MoblinkResult, Present, ResponseData,
    StartTunnelResponseData, StatusResponseData,
};
use moblink_rust::relay::{ConnectResult, MessageEffects, Relay as RelayEnd};
use moblink_rust::session::{
    tun_device_name, CleanupEffects, DisconnectReason, HandlerPhase, PingAction, ReceiveEvent,
    Relay, RelayAction,
};

fn session() -> Relay {
    let mut relay = Relay::new(
        "192.168.1.5".to_string(),
        "10.3.3.1".to_string(),
        1,
        "172.16.0.9".to_string(),
        5000,
    );
    relay.start();
    relay
}

fn hello_of(relay: &mut Relay) -> Hello {
    match relay.start_handshake() {
        Some(MessageToRelay::Hello(hello)) => hello,
        other => panic!("{:?}", other),
    }
}

fn answer(hello: &Hello, password: &str) -> ReceiveEvent {
    ReceiveEvent::Message(MessageToStreamer::Identify(Identify {
        id: "id".to_string(),
        name: "My phone".to_string(),
        authentication: calculate_authentication(
            password,
            &hello.authentication.salt,
            &hello.authentication.challenge,
        ),
    }))
}

fn verdict(action: RelayAction) -> MoblinkResult {
    match action {
        RelayAction::Send(MessageToRelay::Identified(Identified { result })) => result,
        other => panic!("{:?}", other),
    }
}

fn reason(action: RelayAction) -> DisconnectReason {
    match action {
        RelayAction::Disconnect(reason) => reason,
        other => panic!("{:?}", other),
    }
}

fn response(result: MoblinkResult, data: ResponseData) -> ReceiveEvent {
    ReceiveEvent::Message(MessageToStreamer::Response(MessageResponse { id: 1, result, data }))
}

fn opened(port: u16) -> ReceiveEvent {
    response(
        MoblinkResult::Okay(Present {}),
        ResponseData::StartTunnel(StartTunnelResponseData { port }),
    )
}

/// A relay that was asked to open its tunnel.
fn accepted() -> Relay {
    let mut relay = session();
    let hello = hello_of(&mut relay);
    relay.handle_websocket_message(answer(&hello, "1234"), Some("1234"));
    relay.effect_done(true);
    relay.effect_done(true);
    relay.effect_done(true);
    relay
}

#[test]
fn the_challenge_is_new_each_time() {
    let mut relay = session();
    let first = hello_of(&mut relay);
    let second = hello_of(&mut relay);
    assert_eq!(first.api_version, "1.0");
    assert_eq!(first.authentication.challenge.len(), 64);
    assert_eq!(first.authentication.salt.len(), 64);
    assert_ne!(first.authentication.challenge, second.authentication.challenge);
    assert_ne!(first.authentication.salt, second.authentication.salt);
    assert_ne!(first.authentication.salt, first.authentication.challenge);
}

#[test]
fn the_right_password_opens_the_tunnel() {
    let mut relay = session();
    let hello = hello_of(&mut relay);
    let action = relay.handle_websocket_message(answer(&hello, "1234"), Some("1234"));
    assert_eq!(verdict(action), MoblinkResult::Okay(Present {}));
    assert_eq!(relay.phase(), HandlerPhase::SendingAccepted);
    match relay.effect_done(true) {
        RelayAction::CreateTunDevice(name, address) => {
            assert_eq!(name, "mob1-My-phone");
            assert_eq!(address, "10.3.3.1");
        }
        other => panic!("{:?}", other),
    }
    match relay.effect_done(true) {
        RelayAction::Send(MessageToRelay::Request(MessageRequest {
            id: 1,
            data: MessageRequestData::StartTunnel(start_tunnel),
        })) => {
            assert_eq!(start_tunnel.address, "172.16.0.9");
            assert_eq!(start_tunnel.port, 5000);
        }
        other => panic!("{:?}", other),
    }
    assert!(relay.has_tun_device());
    assert!(matches!(relay.effect_done(true), RelayAction::Receive));
    match relay.handle_websocket_message(opened(4444), Some("1234")) {
        RelayAction::ConnectTunnelSocket(address) => assert_eq!(address, "192.168.1.5:4444"),
        other => panic!("{:?}", other),
    }
    assert!(matches!(relay.effect_done(true), RelayAction::StartForwarding));
    assert!(!relay.has_tun_device());
    assert_eq!(relay.phase(), HandlerPhase::Idle);
}

#[test]
fn the_wrong_password_is_rejected() {
    let mut relay = session();
    let hello = hello_of(&mut relay);
    let action = relay.handle_websocket_message(answer(&hello, "4321"), Some("1234"));
    assert_eq!(verdict(action), MoblinkResult::WrongPassword(Present {}));
    assert_eq!(reason(relay.effect_done(true)), DisconnectReason::WrongPassword);
}

#[test]
fn an_answer_is_compared_with_the_expected_one() {
    let identify = |text: &str| Identify {
        id: "id".to_string(),
        name: "n".to_string(),
        authentication: text.to_string(),
    };
    let mut relay = session();
    assert!(relay.start_handshake_with("c".to_string(), "s".to_string()).is_some());
    let action = relay.check_answer(identify("x"), "y".to_string());
    assert_eq!(verdict(action), MoblinkResult::WrongPassword(Present {}));
    let action = relay.check_answer(identify("y"), "y".to_string());
    assert_eq!(verdict(action), MoblinkResult::Okay(Present {}));
}

#[test]
fn a_relay_that_knows_the_password_is_accepted() {
    let mut session = session();
    let hello = hello_of(&mut session);
    let mut relay = RelayEnd::new("10.0.0.5".to_string());
    relay.setup(
        "ws://192.168.1.2:7777".to_string(),
        "secret".to_string(),
        "id".to_string(),
        "name".to_string(),
    );
    relay.start();
    relay.handle_connect_result(ConnectResult::Connected);
    let identify = match relay.handle_message(MessageToRelay::Hello(hello)) {
        MessageEffects::Send(message) => message,
        other => panic!("{:?}", other),
    };
    let event = ReceiveEvent::Message(identify);
    let action = session.handle_websocket_message(event, Some("secret"));
    assert_eq!(verdict(action), MoblinkResult::Okay(Present {}));
}

#[test]
fn no_one_is_accepted_without_a_streamer() {
    let mut relay = session();
    let hello = hello_of(&mut relay);
    let action = relay.handle_websocket_message(answer(&hello, "1234"), None);
    assert_eq!(reason(action), DisconnectReason::NoStreamer);
}

#[test]
fn a_step_that_fails_disconnects() {
    let mut relay = session();
    let hello = hello_of(&mut relay);
    relay.handle_websocket_message(answer(&hello, "1234"), Some("1234"));
    assert_eq!(reason(relay.effect_done(false)), DisconnectReason::SendFailed);
    relay.handle_websocket_message(answer(&hello, "4321"), Some("1234"));
    assert_eq!(reason(relay.effect_done(false)), DisconnectReason::SendFailed);
    relay.handle_websocket_message(answer(&hello, "1234"), Some("1234"));
    relay.effect_done(true);
    assert_eq!(reason(relay.effect_done(false)), DisconnectReason::TunDeviceFailed);
    relay.handle_websocket_message(answer(&hello, "1234"), Some("1234"));
    relay.effect_done(true);
    relay.effect_done(true);
    assert_eq!(reason(relay.effect_done(false)), DisconnectReason::SendFailed);
    relay.handle_websocket_message(opened(1), Some("1234"));
    assert_eq!(reason(relay.effect_done(false)), DisconnectReason::TunnelSocketFailed);
    relay.handle_websocket_message(ReceiveEvent::Ping(vec![]), Some("1234"));
    assert_eq!(reason(relay.effect_done(false)), DisconnectReason::SendFailed);
}

#[test]
fn responses_are_taken_up() {
    let mut relay = accepted();
    let status = ResponseData::Status(StatusResponseData { battery_percentage: Some(5) });
    let event = response(MoblinkResult::Okay(Present {}), status);
    assert!(matches!(
        relay.handle_websocket_message(event, Some("1234")),
        RelayAction::Receive
    ));
    let event = response(MoblinkResult::WrongPassword(Present {}), status);
    assert_eq!(
        reason(relay.handle_websocket_message(event, Some("1234"))),
        DisconnectReason::WrongPasswordResponse
    );
}

#[test]
fn other_events_are_taken_up() {
    let mut relay = accepted();
    let mut take = |event: ReceiveEvent| relay.handle_websocket_message(event, Some("1234"));
    assert!(matches!(
        take(ReceiveEvent::Ping(vec![7])),
        RelayAction::SendPong(data) if data == vec![7]
    ));
    assert!(matches!(take(ReceiveEvent::Pong), RelayAction::Receive));
    assert!(matches!(take(ReceiveEvent::TimedOut), RelayAction::Receive));
    assert_eq!(reason(take(ReceiveEvent::Unreadable)), DisconnectReason::UnreadableMessage);
    assert_eq!(reason(take(ReceiveEvent::Unsupported)), DisconnectReason::UnsupportedMessage);
    assert_eq!(reason(take(ReceiveEvent::Failed)), DisconnectReason::WebsocketFailed);
    assert_eq!(reason(take(ReceiveEvent::Ended)), DisconnectReason::WebsocketEnded);
    assert!(matches!(take(ReceiveEvent::Close), RelayAction::Receive));
    assert!(!relay.is_connected());
}

#[test]
fn unanswered_pings_disconnect() {
    let mut relay = session();
    assert_eq!(relay.ping(), PingAction::Ping);
    relay.handle_websocket_message(ReceiveEvent::Pong, None);
    assert_eq!(relay.ping(), PingAction::Ping);
    assert!(relay.is_connected());
    assert_eq!(relay.ping(), PingAction::Stop);
    assert!(!relay.is_connected());
    assert_eq!(relay.ping(), PingAction::Stop);
}

#[test]
fn a_cleanup_gives_everything_back_once() {
    let nothing = CleanupEffects {
        stop_tun_receiver: false,
        stop_relay_receiver: false,
        drop_tun_writer: false,
        drop_tun_reader: false,
        close_writer: false,
    };
    let mut relay = accepted();
    assert_eq!(
        relay.cleanup(),
        CleanupEffects { drop_tun_writer: true, drop_tun_reader: true, close_writer: true, ..nothing }
    );
    assert_eq!(relay.cleanup(), nothing);
    let mut relay = accepted();
    relay.handle_websocket_message(opened(1), Some("1234"));
    relay.effect_done(true);
    assert_eq!(
        relay.cleanup(),
        CleanupEffects {
            stop_tun_receiver: true,
            stop_relay_receiver: true,
            close_writer: true,
            ..nothing
        }
    );
    assert_eq!(relay.cleanup(), nothing);
    assert!(relay.is_connected());
    assert_eq!(relay.close(), nothing);
    assert!(!relay.is_connected());
}

#[test]
fn a_session_is_over_when_the_relay_closes_it() {
    let mut relay = accepted();
    assert!(!relay.is_over(&RelayAction::Receive));
    let action = relay.handle_websocket_message(ReceiveEvent::Pong, None);
    assert!(!relay.is_over(&action));
    let action = relay.handle_websocket_message(ReceiveEvent::Close, None);
    assert!(matches!(action, RelayAction::Receive));
    assert!(relay.is_over(&action));
    assert!(relay.is_over(&RelayAction::StartForwarding));
}

#[test]
fn a_session_is_over_when_a_ping_is_not_answered() {
    let mut relay = accepted();
    assert_eq!(relay.ping(), PingAction::Ping);
    assert!(!relay.is_over(&RelayAction::Receive));
    assert_eq!(relay.ping(), PingAction::Stop);
    assert!(relay.is_over(&RelayAction::Receive));
    let action = relay.handle_websocket_message(ReceiveEvent::Pong, None);
    assert!(relay.is_over(&action));
}

#[test]
fn a_session_is_over_when_the_relay_is_disconnected() {
    let mut relay = accepted();
    let action = relay.handle_websocket_message(ReceiveEvent::Unreadable, None);
    assert!(relay.is_over(&action));
    let action = relay.handle_websocket_message(ReceiveEvent::Ping(vec![1]), None);
    assert!(!relay.is_over(&action));
}

#[test]
fn an_ended_session_is_silent() {
    let mut relay = accepted();
    let effects = relay.close();
    assert!(effects.close_writer && effects.drop_tun_writer && effects.drop_tun_reader);
    assert!(!effects.stop_tun_receiver && !effects.stop_relay_receiver);
    assert!(!relay.is_connected());
    assert!(relay.is_over(&RelayAction::Receive));
    assert_eq!(relay.ping(), PingAction::Stop);
    assert!(relay.start_handshake().is_none());
    assert_eq!(
        reason(relay.handle_websocket_message(ReceiveEvent::Ping(vec![]), None)),
        DisconnectReason::NoWebsocketWriter
    );
}

#[test]
fn nothing_is_sent_after_a_cleanup() {
    let mut relay = accepted();
    relay.cleanup();
    assert!(relay.start_handshake().is_none());
    assert_eq!(
        reason(relay.handle_websocket_message(ReceiveEvent::Ping(vec![]), None)),
        DisconnectReason::NoWebsocketWriter
    );
    assert_eq!(
        reason(relay.handle_websocket_message(ReceiveEvent::TimedOut, None)),
        DisconnectReason::TimedOut
    );
    assert!(matches!(relay.start_tunnel(), RelayAction::Receive));
}

#[test]
fn device_names_hold_no_white_space_and_no_other_alphabets() {
    assert_eq!(tun_device_name(12, "a b\tc\u{e5}d"), "mob12-a-b-c-d");
    assert_eq!(tun_device_name(1, ""), "mob1-");
    assert_eq!(tun_device_name(3, "eth0_x"), "mob3-eth0_x");
}

//! A relay that is connected to a streamer.
//!
//! The websocket, the TUN device and the UDP socket are the caller's. Each
//! method takes what happened and returns what is to be done about it.
use vstd::prelude::*;

use crate::protocol::{
    calculate_authentication, Authentication, Hello, Identified, Identify, MessageRequest,
    MessageRequestData, MessageResponse, MessageToRelay, MessageToStreamer, MoblinkResult, Present,
    ResponseData, StartTunnelRequest, API_VERSION,
};
use crate::text::{chars_of, decimal, white_space};
use crate::utils::{new_uuid, random_string};

verus! {

/// How long a streamer waits for a websocket message before it looks whether
/// the relay is still there.
pub const WEBSOCKET_TIMEOUT_SECONDS: u64 = 60;

/// How often a streamer pings a relay.
pub const PING_INTERVAL_SECONDS: u64 = 10;

/// The number of the request that opens the tunnel.
pub const START_TUNNEL_REQUEST_ID: u32 = 1;

/// A message to a relay as plain values.
pub enum RelayMessage {
    Hello { api_version: Seq<char>, challenge: Seq<char>, salt: Seq<char> },
    Identified(MoblinkResult),
    StartTunnel { id: u32, address: Seq<char>, port: u16 },
    Status { id: u32 },
}

/// What a message to a relay says.
pub open spec fn relay_message(message: MessageToRelay) -> RelayMessage {
    match message {
        MessageToRelay::Hello(hello) => RelayMessage::Hello {
            api_version: hello.api_version@,
            challenge: hello.authentication.challenge@,
            salt: hello.authentication.salt@,
        },
        MessageToRelay::Identified(identified) => RelayMessage::Identified(identified.result),
        MessageToRelay::Request(request) => match request.data {
            MessageRequestData::StartTunnel(start_tunnel) => RelayMessage::StartTunnel {
                id: request.id,
                address: start_tunnel.address@,
                port: start_tunnel.port,
            },
            MessageRequestData::Status(_) => RelayMessage::Status { id: request.id },
        },
    }
}

/// Why a relay is disconnected.
#[derive(Clone, Copy, PartialEq, Eq, Structural, Debug)]
pub enum DisconnectReason {
    /// The streamer is gone.
    NoStreamer,
    /// The relay's answer to the challenge is wrong.
    WrongPassword,
    /// The relay says that the password is wrong.
    WrongPasswordResponse,
    NoWebsocketWriter,
    SendFailed,
    TunDeviceFailed,
    TunnelSocketFailed,
    /// The relay sent a text that is no message.
    UnreadableMessage,
    /// The relay sent something that is no text.
    UnsupportedMessage,
    WebsocketFailed,
    WebsocketEnded,
    /// Nothing came in time, and there is no websocket to write to.
    TimedOut,
}

/// What a relay's message, or what was done about it, takes next.
#[derive(Debug)]
pub enum RelayAction {
    /// Go on receiving.
    Receive,
    /// Send this, and tell whether it was sent.
    Send(MessageToRelay),
    /// Send a pong with this data, and tell whether it was sent.
    SendPong(Vec<u8>),
    /// Make a TUN device with this name and address, and tell whether it was
    /// made.
    CreateTunDevice(String, String),
    /// Connect a UDP socket to this address, and tell whether that worked.
    ConnectTunnelSocket(String),
    /// Move packets between the TUN device and the socket, and go on receiving.
    StartForwarding,
    /// Stop receiving and clean up.
    Disconnect(DisconnectReason),
}

/// What is to be done next, as plain values.
pub enum RelayActionView {
    Receive,
    Send(RelayMessage),
    SendPong(Seq<u8>),
    CreateTunDevice(Seq<char>, Seq<char>),
    ConnectTunnelSocket(Seq<char>),
    StartForwarding,
    Disconnect(DisconnectReason),
}

impl View for RelayAction {
    type V = RelayActionView;

    open spec fn view(&self) -> RelayActionView {
        match *self {
            RelayAction::Receive => RelayActionView::Receive,
            RelayAction::Send(message) => RelayActionView::Send(relay_message(message)),
            RelayAction::SendPong(data) => RelayActionView::SendPong(data@),
            RelayAction::CreateTunDevice(name, ip) => RelayActionView::CreateTunDevice(name@, ip@),
            RelayAction::ConnectTunnelSocket(address) => RelayActionView::ConnectTunnelSocket(
                address@,
            ),
            RelayAction::StartForwarding => RelayActionView::StartForwarding,
            RelayAction::Disconnect(reason) => RelayActionView::Disconnect(reason),
        }
    }
}

/// What the handling of a message waits for.
#[derive(Clone, Copy, PartialEq, Eq, Structural, Debug)]
pub enum HandlerPhase {
    /// Nothing.
    Idle,
    SendingPong,
    /// The verdict that the password is right.
    SendingAccepted,
    /// The verdict that the password is wrong.
    SendingRejected,
    CreatingTunDevice,
    RequestingTunnel,
    ConnectingTunnelSocket,
}

/// What came from a relay's websocket.
#[derive(Debug)]
pub enum ReceiveEvent {
    Message(MessageToStreamer),
    /// A text that is no message.
    Unreadable,
    Ping(Vec<u8>),
    Pong,
    Close,
    /// Something else.
    Unsupported,
    Failed,
    Ended,
    TimedOut,
}

/// What a ping takes.
#[derive(Clone, Copy, PartialEq, Eq, Structural, Debug)]
pub enum PingAction {
    /// Send a ping and wait.
    Ping,
    /// Stop pinging.
    Stop,
}

/// What is to be given back when a relay is gone, in this order.
#[derive(Clone, Copy, PartialEq, Eq, Structural, Debug)]
pub struct CleanupEffects {
    pub stop_tun_receiver: bool,
    pub stop_relay_receiver: bool,
    pub drop_tun_writer: bool,
    pub drop_tun_reader: bool,
    pub close_writer: bool,
}

/// A relay's state as plain values.
pub struct StreamerRelayState {
    /// The relay's address without its port.
    pub relay_ip: Seq<char>,
    /// Whether there is a websocket to write to.
    pub writer: bool,
    pub challenge: Seq<char>,
    pub salt: Seq<char>,
    pub identified: bool,
    pub relay_id: Seq<char>,
    pub relay_name: Seq<char>,
    pub relay_tunnel_port: Option<u16>,
    pub tun_ip_address: Seq<char>,
    /// Whether there is a TUN device to write to that nobody uses yet.
    pub tun_writer: bool,
    /// Whether there is a TUN device to read from that nobody uses yet.
    pub tun_reader: bool,
    pub relay_receiver: bool,
    pub tun_receiver: bool,
    pub unique_index: u32,
    pub pong_received: bool,
    pub tun_device_name: Seq<char>,
    pub connected: bool,
    pub destination_address: Seq<char>,
    pub destination_port: u16,
    pub phase: HandlerPhase,
}

/// Whether a character may stand in a device's name.
pub open spec fn is_device_char(c: char) -> bool {
    (c as u32) < 128 && !crate::text::is_white_space(c)
}

/// A text with a hyphen for each character that may not stand in a device's
/// name.
pub open spec fn device_safe(text: Seq<char>) -> Seq<char> {
    Seq::new(text.len(), |i: int| if is_device_char(text[i]) { text[i] } else { '-' })
}

/// The name of the TUN device of the relay with an index and a name.
pub open spec fn device_name(index: u32, name: Seq<char>) -> Seq<char> {
    "mob"@ + crate::text::decimal_text(index as nat) + "-"@ + device_safe(name)
}

/// The name of the TUN device of the relay with an index and a name.
pub fn tun_device_name(index: u32, name: &str) -> (r: String)
    ensures
        r@ == device_name(index, name@),
{
    let mut text: String = "mob".to_owned();
    text.append(decimal(index as u64).as_str());
    text.append("-");
    let chars: Vec<char> = chars_of(name);
    let ghost prefix = text@;
    let mut i: usize = 0;
    while i < chars.len()
        invariant
            chars@ == name@,
            i <= chars@.len(),
            text@ == prefix + device_safe(name@).take(i as int),
        decreases chars@.len() - i,
    {
        let c: char = chars[i];
        text.push(
            if (c as u32) < 128 && !white_space(c) {
                c
            } else {
                '-'
            },
        );
        proof {
            assert(device_safe(name@).take(i + 1) =~= device_safe(name@).take(i as int).push(
                device_safe(name@)[i as int],
            ));
            assert(text@ =~= prefix + device_safe(name@).take(i + 1));
        }
        i = i + 1;
    }
    proof {
        assert(device_safe(name@).take(name@.len() as int) =~= device_safe(name@));
    }
    text
}

impl StreamerRelayState {
    /// What a relay that is being accepted waits for, it waits for only once it
    /// is identified.
    pub open spec fn wf(self) -> bool {
        self.phase is SendingAccepted || self.phase is CreatingTunDevice
            || self.phase is RequestingTunnel ==> self.identified
    }

    /// Sends a message and waits for it to be sent, where there is a websocket
    /// to write to.
    pub open spec fn sending(self, message: RelayMessage, phase: HandlerPhase) -> (
        StreamerRelayState,
        RelayActionView,
    ) {
        if self.writer {
            (StreamerRelayState { phase, ..self }, RelayActionView::Send(message))
        } else {
            self.dropping(DisconnectReason::NoWebsocketWriter)
        }
    }

    /// Disconnects the relay.
    pub open spec fn dropping(self, reason: DisconnectReason) -> (
        StreamerRelayState,
        RelayActionView,
    ) {
        (
            StreamerRelayState { phase: HandlerPhase::Idle, ..self },
            RelayActionView::Disconnect(reason),
        )
    }

    /// Goes on receiving.
    pub open spec fn going_on(self) -> (StreamerRelayState, RelayActionView) {
        (StreamerRelayState { phase: HandlerPhase::Idle, ..self }, RelayActionView::Receive)
    }

    /// Waits for something to be done.
    pub open spec fn waiting(self, phase: HandlerPhase, action: RelayActionView) -> (
        StreamerRelayState,
        RelayActionView,
    ) {
        (StreamerRelayState { phase, ..self }, action)
    }

    /// The state of a relay that gave the right answer.
    pub open spec fn accepted(self, id: Seq<char>, name: Seq<char>) -> StreamerRelayState {
        StreamerRelayState {
            identified: true,
            relay_id: id,
            relay_name: name,
            tun_device_name: device_name(self.unique_index, name),
            ..self
        }
    }

    /// Compares a relay's answer with the expected one.
    pub open spec fn identifying(
        self,
        id: Seq<char>,
        name: Seq<char>,
        answer: Seq<char>,
        expected: Seq<char>,
    ) -> (StreamerRelayState, RelayActionView) {
        if answer == expected {
            self.accepted(id, name).sending(
                RelayMessage::Identified(MoblinkResult::Okay(Present {  })),
                HandlerPhase::SendingAccepted,
            )
        } else {
            self.sending(
                RelayMessage::Identified(MoblinkResult::WrongPassword(Present {  })),
                HandlerPhase::SendingRejected,
            )
        }
    }

    /// The answer that the relay has to give.
    pub open spec fn expected_answer(self, password: Seq<char>) -> Seq<char> {
        crate::protocol::authentication_text(password, self.salt, self.challenge)
    }

    /// Takes up who a relay says it is.
    pub open spec fn on_identify(self, identify: Identify, password: Option<Seq<char>>) -> (
        StreamerRelayState,
        RelayActionView,
    ) {
        match password {
            Some(password) => self.identifying(
                identify.id@,
                identify.name@,
                identify.authentication@,
                self.expected_answer(password),
            ),
            None => self.dropping(DisconnectReason::NoStreamer),
        }
    }

    /// The address of the relay's tunnel.
    pub open spec fn tunnel_address(self, port: u16) -> Seq<char> {
        self.relay_ip + ":"@ + crate::text::decimal_text(port as nat)
    }

    /// Takes up a response.
    pub open spec fn on_response(self, response: MessageResponse) -> (
        StreamerRelayState,
        RelayActionView,
    ) {
        match response.result {
            MoblinkResult::WrongPassword(_) => self.dropping(
                DisconnectReason::WrongPasswordResponse,
            ),
            MoblinkResult::Okay(_) => match response.data {
                ResponseData::StartTunnel(data) => {
                    let opened = StreamerRelayState {
                        relay_tunnel_port: Some(data.port),
                        ..self
                    };
                    opened.waiting(
                        HandlerPhase::ConnectingTunnelSocket,
                        RelayActionView::ConnectTunnelSocket(self.tunnel_address(data.port)),
                    )
                },
                ResponseData::Status(_) => self.going_on(),
            },
        }
    }

    /// Takes up something from the websocket.
    pub open spec fn on_event(self, event: ReceiveEvent, password: Option<Seq<char>>) -> (
        StreamerRelayState,
        RelayActionView,
    ) {
        match event {
            ReceiveEvent::Message(MessageToStreamer::Identify(identify)) => self.on_identify(
                identify,
                password,
            ),
            ReceiveEvent::Message(MessageToStreamer::Response(response)) => self.on_response(
                response,
            ),
            ReceiveEvent::Unreadable => self.dropping(DisconnectReason::UnreadableMessage),
            ReceiveEvent::Ping(data) => if self.writer {
                self.waiting(HandlerPhase::SendingPong, RelayActionView::SendPong(data@))
            } else {
                self.dropping(DisconnectReason::NoWebsocketWriter)
            },
            ReceiveEvent::Pong => (StreamerRelayState { pong_received: true, ..self }).going_on(),
            ReceiveEvent::Close => (StreamerRelayState { connected: false, ..self }).going_on(),
            ReceiveEvent::Unsupported => self.dropping(DisconnectReason::UnsupportedMessage),
            ReceiveEvent::Failed => self.dropping(DisconnectReason::WebsocketFailed),
            ReceiveEvent::Ended => self.dropping(DisconnectReason::WebsocketEnded),
            ReceiveEvent::TimedOut => if self.writer {
                self.going_on()
            } else {
                self.dropping(DisconnectReason::TimedOut)
            },
        }
    }

    /// Asks an identified relay to open the tunnel.
    pub open spec fn starting_tunnel(self) -> (StreamerRelayState, RelayActionView) {
        if self.identified {
            self.sending(
                RelayMessage::StartTunnel {
                    id: START_TUNNEL_REQUEST_ID,
                    address: self.destination_address,
                    port: self.destination_port,
                },
                HandlerPhase::RequestingTunnel,
            )
        } else {
            self.going_on()
        }
    }

    /// Takes up whether what was waited for worked.
    pub open spec fn on_done(self, worked: bool) -> (StreamerRelayState, RelayActionView) {
        match self.phase {
            HandlerPhase::Idle => self.going_on(),
            HandlerPhase::SendingPong => if worked {
                self.going_on()
            } else {
                self.dropping(DisconnectReason::SendFailed)
            },
            HandlerPhase::SendingAccepted => if worked {
                self.waiting(
                    HandlerPhase::CreatingTunDevice,
                    RelayActionView::CreateTunDevice(self.tun_device_name, self.tun_ip_address),
                )
            } else {
                self.dropping(DisconnectReason::SendFailed)
            },
            HandlerPhase::SendingRejected => if worked {
                self.dropping(DisconnectReason::WrongPassword)
            } else {
                self.dropping(DisconnectReason::SendFailed)
            },
            HandlerPhase::CreatingTunDevice => if worked {
                (StreamerRelayState { tun_writer: true, tun_reader: true, ..self }).starting_tunnel()
            } else {
                self.dropping(DisconnectReason::TunDeviceFailed)
            },
            HandlerPhase::RequestingTunnel => if worked {
                self.going_on()
            } else {
                self.dropping(DisconnectReason::SendFailed)
            },
            HandlerPhase::ConnectingTunnelSocket => if worked {
                (StreamerRelayState {
                    tun_writer: false,
                    tun_reader: false,
                    relay_receiver: true,
                    tun_receiver: true,
                    ..self
                }).waiting(HandlerPhase::Idle, RelayActionView::StartForwarding)
            } else {
                self.dropping(DisconnectReason::TunnelSocketFailed)
            },
        }
    }

    /// The state once everything was given back.
    pub open spec fn cleaned_up(self) -> StreamerRelayState {
        StreamerRelayState {
            tun_receiver: false,
            relay_receiver: false,
            tun_writer: false,
            tun_reader: false,
            writer: false,
            identified: false,
            relay_tunnel_port: None,
            pong_received: false,
            phase: HandlerPhase::Idle,
            ..self
        }
    }

    /// The state once the session ended.
    pub open spec fn closed(self) -> StreamerRelayState {
        StreamerRelayState { connected: false, ..self.cleaned_up() }
    }

    /// Whether the session is over once an action is done: the relay is to be
    /// disconnected, or nothing is left to do and it is no longer connected.
    pub open spec fn is_over(self, action: RelayActionView) -> bool {
        match action {
            RelayActionView::Disconnect(_) => true,
            RelayActionView::Receive => !self.connected,
            RelayActionView::StartForwarding => !self.connected,
            _ => false,
        }
    }

    /// What is to be given back.
    pub open spec fn cleanup_effects(self) -> CleanupEffects {
        CleanupEffects {
            stop_tun_receiver: self.tun_receiver,
            stop_relay_receiver: self.relay_receiver,
            drop_tun_writer: self.tun_writer,
            drop_tun_reader: self.tun_reader,
            close_writer: self.writer,
        }
    }

    /// Takes up that it is time to ping.
    pub open spec fn on_ping(self) -> (StreamerRelayState, PingAction) {
        if !self.connected {
            (self, PingAction::Stop)
        } else if !self.pong_received {
            (StreamerRelayState { connected: false, ..self }, PingAction::Stop)
        } else {
            (StreamerRelayState { pong_received: false, ..self }, PingAction::Ping)
        }
    }

    /// The state once a challenge was made.
    pub open spec fn challenged(self, challenge: Seq<char>, salt: Seq<char>) -> StreamerRelayState {
        StreamerRelayState {
            challenge,
            salt,
            identified: false,
            phase: HandlerPhase::Idle,
            ..self
        }
    }

    /// The message that poses the challenge.
    pub open spec fn hello(self) -> RelayMessage {
        RelayMessage::Hello {
            api_version: API_VERSION@,
            challenge: self.challenge,
            salt: self.salt,
        }
    }
}

/// A relay that is connected to a streamer.
#[derive(Debug)]
pub struct Relay {
    relay_ip: String,
    writer: bool,
    challenge: String,
    salt: String,
    identified: bool,
    relay_id: String,
    relay_name: String,
    relay_tunnel_port: Option<u16>,
    tun_ip_address: String,
    tun_writer: bool,
    tun_reader: bool,
    relay_receiver: bool,
    tun_receiver: bool,
    unique_index: u32,
    pong_received: bool,
    tun_device_name: String,
    connected: bool,
    destination_address: String,
    destination_port: u16,
    phase: HandlerPhase,
}

impl View for Relay {
    type V = StreamerRelayState;

    closed spec fn view(&self) -> StreamerRelayState {
        StreamerRelayState {
            relay_ip: self.relay_ip@,
            writer: self.writer,
            challenge: self.challenge@,
            salt: self.salt@,
            identified: self.identified,
            relay_id: self.relay_id@,
            relay_name: self.relay_name@,
            relay_tunnel_port: self.relay_tunnel_port,
            tun_ip_address: self.tun_ip_address@,
            tun_writer: self.tun_writer,
            tun_reader: self.tun_reader,
            relay_receiver: self.relay_receiver,
            tun_receiver: self.tun_receiver,
            unique_index: self.unique_index,
            pong_received: self.pong_received,
            tun_device_name: self.tun_device_name@,
            connected: self.connected,
            destination_address: self.destination_address@,
            destination_port: self.destination_port,
            phase: self.phase,
        }
    }
}

/// The state of a relay that has just connected.
pub open spec fn fresh_relay(
    relay_ip: Seq<char>,
    relay_id: Seq<char>,
    tun_ip_address: Seq<char>,
    unique_index: u32,
    destination_address: Seq<char>,
    destination_port: u16,
) -> StreamerRelayState {
    StreamerRelayState {
        relay_ip,
        writer: true,
        challenge: Seq::empty(),
        salt: Seq::empty(),
        identified: false,
        relay_id,
        relay_name: Seq::empty(),
        relay_tunnel_port: None,
        tun_ip_address,
        tun_writer: false,
        tun_reader: false,
        relay_receiver: false,
        tun_receiver: false,
        unique_index,
        pong_received: true,
        tun_device_name: Seq::empty(),
        connected: false,
        destination_address,
        destination_port,
        phase: HandlerPhase::Idle,
    }
}

impl Relay {
    /// A relay that has just connected. Until it identifies itself, it has an
    /// identity of its own that is left to chance.
    pub fn new(
        relay_ip: String,
        tun_ip_address: String,
        unique_index: u32,
        destination_address: String,
        destination_port: u16,
    ) -> (r: Relay)
        ensures
            crate::utils::is_uuid_text(r@.relay_id),
            r@ == fresh_relay(
                relay_ip@,
                r@.relay_id,
                tun_ip_address@,
                unique_index,
                destination_address@,
                destination_port,
            ),
    {
        Relay {
            relay_ip,
            writer: true,
            challenge: String::new(),
            salt: String::new(),
            identified: false,
            relay_id: new_uuid(),
            relay_name: String::new(),
            relay_tunnel_port: None,
            tun_ip_address,
            tun_writer: false,
            tun_reader: false,
            relay_receiver: false,
            tun_receiver: false,
            unique_index,
            pong_received: true,
            tun_device_name: String::new(),
            connected: false,
            destination_address,
            destination_port,
            phase: HandlerPhase::Idle,
        }
    }

    /// Marks the relay as connected.
    pub fn start(&mut self)
        ensures
            final(self)@ == (StreamerRelayState { connected: true, ..old(self)@ }),
    {
        self.connected = true;
    }

    /// Whether the relay is connected.
    pub fn is_connected(&self) -> (r: bool)
        ensures
            r == self@.connected,
    {
        self.connected
    }

    /// Whether there is a TUN device that nobody uses yet.
    pub fn has_tun_device(&self) -> (r: bool)
        ensures
            r == (self@.tun_writer && self@.tun_reader),
    {
        self.tun_writer && self.tun_reader
    }

    /// What the handling of a message waits for.
    pub fn phase(&self) -> (r: HandlerPhase)
        ensures
            r == self@.phase,
    {
        self.phase
    }

    /// The index that the relay has to give back.
    pub fn unique_index(&self) -> (r: u32)
        ensures
            r == self@.unique_index,
    {
        self.unique_index
    }

    /// The address of the relay's TUN device.
    pub fn tun_ip_address(&self) -> (r: String)
        ensures
            r@ == self@.tun_ip_address,
    {
        self.tun_ip_address.clone()
    }

    /// The address of the destination.
    pub fn destination_address(&self) -> (r: String)
        ensures
            r@ == self@.destination_address,
    {
        self.destination_address.clone()
    }

    /// The port of the destination.
    pub fn destination_port(&self) -> (r: u16)
        ensures
            r == self@.destination_port,
    {
        self.destination_port
    }

    /// Makes a challenge and poses it, where there is a websocket to write to.
    pub fn start_handshake(&mut self) -> (r: Option<MessageToRelay>)
        ensures
            final(self)@ == old(self)@.challenged(final(self)@.challenge, final(self)@.salt),
            final(self)@.challenge.len() == 64,
            final(self)@.salt.len() == 64,
            forall|i: int|
                0 <= i < 64 ==> crate::utils::is_ascii_alphanumeric(
                    #[trigger] final(self)@.challenge[i],
                ),
            forall|i: int|
                0 <= i < 64 ==> crate::utils::is_ascii_alphanumeric(
                    #[trigger] final(self)@.salt[i],
                ),
            match r {
                Some(message) => old(self)@.writer && relay_message(message)
                    == final(self)@.hello(),
                None => !old(self)@.writer,
            },
    {
        let challenge: String = random_string();
        let salt: String = random_string();
        self.start_handshake_with(challenge, salt)
    }

    /// Poses a challenge, where there is a websocket to write to.
    pub fn start_handshake_with(&mut self, challenge: String, salt: String) -> (r: Option<
        MessageToRelay,
    >)
        ensures
            final(self)@ == old(self)@.challenged(challenge@, salt@),
            match r {
                Some(message) => old(self)@.writer && relay_message(message)
                    == final(self)@.hello(),
                None => !old(self)@.writer,
            },
    {
        self.challenge = challenge;
        self.salt = salt;
        self.identified = false;
        self.phase = HandlerPhase::Idle;
        if self.writer {
            Some(self.hello_message())
        } else {
            None
        }
    }

    /// The message that poses the challenge.
    fn hello_message(&self) -> (r: MessageToRelay)
        ensures
            relay_message(r) == self@.hello(),
    {
        MessageToRelay::Hello(
            Hello {
                api_version: API_VERSION.to_owned(),
                authentication: Authentication {
                    challenge: self.challenge.clone(),
                    salt: self.salt.clone(),
                },
            },
        )
    }

    /// Takes up something from the websocket. The password is the streamer's,
    /// if it is still there.
    pub fn handle_websocket_message(&mut self, event: ReceiveEvent, password: Option<&str>) -> (r:
        RelayAction)
        ensures
            (final(self)@, r@) == old(self)@.on_event(event, password_text(password)),
    {
        match event {
            ReceiveEvent::Message(message) => self.handle_message(message, password),
            ReceiveEvent::Unreadable => self.disconnect(DisconnectReason::UnreadableMessage),
            ReceiveEvent::Ping(data) => {
                if self.writer {
                    self.phase = HandlerPhase::SendingPong;
                    RelayAction::SendPong(data)
                } else {
                    self.disconnect(DisconnectReason::NoWebsocketWriter)
                }
            },
            ReceiveEvent::Pong => {
                self.pong_received = true;
                self.go_on()
            },
            ReceiveEvent::Close => {
                self.connected = false;
                self.go_on()
            },
            ReceiveEvent::Unsupported => self.disconnect(DisconnectReason::UnsupportedMessage),
            ReceiveEvent::Failed => self.disconnect(DisconnectReason::WebsocketFailed),
            ReceiveEvent::Ended => self.disconnect(DisconnectReason::WebsocketEnded),
            ReceiveEvent::TimedOut => {
                if self.writer {
                    self.go_on()
                } else {
                    self.disconnect(DisconnectReason::TimedOut)
                }
            },
        }
    }

    /// Takes up a message.
    pub fn handle_message(&mut self, message: MessageToStreamer, password: Option<&str>) -> (r:
        RelayAction)
        ensures
            (final(self)@, r@) == match message {
                MessageToStreamer::Identify(identify) => old(self)@.on_identify(
                    identify,
                    password_text(password),
                ),
                MessageToStreamer::Response(response) => old(self)@.on_response(response),
            },
    {
        match message {
            MessageToStreamer::Identify(identify) => self.handle_message_identify(
                identify,
                password,
            ),
            MessageToStreamer::Response(response) => self.handle_message_response(response),
        }
    }

    /// Takes up who the relay says it is.
    pub fn handle_message_identify(&mut self, identify: Identify, password: Option<&str>) -> (r:
        RelayAction)
        ensures
            (final(self)@, r@) == old(self)@.on_identify(identify, password_text(password)),
    {
        match password {
            Some(password) => {
                let expected: String = calculate_authentication(
                    password,
                    self.salt.as_str(),
                    self.challenge.as_str(),
                );
                self.check_answer(identify, expected)
            },
            None => self.disconnect(DisconnectReason::NoStreamer),
        }
    }

    /// Compares the relay's answer with the expected one.
    pub fn check_answer(&mut self, identify: Identify, expected: String) -> (r: RelayAction)
        ensures
            (final(self)@, r@) == old(self)@.identifying(
                identify.id@,
                identify.name@,
                identify.authentication@,
                expected@,
            ),
    {
        if identify.authentication == expected {
            self.identified = true;
            self.relay_id = identify.id;
            self.relay_name = identify.name;
            self.tun_device_name = tun_device_name(self.unique_index, self.relay_name.as_str());
            let verdict: Identified = Identified { result: MoblinkResult::Okay(Present {  }) };
            self.send(MessageToRelay::Identified(verdict), HandlerPhase::SendingAccepted)
        } else {
            let verdict: Identified = Identified {
                result: MoblinkResult::WrongPassword(Present {  }),
            };
            self.send(MessageToRelay::Identified(verdict), HandlerPhase::SendingRejected)
        }
    }

    /// Takes up a response.
    pub fn handle_message_response(&mut self, response: MessageResponse) -> (r: RelayAction)
        ensures
            (final(self)@, r@) == old(self)@.on_response(response),
    {
        match response.result {
            MoblinkResult::Okay(_) => match response.data {
                ResponseData::StartTunnel(data) => {
                    self.relay_tunnel_port = Some(data.port);
                    self.phase = HandlerPhase::ConnectingTunnelSocket;
                    RelayAction::ConnectTunnelSocket(self.tunnel_address(data.port))
                },
                ResponseData::Status(_) => self.go_on(),
            },
            MoblinkResult::WrongPassword(_) => self.disconnect(
                DisconnectReason::WrongPasswordResponse,
            ),
        }
    }

    /// The address of the relay's tunnel.
    fn tunnel_address(&self, port: u16) -> (r: String)
        ensures
            r@ == self@.tunnel_address(port),
    {
        let mut text: String = self.relay_ip.clone();
        text.append(":");
        text.append(decimal(port as u64).as_str());
        text
    }

    /// Takes up whether what was waited for worked. A tunnel whose socket is
    /// connected needs a TUN device that nobody uses yet.
    pub fn effect_done(&mut self, worked: bool) -> (r: RelayAction)
        requires
            old(self)@.phase is ConnectingTunnelSocket && worked ==> old(self)@.tun_writer && old(self)@.tun_reader,
        ensures
            (final(self)@, r@) == old(self)@.on_done(worked),
    {
        match self.phase {
            HandlerPhase::Idle => self.go_on(),
            HandlerPhase::SendingPong => self.go_on_if(worked),
            HandlerPhase::SendingAccepted => {
                if worked {
                    self.phase = HandlerPhase::CreatingTunDevice;
                    RelayAction::CreateTunDevice(
                        self.tun_device_name.clone(),
                        self.tun_ip_address.clone(),
                    )
                } else {
                    self.disconnect(DisconnectReason::SendFailed)
                }
            },
            HandlerPhase::SendingRejected => {
                if worked {
                    self.disconnect(DisconnectReason::WrongPassword)
                } else {
                    self.disconnect(DisconnectReason::SendFailed)
                }
            },
            HandlerPhase::CreatingTunDevice => {
                if worked {
                    self.tun_writer = true;
                    self.tun_reader = true;
                    self.start_tunnel()
                } else {
                    self.disconnect(DisconnectReason::TunDeviceFailed)
                }
            },
            HandlerPhase::RequestingTunnel => self.go_on_if(worked),
            HandlerPhase::ConnectingTunnelSocket => {
                if worked {
                    self.tun_writer = false;
                    self.tun_reader = false;
                    self.relay_receiver = true;
                    self.tun_receiver = true;
                    self.phase = HandlerPhase::Idle;
                    RelayAction::StartForwarding
                } else {
                    self.disconnect(DisconnectReason::TunnelSocketFailed)
                }
            },
        }
    }

    /// Asks an identified relay to open the tunnel.
    pub fn start_tunnel(&mut self) -> (r: RelayAction)
        ensures
            (final(self)@, r@) == old(self)@.starting_tunnel(),
    {
        if !self.identified {
            return self.go_on();
        }
        let start_tunnel: StartTunnelRequest = StartTunnelRequest {
            address: self.destination_address.clone(),
            port: self.destination_port,
        };
        let request: MessageRequest = MessageRequest {
            id: START_TUNNEL_REQUEST_ID,
            data: MessageRequestData::StartTunnel(start_tunnel),
        };
        self.send(MessageToRelay::Request(request), HandlerPhase::RequestingTunnel)
    }

    /// Takes up that it is time to ping. A relay that has not answered the ping
    /// before is disconnected.
    pub fn ping(&mut self) -> (r: PingAction)
        ensures
            (final(self)@, r) == old(self)@.on_ping(),
    {
        if !self.connected {
            return PingAction::Stop;
        }
        if !self.pong_received {
            self.connected = false;
            return PingAction::Stop;
        }
        self.pong_received = false;
        PingAction::Ping
    }

    /// Whether the session is over once an action is done. Where it is not, and
    /// nothing else is left to do, the next message is received.
    pub fn is_over(&self, action: &RelayAction) -> (r: bool)
        ensures
            r == self@.is_over(action@),
    {
        match action {
            RelayAction::Disconnect(_) => true,
            RelayAction::Receive => !self.connected,
            RelayAction::StartForwarding => !self.connected,
            _ => false,
        }
    }

    /// Ends the session: the relay is no longer connected and gives everything
    /// back.
    pub fn close(&mut self) -> (r: CleanupEffects)
        ensures
            final(self)@ == old(self)@.closed(),
            r == old(self)@.cleanup_effects(),
    {
        self.connected = false;
        self.cleanup()
    }

    /// Gives everything back once the relay is gone.
    pub fn cleanup(&mut self) -> (r: CleanupEffects)
        ensures
            final(self)@ == old(self)@.cleaned_up(),
            r == old(self)@.cleanup_effects(),
    {
        let effects: CleanupEffects = CleanupEffects {
            stop_tun_receiver: self.tun_receiver,
            stop_relay_receiver: self.relay_receiver,
            drop_tun_writer: self.tun_writer,
            drop_tun_reader: self.tun_reader,
            close_writer: self.writer,
        };
        self.tun_receiver = false;
        self.relay_receiver = false;
        self.tun_writer = false;
        self.tun_reader = false;
        self.writer = false;
        self.identified = false;
        self.relay_tunnel_port = None;
        self.pong_received = false;
        self.phase = HandlerPhase::Idle;
        effects
    }

    /// Sends a message, where there is a websocket to write to.
    fn send(&mut self, message: MessageToRelay, phase: HandlerPhase) -> (r: RelayAction)
        ensures
            (final(self)@, r@) == old(self)@.sending(relay_message(message), phase),
    {
        if self.writer {
            self.phase = phase;
            RelayAction::Send(message)
        } else {
            self.disconnect(DisconnectReason::NoWebsocketWriter)
        }
    }

    /// Disconnects the relay.
    fn disconnect(&mut self, reason: DisconnectReason) -> (r: RelayAction)
        ensures
            (final(self)@, r@) == old(self)@.dropping(reason),
    {
        self.phase = HandlerPhase::Idle;
        RelayAction::Disconnect(reason)
    }

    /// Goes on receiving.
    fn go_on(&mut self) -> (r: RelayAction)
        ensures
            (final(self)@, r@) == old(self)@.going_on(),
    {
        self.phase = HandlerPhase::Idle;
        RelayAction::Receive
    }

    /// Goes on receiving after something was sent.
    fn go_on_if(&mut self, sent: bool) -> (r: RelayAction)
        ensures
            (final(self)@, r@) == if sent {
                old(self)@.going_on()
            } else {
                old(self)@.dropping(DisconnectReason::SendFailed)
            },
    {
        if sent {
            self.go_on()
        } else {
            self.disconnect(DisconnectReason::SendFailed)
        }
    }
}

/// A password that may be missing, as a plain value.
pub open spec fn password_text(password: Option<&str>) -> Option<Seq<char>> {
    match password {
        Some(password) => Some(password@),
        None => None,
    }
}

/// A relay that knows the password is accepted: its answer to the challenge is
/// the expected one, the streamer says so, and the relay is then connected.
pub proof fn law_right_password_is_accepted(
    relay: crate::relay::RelayState,
    session: StreamerRelayState,
    hello: Hello,
    effects: crate::relay::MessageEffects,
)
    requires
        relay.ws_writer,
        session.writer,
        hello.authentication.salt@ == session.salt,
        hello.authentication.challenge@ == session.challenge,
        crate::relay::hello_effects_ok(relay, hello, effects),
    ensures
        effects matches crate::relay::MessageEffects::Send(MessageToStreamer::Identify(identify))
            && {
            let verdict = MoblinkResult::Okay(Present {  });
            let (after, action) = session.on_identify(identify, Some(relay.password));
            &&& action == RelayActionView::Send(RelayMessage::Identified(verdict))
            &&& after.identified
            &&& after.relay_id == relay.relay_id
            &&& after.relay_name == relay.name
            &&& relay.after_identified(Identified { result: verdict }).connected
        },
{
}

/// A relay whose answer is not the expected one is told so and disconnected,
/// whether or not the message gets through, and no tunnel is opened to it.
pub proof fn law_wrong_answer_is_rejected(
    session: StreamerRelayState,
    identify: Identify,
    password: Seq<char>,
    sent: bool,
)
    requires
        identify.authentication@ != session.expected_answer(password),
    ensures
        ({
            let verdict = MoblinkResult::WrongPassword(Present {  });
            let (after, action) = session.on_identify(identify, Some(password));
            &&& after.identified == session.identified
            &&& after.relay_id == session.relay_id
            &&& session.writer ==> action == RelayActionView::Send(
                RelayMessage::Identified(verdict),
            ) && after.on_done(sent).1 is Disconnect
            &&& !session.writer ==> action is Disconnect
        }),
{
}

/// The tunnel that a streamer asks for is the one that the relay opens, and the
/// port that the relay responds with is the one that the streamer connects to.
pub proof fn law_both_ends_of_the_tunnel_agree(
    session: StreamerRelayState,
    request: MessageToRelay,
    relay: crate::relay::RelayState,
    effects: crate::relay::MessageEffects,
    address: crate::address::SocketAddress,
    port: u16,
)
    requires
        session.identified,
        session.starting_tunnel().1 == RelayActionView::Send(relay_message(request)),
        crate::relay::message_effects_ok(relay, request, effects),
        relay.ws_writer,
    ensures
        effects matches crate::relay::MessageEffects::StartTunnel(setup) && {
            &&& setup@.address == session.destination_address
            &&& setup@.port == session.destination_port
            &&& ({
                let bound = crate::relay::TunnelState {
                    phase: crate::relay::TunnelPhase::BindingStreamer(address),
                    ..setup@
                };
                let event = crate::relay::TunnelEvent::StreamerBound(Some(port));
                &&& bound.next(relay, event, 0).1 matches crate::relay::TunnelAction::Respond(response)
                &&& session.on_response(response).1 == RelayActionView::ConnectTunnelSocket(
                    session.tunnel_address(port),
                )
            })
        },
{
}

/// Nothing that comes from the websocket makes a TUN device or asks for a tunnel
/// at once, and what a relay waits for then, it waits for only once identified.
proof fn lemma_events_open_no_tunnel(
    session: StreamerRelayState,
    event: ReceiveEvent,
    password: Option<Seq<char>>,
)
    ensures
        session.on_event(event, password).0.wf(),
        !(session.on_event(event, password).1 is CreateTunDevice),
        session.on_event(event, password).1 matches RelayActionView::Send(message) ==> !(
        message is StartTunnel),
{
    match event {
        ReceiveEvent::Message(MessageToStreamer::Identify(identify)) => {
            let (after, action) = session.on_identify(identify, password);
            assert(after.wf() && !(action is CreateTunDevice));
        },
        ReceiveEvent::Message(MessageToStreamer::Response(response)) => {
            let (after, action) = session.on_response(response);
            assert(after.wf() && !(action is CreateTunDevice) && !(action is Send));
        },
        _ => {},
    }
}

/// Asking for a tunnel sends the destination, and only to an identified relay.
proof fn lemma_tunnel_is_asked_of_identified(session: StreamerRelayState)
    ensures
        session.starting_tunnel().0.wf(),
        !(session.starting_tunnel().1 is CreateTunDevice),
        session.starting_tunnel().1 matches RelayActionView::Send(message) ==> {
            &&& session.identified
            &&& message == (RelayMessage::StartTunnel {
                id: START_TUNNEL_REQUEST_ID,
                address: session.destination_address,
                port: session.destination_port,
            })
        },
{
}

/// Of what was waited for, only what an identified relay waits for leads to a
/// TUN device or a tunnel.
proof fn lemma_steps_open_tunnels_for_identified(session: StreamerRelayState, worked: bool)
    requires
        session.wf(),
    ensures
        session.on_done(worked).0.wf(),
        session.on_done(worked).1 is CreateTunDevice ==> session.identified,
        session.on_done(worked).1 matches RelayActionView::Send(message) ==> {
            &&& session.identified
            &&& message == (RelayMessage::StartTunnel {
                id: START_TUNNEL_REQUEST_ID,
                address: session.destination_address,
                port: session.destination_port,
            })
        },
{
    if session.phase is CreatingTunDevice && worked {
        lemma_tunnel_is_asked_of_identified(
            StreamerRelayState { tun_writer: true, tun_reader: true, ..session },
        );
    }
}

/// A TUN device is made and a tunnel is asked for only for an identified relay,
/// whatever comes from its websocket and however things go.
pub proof fn law_tunnel_only_for_identified(
    session: StreamerRelayState,
    event: ReceiveEvent,
    password: Option<Seq<char>>,
    worked: bool,
)
    requires
        session.wf(),
    ensures
        session.on_event(event, password).0.wf(),
        session.on_done(worked).0.wf(),
        session.cleaned_up().wf(),
        !(session.on_event(event, password).1 is CreateTunDevice),
        session.on_done(worked).1 is CreateTunDevice ==> session.identified,
        session.on_event(event, password).1 matches RelayActionView::Send(message) ==> !(
        message is StartTunnel),
        session.on_done(worked).1 matches RelayActionView::Send(message) ==> {
            &&& session.identified
            &&& message == (RelayMessage::StartTunnel {
                id: START_TUNNEL_REQUEST_ID,
                address: session.destination_address,
                port: session.destination_port,
            })
        },
{
    lemma_events_open_no_tunnel(session, event, password);
    lemma_steps_open_tunnels_for_identified(session, worked);
}

/// A relay becomes identified only by giving the expected answer.
pub proof fn law_identified_only_by_the_answer(
    session: StreamerRelayState,
    event: ReceiveEvent,
    password: Option<Seq<char>>,
    worked: bool,
)
    requires
        !session.identified,
    ensures
        session.on_event(event, password).0.identified ==> {
            &&& event matches ReceiveEvent::Message(MessageToStreamer::Identify(identify))
            &&& password matches Some(known)
            &&& identify.authentication@ == session.expected_answer(known)
        },
        !session.on_done(worked).0.identified,
{
}

/// A connected relay that does not answer a ping before the next one is due is
/// disconnected; one that does is pinged again.
pub proof fn law_pings_must_be_answered(session: StreamerRelayState, password: Option<Seq<char>>)
    requires
        session.connected,
        session.pong_received,
    ensures
        ({
            let (pinged, action) = session.on_ping();
            let answered = pinged.on_event(ReceiveEvent::Pong, password).0;
            &&& action == PingAction::Ping
            &&& pinged.connected
            &&& pinged.on_ping().1 == PingAction::Stop
            &&& !pinged.on_ping().0.connected
            &&& answered.on_ping().1 == PingAction::Ping
            &&& answered.on_ping().0.connected
        }),
{
}

/// A session is over as soon as the relay closes its websocket, does not answer
/// a ping in time or is to be disconnected for whatever reason. A relay that is
/// no longer connected does not become connected again, whatever comes from its
/// websocket and however things go, so that its session is over once what it
/// waits for is done.
pub proof fn law_session_ends(
    session: StreamerRelayState,
    event: ReceiveEvent,
    password: Option<Seq<char>>,
    worked: bool,
    reason: DisconnectReason,
)
    ensures
        ({
            let (after, action) = session.on_event(ReceiveEvent::Close, password);
            after.is_over(action)
        }),
        session.is_over(RelayActionView::Disconnect(reason)),
        !session.pong_received ==> {
            let (after, action) = session.on_ping();
            &&& action == PingAction::Stop
            &&& after.is_over(RelayActionView::Receive)
            &&& after.is_over(RelayActionView::StartForwarding)
        },
        session.is_over(RelayActionView::Receive) <==> !session.connected,
        !session.connected ==> {
            let (after, action) = session.on_event(event, password);
            !after.connected && (after.phase is Idle ==> after.is_over(action))
        },
        !session.connected ==> {
            let (after, action) = session.on_done(worked);
            !after.connected && (after.phase is Idle ==> after.is_over(action))
        },
{
    if !session.connected {
        lemma_stays_disconnected(session, event, password);
        let (after, action) = session.on_done(worked);
        assert(!after.connected && (after.phase is Idle ==> after.is_over(action)));
    }
}

/// Nothing that comes from the websocket connects a relay again.
proof fn lemma_stays_disconnected(
    session: StreamerRelayState,
    event: ReceiveEvent,
    password: Option<Seq<char>>,
)
    requires
        !session.connected,
    ensures
        !session.on_event(event, password).0.connected,
        session.on_event(event, password).0.phase is Idle ==> session.on_event(
            event,
            password,
        ).0.is_over(session.on_event(event, password).1),
{
    match event {
        ReceiveEvent::Message(MessageToStreamer::Identify(identify)) => {
            let (after, action) = session.on_identify(identify, password);
            assert(!after.connected && (after.phase is Idle ==> after.is_over(action)));
        },
        ReceiveEvent::Message(MessageToStreamer::Response(response)) => {
            let (after, action) = session.on_response(response);
            assert(!after.connected && (after.phase is Idle ==> after.is_over(action)));
        },
        _ => {},
    }
}

/// Once a session ended, the relay is not connected and there is no websocket
/// to write to, and nothing that comes later changes that: nothing is sent, not
/// even a pong or a ping, nothing is left to give back, and ending the session
/// again changes nothing.
pub proof fn law_ended_session_is_silent(
    session: StreamerRelayState,
    event: ReceiveEvent,
    password: Option<Seq<char>>,
    worked: bool,
)
    ensures
        ({
            let closed = session.closed();
            let (after, action) = closed.on_event(event, password);
            &&& !closed.connected && !closed.writer && !closed.identified
            &&& closed.is_over(RelayActionView::Receive)
            &&& closed.on_ping() == (closed, PingAction::Stop)
            &&& !after.connected && !after.writer
            &&& !(action is Send) && !(action is SendPong)
            &&& closed.on_done(worked) == closed.going_on()
            &&& closed.closed() == closed
            &&& closed.cleanup_effects() == (CleanupEffects {
                stop_tun_receiver: false,
                stop_relay_receiver: false,
                drop_tun_writer: false,
                drop_tun_reader: false,
                close_writer: false,
            })
        }),
{
    let closed = session.closed();
    match event {
        ReceiveEvent::Message(MessageToStreamer::Identify(identify)) => {
            let (after, action) = closed.on_identify(identify, password);
            assert(!after.connected && !after.writer && action is Disconnect);
        },
        ReceiveEvent::Message(MessageToStreamer::Response(response)) => {
            let (after, action) = closed.on_response(response);
            assert(!after.connected && !after.writer && !(action is Send));
        },
        _ => {},
    }
}

/// Once a relay is cleaned up, nothing of it is left to give back, nothing can
/// be sent to it, and a second cleanup changes nothing. Who the relay is, its
/// index, its address, its destination and whether it is connected stay.
pub proof fn law_cleanup_leaves_nothing(session: StreamerRelayState)
    ensures
        session.cleaned_up().cleanup_effects() == (CleanupEffects {
            stop_tun_receiver: false,
            stop_relay_receiver: false,
            drop_tun_writer: false,
            drop_tun_reader: false,
            close_writer: false,
        }),
        session.cleaned_up().cleaned_up() == session.cleaned_up(),
        ({
            let after = session.cleaned_up();
            &&& !after.writer && !after.identified && !after.pong_received
            &&& after.relay_tunnel_port is None
            &&& after.relay_id == session.relay_id
            &&& after.relay_name == session.relay_name
            &&& after.unique_index == session.unique_index
            &&& after.tun_ip_address == session.tun_ip_address
            &&& after.tun_device_name == session.tun_device_name
            &&& after.connected == session.connected
            &&& after.destination_address == session.destination_address
            &&& after.destination_port == session.destination_port
        }),
{
}

/// A device's name is made of the index and the name of the relay, with a hyphen
/// for each character that is white space or no ASCII character, and each other
/// character in its place.
pub proof fn law_device_name(index: u32, name: Seq<char>, i: int)
    ensures
        ({
            let prefix = "mob"@ + crate::text::decimal_text(index as nat) + "-"@;
            let whole = device_name(index, name);
            &&& whole.len() == prefix.len() + name.len()
            &&& whole.take(prefix.len() as int) == prefix
            &&& 0 <= i < name.len() ==> whole[prefix.len() + i] == if (name[i] as u32) < 128
                && !crate::text::is_white_space(name[i]) {
                name[i]
            } else {
                '-'
            }
        }),
{
    let prefix = "mob"@ + crate::text::decimal_text(index as nat) + "-"@;
    assert(device_name(index, name).take(prefix.len() as int) =~= prefix);
}

/// A message to a relay says just what is in it.
pub proof fn law_message_to_relay(
    hello: Hello,
    identified: Identified,
    id: u32,
    wanted: StartTunnelRequest,
    present: Present,
)
    ensures
        relay_message(MessageToRelay::Hello(hello)) == (RelayMessage::Hello {
            api_version: hello.api_version@,
            challenge: hello.authentication.challenge@,
            salt: hello.authentication.salt@,
        }),
        relay_message(MessageToRelay::Identified(identified)) == RelayMessage::Identified(
            identified.result,
        ),
        relay_message(
            MessageToRelay::Request(
                MessageRequest { id, data: MessageRequestData::StartTunnel(wanted) },
            ),
        ) == (RelayMessage::StartTunnel { id, address: wanted.address@, port: wanted.port }),
        relay_message(
            MessageToRelay::Request(
                MessageRequest { id, data: MessageRequestData::Status(present) },
            ),
        ) == (RelayMessage::Status { id }),
{
}

/// An action says just what is in it.
pub proof fn law_action_view(
    message: MessageToRelay,
    data: Vec<u8>,
    first: String,
    second: String,
    reason: DisconnectReason,
)
    ensures
        RelayAction::Receive@ == RelayActionView::Receive,
        RelayAction::Send(message)@ == RelayActionView::Send(relay_message(message)),
        RelayAction::SendPong(data)@ == RelayActionView::SendPong(data@),
        RelayAction::CreateTunDevice(first, second)@ == RelayActionView::CreateTunDevice(
            first@,
            second@,
        ),
        RelayAction::ConnectTunnelSocket(first)@ == RelayActionView::ConnectTunnelSocket(first@),
        RelayAction::StartForwarding@ == RelayActionView::StartForwarding,
        RelayAction::Disconnect(reason)@ == RelayActionView::Disconnect(reason),
{
}

/// The streamer's password is taken as it is, where there is one.
pub proof fn law_password_text(password: &str)
    ensures
        password_text(Some(password)) == Some(password@),
        password_text(None) is None,
{
}

/// A relay whose answer is the expected one becomes identified, with the
/// identity and the name that it gave and a device named after it, and is told so.
/// One whose answer is another one is told that the password is wrong. Nothing
/// else of it changes, and without a websocket it is disconnected.
pub proof fn law_answers_are_compared(
    session: StreamerRelayState,
    id: Seq<char>,
    name: Seq<char>,
    answer: Seq<char>,
    expected: Seq<char>,
)
    ensures
        ({
            let (after, action) = session.identifying(id, name, answer, expected);
            let okay = RelayMessage::Identified(MoblinkResult::Okay(Present {  }));
            let wrong = RelayMessage::Identified(MoblinkResult::WrongPassword(Present {  }));
            &&& after == if answer == expected {
                StreamerRelayState {
                    identified: true,
                    relay_id: id,
                    relay_name: name,
                    tun_device_name: device_name(session.unique_index, name),
                    phase: after.phase,
                    ..session
                }
            } else {
                StreamerRelayState { phase: after.phase, ..session }
            }
            &&& session.writer && answer == expected ==> action == RelayActionView::Send(okay)
                && after.phase is SendingAccepted
            &&& session.writer && answer != expected ==> action == RelayActionView::Send(wrong)
                && after.phase is SendingRejected
            &&& !session.writer ==> action == RelayActionView::Disconnect(
                DisconnectReason::NoWebsocketWriter,
            ) && after.phase is Idle
        }),
{
}

/// The answer that a relay has to give is the hash of the streamer's password:
/// the base64 notation of the hash of the password and the salt, hashed with the
/// challenge. Without a streamer there is no password to compare with, and the
/// relay is disconnected.
pub proof fn law_expected_answer(
    session: StreamerRelayState,
    identify: Identify,
    password: Seq<char>,
)
    ensures
        session.on_identify(identify, Some(password)) == session.identifying(
            identify.id@,
            identify.name@,
            identify.authentication@,
            crate::protocol::base64_text(
                crate::protocol::sha256_digest(
                    vstd::utf8::encode_utf8(
                        crate::protocol::base64_text(
                            crate::protocol::sha256_digest(
                                vstd::utf8::encode_utf8(password + session.salt),
                            ),
                        ) + session.challenge,
                    ),
                ),
            ),
        ),
        session.on_identify(identify, None) == (
            StreamerRelayState { phase: HandlerPhase::Idle, ..session },
            RelayActionView::Disconnect(DisconnectReason::NoStreamer),
        ),
{
}

/// A response that grants the tunnel has the streamer connect to the relay's
/// address at the port in it. One that says that the password is wrong
/// disconnects the relay, and any other one changes nothing.
pub proof fn law_responses(session: StreamerRelayState, response: MessageResponse, port: u16)
    ensures
        response.result is WrongPassword ==> session.on_response(response) == (
            StreamerRelayState { phase: HandlerPhase::Idle, ..session },
            RelayActionView::Disconnect(DisconnectReason::WrongPasswordResponse),
        ),
        response.result is Okay && response.data == ResponseData::StartTunnel(
            crate::protocol::StartTunnelResponseData { port },
        ) ==> session.on_response(response) == (
            StreamerRelayState {
                relay_tunnel_port: Some(port),
                phase: HandlerPhase::ConnectingTunnelSocket,
                ..session
            },
            RelayActionView::ConnectTunnelSocket(
                session.relay_ip + ":"@ + crate::text::decimal_text(port as nat),
            ),
        ),
        response.result is Okay && response.data is Status ==> session.on_response(response) == (
            StreamerRelayState { phase: HandlerPhase::Idle, ..session },
            RelayActionView::Receive,
        ),
{
}

/// What comes from the websocket: messages are taken up, a ping is answered with
/// its own data, a pong is noted, a close ends the connection, silence is borne
/// while there is a websocket to write to, and all else disconnects the relay.
/// Nothing else of the relay changes.
pub proof fn law_websocket_events(
    session: StreamerRelayState,
    password: Option<Seq<char>>,
    identify: Identify,
    response: MessageResponse,
    data: Vec<u8>,
)
    ensures
        ({
            let idle = StreamerRelayState { phase: HandlerPhase::Idle, ..session };
            &&& session.on_event(
                ReceiveEvent::Message(MessageToStreamer::Identify(identify)),
                password,
            ) == session.on_identify(identify, password)
            &&& session.on_event(
                ReceiveEvent::Message(MessageToStreamer::Response(response)),
                password,
            ) == session.on_response(response)
            &&& session.on_event(ReceiveEvent::Ping(data), password) == if session.writer {
                (
                    StreamerRelayState { phase: HandlerPhase::SendingPong, ..session },
                    RelayActionView::SendPong(data@),
                )
            } else {
                (idle, RelayActionView::Disconnect(DisconnectReason::NoWebsocketWriter))
            }
            &&& session.on_event(ReceiveEvent::Pong, password) == (
                StreamerRelayState { pong_received: true, ..idle },
                RelayActionView::Receive,
            )
            &&& session.on_event(ReceiveEvent::Close, password) == (
                StreamerRelayState { connected: false, ..idle },
                RelayActionView::Receive,
            )
            &&& session.on_event(ReceiveEvent::TimedOut, password) == (
                idle,
                if session.writer {
                    RelayActionView::Receive
                } else {
                    RelayActionView::Disconnect(DisconnectReason::TimedOut)
                },
            )
            &&& session.on_event(ReceiveEvent::Unreadable, password) == (
                idle,
                RelayActionView::Disconnect(DisconnectReason::UnreadableMessage),
            )
            &&& session.on_event(ReceiveEvent::Unsupported, password) == (
                idle,
                RelayActionView::Disconnect(DisconnectReason::UnsupportedMessage),
            )
            &&& session.on_event(ReceiveEvent::Failed, password) == (
                idle,
                RelayActionView::Disconnect(DisconnectReason::WebsocketFailed),
            )
            &&& session.on_event(ReceiveEvent::Ended, password) == (
                idle,
                RelayActionView::Disconnect(DisconnectReason::WebsocketEnded),
            )
        }),
{
}

/// An accepted relay that all goes well with gets its TUN device, under its own
/// name and with its own address, and is then asked for a tunnel to the
/// destination. Once its socket is connected, packets are moved between the
/// device and the socket. Nothing else of it changes on the way.
pub proof fn law_acceptance_goes_on(session: StreamerRelayState)
    ensures
        session.phase is SendingAccepted ==> session.on_done(true) == (
            StreamerRelayState { phase: HandlerPhase::CreatingTunDevice, ..session },
            RelayActionView::CreateTunDevice(session.tun_device_name, session.tun_ip_address),
        ),
        session.phase is CreatingTunDevice && session.identified && session.writer
            ==> session.on_done(true) == (
            StreamerRelayState {
                tun_writer: true,
                tun_reader: true,
                phase: HandlerPhase::RequestingTunnel,
                ..session
            },
            RelayActionView::Send(
                RelayMessage::StartTunnel {
                    id: 1,
                    address: session.destination_address,
                    port: session.destination_port,
                },
            ),
        ),
        session.phase is CreatingTunDevice && session.identified && !session.writer
            ==> session.on_done(true) == (
            StreamerRelayState {
                tun_writer: true,
                tun_reader: true,
                phase: HandlerPhase::Idle,
                ..session
            },
            RelayActionView::Disconnect(DisconnectReason::NoWebsocketWriter),
        ),
        session.phase is CreatingTunDevice && !session.identified ==> session.on_done(true) == (
            StreamerRelayState {
                tun_writer: true,
                tun_reader: true,
                phase: HandlerPhase::Idle,
                ..session
            },
            RelayActionView::Receive,
        ),
        session.phase is ConnectingTunnelSocket ==> session.on_done(true) == (
            StreamerRelayState {
                tun_writer: false,
                tun_reader: false,
                relay_receiver: true,
                tun_receiver: true,
                phase: HandlerPhase::Idle,
                ..session
            },
            RelayActionView::StartForwarding,
        ),
        session.phase is SendingPong || session.phase is RequestingTunnel || session.phase is Idle
            ==> session.on_done(true) == (
            StreamerRelayState { phase: HandlerPhase::Idle, ..session },
            RelayActionView::Receive,
        ),
        session.phase is SendingRejected ==> session.on_done(true) == (
            StreamerRelayState { phase: HandlerPhase::Idle, ..session },
            RelayActionView::Disconnect(DisconnectReason::WrongPassword),
        ),
{
}

/// What does not work disconnects the relay, with the error of what it waited
/// for, and nothing else of it changes.
pub proof fn law_failures_disconnect(session: StreamerRelayState)
    ensures
        ({
            let (after, action) = session.on_done(false);
            &&& after == (StreamerRelayState { phase: HandlerPhase::Idle, ..session })
            &&& action == match session.phase {
                HandlerPhase::Idle => RelayActionView::Receive,
                HandlerPhase::CreatingTunDevice => RelayActionView::Disconnect(
                    DisconnectReason::TunDeviceFailed,
                ),
                HandlerPhase::ConnectingTunnelSocket => RelayActionView::Disconnect(
                    DisconnectReason::TunnelSocketFailed,
                ),
                _ => RelayActionView::Disconnect(DisconnectReason::SendFailed),
            }
        }),
{
}

/// An identified relay is asked for a tunnel to the destination, in request 1,
/// where there is a websocket to write to. No other relay is asked.
pub proof fn law_tunnel_is_asked_for(session: StreamerRelayState)
    ensures
        session.identified && session.writer ==> session.starting_tunnel() == (
            StreamerRelayState { phase: HandlerPhase::RequestingTunnel, ..session },
            RelayActionView::Send(
                RelayMessage::StartTunnel {
                    id: 1,
                    address: session.destination_address,
                    port: session.destination_port,
                },
            ),
        ),
        session.identified && !session.writer ==> session.starting_tunnel() == (
            StreamerRelayState { phase: HandlerPhase::Idle, ..session },
            RelayActionView::Disconnect(DisconnectReason::NoWebsocketWriter),
        ),
        !session.identified ==> session.starting_tunnel() == (
            StreamerRelayState { phase: HandlerPhase::Idle, ..session },
            RelayActionView::Receive,
        ),
{
}

/// A ping asks a connected relay that answered the one before, disconnects one
/// that did not, and leaves one that is not connected alone. Nothing else of the
/// relay changes.
pub proof fn law_pings(session: StreamerRelayState)
    ensures
        session.connected && session.pong_received ==> session.on_ping() == (
            StreamerRelayState { pong_received: false, ..session },
            PingAction::Ping,
        ),
        session.connected && !session.pong_received ==> session.on_ping() == (
            StreamerRelayState { connected: false, ..session },
            PingAction::Stop,
        ),
        !session.connected ==> session.on_ping() == (session, PingAction::Stop),
{
}

/// A cleanup gives back just what there is, and leaves who the relay is, its
/// addresses, its challenge and whether it is connected. Ending the session also
/// disconnects the relay.
pub proof fn law_cleanup_gives_back_what_there_is(session: StreamerRelayState)
    ensures
        session.cleanup_effects().stop_tun_receiver == session.tun_receiver,
        session.cleanup_effects().stop_relay_receiver == session.relay_receiver,
        session.cleanup_effects().drop_tun_writer == session.tun_writer,
        session.cleanup_effects().drop_tun_reader == session.tun_reader,
        session.cleanup_effects().close_writer == session.writer,
        session.cleaned_up() == (StreamerRelayState {
            relay_ip: session.relay_ip,
            writer: false,
            challenge: session.challenge,
            salt: session.salt,
            identified: false,
            relay_id: session.relay_id,
            relay_name: session.relay_name,
            relay_tunnel_port: None,
            tun_ip_address: session.tun_ip_address,
            tun_writer: false,
            tun_reader: false,
            relay_receiver: false,
            tun_receiver: false,
            unique_index: session.unique_index,
            pong_received: false,
            tun_device_name: session.tun_device_name,
            connected: session.connected,
            destination_address: session.destination_address,
            destination_port: session.destination_port,
            phase: HandlerPhase::Idle,
        }),
        !session.closed().connected,
        (StreamerRelayState { connected: session.connected, ..session.closed() })
            == session.cleaned_up(),
{
}

/// A session goes on receiving just where nothing is left to do and the relay is
/// connected.
pub proof fn law_when_a_session_is_over(
    session: StreamerRelayState,
    action: RelayActionView,
    reason: DisconnectReason,
)
    ensures
        session.is_over(RelayActionView::Disconnect(reason)),
        session.is_over(RelayActionView::Receive) <==> !session.connected,
        session.is_over(RelayActionView::StartForwarding) <==> !session.connected,
        !(action is Disconnect) && !(action is Receive) && !(action is StartForwarding)
            ==> !session.is_over(action),
{
}

/// A new challenge is posed with its salt, and makes the relay unidentified.
/// Nothing else of it changes.
pub proof fn law_challenge_is_posed(
    session: StreamerRelayState,
    challenge: Seq<char>,
    salt: Seq<char>,
)
    ensures
        ({
            let after = session.challenged(challenge, salt);
            &&& after == (StreamerRelayState {
                challenge,
                salt,
                identified: false,
                phase: HandlerPhase::Idle,
                ..session
            })
            &&& after.hello() == (RelayMessage::Hello { api_version: "1.0"@, challenge, salt })
        }),
{
}

/// A relay that has just connected has its addresses, its index and the
/// destination, a websocket to write to and a pong to its credit, and nothing
/// else yet.
pub proof fn law_fresh_relay(
    relay_ip: Seq<char>,
    relay_id: Seq<char>,
    tun_ip_address: Seq<char>,
    unique_index: u32,
    destination_address: Seq<char>,
    destination_port: u16,
)
    ensures
        ({
            let relay = fresh_relay(
                relay_ip,
                relay_id,
                tun_ip_address,
                unique_index,
                destination_address,
                destination_port,
            );
            &&& relay.relay_ip == relay_ip && relay.relay_id == relay_id
            &&& relay.tun_ip_address == tun_ip_address && relay.unique_index == unique_index
            &&& relay.destination_address == destination_address
            &&& relay.destination_port == destination_port
            &&& relay.writer && relay.pong_received
            &&& !relay.identified && !relay.connected
            &&& !relay.tun_writer && !relay.tun_reader
            &&& !relay.relay_receiver && !relay.tun_receiver
            &&& relay.challenge.len() == 0 && relay.salt.len() == 0
            &&& relay.relay_name.len() == 0 && relay.tun_device_name.len() == 0
            &&& relay.relay_tunnel_port is None
            &&& relay.phase is Idle
        }),
{
}

/// A relay is pinged every ten seconds, and a streamer waits sixty for a
/// message.
pub proof fn law_session_delays()
    ensures
        PING_INTERVAL_SECONDS == 10,
        WEBSOCKET_TIMEOUT_SECONDS == 60,
        START_TUNNEL_REQUEST_ID == 1,
{
}

} // verus!

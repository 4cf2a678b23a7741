//! A relay: it connects to a streamer and forwards packets between it and the
//! destination.
//!
//! The websocket, the UDP sockets and the timers are the caller's. Each method
//! takes what happened and returns what is to be done about it.
use vstd::prelude::*;

use crate::address::{first_ipv4, ipv4_text, normalized, socket_addr_of};
use crate::address::{
    find_ipv4, parse_socket_addr, AddressError, IpAddress, Ipv4Address, SocketAddress,
};
use crate::numbers::{is_lowest_free, lemma_without_number, without_number};
use crate::numbers::{lowest_free, taken_back};
use crate::protocol::{authentication_text, ok_response};
use crate::protocol::{
    calculate_authentication, Hello, Identified, Identify, MessageRequest, MessageRequestData,
    MessageResponse, MessageToRelay, MessageToStreamer, MoblinkResult, Present, ResponseData,
    StartTunnelResponseData, StatusResponseData,
};
use crate::text::contains_text;
use crate::web::{parse_url, ParsedUrl};

verus! {

/// How long a websocket connection attempt may take.
pub const CONNECT_TIMEOUT_SECONDS: u64 = 10;

/// How long a relay waits before it connects again.
pub const RECONNECT_DELAY_SECONDS: u64 = 5;

/// The state of the device that a relay runs on.
#[derive(Clone, Copy, PartialEq, Eq, Structural, Debug)]
pub struct Status {
    pub battery_percentage: Option<i32>,
}

impl Default for Status {
    fn default() -> (r: Self)
        ensures
            r == (Status { battery_percentage: None }),
    {
        Status { battery_percentage: None }
    }
}

/// What a relay tells its user.
#[derive(Clone, Copy, PartialEq, Eq, Structural, Debug)]
pub enum ConnectionStatus {
    Connected,
    WrongPassword,
    Connecting,
    Disconnected,
}

impl ConnectionStatus {
    /// The status in words.
    pub fn text(&self) -> (r: &'static str)
        ensures
            r@ == match *self {
                ConnectionStatus::Connected => "Connected to streamer"@,
                ConnectionStatus::WrongPassword => "Wrong password"@,
                ConnectionStatus::Connecting => "Connecting to streamer"@,
                ConnectionStatus::Disconnected => "Disconnected from streamer"@,
            },
    {
        match self {
            ConnectionStatus::Connected => "Connected to streamer",
            ConnectionStatus::WrongPassword => "Wrong password",
            ConnectionStatus::Connecting => "Connecting to streamer",
            ConnectionStatus::Disconnected => "Disconnected from streamer",
        }
    }
}

/// Why a message could not be handled.
#[derive(Clone, Copy, PartialEq, Eq, Structural, Debug)]
pub enum RelayError {
    NoWebsocketWriter,
    StatusFunctionNotSet,
}

impl RelayError {
    /// The error in words.
    pub fn text(&self) -> (r: &'static str)
        ensures
            r@ == match *self {
                RelayError::NoWebsocketWriter => "No websocket writer"@,
                RelayError::StatusFunctionNotSet => "get_battery_percentage function not set"@,
            },
    {
        match self {
            RelayError::NoWebsocketWriter => "No websocket writer",
            RelayError::StatusFunctionNotSet => "get_battery_percentage function not set",
        }
    }
}

/// A relay's state as plain values.
pub struct RelayState {
    pub bind_address: Seq<char>,
    pub relay_id: Seq<char>,
    pub streamer_url: Seq<char>,
    pub password: Seq<char>,
    pub name: Seq<char>,
    /// Whether somebody wants to be told the status.
    pub on_status_updated: bool,
    /// Whether the device's state can be asked for.
    pub get_status: bool,
    /// Whether there is a websocket to write to.
    pub ws_writer: bool,
    pub started: bool,
    pub connected: bool,
    pub wrong_password: bool,
    /// The tunnel whose end makes the relay connect again.
    pub reconnect_on_tunnel_error: Option<u64>,
    /// The timer that makes the relay connect again.
    pub start_on_reconnect_soon: Option<u64>,
    /// The tunnels that were opened and have not ended, by their numbers.
    pub tunnels: Seq<u64>,
    /// The timers that were started and have not run out, by their numbers.
    pub timers: Seq<u64>,
}

impl RelayState {
    /// The tunnel that counts has not ended, and the timer that counts has not
    /// run out.
    pub open spec fn wf(self) -> bool {
        &&& self.reconnect_on_tunnel_error matches Some(tunnel) ==> self.tunnels.contains(tunnel)
        &&& self.start_on_reconnect_soon matches Some(timer) ==> self.timers.contains(timer)
    }

    /// What the relay tells its user.
    pub open spec fn status(self) -> ConnectionStatus {
        if self.connected {
            ConnectionStatus::Connected
        } else if self.wrong_password {
            ConnectionStatus::WrongPassword
        } else if self.started {
            ConnectionStatus::Connecting
        } else {
            ConnectionStatus::Disconnected
        }
    }

    /// What the relay tells its user, where somebody wants to be told.
    pub open spec fn report(self) -> Option<ConnectionStatus> {
        if self.on_status_updated {
            Some(self.status())
        } else {
            None
        }
    }

    /// The state once the connection is given up: no tunnel and no timer count.
    pub open spec fn disconnected(self) -> RelayState {
        RelayState {
            ws_writer: false,
            connected: false,
            wrong_password: false,
            reconnect_on_tunnel_error: None,
            start_on_reconnect_soon: None,
            ..self
        }
    }

    /// The state once the relay waits for a new timer.
    pub open spec fn reconnecting(self, timer: u64) -> RelayState {
        RelayState {
            start_on_reconnect_soon: Some(timer),
            timers: self.timers.push(timer),
            ..self.disconnected()
        }
    }

    /// What giving the connection up takes.
    pub open spec fn stop_effects(self) -> StopEffects {
        StopEffects { close_writer: self.ws_writer, report: self.disconnected().report() }
    }

    /// What connecting again takes.
    pub open spec fn reconnect_effects(self, timer: u64) -> ReconnectEffects {
        ReconnectEffects { stop: self.stop_effects(), timer }
    }

    /// The state once a start was tried.
    pub open spec fn after_start(self) -> RelayState {
        if self.started {
            self
        } else {
            self.disconnected()
        }
    }

    /// Whether the end of a tunnel makes the relay connect again.
    pub open spec fn tunnel_counts(self, tunnel: u64) -> bool {
        self.reconnect_on_tunnel_error == Some(tunnel)
    }

    /// Whether a timer that runs out makes the relay connect again.
    pub open spec fn timer_counts(self, timer: u64) -> bool {
        self.start_on_reconnect_soon == Some(timer)
    }

    /// The state once a tunnel was opened: it is the one that counts.
    pub open spec fn tunnel_opened(self, tunnel: u64) -> RelayState {
        RelayState {
            reconnect_on_tunnel_error: Some(tunnel),
            tunnels: self.tunnels.push(tunnel),
            ..self
        }
    }

    /// The state once a tunnel is no longer open.
    pub open spec fn tunnel_gone(self, tunnel: u64) -> RelayState {
        RelayState { tunnels: without_number(self.tunnels, tunnel), ..self }
    }

    /// The state once a tunnel ended. Where that counts, a new timer starts.
    pub open spec fn after_tunnel_end(self, tunnel: u64, timer: u64) -> RelayState {
        if self.tunnel_counts(tunnel) {
            self.tunnel_gone(tunnel).reconnecting(timer)
        } else {
            self.tunnel_gone(tunnel)
        }
    }

    /// The state once a timer no longer runs.
    pub open spec fn timer_gone(self, timer: u64) -> RelayState {
        RelayState {
            timers: without_number(self.timers, timer),
            start_on_reconnect_soon: if self.timer_counts(timer) {
                None
            } else {
                self.start_on_reconnect_soon
            },
            ..self
        }
    }

    /// The state once a timer ran out. Where that counts, a start is tried.
    pub open spec fn after_timer(self, timer: u64) -> RelayState {
        if self.timer_counts(timer) {
            self.timer_gone(timer).after_start()
        } else {
            self.timer_gone(timer)
        }
    }

    /// The state once the relay was set up.
    pub open spec fn set_up(
        self,
        streamer_url: Seq<char>,
        password: Seq<char>,
        relay_id: Seq<char>,
        name: Seq<char>,
    ) -> RelayState {
        RelayState {
            on_status_updated: true,
            get_status: true,
            relay_id,
            streamer_url,
            password,
            name,
            ..self
        }
    }

    /// The state once the relay was started.
    pub open spec fn after_started(self) -> RelayState {
        RelayState { started: true, ..self }
    }

    /// The state once the relay was stopped, if it was started.
    pub open spec fn after_stopped(self) -> RelayState {
        if self.started {
            (RelayState { started: false, ..self }).disconnected()
        } else {
            self
        }
    }
}

/// What giving a connection up takes: closing the websocket, then telling the
/// status.
#[derive(Clone, Copy, PartialEq, Eq, Structural, Debug)]
pub struct StopEffects {
    pub close_writer: bool,
    pub report: Option<ConnectionStatus>,
}

/// What connecting again takes: giving the connection up, and starting a timer
/// under this number.
#[derive(Clone, Copy, PartialEq, Eq, Structural, Debug)]
pub struct ReconnectEffects {
    pub stop: StopEffects,
    pub timer: u64,
}

/// What a start takes.
#[derive(Debug)]
pub enum StartEffects {
    Nothing,
    Stop(StopEffects),
    /// Connect to this web address and tell how that ended.
    Connect(String),
}

/// Whether a relay gives the connection up and starts a new timer to connect
/// again, under the lowest number that no running timer has. The timer that
/// counted before is another one.
pub open spec fn reconnects(
    before: RelayState,
    after: RelayState,
    effects: ReconnectEffects,
) -> bool {
    &&& is_lowest_free(before.timers, effects.timer)
    &&& !before.timer_counts(effects.timer)
    &&& after == before.reconnecting(effects.timer)
    &&& effects == before.reconnect_effects(effects.timer)
}

/// Whether a start takes what it should, given what the streamer's web address
/// is.
pub open spec fn start_effects_ok(
    state: RelayState,
    parts: Option<(Seq<char>, Option<Seq<char>>)>,
    effects: StartEffects,
) -> bool {
    if !state.started {
        effects == StartEffects::Stop(state.stop_effects())
    } else {
        match parts {
            Some((url, _)) => effects matches StartEffects::Connect(text) && text@ == url,
            None => effects == StartEffects::Nothing,
        }
    }
}

/// How a connection attempt ended.
#[derive(Clone, Copy, PartialEq, Eq, Structural, Debug)]
pub enum ConnectResult {
    Connected,
    Failed,
    TimedOut,
}

/// What came from the websocket.
#[derive(Debug)]
pub enum WebsocketEvent {
    Message(MessageToRelay),
    /// A text that is no message.
    Unreadable,
    Binary,
    Ping(Vec<u8>),
    Pong,
    Close,
    /// An error in words.
    Error(String),
}

/// What a message takes.
#[derive(Debug)]
pub enum MessageEffects {
    /// Send this.
    Send(MessageToStreamer),
    /// Tell the status, where somebody wants to be told.
    Report(Option<ConnectionStatus>),
    /// Open a tunnel, step by step.
    StartTunnel(TunnelSetup),
    /// Ask for the device's state and respond to this request.
    AskStatus(MessageRequest),
    Fail(RelayError),
}

/// What something from the websocket takes.
#[derive(Debug)]
pub enum ReceiverAction {
    Nothing,
    Handle(MessageEffects),
    SendPong(Vec<u8>),
    Reconnect(ReconnectEffects),
}

/// What something from the websocket takes, and whether to go on receiving.
#[derive(Debug)]
pub struct ReceiverStep {
    pub action: ReceiverAction,
    pub go_on: bool,
}

/// A network interface that a relay could bind to.
#[derive(Debug)]
pub struct BindableInterface {
    pub is_up: bool,
    pub is_loopback: bool,
    pub ips: Vec<IpAddress>,
}

impl BindableInterface {
    /// Whether the interface can be the main one: it is up, it is no loopback
    /// interface, and it has an address.
    pub open spec fn can_be_main(self) -> bool {
        self.is_up && !self.is_loopback && self.ips@.len() > 0
    }
}

/// The addresses of the first of some interfaces that can be the main one.
pub open spec fn main_addresses(interfaces: Seq<BindableInterface>) -> Option<Seq<IpAddress>>
    decreases interfaces.len(),
{
    if interfaces.len() == 0 {
        None
    } else if interfaces[0].can_be_main() {
        Some(interfaces[0].ips@)
    } else {
        main_addresses(interfaces.drop_first())
    }
}

/// What a relay binds to by default: the first IPv4 address of the main
/// interface, or any address where it has none.
pub open spec fn default_bind_text(ips: Seq<IpAddress>) -> Seq<char> {
    match first_ipv4(ips) {
        Some(address) => ipv4_text(address),
        None => "0.0.0.0:0"@,
    }
}

/// A relay.
#[derive(Debug)]
pub struct Relay {
    bind_address: String,
    relay_id: String,
    streamer_url: String,
    password: String,
    name: String,
    on_status_updated: bool,
    get_status: bool,
    ws_writer: bool,
    started: bool,
    connected: bool,
    wrong_password: bool,
    reconnect_on_tunnel_error: Option<u64>,
    start_on_reconnect_soon: Option<u64>,
    tunnels: Vec<u64>,
    timers: Vec<u64>,
}

impl View for Relay {
    type V = RelayState;

    closed spec fn view(&self) -> RelayState {
        RelayState {
            bind_address: self.bind_address@,
            relay_id: self.relay_id@,
            streamer_url: self.streamer_url@,
            password: self.password@,
            name: self.name@,
            on_status_updated: self.on_status_updated,
            get_status: self.get_status,
            ws_writer: self.ws_writer,
            started: self.started,
            connected: self.connected,
            wrong_password: self.wrong_password,
            reconnect_on_tunnel_error: self.reconnect_on_tunnel_error,
            start_on_reconnect_soon: self.start_on_reconnect_soon,
            tunnels: self.tunnels@,
            timers: self.timers@,
        }
    }
}

impl Relay {
    /// The tunnel that counts has not ended, and the timer that counts has not
    /// run out.
    #[verifier::type_invariant]
    spec fn numbers_ok(self) -> bool {
        self@.wf()
    }

    /// A relay that is not set up yet and binds to the given address.
    pub fn new(default_bind_address: String) -> (r: Relay)
        ensures
            r@ == (RelayState {
                bind_address: default_bind_address@,
                relay_id: Seq::empty(),
                streamer_url: Seq::empty(),
                password: Seq::empty(),
                name: Seq::empty(),
                on_status_updated: false,
                get_status: false,
                ws_writer: false,
                started: false,
                connected: false,
                wrong_password: false,
                reconnect_on_tunnel_error: None,
                start_on_reconnect_soon: None,
                tunnels: Seq::empty(),
                timers: Seq::empty(),
            }),
            r@.wf(),
    {
        Relay {
            bind_address: default_bind_address,
            relay_id: String::new(),
            streamer_url: String::new(),
            password: String::new(),
            name: String::new(),
            on_status_updated: false,
            get_status: false,
            ws_writer: false,
            started: false,
            connected: false,
            wrong_password: false,
            reconnect_on_tunnel_error: None,
            start_on_reconnect_soon: None,
            tunnels: Vec::new(),
            timers: Vec::new(),
        }
    }

    /// What a relay binds to by default, given the interfaces of this machine.
    /// There is none where no interface can be the main one.
    pub fn get_default_bind_address(interfaces: &Vec<BindableInterface>) -> (r: Option<String>)
        ensures
            match main_addresses(interfaces@) {
                Some(ips) => r matches Some(text) && text@ == default_bind_text(ips),
                None => r is None,
            },
    {
        let mut i: usize = 0;
        proof {
            assert(interfaces@.skip(0) =~= interfaces@);
        }
        while i < interfaces.len()
            invariant
                i <= interfaces@.len(),
                main_addresses(interfaces@) == main_addresses(interfaces@.skip(i as int)),
            decreases interfaces@.len() - i,
        {
            let interface: &BindableInterface = &interfaces[i];
            if interface.is_up && !interface.is_loopback && interface.ips.len() > 0 {
                return Some(
                    match find_ipv4(&interface.ips) {
                        Some(address) => address.to_text(),
                        None => "0.0.0.0:0".to_owned(),
                    },
                );
            }
            proof {
                assert(interfaces@.skip(i as int).drop_first() =~= interfaces@.skip(i + 1));
            }
            i = i + 1;
        }
        None
    }

    /// Binds the socket towards the destination to another address.
    pub fn set_bind_address(&mut self, address: String)
        ensures
            final(self)@ == (RelayState { bind_address: address@, ..old(self)@ }),
    {
        proof {
            use_type_invariant(&*self);
        }
        self.bind_address = address;
    }

    /// Sets the streamer, the password and the relay's identity. From then on
    /// the status is told and the device's state can be asked for.
    pub fn setup(&mut self, streamer_url: String, password: String, relay_id: String, name: String)
        ensures
            final(self)@ == old(self)@.set_up(streamer_url@, password@, relay_id@, name@),
    {
        proof {
            use_type_invariant(&*self);
        }
        self.on_status_updated = true;
        self.get_status = true;
        self.relay_id = relay_id;
        self.streamer_url = streamer_url;
        self.password = password;
        self.name = name;
    }

    /// Whether the relay was started and not stopped since.
    pub fn is_started(&self) -> (r: bool)
        ensures
            r == self@.started,
    {
        self.started
    }

    /// Where the socket towards the destination is bound.
    pub fn bind_address(&self) -> (r: String)
        ensures
            r@ == self@.bind_address,
    {
        self.bind_address.clone()
    }

    /// Starts the relay, unless it is started.
    pub fn start(&mut self) -> (r: StartEffects)
        ensures
            old(self)@.started ==> final(self)@ == old(self)@ && r == StartEffects::Nothing,
            !old(self)@.started ==> {
                &&& final(self)@ == old(self)@.after_started()
                &&& start_effects_ok(
                    final(self)@,
                    crate::web::url_parts(old(self)@.streamer_url),
                    r,
                )
            },
    {
        proof {
            use_type_invariant(&*self);
        }
        if !self.started {
            self.started = true;
            self.start_internal()
        } else {
            StartEffects::Nothing
        }
    }

    /// Stops the relay, if it is started.
    pub fn stop(&mut self) -> (r: Option<StopEffects>)
        ensures
            final(self)@ == old(self)@.after_stopped(),
            r == if old(self)@.started {
                Some((RelayState { started: false, ..old(self)@ }).stop_effects())
            } else {
                None
            },
    {
        proof {
            use_type_invariant(&*self);
        }
        if self.started {
            self.started = false;
            Some(self.stop_internal())
        } else {
            None
        }
    }

    /// Connects to the streamer, or gives the connection up where the relay is
    /// stopped.
    pub fn start_internal(&mut self) -> (r: StartEffects)
        ensures
            final(self)@ == old(self)@.after_start(),
            start_effects_ok(old(self)@, crate::web::url_parts(old(self)@.streamer_url), r),
    {
        let parsed: Option<ParsedUrl> = parse_url(self.streamer_url.as_str());
        self.start_with_url(parsed)
    }

    /// Connects to the streamer, given what its web address is, or gives the
    /// connection up where the relay is stopped.
    pub fn start_with_url(&mut self, parsed: Option<ParsedUrl>) -> (r: StartEffects)
        ensures
            final(self)@ == old(self)@.after_start(),
            start_effects_ok(old(self)@, crate::web::parsed_view(parsed), r),
    {
        if !self.started {
            return StartEffects::Stop(self.stop_internal());
        }
        match parsed {
            Some(url) => StartEffects::Connect(url.text),
            None => StartEffects::Nothing,
        }
    }

    /// Takes up how a connection attempt ended.
    pub fn handle_connect_result(&mut self, result: ConnectResult) -> (r: Option<ReconnectEffects>)
        ensures
            result == ConnectResult::Connected ==> {
                &&& final(self)@ == (RelayState { ws_writer: true, ..old(self)@ })
                &&& r is None
            },
            result != ConnectResult::Connected ==> {
                &&& r matches Some(effects)
                &&& reconnects(old(self)@, final(self)@, effects)
            },
    {
        proof {
            use_type_invariant(&*self);
        }
        match result {
            ConnectResult::Connected => {
                self.ws_writer = true;
                None
            },
            ConnectResult::Failed => Some(self.reconnect_soon()),
            ConnectResult::TimedOut => Some(self.reconnect_soon()),
        }
    }

    /// Gives the connection up.
    pub fn stop_internal(&mut self) -> (r: StopEffects)
        ensures
            final(self)@ == old(self)@.disconnected(),
            r == old(self)@.stop_effects(),
    {
        proof {
            use_type_invariant(&*self);
        }
        let close_writer: bool = self.ws_writer;
        self.ws_writer = false;
        self.connected = false;
        self.wrong_password = false;
        self.reconnect_on_tunnel_error = None;
        self.start_on_reconnect_soon = None;
        StopEffects { close_writer, report: self.update_status() }
    }

    /// What to tell the user, where somebody wants to be told.
    pub fn update_status(&self) -> (r: Option<ConnectionStatus>)
        ensures
            r == self@.report(),
    {
        if !self.on_status_updated {
            return None;
        }
        Some(
            if self.connected {
                ConnectionStatus::Connected
            } else if self.wrong_password {
                ConnectionStatus::WrongPassword
            } else if self.started {
                ConnectionStatus::Connecting
            } else {
                ConnectionStatus::Disconnected
            },
        )
    }

    /// Gives the connection up and starts a timer to connect again.
    pub fn reconnect_soon(&mut self) -> (r: ReconnectEffects)
        ensures
            reconnects(old(self)@, final(self)@, r),
    {
        proof {
            use_type_invariant(&*self);
        }
        let stop: StopEffects = self.stop_internal();
        let timer: u64 = lowest_free(&self.timers);
        let mut timers: Vec<u64> = Vec::new();
        std::mem::swap(&mut self.timers, &mut timers);
        timers.push(timer);
        self.timers = timers;
        proof {
            lemma_push_holds(old(self)@.timers, timer, timer);
        }
        self.start_on_reconnect_soon = Some(timer);
        ReconnectEffects { stop, timer }
    }

    /// Takes up that a timer ran out. Only the latest one counts, and only as
    /// long as the connection was not given up since.
    pub fn reconnect_timer_fired(&mut self, timer: u64) -> (r: StartEffects)
        ensures
            final(self)@ == old(self)@.after_timer(timer),
            old(self)@.timer_counts(timer) ==> start_effects_ok(
                old(self)@.timer_gone(timer),
                crate::web::url_parts(old(self)@.streamer_url),
                r,
            ),
            !old(self)@.timer_counts(timer) ==> r == StartEffects::Nothing,
    {
        proof {
            use_type_invariant(&*self);
            if let Some(armed) = self.start_on_reconnect_soon {
                lemma_without_number(self.timers@, timer, armed);
            }
        }
        let counts: bool = match self.start_on_reconnect_soon {
            Some(armed) => armed == timer,
            None => false,
        };
        if counts {
            self.start_on_reconnect_soon = None;
        }
        let timers: Vec<u64> = taken_back(&self.timers, timer);
        self.timers = timers;
        if counts {
            self.start_internal()
        } else {
            StartEffects::Nothing
        }
    }

    /// Takes up that a tunnel ended. Only the latest one counts, and only as
    /// long as the connection was not given up since.
    pub fn tunnel_ended(&mut self, tunnel: u64) -> (r: Option<ReconnectEffects>)
        ensures
            old(self)@.tunnel_counts(tunnel) ==> {
                &&& r matches Some(effects)
                &&& final(self)@ == old(self)@.after_tunnel_end(tunnel, effects.timer)
                &&& reconnects(old(self)@.tunnel_gone(tunnel), final(self)@, effects)
            },
            !old(self)@.tunnel_counts(tunnel) ==> {
                &&& final(self)@ == old(self)@.tunnel_gone(tunnel)
                &&& r is None
            },
    {
        proof {
            use_type_invariant(&*self);
            if let Some(armed) = self.reconnect_on_tunnel_error {
                lemma_without_number(self.tunnels@, tunnel, armed);
            }
        }
        let counts: bool = match self.reconnect_on_tunnel_error {
            Some(armed) => armed == tunnel,
            None => false,
        };
        if counts {
            self.reconnect_on_tunnel_error = None;
        }
        let tunnels: Vec<u64> = taken_back(&self.tunnels, tunnel);
        self.tunnels = tunnels;
        if counts {
            Some(self.reconnect_soon())
        } else {
            None
        }
    }

    /// Takes up something from the websocket.
    pub fn handle_websocket_event(&mut self, event: WebsocketEvent) -> (r: ReceiverStep)
        ensures
            match event {
                WebsocketEvent::Message(message) => {
                    &&& final(self)@ == old(self)@.after_message(message)
                    &&& r.go_on
                    &&& r.action matches ReceiverAction::Handle(effects)
                    &&& message_effects_ok(old(self)@, message, effects)
                },
                WebsocketEvent::Ping(data) => {
                    &&& final(self)@ == old(self)@
                    &&& r.go_on
                    &&& if old(self)@.ws_writer {
                        r.action == ReceiverAction::SendPong(data)
                    } else {
                        r.action == ReceiverAction::Nothing
                    }
                },
                WebsocketEvent::Unreadable | WebsocketEvent::Binary | WebsocketEvent::Pong => {
                    &&& final(self)@ == old(self)@
                    &&& r == (ReceiverStep { action: ReceiverAction::Nothing, go_on: true })
                },
                WebsocketEvent::Close => {
                    &&& !r.go_on
                    &&& r.action matches ReceiverAction::Reconnect(effects)
                    &&& reconnects(old(self)@, final(self)@, effects)
                },
                WebsocketEvent::Error(text) => if crate::text::holds_text(
                    text@,
                    "Connection reset without closing handshake"@,
                ) {
                    &&& !r.go_on
                    &&& r.action matches ReceiverAction::Reconnect(effects)
                    &&& reconnects(old(self)@, final(self)@, effects)
                } else {
                    &&& final(self)@ == old(self)@
                    &&& r == (ReceiverStep { action: ReceiverAction::Nothing, go_on: false })
                },
            },
    {
        match event {
            WebsocketEvent::Message(message) => ReceiverStep {
                action: ReceiverAction::Handle(self.handle_message(message)),
                go_on: true,
            },
            WebsocketEvent::Unreadable | WebsocketEvent::Binary | WebsocketEvent::Pong => {
                ReceiverStep { action: ReceiverAction::Nothing, go_on: true }
            },
            WebsocketEvent::Ping(data) => {
                if self.ws_writer {
                    ReceiverStep { action: ReceiverAction::SendPong(data), go_on: true }
                } else {
                    ReceiverStep { action: ReceiverAction::Nothing, go_on: true }
                }
            },
            WebsocketEvent::Close => ReceiverStep {
                action: ReceiverAction::Reconnect(self.reconnect_soon()),
                go_on: false,
            },
            WebsocketEvent::Error(text) => {
                if contains_text(text.as_str(), "Connection reset without closing handshake") {
                    ReceiverStep {
                        action: ReceiverAction::Reconnect(self.reconnect_soon()),
                        go_on: false,
                    }
                } else {
                    ReceiverStep { action: ReceiverAction::Nothing, go_on: false }
                }
            },
        }
    }

    /// Takes up a message.
    pub fn handle_message(&mut self, message: MessageToRelay) -> (r: MessageEffects)
        ensures
            final(self)@ == old(self)@.after_message(message),
            message_effects_ok(old(self)@, message, r),
    {
        match message {
            MessageToRelay::Hello(hello) => self.handle_message_hello(hello),
            MessageToRelay::Identified(identified) => self.handle_message_identified(identified),
            MessageToRelay::Request(request) => self.handle_message_request(request),
        }
    }

    /// Answers the streamer's challenge.
    pub fn handle_message_hello(&self, hello: Hello) -> (r: MessageEffects)
        ensures
            hello_effects_ok(self@, hello, r),
    {
        let authentication: String = calculate_authentication(
            self.password.as_str(),
            hello.authentication.salt.as_str(),
            hello.authentication.challenge.as_str(),
        );
        self.identify(authentication)
    }

    /// Identifies the relay with its answer to the challenge.
    pub fn identify(&self, authentication: String) -> (r: MessageEffects)
        ensures
            identify_effects_ok(self@, authentication@, r),
    {
        let identify: Identify = Identify {
            id: self.relay_id.clone(),
            name: self.name.clone(),
            authentication,
        };
        self.send(MessageToStreamer::Identify(identify))
    }

    /// Takes up the streamer's verdict.
    pub fn handle_message_identified(&mut self, identified: Identified) -> (r: MessageEffects)
        ensures
            final(self)@ == old(self)@.after_identified(identified),
            r == MessageEffects::Report(final(self)@.report()),
    {
        proof {
            use_type_invariant(&*self);
        }
        match identified.result {
            MoblinkResult::Okay(_) => {
                self.connected = true;
            },
            MoblinkResult::WrongPassword(_) => {
                self.wrong_password = true;
            },
        }
        MessageEffects::Report(self.update_status())
    }

    /// Takes up a request.
    pub fn handle_message_request(&self, request: MessageRequest) -> (r: MessageEffects)
        ensures
            request_effects_ok(self@, request, r),
    {
        let MessageRequest { id, data } = request;
        match data {
            MessageRequestData::StartTunnel(start_tunnel) => MessageEffects::StartTunnel(
                TunnelSetup::new(id, start_tunnel.address, start_tunnel.port),
            ),
            MessageRequestData::Status(present) => self.handle_message_request_status(
                MessageRequest { id, data: MessageRequestData::Status(present) },
            ),
        }
    }

    /// Takes up a request for the device's state.
    pub fn handle_message_request_status(&self, request: MessageRequest) -> (r: MessageEffects)
        ensures
            r == if self@.get_status {
                MessageEffects::AskStatus(request)
            } else {
                MessageEffects::Fail(RelayError::StatusFunctionNotSet)
            },
    {
        if !self.get_status {
            return MessageEffects::Fail(RelayError::StatusFunctionNotSet);
        }
        MessageEffects::AskStatus(request)
    }

    /// Responds to a request with the device's state.
    pub fn respond_status(&self, request: &MessageRequest, status: Status) -> (r: MessageEffects)
        ensures
            r == sent_if_connected(
                self@,
                MessageToStreamer::Response(
                    ok_response(
                        request.id,
                        ResponseData::Status(
                            StatusResponseData { battery_percentage: status.battery_percentage },
                        ),
                    ),
                ),
            ),
    {
        let data: ResponseData = ResponseData::Status(
            StatusResponseData { battery_percentage: status.battery_percentage },
        );
        self.send(MessageToStreamer::Response(request.to_ok_response(data)))
    }

    /// Sends a message, where there is a websocket to write to.
    pub fn send(&self, message: MessageToStreamer) -> (r: MessageEffects)
        ensures
            r == sent_if_connected(self@, message),
    {
        if self.ws_writer {
            MessageEffects::Send(message)
        } else {
            MessageEffects::Fail(RelayError::NoWebsocketWriter)
        }
    }
}

impl RelayState {
    /// The state after the streamer's verdict.
    pub open spec fn after_identified(self, identified: Identified) -> RelayState {
        match identified.result {
            MoblinkResult::Okay(_) => RelayState { connected: true, ..self },
            MoblinkResult::WrongPassword(_) => RelayState { wrong_password: true, ..self },
        }
    }

    /// The state after a message.
    pub open spec fn after_message(self, message: MessageToRelay) -> RelayState {
        match message {
            MessageToRelay::Identified(identified) => self.after_identified(identified),
            _ => self,
        }
    }
}

/// Sends a message, where there is a websocket to write to.
pub open spec fn sent_if_connected(
    state: RelayState,
    message: MessageToStreamer,
) -> MessageEffects {
    if state.ws_writer {
        MessageEffects::Send(message)
    } else {
        MessageEffects::Fail(RelayError::NoWebsocketWriter)
    }
}

/// The relay sends who it is and the given answer, where it can send.
pub open spec fn identify_effects_ok(
    state: RelayState,
    authentication: Seq<char>,
    effects: MessageEffects,
) -> bool {
    if state.ws_writer {
        &&& effects matches MessageEffects::Send(MessageToStreamer::Identify(identify))
        &&& identify.id@ == state.relay_id
        &&& identify.name@ == state.name
        &&& identify.authentication@ == authentication
    } else {
        effects == MessageEffects::Fail(RelayError::NoWebsocketWriter)
    }
}

/// The relay answers the challenge with its password.
pub open spec fn hello_effects_ok(
    state: RelayState,
    hello: Hello,
    effects: MessageEffects,
) -> bool {
    identify_effects_ok(
        state,
        authentication_text(
            state.password,
            hello.authentication.salt@,
            hello.authentication.challenge@,
        ),
        effects,
    )
}

/// The relay opens the requested tunnel, or asks for the device's state.
pub open spec fn request_effects_ok(
    state: RelayState,
    request: MessageRequest,
    effects: MessageEffects,
) -> bool {
    match request.data {
        MessageRequestData::StartTunnel(start_tunnel) => {
            &&& effects matches MessageEffects::StartTunnel(setup)
            &&& setup@ == (TunnelState {
                request_id: request.id,
                address: start_tunnel.address@,
                port: start_tunnel.port,
                phase: TunnelPhase::ReadingBindAddress,
            })
        },
        MessageRequestData::Status(_) => effects == if state.get_status {
            MessageEffects::AskStatus(request)
        } else {
            MessageEffects::Fail(RelayError::StatusFunctionNotSet)
        },
    }
}

/// Whether a message takes what it should.
pub open spec fn message_effects_ok(
    state: RelayState,
    message: MessageToRelay,
    effects: MessageEffects,
) -> bool {
    match message {
        MessageToRelay::Hello(hello) => hello_effects_ok(state, hello, effects),
        MessageToRelay::Identified(identified) => effects == MessageEffects::Report(
            state.after_identified(identified).report(),
        ),
        MessageToRelay::Request(request) => request_effects_ok(state, request, effects),
    }
}

/// What the opening of a tunnel waits for.
#[derive(Clone, Copy, PartialEq, Eq, Structural, Debug)]
pub enum TunnelPhase {
    /// What the relay's bind address is.
    ReadingBindAddress,
    /// The socket towards the streamer. The one towards the destination will
    /// be bound to this address.
    BindingStreamer(SocketAddress),
    /// The response to the streamer.
    Responding(SocketAddress),
    /// The socket towards the destination.
    BindingDestination,
    /// What the destination's address is.
    ReadingDestination,
    /// Nothing: packets are forwarded.
    Forwarding,
    /// Nothing: the tunnel could not be opened.
    Failed,
}

/// What happened while a tunnel is opened.
#[derive(Clone, Copy, PartialEq, Eq, Structural, Debug)]
pub enum TunnelEvent {
    /// What the relay's bind address is with a port, and what it is alone.
    BindAddressRead(Option<SocketAddress>, Option<IpAddress>),
    /// The port of the socket towards the streamer, where it could be bound.
    StreamerBound(Option<u16>),
    /// Whether the response was sent.
    ResponseSent(bool),
    /// Whether the socket towards the destination could be bound.
    DestinationBound(bool),
    /// What the destination's address is.
    DestinationRead(Option<IpAddress>),
}

/// Why a tunnel could not be opened.
#[derive(Clone, Copy, PartialEq, Eq, Structural, Debug)]
pub enum TunnelError {
    InvalidBindAddress(AddressError),
    StreamerSocket,
    NoWebsocketWriter,
    Response,
    DestinationSocket,
    InvalidDestination,
}

/// What the opening of a tunnel takes next.
#[derive(Clone, Copy, PartialEq, Eq, Structural, Debug)]
pub enum TunnelAction {
    Nothing,
    /// Bind the socket towards the streamer.
    BindStreamer(SocketAddress),
    /// Send this response.
    Respond(MessageResponse),
    /// Bind the socket towards the destination.
    BindDestination(SocketAddress),
    /// Read the destination's address.
    ReadDestination,
    /// Forward packets to this address, and tell the end of the tunnel under
    /// this number.
    Forward(SocketAddress, u64),
    Fail(TunnelError),
}

/// A tunnel being opened, as plain values.
pub struct TunnelState {
    pub request_id: u32,
    pub address: Seq<char>,
    pub port: u16,
    pub phase: TunnelPhase,
}

/// A tunnel being opened.
#[derive(Debug)]
pub struct TunnelSetup {
    request_id: u32,
    address: String,
    port: u16,
    phase: TunnelPhase,
}

impl View for TunnelSetup {
    type V = TunnelState;

    closed spec fn view(&self) -> TunnelState {
        TunnelState {
            request_id: self.request_id,
            address: self.address@,
            port: self.port,
            phase: self.phase,
        }
    }
}

/// Any address, any port.
pub open spec fn any_ipv4_address() -> SocketAddress {
    SocketAddress {
        ip: IpAddress::V4(Ipv4Address { a: 0, b: 0, c: 0, d: 0 }),
        port: 0,
        flow_info: 0,
        scope_id: 0,
    }
}

impl TunnelState {
    /// What the tunnel waits for after an event, and what is to be done. An
    /// event that it does not wait for changes nothing. Once it is open, the
    /// tunnel has the given number.
    pub open spec fn next(self, relay: RelayState, event: TunnelEvent, number: u64) -> (
        TunnelPhase,
        TunnelAction,
    ) {
        match (self.phase, event) {
            (
                TunnelPhase::ReadingBindAddress,
                TunnelEvent::BindAddressRead(with_port, alone),
            ) => match socket_addr_of(with_port, alone) {
                Ok(address) => (
                    TunnelPhase::BindingStreamer(address),
                    TunnelAction::BindStreamer(any_ipv4_address()),
                ),
                Err(error) => failed_with(TunnelError::InvalidBindAddress(error)),
            },
            (TunnelPhase::BindingStreamer(address), TunnelEvent::StreamerBound(Some(port))) => {
                if relay.ws_writer {
                    (
                        TunnelPhase::Responding(address),
                        TunnelAction::Respond(
                            ok_response(
                                self.request_id,
                                ResponseData::StartTunnel(StartTunnelResponseData { port }),
                            ),
                        ),
                    )
                } else {
                    failed_with(TunnelError::NoWebsocketWriter)
                }
            },
            (TunnelPhase::BindingStreamer(_), TunnelEvent::StreamerBound(None)) => failed_with(
                TunnelError::StreamerSocket,
            ),
            (TunnelPhase::Responding(address), TunnelEvent::ResponseSent(true)) => (
                TunnelPhase::BindingDestination,
                TunnelAction::BindDestination(address),
            ),
            (TunnelPhase::Responding(_), TunnelEvent::ResponseSent(false)) => failed_with(
                TunnelError::Response,
            ),
            (TunnelPhase::BindingDestination, TunnelEvent::DestinationBound(true)) => (
                TunnelPhase::ReadingDestination,
                TunnelAction::ReadDestination,
            ),
            (TunnelPhase::BindingDestination, TunnelEvent::DestinationBound(false)) => failed_with(
                TunnelError::DestinationSocket,
            ),
            (TunnelPhase::ReadingDestination, TunnelEvent::DestinationRead(Some(ip))) => (
                TunnelPhase::Forwarding,
                TunnelAction::Forward(
                    SocketAddress {
                        ip: normalized(ip),
                        port: self.port,
                        flow_info: 0,
                        scope_id: 0,
                    },
                    number,
                ),
            ),
            (TunnelPhase::ReadingDestination, TunnelEvent::DestinationRead(None)) => failed_with(
                TunnelError::InvalidDestination,
            ),
            _ => (self.phase, TunnelAction::Nothing),
        }
    }
}

/// The end of a tunnel that could not be opened.
pub open spec fn failed_with(error: TunnelError) -> (TunnelPhase, TunnelAction) {
    (TunnelPhase::Failed, TunnelAction::Fail(error))
}

impl RelayState {
    /// The state after a step of the opening of a tunnel: once packets are
    /// forwarded, the new tunnel is the one whose end counts.
    pub open spec fn after_tunnel(self, action: TunnelAction) -> RelayState {
        match action {
            TunnelAction::Forward(_, number) => self.tunnel_opened(number),
            _ => self,
        }
    }
}

/// The number of the tunnel that is open, where it is.
pub open spec fn tunnel_number(action: TunnelAction) -> u64 {
    match action {
        TunnelAction::Forward(_, number) => number,
        _ => 0,
    }
}

impl TunnelSetup {
    /// The opening of a tunnel that was requested. It waits for what the
    /// relay's bind address is.
    pub fn new(request_id: u32, address: String, port: u16) -> (r: TunnelSetup)
        ensures
            r@ == (TunnelState {
                request_id,
                address: address@,
                port,
                phase: TunnelPhase::ReadingBindAddress,
            }),
    {
        TunnelSetup { request_id, address, port, phase: TunnelPhase::ReadingBindAddress }
    }

    /// The destination's address as it was requested.
    pub fn address(&self) -> (r: String)
        ensures
            r@ == self@.address,
    {
        self.address.clone()
    }

    /// What the opening waits for.
    pub fn phase(&self) -> (r: TunnelPhase)
        ensures
            r == self@.phase,
    {
        self.phase
    }

    /// Takes up what happened. An open tunnel gets the lowest number that no
    /// other open one has, so that the one that counted before is another one.
    pub fn step(&mut self, relay: &mut Relay, event: TunnelEvent) -> (r: TunnelAction)
        ensures
            final(self)@ == (TunnelState {
                phase: old(self)@.next(old(relay)@, event, tunnel_number(r)).0,
                ..old(self)@
            }),
            r == old(self)@.next(old(relay)@, event, tunnel_number(r)).1,
            r is Forward ==> is_lowest_free(old(relay)@.tunnels, tunnel_number(r))
                && !old(relay)@.tunnel_counts(tunnel_number(r)),
            final(relay)@ == old(relay)@.after_tunnel(r),
    {
        match (self.phase, event) {
            (
                TunnelPhase::ReadingBindAddress,
                TunnelEvent::BindAddressRead(with_port, alone),
            ) => match parse_socket_addr(with_port, alone) {
                Ok(address) => {
                    self.phase = TunnelPhase::BindingStreamer(address);
                    TunnelAction::BindStreamer(
                        SocketAddress {
                            ip: IpAddress::V4(Ipv4Address::new(0, 0, 0, 0)),
                            port: 0,
                            flow_info: 0,
                            scope_id: 0,
                        },
                    )
                },
                Err(error) => self.fail(TunnelError::InvalidBindAddress(error)),
            },
            (TunnelPhase::BindingStreamer(address), TunnelEvent::StreamerBound(Some(port))) => {
                if relay.ws_writer {
                    self.phase = TunnelPhase::Responding(address);
                    TunnelAction::Respond(
                        MessageResponse {
                            id: self.request_id,
                            result: MoblinkResult::Okay(Present {  }),
                            data: ResponseData::StartTunnel(StartTunnelResponseData { port }),
                        },
                    )
                } else {
                    self.fail(TunnelError::NoWebsocketWriter)
                }
            },
            (TunnelPhase::BindingStreamer(_), TunnelEvent::StreamerBound(None)) => self.fail(
                TunnelError::StreamerSocket,
            ),
            (TunnelPhase::Responding(address), TunnelEvent::ResponseSent(sent)) => {
                if sent {
                    self.phase = TunnelPhase::BindingDestination;
                    TunnelAction::BindDestination(address)
                } else {
                    self.fail(TunnelError::Response)
                }
            },
            (TunnelPhase::BindingDestination, TunnelEvent::DestinationBound(bound)) => {
                if bound {
                    self.phase = TunnelPhase::ReadingDestination;
                    TunnelAction::ReadDestination
                } else {
                    self.fail(TunnelError::DestinationSocket)
                }
            },
            (TunnelPhase::ReadingDestination, TunnelEvent::DestinationRead(Some(ip))) => {
                self.phase = TunnelPhase::Forwarding;
                let number: u64 = lowest_free(&relay.tunnels);
                proof {
                    use_type_invariant(&*relay);
                    lemma_push_holds(relay.tunnels@, number, number);
                }
                relay.reconnect_on_tunnel_error = None;
                let mut tunnels: Vec<u64> = Vec::new();
                std::mem::swap(&mut relay.tunnels, &mut tunnels);
                tunnels.push(number);
                relay.tunnels = tunnels;
                relay.reconnect_on_tunnel_error = Some(number);
                TunnelAction::Forward(
                    SocketAddress {
                        ip: ip.normalize(),
                        port: self.port,
                        flow_info: 0,
                        scope_id: 0,
                    },
                    number,
                )
            },
            (TunnelPhase::ReadingDestination, TunnelEvent::DestinationRead(None)) => self.fail(
                TunnelError::InvalidDestination,
            ),
            _ => TunnelAction::Nothing,
        }
    }

    /// Gives the opening up.
    fn fail(&mut self, error: TunnelError) -> (r: TunnelAction)
        ensures
            final(self)@ == (TunnelState { phase: TunnelPhase::Failed, ..old(self)@ }),
            r == TunnelAction::Fail(error),
    {
        self.phase = TunnelPhase::Failed;
        TunnelAction::Fail(error)
    }
}

/// What can happen to a relay.
pub enum RelayChange {
    /// The relay gets another address to bind to.
    BindAddress(Seq<char>),
    SetUp { streamer_url: Seq<char>, password: Seq<char>, relay_id: Seq<char>, name: Seq<char> },
    Started,
    Stopped,
    /// A connection is tried, which a stopped relay gives up.
    StartTried,
    /// The connection is given up.
    GivenUp,
    Connected,
    /// The connection is given up, and a timer starts under this number.
    Reconnecting(u64),
    Message(MessageToRelay),
    /// A tunnel is opened under this number.
    TunnelOpened(u64),
    /// The tunnel with the first number ended. Where that counts, a timer starts
    /// under the second one.
    TunnelEnded(u64, u64),
    TimerFired(u64),
}

impl RelayState {
    /// Whether something can happen: a new tunnel or timer has a number that no
    /// other one has.
    pub open spec fn can(self, change: RelayChange) -> bool {
        match change {
            RelayChange::Reconnecting(timer) => !self.timers.contains(timer),
            RelayChange::TunnelOpened(tunnel) => !self.tunnels.contains(tunnel),
            RelayChange::TunnelEnded(_, timer) => !self.timers.contains(timer),
            _ => true,
        }
    }

    /// The state after something happened.
    pub open spec fn after(self, change: RelayChange) -> RelayState {
        match change {
            RelayChange::BindAddress(bind_address) => RelayState { bind_address, ..self },
            RelayChange::SetUp { streamer_url, password, relay_id, name } => self.set_up(
                streamer_url,
                password,
                relay_id,
                name,
            ),
            RelayChange::Started => self.after_started(),
            RelayChange::Stopped => self.after_stopped(),
            RelayChange::StartTried => self.after_start(),
            RelayChange::GivenUp => self.disconnected(),
            RelayChange::Connected => RelayState { ws_writer: true, ..self },
            RelayChange::Reconnecting(timer) => self.reconnecting(timer),
            RelayChange::Message(message) => self.after_message(message),
            RelayChange::TunnelOpened(tunnel) => self.tunnel_opened(tunnel),
            RelayChange::TunnelEnded(tunnel, timer) => self.after_tunnel_end(tunnel, timer),
            RelayChange::TimerFired(timer) => self.after_timer(timer),
        }
    }

    /// The state after several things happened, one after the other.
    pub open spec fn after_all(self, changes: Seq<RelayChange>) -> RelayState
        decreases changes.len(),
    {
        if changes.len() == 0 {
            self
        } else {
            self.after_all(changes.drop_last()).after(changes.last())
        }
    }

    /// Whether several things can happen, one after the other.
    pub open spec fn can_all(self, changes: Seq<RelayChange>) -> bool
        decreases changes.len(),
    {
        changes.len() == 0 || {
            &&& self.can_all(changes.drop_last())
            &&& self.after_all(changes.drop_last()).can(changes.last())
        }
    }
}

/// Whether a tunnel is still open after some changes.
pub open spec fn stays_open(changes: Seq<RelayChange>, tunnel: u64) -> bool {
    forall|i: int|
        0 <= i < changes.len() ==> !(#[trigger] changes[i] matches RelayChange::TunnelEnded(
            ended,
            _,
        ) && ended == tunnel)
}

/// Whether a timer still runs after some changes.
pub open spec fn still_runs(changes: Seq<RelayChange>, timer: u64) -> bool {
    forall|i: int|
        0 <= i < changes.len() ==> #[trigger] changes[i] != RelayChange::TimerFired(timer)
}

/// Whether the relay is not stopped, does not give the connection up by itself
/// or to connect again, and opens no tunnel.
pub open spec fn keeps_tunnel(changes: Seq<RelayChange>) -> bool {
    forall|i: int|
        0 <= i < changes.len() ==> {
            let change = #[trigger] changes[i];
            &&& !(change is Stopped) && !(change is GivenUp)
            &&& !(change is Reconnecting) && !(change is TunnelOpened)
        }
}

/// Whether the relay is not stopped, does not give the connection up by itself
/// or to connect again, and no tunnel ends.
pub open spec fn keeps_timer(changes: Seq<RelayChange>) -> bool {
    forall|i: int|
        0 <= i < changes.len() ==> {
            let change = #[trigger] changes[i];
            &&& !(change is Stopped) && !(change is GivenUp)
            &&& !(change is Reconnecting) && !(change is TunnelEnded)
        }
}

/// What the tunnels and the timers are after a change.
proof fn lemma_change(state: RelayState, change: RelayChange, number: u64)
    ensures
        state.after(change).tunnels.contains(number) <==> match change {
            RelayChange::TunnelOpened(tunnel) => state.tunnels.contains(number) || number
                == tunnel,
            RelayChange::TunnelEnded(tunnel, _) => state.tunnels.contains(number) && number
                != tunnel,
            _ => state.tunnels.contains(number),
        },
        state.after(change).timers.contains(number) <==> match change {
            RelayChange::Reconnecting(timer) => state.timers.contains(number) || number == timer,
            RelayChange::TunnelEnded(tunnel, timer) => state.timers.contains(number) || (
            state.tunnel_counts(tunnel) && number == timer),
            RelayChange::TimerFired(timer) => state.timers.contains(number) && number != timer,
            _ => state.timers.contains(number),
        },
{
    match change {
        RelayChange::TunnelOpened(tunnel) => {
            lemma_push_holds(state.tunnels, tunnel, number);
        },
        RelayChange::Reconnecting(timer) => {
            lemma_push_holds(state.timers, timer, number);
        },
        RelayChange::TunnelEnded(tunnel, timer) => {
            lemma_without_number(state.tunnels, tunnel, number);
            lemma_push_holds(state.timers, timer, number);
        },
        RelayChange::TimerFired(timer) => {
            lemma_without_number(state.timers, timer, number);
        },
        _ => {},
    }
}

/// What a longer list of numbers holds.
proof fn lemma_push_holds(used: Seq<u64>, n: u64, m: u64)
    ensures
        used.push(n).contains(m) <==> used.contains(m) || m == n,
{
    if used.contains(m) {
        let k = choose|k: int| 0 <= k < used.len() && used[k] == m;
        assert(used.push(n)[k] == m);
    }
    assert(used.push(n)[used.len() as int] == n);
}

/// Whatever happens, the tunnel that counts has not ended and the timer that
/// counts has not run out.
pub proof fn law_relay_state_stays_valid(state: RelayState, change: RelayChange)
    requires
        state.wf(),
        state.can(change),
    ensures
        state.after(change).wf(),
{
    let after = state.after(change);
    if let Some(tunnel) = after.reconnect_on_tunnel_error {
        lemma_change(state, change, tunnel);
    }
    if let Some(timer) = after.start_on_reconnect_soon {
        lemma_change(state, change, timer);
    }
}

/// A tunnel that is open and does not count never counts again, whatever
/// happens until it ends.
pub proof fn law_superseded_tunnel_never_counts(
    state: RelayState,
    changes: Seq<RelayChange>,
    tunnel: u64,
)
    requires
        state.tunnels.contains(tunnel),
        !state.tunnel_counts(tunnel),
        state.can_all(changes),
        stays_open(changes, tunnel),
    ensures
        state.after_all(changes).tunnels.contains(tunnel),
        !state.after_all(changes).tunnel_counts(tunnel),
    decreases changes.len(),
{
    if changes.len() > 0 {
        let fewer = changes.drop_last();
        assert(stays_open(fewer, tunnel)) by {
            assert forall|i: int| 0 <= i < fewer.len() implies !(
            #[trigger] fewer[i] matches RelayChange::TunnelEnded(ended, _) && ended == tunnel) by {
                assert(fewer[i] == changes[i]);
            }
        }
        law_superseded_tunnel_never_counts(state, fewer, tunnel);
        assert(changes[changes.len() - 1] == changes.last());
        lemma_change(state.after_all(fewer), changes.last(), tunnel);
    }
}

/// A timer that runs and does not count never counts again, whatever happens
/// until it runs out.
pub proof fn law_superseded_timer_never_counts(
    state: RelayState,
    changes: Seq<RelayChange>,
    timer: u64,
)
    requires
        state.timers.contains(timer),
        !state.timer_counts(timer),
        state.can_all(changes),
        still_runs(changes, timer),
    ensures
        state.after_all(changes).timers.contains(timer),
        !state.after_all(changes).timer_counts(timer),
    decreases changes.len(),
{
    if changes.len() > 0 {
        let fewer = changes.drop_last();
        assert(still_runs(fewer, timer)) by {
            assert forall|i: int| 0 <= i < fewer.len() implies #[trigger] fewer[i]
                != RelayChange::TimerFired(timer) by {
                assert(fewer[i] == changes[i]);
            }
        }
        law_superseded_timer_never_counts(state, fewer, timer);
        assert(changes[changes.len() - 1] == changes.last());
        lemma_change(state.after_all(fewer), changes.last(), timer);
    }
}

/// The tunnel that counts goes on counting until the relay is stopped, connects
/// again or opens another one.
proof fn lemma_tunnel_goes_on_counting(
    state: RelayState,
    changes: Seq<RelayChange>,
    tunnel: u64,
)
    requires
        state.started,
        state.tunnel_counts(tunnel),
        keeps_tunnel(changes),
        stays_open(changes, tunnel),
    ensures
        state.after_all(changes).started,
        state.after_all(changes).tunnel_counts(tunnel),
    decreases changes.len(),
{
    if changes.len() > 0 {
        let fewer = changes.drop_last();
        assert forall|i: int| 0 <= i < fewer.len() implies #[trigger] fewer[i] == changes[i] by {}
        lemma_tunnel_goes_on_counting(state, fewer, tunnel);
        assert(changes[changes.len() - 1] == changes.last());
    }
}

/// The timer that counts goes on counting until it runs out, the relay is
/// stopped, it connects again or a tunnel ends.
proof fn lemma_timer_goes_on_counting(state: RelayState, changes: Seq<RelayChange>, timer: u64)
    requires
        state.started,
        state.timer_counts(timer),
        keeps_timer(changes),
        still_runs(changes, timer),
    ensures
        state.after_all(changes).started,
        state.after_all(changes).timer_counts(timer),
    decreases changes.len(),
{
    if changes.len() > 0 {
        let fewer = changes.drop_last();
        assert forall|i: int| 0 <= i < fewer.len() implies #[trigger] fewer[i] == changes[i] by {}
        lemma_timer_goes_on_counting(state, fewer, timer);
        assert(changes[changes.len() - 1] == changes.last());
    }
}

/// Of two tunnels only the later one counts. The end of the first one changes
/// nothing but that it is no longer open. The end of the second one makes the
/// relay connect again, unless it was stopped, connected again or opened
/// another tunnel before, and it does so once.
pub proof fn law_only_the_latest_tunnel_counts(
    state: RelayState,
    first: u64,
    between: Seq<RelayChange>,
    second: u64,
    later: Seq<RelayChange>,
    timer: u64,
)
    requires
        ({
            let opened = state.tunnel_opened(first);
            let both = opened.after_all(between).tunnel_opened(second);
            &&& state.can(RelayChange::TunnelOpened(first))
            &&& opened.can_all(between)
            &&& opened.after_all(between).can(RelayChange::TunnelOpened(second))
            &&& both.can_all(later)
            &&& stays_open(between, first)
            &&& stays_open(later, first)
            &&& stays_open(later, second)
        }),
    ensures
        ({
            let both = state.tunnel_opened(first).after_all(between).tunnel_opened(second);
            let end = both.after_all(later);
            &&& first != second
            &&& end.after(RelayChange::TunnelEnded(first, timer)) == end.tunnel_gone(first)
            &&& both.started && keeps_tunnel(later) ==> {
                let again = end.tunnel_gone(second).reconnecting(timer);
                &&& end.after(RelayChange::TunnelEnded(second, timer)) == again
                &&& !again.tunnel_counts(first) && !again.tunnel_counts(second)
            }
        }),
{
    let opened = state.tunnel_opened(first);
    let middle = opened.after_all(between);
    let both = middle.tunnel_opened(second);
    lemma_push_holds(state.tunnels, first, first);
    lemma_open_stays(opened, between, first);
    lemma_push_holds(middle.tunnels, second, first);
    lemma_push_holds(middle.tunnels, second, second);
    law_superseded_tunnel_never_counts(both, later, first);
    if both.started && keeps_tunnel(later) {
        lemma_tunnel_goes_on_counting(both, later, second);
    }
}

/// A tunnel that does not end stays open.
proof fn lemma_open_stays(state: RelayState, changes: Seq<RelayChange>, tunnel: u64)
    requires
        state.tunnels.contains(tunnel),
        stays_open(changes, tunnel),
    ensures
        state.after_all(changes).tunnels.contains(tunnel),
    decreases changes.len(),
{
    if changes.len() > 0 {
        let fewer = changes.drop_last();
        assert forall|i: int| 0 <= i < fewer.len() implies #[trigger] fewer[i] == changes[i] by {}
        lemma_open_stays(state, fewer, tunnel);
        assert(changes[changes.len() - 1] == changes.last());
        lemma_change(state.after_all(fewer), changes.last(), tunnel);
    }
}

/// A timer that does not run out goes on running.
proof fn lemma_running_stays(state: RelayState, changes: Seq<RelayChange>, timer: u64)
    requires
        state.timers.contains(timer),
        still_runs(changes, timer),
    ensures
        state.after_all(changes).timers.contains(timer),
    decreases changes.len(),
{
    if changes.len() > 0 {
        let fewer = changes.drop_last();
        assert forall|i: int| 0 <= i < fewer.len() implies #[trigger] fewer[i] == changes[i] by {}
        lemma_running_stays(state, fewer, timer);
        assert(changes[changes.len() - 1] == changes.last());
        lemma_change(state.after_all(fewer), changes.last(), timer);
    }
}

/// Of two restarts that wait only the later one is carried out. The first timer
/// changes nothing when it runs out but that it no longer runs. The second one
/// makes a started relay connect, unless the relay was stopped, connected again
/// or a tunnel ended before, and it does so once.
pub proof fn law_only_the_latest_restart_counts(
    state: RelayState,
    first: u64,
    between: Seq<RelayChange>,
    second: u64,
    later: Seq<RelayChange>,
)
    requires
        ({
            let waiting = state.reconnecting(first);
            let both = waiting.after_all(between).reconnecting(second);
            &&& state.can(RelayChange::Reconnecting(first))
            &&& waiting.can_all(between)
            &&& waiting.after_all(between).can(RelayChange::Reconnecting(second))
            &&& both.can_all(later)
            &&& still_runs(between, first)
            &&& still_runs(later, first)
            &&& still_runs(later, second)
        }),
    ensures
        ({
            let both = state.reconnecting(first).after_all(between).reconnecting(second);
            let end = both.after_all(later);
            &&& first != second
            &&& end.after(RelayChange::TimerFired(first)) == end.timer_gone(first)
            &&& end.timer_gone(first).start_on_reconnect_soon == end.start_on_reconnect_soon
            &&& both.started && keeps_timer(later) ==> {
                let again = end.after(RelayChange::TimerFired(second));
                &&& end.timer_counts(second)
                &&& again == end.timer_gone(second)
                &&& again.started
                &&& !again.timer_counts(first) && !again.timer_counts(second)
            }
        }),
{
    let waiting = state.reconnecting(first);
    let middle = waiting.after_all(between);
    let both = middle.reconnecting(second);
    lemma_push_holds(state.timers, first, first);
    lemma_running_stays(waiting, between, first);
    lemma_push_holds(middle.timers, second, first);
    lemma_push_holds(middle.timers, second, second);
    law_superseded_timer_never_counts(both, later, first);
    if both.started && keeps_timer(later) {
        lemma_timer_goes_on_counting(both, later, second);
    }
}

/// After a stop no tunnel that is open and no timer that runs counts, whatever
/// happens later, also where the relay is started again.
pub proof fn law_nothing_counts_after_a_stop(
    state: RelayState,
    changes: Seq<RelayChange>,
    number: u64,
)
    requires
        state.started,
        state.after_stopped().can_all(changes),
    ensures
        state.tunnels.contains(number) && stays_open(changes, number)
            ==> !state.after_stopped().after_all(changes).tunnel_counts(number),
        state.timers.contains(number) && still_runs(changes, number)
            ==> !state.after_stopped().after_all(changes).timer_counts(number),
{
    if state.tunnels.contains(number) && stays_open(changes, number) {
        law_superseded_tunnel_never_counts(state.after_stopped(), changes, number);
    }
    if state.timers.contains(number) && still_runs(changes, number) {
        law_superseded_timer_never_counts(state.after_stopped(), changes, number);
    }
}

/// A tunnel or a timer can always get the lowest free number, and that is not
/// the number of the one that counts.
pub proof fn law_free_numbers_can_be_given_out(state: RelayState, ended: u64, number: u64)
    requires
        state.wf(),
    ensures
        is_lowest_free(state.tunnels, number) ==> {
            &&& state.can(RelayChange::TunnelOpened(number))
            &&& !state.tunnel_counts(number)
        },
        is_lowest_free(state.timers, number) ==> {
            &&& state.can(RelayChange::Reconnecting(number))
            &&& state.can(RelayChange::TunnelEnded(ended, number))
            &&& !state.timer_counts(number)
        },
{
}

/// Once the connection is given up, no timer and no tunnel counts, nothing can
/// be sent, and a stopped relay says that it is disconnected. Whether the relay
/// is started stays, also where it is to connect again.
pub proof fn law_given_up_is_quiet(state: RelayState, number: u64)
    ensures
        !state.disconnected().timer_counts(number),
        !state.disconnected().tunnel_counts(number),
        !state.disconnected().ws_writer,
        !state.started ==> state.disconnected().status() == ConnectionStatus::Disconnected,
        state.started ==> state.disconnected().status() == ConnectionStatus::Connecting,
        state.disconnected().disconnected() == state.disconnected(),
        !state.disconnected().stop_effects().close_writer,
        ({
            let waiting = state.reconnecting(number);
            &&& !waiting.ws_writer && !waiting.connected && !waiting.wrong_password
            &&& waiting.started == state.started
            &&& waiting.timer_counts(number)
        }),
{
}

/// How far the opening of a tunnel got.
pub open spec fn tunnel_rank(phase: TunnelPhase) -> nat {
    match phase {
        TunnelPhase::ReadingBindAddress => 0,
        TunnelPhase::BindingStreamer(_) => 1,
        TunnelPhase::Responding(_) => 2,
        TunnelPhase::BindingDestination => 3,
        TunnelPhase::ReadingDestination => 4,
        TunnelPhase::Forwarding => 5,
        TunnelPhase::Failed => 6,
    }
}

/// Whether an event completes the given step of the opening of a tunnel.
pub open spec fn completes(event: TunnelEvent, step: nat) -> bool {
    match event {
        TunnelEvent::BindAddressRead(with_port, alone) => step == 1 && socket_addr_of(
            with_port,
            alone,
        ) is Ok,
        TunnelEvent::StreamerBound(port) => step == 2 && port is Some,
        TunnelEvent::ResponseSent(sent) => step == 3 && sent,
        TunnelEvent::DestinationBound(bound) => step == 4 && bound,
        TunnelEvent::DestinationRead(ip) => step == 5 && ip is Some,
    }
}

/// The opening of a tunnel advances one step at a time, and only by the event
/// that completes that step. It responds with the port that was bound, binds
/// the socket towards the destination only once the response was sent, and once
/// it forwards packets or failed, nothing changes it.
pub proof fn law_tunnel_advances_in_order(
    tunnel: TunnelState,
    relay: RelayState,
    event: TunnelEvent,
    number: u64,
)
    ensures
        ({
            let (phase, action) = tunnel.next(relay, event, number);
            &&& tunnel.phase is Forwarding || tunnel.phase is Failed ==> phase == tunnel.phase
                && action == TunnelAction::Nothing
            &&& phase == tunnel.phase ==> action == TunnelAction::Nothing
            &&& phase != tunnel.phase && !(phase is Failed) ==> tunnel_rank(phase) == tunnel_rank(
                tunnel.phase,
            ) + 1 && completes(event, tunnel_rank(phase))
            &&& action is Fail <==> phase is Failed && !(tunnel.phase is Failed)
            &&& action is Forward <==> phase is Forwarding && !(tunnel.phase is Forwarding)
            &&& action matches TunnelAction::Respond(response) ==> {
                &&& event matches TunnelEvent::StreamerBound(Some(port))
                &&& response == ok_response(
                    tunnel.request_id,
                    ResponseData::StartTunnel(StartTunnelResponseData { port }),
                )
            }
            &&& action matches TunnelAction::BindDestination(address) ==> tunnel.phase
                == TunnelPhase::Responding(address) && event == TunnelEvent::ResponseSent(true)
        }),
{
}

/// The opening of a tunnel after some events, each with the relay's state when
/// it happened.
pub open spec fn tunnel_run(tunnel: TunnelState, events: Seq<(RelayState, TunnelEvent)>) -> TunnelState
    decreases events.len(),
{
    if events.len() == 0 {
        tunnel
    } else {
        let before = tunnel_run(tunnel, events.drop_last());
        TunnelState { phase: before.next(events.last().0, events.last().1, 0).0, ..before }
    }
}

/// Whether the events complete the first steps of the opening of a tunnel, one
/// after the other.
pub open spec fn completed(events: Seq<(RelayState, TunnelEvent)>, steps: nat) -> bool
    decreases steps,
{
    steps == 0 || exists|k: int|
        0 <= k < events.len() && #[trigger] completes(events[k].1, steps) && completed(
            events.take(k),
            (steps - 1) as nat,
        )
}

/// What was completed stays completed.
proof fn lemma_completed_grows(events: Seq<(RelayState, TunnelEvent)>, steps: nat)
    requires
        events.len() > 0,
        completed(events.drop_last(), steps),
    ensures
        completed(events, steps),
{
    if steps > 0 {
        let short = events.drop_last();
        let k = choose|k: int|
            0 <= k < short.len() && #[trigger] completes(short[k].1, steps) && completed(
                short.take(k),
                (steps - 1) as nat,
            );
        assert(events.take(k) =~= short.take(k));
        assert(completes(events[k].1, steps));
    }
}

/// Packets are forwarded only after the bind address was read, the socket
/// towards the streamer was bound, the response was sent, the socket towards
/// the destination was bound and the destination's address was read, in this
/// order.
pub proof fn law_forwarding_comes_last(
    tunnel: TunnelState,
    events: Seq<(RelayState, TunnelEvent)>,
)
    requires
        tunnel.phase is ReadingBindAddress,
    ensures
        !(tunnel_run(tunnel, events).phase is Failed) ==> completed(
            events,
            tunnel_rank(tunnel_run(tunnel, events).phase),
        ),
        tunnel_run(tunnel, events).phase is Forwarding ==> completed(events, 5),
        tunnel_run(tunnel, events).request_id == tunnel.request_id,
        tunnel_run(tunnel, events).port == tunnel.port,
    decreases events.len(),
{
    if events.len() > 0 {
        law_forwarding_comes_last(tunnel, events.drop_last());
        let before = tunnel_run(tunnel, events.drop_last());
        let after = tunnel_run(tunnel, events);
        law_tunnel_advances_in_order(before, events.last().0, events.last().1, 0);
        if !(after.phase is Failed) {
            if after.phase == before.phase {
                lemma_completed_grows(events, tunnel_rank(after.phase));
            } else {
                let k = events.len() - 1;
                assert(events.take(k) =~= events.drop_last());
                assert(completes(events[k].1, tunnel_rank(after.phase)));
            }
        }
    }
}

/// Whether a change makes a relay in a state give its connection up is read off
/// the state alone, and every change does to each part of the state just what
/// its name says: it sets the relay up, binds, starts or stops it, has it
/// connected, or gives the connection up, and leaves all else alone. Above all,
/// the relay keeps its password, its identity, its name, its streamer and its
/// address until it is set up or bound anew.
pub proof fn law_changes_leave_the_rest(state: RelayState, change: RelayChange)
    ensures
        ({
            let after = state.after(change);
            let given_up = match change {
                RelayChange::Stopped => state.started,
                RelayChange::StartTried => !state.started,
                RelayChange::GivenUp => true,
                RelayChange::Reconnecting(_) => true,
                RelayChange::TunnelEnded(tunnel, _) => state.reconnect_on_tunnel_error == Some(
                    tunnel,
                ),
                RelayChange::TimerFired(timer) => state.start_on_reconnect_soon == Some(timer)
                    && !state.started,
                _ => false,
            };
            &&& match change {
                RelayChange::SetUp { streamer_url, password, relay_id, name } => {
                    &&& after.streamer_url == streamer_url && after.password == password
                    &&& after.relay_id == relay_id && after.name == name
                    &&& after.on_status_updated && after.get_status
                },
                _ => {
                    &&& after.streamer_url == state.streamer_url
                    &&& after.password == state.password
                    &&& after.relay_id == state.relay_id && after.name == state.name
                    &&& after.on_status_updated == state.on_status_updated
                    &&& after.get_status == state.get_status
                },
            }
            &&& after.bind_address == match change {
                RelayChange::BindAddress(bind_address) => bind_address,
                _ => state.bind_address,
            }
            &&& after.started == (change is Started || state.started && !(change is Stopped))
            &&& after.ws_writer == (change is Connected || state.ws_writer && !given_up)
            &&& after.connected == (change matches RelayChange::Message(
                MessageToRelay::Identified(identified),
            ) && identified.result is Okay || state.connected && !given_up)
            &&& after.wrong_password == (change matches RelayChange::Message(
                MessageToRelay::Identified(identified),
            ) && identified.result is WrongPassword || state.wrong_password && !given_up)
            &&& after.reconnect_on_tunnel_error == match change {
                RelayChange::TunnelOpened(tunnel) => Some(tunnel),
                _ => if given_up {
                    None
                } else {
                    state.reconnect_on_tunnel_error
                },
            }
            &&& after.start_on_reconnect_soon == match change {
                RelayChange::Reconnecting(timer) => Some(timer),
                RelayChange::TunnelEnded(_, timer) => if given_up {
                    Some(timer)
                } else {
                    state.start_on_reconnect_soon
                },
                RelayChange::TimerFired(timer) => if state.start_on_reconnect_soon == Some(timer) {
                    None
                } else {
                    state.start_on_reconnect_soon
                },
                _ => if given_up {
                    None
                } else {
                    state.start_on_reconnect_soon
                },
            }
        }),
{
}

/// A tunnel is open from when it is opened until it ends, and a timer runs from
/// when it is started until it runs out. Nothing else changes that.
pub proof fn law_tunnels_and_timers(state: RelayState, change: RelayChange, number: u64)
    ensures
        state.after(change).tunnels.contains(number) <==> match change {
            RelayChange::TunnelOpened(tunnel) => state.tunnels.contains(number) || number
                == tunnel,
            RelayChange::TunnelEnded(tunnel, _) => state.tunnels.contains(number) && number
                != tunnel,
            _ => state.tunnels.contains(number),
        },
        state.after(change).timers.contains(number) <==> match change {
            RelayChange::Reconnecting(timer) => state.timers.contains(number) || number == timer,
            RelayChange::TunnelEnded(tunnel, timer) => state.timers.contains(number) || (
            state.reconnect_on_tunnel_error == Some(tunnel) && number == timer),
            RelayChange::TimerFired(timer) => state.timers.contains(number) && number != timer,
            _ => state.timers.contains(number),
        },
{
    lemma_change(state, change, number);
}

/// Whether the tunnel or the timer with a number counts is told by the state
/// alone.
pub proof fn law_what_counts(state: RelayState, number: u64)
    ensures
        state.tunnel_counts(number) <==> state.reconnect_on_tunnel_error == Some(number),
        state.timer_counts(number) <==> state.start_on_reconnect_soon == Some(number),
{
}

/// Once a tunnel or a timer is gone, nothing else of the relay changes but that
/// it counts no more.
pub proof fn law_gone_numbers_leave_the_rest(state: RelayState, number: u64)
    ensures
        ({
            let after = state.tunnel_gone(number);
            after == (RelayState { tunnels: after.tunnels, ..state })
        }),
        ({
            let after = state.timer_gone(number);
            &&& after == (RelayState {
                timers: after.timers,
                start_on_reconnect_soon: after.start_on_reconnect_soon,
                ..state
            })
            &&& state.start_on_reconnect_soon == Some(number) ==> after.start_on_reconnect_soon
                is None
            &&& state.start_on_reconnect_soon != Some(number) ==> after.start_on_reconnect_soon
                == state.start_on_reconnect_soon
        }),
{
}

/// A relay that connects again keeps who it is and whether it is started,
/// closes its websocket where it has one, tells that it is connecting or
/// disconnected where somebody wants to be told, and then waits for one new
/// timer.
pub proof fn law_connecting_again(
    before: RelayState,
    after: RelayState,
    effects: ReconnectEffects,
)
    requires
        reconnects(before, after, effects),
    ensures
        after.password == before.password,
        after.relay_id == before.relay_id,
        after.name == before.name,
        after.streamer_url == before.streamer_url,
        after.bind_address == before.bind_address,
        after.on_status_updated == before.on_status_updated,
        after.get_status == before.get_status,
        after.started == before.started,
        !after.ws_writer && !after.connected && !after.wrong_password,
        after.reconnect_on_tunnel_error is None,
        after.start_on_reconnect_soon == Some(effects.timer),
        after.tunnels == before.tunnels,
        after.timers == before.timers.push(effects.timer),
        !before.timers.contains(effects.timer),
        effects.stop.close_writer == before.ws_writer,
        effects.stop.report == if !before.on_status_updated {
            None
        } else if before.started {
            Some(ConnectionStatus::Connecting)
        } else {
            Some(ConnectionStatus::Disconnected)
        },
{
}

/// A relay that gives its connection up closes its websocket where it has one,
/// and tells that it is connecting or disconnected where somebody wants to be
/// told.
pub proof fn law_giving_up_effects(state: RelayState)
    ensures
        state.stop_effects().close_writer == state.ws_writer,
        state.stop_effects().report == if !state.on_status_updated {
            None
        } else if state.started {
            Some(ConnectionStatus::Connecting)
        } else {
            Some(ConnectionStatus::Disconnected)
        },
{
}

/// What a relay tells: that it is connected where it is, else that the password
/// is wrong where it is, else that it is connecting where it is started. It tells
/// that only where somebody wants to be told.
pub proof fn law_status(state: RelayState)
    ensures
        state.status() == ConnectionStatus::Connected <==> state.connected,
        state.status() == ConnectionStatus::WrongPassword <==> !state.connected
            && state.wrong_password,
        state.status() == ConnectionStatus::Connecting <==> !state.connected
            && !state.wrong_password && state.started,
        state.status() == ConnectionStatus::Disconnected <==> !state.connected
            && !state.wrong_password && !state.started,
        state.on_status_updated ==> state.report() == Some(state.status()),
        !state.on_status_updated ==> state.report() is None,
{
}

/// A started relay connects to the normal form of its streamer's web address,
/// where that is one. A stopped one gives its connection up.
pub proof fn law_start_effects(
    state: RelayState,
    url: Seq<char>,
    host: Option<Seq<char>>,
    effects: StartEffects,
)
    ensures
        state.started && start_effects_ok(state, Some((url, host)), effects) ==> {
            &&& effects matches StartEffects::Connect(text)
            &&& text@ == url
        },
        state.started && start_effects_ok(state, None, effects) ==> effects
            == StartEffects::Nothing,
        !state.started && start_effects_ok(state, Some((url, host)), effects) ==> {
            &&& effects matches StartEffects::Stop(stop)
            &&& stop.close_writer == state.ws_writer
            &&& stop.report == if state.on_status_updated {
                Some(ConnectionStatus::Disconnected)
            } else {
                None
            }
        },
        !state.started && start_effects_ok(state, None, effects) ==> effects is Stop,
{
}

/// A relay with a websocket answers a challenge with its identity, its name and
/// the hash of its password: the base64 notation of the hash of the password and
/// the salt, hashed with the challenge.
pub proof fn law_challenge_is_answered(state: RelayState, hello: Hello, effects: MessageEffects)
    requires
        message_effects_ok(state, MessageToRelay::Hello(hello), effects),
    ensures
        state.ws_writer ==> {
            &&& effects matches MessageEffects::Send(MessageToStreamer::Identify(identify))
            &&& identify.id@ == state.relay_id
            &&& identify.name@ == state.name
            &&& identify.authentication@ == crate::protocol::base64_text(
                crate::protocol::sha256_digest(
                    vstd::utf8::encode_utf8(
                        crate::protocol::base64_text(
                            crate::protocol::sha256_digest(
                                vstd::utf8::encode_utf8(
                                    state.password + hello.authentication.salt@,
                                ),
                            ),
                        ) + hello.authentication.challenge@,
                    ),
                ),
            )
        },
        !state.ws_writer ==> effects == MessageEffects::Fail(RelayError::NoWebsocketWriter),
{
}

/// After a connection was lost and made again, a challenge is answered just as
/// before: whatever happened, unless the relay was set up anew, the answer is
/// made with the same password, identity and name.
pub proof fn law_answer_stays_after_reconnecting(
    state: RelayState,
    changes: Seq<RelayChange>,
    hello: Hello,
    effects: MessageEffects,
)
    requires
        forall|i: int| 0 <= i < changes.len() ==> !((#[trigger] changes[i]) is SetUp),
        state.after_all(changes).ws_writer,
        message_effects_ok(state.after_all(changes), MessageToRelay::Hello(hello), effects),
    ensures
        state.after_all(changes).password == state.password,
        effects matches MessageEffects::Send(MessageToStreamer::Identify(identify)) && {
            &&& identify.id@ == state.relay_id
            &&& identify.name@ == state.name
            &&& identify.authentication@ == authentication_text(
                state.password,
                hello.authentication.salt@,
                hello.authentication.challenge@,
            )
        },
{
    lemma_identity_is_kept(state, changes);
}

/// Unless it is set up anew, a relay keeps who it is.
proof fn lemma_identity_is_kept(state: RelayState, changes: Seq<RelayChange>)
    requires
        forall|i: int| 0 <= i < changes.len() ==> !((#[trigger] changes[i]) is SetUp),
    ensures
        state.after_all(changes).password == state.password,
        state.after_all(changes).relay_id == state.relay_id,
        state.after_all(changes).name == state.name,
        state.after_all(changes).streamer_url == state.streamer_url,
    decreases changes.len(),
{
    if changes.len() > 0 {
        let fewer = changes.drop_last();
        assert forall|i: int| 0 <= i < fewer.len() implies !((#[trigger] fewer[i]) is SetUp) by {
            assert(fewer[i] == changes[i]);
        }
        lemma_identity_is_kept(state, fewer);
        assert(!(changes[changes.len() - 1] is SetUp));
        law_changes_leave_the_rest(state.after_all(fewer), changes.last());
    }
}

/// A verdict is told to the user: a relay that was accepted is connected, and
/// one that was not says so unless it is connected.
pub proof fn law_verdict_is_told(state: RelayState, verdict: Identified, effects: MessageEffects)
    requires
        message_effects_ok(state, MessageToRelay::Identified(verdict), effects),
    ensures
        !state.on_status_updated ==> effects == MessageEffects::Report(None),
        state.on_status_updated && (verdict.result is Okay || state.connected) ==> effects
            == MessageEffects::Report(Some(ConnectionStatus::Connected)),
        state.on_status_updated && verdict.result is WrongPassword && !state.connected ==> effects
            == MessageEffects::Report(Some(ConnectionStatus::WrongPassword)),
{
}

/// A request for a tunnel opens one to the address and port that it names, under
/// its own number. A request for the device's state asks for it, where that can
/// be asked for.
pub proof fn law_requests_are_taken_up(
    state: RelayState,
    request: MessageRequest,
    effects: MessageEffects,
)
    requires
        message_effects_ok(state, MessageToRelay::Request(request), effects),
    ensures
        request.data matches MessageRequestData::StartTunnel(wanted) ==> {
            &&& effects matches MessageEffects::StartTunnel(setup)
            &&& setup@.request_id == request.id
            &&& setup@.address == wanted.address@
            &&& setup@.port == wanted.port
            &&& setup@.phase is ReadingBindAddress
        },
        request.data is Status && state.get_status ==> effects == MessageEffects::AskStatus(request),
        request.data is Status && !state.get_status ==> effects == MessageEffects::Fail(
            RelayError::StatusFunctionNotSet,
        ),
{
}

/// A message is sent as it is where there is a websocket to write to, and
/// nowhere else.
pub proof fn law_messages_need_a_websocket(state: RelayState, message: MessageToStreamer)
    ensures
        state.ws_writer ==> sent_if_connected(state, message) == MessageEffects::Send(message),
        !state.ws_writer ==> sent_if_connected(state, message) == MessageEffects::Fail(
            RelayError::NoWebsocketWriter,
        ),
{
}

/// The main interface is the first one that is up, is no loopback interface and
/// has an address.
pub proof fn law_main_interface(interfaces: Seq<BindableInterface>)
    ensures
        match main_addresses(interfaces) {
            Some(ips) => exists|i: int|
                {
                    &&& 0 <= i < interfaces.len()
                    &&& (#[trigger] interfaces[i]).ips@ == ips
                    &&& interfaces[i].is_up && !interfaces[i].is_loopback && ips.len() > 0
                    &&& forall|j: int|
                        0 <= j < i ==> !(#[trigger] interfaces[j]).is_up
                            || interfaces[j].is_loopback || interfaces[j].ips@.len() == 0
                },
            None => forall|j: int|
                0 <= j < interfaces.len() ==> !(#[trigger] interfaces[j]).is_up
                    || interfaces[j].is_loopback || interfaces[j].ips@.len() == 0,
        },
    decreases interfaces.len(),
{
    if interfaces.len() > 0 {
        if interfaces[0].can_be_main() {
            assert(interfaces[0].ips@ == main_addresses(interfaces)->0);
        } else {
            let rest = interfaces.drop_first();
            law_main_interface(rest);
            if let Some(ips) = main_addresses(rest) {
                let i = choose|i: int|
                    {
                        &&& 0 <= i < rest.len()
                        &&& (#[trigger] rest[i]).ips@ == ips
                        &&& rest[i].is_up && !rest[i].is_loopback && ips.len() > 0
                        &&& forall|j: int|
                            0 <= j < i ==> !(#[trigger] rest[j]).is_up || rest[j].is_loopback
                                || rest[j].ips@.len() == 0
                    };
                assert(interfaces[i + 1].ips@ == ips);
                assert forall|j: int| 0 <= j < i + 1 implies !(#[trigger] interfaces[j]).is_up
                    || interfaces[j].is_loopback || interfaces[j].ips@.len() == 0 by {
                    if j > 0 {
                        assert(rest[j - 1] == interfaces[j]);
                    }
                }
            } else {
                assert forall|j: int| 0 <= j < interfaces.len() implies !(
                #[trigger] interfaces[j]).is_up || interfaces[j].is_loopback
                    || interfaces[j].ips@.len() == 0 by {
                    if j > 0 {
                        assert(rest[j - 1] == interfaces[j]);
                    }
                }
            }
        }
    }
}

/// A relay binds to the first IPv4 address of the main interface, or to any
/// address and port where that has none.
pub proof fn law_default_bind_address(ips: Seq<IpAddress>)
    ensures
        match first_ipv4(ips) {
            Some(address) => default_bind_text(ips) == ipv4_text(address),
            None => default_bind_text(ips) == "0.0.0.0:0"@,
        },
{
}

/// Where each step of the opening of a tunnel works, the socket towards the
/// streamer is bound to any address, its port is the response to the request,
/// the socket towards the destination is bound to the relay's address, and then
/// packets are forwarded to the requested address and port.
pub proof fn law_tunnel_opens(
    tunnel: TunnelState,
    relay: RelayState,
    with_port: Option<SocketAddress>,
    alone: Option<IpAddress>,
    bind: SocketAddress,
    port: u16,
    ip: IpAddress,
    number: u64,
)
    requires
        tunnel.phase is ReadingBindAddress,
        with_port == Some(bind) || with_port is None && alone == Some(bind.ip) && bind.port == 0
            && bind.flow_info == 0 && bind.scope_id == 0,
        relay.ws_writer,
    ensures
        ({
            let step1 = tunnel.next(relay, TunnelEvent::BindAddressRead(with_port, alone), number);
            let tunnel1 = TunnelState { phase: step1.0, ..tunnel };
            let step2 = tunnel1.next(relay, TunnelEvent::StreamerBound(Some(port)), number);
            let tunnel2 = TunnelState { phase: step2.0, ..tunnel };
            let step3 = tunnel2.next(relay, TunnelEvent::ResponseSent(true), number);
            let tunnel3 = TunnelState { phase: step3.0, ..tunnel };
            let step4 = tunnel3.next(relay, TunnelEvent::DestinationBound(true), number);
            let tunnel4 = TunnelState { phase: step4.0, ..tunnel };
            let step5 = tunnel4.next(relay, TunnelEvent::DestinationRead(Some(ip)), number);
            &&& step1.1 == TunnelAction::BindStreamer(
                SocketAddress {
                    ip: IpAddress::V4(Ipv4Address { a: 0, b: 0, c: 0, d: 0 }),
                    port: 0,
                    flow_info: 0,
                    scope_id: 0,
                },
            )
            &&& step2.1 == TunnelAction::Respond(
                MessageResponse {
                    id: tunnel.request_id,
                    result: MoblinkResult::Okay(Present {  }),
                    data: ResponseData::StartTunnel(StartTunnelResponseData { port }),
                },
            )
            &&& step3.1 == TunnelAction::BindDestination(bind)
            &&& step4.1 == TunnelAction::ReadDestination
            &&& step5.0 is Forwarding
            &&& step5.1 == TunnelAction::Forward(
                SocketAddress {
                    ip: normalized(ip),
                    port: tunnel.port,
                    flow_info: 0,
                    scope_id: 0,
                },
                number,
            )
        }),
{
}

/// Where a step of the opening of a tunnel does not work, the opening fails, and
/// each step has its own error.
pub proof fn law_tunnel_fails(
    tunnel: TunnelState,
    relay: RelayState,
    bind: SocketAddress,
    port: u16,
    number: u64,
)
    ensures
        ({
            let (phase, action) = tunnel.next(
                relay,
                TunnelEvent::BindAddressRead(None, None),
                number,
            );
            tunnel.phase is ReadingBindAddress ==> phase is Failed && action == TunnelAction::Fail(
                TunnelError::InvalidBindAddress(AddressError::InvalidSyntax),
            )
        }),
        ({
            let (phase, action) = tunnel.next(relay, TunnelEvent::StreamerBound(None), number);
            tunnel.phase is BindingStreamer ==> phase is Failed && action == TunnelAction::Fail(
                TunnelError::StreamerSocket,
            )
        }),
        ({
            let (phase, action) = tunnel.next(
                relay,
                TunnelEvent::StreamerBound(Some(port)),
                number,
            );
            tunnel.phase is BindingStreamer && !relay.ws_writer ==> phase is Failed && action
                == TunnelAction::Fail(TunnelError::NoWebsocketWriter)
        }),
        ({
            let (phase, action) = tunnel.next(relay, TunnelEvent::ResponseSent(false), number);
            tunnel.phase is Responding ==> phase is Failed && action == TunnelAction::Fail(
                TunnelError::Response,
            )
        }),
        ({
            let (phase, action) = tunnel.next(relay, TunnelEvent::DestinationBound(false), number);
            tunnel.phase is BindingDestination ==> phase is Failed && action == TunnelAction::Fail(
                TunnelError::DestinationSocket,
            )
        }),
        ({
            let (phase, action) = tunnel.next(relay, TunnelEvent::DestinationRead(None), number);
            tunnel.phase is ReadingDestination ==> phase is Failed && action == TunnelAction::Fail(
                TunnelError::InvalidDestination,
            )
        }),
{
}

/// An event that the opening of a tunnel does not wait for changes nothing.
pub proof fn law_unexpected_events_change_no_tunnel(
    tunnel: TunnelState,
    relay: RelayState,
    event: TunnelEvent,
    number: u64,
)
    requires
        event is BindAddressRead ==> !(tunnel.phase is ReadingBindAddress),
        event is StreamerBound ==> !(tunnel.phase is BindingStreamer),
        event is ResponseSent ==> !(tunnel.phase is Responding),
        event is DestinationBound ==> !(tunnel.phase is BindingDestination),
        event is DestinationRead ==> !(tunnel.phase is ReadingDestination),
    ensures
        tunnel.next(relay, event, number) == (tunnel.phase, TunnelAction::Nothing),
{
}

/// Of the steps of the opening of a tunnel only the last one changes the relay:
/// the tunnel is open under its number, and its end counts. All else stays.
pub proof fn law_opening_changes_only_the_tunnels(
    state: RelayState,
    action: TunnelAction,
    address: SocketAddress,
    number: u64,
)
    ensures
        !(action is Forward) ==> state.after_tunnel(action) == state,
        state.after_tunnel(TunnelAction::Forward(address, number)) == (RelayState {
            reconnect_on_tunnel_error: Some(number),
            tunnels: state.tunnels.push(number),
            ..state
        }),
        tunnel_number(TunnelAction::Forward(address, number)) == number,
{
}

/// A relay waits ten seconds for a connection, and five before it connects
/// again.
pub proof fn law_relay_delays()
    ensures
        CONNECT_TIMEOUT_SECONDS == 10,
        RECONNECT_DELAY_SECONDS == 5,
        crate::forward::FORWARD_TIMEOUT_SECONDS == 30,
        crate::forward::FORWARD_BUFFER_SIZE == 2048,
{
}

/// The changes of a relay are those that its operations make.
pub proof fn law_operations_are_changes(
    state: RelayState,
    message: MessageToRelay,
    url: Seq<char>,
    password: Seq<char>,
    id: Seq<char>,
    name: Seq<char>,
    number: u64,
    timer: u64,
)
    ensures
        state.set_up(url, password, id, name) == state.after(
            RelayChange::SetUp { streamer_url: url, password, relay_id: id, name },
        ),
        state.after_started() == state.after(RelayChange::Started),
        state.after_stopped() == state.after(RelayChange::Stopped),
        state.after_start() == state.after(RelayChange::StartTried),
        state.disconnected() == state.after(RelayChange::GivenUp),
        state.reconnecting(timer) == state.after(RelayChange::Reconnecting(timer)),
        state.after_message(message) == state.after(RelayChange::Message(message)),
        state.tunnel_opened(number) == state.after(RelayChange::TunnelOpened(number)),
        state.after_tunnel_end(number, timer) == state.after(
            RelayChange::TunnelEnded(number, timer),
        ),
        state.after_timer(number) == state.after(RelayChange::TimerFired(number)),
        message matches MessageToRelay::Identified(identified) ==> state.after_identified(
            identified,
        ) == state.after_message(message),
        !(message is Identified) ==> state.after_message(message) == state,
{
}

} // verus!

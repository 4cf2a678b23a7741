//! The forwarding of packets between a streamer and the destination.
use vstd::prelude::*;

use crate::address::SocketAddress;

verus! {

/// How long a forwarder waits for a packet.
pub const FORWARD_TIMEOUT_SECONDS: u64 = 30;

/// The size of the largest packet that is forwarded whole.
pub const FORWARD_BUFFER_SIZE: usize = 2048;

/// What happened to a forwarder.
#[derive(Debug)]
pub enum ForwardEvent {
    /// A packet came from an address.
    Received(SocketAddress, Vec<u8>),
    ReceiveFailed,
    /// No packet came in time.
    TimedOut,
    /// The packet was sent on.
    Sent,
    SendFailed,
}

/// What a forwarder does next.
#[derive(Debug)]
pub enum ForwardAction {
    /// Wait for a packet.
    Receive,
    /// Send a packet to an address.
    Send(SocketAddress, Vec<u8>),
    Stop,
}

/// Forwards packets from the streamer to the destination. The first address
/// from which a packet was sent on is the streamer's.
#[derive(Debug)]
pub struct ToDestination {
    destination: SocketAddress,
    sender: Option<SocketAddress>,
}

/// Forwards packets from the streamer to the destination, as plain values.
pub struct ToDestinationState {
    pub destination: SocketAddress,
    /// Where the packet that is being sent on came from.
    pub sender: Option<SocketAddress>,
}

impl View for ToDestination {
    type V = ToDestinationState;

    closed spec fn view(&self) -> ToDestinationState {
        ToDestinationState { destination: self.destination, sender: self.sender }
    }
}

/// The streamer's address after an event.
pub open spec fn streamer_after(
    state: ToDestinationState,
    streamer: Option<SocketAddress>,
    event: ForwardEvent,
) -> Option<SocketAddress> {
    if event is Sent && streamer is None {
        state.sender
    } else {
        streamer
    }
}

/// Where the packet that is being sent on after an event came from.
pub open spec fn sender_after(event: ForwardEvent) -> Option<SocketAddress> {
    match event {
        ForwardEvent::Received(from, _) => Some(from),
        _ => None,
    }
}

/// What the forwarder towards the destination does after an event: a packet is
/// sent on as it came.
pub open spec fn to_destination_action(
    state: ToDestinationState,
    event: ForwardEvent,
) -> ForwardAction {
    match event {
        ForwardEvent::Received(_, packet) => ForwardAction::Send(state.destination, packet),
        ForwardEvent::ReceiveFailed => ForwardAction::Receive,
        ForwardEvent::TimedOut => ForwardAction::Stop,
        ForwardEvent::Sent => ForwardAction::Receive,
        ForwardEvent::SendFailed => ForwardAction::Stop,
    }
}

impl ToDestination {
    /// A forwarder to a destination. It waits for a packet.
    pub fn new(destination: SocketAddress) -> (r: ToDestination)
        ensures
            r@ == (ToDestinationState { destination, sender: None }),
    {
        ToDestination { destination, sender: None }
    }

    /// Takes up what happened, and learns the streamer's address.
    pub fn step(&mut self, streamer: &mut Option<SocketAddress>, event: ForwardEvent) -> (r:
        ForwardAction)
        ensures
            final(self)@ == (ToDestinationState { sender: sender_after(event), ..old(self)@ }),
            *final(streamer) == streamer_after(old(self)@, *old(streamer), event),
            r == to_destination_action(old(self)@, event),
    {
        let sender: Option<SocketAddress> = self.sender;
        self.sender = None;
        match event {
            ForwardEvent::Received(from, packet) => {
                self.sender = Some(from);
                ForwardAction::Send(self.destination, packet)
            },
            ForwardEvent::ReceiveFailed => ForwardAction::Receive,
            ForwardEvent::TimedOut => ForwardAction::Stop,
            ForwardEvent::Sent => {
                if streamer.is_none() {
                    *streamer = sender;
                }
                ForwardAction::Receive
            },
            ForwardEvent::SendFailed => ForwardAction::Stop,
        }
    }
}

/// What the forwarder towards the streamer does after an event: a packet is
/// sent on as it came, once the streamer's address is known.
pub open spec fn to_streamer_action(
    streamer: Option<SocketAddress>,
    event: ForwardEvent,
) -> ForwardAction {
    match event {
        ForwardEvent::Received(_, packet) => match streamer {
            Some(address) => ForwardAction::Send(address, packet),
            None => ForwardAction::Receive,
        },
        ForwardEvent::ReceiveFailed => ForwardAction::Receive,
        ForwardEvent::TimedOut => ForwardAction::Stop,
        ForwardEvent::Sent => ForwardAction::Receive,
        ForwardEvent::SendFailed => ForwardAction::Stop,
    }
}

/// Takes up what happened to the forwarder from the destination to the
/// streamer.
pub fn to_streamer_step(streamer: Option<SocketAddress>, event: ForwardEvent) -> (r: ForwardAction)
    ensures
        r == to_streamer_action(streamer, event),
{
    match event {
        ForwardEvent::Received(_, packet) => match streamer {
            Some(address) => ForwardAction::Send(address, packet),
            None => ForwardAction::Receive,
        },
        ForwardEvent::ReceiveFailed => ForwardAction::Receive,
        ForwardEvent::TimedOut => ForwardAction::Stop,
        ForwardEvent::Sent => ForwardAction::Receive,
        ForwardEvent::SendFailed => ForwardAction::Stop,
    }
}

/// The forwarder towards the destination, and the streamer's address, after
/// some events.
pub open spec fn forward_run(
    state: ToDestinationState,
    streamer: Option<SocketAddress>,
    events: Seq<ForwardEvent>,
) -> (ToDestinationState, Option<SocketAddress>)
    decreases events.len(),
{
    if events.len() == 0 {
        (state, streamer)
    } else {
        let (before, known) = forward_run(state, streamer, events.drop_last());
        (
            ToDestinationState { sender: sender_after(events.last()), ..before },
            streamer_after(before, known, events.last()),
        )
    }
}

/// Whether an event says that the packet of the event before it, which came
/// from an address, was sent on.
pub open spec fn sent_on(events: Seq<ForwardEvent>, i: int, from: SocketAddress) -> bool {
    &&& 0 < i < events.len()
    &&& events[i] is Sent
    &&& events[i - 1] matches ForwardEvent::Received(sender, _) && sender == from
}

/// Once known, the streamer's address does not change.
pub proof fn law_streamer_address_stays(
    state: ToDestinationState,
    streamer: Option<SocketAddress>,
    events: Seq<ForwardEvent>,
)
    requires
        streamer is Some,
    ensures
        forward_run(state, streamer, events).1 == streamer,
    decreases events.len(),
{
    if events.len() > 0 {
        law_streamer_address_stays(state, streamer, events.drop_last());
    }
}

/// The streamer's address is learned from the first packet that was sent on,
/// and from nothing else; the destination never changes.
pub proof fn law_streamer_address_is_the_first_sender(
    destination: SocketAddress,
    events: Seq<ForwardEvent>,
)
    ensures
        ({
            let start = ToDestinationState { destination, sender: None };
            let (state, streamer) = forward_run(start, None, events);
            &&& state.destination == destination
            &&& match streamer {
                Some(address) => exists|i: int|
                    {
                        &&& #[trigger] sent_on(events, i, address)
                        &&& forall|j: int, from: SocketAddress|
                            0 <= j < i ==> !(#[trigger] sent_on(events, j, from))
                    },
                None => forall|i: int, from: SocketAddress| !(#[trigger] sent_on(events, i, from)),
            }
            &&& state.sender == if events.len() > 0 {
                sender_after(events.last())
            } else {
                None
            }
        }),
    decreases events.len(),
{
    let start = ToDestinationState { destination, sender: None };
    if events.len() > 0 {
        let short = events.drop_last();
        law_streamer_address_is_the_first_sender(destination, short);
        let (before, known) = forward_run(start, None, short);
        let (state, streamer) = forward_run(start, None, events);
        assert forall|j: int, from: SocketAddress| 0 <= j < short.len() implies sent_on(
            events,
            j,
            from,
        ) == sent_on(short, j, from) by {}
        let last = events.len() - 1;
        match known {
            Some(address) => {
                let i = choose|i: int|
                    {
                        &&& #[trigger] sent_on(short, i, address)
                        &&& forall|j: int, from: SocketAddress|
                            0 <= j < i ==> !(#[trigger] sent_on(short, j, from))
                    };
                assert(sent_on(events, i, address));
            },
            None => {
                if events.last() is Sent && short.len() > 0 {
                    match short.last() {
                        ForwardEvent::Received(from, _) => {
                            assert(sent_on(events, last, from));
                        },
                        _ => {},
                    }
                }
            },
        }
    }
}

/// A packet goes on as it came, towards the destination and, once its address
/// is known, towards the streamer. A packet that could not be received is passed
/// over, and a packet that could not be sent or did not come in time ends the
/// forwarding.
pub proof fn law_packets_go_on_as_they_came(
    state: ToDestinationState,
    from: SocketAddress,
    streamer: SocketAddress,
    known: Option<SocketAddress>,
    packet: Vec<u8>,
)
    ensures
        to_destination_action(state, ForwardEvent::Received(from, packet)) == ForwardAction::Send(
            state.destination,
            packet,
        ),
        to_streamer_action(Some(streamer), ForwardEvent::Received(from, packet))
            == ForwardAction::Send(streamer, packet),
        to_streamer_action(None, ForwardEvent::Received(from, packet)) == ForwardAction::Receive,
        to_destination_action(state, ForwardEvent::Sent) == ForwardAction::Receive,
        to_destination_action(state, ForwardEvent::ReceiveFailed) == ForwardAction::Receive,
        to_destination_action(state, ForwardEvent::TimedOut) == ForwardAction::Stop,
        to_destination_action(state, ForwardEvent::SendFailed) == ForwardAction::Stop,
        to_streamer_action(known, ForwardEvent::Sent) == ForwardAction::Receive,
        to_streamer_action(known, ForwardEvent::ReceiveFailed) == ForwardAction::Receive,
        to_streamer_action(known, ForwardEvent::TimedOut) == ForwardAction::Stop,
        to_streamer_action(known, ForwardEvent::SendFailed) == ForwardAction::Stop,
{
}

/// The streamer's address is that of the first packet that was sent on, once
/// that is told. A packet that was not sent on does not count.
pub proof fn law_streamer_address_is_learned(
    state: ToDestinationState,
    from: SocketAddress,
    known: SocketAddress,
    packet: Vec<u8>,
    event: ForwardEvent,
    streamer: Option<SocketAddress>,
)
    ensures
        sender_after(ForwardEvent::Received(from, packet)) == Some(from),
        !(event is Received) ==> sender_after(event) is None,
        streamer_after(state, None, ForwardEvent::Sent) == state.sender,
        streamer_after(state, Some(known), event) == Some(known),
        !(event is Sent) ==> streamer_after(state, streamer, event) == streamer,
{
}

} // verus!

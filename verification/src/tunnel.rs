//! The packets between a streamer's TUN device and a relay's tunnel.
use vstd::prelude::*;

use crate::address::Ipv4Address;
use crate::datagram::{read_datagram, CarriedDatagram, PacketBuilder};

verus! {

/// What a packet from the TUN device takes.
#[derive(Debug)]
pub enum TunAction {
    Nothing,
    /// Tell the receiver this port first, where it is new, then send this
    /// payload through the tunnel.
    Forward(Option<u16>, Vec<u8>),
}

/// Takes the datagrams to the destination out of what comes from the TUN
/// device.
#[derive(Debug)]
pub struct TunForwarder {
    destination_address: String,
    tun_port: u16,
}

/// Takes the datagrams to the destination out of what comes from the TUN
/// device, as plain values.
pub struct TunForwarderState {
    pub destination_address: Seq<char>,
    /// The port that the last datagram came from.
    pub tun_port: u16,
}

impl View for TunForwarder {
    type V = TunForwarderState;

    closed spec fn view(&self) -> TunForwarderState {
        TunForwarderState {
            destination_address: self.destination_address@,
            tun_port: self.tun_port,
        }
    }
}

/// The port and the payload of a datagram that goes to the destination.
pub open spec fn datagram_for(data: Seq<u8>, destination: Seq<char>) -> Option<(int, Seq<u8>)> {
    match crate::datagram::carried_datagram(data) {
        Some((address, port, payload)) => if crate::address::ipv4_text(address) == destination {
            Some((port, payload))
        } else {
            None
        },
        None => None,
    }
}

impl TunForwarder {
    /// A forwarder of the datagrams to a destination.
    pub fn new(destination_address: String) -> (r: TunForwarder)
        ensures
            r@ == (TunForwarderState { destination_address: destination_address@, tun_port: 0 }),
    {
        TunForwarder { destination_address, tun_port: 0 }
    }

    /// Takes up a packet from the TUN device. Only a datagram to the
    /// destination is forwarded.
    pub fn forward(&mut self, data: &[u8]) -> (r: TunAction)
        requires
            data@.len() > 0,
        ensures
            match datagram_for(data@, old(self)@.destination_address) {
                Some((port, payload)) => {
                    &&& final(self)@.destination_address == old(self)@.destination_address
                    &&& final(self)@.tun_port == port
                    &&& r matches TunAction::Forward(new_port, forwarded)
                    &&& forwarded@ == payload
                    &&& new_port == if port == old(self)@.tun_port {
                        None
                    } else {
                        Some(final(self)@.tun_port)
                    }
                },
                None => final(self)@ == old(self)@ && r == TunAction::Nothing,
            },
    {
        let datagram: CarriedDatagram = match read_datagram(data) {
            Some(datagram) => datagram,
            None => {
                return TunAction::Nothing;
            },
        };
        let goes_there: bool = match Ipv4Address::parse(self.destination_address.as_str()) {
            Some(address) => datagram.destination == address,
            None => false,
        };
        proof {
            if crate::address::ipv4_text(datagram.destination) == self.destination_address@ {
                assert forall|x: Ipv4Address|
                    self.destination_address@ == #[trigger] crate::address::ipv4_text(
                        x,
                    ) implies x == datagram.destination by {
                    crate::address::law_ipv4_text_unique(x, datagram.destination);
                }
            }
        }
        if !goes_there {
            return TunAction::Nothing;
        }
        let new_port: Option<u16> = if datagram.source_port != self.tun_port {
            Some(datagram.source_port)
        } else {
            None
        };
        self.tun_port = datagram.source_port;
        TunAction::Forward(new_port, datagram.payload)
    }
}

/// Why no packets are received from a relay any more.
#[derive(Debug)]
pub enum RelayReceiverError {
    /// The TUN device's address is no address.
    InvalidTunAddress,
    /// The destination's address is no IPv4 address.
    InvalidDestination,
    /// The socket failed, for this reason.
    Socket(String),
    /// The packet could not be made.
    Packet,
    /// There is no port any more.
    TunPortMissing,
}

/// The port that packets to the TUN device go to until the real one is known.
pub const DEFAULT_TUN_PORT: u16 = 10000;

/// Whether a result is what the packets from a relay should be wrapped with.
pub open spec fn relay_receiver_ok(
    tun_ip_address: Seq<char>,
    destination_address: Seq<char>,
    destination_port: u16,
    r: Result<PacketBuilder, RelayReceiverError>,
) -> bool {
    match r {
        Ok(builder) => {
            &&& crate::address::ipv4_text(builder.destination_address) == tun_ip_address
            &&& crate::address::ipv4_text(builder.source_address) == destination_address
            &&& builder.source_port == destination_port
            &&& builder.destination_port == DEFAULT_TUN_PORT
        },
        Err(error) => if error is InvalidTunAddress {
            forall|x: Ipv4Address| tun_ip_address != #[trigger] crate::address::ipv4_text(x)
        } else {
            &&& error is InvalidDestination
            &&& exists|x: Ipv4Address| tun_ip_address == #[trigger] crate::address::ipv4_text(x)
            &&& forall|x: Ipv4Address|
                destination_address != #[trigger] crate::address::ipv4_text(x)
        },
    }
}

/// Makes what packets from a relay are wrapped with: they come from the
/// destination and go to the TUN device.
pub fn start_relay_receiver(
    tun_ip_address: &str,
    destination_address: &str,
    destination_port: u16,
) -> (r: Result<PacketBuilder, RelayReceiverError>)
    ensures
        relay_receiver_ok(tun_ip_address@, destination_address@, destination_port, r),
{
    let tun_address: Ipv4Address = match Ipv4Address::parse(tun_ip_address) {
        Some(address) => address,
        None => {
            return Err(RelayReceiverError::InvalidTunAddress);
        },
    };
    let destination: Ipv4Address = match Ipv4Address::parse(destination_address) {
        Some(address) => address,
        None => {
            return Err(RelayReceiverError::InvalidDestination);
        },
    };
    Ok(PacketBuilder::new(destination, destination_port, tun_address, DEFAULT_TUN_PORT))
}

/// Wraps what came from a relay in the packet to write to the TUN device.
///
/// `received` is how many bytes of the buffer were filled, or why none were.
pub fn handle_relay_packet(
    builder: &PacketBuilder,
    received: Result<usize, String>,
    buffer: &[u8],
) -> (r: Result<Vec<u8>, RelayReceiverError>)
    requires
        received matches Ok(length) ==> length <= buffer@.len(),
    ensures
        match received {
            Ok(length) => {
                let payload = buffer@.take(length as int);
                &&& r matches Ok(data)
                &&& builder.lays_out(data@, payload)
            },
            Err(reason) => r == Err::<Vec<u8>, RelayReceiverError>(
                RelayReceiverError::Socket(reason),
            ),
        },
{
    match received {
        Ok(length) => {
            let payload: &[u8] = vstd::slice::slice_subrange(buffer, 0, length);
            proof {
                assert(payload@ =~= buffer@.take(length as int));
            }
            match builder.pack(payload) {
                Ok(data) => Ok(data),
                Err(_) => Err(RelayReceiverError::Packet),
            }
        },
        Err(reason) => Err(RelayReceiverError::Socket(reason)),
    }
}

/// Takes up the port that packets to the TUN device go to.
pub fn handle_tun_port(builder: &mut PacketBuilder, tun_port: Option<u16>) -> (r: Result<
    (),
    RelayReceiverError,
>)
    ensures
        match tun_port {
            Some(port) => {
                &&& *final(builder) == (PacketBuilder { destination_port: port, ..*old(builder) })
                &&& r is Ok
            },
            None => {
                &&& *final(builder) == *old(builder)
                &&& r == Err::<(), RelayReceiverError>(RelayReceiverError::TunPortMissing)
            },
        },
{
    match tun_port {
        Some(port) => {
            builder.destination_port = port;
            Ok(())
        },
        None => Err(RelayReceiverError::TunPortMissing),
    }
}

/// A datagram is forwarded just where it goes to the destination, with its
/// whole payload and the port that it comes from.
pub proof fn law_datagrams_to_the_destination(
    data: Seq<u8>,
    destination: Seq<char>,
    address: Ipv4Address,
    port: int,
    payload: Seq<u8>,
)
    ensures
        crate::datagram::carried_datagram(data) == Some((address, port, payload)) ==> datagram_for(
            data,
            destination,
        ) == if crate::address::ipv4_text(address) == destination {
            Some((port, payload))
        } else {
            None
        },
        crate::datagram::carried_datagram(data) is None ==> datagram_for(data, destination) is None,
{
}

/// Any UDP datagram to the destination is forwarded, whatever its headers hold
/// besides the lengths, the protocol, the destination and the port it comes
/// from.
pub proof fn law_any_datagram_to_the_destination_is_forwarded(
    header: Seq<u8>,
    udp: Seq<u8>,
    payload: Seq<u8>,
    behind: Seq<u8>,
)
    requires
        header.len() >= 20,
        header[0] / 16 == 4,
        header.len() == (header[0] % 16) * 4,
        header[2] * 256 + header[3] == header.len() + 8 + payload.len(),
        header[9] == 17,
        udp.len() == 8,
        udp[4] * 256 + udp[5] == 8 + payload.len(),
    ensures
        datagram_for(
            header + udp + payload + behind,
            crate::address::ipv4_text(
                Ipv4Address { a: header[16], b: header[17], c: header[18], d: header[19] },
            ),
        ) == Some((udp[0] * 256 + udp[1], payload)),
{
    crate::datagram::law_any_datagram_is_carried(header, udp, payload, behind);
}

/// Packets from a relay are wrapped to come from the destination and to go to
/// the TUN device, at port 10000 at first. That works just where both addresses
/// are IPv4 addresses, and otherwise the first one that is none is the error.
pub proof fn law_relay_receiver(
    tun_address: Ipv4Address,
    destination: Ipv4Address,
    tun_ip_address: Seq<char>,
    destination_address: Seq<char>,
    destination_port: u16,
    r: Result<PacketBuilder, RelayReceiverError>,
)
    requires
        relay_receiver_ok(tun_ip_address, destination_address, destination_port, r),
    ensures
        tun_ip_address == crate::address::ipv4_text(tun_address) && destination_address
            == crate::address::ipv4_text(destination) ==> r == Ok::<PacketBuilder, RelayReceiverError>(
            PacketBuilder {
                source_address: destination,
                source_port: destination_port,
                destination_address: tun_address,
                destination_port: 10000,
            },
        ),
        r matches Ok(builder) ==> tun_ip_address == crate::address::ipv4_text(
            builder.destination_address,
        ) && destination_address == crate::address::ipv4_text(builder.source_address),
        (forall|x: Ipv4Address| tun_ip_address != #[trigger] crate::address::ipv4_text(x))
            <==> r == Err::<PacketBuilder, RelayReceiverError>(
            RelayReceiverError::InvalidTunAddress,
        ),
        r matches Err(error) ==> error == RelayReceiverError::InvalidTunAddress || error
            == RelayReceiverError::InvalidDestination,
{
    if let Ok(builder) = r {
        if tun_ip_address == crate::address::ipv4_text(tun_address) && destination_address
            == crate::address::ipv4_text(destination) {
            crate::address::law_ipv4_text_unique(tun_address, builder.destination_address);
            crate::address::law_ipv4_text_unique(destination, builder.source_address);
        }
    }
}

} // verus!

//! UDP datagrams in IPv4 packets, as they pass through a TUN device.
use packet::Builder as _;
use packet::Packet as _;
use packet::{ip, udp};
use vstd::prelude::*;

use crate::address::Ipv4Address;

verus! {

/// The number of the UDP protocol.
pub const UDP_PROTOCOL: u8 = 17;

/// Two bytes as a number, the first one the more significant.
pub open spec fn be16(data: Seq<u8>, i: int) -> int {
    data[i] * 256 + data[i + 1]
}

/// Four bytes as an address.
pub open spec fn address_at(data: Seq<u8>, i: int) -> Ipv4Address {
    Ipv4Address { a: data[i], b: data[i + 1], c: data[i + 2], d: data[i + 3] }
}

/// The larger of two numbers.
pub open spec fn larger(x: int, y: int) -> int {
    if x < y {
        y
    } else {
        x
    }
}

/// The length of an IPv4 header, which is given in words of four bytes.
pub open spec fn ipv4_header_length(data: Seq<u8>) -> int {
    (data[0] % 16) * 4
}

/// Whether some bytes are an IPv4 packet: the version is 4, and the header and
/// the whole packet are as long as the header says.
pub open spec fn is_ipv4_packet(data: Seq<u8>) -> bool {
    &&& data.len() >= 20
    &&& data[0] / 16 == 4
    &&& data.len() >= ipv4_header_length(data)
    &&& data.len() >= be16(data, 2)
}

/// What stands between the header and the end of an IPv4 packet.
pub open spec fn ipv4_payload(data: Seq<u8>) -> Seq<u8> {
    let header = ipv4_header_length(data);
    data.subrange(header, larger(header, be16(data, 2)))
}

/// Whether some bytes are a UDP datagram: the whole datagram is as long as its
/// header says.
pub open spec fn is_udp_datagram(data: Seq<u8>) -> bool {
    data.len() >= 8 && data.len() >= be16(data, 4)
}

/// What stands between the header and the end of a UDP datagram.
pub open spec fn udp_payload(data: Seq<u8>) -> Seq<u8> {
    data.subrange(8, larger(8, be16(data, 4)))
}

/// An IPv4 packet.
#[derive(Debug)]
pub struct Ipv4Packet {
    pub protocol: u8,
    pub destination: Ipv4Address,
    pub payload: Vec<u8>,
}

/// An IP packet of either version.
#[derive(Debug)]
pub enum IpPacket {
    V4(Ipv4Packet),
    V6,
}

/// A UDP datagram.
#[derive(Debug)]
pub struct UdpDatagram {
    pub source: u16,
    pub payload: Vec<u8>,
}

/// `ip::Packet::new` of the packet crate, with an IPv4 packet taken by its
/// protocol, its destination and its payload. It panics on no bytes at all.
/// Nothing is claimed of what is in an IPv6 packet: the version decides alone
/// that some bytes are one.
#[verifier::external_body]
fn parse_ip_packet(data: &[u8]) -> (r: Option<IpPacket>)
    requires
        data@.len() > 0,
    ensures
        match r {
            Some(IpPacket::V4(packet)) => {
                &&& is_ipv4_packet(data@)
                &&& packet.protocol == data@[9]
                &&& packet.destination == address_at(data@, 16)
                &&& packet.payload@ == ipv4_payload(data@)
            },
            Some(IpPacket::V6) => data@[0] / 16 == 6,
            None => !is_ipv4_packet(data@) && data@[0] / 16 != 6,
        },
{
    match ip::Packet::new(data) {
        Ok(ip::Packet::V4(packet)) => {
            let [a, b, c, d] = packet.destination().octets();
            Some(IpPacket::V4(Ipv4Packet {
                protocol: packet.protocol().into(),
                destination: Ipv4Address { a, b, c, d },
                payload: packet.payload().to_vec(),
            }))
        },
        Ok(ip::Packet::V6(_)) => Some(IpPacket::V6),
        Err(_) => None,
    }
}

/// `udp::Packet::new` of the packet crate, with the datagram taken by its
/// source port and its payload.
#[verifier::external_body]
fn parse_udp_datagram(data: &[u8]) -> (r: Option<UdpDatagram>)
    ensures
        match r {
            Some(datagram) => {
                &&& is_udp_datagram(data@)
                &&& datagram.source == be16(data@, 0)
                &&& datagram.payload@ == udp_payload(data@)
            },
            None => !is_udp_datagram(data@),
        },
{
    match udp::Packet::new(data) {
        Ok(datagram) => Some(
            UdpDatagram { source: datagram.source(), payload: datagram.payload().to_vec() },
        ),
        Err(_) => None,
    }
}

/// A UDP datagram that some bytes carry: where it goes, the port it comes from,
/// and what is in it.
pub open spec fn carried_datagram(data: Seq<u8>) -> Option<(Ipv4Address, int, Seq<u8>)> {
    let inner = ipv4_payload(data);
    if is_ipv4_packet(data) && data[9] == UDP_PROTOCOL && is_udp_datagram(inner) {
        Some((address_at(data, 16), be16(inner, 0), udp_payload(inner)))
    } else {
        None
    }
}

/// A UDP datagram with its destination.
#[derive(Debug)]
pub struct CarriedDatagram {
    pub destination: Ipv4Address,
    pub source_port: u16,
    pub payload: Vec<u8>,
}

/// Takes the UDP datagram out of an IPv4 packet.
pub fn read_datagram(data: &[u8]) -> (r: Option<CarriedDatagram>)
    requires
        data@.len() > 0,
    ensures
        match r {
            Some(datagram) => carried_datagram(data@) == Some(
                (datagram.destination, datagram.source_port as int, datagram.payload@),
            ),
            None => carried_datagram(data@) is None,
        },
{
    match parse_ip_packet(data) {
        Some(IpPacket::V4(packet)) => {
            if packet.protocol != UDP_PROTOCOL {
                return None;
            }
            match parse_udp_datagram(packet.payload.as_slice()) {
                Some(datagram) => Some(
                    CarriedDatagram {
                        destination: packet.destination,
                        source_port: datagram.source,
                        payload: datagram.payload,
                    },
                ),
                None => None,
            }
        },
        _ => None,
    }
}

/// The sum of some bytes, two at a time. An odd byte at the end is not counted.
pub open spec fn words_sum(data: Seq<u8>) -> int
    decreases data.len(),
{
    if data.len() < 2 {
        0
    } else {
        be16(data, 0) + words_sum(data.skip(2))
    }
}

/// Whether the checksum of an IPv4 header of five words is right: the words add
/// up to zero modulo 0xffff. It is never 0xffff itself.
pub open spec fn ipv4_checksum_ok(data: Seq<u8>) -> bool {
    &&& words_sum(data.take(20)) % 0xffff == 0
    &&& be16(data, 10) != 0xffff
}

/// Whether the checksum of a UDP datagram behind such a header is right: the
/// words of the datagram, the two addresses, the protocol and the length add up
/// to zero modulo 0xffff. It is never 0xffff itself. An odd byte at the end is
/// not counted.
pub open spec fn udp_checksum_ok(data: Seq<u8>) -> bool {
    &&& (words_sum(data.subrange(12, 20)) + UDP_PROTOCOL + be16(data, 24) + words_sum(
        data.skip(20),
    )) % 0xffff == 0
    &&& be16(data, 26) != 0xffff
}

/// Whether some bytes are the packet that carries a UDP datagram: a header of
/// five words, then the datagram, both with their checksums.
pub open spec fn lays_out(
    data: Seq<u8>,
    source: Ipv4Address,
    source_port: u16,
    destination: Ipv4Address,
    destination_port: u16,
    payload: Seq<u8>,
) -> bool {
    &&& data.len() == 28 + payload.len()
    &&& data[0] == 0x45 && data[1] == 0
    &&& be16(data, 2) == (28 + payload.len()) % 0x1_0000
    &&& data[4] == 0 && data[5] == 0 && data[6] == 0 && data[7] == 0 && data[8] == 0
    &&& data[9] == UDP_PROTOCOL
    &&& address_at(data, 12) == source
    &&& address_at(data, 16) == destination
    &&& be16(data, 20) == source_port
    &&& be16(data, 22) == destination_port
    &&& be16(data, 24) == (8 + payload.len()) % 0x1_0000
    &&& data.skip(28) == payload
    &&& ipv4_checksum_ok(data)
    &&& udp_checksum_ok(data)
}

/// The declaration of the packet crate's error.
#[verifier::external_type_specification]
#[verifier::external_body]
pub struct ExPacketError(packet::Error);

/// `ip::v4::Builder` of the packet crate, with a UDP datagram in the packet.
/// No step of it fails, and every byte of the packet is fixed: lengths that do
/// not fit are written modulo 0x1_0000, and the checksum of the datagram leaves
/// an odd byte at the end out.
#[verifier::external_body]
fn build_udp_packet(
    source: Ipv4Address,
    source_port: u16,
    destination: Ipv4Address,
    destination_port: u16,
    payload: &[u8],
) -> (r: Result<Vec<u8>, packet::Error>)
    ensures
        r is Ok,
        lays_out(r->Ok_0@, source, source_port, destination, destination_port, payload@),
{
    ip::v4::Builder::default()
        .source([source.a, source.b, source.c, source.d].into())?
        .destination([destination.a, destination.b, destination.c, destination.d].into())?
        .udp()?
        .source(source_port)?
        .destination(destination_port)?
        .payload(payload)?
        .build()
}

/// Wraps payloads in the packets that carry them from one address to another.
#[derive(Clone, Copy, PartialEq, Eq, Structural, Debug)]
pub struct PacketBuilder {
    pub source_address: Ipv4Address,
    pub source_port: u16,
    pub destination_address: Ipv4Address,
    pub destination_port: u16,
}

/// The packet could not be made.
#[derive(Clone, Copy, PartialEq, Eq, Structural, Debug)]
pub struct PacketError {}

impl PacketBuilder {
    /// A builder of packets between two addresses.
    pub fn new(
        source_address: Ipv4Address,
        source_port: u16,
        destination_address: Ipv4Address,
        destination_port: u16,
    ) -> (r: Self)
        ensures
            r == (PacketBuilder {
                source_address,
                source_port,
                destination_address,
                destination_port,
            }),
    {
        PacketBuilder { source_address, source_port, destination_address, destination_port }
    }

    /// Whether some bytes are the packet that carries a payload.
    pub open spec fn lays_out(self, data: Seq<u8>, payload: Seq<u8>) -> bool {
        lays_out(
            data,
            self.source_address,
            self.source_port,
            self.destination_address,
            self.destination_port,
            payload,
        )
    }

    /// Wraps a payload in the packet that carries it.
    pub fn pack(&self, payload: &[u8]) -> (r: Result<Vec<u8>, PacketError>)
        ensures
            r matches Ok(data) && self.lays_out(data@, payload@),
    {
        match build_udp_packet(
            self.source_address,
            self.source_port,
            self.destination_address,
            self.destination_port,
            payload,
        ) {
            Ok(data) => Ok(data),
            Err(_) => Err(PacketError {  }),
        }
    }
}

/// Two lists of bytes that differ in one word at most have sums that differ as
/// the words do.
proof fn lemma_one_word_differs(x: Seq<u8>, y: Seq<u8>, k: int)
    requires
        x.len() == y.len(),
        0 <= k,
        k % 2 == 0,
        k + 1 < x.len(),
        forall|i: int| 0 <= i < x.len() && i != k && i != k + 1 ==> x[i] == y[i],
    ensures
        words_sum(x) - words_sum(y) == be16(x, k) - be16(y, k),
    decreases x.len(),
{
    if k == 0 {
        assert(x.skip(2) =~= y.skip(2));
    } else {
        lemma_one_word_differs(x.skip(2), y.skip(2), k - 2);
        assert(be16(x.skip(2), k - 2) == be16(x, k));
        assert(be16(y.skip(2), k - 2) == be16(y, k));
    }
}

/// Two bytes are known by the number that they are.
proof fn lemma_same_word(x: Seq<u8>, y: Seq<u8>, k: int)
    requires
        be16(x, k) == be16(y, k),
    ensures
        x[k] == y[k] && x[k + 1] == y[k + 1],
{
}

/// Two numbers below 0xffff that complete the same sum are equal.
proof fn lemma_same_rest(s: int, t: int, c: int, d: int)
    requires
        s % 0xffff == 0,
        t % 0xffff == 0,
        s - t == c - d,
        0 <= c < 0xffff,
        0 <= d < 0xffff,
    ensures
        c == d,
{
}

/// Two packets for the same payload differ in their checksums at most.
proof fn lemma_same_fields(builder: PacketBuilder, payload: Seq<u8>, x: Seq<u8>, y: Seq<u8>, i: int)
    requires
        builder.lays_out(x, payload),
        builder.lays_out(y, payload),
        0 <= i < x.len(),
        i != 10 && i != 11 && i != 26 && i != 27,
    ensures
        x[i] == y[i],
{
    if i == 2 || i == 3 {
        lemma_same_word(x, y, 2);
    } else if 12 <= i < 16 {
        assert(address_at(x, 12) == address_at(y, 12));
    } else if 16 <= i < 20 {
        assert(address_at(x, 16) == address_at(y, 16));
    } else if i == 20 || i == 21 {
        lemma_same_word(x, y, 20);
    } else if i == 22 || i == 23 {
        lemma_same_word(x, y, 22);
    } else if i == 24 || i == 25 {
        lemma_same_word(x, y, 24);
    } else if i >= 28 {
        assert(x.skip(28)[i - 28] == y.skip(28)[i - 28]);
    }
}

/// There is only one packet that carries a given payload.
pub proof fn law_packet_is_fixed(
    builder: PacketBuilder,
    payload: Seq<u8>,
    x: Seq<u8>,
    y: Seq<u8>,
)
    requires
        builder.lays_out(x, payload),
        builder.lays_out(y, payload),
    ensures
        x == y,
{
    assert forall|i: int|
        0 <= i < x.len() && i != 10 && i != 11 && i != 26 && i != 27 implies x[i] == y[i] by {
        lemma_same_fields(builder, payload, x, y, i);
    }
    assert(x[10] == y[10] && x[11] == y[11]) by {
        let (p, q) = (x.take(20), y.take(20));
        lemma_one_word_differs(p, q, 10);
        lemma_same_rest(words_sum(p), words_sum(q), be16(x, 10), be16(y, 10));
        lemma_same_word(x, y, 10);
    }
    assert(x[26] == y[26] && x[27] == y[27]) by {
        let (p, q) = (x.skip(20), y.skip(20));
        assert(x.subrange(12, 20) =~= y.subrange(12, 20));
        let addresses = words_sum(x.subrange(12, 20));
        let rest = addresses + UDP_PROTOCOL + be16(x, 24);
        lemma_one_word_differs(p, q, 6);
        lemma_same_rest(rest + words_sum(p), rest + words_sum(q), be16(x, 26), be16(y, 26));
        lemma_same_word(x, y, 26);
    }
    assert(x =~= y);
}

/// A packet that was built for a payload carries it: reading the packet gives
/// back the destination, the port it comes from and the payload. A payload that
/// no IPv4 packet can hold is left out.
pub proof fn law_packed_payload_reads_back(builder: PacketBuilder, data: Seq<u8>, payload: Seq<u8>)
    requires
        builder.lays_out(data, payload),
        payload.len() <= 65507,
    ensures
        carried_datagram(data) == Some(
            (builder.destination_address, builder.source_port as int, payload),
        ),
{
    assert(data[0] % 16 == 5 && data[0] / 16 == 4);
    let inner = ipv4_payload(data);
    assert(inner =~= data.skip(20));
    assert(be16(inner, 0) == be16(data, 20));
    assert(be16(inner, 4) == be16(data, 24));
    assert(udp_payload(inner) =~= data.skip(28));
}

/// Which bytes carry a datagram, and what is in it, byte by byte: an IPv4 packet
/// with a UDP datagram inside, both as long as their headers say.
pub proof fn law_what_bytes_carry(data: Seq<u8>)
    ensures
        ({
            let header = (data[0] % 16) * 4;
            let total = data[2] * 256 + data[3];
            let inner = data.subrange(
                header,
                if total > header {
                    total
                } else {
                    header
                },
            );
            let length = inner[4] * 256 + inner[5];
            &&& carried_datagram(data) is Some <==> {
                &&& data.len() >= 20 && data.len() >= header && data.len() >= total
                &&& data[0] / 16 == 4
                &&& data[9] == 17
                &&& inner.len() >= 8 && inner.len() >= length
            }
            &&& carried_datagram(data) matches Some((destination, port, payload)) ==> {
                &&& destination.a == data[16] && destination.b == data[17]
                &&& destination.c == data[18] && destination.d == data[19]
                &&& port == inner[0] * 256 + inner[1]
                &&& payload == inner.subrange(
                    8,
                    if length > 8 {
                        length
                    } else {
                        8
                    },
                )
            }
        }),
{
}

/// What a packet carries does not depend on its type of service, its
/// identification, its flags, its fragment offset, its time to live and its
/// checksum. A packet whose header is said to be so short that they are no part
/// of it is left out.
pub proof fn law_header_details_do_not_matter(x: Seq<u8>, y: Seq<u8>)
    requires
        x.len() == y.len(),
        x[0] == y[0],
        x[0] % 16 >= 3,
        forall|i: int|
            0 <= i < x.len() && i != 1 && i != 4 && i != 5 && i != 6 && i != 7 && i != 8 && i != 10
                && i != 11 ==> #[trigger] x[i] == y[i],
    ensures
        carried_datagram(x) == carried_datagram(y),
{
    if is_ipv4_packet(x) && is_ipv4_packet(y) {
        assert(be16(x, 2) == be16(y, 2));
        assert(ipv4_payload(x) =~= ipv4_payload(y));
        assert(address_at(x, 16) == address_at(y, 16));
    } else {
        assert(x.len() >= 20 ==> be16(x, 2) == be16(y, 2));
    }
}

/// A packet made of any IPv4 header, with or without options, any UDP header
/// and a payload carries that payload, whatever stands behind it and whatever
/// the headers hold besides the lengths, the protocol, the destination and the
/// port it comes from.
pub proof fn law_any_datagram_is_carried(
    header: Seq<u8>,
    udp: Seq<u8>,
    payload: Seq<u8>,
    behind: Seq<u8>,
)
    requires
        header.len() >= 20,
        header[0] / 16 == 4,
        header.len() == (header[0] % 16) * 4,
        header[2] * 256 + header[3] == header.len() + 8 + payload.len(),
        header[9] == 17,
        udp.len() == 8,
        udp[4] * 256 + udp[5] == 8 + payload.len(),
    ensures
        carried_datagram(header + udp + payload + behind) == Some(
            (
                Ipv4Address { a: header[16], b: header[17], c: header[18], d: header[19] },
                udp[0] * 256 + udp[1],
                payload,
            ),
        ),
{
    let data = header + udp + payload + behind;
    let inner = udp + payload;
    assert(data[0] == header[0] && data[2] == header[2] && data[3] == header[3]);
    assert(data[9] == header[9]);
    assert(ipv4_payload(data) =~= inner);
    assert(inner[0] == udp[0] && inner[1] == udp[1] && inner[4] == udp[4] && inner[5] == udp[5]);
    assert(udp_payload(inner) =~= payload);
}

/// A packet that is built says the addresses, the ports and the payload that it
/// was built with, and nothing else.
pub proof fn law_built_packet_fields(builder: PacketBuilder, data: Seq<u8>, payload: Seq<u8>)
    requires
        builder.lays_out(data, payload),
    ensures
        data.len() == 28 + payload.len(),
        data[0] == 0x45,
        data[1] == 0,
        data[2] * 256 + data[3] == (28 + payload.len()) % 0x1_0000,
        forall|i: int| 4 <= i < 9 ==> #[trigger] data[i] == 0,
        data[9] == 17,
        data[12] == builder.source_address.a && data[13] == builder.source_address.b,
        data[14] == builder.source_address.c && data[15] == builder.source_address.d,
        data[16] == builder.destination_address.a && data[17] == builder.destination_address.b,
        data[18] == builder.destination_address.c && data[19] == builder.destination_address.d,
        data[20] * 256 + data[21] == builder.source_port,
        data[22] * 256 + data[23] == builder.destination_port,
        data[24] * 256 + data[25] == (8 + payload.len()) % 0x1_0000,
        forall|i: int| 0 <= i < payload.len() ==> data[28 + i] == #[trigger] payload[i],
{
    assert forall|i: int| 0 <= i < payload.len() implies data[28 + i] == #[trigger] payload[i] by {
        assert(data.skip(28)[i] == payload[i]);
    }
    assert(address_at(data, 12) == builder.source_address);
    assert(address_at(data, 16) == builder.destination_address);
}

/// The checksums of a packet that is built are right: its header adds up to
/// zero, and so do the datagram, the addresses, the protocol and the length.
pub proof fn law_built_packet_checksums(builder: PacketBuilder, data: Seq<u8>, payload: Seq<u8>)
    requires
        builder.lays_out(data, payload),
    ensures
        words_sum(data.take(20)) % 0xffff == 0,
        (words_sum(data.subrange(12, 20)) + 17 + data[24] * 256 + data[25] + words_sum(
            data.skip(20),
        )) % 0xffff == 0,
        data[10] * 256 + data[11] < 0xffff,
        data[26] * 256 + data[27] < 0xffff,
{
}

/// The sum of some bytes is that of their words, each byte in its place.
pub proof fn law_words_sum(data: Seq<u8>, high: u8, low: u8)
    ensures
        words_sum(Seq::empty()) == 0,
        words_sum(seq![high]) == 0,
        words_sum(seq![high, low] + data) == high * 256 + low + words_sum(data),
{
    assert((seq![high, low] + data).skip(2) =~= data);
}

} // verus!

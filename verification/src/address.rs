//! Network addresses as plain values.
use vstd::prelude::*;

use crate::text::{chars_of, decimal, split_once};
use crate::text::{decimal_text, digit_char, decimal_value, law_decimal_read_back, lemma_decimal_digits};
use crate::text::lemma_split_unique;

verus! {

/// An IPv4 address by its four octets.
#[derive(Clone, Copy, PartialEq, Eq, Structural, Debug)]
pub struct Ipv4Address {
    pub a: u8,
    pub b: u8,
    pub c: u8,
    pub d: u8,
}

/// The dot-decimal notation of four octets.
pub open spec fn ipv4_text(address: Ipv4Address) -> Seq<char> {
    decimal_text(address.a as nat) + seq!['.'] + (decimal_text(address.b as nat) + seq!['.'] + (
    decimal_text(address.c as nat) + seq!['.'] + decimal_text(address.d as nat)))
}

impl Ipv4Address {
    /// The address with the given octets.
    pub fn new(a: u8, b: u8, c: u8, d: u8) -> (r: Self)
        ensures
            r == (Ipv4Address { a, b, c, d }),
    {
        Ipv4Address { a, b, c, d }
    }

    /// Whether the address is a loopback address (127.0.0.0/8).
    pub fn is_loopback(&self) -> (r: bool)
        ensures
            r == (self.a == 127),
    {
        self.a == 127
    }

    /// Whether the address is a multicast address (224.0.0.0/4).
    pub fn is_multicast(&self) -> (r: bool)
        ensures
            r == (224 <= self.a <= 239),
    {
        224 <= self.a && self.a <= 239
    }

    /// The address in dot-decimal notation.
    pub fn to_text(&self) -> (r: String)
        ensures
            r@ == ipv4_text(*self),
    {
        let mut text: String = decimal(self.a as u64);
        text.push('.');
        text.append(decimal(self.b as u64).as_str());
        text.push('.');
        text.append(decimal(self.c as u64).as_str());
        text.push('.');
        text.append(decimal(self.d as u64).as_str());
        proof {
            assert(text@ =~= ipv4_text(*self));
        }
        text
    }

    /// Reads an address in dot-decimal notation.
    ///
    /// Only the notation that `to_text` writes is an address: four decimal
    /// octets without leading zeros.
    pub fn parse(text: &str) -> (r: Option<Ipv4Address>)
        ensures
            match r {
                Some(address) => text@ == ipv4_text(address),
                None => forall|address: Ipv4Address| text@ != #[trigger] ipv4_text(address),
            },
    {
        let (first, rest1) = match split_once(text, '.') {
            Some(parts) => parts,
            None => {
                proof {
                    assert forall|x: Ipv4Address| text@ != #[trigger] ipv4_text(x) by {
                        lemma_dotted(decimal_text(x.a as nat), ipv4_tail1(x));
                    }
                }
                return None;
            },
        };
        proof {
            assert forall|x: Ipv4Address| text@ == #[trigger] ipv4_text(x) implies first@
                == decimal_text(x.a as nat) && rest1@ == ipv4_tail1(x) by {
                lemma_octet_first(first@, rest1@, x.a, ipv4_tail1(x));
            }
        }
        let (second, rest2) = match split_once(rest1.as_str(), '.') {
            Some(parts) => parts,
            None => {
                proof {
                    assert forall|x: Ipv4Address| text@ != #[trigger] ipv4_text(x) by {
                        lemma_dotted(decimal_text(x.b as nat), ipv4_tail2(x));
                    }
                }
                return None;
            },
        };
        proof {
            assert forall|x: Ipv4Address| text@ == #[trigger] ipv4_text(x) implies second@
                == decimal_text(x.b as nat) && rest2@ == ipv4_tail2(x) by {
                lemma_octet_first(second@, rest2@, x.b, ipv4_tail2(x));
            }
        }
        let (third, fourth) = match split_once(rest2.as_str(), '.') {
            Some(parts) => parts,
            None => {
                proof {
                    assert forall|x: Ipv4Address| text@ != #[trigger] ipv4_text(x) by {
                        lemma_dotted(decimal_text(x.c as nat), decimal_text(x.d as nat));
                    }
                }
                return None;
            },
        };
        proof {
            assert forall|x: Ipv4Address| text@ == #[trigger] ipv4_text(x) implies third@
                == decimal_text(x.c as nat) && fourth@ == decimal_text(x.d as nat) by {
                lemma_octet_first(third@, fourth@, x.c, decimal_text(x.d as nat));
            }
        }
        let a: Option<u8> = parse_octet(first.as_str());
        let b: Option<u8> = parse_octet(second.as_str());
        let c: Option<u8> = parse_octet(third.as_str());
        let d: Option<u8> = parse_octet(fourth.as_str());
        match (a, b, c, d) {
            (Some(a), Some(b), Some(c), Some(d)) => Some(Ipv4Address { a, b, c, d }),
            _ => None,
        }
    }
}

/// The notation of the last three octets.
spec fn ipv4_tail1(x: Ipv4Address) -> Seq<char> {
    decimal_text(x.b as nat) + seq!['.'] + (decimal_text(x.c as nat) + seq!['.'] + decimal_text(
        x.d as nat,
    ))
}

/// The notation of the last two octets.
spec fn ipv4_tail2(x: Ipv4Address) -> Seq<char> {
    decimal_text(x.c as nat) + seq!['.'] + decimal_text(x.d as nat)
}

/// A text with a dot in the middle holds a dot.
proof fn lemma_dotted(head: Seq<char>, tail: Seq<char>)
    ensures
        (head + seq!['.'] + tail).contains('.'),
{
    assert((head + seq!['.'] + tail)[head.len() as int] == '.');
}

/// Splitting at the first dot takes the first octet off.
proof fn lemma_octet_first(head: Seq<char>, tail: Seq<char>, octet: u8, rest: Seq<char>)
    requires
        head + seq!['.'] + tail == decimal_text(octet as nat) + seq!['.'] + rest,
        !head.contains('.'),
    ensures
        head == decimal_text(octet as nat),
        tail == rest,
{
    lemma_decimal_digits(octet as nat);
    lemma_split_unique(head, tail, decimal_text(octet as nat), rest, '.');
}

/// Two addresses with the same notation are the same address.
pub proof fn law_ipv4_text_unique(x: Ipv4Address, y: Ipv4Address)
    requires
        ipv4_text(x) == ipv4_text(y),
    ensures
        x == y,
{
    lemma_decimal_digits(x.a as nat);
    lemma_decimal_digits(x.b as nat);
    lemma_decimal_digits(x.c as nat);
    lemma_octet_first(decimal_text(x.a as nat), ipv4_tail1(x), y.a, ipv4_tail1(y));
    lemma_octet_first(decimal_text(x.b as nat), ipv4_tail2(x), y.b, ipv4_tail2(y));
    lemma_octet_first(
        decimal_text(x.c as nat),
        decimal_text(x.d as nat),
        y.c,
        decimal_text(y.d as nat),
    );
    law_decimal_read_back(x.a as nat);
    law_decimal_read_back(y.a as nat);
    law_decimal_read_back(x.b as nat);
    law_decimal_read_back(y.b as nat);
    law_decimal_read_back(x.c as nat);
    law_decimal_read_back(y.c as nat);
    law_decimal_read_back(x.d as nat);
    law_decimal_read_back(y.d as nat);
}

/// The decimal notation of numbers up to 999, digit by digit.
proof fn lemma_short_decimal(n: nat)
    requires
        n < 1000,
    ensures
        n < 10 ==> decimal_text(n) == seq![digit_char(n)],
        10 <= n < 100 ==> decimal_text(n) == seq![digit_char(n / 10), digit_char(n % 10)],
        100 <= n ==> decimal_text(n) == seq![
            digit_char(n / 100),
            digit_char(n / 10 % 10),
            digit_char(n % 10),
        ],
{
    reveal_with_fuel(decimal_text, 3);
    if 10 <= n < 100 {
        assert(decimal_text(n) =~= seq![digit_char(n / 10), digit_char(n % 10)]);
    }
    if 100 <= n {
        assert(n / 10 / 10 == n / 100);
        assert(decimal_text(n) =~= seq![
            digit_char(n / 100),
            digit_char(n / 10 % 10),
            digit_char(n % 10),
        ]);
    }
}

/// Reads a decimal number up to 255 without leading zeros.
pub fn parse_octet(text: &str) -> (r: Option<u8>)
    ensures
        match r {
            Some(n) => text@ == decimal_text(n as nat),
            None => forall|n: u8| text@ != #[trigger] decimal_text(n as nat),
        },
{
    let chars: Vec<char> = chars_of(text);
    proof {
        assert forall|n: u8| text@ == #[trigger] decimal_text(n as nat) implies 1 <= text@.len()
            <= 3 && (text@.len() > 1 ==> text@[0] != '0') && (forall|i: int|
            0 <= i < text@.len() ==> '0' <= #[trigger] text@[i] <= '9') by {
            lemma_short_decimal(n as nat);
            lemma_decimal_digits(n as nat);
        }
    }
    if chars.len() == 0 || chars.len() > 3 {
        return None;
    }
    if chars.len() > 1 && chars[0] == '0' {
        return None;
    }
    let mut value: u32 = 0;
    let mut i: usize = 0;
    while i < chars.len()
        invariant
            chars@ == text@,
            i <= chars@.len() <= 3,
            value == decimal_value(text@.take(i as int)),
            i == 0 ==> value == 0,
            i == 1 ==> value <= 9,
            i == 2 ==> value <= 99,
            i == 3 ==> value <= 999,
            forall|k: int| 0 <= k < i ==> '0' <= #[trigger] chars@[k] <= '9',
            forall|n: u8|
                text@ == #[trigger] decimal_text(n as nat) ==> forall|i: int|
                    0 <= i < text@.len() ==> '0' <= #[trigger] text@[i] <= '9',
        decreases chars@.len() - i,
    {
        let c: char = chars[i];
        if c < '0' || '9' < c {
            return None;
        }
        proof {
            assert(text@.take(i + 1).drop_last() =~= text@.take(i as int));
        }
        value = value * 10 + (c as u32 - 48);
        i = i + 1;
    }
    proof {
        assert(text@.take(text@.len() as int) =~= text@);
        assert forall|n: u8| text@ == #[trigger] decimal_text(n as nat) implies value == n by {
            law_decimal_read_back(n as nat);
        }
    }
    if value > 255 {
        return None;
    }
    proof {
        lemma_short_decimal(value as nat);
        reveal_with_fuel(decimal_value, 4);
        let last = text@.last();
        if text@.len() == 1 {
            assert(text@.drop_last() =~= Seq::<char>::empty());
            assert(text@ =~= decimal_text(value as nat));
        } else if text@.len() == 2 {
            assert(text@.drop_last().drop_last() =~= Seq::<char>::empty());
            assert(value == (text@[0] as u32 - 48) * 10 + (text@[1] as u32 - 48));
            assert(text@ =~= decimal_text(value as nat));
        } else {
            assert(text@.drop_last().drop_last().drop_last() =~= Seq::<char>::empty());
            assert(value == (text@[0] as u32 - 48) * 100 + (text@[1] as u32 - 48) * 10 + (
            text@[2] as u32 - 48));
            assert(text@ =~= decimal_text(value as nat));
        }
    }
    Some(value as u8)
}

/// An IPv6 address by its eight segments.
#[derive(Clone, Copy, PartialEq, Eq, Structural, Debug)]
pub struct Ipv6Address {
    pub s0: u16,
    pub s1: u16,
    pub s2: u16,
    pub s3: u16,
    pub s4: u16,
    pub s5: u16,
    pub s6: u16,
    pub s7: u16,
}

/// An address of either version.
#[derive(Clone, Copy, PartialEq, Eq, Structural, Debug)]
pub enum IpAddress {
    V4(Ipv4Address),
    V6(Ipv6Address),
}

/// The address and port of a socket. The last two fields are zero for IPv4.
#[derive(Clone, Copy, PartialEq, Eq, Structural, Debug)]
pub struct SocketAddress {
    pub ip: IpAddress,
    pub port: u16,
    pub flow_info: u32,
    pub scope_id: u32,
}

/// Whether an IPv6 address carries an IPv4 address in its last two segments,
/// as in `::ffff:192.0.2.1`: the first five segments are zero, and the sixth one
/// is 0xffff.
pub open spec fn carries_ipv4(x: Ipv6Address) -> bool {
    &&& x.s0 == 0 && x.s1 == 0 && x.s2 == 0 && x.s3 == 0 && x.s4 == 0
    &&& x.s5 == 0xffff
}

/// The IPv4 address in the last two segments.
pub open spec fn carried_ipv4(x: Ipv6Address) -> Ipv4Address {
    Ipv4Address {
        a: (x.s6 / 256) as u8,
        b: (x.s6 % 256) as u8,
        c: (x.s7 / 256) as u8,
        d: (x.s7 % 256) as u8,
    }
}

/// The address that packets are sent to: the IPv4 address where an IPv6 one
/// carries it, otherwise the address itself.
pub open spec fn normalized(ip: IpAddress) -> IpAddress {
    match ip {
        IpAddress::V4(v4) => IpAddress::V4(v4),
        IpAddress::V6(v6) => if carries_ipv4(v6) {
            IpAddress::V4(carried_ipv4(v6))
        } else {
            IpAddress::V6(v6)
        },
    }
}

impl IpAddress {
    /// Replaces an IPv6 address that carries an IPv4 address by the latter. Any
    /// other address stays as it is.
    pub fn normalize(self) -> (r: IpAddress)
        ensures
            r == normalized(self),
    {
        match self {
            IpAddress::V4(v4) => IpAddress::V4(v4),
            IpAddress::V6(x) => {
                if x.s0 == 0 && x.s1 == 0 && x.s2 == 0 && x.s3 == 0 && x.s4 == 0 && x.s5
                    == 0xffff {
                    IpAddress::V4(
                        Ipv4Address {
                            a: (x.s6 / 256) as u8,
                            b: (x.s6 % 256) as u8,
                            c: (x.s7 / 256) as u8,
                            d: (x.s7 % 256) as u8,
                        },
                    )
                } else {
                    IpAddress::V6(x)
                }
            },
        }
    }

    /// Whether the address is an IPv4 address.
    pub fn is_ipv4(&self) -> (r: bool)
        ensures
            r == (*self is V4),
    {
        match self {
            IpAddress::V4(_) => true,
            IpAddress::V6(_) => false,
        }
    }
}

/// Normalizing an address twice is normalizing it once, and an address that is
/// still an IPv6 address then carries no IPv4 address and was not changed.
pub proof fn law_normalize_settles(ip: IpAddress)
    ensures
        normalized(normalized(ip)) == normalized(ip),
        normalized(ip) matches IpAddress::V6(v6) ==> !carries_ipv4(v6) && ip == normalized(ip),
{
}

/// The first IPv4 address of a list.
pub open spec fn first_ipv4(ips: Seq<IpAddress>) -> Option<Ipv4Address>
    decreases ips.len(),
{
    if ips.len() == 0 {
        None
    } else {
        match ips[0] {
            IpAddress::V4(v4) => Some(v4),
            IpAddress::V6(_) => first_ipv4(ips.drop_first()),
        }
    }
}

/// Finds the first IPv4 address of a list.
pub fn find_ipv4(ips: &Vec<IpAddress>) -> (r: Option<Ipv4Address>)
    ensures
        r == first_ipv4(ips@),
{
    let mut i: usize = 0;
    proof {
        assert(ips@.skip(0) =~= ips@);
    }
    while i < ips.len()
        invariant
            i <= ips@.len(),
            first_ipv4(ips@) == first_ipv4(ips@.skip(i as int)),
        decreases ips@.len() - i,
    {
        match ips[i] {
            IpAddress::V4(v4) => {
                return Some(v4);
            },
            IpAddress::V6(_) => {},
        }
        proof {
            assert(ips@.skip(i as int).drop_first() =~= ips@.skip(i + 1));
        }
        i = i + 1;
    }
    None
}

/// Why a text is no socket address.
#[derive(Clone, Copy, PartialEq, Eq, Structural, Debug)]
pub enum AddressError {
    InvalidSyntax,
}

impl AddressError {
    /// The error in words.
    pub fn text(&self) -> (r: &'static str)
        ensures
            r@ == "Invalid socket address syntax. Expected 'IP:port' or 'IP'."@,
    {
        "Invalid socket address syntax. Expected 'IP:port' or 'IP'."
    }
}

/// The socket address that a text stands for, given what the text is as an
/// address with a port and what it is as an address alone. Port zero lets the
/// system pick a free one.
pub open spec fn socket_addr_of(
    with_port: Option<SocketAddress>,
    alone: Option<IpAddress>,
) -> Result<SocketAddress, AddressError> {
    match (with_port, alone) {
        (Some(address), _) => Ok(address),
        (None, Some(ip)) => Ok(SocketAddress { ip, port: 0, flow_info: 0, scope_id: 0 }),
        (None, None) => Err(AddressError::InvalidSyntax),
    }
}

/// Decides which socket address a text stands for: the one with a port where
/// it reads as such, else the address alone with port zero.
pub fn parse_socket_addr(with_port: Option<SocketAddress>, alone: Option<IpAddress>) -> (r: Result<
    SocketAddress,
    AddressError,
>)
    ensures
        r == socket_addr_of(with_port, alone),
{
    if let Some(address) = with_port {
        return Ok(address);
    }
    if let Some(ip) = alone {
        return Ok(SocketAddress { ip, port: 0, flow_info: 0, scope_id: 0 });
    }
    Err(AddressError::InvalidSyntax)
}

/// The notation of an address is that of its octets, with dots between them.
pub proof fn law_ipv4_notation(x: Ipv4Address)
    ensures
        ipv4_text(x) == crate::text::joined(
            seq![
                decimal_text(x.a as nat),
                decimal_text(x.b as nat),
                decimal_text(x.c as nat),
                decimal_text(x.d as nat),
            ],
            seq!['.'],
        ),
{
    let a = decimal_text(x.a as nat);
    let b = decimal_text(x.b as nat);
    let c = decimal_text(x.c as nat);
    let d = decimal_text(x.d as nat);
    let dot = seq!['.'];
    crate::text::law_joined(seq![a], b, dot);
    crate::text::law_joined(seq![a, b], c, dot);
    crate::text::law_joined(seq![a, b, c], d, dot);
    crate::text::law_joined(seq![], a, dot);
    assert(seq![a].push(b) =~= seq![a, b]);
    assert(seq![a, b].push(c) =~= seq![a, b, c]);
    assert(seq![a, b, c].push(d) =~= seq![a, b, c, d]);
    assert(ipv4_text(x) =~= a + dot + b + dot + c + dot + d);
}

/// Just the addresses `::ffff:a.b.c.d` are replaced, each by `a.b.c.d`. All
/// others stay as they are.
pub proof fn law_only_mapped_addresses_are_replaced(v6: Ipv6Address, v4: Ipv4Address)
    ensures
        normalized(IpAddress::V4(v4)) == IpAddress::V4(v4),
        normalized(IpAddress::V6(v6)) == IpAddress::V4(v4) <==> v6 == (Ipv6Address {
            s0: 0,
            s1: 0,
            s2: 0,
            s3: 0,
            s4: 0,
            s5: 0xffff,
            s6: (v4.a * 256 + v4.b) as u16,
            s7: (v4.c * 256 + v4.d) as u16,
        }),
        normalized(IpAddress::V6(v6)) is V6 ==> normalized(IpAddress::V6(v6)) == IpAddress::V6(v6),
        normalized(IpAddress::V6(v6)) is V4 <==> v6.s0 == 0 && v6.s1 == 0 && v6.s2 == 0 && v6.s3
            == 0 && v6.s4 == 0 && v6.s5 == 0xffff,
{
}

/// The first IPv4 address of a list is one of it, and only IPv6 addresses stand
/// before it. Where there is none, all are IPv6 addresses.
pub proof fn law_first_ipv4(ips: Seq<IpAddress>)
    ensures
        match first_ipv4(ips) {
            Some(v4) => exists|i: int|
                {
                    &&& 0 <= i < ips.len()
                    &&& #[trigger] ips[i] == IpAddress::V4(v4)
                    &&& forall|j: int| 0 <= j < i ==> (#[trigger] ips[j]) is V6
                },
            None => forall|j: int| 0 <= j < ips.len() ==> (#[trigger] ips[j]) is V6,
        },
    decreases ips.len(),
{
    if ips.len() > 0 {
        let rest = ips.drop_first();
        law_first_ipv4(rest);
        assert forall|j: int| 0 < j < ips.len() implies ips[j] == rest[j - 1] by {}
        match ips[0] {
            IpAddress::V4(_) => {},
            IpAddress::V6(_) => {
                if let Some(v4) = first_ipv4(rest) {
                    let i = choose|i: int|
                        {
                            &&& 0 <= i < rest.len()
                            &&& #[trigger] rest[i] == IpAddress::V4(v4)
                            &&& forall|j: int| 0 <= j < i ==> (#[trigger] rest[j]) is V6
                        };
                    assert(ips[i + 1] == IpAddress::V4(v4));
                    assert forall|j: int| 0 <= j < i + 1 implies (#[trigger] ips[j]) is V6 by {
                        if j > 0 {
                            assert(rest[j - 1] == ips[j]);
                        }
                    }
                } else {
                    assert forall|j: int| 0 <= j < ips.len() implies (#[trigger] ips[j]) is V6 by {
                        if j > 0 {
                            assert(rest[j - 1] == ips[j]);
                        }
                    }
                }
            },
        }
    }
}

/// An address with a port is taken as it is, one without gets port zero, and
/// anything else is an error.
pub proof fn law_socket_address(with_port: SocketAddress, alone: Option<IpAddress>, ip: IpAddress)
    ensures
        socket_addr_of(Some(with_port), alone) == Ok::<SocketAddress, AddressError>(with_port),
        socket_addr_of(None, Some(ip)) matches Ok(address) && address.ip == ip && address.port == 0
            && address.flow_info == 0 && address.scope_id == 0,
        socket_addr_of(None, None) is Err,
{
}

} // verus!

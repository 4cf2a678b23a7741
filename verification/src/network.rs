//! The network that TUN devices get their addresses from.
use ipnetwork::Ipv4Network;
use vstd::arithmetic::power2::pow2;
use vstd::prelude::*;

use crate::address::Ipv4Address;
use crate::text::decimal;
use crate::text::decimal_text;

verus! {

/// The largest number of addresses that a network may have.
pub const MAX_NETWORK_SIZE: u32 = 256;

/// A network: an address in it, and how many leading bits its addresses share.
#[derive(Clone, Copy, PartialEq, Eq, Structural, Debug)]
pub struct TunNetwork {
    pub address: Ipv4Address,
    pub prefix: u8,
}

/// An address as a number.
pub open spec fn ipv4_value(address: Ipv4Address) -> int {
    address.a * 0x100_0000 + address.b * 0x1_0000 + address.c * 0x100 + address.d
}

impl TunNetwork {
    /// An address has 32 bits.
    pub open spec fn wf(self) -> bool {
        self.prefix <= 32
    }

    /// How many addresses share the leading bits.
    pub open spec fn span(self) -> int {
        pow2((32 - self.prefix) as nat) as int
    }

    /// How many addresses the network has. Where all addresses are in it, the
    /// last one is not counted.
    pub open spec fn size(self) -> int {
        if self.prefix == 0 {
            u32::MAX as int
        } else {
            self.span()
        }
    }

    /// The lowest address of the network.
    pub open spec fn base(self) -> int {
        ipv4_value(self.address) / self.span() * self.span()
    }

    /// Whether an address is in the network.
    pub open spec fn contains(self, address: Ipv4Address) -> bool {
        self.base() <= ipv4_value(address) < self.base() + self.span()
    }

    /// The address at a position of the network.
    pub open spec fn is_nth(self, n: u32, address: Ipv4Address) -> bool {
        n < self.size() && ipv4_value(address) == self.base() + n
    }
}

/// What a text is as a network, or what is wrong with it.
pub uninterp spec fn network_of_text(text: Seq<char>) -> Result<TunNetwork, Seq<char>>;

/// `Ipv4Network::from_str` of the ipnetwork crate, with the network taken by
/// its address and prefix, and the error by its words. The result is a function
/// of the text alone, and a prefix is never longer than an address.
#[verifier::external_body]
fn parse_network(text: &str) -> (r: Result<TunNetwork, String>)
    ensures
        match r {
            Ok(network) => network_of_text(text@) == Ok::<TunNetwork, Seq<char>>(network)
                && network.prefix <= 32,
            Err(error) => network_of_text(text@) == Err::<TunNetwork, Seq<char>>(error@),
        },
{
    match text.parse::<Ipv4Network>() {
        Ok(network) => {
            let [a, b, c, d] = network.ip().octets();
            Ok(TunNetwork { address: Ipv4Address { a, b, c, d }, prefix: network.prefix() })
        },
        Err(error) => Err(error.to_string()),
    }
}

/// `Ipv4Network::size` of the ipnetwork crate: the number of addresses in the
/// network, where that fits, otherwise the largest number.
#[verifier::external_body]
fn network_size(network: TunNetwork) -> (r: u32)
    requires
        network.prefix <= 32,
    ensures
        r == network.size(),
{
    let TunNetwork { address, prefix } = network;
    Ipv4Network::new([address.a, address.b, address.c, address.d].into(), prefix).unwrap().size()
}

/// `Ipv4Network::nth` of the ipnetwork crate: the address at a position,
/// counted from the lowest address, where the position is less than the size.
#[verifier::external_body]
fn network_nth(network: TunNetwork, n: u32) -> (r: Option<Ipv4Address>)
    requires
        network.prefix <= 32,
    ensures
        match r {
            Some(address) => network.is_nth(n, address),
            None => n >= network.size(),
        },
{
    let TunNetwork { address, prefix } = network;
    Ipv4Network::new([address.a, address.b, address.c, address.d].into(), prefix)
        .unwrap()
        .nth(n)
        .map(|nth| nth.octets())
        .map(|[a, b, c, d]| Ipv4Address { a, b, c, d })
}

/// Why a text is no network for TUN devices.
#[derive(Debug)]
pub enum NetworkError {
    /// It is no network at all, for this reason.
    Invalid(String),
    /// It has this many addresses.
    TooBig(u32),
}

/// The error in words.
pub open spec fn network_error_text(error: NetworkError) -> Seq<char> {
    match error {
        NetworkError::Invalid(reason) => reason@,
        NetworkError::TooBig(size) => "TUN IP network too big ("@ + decimal_text(size as nat)
            + " > 256)"@,
    }
}

impl NetworkError {
    /// The error in words.
    pub fn text(&self) -> (r: String)
        ensures
            r@ == network_error_text(*self),
    {
        match self {
            NetworkError::Invalid(reason) => reason.clone(),
            NetworkError::TooBig(size) => {
                let mut text: String = "TUN IP network too big (".to_owned();
                text.append(decimal(*size as u64).as_str());
                text.append(" > 256)");
                text
            },
        }
    }
}

/// Whether a result is what the TUN network should be, given what a text is as
/// a network.
pub open spec fn tun_network_ok(
    parsed: Result<TunNetwork, Seq<char>>,
    r: Result<TunNetwork, NetworkError>,
) -> bool {
    match parsed {
        Ok(network) => if network.size() > MAX_NETWORK_SIZE {
            r matches Err(NetworkError::TooBig(size)) && size == network.size()
        } else {
            r == Ok::<TunNetwork, NetworkError>(network)
        },
        Err(reason) => r matches Err(NetworkError::Invalid(text)) && text@ == reason,
    }
}

/// Reads the TUN network, which must not be too big.
pub fn parse_tun_ip_network(text: &str) -> (r: Result<TunNetwork, NetworkError>)
    ensures
        tun_network_ok(network_of_text(text@), r),
        r matches Ok(network) ==> network.wf(),
{
    match parse_network(text) {
        Ok(network) => check_tun_ip_network(network),
        Err(reason) => Err(NetworkError::Invalid(reason)),
    }
}

/// Checks that a network is not too big for TUN devices.
pub fn check_tun_ip_network(network: TunNetwork) -> (r: Result<TunNetwork, NetworkError>)
    requires
        network.wf(),
    ensures
        tun_network_ok(Ok(network), r),
{
    let size: u32 = network_size(network);
    if size > MAX_NETWORK_SIZE {
        return Err(NetworkError::TooBig(size));
    }
    Ok(network)
}

impl TunNetwork {
    /// How many addresses the network has.
    pub fn count(&self) -> (r: u32)
        requires
            self.wf(),
        ensures
            r == self.size(),
    {
        network_size(*self)
    }

    /// The address at a position of the network.
    pub fn nth(&self, n: u32) -> (r: Option<Ipv4Address>)
        requires
            self.wf(),
        ensures
            match r {
                Some(address) => self.is_nth(n, address),
                None => n >= self.size(),
            },
    {
        network_nth(*self, n)
    }
}

/// The addresses at the positions of a network are in it, and different
/// positions have different addresses.
pub proof fn law_network_addresses(
    network: TunNetwork,
    n1: u32,
    x1: Ipv4Address,
    n2: u32,
    x2: Ipv4Address,
)
    requires
        network.wf(),
        network.is_nth(n1, x1),
        network.is_nth(n2, x2),
    ensures
        network.contains(x1),
        x1 == x2 <==> n1 == n2,
{
    lemma_size_within_span(network);
    if n1 == n2 {
        lemma_ipv4_value_unique(x1, x2);
    }
}

/// A network has no more addresses than share its leading bits.
proof fn lemma_size_within_span(network: TunNetwork)
    requires
        network.wf(),
    ensures
        1 <= network.size() <= network.span(),
{
    vstd::arithmetic::power2::lemma2_to64();
    vstd::arithmetic::power2::lemma_pow2_pos((32 - network.prefix) as nat);
}

/// An address is known by its number.
proof fn lemma_ipv4_value_unique(x: Ipv4Address, y: Ipv4Address)
    requires
        ipv4_value(x) == ipv4_value(y),
    ensures
        x == y,
{
    let rx = x.b * 0x1_0000 + x.c * 0x100 + x.d;
    let ry = y.b * 0x1_0000 + y.c * 0x100 + y.d;
    assert(0 <= rx < 0x100_0000 && 0 <= ry < 0x100_0000);
    assert(x.a == y.a);
    let sx = x.c * 0x100 + x.d;
    let sy = y.c * 0x100 + y.d;
    assert(rx == ry && 0 <= sx < 0x1_0000 && 0 <= sy < 0x1_0000);
    assert(x.b == y.b);
    assert(sx == sy);
}

/// A network always has an address.
pub proof fn lemma_network_not_empty(network: TunNetwork)
    requires
        network.wf(),
    ensures
        1 <= network.size() <= u32::MAX,
{
    lemma_size_within_span(network);
    vstd::arithmetic::power2::lemma2_to64();
    if network.prefix > 0 {
        if network.prefix > 1 {
            vstd::arithmetic::power2::lemma_pow2_strictly_increases(
                (32 - network.prefix) as nat,
                31,
            );
        }
    }
}

/// A network is taken for TUN devices just where it has at most 256 addresses. A
/// larger one is refused with its size, and a text that is none with the reason.
pub proof fn law_tun_network(
    network: TunNetwork,
    reason: Seq<char>,
    r: Result<TunNetwork, NetworkError>,
)
    ensures
        tun_network_ok(Ok(network), r) ==> (r is Ok <==> network.size() <= 256),
        tun_network_ok(Ok(network), r) && r is Ok ==> r == Ok::<TunNetwork, NetworkError>(network),
        tun_network_ok(Ok(network), r) && r is Err ==> {
            &&& r matches Err(NetworkError::TooBig(size))
            &&& size == network.size()
        },
        tun_network_ok(Err(reason), r) ==> {
            &&& r matches Err(NetworkError::Invalid(text))
            &&& text@ == reason
        },
{
}

/// What the errors say.
pub proof fn law_network_errors(size: u32, reason: String)
    ensures
        network_error_text(NetworkError::Invalid(reason)) == reason@,
        network_error_text(NetworkError::TooBig(size)) == "TUN IP network too big ("@
            + decimal_text(size as nat) + " > 256)"@,
{
}

/// A network with a prefix has all addresses with the same leading bits, and
/// its positions count from the lowest one.
pub proof fn law_network_positions(network: TunNetwork, n: u32, x: Ipv4Address)
    requires
        network.prefix <= 32,
    ensures
        network.wf(),
        network.prefix > 0 ==> network.size() == pow2((32 - network.prefix) as nat),
        network.prefix == 0 ==> network.size() == 0xffff_ffff,
        network.is_nth(n, x) ==> {
            let value = x.a * 0x100_0000 + x.b * 0x1_0000 + x.c * 0x100 + x.d;
            let own = network.address.a * 0x100_0000 + network.address.b * 0x1_0000
                + network.address.c * 0x100 + network.address.d;
            let span = pow2((32 - network.prefix) as nat) as int;
            &&& n < network.size()
            &&& value == own / span * span + n
        },
{
}

} // verus!

//! A streamer: relays connect to it, and it sends packets to the destination
//! through them.
//!
//! The websocket server and multicast DNS are the caller's.
use vstd::prelude::*;

use crate::address::Ipv4Address;
use crate::network::{parse_tun_ip_network, NetworkError, TunNetwork};
use crate::session::fresh_relay;
use crate::session::{CleanupEffects, Relay, StreamerRelayState};
use crate::text::decimal;
use crate::utils::MDNS_SERVICE_TYPE;

verus! {

/// The configuration of a streamer.
#[derive(Debug)]
pub struct StreamerConfig {
    pub id: String,
    pub name: String,
    pub address: String,
    pub port: u16,
    pub tun_ip_network: String,
    pub password: String,
    pub destination_address: String,
    pub destination_port: u16,
}

/// A streamer's state as plain values.
pub struct StreamerState {
    pub id: Seq<char>,
    pub name: Seq<char>,
    pub address: Seq<char>,
    pub port: u16,
    pub password: Seq<char>,
    /// The indexes of the connected relays, in the order they connected.
    pub relays: Seq<u32>,
    /// The indexes that no relay has. The last one is given away first.
    pub unique_indexes: Seq<u32>,
    pub tun_ip_network: TunNetwork,
    pub destination_address: Seq<char>,
    pub destination_port: u16,
}

/// How many relays can be connected at a time to a network of some size: its
/// first and its last address are not given away.
pub open spec fn capacity(size: int) -> int {
    if size >= 2 {
        size - 2
    } else {
        0
    }
}

/// All indexes of a network of some size, the lowest one last.
pub open spec fn all_indexes(size: int) -> Seq<u32> {
    Seq::new(capacity(size) as nat, |i: int| (size - 2 - i) as u32)
}

impl StreamerState {
    /// The network is one.
    pub open spec fn wf(self) -> bool {
        self.tun_ip_network.wf()
    }

    /// Every index of the network, its first and last one aside, is either a
    /// relay's or nobody's, and there is only one of each.
    pub open spec fn indexes_ok(self) -> bool {
        let size = self.tun_ip_network.size();
        &&& self.relays.no_duplicates()
        &&& self.unique_indexes.no_duplicates()
        &&& forall|i: u32| #[trigger]
            self.unique_indexes.contains(i) ==> 1 <= i < size - 1 && !self.relays.contains(i)
        &&& forall|i: u32| #[trigger] self.relays.contains(i) ==> 1 <= i < size - 1
        &&& forall|i: u32|
            1 <= i < size - 1 ==> #[trigger] self.relays.contains(i)
                || self.unique_indexes.contains(i)
        &&& self.relays.len() + self.unique_indexes.len() == capacity(size)
    }

    /// The state once a relay is gone: its index is nobody's again, and is given
    /// away after all others.
    pub open spec fn relay_removed(self, index: u32) -> StreamerState {
        StreamerState {
            relays: without(self.relays, index),
            unique_indexes: seq![index] + self.unique_indexes,
            ..self
        }
    }
}

/// Why a relay is turned away.
#[derive(Clone, Copy, PartialEq, Eq, Structural, Debug)]
pub enum ConnectionError {
    NoUniqueIndex,
    NoTunAddress,
}

/// How a streamer announces itself over multicast DNS.
#[derive(Debug)]
pub struct MdnsServiceInfo {
    pub service_type: &'static str,
    pub instance_name: String,
    pub host_name: String,
    pub port: u16,
    pub property_name: &'static str,
    pub property_value: String,
}

/// A header of the response to a websocket handshake.
#[derive(Clone, Copy, Debug)]
pub struct HandshakeHeader {
    pub name: &'static str,
    pub value: &'static str,
}

/// The headers that a streamer adds to its response to a websocket handshake.
pub fn handshake_headers() -> (r: [HandshakeHeader; 3])
    ensures
        r@[0].name@ == "sec-websocket-protocol"@ && r@[0].value@ == "moblink"@,
        r@[1].name@ == "origin"@ && r@[1].value@ == "moblin://streamer"@,
        r@[2].name@ == "user-agent"@ && r@[2].value@ == "Moblin/1.0"@,
{
    [
        HandshakeHeader { name: "sec-websocket-protocol", value: "moblink" },
        HandshakeHeader { name: "origin", value: "moblin://streamer" },
        HandshakeHeader { name: "user-agent", value: "Moblin/1.0" },
    ]
}

/// A streamer.
#[derive(Debug)]
pub struct StreamerInner {
    id: String,
    name: String,
    address: String,
    port: u16,
    password: String,
    relays: Vec<u32>,
    unique_indexes: Vec<u32>,
    tun_ip_network: TunNetwork,
    destination_address: String,
    destination_port: u16,
}

impl View for StreamerInner {
    type V = StreamerState;

    closed spec fn view(&self) -> StreamerState {
        StreamerState {
            id: self.id@,
            name: self.name@,
            address: self.address@,
            port: self.port,
            password: self.password@,
            relays: self.relays@,
            unique_indexes: self.unique_indexes@,
            tun_ip_network: self.tun_ip_network,
            destination_address: self.destination_address@,
            destination_port: self.destination_port,
        }
    }
}

/// The state of a streamer that no relay is connected to.
pub open spec fn fresh_streamer(config: StreamerConfig, network: TunNetwork) -> StreamerState {
    StreamerState {
        id: config.id@,
        name: config.name@,
        address: config.address@,
        port: config.port,
        password: config.password@,
        relays: Seq::empty(),
        unique_indexes: all_indexes(network.size()),
        tun_ip_network: network,
        destination_address: config.destination_address@,
        destination_port: config.destination_port,
    }
}

impl StreamerInner {
    /// The network is one.
    #[verifier::type_invariant]
    spec fn network_ok(self) -> bool {
        self.tun_ip_network.wf()
    }

    /// A streamer that no relay is connected to.
    pub fn new(config: StreamerConfig) -> (r: Result<StreamerInner, NetworkError>)
        ensures
            match r {
                Ok(streamer) => {
                    &&& crate::network::tun_network_ok(
                        crate::network::network_of_text(config.tun_ip_network@),
                        Ok(streamer@.tun_ip_network),
                    )
                    &&& streamer@ == fresh_streamer(config, streamer@.tun_ip_network)
                    &&& streamer@.wf()
                    &&& streamer@.indexes_ok()
                },
                Err(error) => crate::network::tun_network_ok(
                    crate::network::network_of_text(config.tun_ip_network@),
                    Err(error),
                ),
            },
    {
        match parse_tun_ip_network(config.tun_ip_network.as_str()) {
            Ok(network) => Ok(Self::with_network(config, network)),
            Err(error) => Err(error),
        }
    }

    /// A streamer that no relay is connected to, with its network read.
    pub fn with_network(config: StreamerConfig, network: TunNetwork) -> (r: StreamerInner)
        requires
            network.wf(),
        ensures
            r@ == fresh_streamer(config, network),
            r@.wf(),
            r@.indexes_ok(),
    {
        proof {
            crate::network::lemma_network_not_empty(network);
        }
        let size: u32 = network.count();
        let mut unique_indexes: Vec<u32> = Vec::new();
        let mut next: u32 = size - 1;
        while next > 1
            invariant
                size == network.size(),
                size >= 1,
                next <= size - 1,
                size >= 2 ==> next >= 1,
                size < 2 ==> unique_indexes@.len() == 0,
                size >= 2 ==> unique_indexes@.len() == size - 1 - next,
                forall|i: int|
                    0 <= i < unique_indexes@.len() ==> unique_indexes@[i] == size - 2 - i,
            decreases next,
        {
            next = next - 1;
            unique_indexes.push(next);
        }
        proof {
            assert(unique_indexes@ =~= all_indexes(size as int));
            lemma_all_indexes(size as int);
        }
        StreamerInner {
            id: config.id,
            name: config.name,
            address: config.address,
            port: config.port,
            password: config.password,
            relays: Vec::new(),
            unique_indexes,
            tun_ip_network: network,
            destination_address: config.destination_address,
            destination_port: config.destination_port,
        }
    }

    /// The password that relays have to know.
    pub fn password(&self) -> (r: String)
        ensures
            r@ == self@.password,
    {
        self.password.clone()
    }

    /// How many relays are connected.
    pub fn number_of_relays(&self) -> (r: usize)
        ensures
            r == self@.relays.len(),
    {
        self.relays.len()
    }

    /// Where the websocket server listens.
    pub fn listener_address(&self) -> (r: String)
        ensures
            r@ == self@.address + ":"@ + crate::text::decimal_text(self@.port as nat),
    {
        let mut text: String = self.address.clone();
        text.append(":");
        text.append(decimal(self.port as u64).as_str());
        text
    }

    /// How the streamer announces itself over multicast DNS.
    pub fn create_mdns_service_info(&self) -> (r: MdnsServiceInfo)
        ensures
            r.service_type@ == "_moblink._tcp.local."@,
            r.instance_name@ == self@.id,
            r.host_name@ == self@.id + ".local."@,
            r.port == self@.port,
            r.property_name@ == "name"@,
            r.property_value@ == self@.name,
    {
        let mut host_name: String = self.id.clone();
        host_name.append(".local.");
        MdnsServiceInfo {
            service_type: MDNS_SERVICE_TYPE,
            instance_name: self.id.clone(),
            host_name,
            port: self.port,
            property_name: "name",
            property_value: self.name.clone(),
        }
    }

    /// Takes up a relay whose websocket handshake is done: gives it the index
    /// that was not used for longest, and the address at that index.
    pub fn handle_relay_connection(&mut self, relay_ip: String) -> (r: Result<
        Relay,
        ConnectionError,
    >)
        ensures
            final(self)@.wf(),
            old(self)@.indexes_ok() ==> final(self)@.indexes_ok(),
            old(self)@.indexes_ok() ==> (r is Ok <==> old(self)@.relays.len() < capacity(
                old(self)@.tun_ip_network.size(),
            )),
            match r {
                Ok(relay) => {
                    let index = old(self)@.unique_indexes.last();
                    &&& old(self)@.unique_indexes.len() > 0
                    &&& index < old(self)@.tun_ip_network.size()
                    &&& final(self)@ == (StreamerState {
                        relays: old(self)@.relays.push(index),
                        unique_indexes: old(self)@.unique_indexes.drop_last(),
                        ..old(self)@
                    })
                    &&& relay@ == fresh_relay(
                        relay_ip@,
                        relay@.relay_id,
                        relay@.tun_ip_address,
                        index,
                        old(self)@.destination_address,
                        old(self)@.destination_port,
                    )
                    &&& crate::utils::is_uuid_text(relay@.relay_id)
                    &&& exists|address: Ipv4Address|
                        old(self)@.tun_ip_network.is_nth(index, address)
                            && relay@.tun_ip_address == #[trigger] crate::address::ipv4_text(
                            address,
                        )
                },
                Err(ConnectionError::NoUniqueIndex) => old(self)@.unique_indexes.len() == 0
                    && final(self)@ == old(self)@,
                Err(ConnectionError::NoTunAddress) => {
                    let index = old(self)@.unique_indexes.last();
                    &&& old(self)@.unique_indexes.len() > 0
                    &&& index >= old(self)@.tun_ip_network.size()
                    &&& final(self)@ == (StreamerState {
                        unique_indexes: seq![index] + old(self)@.unique_indexes.drop_last(),
                        ..old(self)@
                    })
                },
            },
    {
        proof {
            use_type_invariant(&*self);
        }
        let mut unique_indexes: Vec<u32> = Vec::new();
        std::mem::swap(&mut self.unique_indexes, &mut unique_indexes);
        let popped: Option<u32> = unique_indexes.pop();
        let unique_index: u32 = match popped {
            Some(unique_index) => unique_index,
            None => {
                self.unique_indexes = unique_indexes;
                return Err(ConnectionError::NoUniqueIndex);
            },
        };
        proof {
            assert(old(self)@.unique_indexes.contains(unique_index));
        }
        let address: Ipv4Address = match self.tun_ip_network.nth(unique_index) {
            Some(address) => address,
            None => {
                unique_indexes.insert(0, unique_index);
                proof {
                    assert(unique_indexes@ =~= seq![unique_index] + old(self)@.unique_indexes.drop_last());
                }
                self.unique_indexes = unique_indexes;
                return Err(ConnectionError::NoTunAddress);
            },
        };
        self.unique_indexes = unique_indexes;
        let relay: Relay = Relay::new(
            relay_ip,
            address.to_text(),
            unique_index,
            self.destination_address.clone(),
            self.destination_port,
        );
        self.add_relay(unique_index);
        proof {
            if old(self)@.indexes_ok() {
                lemma_index_taken(old(self)@, self@);
            }
        }
        Ok(relay)
    }

    /// Adds a relay with an index.
    fn add_relay(&mut self, unique_index: u32)
        ensures
            final(self)@ == (StreamerState {
                relays: old(self)@.relays.push(unique_index),
                ..old(self)@
            }),
    {
        proof {
            use_type_invariant(&*self);
        }
        let mut relays: Vec<u32> = Vec::new();
        std::mem::swap(&mut self.relays, &mut relays);
        relays.push(unique_index);
        self.relays = relays;
    }

    /// Takes up that a relay is gone: its index is nobody's again, and is given
    /// away after all others.
    pub fn remove_relay(&mut self, unique_index: u32)
        ensures
            final(self)@ == old(self)@.relay_removed(unique_index),
            final(self)@.wf(),
            old(self)@.indexes_ok() && old(self)@.relays.contains(unique_index) ==> final(self)@.indexes_ok(),
    {
        proof {
            use_type_invariant(&*self);
        }
        let mut unique_indexes: Vec<u32> = Vec::new();
        std::mem::swap(&mut self.unique_indexes, &mut unique_indexes);
        unique_indexes.insert(0, unique_index);
        proof {
            assert(unique_indexes@ =~= seq![unique_index] + old(self)@.unique_indexes);
        }
        self.unique_indexes = unique_indexes;
        let mut relays: Vec<u32> = Vec::new();
        let mut i: usize = 0;
        proof {
            reveal(Seq::filter);
            assert(without(self.relays@.take(0), unique_index) =~= Seq::<u32>::empty());
        }
        while i < self.relays.len()
            invariant
                i <= self.relays@.len(),
                relays@ == without(self.relays@.take(i as int), unique_index),
            decreases self.relays@.len() - i,
        {
            let index: u32 = self.relays[i];
            proof {
                lemma_without_push(self.relays@.take(i as int), index, unique_index);
                assert(self.relays@.take(i + 1) =~= self.relays@.take(i as int).push(index));
            }
            if index != unique_index {
                relays.push(index);
            }
            i = i + 1;
        }
        proof {
            assert(self.relays@.take(self.relays@.len() as int) =~= self.relays@);
        }
        self.relays = relays;
        proof {
            if old(self)@.indexes_ok() && old(self)@.relays.contains(unique_index) {
                lemma_index_returned(old(self)@, self@, unique_index);
            }
        }
    }

    /// Ends the session with a relay: the relay is no longer connected and gives
    /// everything back, and its index is nobody's again.
    pub fn end_session(&mut self, relay: &mut Relay) -> (r: CleanupEffects)
        ensures
            final(relay)@ == old(relay)@.closed(),
            !final(relay)@.connected,
            !final(relay)@.writer,
            r == old(relay)@.cleanup_effects(),
            final(self)@ == old(self)@.relay_removed(old(relay)@.unique_index),
            final(self)@.wf(),
            old(self)@.indexes_ok() && old(self)@.relays.contains(old(relay)@.unique_index)
                ==> final(self)@.indexes_ok(),
    {
        let effects: CleanupEffects = relay.close();
        self.remove_relay(relay.unique_index());
        effects
    }
}

/// Every index is a relay's or nobody's.
proof fn lemma_index_at(state: StreamerState, i: u32)
    requires
        state.indexes_ok(),
    ensures
        state.relays.contains(i) ==> !state.unique_indexes.contains(i),
        state.relays.contains(i) || state.unique_indexes.contains(i) ==> 1 <= i
            < state.tun_ip_network.size() - 1,
        1 <= i < state.tun_ip_network.size() - 1 ==> state.relays.contains(i)
            || state.unique_indexes.contains(i),
{
}

/// All indexes of a network are different, and are those between its first and
/// its last one.
proof fn lemma_all_indexes(size: int)
    requires
        1 <= size <= u32::MAX,
    ensures
        all_indexes(size).no_duplicates(),
        all_indexes(size).len() == capacity(size),
        forall|i: u32| 1 <= i < size - 1 <==> #[trigger] all_indexes(size).contains(i),
{
    assert forall|i: u32| 1 <= i < size - 1 implies #[trigger] all_indexes(size).contains(i) by {
        assert(all_indexes(size)[size - 2 - i] == i);
    }
}

/// Moving the last free index to the relays keeps every index in its one place.
proof fn lemma_index_taken(before: StreamerState, after: StreamerState)
    requires
        before.indexes_ok(),
        before.unique_indexes.len() > 0,
        after == (StreamerState {
            relays: before.relays.push(before.unique_indexes.last()),
            unique_indexes: before.unique_indexes.drop_last(),
            ..before
        }),
    ensures
        after.indexes_ok(),
{
    let index = before.unique_indexes.last();
    assert(before.unique_indexes.contains(index));
    assert forall|i: u32| #[trigger] after.unique_indexes.contains(i) implies
        before.unique_indexes.contains(i) && i != index by {
        let k = choose|k: int| 0 <= k < after.unique_indexes.len() && after.unique_indexes[k] == i;
        assert(before.unique_indexes[k] == i);
    }
    assert forall|i: u32| before.unique_indexes.contains(i) && i != index implies
        #[trigger] after.unique_indexes.contains(i) by {
        let k = choose|k: int|
            0 <= k < before.unique_indexes.len() && before.unique_indexes[k] == i;
        assert(after.unique_indexes[k] == i);
    }
    assert forall|i: u32| #[trigger] after.relays.contains(i) implies before.relays.contains(i)
        || i == index by {
        let k = choose|k: int| 0 <= k < after.relays.len() && after.relays[k] == i;
        if k < before.relays.len() {
            assert(before.relays[k] == i);
        }
    }
    assert forall|i: u32| before.relays.contains(i) || i == index implies
        #[trigger] after.relays.contains(i) by {
        if before.relays.contains(i) {
            let k = choose|k: int| 0 <= k < before.relays.len() && before.relays[k] == i;
            assert(after.relays[k] == i);
        } else {
            assert(after.relays[before.relays.len() as int] == i);
        }
    }
    assert(!before.relays.contains(index));
    let size = before.tun_ip_network.size();
    assert forall|i: u32|
        (1 <= i < size - 1) == (after.relays.contains(i)
            || #[trigger] after.unique_indexes.contains(i)) by {
        lemma_index_at(before, i);
    }
    assert forall|i: u32| after.relays.contains(i) implies !(
    #[trigger] after.unique_indexes.contains(i)) by {
        assert(before.relays.contains(i) ==> !before.unique_indexes.contains(i));
    }
}

/// A list of indexes without one of them.
pub open spec fn without(s: Seq<u32>, index: u32) -> Seq<u32> {
    s.filter(|i: u32| i != index)
}

/// A longer list without an index.
proof fn lemma_without_push(s: Seq<u32>, x: u32, index: u32)
    ensures
        without(s.push(x), index) == if x == index {
            without(s, index)
        } else {
            without(s, index).push(x)
        },
{
    reveal(Seq::filter);
    assert(s.push(x).drop_last() =~= s);
}

/// Taking one index out of a list without duplicates.
proof fn lemma_filter_out(s: Seq<u32>, index: u32)
    requires
        s.no_duplicates(),
    ensures
        without(s, index).no_duplicates(),
        forall|i: u32| #[trigger]
            without(s, index).contains(i) <==> s.contains(i) && i != index,
        without(s, index).len() == s.len() - (if s.contains(index) {
            1int
        } else {
            0int
        }),
    decreases s.len(),
{
    if s.len() == 0 {
        reveal(Seq::filter);
    } else {
        let short = s.drop_last();
        let last = s.last();
        lemma_filter_out(short, index);
        assert(s =~= short.push(last));
        lemma_without_push(short, last, index);
        assert(!short.contains(last)) by {
            if short.contains(last) {
                let k = choose|k: int| 0 <= k < short.len() && short[k] == last;
                assert(s[k] == s[s.len() - 1]);
            }
        }
        assert forall|i: u32| #[trigger] s.contains(i) <==> short.contains(i) || i == last by {
            lemma_push_contains(short, last, i);
        }
        let f = without(short, index);
        assert forall|i: u32| #[trigger] f.push(last).contains(i) <==> f.contains(i) || i
            == last by {
            lemma_push_contains(f, last, i);
        }
        assert(!f.contains(last));
    }
}

/// What a longer list holds.
proof fn lemma_push_contains(s: Seq<u32>, x: u32, i: u32)
    ensures
        s.push(x).contains(i) <==> s.contains(i) || i == x,
{
    if s.contains(i) {
        let k = choose|k: int| 0 <= k < s.len() && s[k] == i;
        assert(s.push(x)[k] == i);
    }
    if i == x {
        assert(s.push(x)[s.len() as int] == i);
    }
}

/// Moving a relay's index back to the free ones keeps every index in its one
/// place.
proof fn lemma_index_returned(before: StreamerState, after: StreamerState, index: u32)
    requires
        before.indexes_ok(),
        before.relays.contains(index),
        after == before.relay_removed(index),
    ensures
        after.indexes_ok(),
{
    lemma_filter_out(before.relays, index);
    assert(!before.unique_indexes.contains(index));
    assert forall|i: u32| #[trigger] after.unique_indexes.contains(i) <==> i == index
        || before.unique_indexes.contains(i) by {
        if before.unique_indexes.contains(i) {
            let k = choose|k: int|
                0 <= k < before.unique_indexes.len() && before.unique_indexes[k] == i;
            assert(after.unique_indexes[k + 1] == i);
        }
        if i == index {
            assert(after.unique_indexes[0] == i);
        }
    }
    let size = before.tun_ip_network.size();
    assert forall|i: u32|
        (1 <= i < size - 1) == (after.relays.contains(i)
            || #[trigger] after.unique_indexes.contains(i)) by {
        lemma_index_at(before, i);
    }
}

/// Two connected relays have different TUN addresses, both of them in the
/// network and neither its first nor its last one.
pub proof fn law_relays_have_their_own_addresses(
    state: StreamerState,
    i: int,
    x: Ipv4Address,
    j: int,
    y: Ipv4Address,
)
    requires
        state.wf(),
        state.indexes_ok(),
        0 <= i < state.relays.len(),
        0 <= j < state.relays.len(),
        i != j,
        state.tun_ip_network.is_nth(state.relays[i], x),
        state.tun_ip_network.is_nth(state.relays[j], y),
    ensures
        x != y,
        crate::address::ipv4_text(x) != crate::address::ipv4_text(y),
        state.tun_ip_network.contains(x),
        crate::network::ipv4_value(x) != state.tun_ip_network.base(),
        crate::network::ipv4_value(x) < state.tun_ip_network.base() + state.tun_ip_network.size()
            - 1,
{
    assert(state.relays.contains(state.relays[i]));
    crate::network::law_network_addresses(
        state.tun_ip_network,
        state.relays[i],
        x,
        state.relays[j],
        y,
    );
    if crate::address::ipv4_text(x) == crate::address::ipv4_text(y) {
        crate::address::law_ipv4_text_unique(x, y);
    }
}

/// When the session with a connected relay ends, its index goes back exactly
/// once and waits behind all other free ones, and the other relays stay as they
/// are, in the order they connected.
pub proof fn law_session_end_returns_the_index(
    state: StreamerState,
    session: StreamerRelayState,
    other: u32,
)
    requires
        state.indexes_ok(),
        state.relays.contains(session.unique_index),
    ensures
        ({
            let index = session.unique_index;
            let after = state.relay_removed(index);
            &&& after.indexes_ok()
            &&& after.unique_indexes[0] == index
            &&& after.unique_indexes.skip(1) == state.unique_indexes
            &&& !state.unique_indexes.contains(index)
            &&& !after.relays.contains(index)
            &&& after.relays.len() == state.relays.len() - 1
            &&& other != index ==> (after.relays.contains(other) <==> state.relays.contains(other))
            &&& session.closed().unique_index == index
        }),
{
    let after = state.relay_removed(session.unique_index);
    lemma_filter_out(state.relays, session.unique_index);
    lemma_index_at(state, session.unique_index);
    lemma_index_returned(state, after, session.unique_index);
    assert(after.unique_indexes.skip(1) =~= state.unique_indexes);
}

/// A relay that connects and whose session then ends leaves the other relays as
/// they were, and the same indexes free.
pub proof fn law_connect_and_end_leave_the_rest(state: StreamerState, index: u32)
    requires
        state.indexes_ok(),
        state.unique_indexes.len() > 0,
    ensures
        ({
            let given = state.unique_indexes.last();
            let connected = StreamerState {
                relays: state.relays.push(given),
                unique_indexes: state.unique_indexes.drop_last(),
                ..state
            };
            let after = connected.relay_removed(given);
            &&& connected.indexes_ok()
            &&& after.indexes_ok()
            &&& after.relays == state.relays
            &&& after.unique_indexes.contains(index) <==> state.unique_indexes.contains(index)
        }),
{
    let given = state.unique_indexes.last();
    let connected = StreamerState {
        relays: state.relays.push(given),
        unique_indexes: state.unique_indexes.drop_last(),
        ..state
    };
    let after = connected.relay_removed(given);
    assert(state.unique_indexes.contains(given));
    lemma_index_taken(state, connected);
    lemma_push_contains(state.relays, given, given);
    lemma_index_returned(connected, after, given);
    lemma_without_push(state.relays, given, given);
    lemma_without_absent(state.relays, given);
    lemma_index_at(state, index);
    lemma_index_at(after, index);
}

/// A list that does not hold an index is the same without it.
proof fn lemma_without_absent(s: Seq<u32>, index: u32)
    requires
        !s.contains(index),
    ensures
        without(s, index) == s,
    decreases s.len(),
{
    if s.len() == 0 {
        reveal(Seq::filter);
        assert(without(s, index) =~= s);
    } else {
        let short = s.drop_last();
        assert(s =~= short.push(s.last()));
        assert(!short.contains(index)) by {
            lemma_push_contains(short, s.last(), index);
        }
        assert(s.contains(s[s.len() - 1]));
        lemma_without_absent(short, index);
        lemma_without_push(short, s.last(), index);
    }
}

/// The index of a relay that is gone is given away again only after all other
/// free ones: of the connections that follow, it is the one after as many as
/// there were free indexes that gets it.
pub proof fn law_freed_index_comes_last(state: StreamerState, index: u32, connections: nat)
    requires
        state.indexes_ok(),
        state.relays.contains(index),
        connections <= state.unique_indexes.len(),
    ensures
        ({
            let free = seq![index] + state.unique_indexes;
            let left = free.take(free.len() - connections);
            left.last() == index <==> connections == state.unique_indexes.len()
        }),
{
    let free = seq![index] + state.unique_indexes;
    let left = free.take(free.len() - connections);
    if connections < state.unique_indexes.len() {
        let k = state.unique_indexes.len() - connections - 1;
        assert(left.last() == state.unique_indexes[k]);
        assert(state.unique_indexes.contains(state.unique_indexes[k]));
    }
}

/// A network with room for relays has one index for each address but its first
/// and its last one, and the lowest one is given away first. The first relays
/// get the indexes 1, 2, 3 and so on.
pub proof fn law_indexes_are_given_in_order(size: int, connections: int)
    requires
        2 <= size <= u32::MAX,
        0 <= connections < size - 2,
    ensures
        capacity(size) == size - 2,
        all_indexes(size).len() == size - 2,
        all_indexes(size).take(size - 2 - connections).last() == connections + 1,
        capacity(1) == 0,
        capacity(2) == 0,
{
}

/// A streamer that no relay is connected to has its configuration as it was
/// given, its network, and all indexes of that free.
pub proof fn law_fresh_streamer(config: StreamerConfig, network: TunNetwork)
    ensures
        ({
            let streamer = fresh_streamer(config, network);
            &&& streamer.id == config.id@ && streamer.name == config.name@
            &&& streamer.address == config.address@ && streamer.port == config.port
            &&& streamer.password == config.password@
            &&& streamer.destination_address == config.destination_address@
            &&& streamer.destination_port == config.destination_port
            &&& streamer.tun_ip_network == network
            &&& streamer.relays.len() == 0
            &&& streamer.unique_indexes == all_indexes(network.size())
        }),
{
}

/// A list without an index is the list with that index left out, in its order.
pub proof fn law_without(s: Seq<u32>, x: u32, index: u32)
    ensures
        without(Seq::empty(), index).len() == 0,
        without(s.push(index), index) == without(s, index),
        x != index ==> without(s.push(x), index) == without(s, index).push(x),
{
    reveal(Seq::filter);
    lemma_without_push(s, x, index);
    lemma_without_push(s, index, index);
}

/// When a relay is gone, only the indexes of the streamer change.
pub proof fn law_removal_changes_only_the_indexes(state: StreamerState, index: u32)
    ensures
        state.relay_removed(index) == (StreamerState {
            relays: without(state.relays, index),
            unique_indexes: seq![index] + state.unique_indexes,
            ..state
        }),
{
}

} // verus!

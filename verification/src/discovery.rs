//! How a single relay finds its streamer.
//!
//! Multicast DNS and the timers are the caller's.
use vstd::arithmetic::power2::{lemma2_to64, lemma_pow2_strictly_increases, lemma_pow2_unfold, pow2};
use vstd::prelude::*;

use crate::address::{IpAddress, Ipv4Address};
use crate::relay::{start_effects_ok, RelayState};
use crate::relay::{Relay, StartEffects, StopEffects};
use crate::text::is_empty;
use crate::web::{streamer_url_text, url_parts};
use crate::web::streamer_url;

verus! {

/// How many times the delay between two searches is doubled.
pub const MAX_DOUBLINGS: u32 = 5;

/// Who a relay is, and where it binds. An empty bind address leaves the relay's
/// own.
#[derive(Debug)]
pub struct RelayOptions {
    pub name: String,
    pub relay_id: String,
    pub password: String,
    pub bind_address: String,
}

/// Whether a streamer may be reached at an address: an IPv4 address that is
/// neither a loopback nor a multicast address.
pub open spec fn reachable(ip: IpAddress) -> Option<Ipv4Address> {
    match ip {
        IpAddress::V4(address) => if address.a == 127 || 224 <= address.a <= 239 {
            None
        } else {
            Some(address)
        },
        IpAddress::V6(_) => None,
    }
}

/// The last of some addresses that a streamer may be reached at.
pub open spec fn last_reachable(addresses: Seq<IpAddress>) -> Option<Ipv4Address>
    decreases addresses.len(),
{
    if addresses.len() == 0 {
        None
    } else {
        match reachable(addresses.last()) {
            Some(address) => Some(address),
            None => last_reachable(addresses.drop_last()),
        }
    }
}

/// The state of a relay that is bound as the options say.
pub open spec fn bound(state: RelayState, options: RelayOptions) -> RelayState {
    if options.bind_address@.len() == 0 {
        state
    } else {
        RelayState { bind_address: options.bind_address@, ..state }
    }
}

/// The state of a relay that is set up for a streamer.
pub open spec fn set_up(state: RelayState, options: RelayOptions, url: Seq<char>) -> RelayState {
    RelayState {
        streamer_url: url,
        password: options.password@,
        relay_id: options.relay_id@,
        name: options.name@,
        on_status_updated: true,
        get_status: true,
        ..state
    }
}

/// The state of a relay that is set up for the last of a streamer's addresses
/// that it may be reached at, where there is one.
pub open spec fn set_up_for(
    state: RelayState,
    options: RelayOptions,
    addresses: Seq<IpAddress>,
    port: u16,
) -> RelayState {
    match last_reachable(addresses) {
        Some(address) => set_up(state, options, streamer_url_text(address, port)),
        None => state,
    }
}

/// Binds a relay as the options say.
fn bind(relay: &mut Relay, options: &RelayOptions)
    ensures
        final(relay)@ == bound(old(relay)@, *options),
{
    if !is_empty(&options.bind_address) {
        relay.set_bind_address(options.bind_address.clone());
    }
}

/// Sets a relay up for a streamer.
fn setup(relay: &mut Relay, options: &RelayOptions, url: String)
    ensures
        final(relay)@ == set_up(old(relay)@, *options, url@),
{
    relay.setup(
        url,
        options.password.clone(),
        options.relay_id.clone(),
        options.name.clone(),
    );
}

/// Starts a relay for a streamer whose web address was given.
pub fn start_manual(relay: &mut Relay, options: &RelayOptions, url: String) -> (r: StartEffects)
    ensures
        ({
            let ready = set_up(bound(old(relay)@, *options), *options, url@);
            if ready.started {
                final(relay)@ == ready && r == StartEffects::Nothing
            } else {
                &&& final(relay)@ == (RelayState { started: true, ..ready })
                &&& start_effects_ok(final(relay)@, url_parts(url@), r)
            }
        }),
{
    bind(relay, options);
    setup(relay, options, url);
    relay.start()
}

/// Takes up a streamer that was found: a relay that is not started yet is set
/// up for it and started.
pub fn handle_streamer_found(
    relay: &mut Relay,
    options: &RelayOptions,
    addresses: &Vec<IpAddress>,
    port: u16,
) -> (r: StartEffects)
    ensures
        ({
            let ready = set_up_for(bound(old(relay)@, *options), *options, addresses@, port);
            if old(relay)@.started {
                final(relay)@ == old(relay)@ && r == StartEffects::Nothing
            } else {
                &&& final(relay)@ == (RelayState { started: true, ..ready })
                &&& start_effects_ok(final(relay)@, url_parts(ready.streamer_url), r)
            }
        }),
{
    if relay.is_started() {
        return StartEffects::Nothing;
    }
    bind(relay, options);
    let ghost state = relay@;
    let mut i: usize = 0;
    proof {
        assert(addresses@.take(0) =~= Seq::<IpAddress>::empty());
    }
    while i < addresses.len()
        invariant
            i <= addresses@.len(),
            relay@ == set_up_for(state, *options, addresses@.take(i as int), port),
        decreases addresses@.len() - i,
    {
        proof {
            assert(addresses@.take(i + 1).drop_last() =~= addresses@.take(i as int));
            assert(addresses@.take(i + 1).last() == addresses@[i as int]);
        }
        if let IpAddress::V4(address) = addresses[i] {
            if !address.is_loopback() && !address.is_multicast() {
                setup(relay, options, streamer_url(address, port));
            }
        }
        i = i + 1;
    }
    proof {
        assert(addresses@.take(i as int) =~= addresses@);
    }
    relay.start()
}

/// Takes up that a streamer is gone: the relay is stopped.
pub fn handle_streamer_gone(relay: &mut Relay) -> (r: Option<StopEffects>)
    ensures
        final(relay)@ == old(relay)@.after_stopped(),
        r == if old(relay)@.started {
            Some((RelayState { started: false, ..old(relay)@ }).stop_effects())
        } else {
            None
        },
{
    relay.stop()
}

/// How long to wait between two searches.
#[derive(Debug)]
pub struct Backoff {
    retries: u32,
}

impl View for Backoff {
    type V = nat;

    closed spec fn view(&self) -> nat {
        self.retries as nat
    }
}

/// How often a search was repeated, once more, as far as it is counted.
pub open spec fn one_more(retries: nat) -> nat {
    if retries < MAX_DOUBLINGS {
        retries + 1
    } else {
        MAX_DOUBLINGS as nat
    }
}

/// How often a search was repeated, as far as it is counted, after some
/// searches.
pub open spec fn retries_after(searches: nat) -> nat
    decreases searches,
{
    if searches == 0 {
        0
    } else {
        one_more(retries_after((searches - 1) as nat))
    }
}

impl Backoff {
    /// The delay is doubled only so many times.
    #[verifier::type_invariant]
    spec fn retries_counted(self) -> bool {
        self.retries <= MAX_DOUBLINGS
    }

    /// No search was repeated yet.
    pub fn new() -> (r: Backoff)
        ensures
            r@ == 0,
    {
        Backoff { retries: 0 }
    }

    /// How many seconds to wait before the next search.
    pub fn next_delay(&mut self) -> (r: u64)
        ensures
            r == pow2(old(self)@),
            old(self)@ <= MAX_DOUBLINGS,
            final(self)@ == one_more(old(self)@),
    {
        proof {
            use_type_invariant(&*self);
        }
        let retries: u32 = self.retries;
        let mut delay: u64 = 1;
        let mut i: u32 = 0;
        proof {
            lemma2_to64();
        }
        while i < retries
            invariant
                i <= retries <= MAX_DOUBLINGS,
                delay == pow2(i as nat),
            decreases retries - i,
        {
            proof {
                lemma2_to64();
                lemma_pow2_unfold((i + 1) as nat);
                lemma_pow2_strictly_increases(i as nat, MAX_DOUBLINGS as nat);
            }
            delay = delay * 2;
            i = i + 1;
        }
        self.retries = if retries < MAX_DOUBLINGS {
            retries + 1
        } else {
            MAX_DOUBLINGS
        };
        delay
    }
}

/// The delay before the first search is repeated is one second. It doubles up
/// to 32 seconds and stays there.
pub proof fn law_delays_double(searches: nat)
    ensures
        retries_after(searches) <= MAX_DOUBLINGS,
        searches <= MAX_DOUBLINGS ==> retries_after(searches) == searches,
        searches >= MAX_DOUBLINGS ==> pow2(retries_after(searches)) == 32,
        pow2(retries_after(0)) == 1,
        searches < MAX_DOUBLINGS ==> pow2(retries_after(searches + 1)) == 2 * pow2(
            retries_after(searches),
        ),
        1 <= pow2(retries_after(searches)) <= 32,
    decreases searches,
{
    reveal_with_fuel(retries_after, 2);
    lemma2_to64();
    if searches > 0 {
        law_delays_double((searches - 1) as nat);
    }
    let retries = retries_after(searches);
    if retries < MAX_DOUBLINGS {
        lemma_pow2_unfold(retries + 1);
        lemma_pow2_strictly_increases(retries, MAX_DOUBLINGS as nat);
    }
    if retries > 0 {
        lemma_pow2_strictly_increases(0, retries);
    }
}

/// A streamer may be reached at any IPv4 address but 127.x.x.x and 224.x.x.x to
/// 239.x.x.x, and at no IPv6 address.
pub proof fn law_reachable(address: Ipv4Address, v6: crate::address::Ipv6Address)
    ensures
        reachable(IpAddress::V4(address)) == Some(address) <==> address.a != 127 && !(224
            <= address.a && address.a <= 239),
        reachable(IpAddress::V4(address)) is None <==> address.a == 127 || 224 <= address.a <= 239,
        reachable(IpAddress::V6(v6)) is None,
{
}

/// Of a streamer's addresses the last one counts that it may be reached at.
pub proof fn law_last_reachable(addresses: Seq<IpAddress>)
    ensures
        match last_reachable(addresses) {
            Some(address) => exists|i: int|
                {
                    &&& 0 <= i < addresses.len()
                    &&& #[trigger] addresses[i] == IpAddress::V4(address)
                    &&& address.a != 127 && !(224 <= address.a <= 239)
                    &&& forall|j: int|
                        i < j < addresses.len() ==> match #[trigger] addresses[j] {
                            IpAddress::V4(other) => other.a == 127 || 224 <= other.a <= 239,
                            IpAddress::V6(_) => true,
                        }
                },
            None => forall|j: int|
                0 <= j < addresses.len() ==> match #[trigger] addresses[j] {
                    IpAddress::V4(other) => other.a == 127 || 224 <= other.a <= 239,
                    IpAddress::V6(_) => true,
                },
        },
    decreases addresses.len(),
{
    if addresses.len() > 0 {
        let fewer = addresses.drop_last();
        let last = addresses.len() - 1;
        law_last_reachable(fewer);
        assert forall|j: int| 0 <= j < last implies addresses[j] == fewer[j] by {}
        if reachable(addresses[last]) is Some {
            assert(addresses[last] == IpAddress::V4(last_reachable(addresses)->0));
        } else if let Some(address) = last_reachable(fewer) {
            let i = choose|i: int|
                {
                    &&& 0 <= i < fewer.len()
                    &&& #[trigger] fewer[i] == IpAddress::V4(address)
                    &&& address.a != 127 && !(224 <= address.a <= 239)
                    &&& forall|j: int|
                        i < j < fewer.len() ==> match #[trigger] fewer[j] {
                            IpAddress::V4(other) => other.a == 127 || 224 <= other.a <= 239,
                            IpAddress::V6(_) => true,
                        }
                };
            assert(addresses[i] == IpAddress::V4(address));
            assert forall|j: int| i < j < addresses.len() implies match #[trigger] addresses[j] {
                IpAddress::V4(other) => other.a == 127 || 224 <= other.a <= 239,
                IpAddress::V6(_) => true,
            } by {
                if j < last {
                    assert(fewer[j] == addresses[j]);
                }
            }
        } else {
            assert forall|j: int| 0 <= j < addresses.len() implies match #[trigger] addresses[j] {
                IpAddress::V4(other) => other.a == 127 || 224 <= other.a <= 239,
                IpAddress::V6(_) => true,
            } by {
                if j < last {
                    assert(fewer[j] == addresses[j]);
                }
            }
        }
    }
}

/// A relay that finds a streamer is set up with its options for the streamer at
/// the last of its addresses that it may be reached at, and nothing else of it
/// changes. Where there is no such address, it is only bound.
pub proof fn law_set_up_for_a_found_streamer(
    state: RelayState,
    options: RelayOptions,
    addresses: Seq<IpAddress>,
    port: u16,
)
    ensures
        ({
            let ready = set_up_for(bound(state, options), options, addresses, port);
            &&& ready.bind_address == if options.bind_address@.len() == 0 {
                state.bind_address
            } else {
                options.bind_address@
            }
            &&& match last_reachable(addresses) {
                Some(address) => {
                    &&& ready.streamer_url == "ws://"@ + crate::address::ipv4_text(address) + ":"@
                        + crate::text::decimal_text(port as nat)
                    &&& ready.password == options.password@
                    &&& ready.relay_id == options.relay_id@
                    &&& ready.name == options.name@
                    &&& ready.on_status_updated && ready.get_status
                },
                None => {
                    &&& ready.streamer_url == state.streamer_url
                    &&& ready.password == state.password
                    &&& ready.relay_id == state.relay_id
                    &&& ready.name == state.name
                    &&& ready.on_status_updated == state.on_status_updated
                    &&& ready.get_status == state.get_status
                },
            }
            &&& ready.ws_writer == state.ws_writer && ready.started == state.started
            &&& ready.connected == state.connected && ready.wrong_password == state.wrong_password
            &&& ready.reconnect_on_tunnel_error == state.reconnect_on_tunnel_error
            &&& ready.start_on_reconnect_soon == state.start_on_reconnect_soon
            &&& ready.tunnels == state.tunnels && ready.timers == state.timers
        }),
{
}

/// A relay for a streamer whose web address was given is set up with its
/// options for that address, and nothing else of it changes.
pub proof fn law_set_up_for_a_given_streamer(
    state: RelayState,
    options: RelayOptions,
    url: Seq<char>,
)
    ensures
        ({
            let ready = set_up(bound(state, options), options, url);
            &&& ready.bind_address == if options.bind_address@.len() == 0 {
                state.bind_address
            } else {
                options.bind_address@
            }
            &&& ready.streamer_url == url
            &&& ready.password == options.password@
            &&& ready.relay_id == options.relay_id@
            &&& ready.name == options.name@
            &&& ready.on_status_updated && ready.get_status
            &&& ready.ws_writer == state.ws_writer && ready.started == state.started
            &&& ready.connected == state.connected && ready.wrong_password == state.wrong_password
            &&& ready.reconnect_on_tunnel_error == state.reconnect_on_tunnel_error
            &&& ready.start_on_reconnect_soon == state.start_on_reconnect_soon
            &&& ready.tunnels == state.tunnels && ready.timers == state.timers
        }),
{
}

/// A relay that is not started and finds a streamer at one address alone
/// connects to it there, where it may be reached at it.
pub proof fn law_found_streamer_is_connected_to(
    state: RelayState,
    options: RelayOptions,
    address: Ipv4Address,
    port: u16,
    effects: StartEffects,
)
    requires
        address.a != 127,
        address.a < 224 || address.a > 239,
        ({
            let ready = set_up_for(
                bound(state, options),
                options,
                seq![IpAddress::V4(address)],
                port,
            );
            start_effects_ok(
                RelayState { started: true, ..ready },
                url_parts(ready.streamer_url),
                effects,
            )
        }),
    ensures
        ({
            let url = "ws://"@ + crate::address::ipv4_text(address) + ":"@
                + crate::text::decimal_text(port as nat);
            match url_parts(url) {
                Some((text, _)) => effects matches StartEffects::Connect(connected) && connected@
                    == text,
                None => effects == StartEffects::Nothing,
            }
        }),
{
    reveal_with_fuel(last_reachable, 2);
    law_last_reachable(seq![IpAddress::V4(address)]);
}

} // verus!

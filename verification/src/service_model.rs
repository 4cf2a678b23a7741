//! What a relay service does, as plain values, and what holds of it.
use std::path::PathBuf;

use vstd::prelude::*;

use crate::address::{first_ipv4, ipv4_text};
use crate::address::Ipv4Address;
use crate::database::{with_relay_id, DatabaseInfo};
use crate::interfaces::{views, FilterInfo, InterfaceInfo};
use crate::relay::RelayState;
use crate::relay::Status;
use crate::relay_service::{RuntimeStatus, StartedRelay, UpdateEffects};
use crate::utils::is_uuid_text;
use crate::web::{host_text, url_parts};

verus! {

/// A streamer that relays connect to, as plain values.
pub struct StreamerInfo {
    pub name: Seq<char>,
    pub url: Seq<char>,
}

/// The relay of an interface and a streamer, as plain values.
pub struct RelayInfo {
    pub interface_name: Seq<char>,
    pub interface_address: Ipv4Address,
    pub streamer_name: Seq<char>,
    pub streamer_url: Seq<char>,
}

/// The state of a relay that a service has just started.
pub open spec fn started_relay_state(
    info: RelayInfo,
    relay_name: Seq<char>,
    password: Seq<char>,
    relay_id: Seq<char>,
) -> RelayState {
    RelayState {
        bind_address: ipv4_text(info.interface_address),
        relay_id,
        streamer_url: info.streamer_url,
        password,
        name: relay_name,
        on_status_updated: true,
        get_status: true,
        ws_writer: false,
        started: true,
        connected: false,
        wrong_password: false,
        reconnect_on_tunnel_error: None,
        start_on_reconnect_soon: None,
        tunnels: Seq::empty(),
        timers: Seq::empty(),
    }
}

/// A relay service's state as plain values.
pub struct RelayServiceState {
    pub password: Seq<char>,
    pub network_interface_filter: FilterInfo,
    pub manual_streamers: Seq<StreamerInfo>,
    pub interface_name_overrides: Map<Seq<char>, Seq<char>>,
    pub runtime_status_file: Option<PathBuf>,
    pub status: Status,
    pub relays: Seq<RelayInfo>,
    pub network_interfaces: Seq<InterfaceInfo>,
    pub streamers: Seq<StreamerInfo>,
    pub database: DatabaseInfo,
}

/// Whether there is a relay for an interface's address and a streamer's web
/// address.
pub open spec fn already_added(
    relays: Seq<RelayInfo>,
    interface_address: Ipv4Address,
    streamer_url: Seq<char>,
) -> bool {
    exists|i: int|
        0 <= i < relays.len() && (#[trigger] relays[i]).interface_address == interface_address
            && relays[i].streamer_url == streamer_url
}

/// The relays once each of the streamers has one for an interface's address.
pub open spec fn with_relays_of(
    relays: Seq<RelayInfo>,
    interface_name: Seq<char>,
    interface_address: Ipv4Address,
    streamers: Seq<StreamerInfo>,
) -> Seq<RelayInfo>
    decreases streamers.len(),
{
    if streamers.len() == 0 {
        relays
    } else {
        let before = with_relays_of(
            relays,
            interface_name,
            interface_address,
            streamers.drop_last(),
        );
        let streamer = streamers.last();
        if already_added(before, interface_address, streamer.url) {
            before
        } else {
            before.push(
                RelayInfo {
                    interface_name,
                    interface_address,
                    streamer_name: streamer.name,
                    streamer_url: streamer.url,
                },
            )
        }
    }
}

/// The address that the relays of an interface are bound to: its first IPv4
/// address, unless that is a loopback address.
pub open spec fn usable_address(interface: InterfaceInfo) -> Option<Ipv4Address> {
    match first_ipv4(interface.addresses) {
        Some(address) => if address.a == 127 {
            None
        } else {
            Some(address)
        },
        None => None,
    }
}

/// The relays once each interface and streamer has one.
pub open spec fn with_all_relays(
    relays: Seq<RelayInfo>,
    interfaces: Seq<InterfaceInfo>,
    streamers: Seq<StreamerInfo>,
) -> Seq<RelayInfo>
    decreases interfaces.len(),
{
    if interfaces.len() == 0 {
        relays
    } else {
        let before = with_all_relays(relays, interfaces.drop_last(), streamers);
        match usable_address(interfaces.last()) {
            Some(address) => with_relays_of(before, interfaces.last().name, address, streamers),
            None => before,
        }
    }
}

/// Whether an address is the first IPv4 address of one of the interfaces.
pub open spec fn is_first_address(interfaces: Seq<InterfaceInfo>, address: Ipv4Address) -> bool {
    exists|i: int|
        0 <= i < interfaces.len() && first_ipv4((#[trigger] interfaces[i]).addresses) == Some(
            address,
        )
}

/// The relays whose interface's address is still there.
pub open spec fn kept_relays(
    relays: Seq<RelayInfo>,
    interfaces: Seq<InterfaceInfo>,
) -> Seq<RelayInfo> {
    relays.filter(|relay: RelayInfo| is_first_address(interfaces, relay.interface_address))
}

/// The relays whose interface's address is gone.
pub open spec fn gone_relays(
    relays: Seq<RelayInfo>,
    interfaces: Seq<InterfaceInfo>,
) -> Seq<RelayInfo> {
    relays.filter(|relay: RelayInfo| !is_first_address(interfaces, relay.interface_address))
}

impl RelayServiceState {
    /// The name of the relays of an interface: its label where it has one, else
    /// its own.
    pub open spec fn relay_name(self, interface_name: Seq<char>) -> Seq<char> {
        if self.interface_name_overrides.contains_key(interface_name) {
            self.interface_name_overrides[interface_name]
        } else {
            interface_name
        }
    }

    /// Whether this is the start of a relay of this service.
    pub open spec fn starts(self, started: StartedRelay, info: RelayInfo) -> bool {
        started.is_start_of(
            info,
            self.relay_name(info.interface_name),
            self.password,
            self.database.relay_ids[info.interface_name],
        )
    }

    /// Whether this state is that of the service earlier with some relays
    /// added, and these are their starts. Known identities stay, and each new
    /// one is that of an added relay's interface.
    pub open spec fn extends(
        self,
        before: RelayServiceState,
        started: Seq<StartedRelay>,
        store_database: bool,
    ) -> bool {
        let ids = self.database.relay_ids;
        let old_ids = before.database.relay_ids;
        let count = before.relays.len() as int;
        &&& self == (RelayServiceState {
            relays: self.relays,
            database: DatabaseInfo { relay_ids: ids, ..before.database },
            ..before
        })
        &&& self.relays.len() == count + started.len()
        &&& self.relays.take(count) == before.relays
        &&& forall|i: int|
            0 <= i < started.len() ==> self.starts(#[trigger] started[i], self.relays[count + i])
        &&& forall|name: Seq<char>| #[trigger]
            old_ids.contains_key(name) ==> ids.contains_key(name) && ids[name] == old_ids[name]
        &&& forall|name: Seq<char>| #[trigger]
            ids.contains_key(name) && !old_ids.contains_key(name) ==> is_uuid_text(ids[name])
                && exists|i: int|
                count <= i < self.relays.len() && (#[trigger] self.relays[i]).interface_name == name
        &&& forall|i: int|
            count <= i < self.relays.len() ==> ids.contains_key(
                (#[trigger] self.relays[i]).interface_name,
            )
        &&& store_database == (ids != old_ids)
    }
}

/// Whether a status shows a service.
pub open spec fn shows_service(state: RelayServiceState, status: RuntimeStatus) -> bool {
    &&& status.connected == (state.relays.len() > 0)
    &&& status.manual_streamer == (state.manual_streamers.len() > 0)
    &&& status.streamers@.len() == state.streamers.len()
    &&& forall|i: int|
        0 <= i < state.streamers.len() ==> (#[trigger] status.streamers@[i]).shows(
            state.streamers[i],
            host_text(url_parts(state.streamers[i].url)),
        )
    &&& status.relays@.len() == state.relays.len()
    &&& forall|i: int|
        0 <= i < state.relays.len() ==> (#[trigger] status.relays@[i]).shows(
            state.relays[i],
            host_text(url_parts(state.relays[i].streamer_url)),
        )
}

/// A service is shown only where there is a file to show it in.
pub open spec fn runtime_status_ok(state: RelayServiceState, status: Option<RuntimeStatus>) -> bool {
    match state.runtime_status_file {
        Some(_) => status matches Some(status) && shows_service(state, status),
        None => status is None,
    }
}

/// Whether an update takes a service from one state to another one and takes
/// what it should.
pub open spec fn update_ok(
    before: RelayServiceState,
    after: RelayServiceState,
    effects: UpdateEffects,
) -> bool {
    let relays = with_all_relays(before.relays, before.network_interfaces, before.streamers);
    &&& (RelayServiceState { relays, ..after }).extends(
        before,
        effects.started@,
        effects.store_database,
    )
    &&& after.relays == kept_relays(relays, before.network_interfaces)
    &&& views(effects.stopped@) == gone_relays(relays, before.network_interfaces)
    &&& runtime_status_ok(after, effects.runtime_status)
}

/// The streamers with another web address.
pub open spec fn other_streamers(streamers: Seq<StreamerInfo>, url: Seq<char>) -> Seq<StreamerInfo> {
    streamers.filter(|streamer: StreamerInfo| streamer.url != url)
}

/// The streamers once one was added, in place of one with the same web address.
pub open spec fn with_streamer(
    streamers: Seq<StreamerInfo>,
    name: Seq<char>,
    url: Seq<char>,
) -> Seq<StreamerInfo> {
    other_streamers(streamers, url).push(StreamerInfo { name, url })
}

/// Whether a streamer that was found counts: it has a name and an address, and
/// no address of it is one of this machine.
pub open spec fn found_counts(
    name: Option<String>,
    addresses: Seq<Ipv4Address>,
    interfaces: Seq<InterfaceInfo>,
) -> bool {
    &&& name is Some
    &&& addresses.len() > 0
    &&& forall|i: int|
        0 <= i < addresses.len() ==> !crate::interfaces::belongs(
            #[trigger] addresses[i],
            interfaces,
        )
}

/// A state extends itself by nothing.
pub proof fn lemma_extends_itself(state: RelayServiceState)
    ensures
        state.extends(state, Seq::empty(), false),
{
    assert(state.relays.take(state.relays.len() as int) =~= state.relays);
}

/// A state that extends another one still does so with one relay more.
pub proof fn lemma_extends_by_one(
    first: RelayServiceState,
    before: RelayServiceState,
    started: Seq<StartedRelay>,
    store_database: bool,
    after: RelayServiceState,
    relay: StartedRelay,
    is_new: bool,
)
    requires
        before.extends(first, started, store_database),
        after.relays.len() == before.relays.len() + 1,
        after == (RelayServiceState {
            relays: before.relays.push(after.relays.last()),
            database: DatabaseInfo {
                relay_ids: with_relay_id(
                    before.database.relay_ids,
                    after.relays.last().interface_name,
                    after.database.relay_ids[after.relays.last().interface_name],
                ),
                ..before.database
            },
            ..before
        }),
        after.starts(relay, after.relays.last()),
        is_new == !before.database.relay_ids.contains_key(after.relays.last().interface_name),
        is_new ==> is_uuid_text(
            after.database.relay_ids[after.relays.last().interface_name],
        ),
    ensures
        after.extends(first, started.push(relay), store_database || is_new),
{
    lemma_extends_itself(before);
    assert(after.relays.take(before.relays.len() as int) =~= before.relays);
    assert(after.extends(before, seq![relay], is_new)) by {
        let name = after.relays.last().interface_name;
        assert(after.relays[before.relays.len() as int].interface_name == name);
        if is_new {
            assert(after.database.relay_ids.contains_key(name));
        }
    }
    lemma_extends_further(first, before, started, store_database, after, seq![relay], is_new);
    assert(started + seq![relay] =~= started.push(relay));
}

/// An extension of an extension is an extension.
pub proof fn lemma_extends_further(
    first: RelayServiceState,
    before: RelayServiceState,
    started: Seq<StartedRelay>,
    store_database: bool,
    after: RelayServiceState,
    more: Seq<StartedRelay>,
    more_new: bool,
)
    requires
        before.extends(first, started, store_database),
        after.extends(before, more, more_new),
    ensures
        after.extends(first, started + more, store_database || more_new),
{
    let count = first.relays.len() as int;
    let middle = before.relays.len() as int;
    let all = started + more;
    assert(after.relays.take(count) =~= first.relays) by {
        assert forall|i: int| 0 <= i < count implies after.relays[i] == first.relays[i] by {
            assert(after.relays.take(middle)[i] == before.relays[i]);
            assert(before.relays.take(count)[i] == first.relays[i]);
        }
    }
    assert forall|i: int| 0 <= i < middle implies after.relays[i] == before.relays[i] by {
        assert(after.relays.take(middle)[i] == before.relays[i]);
    }
    let ids = after.database.relay_ids;
    let middle_ids = before.database.relay_ids;
    let old_ids = first.database.relay_ids;
    assert forall|i: int| 0 <= i < all.len() implies after.starts(
        #[trigger] all[i],
        after.relays[count + i],
    ) by {
        if i < started.len() {
            let info = before.relays[count + i];
            assert(before.starts(started[i], info));
            assert(middle_ids.contains_key(info.interface_name));
            assert(after.relays[count + i] == info);
        } else {
            let j = i - started.len();
            assert(after.starts(more[j], after.relays[middle + j]));
        }
    }
    assert forall|name: Seq<char>| #[trigger]
        ids.contains_key(name) && !old_ids.contains_key(name) implies is_uuid_text(ids[name])
        && exists|i: int|
        count <= i < after.relays.len() && (#[trigger] after.relays[i]).interface_name == name by {
        if middle_ids.contains_key(name) {
            let i = choose|i: int|
                count <= i < before.relays.len() && (#[trigger] before.relays[i]).interface_name
                    == name;
            assert(after.relays[i].interface_name == name);
        }
    }
    assert forall|i: int| count <= i < after.relays.len() implies ids.contains_key(
        (#[trigger] after.relays[i]).interface_name,
    ) by {
        if i < middle {
            assert(middle_ids.contains_key(before.relays[i].interface_name));
        }
    }
    if store_database || more_new {
        if ids == old_ids {
            assert(middle_ids =~= old_ids) by {
                assert forall|name: Seq<char>| #[trigger]
                    middle_ids.contains_key(name) implies old_ids.contains_key(name) by {
                    assert(ids.contains_key(name));
                }
            }
        }
    }
}

/// One more relay that is kept or gone.
pub proof fn lemma_relays_push(relays: Seq<RelayInfo>, relay: RelayInfo, interfaces: Seq<InterfaceInfo>)
    ensures
        kept_relays(relays.push(relay), interfaces) == if is_first_address(
            interfaces,
            relay.interface_address,
        ) {
            kept_relays(relays, interfaces).push(relay)
        } else {
            kept_relays(relays, interfaces)
        },
        gone_relays(relays.push(relay), interfaces) == if is_first_address(
            interfaces,
            relay.interface_address,
        ) {
            gone_relays(relays, interfaces)
        } else {
            gone_relays(relays, interfaces).push(relay)
        },
{
    reveal(Seq::filter);
    assert(relays.push(relay).drop_last() =~= relays);
}

/// Whether no two relays have the same interface's address and the same
/// streamer's web address.
pub open spec fn all_different(relays: Seq<RelayInfo>) -> bool {
    forall|i: int, j: int|
        0 <= i < j < relays.len() ==> (#[trigger] relays[i]).interface_address != (
        #[trigger] relays[j]).interface_address || relays[i].streamer_url != relays[j].streamer_url
}

/// Whether one of the streamers has a web address.
pub open spec fn is_streamer_url(streamers: Seq<StreamerInfo>, url: Seq<char>) -> bool {
    exists|i: int| 0 <= i < streamers.len() && (#[trigger] streamers[i]).url == url
}

/// Whether the relays of an interface of this machine are bound to an address.
pub open spec fn is_usable(interfaces: Seq<InterfaceInfo>, address: Ipv4Address) -> bool {
    exists|i: int|
        0 <= i < interfaces.len() && usable_address(#[trigger] interfaces[i]) == Some(address)
}

impl RelayServiceState {
    /// No relay runs twice, none on a loopback address, and each for a streamer
    /// that is known.
    pub open spec fn relays_ok(self) -> bool {
        &&& all_different(self.relays)
        &&& forall|i: int|
            0 <= i < self.relays.len() ==> (#[trigger] self.relays[i]).interface_address.a != 127
        &&& forall|i: int|
            0 <= i < self.relays.len() ==> is_streamer_url(
                self.streamers,
                (#[trigger] self.relays[i]).streamer_url,
            )
    }
}

/// The relays that are added for an interface.
proof fn lemma_relays_of(
    relays: Seq<RelayInfo>,
    interface_name: Seq<char>,
    interface_address: Ipv4Address,
    streamers: Seq<StreamerInfo>,
)
    ensures
        ({
            let all = with_relays_of(relays, interface_name, interface_address, streamers);
            &&& relays.len() <= all.len()
            &&& all.take(relays.len() as int) == relays
            &&& forall|i: int|
                relays.len() <= i < all.len() ==> (#[trigger] all[i]).interface_address
                    == interface_address && is_streamer_url(streamers, all[i].streamer_url)
            &&& forall|i: int|
                0 <= i < streamers.len() ==> already_added(
                    all,
                    interface_address,
                    (#[trigger] streamers[i]).url,
                )
            &&& all_different(relays) ==> all_different(all)
            &&& (forall|i: int|
                0 <= i < streamers.len() ==> already_added(
                    relays,
                    interface_address,
                    (#[trigger] streamers[i]).url,
                )) ==> all == relays
        }),
    decreases streamers.len(),
{
    let all = with_relays_of(relays, interface_name, interface_address, streamers);
    if streamers.len() == 0 {
        assert(relays.take(relays.len() as int) =~= relays);
    } else {
        let fewer = streamers.drop_last();
        let last = streamers.len() - 1;
        let before = with_relays_of(relays, interface_name, interface_address, fewer);
        lemma_relays_of(relays, interface_name, interface_address, fewer);
        assert(all.take(relays.len() as int) =~= relays);
        assert forall|i: int| 0 <= i < streamers.len() implies already_added(
            all,
            interface_address,
            (#[trigger] streamers[i]).url,
        ) by {
            if i < last {
                assert(already_added(before, interface_address, fewer[i].url));
                let k = choose|k: int|
                    0 <= k < before.len() && (#[trigger] before[k]).interface_address
                        == interface_address && before[k].streamer_url == fewer[i].url;
                assert(all[k] == before[k]);
            } else if !already_added(before, interface_address, streamers[last].url) {
                assert(all[before.len() as int].streamer_url == streamers[last].url);
            }
        }
        assert forall|i: int| relays.len() <= i < all.len() implies (
        #[trigger] all[i]).interface_address == interface_address && is_streamer_url(
            streamers,
            all[i].streamer_url,
        ) by {
            if i < before.len() {
                assert(all[i] == before[i]);
                let k = choose|k: int|
                    0 <= k < fewer.len() && (#[trigger] fewer[k]).url == before[i].streamer_url;
                assert(streamers[k].url == before[i].streamer_url);
            } else {
                assert(streamers[last].url == all[i].streamer_url);
            }
        }
        if all_different(relays) {
            assert forall|i: int, j: int| 0 <= i < j < all.len() implies (
            #[trigger] all[i]).interface_address != (#[trigger] all[j]).interface_address
                || all[i].streamer_url != all[j].streamer_url by {
                assert(all[i] == before[i]);
                if j < before.len() {
                    assert(all[j] == before[j]);
                }
            }
        }
        if forall|i: int|
            0 <= i < streamers.len() ==> already_added(
                relays,
                interface_address,
                (#[trigger] streamers[i]).url,
            ) {
            assert forall|i: int| 0 <= i < fewer.len() implies already_added(
                relays,
                interface_address,
                (#[trigger] fewer[i]).url,
            ) by {
                assert(streamers[i] == fewer[i]);
            }
            assert(already_added(relays, interface_address, streamers[last].url));
        }
    }
}

/// What was added stays added when there are more relays.
proof fn lemma_added_stays(
    relays: Seq<RelayInfo>,
    more: Seq<RelayInfo>,
    address: Ipv4Address,
    url: Seq<char>,
)
    requires
        relays.len() <= more.len(),
        more.take(relays.len() as int) == relays,
        already_added(relays, address, url),
    ensures
        already_added(more, address, url),
{
    let k = choose|k: int|
        0 <= k < relays.len() && (#[trigger] relays[k]).interface_address == address
            && relays[k].streamer_url == url;
    assert(more.take(relays.len() as int)[k] == more[k]);
}

/// The relays that are added for all interfaces.
proof fn lemma_all_relays(
    relays: Seq<RelayInfo>,
    interfaces: Seq<InterfaceInfo>,
    streamers: Seq<StreamerInfo>,
)
    ensures
        ({
            let all = with_all_relays(relays, interfaces, streamers);
            &&& relays.len() <= all.len()
            &&& all.take(relays.len() as int) == relays
            &&& forall|i: int|
                relays.len() <= i < all.len() ==> is_usable(
                    interfaces,
                    (#[trigger] all[i]).interface_address,
                ) && is_streamer_url(streamers, all[i].streamer_url)
            &&& forall|i: int, j: int, address: Ipv4Address|
                0 <= i < interfaces.len() && 0 <= j < streamers.len() && usable_address(
                    #[trigger] interfaces[i],
                ) == Some(address) ==> #[trigger] already_added(all, address, streamers[j].url)
            &&& all_different(relays) ==> all_different(all)
            &&& (forall|i: int, j: int, address: Ipv4Address|
                0 <= i < interfaces.len() && 0 <= j < streamers.len() && usable_address(
                    #[trigger] interfaces[i],
                ) == Some(address) ==> #[trigger] already_added(relays, address, streamers[j].url))
                ==> all == relays
        }),
    decreases interfaces.len(),
{
    let all = with_all_relays(relays, interfaces, streamers);
    if interfaces.len() == 0 {
        assert(relays.take(relays.len() as int) =~= relays);
    } else {
        let fewer = interfaces.drop_last();
        let last = interfaces.len() - 1;
        let before = with_all_relays(relays, fewer, streamers);
        lemma_all_relays(relays, fewer, streamers);
        if let Some(address) = usable_address(interfaces[last]) {
            lemma_relays_of(before, interfaces[last].name, address, streamers);
        } else {
            assert(all.take(before.len() as int) =~= before);
        }
        assert(all.take(relays.len() as int) =~= relays) by {
            assert forall|i: int| 0 <= i < relays.len() implies all[i] == relays[i] by {
                assert(all.take(before.len() as int)[i] == before[i]);
                assert(before.take(relays.len() as int)[i] == relays[i]);
            }
        }
        assert forall|i: int| relays.len() <= i < all.len() implies is_usable(
            interfaces,
            (#[trigger] all[i]).interface_address,
        ) && is_streamer_url(streamers, all[i].streamer_url) by {
            if i < before.len() {
                assert(all.take(before.len() as int)[i] == before[i]);
                let k = choose|k: int|
                    0 <= k < fewer.len() && usable_address(#[trigger] fewer[k]) == Some(
                        before[i].interface_address,
                    );
                assert(interfaces[k] == fewer[k]);
            } else {
                assert(usable_address(interfaces[last]) == Some(all[i].interface_address));
            }
        }
        assert forall|i: int, j: int, address: Ipv4Address|
            0 <= i < interfaces.len() && 0 <= j < streamers.len() && usable_address(
                #[trigger] interfaces[i],
            ) == Some(address) implies #[trigger] already_added(
            all,
            address,
            streamers[j].url,
        ) by {
            if i < last {
                assert(fewer[i] == interfaces[i]);
                assert(already_added(before, address, streamers[j].url));
                lemma_added_stays(before, all, address, streamers[j].url);
            }
        }
        if forall|i: int, j: int, address: Ipv4Address|
            0 <= i < interfaces.len() && 0 <= j < streamers.len() && usable_address(
                #[trigger] interfaces[i],
            ) == Some(address) ==> #[trigger] already_added(relays, address, streamers[j].url) {
            assert forall|i: int, j: int, address: Ipv4Address|
                0 <= i < fewer.len() && 0 <= j < streamers.len() && usable_address(
                    #[trigger] fewer[i],
                ) == Some(address) implies #[trigger] already_added(
                relays,
                address,
                streamers[j].url,
            ) by {
                assert(fewer[i] == interfaces[i]);
            }
            assert(before == relays);
        }
    }
}

/// The relays that are kept.
proof fn lemma_kept(relays: Seq<RelayInfo>, interfaces: Seq<InterfaceInfo>)
    ensures
        ({
            let kept = kept_relays(relays, interfaces);
            &&& forall|i: int|
                0 <= i < kept.len() ==> relays.contains(#[trigger] kept[i]) && is_first_address(
                    interfaces,
                    kept[i].interface_address,
                )
            &&& forall|i: int|
                0 <= i < relays.len() && is_first_address(
                    interfaces,
                    (#[trigger] relays[i]).interface_address,
                ) ==> kept.contains(relays[i])
            &&& all_different(relays) ==> all_different(kept)
            &&& (forall|i: int|
                0 <= i < relays.len() ==> is_first_address(
                    interfaces,
                    (#[trigger] relays[i]).interface_address,
                )) ==> kept == relays && gone_relays(relays, interfaces).len() == 0
        }),
    decreases relays.len(),
{
    let kept = kept_relays(relays, interfaces);
    if relays.len() == 0 {
        reveal(Seq::filter);
        assert(kept =~= relays);
    } else {
        let fewer = relays.drop_last();
        let last = relays.last();
        let before = kept_relays(fewer, interfaces);
        lemma_kept(fewer, interfaces);
        assert(relays =~= fewer.push(last));
        lemma_relays_push(fewer, last, interfaces);
        assert forall|i: int| 0 <= i < kept.len() implies relays.contains(#[trigger] kept[i])
            && is_first_address(interfaces, kept[i].interface_address) by {
            if i < before.len() {
                assert(kept[i] == before[i]);
                let k = choose|k: int| 0 <= k < fewer.len() && fewer[k] == before[i];
                assert(relays[k] == kept[i]);
            } else {
                assert(relays[relays.len() - 1] == kept[i]);
            }
        }
        assert forall|i: int|
            0 <= i < relays.len() && is_first_address(
                interfaces,
                (#[trigger] relays[i]).interface_address,
            ) implies kept.contains(relays[i]) by {
            if i < fewer.len() {
                assert(fewer[i] == relays[i]);
                let k = choose|k: int| 0 <= k < before.len() && before[k] == fewer[i];
                assert(kept[k] == relays[i]);
            } else {
                assert(kept[before.len() as int] == relays[i]);
            }
        }
        if all_different(relays) {
            assert(all_different(fewer)) by {
                assert forall|i: int, j: int| 0 <= i < j < fewer.len() implies (
                #[trigger] fewer[i]).interface_address != (#[trigger] fewer[j]).interface_address
                    || fewer[i].streamer_url != fewer[j].streamer_url by {
                    assert(fewer[i] == relays[i] && fewer[j] == relays[j]);
                }
            }
            assert forall|i: int, j: int| 0 <= i < j < kept.len() implies (
            #[trigger] kept[i]).interface_address != (#[trigger] kept[j]).interface_address
                || kept[i].streamer_url != kept[j].streamer_url by {
                assert(kept[i] == before[i]);
                if j < before.len() {
                    assert(kept[j] == before[j]);
                } else {
                    let k = choose|k: int| 0 <= k < fewer.len() && fewer[k] == before[i];
                    assert(relays[k] == kept[i]);
                    assert(relays[relays.len() - 1] == kept[j]);
                }
            }
        }
        if forall|i: int|
            0 <= i < relays.len() ==> is_first_address(
                interfaces,
                (#[trigger] relays[i]).interface_address,
            ) {
            assert forall|i: int| 0 <= i < fewer.len() implies is_first_address(
                interfaces,
                (#[trigger] fewer[i]).interface_address,
            ) by {
                assert(fewer[i] == relays[i]);
            }
            assert(relays[relays.len() - 1] == last);
            assert(kept =~= relays);
        }
    }
}

/// Adding the missing relays leaves those that run where they are, adds only
/// relays for a usable address and a known streamer, and then there is one for
/// each such pair. Where no relay ran twice, none does, and where none was
/// missing, none is added.
pub proof fn law_missing_relays_are_added(
    relays: Seq<RelayInfo>,
    interfaces: Seq<InterfaceInfo>,
    streamers: Seq<StreamerInfo>,
)
    ensures
        ({
            let all = with_all_relays(relays, interfaces, streamers);
            &&& relays.is_prefix_of(all)
            &&& forall|i: int|
                relays.len() <= i < all.len() ==> is_usable(
                    interfaces,
                    (#[trigger] all[i]).interface_address,
                ) && is_streamer_url(streamers, all[i].streamer_url)
            &&& forall|address: Ipv4Address, url: Seq<char>|
                is_usable(interfaces, address) && is_streamer_url(streamers, url)
                    ==> #[trigger] already_added(all, address, url)
            &&& all_different(relays) ==> all_different(all)
            &&& (forall|address: Ipv4Address, url: Seq<char>|
                is_usable(interfaces, address) && is_streamer_url(streamers, url)
                    ==> #[trigger] already_added(relays, address, url)) ==> all == relays
        }),
{
    let all = with_all_relays(relays, interfaces, streamers);
    lemma_all_relays(relays, interfaces, streamers);
    assert forall|address: Ipv4Address, url: Seq<char>|
        is_usable(interfaces, address) && is_streamer_url(streamers, url) implies
        #[trigger] already_added(all, address, url) by {
        let i = choose|i: int|
            0 <= i < interfaces.len() && usable_address(#[trigger] interfaces[i]) == Some(address);
        let j = choose|j: int| 0 <= j < streamers.len() && (#[trigger] streamers[j]).url == url;
        assert(already_added(all, address, streamers[j].url));
    }
    if forall|address: Ipv4Address, url: Seq<char>|
        is_usable(interfaces, address) && is_streamer_url(streamers, url)
            ==> #[trigger] already_added(relays, address, url) {
        assert forall|i: int, j: int, address: Ipv4Address|
            0 <= i < interfaces.len() && 0 <= j < streamers.len() && usable_address(
                #[trigger] interfaces[i],
            ) == Some(address) implies #[trigger] already_added(
            relays,
            address,
            streamers[j].url,
        ) by {
            assert(is_usable(interfaces, address));
            assert(is_streamer_url(streamers, streamers[j].url));
        }
    }
}

/// After an update there is exactly one relay for each interface with a usable
/// address and each streamer, and none else: none twice, none on a loopback
/// address, and none for an interface that is gone.
pub proof fn law_one_relay_per_interface_and_streamer(
    before: RelayServiceState,
    after: RelayServiceState,
    effects: UpdateEffects,
    address: Ipv4Address,
    url: Seq<char>,
)
    requires
        before.relays_ok(),
        update_ok(before, after, effects),
    ensures
        after.relays_ok(),
        already_added(after.relays, address, url) <==> is_usable(before.network_interfaces, address)
            && is_streamer_url(before.streamers, url),
{
    let interfaces = before.network_interfaces;
    let streamers = before.streamers;
    let all = with_all_relays(before.relays, interfaces, streamers);
    let kept = kept_relays(all, interfaces);
    lemma_all_relays(before.relays, interfaces, streamers);
    lemma_kept(all, interfaces);
    assert forall|i: int| 0 <= i < all.len() implies (#[trigger] all[i]).interface_address.a != 127
        && is_streamer_url(streamers, all[i].streamer_url) by {
        if i < before.relays.len() {
            assert(all.take(before.relays.len() as int)[i] == before.relays[i]);
        }
    }
    assert forall|i: int| 0 <= i < kept.len() implies (#[trigger] kept[i]).interface_address.a
        != 127 && is_streamer_url(streamers, kept[i].streamer_url) by {
        let k = choose|k: int| 0 <= k < all.len() && all[k] == kept[i];
        assert(all[k] == kept[i]);
    }
    if already_added(kept, address, url) {
        let i = choose|i: int|
            0 <= i < kept.len() && (#[trigger] kept[i]).interface_address == address
                && kept[i].streamer_url == url;
        let k = choose|k: int|
            0 <= k < interfaces.len() && first_ipv4((#[trigger] interfaces[k]).addresses) == Some(
                address,
            );
        assert(usable_address(interfaces[k]) == Some(address));
    }
    if is_usable(interfaces, address) && is_streamer_url(streamers, url) {
        let i = choose|i: int|
            0 <= i < interfaces.len() && usable_address(#[trigger] interfaces[i]) == Some(address);
        let j = choose|j: int| 0 <= j < streamers.len() && (#[trigger] streamers[j]).url == url;
        assert(already_added(all, address, streamers[j].url));
        let k = choose|k: int|
            0 <= k < all.len() && (#[trigger] all[k]).interface_address == address
                && all[k].streamer_url == url;
        assert(first_ipv4(interfaces[i].addresses) == Some(address));
        assert(kept.contains(all[k]));
        let m = choose|m: int| 0 <= m < kept.len() && kept[m] == all[k];
        assert(kept[m].interface_address == address);
    }
}

/// A second update in a row starts nothing, stops nothing and has nothing to
/// store.
pub proof fn law_update_settles(
    before: RelayServiceState,
    between: RelayServiceState,
    after: RelayServiceState,
    first: UpdateEffects,
    second: UpdateEffects,
)
    requires
        before.relays_ok(),
        update_ok(before, between, first),
        update_ok(between, after, second),
    ensures
        after == between,
        second.started@.len() == 0,
        second.stopped@.len() == 0,
        !second.store_database,
{
    let interfaces = before.network_interfaces;
    let streamers = before.streamers;
    let all = with_all_relays(before.relays, interfaces, streamers);
    assert forall|i: int, j: int, address: Ipv4Address|
        0 <= i < interfaces.len() && 0 <= j < streamers.len() && usable_address(
            #[trigger] interfaces[i],
        ) == Some(address) implies #[trigger] already_added(
        between.relays,
        address,
        streamers[j].url,
    ) by {
        law_one_relay_per_interface_and_streamer(
            before,
            between,
            first,
            address,
            streamers[j].url,
        );
    }
    lemma_all_relays(between.relays, interfaces, streamers);
    lemma_kept(all, interfaces);
    lemma_kept(between.relays, interfaces);
    assert(views(second.stopped@).len() == second.stopped@.len());
    let same = RelayServiceState { relays: between.relays, ..after };
    assert(same.database.relay_ids =~= between.database.relay_ids) by {
        assert forall|name: Seq<char>| #[trigger]
            same.database.relay_ids.contains_key(name) implies between.database.relay_ids.contains_key(
            name,
        ) by {
        }
    }
}

/// An update leaves the relays whose interface's address is still there alone,
/// in their order, and stops only relays that ran before.
pub proof fn law_update_leaves_the_rest(
    before: RelayServiceState,
    after: RelayServiceState,
    effects: UpdateEffects,
)
    requires
        update_ok(before, after, effects),
    ensures
        kept_relays(before.relays, before.network_interfaces).is_prefix_of(after.relays),
        views(effects.stopped@) == gone_relays(before.relays, before.network_interfaces),
{
    let interfaces = before.network_interfaces;
    let all = with_all_relays(before.relays, interfaces, before.streamers);
    let count = before.relays.len() as int;
    let added = all.skip(count);
    lemma_all_relays(before.relays, interfaces, before.streamers);
    assert(all =~= before.relays + added);
    let keeps = |relay: RelayInfo| is_first_address(interfaces, relay.interface_address);
    let goes = |relay: RelayInfo| !is_first_address(interfaces, relay.interface_address);
    Seq::filter_distributes_over_add(before.relays, added, keeps);
    Seq::filter_distributes_over_add(before.relays, added, goes);
    assert forall|i: int| 0 <= i < added.len() implies is_first_address(
        interfaces,
        (#[trigger] added[i]).interface_address,
    ) by {
        assert(added[i] == all[count + i]);
        let address = added[i].interface_address;
        let k = choose|k: int|
            0 <= k < interfaces.len() && usable_address(#[trigger] interfaces[k]) == Some(address);
        assert(first_ipv4(interfaces[k].addresses) == Some(address));
    }
    lemma_kept(added, interfaces);
    assert(gone_relays(added, interfaces) =~= Seq::<RelayInfo>::empty());
    assert(kept_relays(before.relays, interfaces) == before.relays.filter(keeps));
    assert(gone_relays(before.relays, interfaces) == before.relays.filter(goes));
    assert(after.relays == before.relays.filter(keeps) + added);
    assert(gone_relays(all, interfaces) =~= before.relays.filter(goes));
}

/// Whether no two streamers have the same web address.
pub open spec fn urls_different(streamers: Seq<StreamerInfo>) -> bool {
    forall|i: int, j: int|
        0 <= i < j < streamers.len() ==> (#[trigger] streamers[i]).url != (
        #[trigger] streamers[j]).url
}

/// A streamer that is found takes the place of one with the same web address
/// and leaves the others: where no web address occurs twice, none does later,
/// none is lost, and the relays are still for streamers that are known.
pub proof fn law_streamers_stay_different(state: RelayServiceState, name: Seq<char>, url: Seq<char>)
    ensures
        ({
            let after = with_streamer(state.streamers, name, url);
            &&& urls_different(state.streamers) ==> urls_different(after)
            &&& after.contains(StreamerInfo { name, url })
            &&& forall|other: Seq<char>|
                is_streamer_url(after, other) <==> other == url || is_streamer_url(
                    state.streamers,
                    other,
                )
            &&& state.relays_ok() ==> (RelayServiceState { streamers: after, ..state }).relays_ok()
        }),
{
    let streamers = state.streamers;
    let others = other_streamers(streamers, url);
    let after = with_streamer(streamers, name, url);
    lemma_others(streamers, url);
    assert(after[others.len() as int] == (StreamerInfo { name, url }));
    if urls_different(streamers) {
        assert forall|i: int, j: int| 0 <= i < j < after.len() implies (#[trigger] after[i]).url
            != (#[trigger] after[j]).url by {
            assert(after[i] == others[i]);
            if j < others.len() {
                assert(after[j] == others[j]);
            }
        }
    }
    assert forall|other: Seq<char>|
        is_streamer_url(after, other) <==> other == url || is_streamer_url(streamers, other) by {
        if is_streamer_url(after, other) {
            let k = choose|k: int| 0 <= k < after.len() && (#[trigger] after[k]).url == other;
            if k < others.len() {
                assert(others[k] == after[k]);
                let m = choose|m: int| 0 <= m < streamers.len() && streamers[m] == others[k];
                assert(streamers[m].url == other);
            }
        }
        if other == url {
            assert(after[others.len() as int].url == other);
        } else if is_streamer_url(streamers, other) {
            let m = choose|m: int|
                0 <= m < streamers.len() && (#[trigger] streamers[m]).url == other;
            assert(others.contains(streamers[m]));
            let k = choose|k: int| 0 <= k < others.len() && others[k] == streamers[m];
            assert(after[k].url == other);
        }
    }
}

/// The streamers with another web address.
proof fn lemma_others(streamers: Seq<StreamerInfo>, url: Seq<char>)
    ensures
        ({
            let others = other_streamers(streamers, url);
            &&& forall|i: int|
                0 <= i < others.len() ==> streamers.contains(#[trigger] others[i]) && others[i].url
                    != url
            &&& forall|i: int|
                0 <= i < streamers.len() && (#[trigger] streamers[i]).url != url ==> others.contains(
                    streamers[i],
                )
            &&& urls_different(streamers) ==> urls_different(others)
        }),
    decreases streamers.len(),
{
    let others = other_streamers(streamers, url);
    reveal(Seq::filter);
    if streamers.len() > 0 {
        let fewer = streamers.drop_last();
        let last = streamers.last();
        let before = other_streamers(fewer, url);
        lemma_others(fewer, url);
        assert(others == if last.url != url {
            before.push(last)
        } else {
            before
        });
        assert forall|i: int| 0 <= i < others.len() implies streamers.contains(#[trigger] others[i])
            && others[i].url != url by {
            if i < before.len() {
                assert(others[i] == before[i]);
                let k = choose|k: int| 0 <= k < fewer.len() && fewer[k] == before[i];
                assert(streamers[k] == others[i]);
            } else {
                assert(streamers[streamers.len() - 1] == others[i]);
            }
        }
        assert forall|i: int|
            0 <= i < streamers.len() && (#[trigger] streamers[i]).url
                != url implies others.contains(streamers[i]) by {
            if i < fewer.len() {
                assert(fewer[i] == streamers[i]);
                let k = choose|k: int| 0 <= k < before.len() && before[k] == fewer[i];
                assert(others[k] == streamers[i]);
            } else {
                assert(others[before.len() as int] == streamers[i]);
            }
        }
        if urls_different(streamers) {
            assert forall|i: int, j: int| 0 <= i < j < fewer.len() implies (
            #[trigger] fewer[i]).url != (#[trigger] fewer[j]).url by {
                assert(fewer[i] == streamers[i] && fewer[j] == streamers[j]);
            }
            assert forall|i: int, j: int| 0 <= i < j < others.len() implies (
            #[trigger] others[i]).url != (#[trigger] others[j]).url by {
                assert(others[i] == before[i]);
                if j < before.len() {
                    assert(others[j] == before[j]);
                } else {
                    let k = choose|k: int| 0 <= k < fewer.len() && fewer[k] == before[i];
                    assert(streamers[k] == others[i]);
                    assert(streamers[streamers.len() - 1] == others[j]);
                }
            }
        }
    }
}

/// The relays of an interface with a label have that label as their name, and
/// the relays of any other interface have the interface's own name.
pub proof fn law_relay_name(state: RelayServiceState, interface_name: Seq<char>, label: Seq<char>)
    ensures
        state.interface_name_overrides.contains_key(interface_name)
            && state.interface_name_overrides[interface_name] == label ==> state.relay_name(
            interface_name,
        ) == label,
        !state.interface_name_overrides.contains_key(interface_name) ==> state.relay_name(
            interface_name,
        ) == interface_name,
{
}

/// There is a relay for an address and a streamer just where one of the relays
/// has both.
pub proof fn law_already_added(
    relays: Seq<RelayInfo>,
    address: Ipv4Address,
    url: Seq<char>,
    i: int,
)
    ensures
        0 <= i < relays.len() && relays[i].interface_address == address && relays[i].streamer_url
            == url ==> already_added(relays, address, url),
        already_added(relays, address, url) ==> exists|k: int|
            0 <= k < relays.len() && (#[trigger] relays[k]).interface_address == address
                && relays[k].streamer_url == url,
{
}

/// An interface is used by its first IPv4 address, unless that is a loopback
/// address or there is none.
pub proof fn law_usable_address(interface: InterfaceInfo, address: Ipv4Address)
    ensures
        first_ipv4(interface.addresses) is None ==> usable_address(interface) is None,
        first_ipv4(interface.addresses) == Some(address) && address.a == 127 ==> usable_address(
            interface,
        ) is None,
        first_ipv4(interface.addresses) == Some(address) && address.a != 127 ==> usable_address(
            interface,
        ) == Some(address),
{
}

/// Relays are added interface by interface and streamer by streamer. Each that
/// is missing is added behind the others, with the names and addresses of its
/// interface and its streamer.
pub proof fn law_relays_are_added_in_order(
    relays: Seq<RelayInfo>,
    interfaces: Seq<InterfaceInfo>,
    interface: InterfaceInfo,
    streamers: Seq<StreamerInfo>,
    streamer: StreamerInfo,
    address: Ipv4Address,
)
    ensures
        with_all_relays(relays, Seq::empty(), streamers) == relays,
        with_all_relays(relays, interfaces.push(interface), streamers) == match usable_address(
            interface,
        ) {
            Some(own) => with_relays_of(
                with_all_relays(relays, interfaces, streamers),
                interface.name,
                own,
                streamers,
            ),
            None => with_all_relays(relays, interfaces, streamers),
        },
        with_relays_of(relays, interface.name, address, Seq::empty()) == relays,
        ({
            let before = with_relays_of(relays, interface.name, address, streamers);
            let after = with_relays_of(relays, interface.name, address, streamers.push(streamer));
            &&& already_added(before, address, streamer.url) ==> after == before
            &&& !already_added(before, address, streamer.url) ==> {
                &&& after.len() == before.len() + 1
                &&& after.drop_last() == before
                &&& after.last().interface_name == interface.name
                &&& after.last().interface_address == address
                &&& after.last().streamer_name == streamer.name
                &&& after.last().streamer_url == streamer.url
            }
        }),
{
    assert(interfaces.push(interface).drop_last() =~= interfaces);
    assert(streamers.push(streamer).drop_last() =~= streamers);
    let before = with_relays_of(relays, interface.name, address, streamers);
    let after = with_relays_of(relays, interface.name, address, streamers.push(streamer));
    if !already_added(before, address, streamer.url) {
        assert(after.drop_last() =~= before);
    }
}

/// Where the relays that are added for an interface come from.
proof fn lemma_relays_of_origin(
    relays: Seq<RelayInfo>,
    interface_name: Seq<char>,
    interface_address: Ipv4Address,
    streamers: Seq<StreamerInfo>,
    i: int,
) -> (j: int)
    requires
        relays.len() <= i < with_relays_of(
            relays,
            interface_name,
            interface_address,
            streamers,
        ).len(),
    ensures
        0 <= j < streamers.len(),
        with_relays_of(relays, interface_name, interface_address, streamers)[i] == (RelayInfo {
            interface_name,
            interface_address,
            streamer_name: streamers[j].name,
            streamer_url: streamers[j].url,
        }),
    decreases streamers.len(),
{
    let fewer = streamers.drop_last();
    let before = with_relays_of(relays, interface_name, interface_address, fewer);
    if i < before.len() {
        lemma_relays_of_origin(relays, interface_name, interface_address, fewer, i)
    } else {
        streamers.len() - 1
    }
}

/// Where the relays that are added for all interfaces come from.
proof fn lemma_all_relays_origin(
    relays: Seq<RelayInfo>,
    interfaces: Seq<InterfaceInfo>,
    streamers: Seq<StreamerInfo>,
    i: int,
) -> (r: (int, int))
    requires
        relays.len() <= i < with_all_relays(relays, interfaces, streamers).len(),
    ensures
        0 <= r.0 < interfaces.len(),
        0 <= r.1 < streamers.len(),
        ({
            let relay = with_all_relays(relays, interfaces, streamers)[i];
            &&& relay.interface_name == interfaces[r.0].name
            &&& usable_address(interfaces[r.0]) == Some(relay.interface_address)
            &&& relay.streamer_name == streamers[r.1].name
            &&& relay.streamer_url == streamers[r.1].url
        }),
    decreases interfaces.len(),
{
    let fewer = interfaces.drop_last();
    let last = interfaces.len() - 1;
    let before = with_all_relays(relays, fewer, streamers);
    let all = with_all_relays(relays, interfaces, streamers);
    if i < before.len() {
        let r = lemma_all_relays_origin(relays, fewer, streamers, i);
        if let Some(address) = usable_address(interfaces[last]) {
            lemma_relays_of(before, interfaces[last].name, address, streamers);
            assert(all.take(before.len() as int)[i] == before[i]);
        }
        r
    } else {
        let address = usable_address(interfaces[last])->0;
        let j = lemma_relays_of_origin(before, interfaces[last].name, address, streamers, i);
        (last, j)
    }
}

/// Each relay that an update starts is the relay of an interface and a streamer
/// of the service. It has the label of that interface as its name, or the
/// interface's own name where there is no label. It is bound to the interface's
/// first IPv4 address, knows the service's password, has the identity that is
/// kept for the interface, and connects to the streamer.
pub proof fn law_started_relays(
    before: RelayServiceState,
    after: RelayServiceState,
    effects: UpdateEffects,
    i: int,
)
    requires
        update_ok(before, after, effects),
        0 <= i < effects.started@.len(),
    ensures
        exists|k: int, j: int|
            {
                let interface = #[trigger] before.network_interfaces[k];
                let streamer = #[trigger] before.streamers[j];
                let started = effects.started@[i];
                &&& 0 <= k < before.network_interfaces.len()
                &&& 0 <= j < before.streamers.len()
                &&& first_ipv4(interface.addresses) == Some(started.interface_address)
                &&& started.interface_address.a != 127
                &&& started.streamer_url@ == streamer.url
                &&& started.relay@.name == if before.interface_name_overrides.contains_key(
                    interface.name,
                ) {
                    before.interface_name_overrides[interface.name]
                } else {
                    interface.name
                }
                &&& started.relay@.bind_address == ipv4_text(started.interface_address)
                &&& started.relay@.password == before.password
                &&& started.relay@.streamer_url == streamer.url
                &&& after.database.relay_ids.contains_key(interface.name)
                &&& started.relay@.relay_id == after.database.relay_ids[interface.name]
                &&& started.relay@.started
                &&& match url_parts(streamer.url) {
                    Some((text, _)) => started.effects matches crate::relay::StartEffects::Connect(
                        url,
                    ) && url@ == text,
                    None => started.effects == crate::relay::StartEffects::Nothing,
                }
            },
{
    let relays = with_all_relays(before.relays, before.network_interfaces, before.streamers);
    let extended = RelayServiceState { relays, ..after };
    let count = before.relays.len() as int;
    let (k, j) = lemma_all_relays_origin(
        before.relays,
        before.network_interfaces,
        before.streamers,
        count + i,
    );
    let info = relays[count + i];
    assert(extended.starts(effects.started@[i], info));
    assert(extended.database.relay_ids.contains_key(extended.relays[count + i].interface_name));
    let interface = before.network_interfaces[k];
    let streamer = before.streamers[j];
    crate::relay_service::law_started_relay(
        effects.started@[i],
        info,
        extended.relay_name(info.interface_name),
        extended.password,
        extended.database.relay_ids[info.interface_name],
    );
}

/// Adding relays changes nothing of a service but its relays and the identities
/// of new ones. Relays that run stay in their places, one is started for each
/// that is added, known identities stay, and they have to be stored just where
/// there is a new one.
pub proof fn law_adding_relays_leaves_the_rest(
    before: RelayServiceState,
    after: RelayServiceState,
    started: Seq<StartedRelay>,
    store_database: bool,
    name: Seq<char>,
)
    requires
        after.extends(before, started, store_database),
    ensures
        after.password == before.password,
        after.network_interface_filter == before.network_interface_filter,
        after.manual_streamers == before.manual_streamers,
        after.interface_name_overrides == before.interface_name_overrides,
        after.runtime_status_file == before.runtime_status_file,
        after.status == before.status,
        after.network_interfaces == before.network_interfaces,
        after.streamers == before.streamers,
        after.database.path == before.database.path,
        before.relays.is_prefix_of(after.relays),
        started.len() == after.relays.len() - before.relays.len(),
        before.database.relay_ids.contains_key(name) ==> after.database.relay_ids.contains_key(name)
            && after.database.relay_ids[name] == before.database.relay_ids[name],
        after.database.relay_ids.contains_key(name) && !before.database.relay_ids.contains_key(name)
            ==> {
            &&& store_database
            &&& is_uuid_text(after.database.relay_ids[name])
            &&& exists|i: int|
                before.relays.len() <= i < after.relays.len() && (
                #[trigger] after.relays[i]).interface_name == name
        },
        !store_database ==> after.database.relay_ids == before.database.relay_ids,
{
    assert(after.relays.take(before.relays.len() as int) == before.relays);
}

/// An update starts a relay for each that is missing, changes nothing else of
/// the service but its relays and the identities of new ones, and stops the
/// relays that it takes out.
pub proof fn law_update_changes_only_relays(
    before: RelayServiceState,
    after: RelayServiceState,
    effects: UpdateEffects,
)
    requires
        update_ok(before, after, effects),
    ensures
        after.password == before.password,
        after.network_interface_filter == before.network_interface_filter,
        after.manual_streamers == before.manual_streamers,
        after.interface_name_overrides == before.interface_name_overrides,
        after.runtime_status_file == before.runtime_status_file,
        after.status == before.status,
        after.network_interfaces == before.network_interfaces,
        after.streamers == before.streamers,
        after.database.path == before.database.path,
        effects.store_database <==> after.database.relay_ids != before.database.relay_ids,
        ({
            let relays = with_all_relays(
                before.relays,
                before.network_interfaces,
                before.streamers,
            );
            &&& effects.started@.len() == relays.len() - before.relays.len()
            &&& after.relays == kept_relays(relays, before.network_interfaces)
            &&& views(effects.stopped@) == gone_relays(relays, before.network_interfaces)
        }),
        runtime_status_ok(after, effects.runtime_status),
{
}

/// An address is the first one of an interface just where some interface has it
/// as its first IPv4 address.
pub proof fn law_first_addresses(interfaces: Seq<InterfaceInfo>, address: Ipv4Address, i: int)
    ensures
        0 <= i < interfaces.len() && first_ipv4(interfaces[i].addresses) == Some(address)
            ==> is_first_address(interfaces, address),
        is_first_address(interfaces, address) ==> exists|k: int|
            0 <= k < interfaces.len() && first_ipv4((#[trigger] interfaces[k]).addresses) == Some(
                address,
            ),
{
}

/// A relay is kept just where its address is the first one of an interface, and
/// is gone otherwise. The order stays.
pub proof fn law_kept_and_gone(
    relays: Seq<RelayInfo>,
    relay: RelayInfo,
    interfaces: Seq<InterfaceInfo>,
)
    ensures
        kept_relays(Seq::empty(), interfaces).len() == 0,
        gone_relays(Seq::empty(), interfaces).len() == 0,
        is_first_address(interfaces, relay.interface_address) ==> {
            &&& kept_relays(relays.push(relay), interfaces) == kept_relays(relays, interfaces).push(
                relay,
            )
            &&& gone_relays(relays.push(relay), interfaces) == gone_relays(relays, interfaces)
        },
        !is_first_address(interfaces, relay.interface_address) ==> {
            &&& kept_relays(relays.push(relay), interfaces) == kept_relays(relays, interfaces)
            &&& gone_relays(relays.push(relay), interfaces) == gone_relays(relays, interfaces).push(
                relay,
            )
        },
{
    reveal(Seq::filter);
    lemma_relays_push(relays, relay, interfaces);
}

/// A service is shown where there is a file to show it in: all its streamers and
/// all its relays in their order, each with the host of the streamer's web
/// address, whether there are relays, and whether its streamers were given.
pub proof fn law_runtime_status(
    state: RelayServiceState,
    status: Option<RuntimeStatus>,
    i: int,
)
    requires
        runtime_status_ok(state, status),
    ensures
        state.runtime_status_file is None <==> status is None,
        status matches Some(shown) ==> {
            &&& shown.connected <==> state.relays.len() > 0
            &&& shown.manual_streamer <==> state.manual_streamers.len() > 0
            &&& shown.streamers@.len() == state.streamers.len()
            &&& shown.relays@.len() == state.relays.len()
            &&& 0 <= i < state.streamers.len() ==> {
                let streamer = shown.streamers@[i];
                &&& streamer.name@ == state.streamers[i].name
                &&& streamer.url@ == state.streamers[i].url
                &&& match url_parts(state.streamers[i].url) {
                    Some((_, Some(named))) => streamer.host@ == named,
                    _ => streamer.host@.len() == 0,
                }
            }
            &&& 0 <= i < state.relays.len() ==> {
                let relay = shown.relays@[i];
                &&& relay.interface_name@ == state.relays[i].interface_name
                &&& relay.interface_address@ == ipv4_text(state.relays[i].interface_address)
                &&& relay.streamer_name@ == state.relays[i].streamer_name
                &&& relay.streamer_url@ == state.relays[i].streamer_url
                &&& match url_parts(state.relays[i].streamer_url) {
                    Some((_, Some(named))) => relay.streamer_host@ == named,
                    _ => relay.streamer_host@.len() == 0,
                }
            }
        },
{
    if let Some(shown) = status {
        if 0 <= i < state.streamers.len() {
            assert(shown.streamers@[i].shows(
                state.streamers[i],
                host_text(url_parts(state.streamers[i].url)),
            ));
        }
        if 0 <= i < state.relays.len() {
            assert(shown.relays@[i].shows(
                state.relays[i],
                host_text(url_parts(state.relays[i].streamer_url)),
            ));
        }
    }
}

/// A streamer that is found stands behind the others, under its name and web
/// address, and any one with the same web address is taken out. The order of the
/// others stays.
pub proof fn law_found_streamer_comes_last(
    streamers: Seq<StreamerInfo>,
    streamer: StreamerInfo,
    name: Seq<char>,
    url: Seq<char>,
)
    ensures
        with_streamer(streamers, name, url).last() == (StreamerInfo { name, url }),
        with_streamer(streamers, name, url).drop_last() == other_streamers(streamers, url),
        other_streamers(Seq::empty(), url).len() == 0,
        other_streamers(streamers.push(streamer), url) == if streamer.url == url {
            other_streamers(streamers, url)
        } else {
            other_streamers(streamers, url).push(streamer)
        },
{
    reveal(Seq::filter);
    assert(streamers.push(streamer).drop_last() =~= streamers);
    assert(with_streamer(streamers, name, url).drop_last() =~= other_streamers(streamers, url));
}

/// A streamer that is found counts unless it has no name or no address, or one
/// of its addresses is one of this machine.
pub proof fn law_streamers_on_this_machine_do_not_count(
    name: Option<String>,
    addresses: Seq<Ipv4Address>,
    interfaces: Seq<InterfaceInfo>,
    i: int,
)
    ensures
        name is None ==> !found_counts(name, addresses, interfaces),
        addresses.len() == 0 ==> !found_counts(name, addresses, interfaces),
        0 <= i < addresses.len() && crate::interfaces::belongs(addresses[i], interfaces)
            ==> !found_counts(name, addresses, interfaces),
        name is Some && addresses.len() > 0 && !found_counts(name, addresses, interfaces)
            ==> exists|k: int|
            0 <= k < addresses.len() && crate::interfaces::belongs(
                #[trigger] addresses[k],
                interfaces,
            ),
{
}

} // verus!

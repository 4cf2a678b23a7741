//! A relay service: it runs one relay per network interface and streamer.
//!
//! The list of interfaces, multicast DNS and the files are the caller's. Each
//! method takes what happened and returns what is to be done about it.
use std::path::PathBuf;

use vstd::prelude::*;

use crate::address::{first_ipv4, ipv4_text};
use crate::address::Ipv4Address;
use crate::database::{with_relay_id, DatabaseInfo};
use crate::database::{Database, RelayId};
use crate::interfaces::{views, FilterInfo, InterfaceInfo};
use crate::interfaces::{
    any_address_belongs_to_this_machine, get_first_ipv4_address, NetworkInterface,
    NetworkInterfaceFilter,
};
use crate::name_table::NameTable;
use crate::relay::start_effects_ok;
use crate::relay::{Relay, StartEffects, Status};
use crate::service_model::{
    already_added, found_counts, gone_relays, is_first_address, kept_relays,
    law_one_relay_per_interface_and_streamer, law_streamers_stay_different, lemma_extends_by_one,
    lemma_extends_further, lemma_extends_itself, lemma_relays_push, other_streamers,
    runtime_status_ok, started_relay_state, update_ok, with_all_relays, with_relays_of,
    with_streamer, RelayInfo, RelayServiceState, StreamerInfo,
};
use crate::text::{split_text, texts, trimmed};
use crate::text::{is_empty, split_once, trim};
use crate::utils::is_uuid_text;
use crate::web::{host_text, parsed_view, url_parts};
use crate::web::{host_from_url, parse_url, streamer_url, ParsedUrl};

verus! {

/// How often the network interfaces are looked at.
pub const INTERFACES_INTERVAL_SECONDS: u64 = 3;

/// How often the device's state is asked for.
pub const STATUS_INTERVAL_SECONDS: u64 = 5;

/// A streamer that relays connect to.
#[derive(Debug)]
pub struct Streamer {
    pub name: String,
    pub url: String,
}

impl View for Streamer {
    type V = StreamerInfo;

    open spec fn view(&self) -> StreamerInfo {
        StreamerInfo { name: self.name@, url: self.url@ }
    }
}

impl Clone for Streamer {
    fn clone(&self) -> (r: Self)
        ensures
            r@ == self@,
    {
        Streamer { name: self.name.clone(), url: self.url.clone() }
    }
}

/// The interface and the label that an "interface=label" text names, with the
/// white space around them taken off. Both have to be there.
pub open spec fn override_of(value: Seq<char>) -> Option<(Seq<char>, Seq<char>)> {
    match split_text(value, '=') {
        Some((interface, label)) => if trimmed(interface).len() > 0 && trimmed(label).len() > 0 {
            Some((trimmed(interface), trimmed(label)))
        } else {
            None
        },
        None => None,
    }
}

/// The labels that "interface=label" texts give to interfaces: a later one
/// replaces an earlier one, and a text that names none is left out.
pub open spec fn overrides_of(values: Seq<Seq<char>>) -> Map<Seq<char>, Seq<char>>
    decreases values.len(),
{
    if values.len() == 0 {
        Map::empty()
    } else {
        let before = overrides_of(values.drop_last());
        match override_of(values.last()) {
            Some((interface, label)) => before.insert(interface, label),
            None => before,
        }
    }
}

/// Reads "interface=label" texts, which give a relay a friendly name in place
/// of the interface's.
pub fn parse_interface_name_overrides(values: Vec<String>) -> (r: NameTable)
    ensures
        r@ == overrides_of(texts(values@)),
{
    let mut overrides: NameTable = NameTable::new();
    let ghost all = texts(values@);
    let mut i: usize = 0;
    while i < values.len()
        invariant
            all == texts(values@),
            i <= values@.len(),
            overrides@ == overrides_of(all.take(i as int)),
        decreases values@.len() - i,
    {
        proof {
            assert(all.take(i + 1).drop_last() =~= all.take(i as int));
            assert(all.take(i + 1).last() == values@[i as int]@);
        }
        if let Some((interface, label)) = split_once(values[i].as_str(), '=') {
            let interface: String = trim(interface.as_str());
            let label: String = trim(label.as_str());
            if !is_empty(&interface) && !is_empty(&label) {
                overrides.insert(interface, label);
            }
        }
        i = i + 1;
    }
    proof {
        assert(all.take(all.len() as int) =~= all);
    }
    overrides
}

/// The streamer at a web address, given what the address is: it is named by its
/// host, or by the address where that names none.
pub open spec fn manual_streamer_of(
    value: Seq<char>,
    parts: Option<(Seq<char>, Option<Seq<char>>)>,
) -> Option<StreamerInfo> {
    match parts {
        Some((_, Some(host))) => Some(StreamerInfo { name: host, url: value }),
        Some((_, None)) => Some(StreamerInfo { name: value, url: value }),
        None => None,
    }
}

/// The streamers at some web addresses. A text that is no web address is left
/// out.
pub open spec fn manual_streamers_of(values: Seq<Seq<char>>) -> Seq<StreamerInfo>
    decreases values.len(),
{
    if values.len() == 0 {
        Seq::empty()
    } else {
        let before = manual_streamers_of(values.drop_last());
        match manual_streamer_of(values.last(), url_parts(values.last())) {
            Some(streamer) => before.push(streamer),
            None => before,
        }
    }
}

/// The streamer at a web address, given what the address is.
pub fn manual_streamer(value: &String, parsed: Option<ParsedUrl>) -> (r: Option<Streamer>)
    ensures
        match r {
            Some(streamer) => manual_streamer_of(value@, parsed_view(parsed)) == Some(streamer@),
            None => manual_streamer_of(value@, parsed_view(parsed)) is None,
        },
{
    match parsed {
        Some(url) => Some(
            Streamer {
                name: match url.host {
                    Some(host) => host,
                    None => value.clone(),
                },
                url: value.clone(),
            },
        ),
        None => None,
    }
}

/// The streamers at web addresses that were given by hand.
pub fn parse_manual_streamers(values: Vec<String>) -> (r: Vec<Streamer>)
    ensures
        views(r@) == manual_streamers_of(texts(values@)),
{
    let mut streamers: Vec<Streamer> = Vec::new();
    let ghost all = texts(values@);
    proof {
        assert(views(streamers@) =~= manual_streamers_of(all.take(0)));
    }
    let mut i: usize = 0;
    while i < values.len()
        invariant
            all == texts(values@),
            i <= values@.len(),
            views(streamers@) == manual_streamers_of(all.take(i as int)),
        decreases values@.len() - i,
    {
        let ghost before = streamers@;
        proof {
            assert(all.take(i + 1).drop_last() =~= all.take(i as int));
            assert(all.take(i + 1).last() == values@[i as int]@);
        }
        if let Some(streamer) = manual_streamer(&values[i], parse_url(values[i].as_str())) {
            streamers.push(streamer);
            proof {
                assert(views(streamers@) =~= views(before).push(streamer@));
            }
        }
        i = i + 1;
    }
    proof {
        assert(all.take(all.len() as int) =~= all);
    }
    streamers
}

/// The relay of an interface and a streamer.
#[derive(Debug)]
pub struct ServiceRelay {
    pub interface_name: String,
    pub interface_address: Ipv4Address,
    pub streamer_name: String,
    pub streamer_url: String,
}

impl View for ServiceRelay {
    type V = RelayInfo;

    open spec fn view(&self) -> RelayInfo {
        RelayInfo {
            interface_name: self.interface_name@,
            interface_address: self.interface_address,
            streamer_name: self.streamer_name@,
            streamer_url: self.streamer_url@,
        }
    }
}

/// A relay that was started. It is known by its interface's address and its
/// streamer's web address.
#[derive(Debug)]
pub struct StartedRelay {
    pub interface_address: Ipv4Address,
    pub streamer_url: String,
    pub relay: Relay,
    /// What its start takes.
    pub effects: StartEffects,
}

impl StartedRelay {
    /// Whether this is the relay that was to be started, bound to its
    /// interface's address.
    pub open spec fn is_start_of(
        self,
        info: RelayInfo,
        relay_name: Seq<char>,
        password: Seq<char>,
        relay_id: Seq<char>,
    ) -> bool {
        &&& self.interface_address == info.interface_address
        &&& self.streamer_url@ == info.streamer_url
        &&& self.relay@ == started_relay_state(info, relay_name, password, relay_id)
        &&& start_effects_ok(self.relay@, url_parts(info.streamer_url), self.effects)
    }
}

impl ServiceRelay {
    /// Sets the relay of an interface and a streamer up and starts it.
    pub fn new(
        interface_name: String,
        interface_address: Ipv4Address,
        relay_name: String,
        streamer: Streamer,
        password: String,
        relay_id: String,
    ) -> (r: (ServiceRelay, StartedRelay))
        ensures
            r.0@ == (RelayInfo {
                interface_name: interface_name@,
                interface_address,
                streamer_name: streamer@.name,
                streamer_url: streamer@.url,
            }),
            r.1.is_start_of(r.0@, relay_name@, password@, relay_id@),
    {
        let mut relay: Relay = Relay::new(interface_address.to_text());
        relay.setup(streamer.url.clone(), password, relay_id, relay_name);
        let effects: StartEffects = relay.start();
        let started: StartedRelay = StartedRelay {
            interface_address,
            streamer_url: streamer.url.clone(),
            relay,
            effects,
        };
        let service_relay: ServiceRelay = ServiceRelay {
            interface_name,
            interface_address,
            streamer_name: streamer.name,
            streamer_url: streamer.url,
        };
        (service_relay, started)
    }
}

/// A streamer as it is shown to people.
#[derive(Debug)]
pub struct RuntimeStreamerStatus {
    pub name: String,
    pub url: String,
    pub host: String,
}

/// A relay as it is shown to people.
#[derive(Debug)]
pub struct RuntimeRelayStatus {
    pub interface_name: String,
    pub interface_address: String,
    pub streamer_name: String,
    pub streamer_url: String,
    pub streamer_host: String,
}

/// A relay service as it is shown to people.
#[derive(Debug)]
pub struct RuntimeStatus {
    pub connected: bool,
    pub manual_streamer: bool,
    pub streamers: Vec<RuntimeStreamerStatus>,
    pub relays: Vec<RuntimeRelayStatus>,
}

impl RuntimeStreamerStatus {
    /// Whether this shows a streamer with a host.
    pub open spec fn shows(self, streamer: StreamerInfo, host: Seq<char>) -> bool {
        self.name@ == streamer.name && self.url@ == streamer.url && self.host@ == host
    }

    /// Shows a streamer with a host.
    pub fn new(streamer: &Streamer, host: String) -> (r: RuntimeStreamerStatus)
        ensures
            r.shows(streamer@, host@),
    {
        RuntimeStreamerStatus { name: streamer.name.clone(), url: streamer.url.clone(), host }
    }
}

impl RuntimeRelayStatus {
    /// Whether this shows a relay whose streamer has a host.
    pub open spec fn shows(self, relay: RelayInfo, host: Seq<char>) -> bool {
        &&& self.interface_name@ == relay.interface_name
        &&& self.interface_address@ == ipv4_text(relay.interface_address)
        &&& self.streamer_name@ == relay.streamer_name
        &&& self.streamer_url@ == relay.streamer_url
        &&& self.streamer_host@ == host
    }

    /// Shows a relay whose streamer has a host.
    pub fn new(relay: &ServiceRelay, host: String) -> (r: RuntimeRelayStatus)
        ensures
            r.shows(relay@, host@),
    {
        RuntimeRelayStatus {
            interface_name: relay.interface_name.clone(),
            interface_address: relay.interface_address.to_text(),
            streamer_name: relay.streamer_name.clone(),
            streamer_url: relay.streamer_url.clone(),
            streamer_host: host,
        }
    }
}

/// The configuration of a relay service.
#[derive(Debug)]
pub struct RelayServiceConfig {
    pub password: String,
    /// Regular expressions of interface names to allow (`^`/`$` anchors added
    /// automatically).
    pub network_interfaces_to_allow: Vec<String>,
    /// Regular expressions of interface names to ignore (`^`/`$` anchors added
    /// automatically).
    pub network_interfaces_to_ignore: Vec<String>,
    /// Streamer URLs to connect to directly instead of discovering over mDNS.
    pub streamer_urls: Vec<String>,
    /// `"interface=label"` pairs renaming a relay as shown in the Moblin app.
    pub interface_name_overrides: Vec<String>,
    /// File to write relay/streamer state as JSON for external UIs to read.
    pub runtime_status_file: Option<PathBuf>,
    /// File storing the per-interface relay identities.
    pub database: PathBuf,
}

/// What an update takes.
#[derive(Debug)]
pub struct UpdateEffects {
    /// The relays that were started.
    pub started: Vec<StartedRelay>,
    /// The relays to stop.
    pub stopped: Vec<ServiceRelay>,
    /// Whether the identities have to be stored.
    pub store_database: bool,
    /// What to show to people, where it is to be shown.
    pub runtime_status: Option<RuntimeStatus>,
}

/// A relay service.
#[derive(Debug)]
pub struct RelayServiceInner {
    password: String,
    network_interface_filter: NetworkInterfaceFilter,
    manual_streamers: Vec<Streamer>,
    interface_name_overrides: NameTable,
    runtime_status_file: Option<PathBuf>,
    status: Status,
    relays: Vec<ServiceRelay>,
    network_interfaces: Vec<NetworkInterface>,
    streamers: Vec<Streamer>,
    database: Database,
}

impl View for RelayServiceInner {
    type V = RelayServiceState;

    closed spec fn view(&self) -> RelayServiceState {
        RelayServiceState {
            password: self.password@,
            network_interface_filter: self.network_interface_filter@,
            manual_streamers: views(self.manual_streamers@),
            interface_name_overrides: self.interface_name_overrides@,
            runtime_status_file: self.runtime_status_file,
            status: self.status,
            relays: views(self.relays@),
            network_interfaces: views(self.network_interfaces@),
            streamers: views(self.streamers@),
            database: self.database@,
        }
    }
}

impl RelayServiceInner {
    /// A service that runs no relay yet. The identities are those that the
    /// database's file holds.
    pub fn new(config: RelayServiceConfig, relay_ids: NameTable) -> (r: RelayServiceInner)
        ensures
            r@.relays_ok(),
            r@ == (RelayServiceState {
                password: config.password@,
                network_interface_filter: FilterInfo {
                    allow: crate::interfaces::compiled(texts(config.network_interfaces_to_allow@)),
                    ignore: crate::interfaces::compiled(
                        texts(config.network_interfaces_to_ignore@),
                    ),
                },
                manual_streamers: manual_streamers_of(texts(config.streamer_urls@)),
                interface_name_overrides: overrides_of(texts(config.interface_name_overrides@)),
                runtime_status_file: config.runtime_status_file,
                status: Status { battery_percentage: None },
                relays: Seq::empty(),
                network_interfaces: Seq::empty(),
                streamers: Seq::empty(),
                database: DatabaseInfo { path: config.database, relay_ids: relay_ids@ },
            }),
    {
        Self::with_parts(
            config.password,
            NetworkInterfaceFilter::new(
                config.network_interfaces_to_allow,
                config.network_interfaces_to_ignore,
            ),
            parse_manual_streamers(config.streamer_urls),
            parse_interface_name_overrides(config.interface_name_overrides),
            config.runtime_status_file,
            Database::new(config.database, relay_ids),
        )
    }

    /// A service that runs no relay yet, with its configuration read.
    pub fn with_parts(
        password: String,
        network_interface_filter: NetworkInterfaceFilter,
        manual_streamers: Vec<Streamer>,
        interface_name_overrides: NameTable,
        runtime_status_file: Option<PathBuf>,
        database: Database,
    ) -> (r: RelayServiceInner)
        ensures
            r@.relays_ok(),
            r@ == (RelayServiceState {
                password: password@,
                network_interface_filter: network_interface_filter@,
                manual_streamers: views(manual_streamers@),
                interface_name_overrides: interface_name_overrides@,
                runtime_status_file,
                status: Status { battery_percentage: None },
                relays: Seq::empty(),
                network_interfaces: Seq::empty(),
                streamers: Seq::empty(),
                database: database@,
            }),
    {
        let relays: Vec<ServiceRelay> = Vec::new();
        let network_interfaces: Vec<NetworkInterface> = Vec::new();
        let streamers: Vec<Streamer> = Vec::new();
        proof {
            assert(views(relays@) =~= Seq::<RelayInfo>::empty());
            assert(views(network_interfaces@) =~= Seq::<InterfaceInfo>::empty());
            assert(views(streamers@) =~= Seq::<StreamerInfo>::empty());
        }
        RelayServiceInner {
            password,
            network_interface_filter,
            manual_streamers,
            interface_name_overrides,
            runtime_status_file,
            status: Status::default(),
            relays,
            network_interfaces,
            streamers,
            database,
        }
    }

    /// Whether there is a relay for an interface's address and a streamer's web
    /// address.
    pub fn relay_already_added(&self, interface_address: Ipv4Address, streamer_url: &String) -> (r:
        bool)
        ensures
            r == already_added(self@.relays, interface_address, streamer_url@),
    {
        let mut i: usize = 0;
        while i < self.relays.len()
            invariant
                i <= self.relays@.len(),
                forall|k: int|
                    0 <= k < i ==> (#[trigger] self@.relays[k]).interface_address
                        != interface_address || self@.relays[k].streamer_url != streamer_url@,
            decreases self.relays@.len() - i,
        {
            if self.relays[i].interface_address == interface_address && self.relays[i].streamer_url
                == *streamer_url {
                proof {
                    assert(self@.relays[i as int].interface_address == interface_address);
                }
                return true;
            }
            i = i + 1;
        }
        false
    }

    /// The name of the relays of an interface.
    fn relay_name(&self, interface_name: &String) -> (r: String)
        ensures
            r@ == self@.relay_name(interface_name@),
    {
        match self.interface_name_overrides.get(interface_name.as_str()) {
            Some(label) => label,
            None => interface_name.clone(),
        }
    }

    /// Adds the relay of an interface and a streamer. Tells whether its
    /// identity is new.
    fn add_relay(
        &mut self,
        interface_name: String,
        interface_address: Ipv4Address,
        streamer: Streamer,
    ) -> (r: (StartedRelay, bool))
        ensures
            ({
                let info = RelayInfo {
                    interface_name: interface_name@,
                    interface_address,
                    streamer_name: streamer@.name,
                    streamer_url: streamer@.url,
                };
                let id = final(self)@.database.relay_ids[interface_name@];
                &&& final(self)@ == (RelayServiceState {
                    relays: old(self)@.relays.push(info),
                    database: DatabaseInfo {
                        relay_ids: with_relay_id(
                            old(self)@.database.relay_ids,
                            interface_name@,
                            id,
                        ),
                        ..old(self)@.database
                    },
                    ..old(self)@
                })
                &&& final(self)@.starts(r.0, info)
                &&& r.1 == !old(self)@.database.relay_ids.contains_key(interface_name@)
                &&& r.1 ==> is_uuid_text(id)
            }),
    {
        let relay_name: String = self.relay_name(&interface_name);
        let relay_id: RelayId = self.database.get_relay_id(interface_name.as_str());
        let ghost before = self.relays@;
        let (relay, started) = ServiceRelay::new(
            interface_name,
            interface_address,
            relay_name,
            streamer,
            self.password.clone(),
            relay_id.id,
        );
        self.relays.push(relay);
        proof {
            assert(views(self.relays@) =~= views(before).push(relay@));
        }
        (started, relay_id.is_new)
    }

    /// Adds the relays of an interface that are missing. Tells whether an
    /// identity is new.
    fn add_relays_of(
        &mut self,
        interface_name: &String,
        interface_address: Ipv4Address,
    ) -> (r: (Vec<StartedRelay>, bool))
        ensures
            final(self)@.extends(old(self)@, r.0@, r.1),
            final(self)@.relays == with_relays_of(
                old(self)@.relays,
                interface_name@,
                interface_address,
                old(self)@.streamers,
            ),
    {
        let mut started: Vec<StartedRelay> = Vec::new();
        let mut store_database: bool = false;
        let mut i: usize = 0;
        proof {
            lemma_extends_itself(self@);
        }
        while i < self.streamers.len()
            invariant
                i <= old(self)@.streamers.len(),
                self@.extends(old(self)@, started@, store_database),
                self@.relays == with_relays_of(
                    old(self)@.relays,
                    interface_name@,
                    interface_address,
                    old(self)@.streamers.take(i as int),
                ),
            decreases old(self)@.streamers.len() - i,
        {
            let streamer: Streamer = self.streamers[i].clone();
            let ghost streamers = old(self)@.streamers;
            let ghost before = self@;
            proof {
                assert(before.streamers.len() == self.streamers@.len());
                assert(streamers.take(i + 1).drop_last() =~= streamers.take(i as int));
                assert(streamers.take(i + 1).last() == streamer@);
            }
            if !self.relay_already_added(interface_address, &streamer.url) {
                let ghost started_before = started@;
                let ghost stored_before = store_database;
                let (relay, is_new) = self.add_relay(
                    interface_name.clone(),
                    interface_address,
                    streamer,
                );
                started.push(relay);
                store_database = store_database || is_new;
                proof {
                    lemma_extends_by_one(
                        old(self)@,
                        before,
                        started_before,
                        stored_before,
                        self@,
                        relay,
                        is_new,
                    );
                }
            }
            i = i + 1;
        }
        proof {
            assert(old(self)@.streamers.take(i as int) =~= old(self)@.streamers);
        }
        (started, store_database)
    }

    /// Adds the relays that are missing. Tells whether an identity is new.
    pub fn add_relays(&mut self) -> (r: (Vec<StartedRelay>, bool))
        ensures
            final(self)@.extends(old(self)@, r.0@, r.1),
            final(self)@.relays == with_all_relays(
                old(self)@.relays,
                old(self)@.network_interfaces,
                old(self)@.streamers,
            ),
    {
        let mut started: Vec<StartedRelay> = Vec::new();
        let mut store_database: bool = false;
        let mut i: usize = 0;
        proof {
            lemma_extends_itself(self@);
        }
        while i < self.network_interfaces.len()
            invariant
                i <= old(self)@.network_interfaces.len(),
                self@.extends(old(self)@, started@, store_database),
                self@.relays == with_all_relays(
                    old(self)@.relays,
                    old(self)@.network_interfaces.take(i as int),
                    old(self)@.streamers,
                ),
            decreases old(self)@.network_interfaces.len() - i,
        {
            let ghost interfaces = old(self)@.network_interfaces;
            proof {
                assert(interfaces.take(i + 1).drop_last() =~= interfaces.take(i as int));
                assert(interfaces.take(i + 1).last() == self.network_interfaces@[i as int]@);
            }
            if let Some(address) = get_first_ipv4_address(&self.network_interfaces[i]) {
                if !address.is_loopback() {
                    let interface_name: String = self.network_interfaces[i].name.clone();
                    let ghost before = self@;
                    let ghost started_before = started@;
                    let ghost stored_before = store_database;
                    let (mut more, is_new) = self.add_relays_of(&interface_name, address);
                    let ghost more_started = more@;
                    started.append(&mut more);
                    store_database = store_database || is_new;
                    proof {
                        assert(self@.network_interfaces.len() == self.network_interfaces@.len());
                        assert(before.network_interfaces.len() == interfaces.len());
                        lemma_extends_further(
                            old(self)@,
                            before,
                            started_before,
                            stored_before,
                            self@,
                            more_started,
                            is_new,
                        );
                    }
                }
            }
            i = i + 1;
        }
        proof {
            assert(old(self)@.network_interfaces.take(i as int)
                =~= old(self)@.network_interfaces);
        }
        (started, store_database)
    }

    /// Whether an address is the first IPv4 address of one of the interfaces.
    pub fn should_keep_relay(
        network_interfaces: &Vec<NetworkInterface>,
        interface_address: Ipv4Address,
    ) -> (r: bool)
        ensures
            r == is_first_address(views(network_interfaces@), interface_address),
    {
        let ghost interfaces = views(network_interfaces@);
        let mut i: usize = 0;
        while i < network_interfaces.len()
            invariant
                interfaces == views(network_interfaces@),
                i <= network_interfaces@.len(),
                forall|k: int|
                    0 <= k < i ==> first_ipv4((#[trigger] interfaces[k]).addresses) != Some(
                        interface_address,
                    ),
            decreases network_interfaces@.len() - i,
        {
            let ghost interface = interfaces[i as int];
            let is_first: bool = match get_first_ipv4_address(&network_interfaces[i]) {
                Some(address) => address == interface_address,
                None => false,
            };
            if is_first {
                return true;
            }
            i = i + 1;
        }
        false
    }

    /// Takes out the relays whose interface's address is gone. They are to be
    /// stopped.
    pub fn remove_relays(&mut self) -> (r: Vec<ServiceRelay>)
        ensures
            final(self)@ == (RelayServiceState {
                relays: kept_relays(old(self)@.relays, old(self)@.network_interfaces),
                ..old(self)@
            }),
            views(r@) == gone_relays(old(self)@.relays, old(self)@.network_interfaces),
    {
        let mut relays: Vec<ServiceRelay> = Vec::new();
        std::mem::swap(&mut relays, &mut self.relays);
        let ghost all = views(relays@);
        let ghost interfaces = self@.network_interfaces;
        let mut relays_to_keep: Vec<ServiceRelay> = Vec::new();
        let mut relays_to_remove: Vec<ServiceRelay> = Vec::new();
        proof {
            reveal(Seq::filter);
            assert(views(relays_to_keep@) =~= kept_relays(all.take(0), interfaces));
            assert(views(relays_to_remove@) =~= gone_relays(all.take(0), interfaces));
        }
        for relay in iter: relays
            invariant
                iter.seq() == relays@,
                all == views(relays@),
                interfaces == views(self.network_interfaces@),
                views(relays_to_keep@) == kept_relays(all.take(iter.index()), interfaces),
                views(relays_to_remove@) == gone_relays(all.take(iter.index()), interfaces),
        {
            let ghost kept = relays_to_keep@;
            let ghost gone = relays_to_remove@;
            proof {
                let i = iter.index();
                assert(all.take(i + 1) =~= all.take(i).push(all[i]));
                lemma_relays_push(all.take(i), all[i], interfaces);
            }
            if Self::should_keep_relay(&self.network_interfaces, relay.interface_address) {
                relays_to_keep.push(relay);
                proof {
                    assert(views(relays_to_keep@) =~= views(kept).push(relay@));
                }
            } else {
                relays_to_remove.push(relay);
                proof {
                    assert(views(relays_to_remove@) =~= views(gone).push(relay@));
                }
            }
        }
        proof {
            assert(all.take(all.len() as int) =~= all);
        }
        self.relays = relays_to_keep;
        relays_to_remove
    }

    /// What to show to people, where it is to be shown.
    pub fn runtime_status(&self) -> (r: Option<RuntimeStatus>)
        ensures
            runtime_status_ok(self@, r),
    {
        if self.runtime_status_file.is_none() {
            return None;
        }
        let mut streamers: Vec<RuntimeStreamerStatus> = Vec::new();
        let mut i: usize = 0;
        while i < self.streamers.len()
            invariant
                i <= self.streamers@.len(),
                streamers@.len() == i,
                forall|k: int|
                    0 <= k < i ==> (#[trigger] streamers@[k]).shows(
                        self@.streamers[k],
                        host_text(url_parts(self@.streamers[k].url)),
                    ),
            decreases self.streamers@.len() - i,
        {
            let host: String = host_from_url(self.streamers[i].url.as_str());
            streamers.push(RuntimeStreamerStatus::new(&self.streamers[i], host));
            i = i + 1;
        }
        let mut relays: Vec<RuntimeRelayStatus> = Vec::new();
        let mut j: usize = 0;
        while j < self.relays.len()
            invariant
                j <= self.relays@.len(),
                relays@.len() == j,
                forall|k: int|
                    0 <= k < j ==> (#[trigger] relays@[k]).shows(
                        self@.relays[k],
                        host_text(url_parts(self@.relays[k].streamer_url)),
                    ),
            decreases self.relays@.len() - j,
        {
            let host: String = host_from_url(self.relays[j].streamer_url.as_str());
            relays.push(RuntimeRelayStatus::new(&self.relays[j], host));
            j = j + 1;
        }
        Some(
            RuntimeStatus {
                connected: self.relays.len() > 0,
                manual_streamer: self.manual_streamers.len() > 0,
                streamers,
                relays,
            },
        )
    }

    /// The file to show the service's state in.
    pub fn runtime_status_file(&self) -> (r: &Option<PathBuf>)
        ensures
            *r == self@.runtime_status_file,
    {
        &self.runtime_status_file
    }

    /// The identities of the relays.
    pub fn database(&self) -> (r: &Database)
        ensures
            r@ == self@.database,
    {
        &self.database
    }

    /// Starts the relays that are missing and takes out those whose interface's
    /// address is gone.
    pub fn updated(&mut self) -> (r: UpdateEffects)
        ensures
            update_ok(old(self)@, final(self)@, r),
            old(self)@.relays_ok() ==> final(self)@.relays_ok(),
    {
        let (started, store_database) = self.add_relays();
        let ghost middle = self@;
        let stopped: Vec<ServiceRelay> = self.remove_relays();
        proof {
            assert(middle == (RelayServiceState { relays: middle.relays, ..self@ }));
        }
        let effects: UpdateEffects = UpdateEffects {
            started,
            stopped,
            store_database,
            runtime_status: self.runtime_status(),
        };
        proof {
            if old(self)@.relays_ok() {
                law_one_relay_per_interface_and_streamer(
                    old(self)@,
                    self@,
                    effects,
                    Ipv4Address { a: 0, b: 0, c: 0, d: 0 },
                    Seq::empty(),
                );
            }
        }
        effects
    }

    /// Takes up the interfaces of this machine. Only those that pass the filter
    /// count.
    pub fn update_network_interfaces(&mut self, interfaces: Vec<NetworkInterface>)
        ensures
            final(self)@ == (RelayServiceState {
                network_interfaces: crate::interfaces::marked(
                    views(interfaces@),
                    old(self)@.network_interface_filter.marks(views(interfaces@)),
                ),
                ..old(self)@
            }),
    {
        let mut interfaces: Vec<NetworkInterface> = interfaces;
        self.network_interface_filter.filter(&mut interfaces);
        self.network_interfaces = interfaces;
    }

    /// Adds a streamer, in place of one with the same web address.
    pub fn add_streamer(&mut self, name: String, address: Ipv4Address, port: u16)
        ensures
            final(self)@ == (RelayServiceState {
                streamers: with_streamer(
                    old(self)@.streamers,
                    name@,
                    crate::web::streamer_url_text(address, port),
                ),
                ..old(self)@
            }),
    {
        let url: String = streamer_url(address, port);
        let mut streamers: Vec<Streamer> = Vec::new();
        std::mem::swap(&mut streamers, &mut self.streamers);
        let ghost all = views(streamers@);
        let mut others: Vec<Streamer> = Vec::new();
        proof {
            reveal(Seq::filter);
            assert(views(others@) =~= other_streamers(all.take(0), url@));
        }
        for streamer in iter: streamers
            invariant
                iter.seq() == streamers@,
                all == views(streamers@),
                views(others@) == other_streamers(all.take(iter.index()), url@),
        {
            let ghost before = others@;
            proof {
                let i = iter.index();
                assert(all.take(i + 1) =~= all.take(i).push(all[i]));
                assert(all.take(i + 1).drop_last() =~= all.take(i));
                reveal(Seq::filter);
            }
            if streamer.url != url {
                others.push(streamer);
                proof {
                    assert(views(others@) =~= views(before).push(streamer@));
                }
            }
        }
        proof {
            assert(all.take(all.len() as int) =~= all);
        }
        let ghost before = others@;
        others.push(Streamer { name, url });
        proof {
            assert(views(others@) =~= views(before).push(others@.last()@));
        }
        self.streamers = others;
    }

    /// Takes up a streamer that was found. One without a name or an address, or
    /// on this machine, does not count.
    ///
    /// `interfaces` are all interfaces of this machine.
    pub fn handle_streamer_found(
        &mut self,
        name: Option<String>,
        addresses: &Vec<Ipv4Address>,
        port: u16,
        interfaces: &Vec<NetworkInterface>,
    ) -> (r: Option<UpdateEffects>)
        ensures
            if found_counts(name, addresses@, views(interfaces@)) {
                &&& r matches Some(effects)
                &&& update_ok(
                    RelayServiceState {
                        streamers: with_streamer(
                            old(self)@.streamers,
                            name->0@,
                            crate::web::streamer_url_text(addresses@[0], port),
                        ),
                        ..old(self)@
                    },
                    final(self)@,
                    effects,
                )
            } else {
                r is None && final(self)@ == old(self)@
            },
            old(self)@.relays_ok() ==> final(self)@.relays_ok(),
    {
        let name: String = match name {
            Some(name) => name,
            None => {
                return None;
            },
        };
        if any_address_belongs_to_this_machine(addresses, interfaces) {
            return None;
        }
        if addresses.len() == 0 {
            return None;
        }
        proof {
            law_streamers_stay_different(
                old(self)@,
                name@,
                crate::web::streamer_url_text(addresses@[0], port),
            );
        }
        self.add_streamer(name, addresses[0], port);
        Some(self.updated())
    }

    /// Starts the service. Streamers that were given by hand are used in place
    /// of those that could be found.
    pub fn start(&mut self) -> (r: ServiceStart)
        ensures
            r.find_streamers == (old(self)@.manual_streamers.len() == 0),
            r.find_streamers ==> final(self)@ == old(self)@ && r.update is None,
            !r.find_streamers ==> {
                &&& r.update matches Some(effects)
                &&& update_ok(
                    RelayServiceState { streamers: old(self)@.manual_streamers, ..old(self)@ },
                    final(self)@,
                    effects,
                )
            },
            runtime_status_ok(final(self)@, r.runtime_status),
            old(self)@.relays.len() == 0 ==> final(self)@.relays_ok(),
    {
        let find_streamers: bool = self.manual_streamers.len() == 0;
        let update: Option<UpdateEffects> = if find_streamers {
            None
        } else {
            let mut streamers: Vec<Streamer> = Vec::new();
            let mut i: usize = 0;
            while i < self.manual_streamers.len()
                invariant
                    i <= self.manual_streamers@.len(),
                    streamers@.len() == i,
                    forall|k: int|
                        0 <= k < i ==> (#[trigger] streamers@[k])@ == self.manual_streamers@[k]@,
                decreases self.manual_streamers@.len() - i,
            {
                streamers.push(self.manual_streamers[i].clone());
                i = i + 1;
            }
            proof {
                assert(views(streamers@) =~= self@.manual_streamers);
            }
            self.streamers = streamers;
            Some(self.updated())
        };
        ServiceStart { find_streamers, update, runtime_status: self.runtime_status() }
    }

    /// Takes up the device's state, where it could be asked for.
    pub fn update_status(&mut self, status: Option<Status>)
        ensures
            final(self)@ == (RelayServiceState {
                status: match status {
                    Some(status) => status,
                    None => Status { battery_percentage: None },
                },
                ..old(self)@
            }),
    {
        self.status = match status {
            Some(status) => status,
            None => Status::default(),
        };
    }

    /// The device's state that the relays tell.
    pub fn status(&self) -> (r: Status)
        ensures
            r == self@.status,
    {
        self.status
    }
}

/// What the start of a service takes, in this order.
#[derive(Debug)]
pub struct ServiceStart {
    /// Whether to find streamers.
    pub find_streamers: bool,
    pub update: Option<UpdateEffects>,
    /// What to show to people, where it is to be shown.
    pub runtime_status: Option<RuntimeStatus>,
}

/// The text before the first equals sign names the interface, the text behind it
/// is the label, and the white space around them does not count. A text without
/// an equals sign, an interface or a label names none.
pub proof fn law_interface_label(interface: Seq<char>, label: Seq<char>, value: Seq<char>)
    ensures
        !value.contains('=') ==> override_of(value) is None,
        !interface.contains('=') ==> override_of(interface + seq!['='] + label) == if trimmed(
            interface,
        ).len() == 0 || trimmed(label).len() == 0 {
            None
        } else {
            Some((trimmed(interface), trimmed(label)))
        },
{
    crate::text::law_split_text(interface, label, value, '=');
}

/// Each text gives its interface its label, in place of an earlier one, and
/// leaves the labels of other interfaces alone.
pub proof fn law_interface_labels(values: Seq<Seq<char>>, value: Seq<char>, name: Seq<char>)
    ensures
        !overrides_of(Seq::empty()).contains_key(name),
        ({
            let before = overrides_of(values);
            let after = overrides_of(values.push(value));
            match override_of(value) {
                Some((interface, label)) => if name == interface {
                    after.contains_key(name) && after[name] == label
                } else {
                    &&& after.contains_key(name) <==> before.contains_key(name)
                    &&& before.contains_key(name) ==> after[name] == before[name]
                },
                None => after == before,
            }
        }),
{
    assert(values.push(value).drop_last() =~= values);
}

/// A streamer whose web address was given has that address, and is named by the
/// host in it, or by the address where that names none. A text that is no web
/// address is no streamer.
pub proof fn law_given_streamer(value: Seq<char>, text: Seq<char>, host: Seq<char>)
    ensures
        manual_streamer_of(value, Some((text, Some(host)))) == Some(
            StreamerInfo { name: host, url: value },
        ),
        manual_streamer_of(value, Some((text, None))) == Some(
            StreamerInfo { name: value, url: value },
        ),
        manual_streamer_of(value, None) is None,
{
}

/// The streamers whose web addresses were given stand in the order of the
/// addresses, and only texts that are no web addresses are left out.
pub proof fn law_given_streamers(values: Seq<Seq<char>>, value: Seq<char>)
    ensures
        manual_streamers_of(Seq::empty()).len() == 0,
        manual_streamers_of(values.push(value)) == match url_parts(value) {
            Some((_, Some(host))) => manual_streamers_of(values).push(
                StreamerInfo { name: host, url: value },
            ),
            Some((_, None)) => manual_streamers_of(values).push(
                StreamerInfo { name: value, url: value },
            ),
            None => manual_streamers_of(values),
        },
{
    assert(values.push(value).drop_last() =~= values);
}

/// Streamers and relays are taken by what they hold.
pub proof fn law_service_views(streamer: Streamer, relay: ServiceRelay)
    ensures
        streamer@.name == streamer.name@,
        streamer@.url == streamer.url@,
        relay@.interface_name == relay.interface_name@,
        relay@.interface_address == relay.interface_address,
        relay@.streamer_name == relay.streamer_name@,
        relay@.streamer_url == relay.streamer_url@,
{
}

/// What is shown of a streamer and of a relay is what they hold, with the
/// address in dot-decimal notation and the streamer's host.
pub proof fn law_what_is_shown(
    shown: RuntimeStreamerStatus,
    streamer: StreamerInfo,
    shown_relay: RuntimeRelayStatus,
    relay: RelayInfo,
    host: Seq<char>,
)
    ensures
        shown.shows(streamer, host) <==> shown.name@ == streamer.name && shown.url@ == streamer.url
            && shown.host@ == host,
        shown_relay.shows(relay, host) <==> {
            &&& shown_relay.interface_name@ == relay.interface_name
            &&& shown_relay.interface_address@ == ipv4_text(relay.interface_address)
            &&& shown_relay.streamer_name@ == relay.streamer_name
            &&& shown_relay.streamer_url@ == relay.streamer_url
            &&& shown_relay.streamer_host@ == host
        },
{
}

/// A relay that is started is bound to its interface's address, has its name,
/// the password and its identity, connects to its streamer, and has nothing
/// open yet.
pub proof fn law_started_relay(
    started: StartedRelay,
    info: RelayInfo,
    relay_name: Seq<char>,
    password: Seq<char>,
    relay_id: Seq<char>,
)
    requires
        started.is_start_of(info, relay_name, password, relay_id),
    ensures
        started.interface_address == info.interface_address,
        started.streamer_url@ == info.streamer_url,
        started.relay@.bind_address == ipv4_text(info.interface_address),
        started.relay@.name == relay_name,
        started.relay@.password == password,
        started.relay@.relay_id == relay_id,
        started.relay@.streamer_url == info.streamer_url,
        started.relay@.started,
        started.relay@.on_status_updated && started.relay@.get_status,
        !started.relay@.ws_writer && !started.relay@.connected && !started.relay@.wrong_password,
        started.relay@.reconnect_on_tunnel_error is None,
        started.relay@.start_on_reconnect_soon is None,
        started.relay@.tunnels.len() == 0 && started.relay@.timers.len() == 0,
        match url_parts(info.streamer_url) {
            Some((text, _)) => started.effects matches StartEffects::Connect(url) && url@ == text,
            None => started.effects == StartEffects::Nothing,
        },
{
}

/// The interfaces are looked at every three seconds, and the device's state is
/// asked for every five.
pub proof fn law_service_delays()
    ensures
        INTERFACES_INTERVAL_SECONDS == 3,
        STATUS_INTERVAL_SECONDS == 5,
{
}

} // verus!

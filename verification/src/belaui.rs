//! The streaming destination as configured in belaUI.
use vstd::prelude::*;

verus! {

/// Where belaUI keeps its configuration.
pub const CONFIG_JSON_PATH: &'static str = "/opt/belaUI/config.json";

/// Where belaUI keeps the relay servers it knows.
pub const RELAYS_CACHE_JSON_PATH: &'static str = "/opt/belaUI/relays_cache.json";

/// The parts of the configuration that name the destination.
#[derive(Debug)]
pub struct ConfigJson {
    pub srtla_addr: Option<String>,
    pub srtla_port: Option<u16>,
    pub relay_server: Option<String>,
}

/// A relay server.
#[derive(Debug)]
pub struct RelaysCacheRelay {
    pub addr: String,
    pub port: u16,
}

/// A relay server under its name.
#[derive(Debug)]
pub struct RelaysCacheServer {
    pub name: String,
    pub relay: RelaysCacheRelay,
}

/// The known relay servers.
#[derive(Debug)]
pub struct RelaysCacheJson {
    pub servers: Vec<RelaysCacheServer>,
}

/// Why there is no destination.
#[derive(Clone, Copy, PartialEq, Eq, Structural, Debug)]
pub enum ConfigError {
    SrtlaAddressMissing,
    SrtlaPortMissing,
    RelayServerMissing,
    RelayServerEntryMissing,
}

impl ConfigError {
    /// The error in words.
    pub fn text(&self) -> (r: &'static str)
        ensures
            r@ == match *self {
                ConfigError::SrtlaAddressMissing => "SRTLA address missing"@,
                ConfigError::SrtlaPortMissing => "SRTLA port missing"@,
                ConfigError::RelayServerMissing => "Relay server missing"@,
                ConfigError::RelayServerEntryMissing => "Relay server entry mising"@,
            },
    {
        match self {
            ConfigError::SrtlaAddressMissing => "SRTLA address missing",
            ConfigError::SrtlaPortMissing => "SRTLA port missing",
            ConfigError::RelayServerMissing => "Relay server missing",
            ConfigError::RelayServerEntryMissing => "Relay server entry mising",
        }
    }
}

/// The address and port that a manual configuration names.
pub open spec fn manual_destination(config: ConfigJson) -> Result<(Seq<char>, u16), ConfigError> {
    match (config.srtla_addr, config.srtla_port) {
        (None, _) => Err(ConfigError::SrtlaAddressMissing),
        (Some(_), None) => Err(ConfigError::SrtlaPortMissing),
        (Some(address), Some(port)) => Ok((address@, port)),
    }
}

/// The address and port of the first server with a name.
pub open spec fn server_named(servers: Seq<RelaysCacheServer>, name: Seq<char>) -> Option<
    (Seq<char>, u16),
>
    decreases servers.len(),
{
    if servers.len() == 0 {
        None
    } else if servers[0].name@ == name {
        Some((servers[0].relay.addr@, servers[0].relay.port))
    } else {
        server_named(servers.drop_first(), name)
    }
}

/// The address and port of the relay server that a configuration names.
pub open spec fn cloud_destination(config: ConfigJson, cache: RelaysCacheJson) -> Result<
    (Seq<char>, u16),
    ConfigError,
> {
    match config.relay_server {
        None => Err(ConfigError::RelayServerMissing),
        Some(name) => match server_named(cache.servers@, name@) {
            None => Err(ConfigError::RelayServerEntryMissing),
            Some(destination) => Ok(destination),
        },
    }
}

/// An address and port, or an error, as plain values.
pub open spec fn destination_view(r: Result<(String, u16), ConfigError>) -> Result<
    (Seq<char>, u16),
    ConfigError,
> {
    match r {
        Ok((address, port)) => Ok((address@, port)),
        Err(error) => Err(error),
    }
}

/// Where to stream to.
#[derive(Debug)]
pub struct Config {
    address: String,
    port: u16,
}

impl View for Config {
    type V = (Seq<char>, u16);

    closed spec fn view(&self) -> (Seq<char>, u16) {
        (self.address@, self.port)
    }
}

/// What is left to do after the configuration was read.
#[derive(Debug)]
pub enum ConfigStep {
    Done(Config),
    ReadRelaysCache,
}

impl Config {
    /// The destination with an address and port.
    pub fn new(address: String, port: u16) -> (r: Config)
        ensures
            r@ == (address@, port),
    {
        Config { address, port }
    }

    /// Takes the destination from a configuration. Only where it is not
    /// manual, and names a relay server, are the known servers needed.
    pub fn from_json(config: &ConfigJson) -> (r: Result<ConfigStep, ConfigError>)
        ensures
            if config.srtla_addr is Some {
                match manual_destination(*config) {
                    Ok(destination) => r matches Ok(ConfigStep::Done(done)) && done@ == destination,
                    Err(error) => r == Err::<ConfigStep, ConfigError>(error),
                }
            } else if config.relay_server is Some {
                r == Ok::<ConfigStep, ConfigError>(ConfigStep::ReadRelaysCache)
            } else {
                r == Err::<ConfigStep, ConfigError>(ConfigError::RelayServerMissing)
            },
    {
        if Self::is_manual_configuration(config) {
            match Self::get_manual_configuration(config) {
                Ok((address, port)) => Ok(ConfigStep::Done(Config { address, port })),
                Err(error) => Err(error),
            }
        } else if config.relay_server.is_some() {
            Ok(ConfigStep::ReadRelaysCache)
        } else {
            Err(ConfigError::RelayServerMissing)
        }
    }

    /// Takes the destination from the known relay servers.
    pub fn from_relays_cache(config: &ConfigJson, cache: &RelaysCacheJson) -> (r: Result<
        Config,
        ConfigError,
    >)
        ensures
            match cloud_destination(*config, *cache) {
                Ok(destination) => r matches Ok(done) && done@ == destination,
                Err(error) => r == Err::<Config, ConfigError>(error),
            },
    {
        match Self::get_belabox_cloud_configuration(config, cache) {
            Ok((address, port)) => Ok(Config { address, port }),
            Err(error) => Err(error),
        }
    }

    /// The destination's address.
    pub fn get_address(&self) -> (r: String)
        ensures
            r@ == self@.0,
    {
        self.address.clone()
    }

    /// The destination's port.
    pub fn get_port(&self) -> (r: u16)
        ensures
            r == self@.1,
    {
        self.port
    }

    /// Whether the destination is configured by hand.
    pub fn is_manual_configuration(config: &ConfigJson) -> (r: bool)
        ensures
            r == (config.srtla_addr is Some),
    {
        config.srtla_addr.is_some()
    }

    /// The destination that is configured by hand.
    pub fn get_manual_configuration(config: &ConfigJson) -> (r: Result<(String, u16), ConfigError>)
        ensures
            destination_view(r) == manual_destination(*config),
    {
        let srtla_addr: &String = match &config.srtla_addr {
            Some(srtla_addr) => srtla_addr,
            None => {
                return Err(ConfigError::SrtlaAddressMissing);
            },
        };
        let srtla_port: u16 = match config.srtla_port {
            Some(srtla_port) => srtla_port,
            None => {
                return Err(ConfigError::SrtlaPortMissing);
            },
        };
        Ok((srtla_addr.clone(), srtla_port))
    }

    /// The relay server that the configuration names.
    pub fn get_belabox_cloud_configuration(config: &ConfigJson, cache: &RelaysCacheJson) -> (r:
        Result<(String, u16), ConfigError>)
        ensures
            destination_view(r) == cloud_destination(*config, *cache),
    {
        let name: &String = match &config.relay_server {
            Some(name) => name,
            None => {
                return Err(ConfigError::RelayServerMissing);
            },
        };
        let servers: &Vec<RelaysCacheServer> = &cache.servers;
        let mut i: usize = 0;
        proof {
            assert(servers@.skip(0) =~= servers@);
        }
        while i < servers.len()
            invariant
                config.relay_server == Some(*name),
                *servers == cache.servers,
                i <= servers@.len(),
                server_named(servers@, name@) == server_named(servers@.skip(i as int), name@),
            decreases servers@.len() - i,
        {
            if servers[i].name == *name {
                return Ok((servers[i].relay.addr.clone(), servers[i].relay.port));
            }
            proof {
                assert(servers@.skip(i as int).drop_first() =~= servers@.skip(i + 1));
            }
            i = i + 1;
        }
        Err(ConfigError::RelayServerEntryMissing)
    }
}

/// A manual configuration names the address and the port that it holds, and
/// both have to be there.
pub proof fn law_manual_destination(config: ConfigJson)
    ensures
        manual_destination(config) is Ok <==> config.srtla_addr is Some && config.srtla_port is Some,
        manual_destination(config) matches Ok((address, port)) ==> {
            &&& config.srtla_addr matches Some(text) && text@ == address
            &&& config.srtla_port == Some(port)
        },
        manual_destination(config) == Err::<(Seq<char>, u16), ConfigError>(
            ConfigError::SrtlaAddressMissing,
        ) <==> config.srtla_addr is None,
        manual_destination(config) == Err::<(Seq<char>, u16), ConfigError>(
            ConfigError::SrtlaPortMissing,
        ) <==> config.srtla_addr is Some && config.srtla_port is None,
{
}

/// The server with a name is the first one that has it.
pub proof fn law_server_named(servers: Seq<RelaysCacheServer>, name: Seq<char>)
    ensures
        match server_named(servers, name) {
            Some((address, port)) => exists|i: int|
                {
                    &&& 0 <= i < servers.len()
                    &&& (#[trigger] servers[i]).name@ == name
                    &&& servers[i].relay.addr@ == address
                    &&& servers[i].relay.port == port
                    &&& forall|j: int| 0 <= j < i ==> (#[trigger] servers[j]).name@ != name
                },
            None => forall|j: int| 0 <= j < servers.len() ==> (#[trigger] servers[j]).name@ != name,
        },
    decreases servers.len(),
{
    if servers.len() > 0 && servers[0].name@ != name {
        let rest = servers.drop_first();
        law_server_named(rest, name);
        assert forall|j: int| 0 < j < servers.len() implies servers[j] == rest[j - 1] by {}
        if let Some((address, port)) = server_named(rest, name) {
            let i = choose|i: int|
                {
                    &&& 0 <= i < rest.len()
                    &&& (#[trigger] rest[i]).name@ == name
                    &&& rest[i].relay.addr@ == address
                    &&& rest[i].relay.port == port
                    &&& forall|j: int| 0 <= j < i ==> (#[trigger] rest[j]).name@ != name
                };
            assert(servers[i + 1].name@ == name);
            assert forall|j: int| 0 <= j < i + 1 implies (#[trigger] servers[j]).name@ != name by {
                if j > 0 {
                    assert(rest[j - 1].name@ != name);
                }
            }
        } else {
            assert forall|j: int| 0 <= j < servers.len() implies (#[trigger] servers[j]).name@
                != name by {
                if j > 0 {
                    assert(rest[j - 1].name@ != name);
                }
            }
        }
    } else if servers.len() > 0 {
        assert(servers[0].name@ == name);
    }
}

/// The destination of a configuration that names a relay server is that
/// server, where it is known.
pub proof fn law_cloud_destination(config: ConfigJson, cache: RelaysCacheJson, name: String)
    ensures
        config.relay_server is None ==> cloud_destination(config, cache) == Err::<
            (Seq<char>, u16),
            ConfigError,
        >(ConfigError::RelayServerMissing),
        config.relay_server == Some(name) ==> match server_named(cache.servers@, name@) {
            Some(destination) => cloud_destination(config, cache) == Ok::<
                (Seq<char>, u16),
                ConfigError,
            >(destination),
            None => cloud_destination(config, cache) == Err::<(Seq<char>, u16), ConfigError>(
                ConfigError::RelayServerEntryMissing,
            ),
        },
{
}

/// A destination is taken by its address and its port.
pub proof fn law_destination_view(address: String, port: u16, error: ConfigError)
    ensures
        destination_view(Ok((address, port))) == Ok::<(Seq<char>, u16), ConfigError>(
            (address@, port),
        ),
        destination_view(Err(error)) == Err::<(Seq<char>, u16), ConfigError>(error),
{
}

/// Where belaUI keeps its files.
pub proof fn law_belaui_files()
    ensures
        CONFIG_JSON_PATH@ == "/opt/belaUI/config.json"@,
        RELAYS_CACHE_JSON_PATH@ == "/opt/belaUI/relays_cache.json"@,
{
}

} // verus!

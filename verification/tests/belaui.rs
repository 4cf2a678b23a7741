use moblink_rust::belaui::{
    Config, ConfigError, ConfigJson, ConfigStep, RelaysCacheJson, RelaysCacheRelay,
    RelaysCacheServer, CONFIG_JSON_PATH, RELAYS_CACHE_JSON_PATH,
};

fn config(address: Option<&str>, port: Option<u16>, server: Option<&str>) -> ConfigJson {
    ConfigJson {
        srtla_addr: address.map(|text| text.to_string()),
        srtla_port: port,
        relay_server: server.map(|text| text.to_string()),
    }
}

fn server(name: &str, addr: &str, port: u16) -> RelaysCacheServer {
    RelaysCacheServer {
        name: name.to_string(),
        relay: RelaysCacheRelay { addr: addr.to_string(), port },
    }
}

#[test]
fn a_manual_configuration_names_the_destination() {
    let json = config(Some("1.2.3.4"), Some(5000), Some("eu1"));
    assert!(Config::is_manual_configuration(&json));
    match Config::from_json(&json) {
        Ok(ConfigStep::Done(done)) => {
            assert_eq!(done.get_address(), "1.2.3.4");
            assert_eq!(done.get_port(), 5000);
        }
        other => panic!("{:?}", other),
    }
}

#[test]
fn a_manual_configuration_needs_a_port() {
    let json = config(Some("1.2.3.4"), None, Some("eu1"));
    assert!(matches!(Config::from_json(&json), Err(ConfigError::SrtlaPortMissing)));
}

#[test]
fn a_manual_configuration_needs_an_address() {
    let json = config(None, Some(5000), None);
    assert!(!Config::is_manual_configuration(&json));
    assert_eq!(
        Config::get_manual_configuration(&json),
        Err(ConfigError::SrtlaAddressMissing)
    );
}

#[test]
fn a_cloud_configuration_names_a_relay_server() {
    let json = config(None, Some(1), Some("eu2"));
    assert!(matches!(Config::from_json(&json), Ok(ConfigStep::ReadRelaysCache)));
    let cache = RelaysCacheJson {
        servers: vec![server("eu1", "a.example", 1), server("eu2", "b.example", 2)],
    };
    let done = Config::from_relays_cache(&json, &cache).unwrap();
    assert_eq!(done.get_address(), "b.example");
    assert_eq!(done.get_port(), 2);
}

#[test]
fn a_cloud_configuration_needs_a_known_relay_server() {
    let cache = RelaysCacheJson { servers: vec![server("eu1", "a.example", 1)] };
    assert!(matches!(
        Config::from_relays_cache(&config(None, None, Some("eu2")), &cache),
        Err(ConfigError::RelayServerEntryMissing)
    ));
    let nothing = config(None, None, None);
    assert!(matches!(Config::from_json(&nothing), Err(ConfigError::RelayServerMissing)));
    assert!(matches!(
        Config::from_relays_cache(&nothing, &cache),
        Err(ConfigError::RelayServerMissing)
    ));
}

#[test]
fn configuration_errors_have_words() {
    assert_eq!(ConfigError::SrtlaAddressMissing.text(), "SRTLA address missing");
    assert_eq!(ConfigError::SrtlaPortMissing.text(), "SRTLA port missing");
    assert_eq!(ConfigError::RelayServerMissing.text(), "Relay server missing");
    assert_eq!(ConfigError::RelayServerEntryMissing.text(), "Relay server entry mising");
    assert_eq!(CONFIG_JSON_PATH, "/opt/belaUI/config.json");
    assert_eq!(RELAYS_CACHE_JSON_PATH, "/opt/belaUI/relays_cache.json");
    assert_eq!(Config::new("x".to_string(), 3).get_port(), 3);
}

//! The arguments of the programs, and the endpoints that they name.

use iroh_fm::cli::{missing_value, parse_config, parse_server_config};
use iroh_fm::config::{IrohConfig, SubsonicConfig};
use iroh_fm::network::{
    backend_addr_from_config, check_secret, invalid_flag, override_relay, parse_peers, parse_relay,
    peer_allowed, relays_for_log, BackendAddress,
};

fn args(text: &[&str]) -> Vec<String> {
    text.iter().map(|arg| arg.to_string()).collect()
}

fn server_error(text: &[&str]) -> String {
    match parse_server_config(&args(text)) {
        Err(error) => error.message(),
        Ok(_) => panic!("an error was expected"),
    }
}

fn subsonic_error(text: &[&str]) -> String {
    match parse_config(&args(text)) {
        Err(error) => error.message(),
        Ok(_) => panic!("an error was expected"),
    }
}

fn endpoint_id(seed: u8) -> iroh::EndpointId {
    iroh::SecretKey::from_bytes(&[seed; 32]).public()
}

fn relay(url: &str) -> iroh::RelayUrl {
    url.parse().unwrap()
}

#[test]
fn server_takes_its_flags_in_any_order() {
    let said = parse_server_config(&args(&[
        "--peer", "a", "--secret", "s", "--music-dir", "/m", "--relay", "r", "--peer", "b",
        "--lastfm-api-key", "k",
    ]))
    .unwrap();
    assert_eq!(said.music_dir, "/m");
    assert_eq!(said.lastfm_api_key, Some("k".to_string()));
    assert_eq!(said.iroh.secret, Some("s".to_string()));
    assert_eq!(said.iroh.relay, Some("r".to_string()));
    assert_eq!(said.iroh.peers, vec!["a", "b"]);
}

#[test]
fn later_flag_overrides_the_earlier() {
    let said =
        parse_server_config(&args(&["--music-dir", "/a", "--music-dir", "/b"])).unwrap();
    assert_eq!(said.music_dir, "/b");
    assert!(said.iroh.peers.is_empty());
}

#[test]
fn server_refuses_what_it_does_not_understand() {
    assert_eq!(
        server_error(&["--secret", "s"]),
        "invalid request: expected --music-dir /path/to/music"
    );
    assert_eq!(
        server_error(&["--music-dir"]),
        "invalid request: expected --music-dir /path/to/music"
    );
    assert_eq!(
        server_error(&["--music-dir", "/m", "--relay"]),
        "invalid request: missing value for flag"
    );
    assert_eq!(server_error(&["/m"]), "invalid request: unknown argument: /m");
    assert_eq!(missing_value().message(), "invalid request: missing value for flag");
}

#[test]
fn subsonic_frontend_has_defaults() {
    let config = parse_config(&args(&["--endpoint", "e"])).unwrap();
    assert_eq!(config.bind, "127.0.0.1:4040");
    assert_eq!(config.username, "admin");
    assert_eq!(config.password, "admin");
    assert_eq!(config.endpoint, "e");
    assert_eq!(config.ticket, None);
}

#[test]
fn subsonic_frontend_takes_all_flags() {
    let config = parse_config(&args(&[
        "--bind", "b", "--ticket", "t", "--relay", "r", "--secret", "s", "--username", "u",
        "--password", "p",
    ]))
    .unwrap();
    assert_eq!(config.bind, "b");
    assert_eq!(config.ticket, Some("t".to_string()));
    assert_eq!(config.relay, Some("r".to_string()));
    assert_eq!(config.secret, Some("s".to_string()));
    assert_eq!(config.username, "u");
    assert_eq!(config.password, "p");
}

#[test]
fn subsonic_frontend_needs_a_backend() {
    assert_eq!(subsonic_error(&[]), "invalid request: expected --endpoint or --ticket");
    assert_eq!(
        subsonic_error(&["--endpoint", " ", "--ticket", " "]),
        "invalid request: expected --endpoint or --ticket"
    );
    assert_eq!(subsonic_error(&["--ticket"]), "invalid request: missing value for flag");
    assert_eq!(subsonic_error(&["--peer", "x"]), "invalid request: unknown argument: --peer");
}

#[test]
fn secret_has_to_be_a_key() {
    assert!(check_secret(&None).is_ok());
    assert!(check_secret(&Some("01".repeat(32))).is_ok());
    match check_secret(&Some("no key".to_string())) {
        Err(error) => {
            assert_eq!(error.message(), "invalid request: invalid --secret: invalid length")
        }
        Ok(()) => panic!("an error was expected"),
    }
}

#[test]
fn relay_has_to_be_an_address() {
    assert_eq!(parse_relay(&None).unwrap(), None);
    assert_eq!(
        parse_relay(&Some("https://relay.example.com".to_string())).unwrap(),
        Some("https://relay.example.com/".to_string())
    );
    match parse_relay(&Some("relay".to_string())) {
        Err(error) => assert_eq!(
            error.message(),
            "invalid request: invalid --relay: Failed to parse relay URL"
        ),
        Ok(_) => panic!("an error was expected"),
    }
}

#[test]
fn listed_peers_are_let_in() {
    let first = endpoint_id(1);
    let second = endpoint_id(2);
    let allowed = parse_peers(&vec![first.to_string()]).unwrap();
    assert_eq!(allowed, vec![first.as_bytes().to_vec()]);
    assert!(peer_allowed(&allowed, &first.as_bytes().to_vec()));
    assert!(!peer_allowed(&allowed, &second.as_bytes().to_vec()));
    let everybody = parse_peers(&IrohConfig::default().peers).unwrap();
    assert!(peer_allowed(&everybody, &second.as_bytes().to_vec()));
    match parse_peers(&vec![first.to_string(), "nobody".to_string()]) {
        Err(error) => {
            assert_eq!(error.message(), "invalid request: invalid --peer: invalid length")
        }
        Ok(_) => panic!("an error was expected"),
    }
    match parse_peers(&vec!["x".repeat(64), "nobody".to_string()]) {
        Err(error) => assert_eq!(
            error.message(),
            "invalid request: invalid --peer: failed to decode hex string"
        ),
        Ok(_) => panic!("an error was expected"),
    }
    assert_eq!(invalid_flag("--x", "y").message(), "invalid request: invalid --x: y");
}

#[test]
fn endpoint_is_reached_through_the_relay() {
    let id = endpoint_id(3);
    let config = SubsonicConfig { endpoint: id.to_string(), ..SubsonicConfig::default() };
    let address = backend_addr_from_config(&config, None).unwrap();
    assert_eq!(address.id, id.as_bytes().to_vec());
    assert!(address.routes.is_empty());
    assert_eq!(relays_for_log(&address), "<none>");
    let address =
        backend_addr_from_config(&config, Some("https://r.example/".to_string())).unwrap();
    assert_eq!(address.routes, vec!["relay:https://r.example/"]);
    assert_eq!(relays_for_log(&address), "https://r.example/");
}

#[test]
fn relay_overrides_that_of_the_ticket() {
    let id = endpoint_id(4);
    let addr = iroh::EndpointAddr::new(id)
        .with_relay_url(relay("https://old.example"))
        .with_ip_addr("127.0.0.1:9000".parse().unwrap());
    let ticket = iroh_tickets::endpoint::EndpointTicket::new(addr).to_string();
    let config = SubsonicConfig {
        ticket: Some(ticket),
        endpoint: "ignored".to_string(),
        ..SubsonicConfig::default()
    };
    let address = backend_addr_from_config(&config, None).unwrap();
    assert_eq!(address.id, id.as_bytes().to_vec());
    assert_eq!(address.routes, vec!["relay:https://old.example/", "ip:127.0.0.1:9000"]);
    let address =
        backend_addr_from_config(&config, Some("https://new.example/".to_string())).unwrap();
    assert_eq!(address.routes, vec!["ip:127.0.0.1:9000", "relay:https://new.example/"]);
    assert_eq!(
        override_relay(vec!["relay:a".to_string()], Some("b".to_string())),
        vec!["relay:b"]
    );
}

#[test]
fn address_that_makes_no_sense_is_refused() {
    let told = |config: SubsonicConfig| match backend_addr_from_config(&config, None) {
        Err(error) => error.message(),
        Ok(_) => panic!("an error was expected"),
    };
    let config = SubsonicConfig { endpoint: "nobody".to_string(), ..SubsonicConfig::default() };
    assert_eq!(told(config), "invalid request: invalid --endpoint: invalid length");
    let config = SubsonicConfig { ticket: Some("paper".to_string()), ..SubsonicConfig::default() };
    assert_eq!(
        told(config),
        "invalid request: invalid --ticket: wrong prefix, expected endpoint"
    );
}

#[test]
fn relays_are_joined_for_the_log() {
    let address = BackendAddress {
        id: vec![],
        routes: args(&["relay:a", "ip:127.0.0.1:1", "relay:b"]),
    };
    assert_eq!(relays_for_log(&address), "a,b");
}

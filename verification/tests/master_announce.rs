use plix_server::master_announce::config::AnnounceDecision;
use plix_server::master_announce::config::MasterConfig;
use plix_server::master_announce::heartbeat::{build_request, HeartbeatState};

#[test]
fn test_default_config_disabled() {
    let config = MasterConfig::default();
    assert!(!config.enabled);
    assert!(config.url.is_empty());
}

#[test]
fn test_new_config_enabled() {
    let config = MasterConfig::new("http://localhost:8080", "My Server");
    assert!(config.enabled);
    assert_eq!(config.url, "http://localhost:8080");
    assert_eq!(config.name, "My Server");
}

#[test]
fn config_test_builder_pattern() {
    let config = MasterConfig::new("http://master.example.com", "Test Server")
        .with_region("eu-west")
        .with_tags(vec!["competitive".to_string(), "ranked".to_string()])
        .with_game_modes(vec!["ctf".to_string()]);

    assert_eq!(config.region, "eu-west");
    assert_eq!(config.tags, vec!["competitive", "ranked"]);
    assert_eq!(config.game_modes, vec!["ctf"]);
}

#[test]
fn default_config_values() {
    let config = MasterConfig::default();
    assert_eq!(config.name, "Plix Server");
    assert_eq!(config.region, "unknown");
    assert_eq!(config.heartbeat_interval_secs, 20);
    assert!(config.tags.is_empty());
    assert_eq!(config.game_modes, vec!["ffa"]);
}

#[test]
fn test_heartbeat_state_default() {
    let state = HeartbeatState::default();
    assert_eq!(state.get_player_count(), 0);
}

#[test]
fn test_heartbeat_state_update() {
    let state = HeartbeatState::new();
    assert_eq!(state.get_player_count(), 0);

    state.set_player_count(5);
    assert_eq!(state.get_player_count(), 5);

    state.set_player_count(10);
    assert_eq!(state.get_player_count(), 10);
}

#[test]
fn test_build_request() {
    let config = MasterConfig::new("http://localhost:8080", "Test Server")
        .with_region("eu-west")
        .with_tags(vec!["test".to_string()])
        .with_game_modes(vec!["ffa".to_string(), "ctf".to_string()]);

    let state = HeartbeatState::new();
    state.set_player_count(3);

    let request = build_request(
        &config,
        "192.168.1.100",
        7777,
        state.get_player_count(),
        16,
        "0.1.0",
    );
    assert_eq!(request.name, "Test Server");
    assert_eq!(request.host, "192.168.1.100");
    assert_eq!(request.port, 7777);
    assert_eq!(request.region, "eu-west");
    assert_eq!(request.tags, vec!["test"]);
    assert_eq!(request.player_count, 3);
    assert_eq!(request.max_players, 16);
    assert_eq!(request.game_modes, vec!["ffa", "ctf"]);
}

#[test]
fn test_build_request_protocol_version() {
    let config = MasterConfig::new("http://localhost:8080", "Test");
    let state = HeartbeatState::new();

    let request = build_request(&config, "127.0.0.1", 7777, state.get_player_count(), 8, "0.1.0");
    // Protocol version is the one handed in
    assert!(!request.protocol_version.is_empty());
    assert_eq!(request.protocol_version, "0.1.0");
}

#[test]
fn announce_decision_follows_config() {
    assert_eq!(MasterConfig::default().announce_decision(), AnnounceDecision::Disabled);
    assert_eq!(MasterConfig::new("", "srv").announce_decision(), AnnounceDecision::MissingUrl);
    assert_eq!(
        MasterConfig::new("https://master.example", "srv").announce_decision(),
        AnnounceDecision::Announce
    );
}

use battletanks::config::{Config, GameConfig, ServerConfig};

#[test]
fn test_default_server_config() {
    let config = ServerConfig::default();
    assert_eq!(config.port, 8080);
    assert_eq!(config.host, "127.0.0.1");
    assert_eq!(config.max_players, 50);
    assert_eq!(config.tick_rate, 30);
    assert_eq!(config.physics_timestep, 1_000_000 / 30);
}

#[test]
fn test_default_game_config() {
    let config = GameConfig::default();
    assert_eq!(config.map_size, 500_000);
    assert_eq!(config.round_duration, 600_000_000);
    assert_eq!(config.respawn_delay, 3_000_000);
    assert_eq!(config.spawn_protection_duration, 1_000_000);
    assert_eq!(config.npc_count, 15);
    assert_eq!(config.projectile_speed, 50_000);
    assert_eq!(config.tank_speed, 10_000);
}

#[test]
fn test_server_address() {
    let config = Config::default();
    assert_eq!(config.server_address(), "127.0.0.1:8080");
}

#[test]
fn test_durations() {
    let config = Config::default();
    let tick_duration = config.tick_duration();
    let physics_duration = config.physics_timestep_duration();
    assert_eq!(tick_duration, 33_333);
    assert_eq!(physics_duration, 33_333);
}

#[test]
fn server_address_prints_every_port() {
    let mut config = Config::default();
    config.server.host = "example.org".to_string();
    config.server.port = 0;
    assert_eq!(config.server_address(), "example.org:0");
    config.server.port = 65535;
    assert_eq!(config.server_address(), "example.org:65535");
    config.server.port = 1000;
    assert_eq!(config.server_address(), "example.org:1000");
}

#[test]
fn tick_duration_follows_the_tick_rate() {
    let mut config = Config::default();
    config.server.tick_rate = 60;
    assert_eq!(config.tick_duration(), 16_666);
    config.server.tick_rate = 1;
    assert_eq!(config.tick_duration(), 1_000_000);
}

#[test]
fn config_clone_keeps_every_setting() {
    let mut config = Config::default();
    config.server.port = 9000;
    config.game.npc_count = 3;
    let copy = config.clone();
    assert_eq!(copy.server.port, 9000);
    assert_eq!(copy.server.host, "127.0.0.1");
    assert_eq!(copy.game, config.game);
}

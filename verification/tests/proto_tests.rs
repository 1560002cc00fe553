use battletanks::proto::{
    GameConfig, GameStateUpdate, JoinGameRequest, JoinGameResponse, MessageType, NetworkMessage,
    PingRequest, PlayerInput, PongResponse, PowerUpState, PowerUpType, ProjectileState, TankState,
    TeamColor, Vector2,
};
use battletanks::types::Vector3;

#[test]
fn test_game_state_update_creation() {
    let mut update = GameStateUpdate::new(100);
    update.round_time_remaining = 300_000_000;

    let tank = TankState::new(
        1,
        "player1".to_string(),
        "TestPlayer".to_string(),
        Vector3::new(0, 0, 0),
        TeamColor::TeamRed,
    );
    update.tanks.push(tank);

    assert_eq!(update.tick, 100);
    assert_eq!(update.tanks.len(), 1);
    assert!(!update.is_delta_update);
}

#[test]
fn test_join_game_messages() {
    let request = JoinGameRequest::new("TestPlayer".to_string());
    assert_eq!(request.display_name, "TestPlayer");
    assert!(!request.client_version.is_empty());

    let config = GameConfig {
        tick_rate: 30,
        max_players: 50,
        round_duration: 600_000_000,
        respawn_time: 3_000_000,
        invulnerability_time: 1_000_000,
        map_size: Some(Vector2::new(500_000, 500_000)),
    };

    let response = JoinGameResponse::success("player1".to_string(), 1, config);
    assert!(response.success);
    assert_eq!(response.player_id, "player1");
    assert_eq!(response.assigned_entity_id, 1);

    let error_response = JoinGameResponse::error("Server full".to_string());
    assert!(!error_response.success);
    assert_eq!(error_response.error_message, "Server full");
}

#[test]
fn test_ping_pong_messages() {
    let ping = PingRequest::new(42);
    assert_eq!(ping.sequence_number, 42);
    assert!(ping.client_timestamp > 0);

    let pong = PongResponse::new(ping.client_timestamp, ping.sequence_number);
    assert_eq!(pong.client_timestamp, ping.client_timestamp);
    assert_eq!(pong.sequence_number, ping.sequence_number);
    assert!(pong.server_timestamp > 0);
}

#[test]
fn new_update_carries_the_low_bits_of_its_tick() {
    let update = GameStateUpdate::new(100);
    assert_eq!(update.full_state_tick, 100);
    assert_eq!(update.round_time_remaining, 0);
    assert!(update.projectiles.is_empty() && update.power_ups.is_empty());
    assert!(update.events.is_empty() && update.scores.is_empty());
    let wrapped = GameStateUpdate::new((1u64 << 32) + 7);
    assert_eq!(wrapped.tick, (1u64 << 32) + 7);
    assert_eq!(wrapped.full_state_tick, 7);
}

#[test]
fn delta_update_names_its_full_state() {
    let update = GameStateUpdate::delta(12, 9);
    assert_eq!(update.tick, 12);
    assert_eq!(update.full_state_tick, 9);
    assert!(update.is_delta_update);
    assert!(update.tanks.is_empty());
}

#[test]
fn new_tank_state_is_at_full_health() {
    let tank = TankState::new(
        7,
        "p".to_string(),
        "n".to_string(),
        Vector3::new(1, 2, 3),
        TeamColor::TeamBlue,
    );
    assert_eq!(tank.entity_id, 7);
    assert_eq!(tank.player_id, "p");
    assert_eq!(tank.display_name, "n");
    assert_eq!(tank.position, Some(Vector3::new(1, 2, 3)));
    assert_eq!(tank.body_rotation, 0);
    assert_eq!(tank.turret_rotation, 0);
    assert_eq!(tank.health, 100);
    assert_eq!(tank.max_health, 100);
    assert_eq!(tank.team, 1);
    assert!(tank.active_powerups.is_empty());
    assert!(!tank.is_invulnerable);
    assert_eq!(tank.invulnerability_remaining, 0);
    let copy = tank.clone();
    assert_eq!(copy.display_name, "n");
    assert_eq!(copy.position, tank.position);
}

#[test]
fn new_projectile_state_has_five_seconds_left() {
    let projectile = ProjectileState::new(
        3,
        "owner".to_string(),
        Vector3::new(1, 0, 1),
        Vector3::new(10_000, 0, 0),
        25,
        TeamColor::TeamRed,
    );
    assert_eq!(projectile.entity_id, 3);
    assert_eq!(projectile.owner_id, "owner");
    assert_eq!(projectile.position, Some(Vector3::new(1, 0, 1)));
    assert_eq!(projectile.velocity, Some(Vector3::new(10_000, 0, 0)));
    assert_eq!(projectile.damage, 25);
    assert_eq!(projectile.team, 0);
    assert_eq!(projectile.lifetime_remaining, 5_000_000);
}

#[test]
fn new_power_up_is_available() {
    let power_up = PowerUpState::new(4, PowerUpType::Shield, Vector3::new(5, 0, 5));
    assert_eq!(power_up.entity_id, 4);
    assert_eq!(power_up.power_up_type, 3);
    assert_eq!(power_up.position, Some(Vector3::new(5, 0, 5)));
    assert!(power_up.is_available);
    assert_eq!(power_up.respawn_timer, 0);
}

#[test]
fn join_error_carries_no_identity() {
    let response = JoinGameResponse::error("no".to_string());
    assert_eq!(response.player_id, "");
    assert_eq!(response.assigned_entity_id, 0);
    assert!(response.game_config.is_none());
    let ok = JoinGameResponse::success("id".to_string(), 5, GameConfig {
        tick_rate: 30,
        max_players: 2,
        round_duration: 1,
        respawn_time: 2,
        invulnerability_time: 3,
        map_size: None,
    });
    assert_eq!(ok.error_message, "");
    assert_eq!(ok.game_config.map(|c| c.max_players), Some(2));
}

#[test]
fn pong_at_a_given_time_holds_all_three_values() {
    let pong = PongResponse::at(900, 800, 3);
    assert_eq!(pong.server_timestamp, 900);
    assert_eq!(pong.client_timestamp, 800);
    assert_eq!(pong.sequence_number, 3);
}

#[test]
fn input_converts_to_the_component() {
    let input = PlayerInput::at(12345, true, false, false, true, true, 45_000, 1);
    assert_eq!(input.timestamp, 12345);
    assert_eq!(input.sequence_number, 1);
    let component = input.to_component();
    assert!(component.forward && component.rotate_right && component.fire);
    assert!(!component.backward && !component.rotate_left);
    assert_eq!(component.turret_angle, 45_000);
    assert_eq!(component.timestamp, 12345);
    let stamped = PlayerInput::new(true, false, false, false, false, 1500, 123);
    assert!(stamped.forward);
    assert_eq!(stamped.turret_angle, 1500);
    assert_eq!(stamped.sequence_number, 123);
}

#[test]
fn message_constructors_wrap_their_payload() {
    let message = NetworkMessage::ping_request(PingRequest { client_timestamp: 5, sequence_number: 6 });
    match message.message_type {
        Some(MessageType::PingRequest(ping)) => {
            assert_eq!(ping.client_timestamp, 5);
            assert_eq!(ping.sequence_number, 6);
        }
        _ => panic!("Expected PingRequest message type"),
    }
    let message = NetworkMessage::join_game_request(JoinGameRequest::new("Ada".to_string()));
    assert!(matches!(message.message_type, Some(MessageType::JoinGameRequest(_))));
    let message = NetworkMessage::new(None);
    assert!(message.message_type.is_none());
}

#[test]
fn a_ping_at_a_given_time_holds_that_time() {
    let ping = PingRequest::at(1_234, 42);
    assert_eq!(ping.client_timestamp, 1_234);
    assert_eq!(ping.sequence_number, 42);
    assert_eq!(ping, PingRequest { client_timestamp: 1_234, sequence_number: 42 });
}

use battletanks::config::Config;
use battletanks::events::{EntityType, GameEvent};
use battletanks::game_state::GameState;
use battletanks::physics::PhysicsHandle;
use battletanks::snapshot::take_snapshot;
use battletanks::types::{PlayerInput, Projectile, Team, Transform, Vector3};

fn player(n: u128) -> u128 {
    0x2000_0000_0000_0000_0000_0000_0000_0000 + n
}

#[test]
fn test_game_state_creation() {
    let config = Config::default();
    let game_state = GameState::new(&config);

    assert_eq!(game_state.tick(), 0);
    assert_eq!(game_state.player_count(), 0);
    assert_eq!(game_state.entity_count(), 0);
}

#[test]
fn test_add_player() {
    let config = Config::default();
    let mut game_state = GameState::new(&config);

    let player_id = player(1);
    let entity_id = game_state.add_player(player_id, "TestPlayer".to_string());

    assert_eq!(game_state.player_count(), 1);
    assert_eq!(game_state.entity_count(), 1);
    assert_eq!(entity_id, 1);

    assert!(game_state.score_of(player_id).is_some());
}

#[test]
fn test_remove_player() {
    let config = Config::default();
    let mut game_state = GameState::new(&config);

    let player_id = player(2);
    game_state.add_player(player_id, "TestPlayer".to_string());

    assert_eq!(game_state.player_count(), 1);

    game_state.remove_player(player_id);

    assert_eq!(game_state.player_count(), 0);
    assert_eq!(game_state.entity_count(), 0);
    assert!(game_state.score_of(player_id).is_none());
}

#[test]
fn test_update_player_input() {
    let config = Config::default();
    let mut game_state = GameState::new(&config);

    let player_id = player(3);
    game_state.add_player(player_id, "TestPlayer".to_string());

    let input = PlayerInput { forward: true, fire: true, turret_angle: 1570, ..Default::default() };

    game_state.update_player_input(player_id, input);

    let players = game_state.ecs().get_players();
    assert!(players[0].3.input.forward);
    assert!(players[0].3.input.fire);
}

#[test]
fn test_game_state_update() {
    let config = Config::default();
    let mut game_state = GameState::new(&config);

    let initial_tick = game_state.tick();

    game_state.update();

    assert_eq!(game_state.tick(), initial_tick + 1);
}

#[test]
fn test_create_state_message() {
    let config = Config::default();
    let mut game_state = GameState::new(&config);

    let player_id = player(4);
    game_state.add_player(player_id, "TestPlayer".to_string());

    let message = game_state.create_state_message();

    assert_eq!(message.tick, 0);
    assert_eq!(message.entities.len(), 1);
    assert!(!message.events.is_empty());
}

#[test]
fn test_game_state_update_with_timeout() {
    let config = Config::default();
    let mut game_state = GameState::new(&config);

    for i in 0..10 {
        game_state.add_player(player(10 + i), format!("Player{}", i));
    }

    for _ in 0..100 {
        game_state.update();
    }

    assert_eq!(game_state.tick(), 100);
    assert_eq!(game_state.player_count(), 10);
}

#[test]
fn joining_is_logged_with_name_and_team() {
    let mut game_state = GameState::new(&Config::default());
    let id = player(20);
    game_state.add_player(id, "Ada".to_string());
    let events = game_state.recent_events();
    assert_eq!(events.len(), 1);
    match &events[0] {
        GameEvent::PlayerJoined { player_id, name, team } => {
            assert_eq!(*player_id, id);
            assert_eq!(name, "Ada");
            assert_eq!(*team, Team::Red);
        }
        other => panic!("unexpected event {:?}", other),
    }
    game_state.remove_player(id);
    let events = game_state.recent_events();
    assert_eq!(events.len(), 2);
    assert!(matches!(events[1], GameEvent::PlayerLeft { player_id } if player_id == id));
}

#[test]
fn event_log_keeps_the_last_hundred() {
    let mut game_state = GameState::new(&Config::default());
    for i in 0..60 {
        game_state.add_player(player(100 + i), format!("P{}", i));
        game_state.remove_player(player(100 + i));
    }
    assert_eq!(game_state.recent_events().len(), 120);
    game_state.update();
    let events = game_state.recent_events();
    assert_eq!(events.len(), 100);
    assert!(matches!(events[0], GameEvent::PlayerJoined { player_id, .. } if player_id == player(110)));
    assert!(matches!(events[99], GameEvent::PlayerLeft { player_id } if player_id == player(159)));
}

#[test]
fn update_counts_time_and_retires_spent_projectiles() {
    let mut config = Config::default();
    config.server.physics_timestep = 400_000;
    let mut game_state = GameState::new(&config);
    let tank = game_state.add_player_with_body(
        player(30),
        "T".to_string(),
        Transform { position: Vector3::new(0, 0, 0), rotation: 0 },
        PhysicsHandle::from_raw_parts(9, 1),
    );
    assert_eq!(tank, 1);
    assert!(game_state.update().is_empty());
    assert_eq!(game_state.round_timer(), 400_000);
    assert_eq!(game_state.entity_count(), 1);
    assert_eq!(game_state.remove_player(player(30)), Some(PhysicsHandle::from_raw_parts(9, 1)));
    assert_eq!(game_state.remove_player(player(30)), None);
}

#[test]
fn every_projectile_ends_and_leaves_the_next_snapshot() {
    let mut world = battletanks::ecs::EcsWorld::new();
    let id = world.create_projectile(
        Transform::default(),
        Projectile { max_lifetime: 1_000_000, ..Default::default() },
        PhysicsHandle::from_raw_parts(3, 0),
    );
    let mut ticks = 0;
    loop {
        let expired = world.projectile_system(400_000);
        ticks += 1;
        if !expired.is_empty() {
            assert_eq!(expired, vec![id]);
            assert_eq!(world.remove_entity(id), Some(PhysicsHandle::from_raw_parts(3, 0)));
            break;
        }
        assert!(ticks < 10);
    }
    assert_eq!(ticks, 3);
    assert!(world.get_projectiles().is_empty());
}

#[test]
fn snapshot_shows_tanks_scores_and_time_left() {
    let mut config = Config::default();
    config.game.round_duration = 1_000_000;
    config.server.physics_timestep = 300_000;
    let mut game_state = GameState::new(&config);
    let id = 0xffu128;
    let entity = game_state.add_player_with_body(
        id,
        "Ada".to_string(),
        Transform { position: Vector3::new(1, 2, 3), rotation: 40 },
        PhysicsHandle::from_raw_parts(1, 1),
    );
    game_state.update();
    let snapshot = take_snapshot(&game_state);
    assert_eq!(snapshot.tick, 1);
    assert_eq!(snapshot.round_time_remaining, 700_000);
    assert_eq!(snapshot.tanks.len(), 1);
    let tank = &snapshot.tanks[0];
    assert_eq!(tank.entity_id, entity);
    assert_eq!(tank.player_id, "00000000-0000-0000-0000-0000000000ff");
    assert_eq!(tank.display_name, "Ada");
    assert_eq!(tank.position, Some(Vector3::new(1, 2, 3)));
    assert_eq!(tank.body_rotation, 40);
    assert_eq!((tank.health, tank.max_health), (100, 100));
    assert!(tank.health <= tank.max_health);
    assert_eq!(tank.team, 0);
    assert!(snapshot.projectiles.is_empty());
    assert_eq!(snapshot.scores.len(), 1);
    assert_eq!(snapshot.scores[0].player_id, "00000000-0000-0000-0000-0000000000ff");
    assert_eq!(snapshot.scores[0].kills, 0);
    assert_eq!(snapshot.events.len(), 1);
    for _ in 0..5 {
        game_state.update();
    }
    assert_eq!(take_snapshot(&game_state).round_time_remaining, 0);
}

#[test]
fn spent_projectiles_leave_with_the_tick() {
    let mut server = battletanks::server::GameServer::new();
    server.connect_as(player(50));
    let mut joined = false;
    for out in server
        .handle_client_message_at(
            player(50),
            battletanks::proto::NetworkMessage::join_game_request(
                battletanks::proto::JoinGameRequest::new("p".to_string()),
            ),
            0,
        )
        .outbound
    {
        if let battletanks::server::Outbound::Send { .. } = out {
            joined = true;
        }
    }
    assert!(joined);
    assert!(server.game_state().input_forces().is_empty());
    assert!(server.attach_body(1, PhysicsHandle::from_raw_parts(5, 0)));
    for _ in 0..400 {
        let output = server.tick();
        assert!(output.released.is_empty());
    }
    assert_eq!(server.game_state().tick(), 400);
    assert_eq!(server.game_state().entity_count(), 1);
    assert_eq!(server.game_state().entity_of(player(50)), Some(1));
    assert_eq!(server.game_state().entity_of(player(51)), None);
    let forces = server.game_state().input_forces();
    assert_eq!(forces.len(), 1);
    assert_eq!(forces[0].0, 1);
    assert_eq!(forces[0].1, PhysicsHandle::from_raw_parts(5, 0));
    assert_eq!(forces[0].2.thrust, 0);
}

#[test]
fn damage_keeps_health_within_bounds_and_logs_destruction() {
    let mut game_state = GameState::new(&Config::default());
    let tank = game_state.add_player_with_body(
        player(60),
        "victim".to_string(),
        Transform { position: Vector3::new(4, 5, 6), rotation: 7 },
        PhysicsHandle::from_raw_parts(1, 0),
    );
    assert_eq!(game_state.damage_tank(tank, 30, None), Some(false));
    let listed = game_state.ecs().get_tanks();
    assert_eq!((listed[0].2.health, listed[0].2.max_health), (70, 100));
    assert_eq!(take_snapshot(&game_state).tanks[0].health, 70);
    assert_eq!(game_state.recent_events().len(), 1);

    assert_eq!(game_state.damage_tank(tank, 500, Some(player(61))), Some(true));
    let listed = game_state.ecs().get_tanks();
    assert_eq!(listed[0].2.health, 0);
    assert!(listed[0].2.health <= listed[0].2.max_health);
    let events = game_state.recent_events();
    assert_eq!(events.len(), 2);
    match &events[1] {
        GameEvent::TankDestroyed { tank_id, killer_id, position } => {
            assert_eq!(*tank_id, tank);
            assert_eq!(*killer_id, Some(player(61)));
            assert_eq!(*position, Transform { position: Vector3::new(4, 5, 6), rotation: 7 });
        }
        other => panic!("unexpected event {:?}", other),
    }
    assert_eq!(game_state.damage_tank(tank, 1, None), Some(true));
    assert_eq!(game_state.damage_tank(tank + 1, 1, None), None);
    assert_eq!(game_state.ecs().transform_of(tank + 1), None);
    assert_eq!(game_state.recent_events().len(), 3);
}

#[test]
fn the_state_message_lists_tanks_before_projectiles() {
    let mut game_state = GameState::new(&Config::default());
    let shell = game_state.ecs().entity_count();
    assert_eq!(shell, 0);
    let tank = game_state.add_player(player(80), "gunner".to_string());
    assert!(game_state.attach_body(tank, PhysicsHandle::from_raw_parts(2, 0)));
    assert!(!game_state.attach_body(tank, PhysicsHandle::from_raw_parts(3, 0)));
    let message = game_state.create_state_message();
    assert_eq!(message.tick, 0);
    assert_eq!(message.entities.len(), 1);
    assert_eq!(message.entities[0].id, tank);
    assert_eq!(message.entities[0].transform, Transform::default());
    match message.entities[0].entity_type {
        EntityType::Tank { health, max_health, team, turret_angle, player_id } => {
            assert_eq!((health, max_health), (100, 100));
            assert_eq!(team, Team::Red);
            assert_eq!(turret_angle, 0);
            assert_eq!(player_id, Some(player(80)));
        }
        other => panic!("unexpected {:?}", other),
    }
    assert_eq!(message.events.len(), 1);
    game_state.update();
    assert_eq!(game_state.create_state_message().tick, 1);
}

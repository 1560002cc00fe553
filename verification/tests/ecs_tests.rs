use battletanks::ai::AiConfig;
use battletanks::ecs::{ComponentKind, EcsWorld, NpcAiState};
use battletanks::physics::PhysicsHandle;
use battletanks::types::{Obstacle, PlayerInput, Projectile, Transform, Vector3};

fn player(n: u128) -> u128 {
    0x1000_0000_0000_0000_0000_0000_0000_0000 + n
}

#[test]
fn test_ecs_world_creation() {
    let world = EcsWorld::new();
    assert_eq!(world.entity_count(), 0);
}

#[test]
fn test_player_tank_creation() {
    let mut world = EcsWorld::new();
    let player_id = player(1);
    let transform = Transform::default();
    let physics_handle = PhysicsHandle::from_raw_parts(0, 0);

    let entity_id =
        world.create_player_tank(player_id, "TestPlayer".to_string(), transform, physics_handle);

    assert_eq!(world.entity_count(), 1);
    assert_eq!(entity_id, 1);

    let players = world.get_players();
    assert_eq!(players.len(), 1);
    assert_eq!(players[0].0, entity_id);
    assert_eq!(players[0].3.player_id, player_id);
}

#[test]
fn test_npc_tank_creation() {
    let mut world = EcsWorld::new();
    let transform = Transform::default();
    let physics_handle = PhysicsHandle::from_raw_parts(0, 0);

    let entity_id = world.create_npc_tank(transform, physics_handle);

    assert_eq!(world.entity_count(), 1);
    assert_eq!(entity_id, 1);

    let tanks = world.get_tanks();
    assert_eq!(tanks.len(), 1);
    assert_eq!(tanks[0].0, entity_id);
}

#[test]
fn ecs_test_projectile_creation() {
    let mut world = EcsWorld::new();
    let transform = Transform::default();
    let projectile = Projectile::default();
    let physics_handle = PhysicsHandle::from_raw_parts(0, 0);

    let entity_id = world.create_projectile(transform, projectile, physics_handle);

    assert_eq!(world.entity_count(), 1);
    assert_eq!(entity_id, 1);

    let projectiles = world.get_projectiles();
    assert_eq!(projectiles.len(), 1);
    assert_eq!(projectiles[0].0, entity_id);
}

#[test]
fn ecs_test_obstacle_creation() {
    let mut world = EcsWorld::new();
    let transform = Transform::default();
    let obstacle = Obstacle::default();
    let physics_handle = PhysicsHandle::from_raw_parts(0, 0);

    let entity_id = world.create_obstacle(transform, obstacle, physics_handle);

    assert_eq!(world.entity_count(), 1);
    assert_eq!(entity_id, 1);
}

#[test]
fn test_entity_removal() {
    let mut world = EcsWorld::new();
    let transform = Transform::default();
    let physics_handle = PhysicsHandle::from_raw_parts(0, 0);

    let entity_id = world.create_npc_tank(transform, physics_handle);
    assert_eq!(world.entity_count(), 1);

    let removed_handle = world.remove_entity(entity_id);
    assert_eq!(world.entity_count(), 0);
    assert_eq!(removed_handle, Some(physics_handle));
}

#[test]
fn test_player_input_update() {
    let mut world = EcsWorld::new();
    let player_id = player(2);
    let transform = Transform::default();
    let physics_handle = PhysicsHandle::from_raw_parts(0, 0);

    let _entity_id =
        world.create_player_tank(player_id, "TestPlayer".to_string(), transform, physics_handle);

    let input = PlayerInput { forward: true, fire: true, turret_angle: 1570, ..Default::default() };

    world.update_player_input(player_id, input);

    let players = world.get_players();
    assert!(players[0].3.input.forward);
    assert!(players[0].3.input.fire);
    assert_eq!(players[0].3.input.turret_angle, 1570);
}

#[test]
fn test_movement_system() {
    let mut world = EcsWorld::new();
    let player_id = player(3);
    let transform = Transform::default();
    let physics_handle = PhysicsHandle::from_raw_parts(0, 0);

    let _entity_id =
        world.create_player_tank(player_id, "TestPlayer".to_string(), transform, physics_handle);

    let input = PlayerInput { forward: true, ..Default::default() };
    world.update_player_input(player_id, input);

    world.movement_system(1_000_000);

    let players = world.get_players();
    let new_position = players[0].1.position;

    assert!(new_position.z > 0);
    assert_eq!(new_position.x, 0);
    assert_eq!(new_position.y, 0);
}

#[test]
fn test_projectile_system() {
    let mut world = EcsWorld::new();
    let transform = Transform::default();
    let projectile = Projectile { max_lifetime: 1_000_000, ..Default::default() };
    let physics_handle = PhysicsHandle::from_raw_parts(0, 0);

    let entity_id = world.create_projectile(transform, projectile, physics_handle);
    assert_eq!(world.entity_count(), 1);

    let expired = world.projectile_system(500_000);
    assert_eq!(expired.len(), 0);
    assert_eq!(world.entity_count(), 1);

    let expired = world.projectile_system(600_000);
    assert_eq!(expired.len(), 1);
    assert_eq!(expired[0], entity_id);
}

#[test]
fn test_ecs_performance_with_timeout() {
    let mut world = EcsWorld::new();

    for i in 0..50 {
        world.create_player_tank(
            player(100 + i as u128),
            format!("Player{}", i),
            Transform::default(),
            PhysicsHandle::from_raw_parts(i, 0),
        );
    }
    for i in 50..250 {
        world.create_projectile(
            Transform::default(),
            Projectile::default(),
            PhysicsHandle::from_raw_parts(i, 0),
        );
    }
    assert_eq!(world.entity_count(), 250);

    for _ in 0..100 {
        world.movement_system(1_000_000 / 30);
        world.projectile_system(1_000_000 / 30);
        let tanks = world.get_tanks();
        let projectiles = world.get_projectiles();
        let physics_entities = world.get_physics_entities();
        assert_eq!(tanks.len(), 50);
        assert_eq!(projectiles.len(), 200);
        assert_eq!(physics_entities.len(), 250);
    }
}

#[test]
fn ecs_test_multiple_entity_types() {
    let mut world = EcsWorld::new();

    let _player_tank = world.create_player_tank(
        player(4),
        "Player".to_string(),
        Transform::default(),
        PhysicsHandle::from_raw_parts(0, 0),
    );
    let _npc_tank = world.create_npc_tank(Transform::default(), PhysicsHandle::from_raw_parts(1, 0));
    let _projectile = world.create_projectile(
        Transform::default(),
        Projectile::default(),
        PhysicsHandle::from_raw_parts(2, 0),
    );
    let _obstacle = world.create_obstacle(
        Transform::default(),
        Obstacle::default(),
        PhysicsHandle::from_raw_parts(3, 0),
    );

    assert_eq!(world.entity_count(), 4);

    assert_eq!(world.count_entities_with(ComponentKind::Player), 1);
    assert_eq!(world.count_entities_with(ComponentKind::Npc), 1);
    assert_eq!(world.count_entities_with(ComponentKind::Tank), 2);
    assert_eq!(world.count_entities_with(ComponentKind::Projectile), 1);
    assert_eq!(world.count_entities_with(ComponentKind::Obstacle), 1);
}

#[test]
fn test_entity_lifecycle_with_timeout() {
    let mut world = EcsWorld::new();

    let entity_id = world.create_npc_tank(Transform::default(), PhysicsHandle::from_raw_parts(0, 0));
    assert_eq!(world.entity_count(), 1);

    let new_transform = Transform { position: Vector3::new(10_000, 0, 10_000), rotation: 0 };
    world.update_transform(entity_id, new_transform);

    let tanks = world.get_tanks();
    assert_eq!(tanks.len(), 1);
    assert_eq!(tanks[0].1.position, Vector3::new(10_000, 0, 10_000));

    world.remove_entity(entity_id);
    assert_eq!(world.entity_count(), 0);
}

#[test]
fn removed_entity_is_never_listed_and_second_removal_does_nothing() {
    let mut world = EcsWorld::new();
    let a = world.create_npc_tank(Transform::default(), PhysicsHandle::from_raw_parts(7, 1));
    let b = world.create_player_tank(
        player(5),
        "B".to_string(),
        Transform::default(),
        PhysicsHandle::from_raw_parts(8, 1),
    );
    assert_eq!(world.remove_entity(a), Some(PhysicsHandle::from_raw_parts(7, 1)));
    assert!(world.get_tanks().iter().all(|t| t.0 != a));
    assert!(world.get_physics_entities().iter().all(|t| t.0 != a));
    assert!(world.entities().iter().all(|t| t.0 != a));
    assert_eq!(world.remove_entity(a), None);
    assert_eq!(world.entity_count(), 1);
    assert_eq!(world.get_tanks().len(), 1);
    assert_eq!(world.get_tanks()[0].0, b);
    assert_eq!(world.remove_entity(999), None);
    assert_eq!(world.entity_count(), 1);
}

#[test]
fn entity_numbers_are_never_given_twice() {
    let mut world = EcsWorld::new();
    let a = world.create_npc_tank(Transform::default(), PhysicsHandle::from_raw_parts(0, 0));
    world.remove_entity(a);
    let b = world.create_npc_tank(Transform::default(), PhysicsHandle::from_raw_parts(0, 0));
    let c = world.create_obstacle(
        Transform::default(),
        Obstacle::default(),
        PhysicsHandle::from_raw_parts(1, 0),
    );
    assert_eq!((a, b, c), (1, 2, 3));
    assert!(world.has_room());
}

#[test]
fn update_of_a_missing_entity_changes_nothing() {
    let mut world = EcsWorld::new();
    let id = world.create_npc_tank(Transform::default(), PhysicsHandle::from_raw_parts(0, 0));
    world.update_transform(id + 1, Transform { position: Vector3::new(1, 1, 1), rotation: 5 });
    assert_eq!(world.get_tanks()[0].1, Transform::default());
    world.update_player_input(player(9), PlayerInput { fire: true, ..Default::default() });
    assert_eq!(world.get_players().len(), 0);
}

#[test]
fn movement_follows_every_key() {
    let mut world = EcsWorld::new();
    let id = player(6);
    world.create_player_tank(
        id,
        "P".to_string(),
        Transform { position: Vector3::new(5, 6, 7), rotation: 100 },
        PhysicsHandle::from_raw_parts(0, 0),
    );
    world.update_player_input(
        id,
        PlayerInput { backward: true, rotate_left: true, ..Default::default() },
    );
    world.movement_system(500_000);
    let moved = world.get_players()[0].1;
    assert_eq!(moved.position, Vector3::new(5, 6, 7 - 5_000));
    assert_eq!(moved.rotation, 100 + 785);
    world.update_player_input(
        id,
        PlayerInput { forward: true, backward: true, rotate_right: true, ..Default::default() },
    );
    world.movement_system(1_000_000);
    let moved = world.get_players()[0].1;
    assert_eq!(moved.position, Vector3::new(5, 6, 7 - 5_000));
    assert_eq!(moved.rotation, 885 - 1_571);
}

#[test]
fn tanks_without_a_player_do_not_move() {
    let mut world = EcsWorld::new();
    world.create_npc_tank(
        Transform { position: Vector3::new(1, 2, 3), rotation: 4 },
        PhysicsHandle::from_raw_parts(0, 0),
    );
    world.movement_system(1_000_000);
    assert_eq!(world.get_tanks()[0].1, Transform { position: Vector3::new(1, 2, 3), rotation: 4 });
}

#[test]
fn projectile_lifetime_grows_each_tick() {
    let mut world = EcsWorld::new();
    world.create_projectile(
        Transform::default(),
        Projectile { lifetime: u64::MAX - 5, max_lifetime: u64::MAX, ..Default::default() },
        PhysicsHandle::from_raw_parts(0, 0),
    );
    assert!(world.projectile_system(3).is_empty());
    assert_eq!(world.get_projectiles()[0].2.lifetime, u64::MAX - 2);
    assert_eq!(world.projectile_system(10).len(), 1);
    assert_eq!(world.get_projectiles()[0].2.lifetime, u64::MAX);
}

#[test]
fn npc_targets_the_nearest_live_player() {
    let mut world = EcsWorld::new();
    let npc = world.create_npc_tank(Transform::default(), PhysicsHandle::from_raw_parts(0, 0));
    let far = world.create_player_tank(
        player(7),
        "far".to_string(),
        Transform { position: Vector3::new(50_000, 0, 0), rotation: 0 },
        PhysicsHandle::from_raw_parts(1, 0),
    );
    let near = world.create_player_tank(
        player(8),
        "near".to_string(),
        Transform { position: Vector3::new(0, 0, 20_000), rotation: 0 },
        PhysicsHandle::from_raw_parts(2, 0),
    );
    let config = AiConfig::default();
    world.ai_system(&config);
    let record = world.entities().into_iter().find(|e| e.0 == npc).unwrap().1.npc.unwrap();
    assert_eq!(record.ai_state, NpcAiState::Attacking);
    assert_eq!(record.target, Some(near));

    world.update_transform(near, Transform { position: Vector3::new(0, 0, 55_000), rotation: 0 });
    world.ai_system(&config);
    let record = world.entities().into_iter().find(|e| e.0 == npc).unwrap().1.npc.unwrap();
    assert_eq!(record.ai_state, NpcAiState::Searching);
    assert_eq!(record.target, Some(far));

    world.remove_entity(near);
    world.remove_entity(far);
    world.ai_system(&config);
    let record = world.entities().into_iter().find(|e| e.0 == npc).unwrap().1.npc.unwrap();
    assert_eq!(record.ai_state, NpcAiState::Patrol);
    assert_eq!(record.target, None);
}

#[test]
fn a_body_is_attached_once_to_a_tank_that_has_none() {
    let mut world = EcsWorld::new();
    let tank = world.create_unattached_player_tank(player(70), "late".to_string(), Transform::default());
    assert_eq!(tank, 1);
    assert_eq!(world.count_entities_with(ComponentKind::PhysicsBody), 0);
    assert_eq!(world.get_players().len(), 1);
    assert!(world.get_physics_entities().is_empty());
    assert!(world.attach_body(tank, PhysicsHandle::from_raw_parts(9, 3)));
    assert_eq!(world.get_physics_entities(), vec![(tank, PhysicsHandle::from_raw_parts(9, 3))]);
    assert!(!world.attach_body(tank, PhysicsHandle::from_raw_parts(10, 3)));
    assert!(!world.attach_body(tank + 1, PhysicsHandle::from_raw_parts(10, 3)));
    assert_eq!(world.get_physics_entities(), vec![(tank, PhysicsHandle::from_raw_parts(9, 3))]);
    assert_eq!(world.get_tanks()[0].2.health, 100);
    assert_eq!(world.remove_entity(tank), Some(PhysicsHandle::from_raw_parts(9, 3)));
    let bare = world.create_unattached_player_tank(player(71), "bare".to_string(), Transform::default());
    assert_eq!(bare, 2);
    assert_eq!(world.remove_entity(bare), None);
}

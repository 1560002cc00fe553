use battletanks::config::Config;
use battletanks::physics::{
    apply_input_forces, interacts, BodyKind, InputForces, PhysicsHandle, PhysicsWorld, Shape,
};
use battletanks::types::{CollisionGroup, PlayerInput, Vector3};

#[test]
fn test_physics_world_creation() {
    let config = Config::default();
    let world = PhysicsWorld::new(&config);
    assert_eq!(world.body_count(), 0);
}

#[test]
fn test_tank_creation() {
    let config = Config::default();
    let mut world = PhysicsWorld::new(&config);

    let position = Vector3::new(0, 0, 0);
    let body = PhysicsWorld::create_tank(position);
    let handle = PhysicsHandle::from_raw_parts(0, 0);
    world.register_body(handle, 1);

    assert_eq!(world.body_count(), 1);
    assert_eq!(world.get_entity_id(handle), Some(1));
    assert_eq!(body.position, position);
}

#[test]
fn physics_test_projectile_creation() {
    let config = Config::default();
    let mut world = PhysicsWorld::new(&config);

    let position = Vector3::new(1_000, 0, 1_000);
    let velocity = Vector3::new(10_000, 0, 0);
    let body = PhysicsWorld::create_projectile(position, velocity);
    let handle = PhysicsHandle::from_raw_parts(0, 0);
    world.register_body(handle, 2);

    assert_eq!(world.body_count(), 1);
    assert_eq!(world.get_entity_id(handle), Some(2));
    assert_eq!(body.velocity, velocity);
}

#[test]
fn physics_test_obstacle_creation() {
    let config = Config::default();
    let mut world = PhysicsWorld::new(&config);

    let position = Vector3::new(5_000, 0, 5_000);
    let size = Vector3::new(2_000, 1_000, 2_000);
    let body = PhysicsWorld::create_obstacle(position, size);
    let handle = PhysicsHandle::from_raw_parts(0, 0);
    world.register_body(handle, 3);

    assert_eq!(world.body_count(), 1);
    assert_eq!(world.get_entity_id(handle), Some(3));
    assert_eq!(body.shape, Shape::Cuboid { half_extents: size });
}

#[test]
fn test_body_removal() {
    let config = Config::default();
    let mut world = PhysicsWorld::new(&config);

    let handle = PhysicsHandle::from_raw_parts(0, 0);
    world.register_body(handle, 1);
    assert_eq!(world.body_count(), 1);

    world.remove_body(handle);
    assert_eq!(world.body_count(), 0);
    assert_eq!(world.get_entity_id(handle), None);
}

#[test]
fn test_physics_timestep_configuration() {
    let mut config = Config::default();
    config.server.physics_timestep = 1_000_000 / 60;

    let world = PhysicsWorld::new(&config);
    assert_eq!(world.timestep(), 16_666);
}

#[test]
fn physics_test_multiple_entity_types() {
    let config = Config::default();
    let mut world = PhysicsWorld::new(&config);

    let tank1 = PhysicsHandle::from_raw_parts(0, 0);
    let tank2 = PhysicsHandle::from_raw_parts(1, 0);
    let projectile = PhysicsHandle::from_raw_parts(2, 0);
    let obstacle = PhysicsHandle::from_raw_parts(3, 0);
    world.register_body(tank1, 1);
    world.register_body(tank2, 2);
    world.register_body(projectile, 3);
    world.register_body(obstacle, 4);

    assert_eq!(world.body_count(), 4);

    assert_eq!(world.get_entity_id(tank1), Some(1));
    assert_eq!(world.get_entity_id(tank2), Some(2));
    assert_eq!(world.get_entity_id(projectile), Some(3));
    assert_eq!(world.get_entity_id(obstacle), Some(4));
}

#[test]
fn removing_a_body_twice_is_harmless() {
    let mut world = PhysicsWorld::new(&Config::default());
    let handle = PhysicsHandle::from_raw_parts(4, 2);
    let other = PhysicsHandle::from_raw_parts(2, 4);
    world.register_body(handle, 10);
    world.register_body(other, 11);
    assert!(world.remove_body(handle));
    assert!(!world.remove_body(handle));
    assert!(!world.remove_body(PhysicsHandle::from_raw_parts(99, 99)));
    assert_eq!(world.body_count(), 1);
    assert_eq!(world.get_entity_id(other), Some(11));
    assert_eq!(handle.into_raw_parts(), (4, 2));
    assert_ne!(handle.key(), other.key());
}

#[test]
fn bodies_are_described_by_kind() {
    let tank = PhysicsWorld::create_tank(Vector3::new(1, 2, 3));
    assert_eq!(tank.kind, BodyKind::Dynamic);
    assert!(tank.lock_rotations);
    assert!(!tank.sensor);
    assert_eq!(tank.shape, Shape::Cuboid { half_extents: Vector3::new(1000, 500, 2000) });
    assert_eq!(tank.memberships, CollisionGroup::Tank.bits());
    assert_eq!(
        tank.filter,
        CollisionGroup::Tank.bits() | CollisionGroup::Obstacle.bits() | CollisionGroup::Projectile.bits()
    );

    let projectile = PhysicsWorld::create_projectile(Vector3::zeros(), Vector3::new(5, 0, 0));
    assert_eq!(projectile.kind, BodyKind::KinematicVelocityBased);
    assert!(projectile.sensor);
    assert_eq!(projectile.shape, Shape::Ball { radius: 100 });
    assert_eq!(projectile.memberships, CollisionGroup::Projectile.bits());
    assert_eq!(projectile.filter, CollisionGroup::Tank.bits() | CollisionGroup::Obstacle.bits());

    let obstacle = PhysicsWorld::create_obstacle(Vector3::zeros(), Vector3::new(1, 1, 1));
    assert_eq!(obstacle.kind, BodyKind::Fixed);
    assert_eq!(obstacle.velocity, Vector3::zeros());
    assert_eq!(obstacle.memberships, CollisionGroup::Obstacle.bits());
    assert_eq!(obstacle.filter, CollisionGroup::Tank.bits() | CollisionGroup::Projectile.bits());

    assert!(interacts(tank, tank));
    assert!(interacts(tank, projectile) && interacts(projectile, tank));
    assert!(interacts(tank, obstacle));
    assert!(interacts(projectile, obstacle));
    assert!(!interacts(projectile, projectile));
    assert!(!interacts(obstacle, obstacle));
}

#[test]
fn input_asks_for_fixed_forces() {
    let idle = PlayerInput::default();
    assert_eq!(apply_input_forces(&idle), InputForces { thrust: 0, torque: 0 });
    let forward = PlayerInput { forward: true, ..idle };
    assert_eq!(apply_input_forces(&forward), InputForces { thrust: 8000, torque: 0 });
    let backward = PlayerInput { backward: true, ..idle };
    assert_eq!(apply_input_forces(&backward), InputForces { thrust: -5600, torque: 0 });
    let left = PlayerInput { rotate_left: true, ..idle };
    assert_eq!(apply_input_forces(&left), InputForces { thrust: 0, torque: 3000 });
    let right = PlayerInput { rotate_right: true, ..idle };
    assert_eq!(apply_input_forces(&right), InputForces { thrust: 0, torque: -3000 });
    let forward_left = PlayerInput { forward: true, rotate_left: true, ..idle };
    assert_eq!(apply_input_forces(&forward_left), InputForces { thrust: 8000, torque: 4500 });
    let forward_right = PlayerInput { forward: true, rotate_right: true, ..idle };
    assert_eq!(apply_input_forces(&forward_right), InputForces { thrust: 8000, torque: -4500 });
    let backward_left = PlayerInput { backward: true, rotate_left: true, ..idle };
    assert_eq!(apply_input_forces(&backward_left), InputForces { thrust: -5600, torque: 2100 });
    let backward_right = PlayerInput { backward: true, rotate_right: true, ..idle };
    assert_eq!(apply_input_forces(&backward_right), InputForces { thrust: -5600, torque: -2100 });
    let all = PlayerInput {
        forward: true,
        backward: true,
        rotate_left: true,
        rotate_right: true,
        ..idle
    };
    assert_eq!(apply_input_forces(&all), InputForces { thrust: 2400, torque: 0 });
}

use battletanks::types::{
    advance, CollisionGroup, Projectile, Tank, Team, Transform, Vector3,
};

#[test]
fn test_transform_default() {
    let transform = Transform::default();
    assert_eq!(transform.position, Vector3::zeros());
    assert_eq!(transform.rotation, 0);
}

#[test]
fn test_tank_default() {
    let tank = Tank::default();
    assert_eq!(tank.health, 100);
    assert_eq!(tank.max_health, 100);
    assert_eq!(tank.team, Team::Neutral);
    assert_eq!(tank.fire_cooldown, 330_000);
}

#[test]
fn test_projectile_default() {
    let projectile = Projectile::default();
    assert_eq!(projectile.damage, 25);
    assert_eq!(projectile.max_lifetime, 10_000_000);
}

#[test]
fn test_collision_groups() {
    assert_eq!(CollisionGroup::Tank.bits(), 1);
    assert_eq!(CollisionGroup::Projectile.bits(), 2);
    assert_eq!(CollisionGroup::Obstacle.bits(), 4);
    assert_eq!(CollisionGroup::PowerUp.bits(), 8);
}

#[test]
fn tank_defaults_hold_every_field() {
    let tank = Tank::default();
    assert_eq!(tank.turret_angle, 0);
    assert_eq!(tank.last_fire_time, 0);
    assert_eq!(tank.movement_speed, 10_000);
    assert_eq!(tank.rotation_speed, 1_571);
    assert_eq!(tank.turret_rotation_speed, 2_094);
    assert_eq!(Tank::with_team(Team::Blue).team, Team::Blue);
}

#[test]
fn damage_stops_at_zero_and_health_stays_within_maximum() {
    let mut tank = Tank::default();
    assert!(tank.is_alive());
    assert!(!tank.take_damage(30));
    assert_eq!(tank.health, 70);
    assert!(tank.health <= tank.max_health);
    assert!(tank.take_damage(1000));
    assert_eq!(tank.health, 0);
    assert!(!tank.is_alive());
    assert!(tank.take_damage(5));
    assert_eq!(tank.health, 0);
}

#[test]
fn advance_covers_speed_times_time() {
    assert_eq!(advance(0, 10_000, 1_000_000), 10_000);
    assert_eq!(advance(0, 10_000, 33_333), 333);
    assert_eq!(advance(5, -10_000, 33_333), -328);
    assert_eq!(advance(7, 10_000, 0), 7);
}

#[test]
fn advance_stops_at_the_limits() {
    assert_eq!(advance(i32::MAX - 1, 10_000, 1_000_000), i32::MAX);
    assert_eq!(advance(i32::MIN + 1, -10_000, 1_000_000), i32::MIN);
    assert_eq!(advance(0, i32::MAX, u64::MAX), i32::MAX);
    assert_eq!(advance(0, i32::MIN, u64::MAX), i32::MIN);
}

#[test]
fn distance_squared_of_a_three_four_triangle() {
    let a = Vector3::new(0, 0, 0);
    let b = Vector3::new(3, 4, 0);
    assert_eq!(a.distance_squared(&b), 25);
    assert_eq!(b.distance_squared(&a), 25);
    let far = Vector3::new(i32::MAX, i32::MAX, i32::MAX);
    let near = Vector3::new(i32::MIN, i32::MIN, i32::MIN);
    let side: u128 = (i32::MAX as i64 - i32::MIN as i64) as u128;
    assert_eq!(far.distance_squared(&near), 3 * side * side);
}

#[test]
fn projectile_expires_at_its_maximum_lifetime() {
    let mut projectile = Projectile::default();
    assert!(!projectile.is_expired());
    projectile.lifetime = projectile.max_lifetime - 1;
    assert!(!projectile.is_expired());
    projectile.lifetime = projectile.max_lifetime;
    assert!(projectile.is_expired());
}

//! Component data shared by every part of the simulation.
//!
//! Lengths are thousandths of a world unit, angles thousandths of a radian,
//! speeds are per second, durations are microseconds.

use vstd::prelude::*;

verus! {

/// Identifier of a connected player (the 128 bits of its UUID).
pub type PlayerId = u128;

/// Identifier of a simulated entity.
pub type EntityId = u32;

/// Microseconds in one second.
pub const MICROS_PER_SECOND: u64 = 1_000_000;

/// Faction of a tank.
#[derive(Debug, Clone, Copy, PartialEq, Eq, Structural)]
pub enum Team {
    Red,
    Blue,
    /// Tanks that no player drives.
    Neutral,
}

/// A point or a displacement in space.
#[derive(Debug, Clone, Copy, PartialEq, Eq, Structural)]
pub struct Vector3 {
    pub x: i32,
    pub y: i32,
    pub z: i32,
}

/// A number held inside the range of `i32`: the nearest that the range has.
pub open spec fn clamp_i32(v: int) -> i32 {
    if v > i32::MAX {
        i32::MAX
    } else if v < i32::MIN {
        i32::MIN
    } else {
        v as i32
    }
}

/// The square of the distance between two points.
pub open spec fn distance_squared(a: Vector3, b: Vector3) -> int {
    (a.x - b.x) * (a.x - b.x) + (a.y - b.y) * (a.y - b.y) + (a.z - b.z) * (a.z - b.z)
}

/// The distance that a speed covers in a duration, rounded toward zero.
pub open spec fn travel(speed: i32, micros: u64) -> int {
    if speed >= 0 {
        (speed * micros) / (MICROS_PER_SECOND as int)
    } else {
        -((-speed * micros) / (MICROS_PER_SECOND as int))
    }
}

/// Computes `clamp_i32(base + travel(speed, micros))`.
pub fn advance(base: i32, speed: i32, micros: u64) -> (r: i32)
    ensures
        r == clamp_i32(base + travel(speed, micros)),
{
    let magnitude: u128 = if speed >= 0 {
        speed as u128
    } else {
        (-(speed as i64)) as u128
    };
    assert(magnitude * micros <= 0x8000_0000 * 0xffff_ffff_ffff_ffff) by (nonlinear_arith)
        requires
            magnitude <= 0x8000_0000,
            micros <= 0xffff_ffff_ffff_ffff,
    ;
    let step: u128 = (magnitude * (micros as u128)) / (MICROS_PER_SECOND as u128);
    if speed >= 0 {
        if step > (i32::MAX as i64 - base as i64) as u128 {
            i32::MAX
        } else {
            ((base as i64) + (step as i64)) as i32
        }
    } else {
        if step > (base as i64 - i32::MIN as i64) as u128 {
            i32::MIN
        } else {
            ((base as i64) - (step as i64)) as i32
        }
    }
}

impl Vector3 {
    pub fn new(x: i32, y: i32, z: i32) -> (v: Vector3)
        ensures
            v == (Vector3 { x, y, z }),
    {
        Vector3 { x, y, z }
    }

    /// The origin.
    pub fn zeros() -> (v: Vector3)
        ensures
            v == (Vector3 { x: 0, y: 0, z: 0 }),
    {
        Vector3 { x: 0, y: 0, z: 0 }
    }

    /// The square of the distance to `other`.
    pub fn distance_squared(&self, other: &Vector3) -> (d: u128)
        ensures
            d == self::distance_squared(*self, *other),
    {
        let dx: i128 = self.x as i128 - other.x as i128;
        let dy: i128 = self.y as i128 - other.y as i128;
        let dz: i128 = self.z as i128 - other.z as i128;
        assert(0 <= dx * dx <= 0x1_0000_0000 * 0x1_0000_0000) by (nonlinear_arith)
            requires
                -0x1_0000_0000 <= dx <= 0x1_0000_0000,
        ;
        assert(0 <= dy * dy <= 0x1_0000_0000 * 0x1_0000_0000) by (nonlinear_arith)
            requires
                -0x1_0000_0000 <= dy <= 0x1_0000_0000,
        ;
        assert(0 <= dz * dz <= 0x1_0000_0000 * 0x1_0000_0000) by (nonlinear_arith)
            requires
                -0x1_0000_0000 <= dz <= 0x1_0000_0000,
        ;
        (dx * dx + dy * dy + dz * dz) as u128
    }
}

/// Where an entity is and which way it faces. Entities turn about the
/// vertical axis only, so the orientation is one angle.
#[derive(Debug, Clone, Copy, PartialEq, Eq, Structural)]
pub struct Transform {
    pub position: Vector3,
    pub rotation: i32,
}

impl Default for Transform {
    fn default() -> (t: Transform)
        ensures
            t == (Transform { position: Vector3 { x: 0, y: 0, z: 0 }, rotation: 0 }),
    {
        Transform { position: Vector3 { x: 0, y: 0, z: 0 }, rotation: 0 }
    }
}

/// Tank component.
#[derive(Debug, Clone, Copy, PartialEq, Eq, Structural)]
pub struct Tank {
    pub health: u32,
    pub max_health: u32,
    pub team: Team,
    pub turret_angle: i32,
    pub last_fire_time: u64,
    pub fire_cooldown: u64,
    pub movement_speed: i32,
    pub rotation_speed: i32,
    pub turret_rotation_speed: i32,
}

impl Tank {
    /// The health invariant: a tank never holds more health than its maximum.
    pub open spec fn wf(&self) -> bool {
        self.health <= self.max_health
    }

    /// The tank that `Default` builds.
    pub open spec fn spec_default() -> Tank {
        Tank {
            health: 100,
            max_health: 100,
            team: Team::Neutral,
            turret_angle: 0,
            last_fire_time: 0,
            fire_cooldown: 330_000,
            movement_speed: 10_000,
            rotation_speed: 1_571,
            turret_rotation_speed: 2_094,
        }
    }

    /// A default tank of the given team.
    pub fn with_team(team: Team) -> (t: Tank)
        ensures
            t == (Tank { team, ..Tank::spec_default() }),
            t.wf(),
    {
        Tank {
            health: 100,
            max_health: 100,
            team,
            turret_angle: 0,
            last_fire_time: 0,
            fire_cooldown: 330_000,
            movement_speed: 10_000,
            rotation_speed: 1_571,
            turret_rotation_speed: 2_094,
        }
    }

    /// Whether the tank still has health; a tank at zero is destroyed.
    pub fn is_alive(&self) -> (alive: bool)
        ensures
            alive == (self.health > 0),
    {
        self.health > 0
    }

    /// Takes `damage` off the health, stopping at zero. Returns whether the
    /// tank is now destroyed.
    pub fn take_damage(&mut self, damage: u32) -> (destroyed: bool)
        requires
            old(self).wf(),
        ensures
            final(self).wf(),
            final(self).health == if damage >= old(self).health {
                0
            } else {
                old(self).health - damage
            },
            *final(self) == (Tank { health: final(self).health, ..*old(self) }),
            destroyed == (final(self).health == 0),
    {
        self.health = self.health.saturating_sub(damage);
        self.health == 0
    }
}

impl Default for Tank {
    fn default() -> (t: Tank)
        ensures
            t == Tank::spec_default(),
            t.wf(),
    {
        Tank::with_team(Team::Neutral)
    }
}

/// Projectile component.
#[derive(Debug, Clone, Copy, PartialEq, Eq, Structural)]
pub struct Projectile {
    pub owner: PlayerId,
    pub damage: u32,
    pub velocity: Vector3,
    pub lifetime: u64,
    pub max_lifetime: u64,
}

impl Projectile {
    /// A projectile is spent once it has lived for its maximum lifetime.
    pub open spec fn spec_is_expired(&self) -> bool {
        self.lifetime >= self.max_lifetime
    }

    #[verifier::when_used_as_spec(spec_is_expired)]
    pub fn is_expired(&self) -> (e: bool)
        ensures
            e == self.spec_is_expired(),
    {
        self.lifetime >= self.max_lifetime
    }

    /// The projectile after `micros` more of flight; the lifetime stops at the
    /// largest value it can hold.
    pub open spec fn aged(self, micros: u64) -> Projectile {
        Projectile {
            lifetime: if self.lifetime + micros > u64::MAX {
                u64::MAX
            } else {
                (self.lifetime + micros) as u64
            },
            ..self
        }
    }
}

/// A projectile after `ticks` ticks of `micros` each.
pub open spec fn aged_times(p: Projectile, micros: u64, ticks: nat) -> Projectile
    decreases ticks,
{
    if ticks == 0 {
        p
    } else {
        aged_times(p, micros, (ticks - 1) as nat).aged(micros)
    }
}

/// The lifetime of a projectile grows by the length of each tick until it
/// can grow no more, and its maximum stays.
pub proof fn lemma_aged_times(p: Projectile, micros: u64, ticks: nat)
    ensures
        aged_times(p, micros, ticks).max_lifetime == p.max_lifetime,
        aged_times(p, micros, ticks).lifetime == if p.lifetime + ticks * micros > u64::MAX {
            u64::MAX
        } else {
            (p.lifetime + ticks * micros) as u64
        },
    decreases ticks,
{
    if ticks > 0 {
        lemma_aged_times(p, micros, (ticks - 1) as nat);
        assert(ticks * micros == (ticks - 1) * micros + micros) by (nonlinear_arith);
        assert(0 <= (ticks - 1) * micros) by (nonlinear_arith)
            requires
                ticks >= 1,
                micros >= 0,
        ;
    } else {
        assert(ticks * micros == 0) by (nonlinear_arith)
            requires
                ticks == 0,
        ;
    }
}

/// Every projectile ends: where a tick has some length, there is a number
/// of ticks after which the projectile is spent, and it stays spent.
pub proof fn lemma_projectile_termination(p: Projectile, micros: u64) -> (ticks: nat)
    requires
        micros > 0,
    ensures
        forall|later: nat| later >= ticks
            ==> (#[trigger] aged_times(p, micros, later)).spec_is_expired(),
{
    let ticks = p.max_lifetime as nat;
    assert forall|later: nat| later >= ticks implies (#[trigger] aged_times(
        p,
        micros,
        later,
    )).spec_is_expired() by {
        lemma_aged_times(p, micros, later);
        assert(later * micros >= later) by (nonlinear_arith)
            requires
                micros >= 1,
                later >= 0,
        ;
    }
    ticks
}

impl Default for Projectile {
    fn default() -> (p: Projectile)
        ensures
            p == (Projectile {
                owner: 0,
                damage: 25,
                velocity: Vector3 { x: 0, y: 0, z: 0 },
                lifetime: 0,
                max_lifetime: 10_000_000,
            }),
    {
        Projectile {
            owner: 0,
            damage: 25,
            velocity: Vector3 { x: 0, y: 0, z: 0 },
            lifetime: 0,
            max_lifetime: 10_000_000,
        }
    }
}

/// Static scenery.
#[derive(Debug, Clone, Copy, PartialEq, Eq, Structural)]
pub struct Obstacle {
    pub destructible: bool,
    pub health: Option<u32>,
}

impl Default for Obstacle {
    fn default() -> (o: Obstacle)
        ensures
            o == (Obstacle { destructible: false, health: None }),
    {
        Obstacle { destructible: false, health: None }
    }
}

/// What a player holds down at one moment.
#[derive(Debug, Clone, Copy, PartialEq, Eq, Structural)]
pub struct PlayerInput {
    pub forward: bool,
    pub backward: bool,
    pub rotate_left: bool,
    pub rotate_right: bool,
    pub fire: bool,
    pub turret_angle: i32,
    pub timestamp: u64,
}

impl PlayerInput {
    /// No key held.
    pub open spec fn idle() -> PlayerInput {
        PlayerInput {
            forward: false,
            backward: false,
            rotate_left: false,
            rotate_right: false,
            fire: false,
            turret_angle: 0,
            timestamp: 0,
        }
    }
}

impl Default for PlayerInput {
    fn default() -> (i: PlayerInput)
        ensures
            i == PlayerInput::idle(),
    {
        PlayerInput {
            forward: false,
            backward: false,
            rotate_left: false,
            rotate_right: false,
            fire: false,
            turret_angle: 0,
            timestamp: 0,
        }
    }
}

/// Kill and death counts of one player.
#[derive(Debug, Clone, Copy, PartialEq, Eq, Structural)]
pub struct PlayerScore {
    pub kills: u32,
    pub deaths: u32,
    pub npc_kills: u32,
}

impl Default for PlayerScore {
    fn default() -> (s: PlayerScore)
        ensures
            s == (PlayerScore { kills: 0, deaths: 0, npc_kills: 0 }),
    {
        PlayerScore { kills: 0, deaths: 0, npc_kills: 0 }
    }
}

/// Collision classes used as bit masks by the physics engine.
#[derive(Debug, Clone, Copy, PartialEq, Eq, Structural)]
pub enum CollisionGroup {
    Tank,
    Projectile,
    Obstacle,
    PowerUp,
}

impl CollisionGroup {
    /// The mask bit of a collision class.
    pub open spec fn spec_bits(self) -> u32 {
        match self {
            CollisionGroup::Tank => 1,
            CollisionGroup::Projectile => 2,
            CollisionGroup::Obstacle => 4,
            CollisionGroup::PowerUp => 8,
        }
    }

    #[verifier::when_used_as_spec(spec_bits)]
    pub fn bits(self) -> (b: u32)
        ensures
            b == self.spec_bits(),
    {
        match self {
            CollisionGroup::Tank => 1,
            CollisionGroup::Projectile => 2,
            CollisionGroup::Obstacle => 4,
            CollisionGroup::PowerUp => 8,
        }
    }
}

} // verus!

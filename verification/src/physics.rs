//! What the simulation knows of the physics engine: body handles, collision
//! masks, body descriptions, the forces that an input asks for, and the index
//! from bodies to entities. The engine itself steps outside this library.

use vstd::prelude::*;
use std::collections::HashMap;
use crate::config::Config;
use crate::types::{CollisionGroup, EntityId, PlayerInput, Vector3};

verus! {

/// Handle of a rigid body in the physics engine: a slot and the generation of
/// its occupant.
#[derive(Debug, Clone, Copy, PartialEq, Eq, Structural)]
pub struct PhysicsHandle {
    pub index: u32,
    pub generation: u32,
}

impl PhysicsHandle {
    /// The handle made of a slot and a generation.
    pub fn from_raw_parts(index: u32, generation: u32) -> (h: PhysicsHandle)
        ensures
            h == (PhysicsHandle { index, generation }),
    {
        PhysicsHandle { index, generation }
    }

    /// The slot and the generation of a handle.
    pub fn into_raw_parts(self) -> (parts: (u32, u32))
        ensures
            parts == (self.index, self.generation),
    {
        (self.index, self.generation)
    }

    /// The handle as one number: the generation above the slot.
    pub open spec fn spec_key(self) -> u64 {
        (self.generation as u64 * 0x1_0000_0000 + self.index as u64) as u64
    }

    #[verifier::when_used_as_spec(spec_key)]
    pub fn key(self) -> (k: u64)
        ensures
            k == self.spec_key(),
    {
        (self.generation as u64) * 0x1_0000_0000 + (self.index as u64)
    }
}

/// Two handles with one key are one handle.
pub proof fn lemma_key_injective(a: PhysicsHandle, b: PhysicsHandle)
    requires
        a.spec_key() == b.spec_key(),
    ensures
        a == b,
{
}

/// How the engine moves a body.
#[derive(Debug, Clone, Copy, PartialEq, Eq, Structural)]
pub enum BodyKind {
    /// Moved by forces and contacts.
    Dynamic,
    /// Moved at the velocity it was given, whatever it meets.
    KinematicVelocityBased,
    /// Never moved.
    Fixed,
}

/// The shape of a collider.
#[derive(Debug, Clone, Copy, PartialEq, Eq, Structural)]
pub enum Shape {
    /// A box, by its half extents.
    Cuboid { half_extents: Vector3 },
    /// A sphere, by its radius.
    Ball { radius: i32 },
}

/// What the engine is asked to make for an entity: a body with one collider.
#[derive(Debug, Clone, Copy, PartialEq, Eq, Structural)]
pub struct BodySpec {
    pub kind: BodyKind,
    pub position: Vector3,
    pub velocity: Vector3,
    /// Whether the body is kept from tilting.
    pub lock_rotations: bool,
    pub shape: Shape,
    /// Whether the collider only reports overlaps and pushes nothing.
    pub sensor: bool,
    /// The collision classes that the collider belongs to.
    pub memberships: u32,
    /// The collision classes that the collider meets.
    pub filter: u32,
}

/// Whether two colliders meet: each belongs to a class that the other's
/// filter lets through.
pub open spec fn spec_interacts(a: BodySpec, b: BodySpec) -> bool {
    (a.memberships & b.filter) != 0 && (b.memberships & a.filter) != 0
}

/// Computes `spec_interacts`.
#[verifier::when_used_as_spec(spec_interacts)]
pub fn interacts(a: BodySpec, b: BodySpec) -> (meet: bool)
    ensures
        meet == spec_interacts(a, b),
{
    (a.memberships & b.filter) != 0 && (b.memberships & a.filter) != 0
}

/// The body of a tank: dynamic, kept upright, a box of two by one by four
/// units, of the tank class, meeting tanks, obstacles and projectiles.
pub open spec fn tank_body(position: Vector3) -> BodySpec {
    BodySpec {
        kind: BodyKind::Dynamic,
        position,
        velocity: Vector3 { x: 0, y: 0, z: 0 },
        lock_rotations: true,
        shape: Shape::Cuboid { half_extents: Vector3 { x: 1000, y: 500, z: 2000 } },
        sensor: false,
        memberships: 1,
        filter: 7,
    }
}

/// The body of a projectile: moving at its velocity whatever it meets, a
/// ball of a tenth of a unit, a sensor, of the projectile class, meeting
/// tanks and obstacles.
pub open spec fn projectile_body(position: Vector3, velocity: Vector3) -> BodySpec {
    BodySpec {
        kind: BodyKind::KinematicVelocityBased,
        position,
        velocity,
        lock_rotations: false,
        shape: Shape::Ball { radius: 100 },
        sensor: true,
        memberships: 2,
        filter: 5,
    }
}

/// The body of an obstacle: fixed, a box of the given half extents, of the
/// obstacle class, meeting tanks and projectiles.
pub open spec fn obstacle_body(position: Vector3, size: Vector3) -> BodySpec {
    BodySpec {
        kind: BodyKind::Fixed,
        position,
        velocity: Vector3 { x: 0, y: 0, z: 0 },
        lock_rotations: false,
        shape: Shape::Cuboid { half_extents: size },
        sensor: false,
        memberships: 4,
        filter: 3,
    }
}

/// Which classes meet: tanks meet tanks, obstacles and projectiles;
/// projectiles and obstacles meet each other; projectiles do not meet
/// projectiles, nor obstacles obstacles.
pub proof fn lemma_collision_classes(
    p1: Vector3,
    p2: Vector3,
    v1: Vector3,
    v2: Vector3,
    s1: Vector3,
    s2: Vector3,
)
    ensures
        spec_interacts(tank_body(p1), tank_body(p2)),
        spec_interacts(tank_body(p1), projectile_body(p2, v2)),
        spec_interacts(tank_body(p1), obstacle_body(p2, s2)),
        spec_interacts(projectile_body(p1, v1), obstacle_body(p2, s2)),
        !spec_interacts(projectile_body(p1, v1), projectile_body(p2, v2)),
        !spec_interacts(obstacle_body(p1, s1), obstacle_body(p2, s2)),
        tank_body(p1).memberships == CollisionGroup::Tank.spec_bits(),
        projectile_body(p1, v1).memberships == CollisionGroup::Projectile.spec_bits(),
        obstacle_body(p1, s1).memberships == CollisionGroup::Obstacle.spec_bits(),
{
    assert(1u32 & 7u32 != 0) by (bit_vector);
    assert(1u32 & 5u32 != 0 && 2u32 & 7u32 != 0) by (bit_vector);
    assert(1u32 & 3u32 != 0 && 4u32 & 7u32 != 0) by (bit_vector);
    assert(2u32 & 3u32 != 0 && 4u32 & 5u32 != 0) by (bit_vector);
    assert(2u32 & 5u32 == 0) by (bit_vector);
    assert(4u32 & 3u32 == 0) by (bit_vector);
}

/// The force along a tank's heading and the torque about its vertical axis
/// that an input asks for.
#[derive(Debug, Clone, Copy, PartialEq, Eq, Structural)]
pub struct InputForces {
    pub thrust: i32,
    pub torque: i32,
}

/// Thrust of a tank that drives forward.
pub const TANK_POWER: i32 = 8000;

/// Thrust of a tank that backs up, which is slower.
pub const REVERSE_POWER: i32 = 5600;

/// Torque of a tank that turns.
pub const TURN_POWER: i32 = 3000;

/// Further torque of a tank that turns while it drives forward.
pub const FORWARD_TURN_POWER: i32 = 1500;

/// Torque, against the turn, of a tank that turns while it backs up.
pub const REVERSE_TURN_POWER: i32 = 900;

/// The greatest speed to which the engine lets a tank come.
pub const MAX_SPEED: i32 = 12_000;

/// The greatest turning speed to which the engine lets a tank come.
pub const MAX_ANGULAR_SPEED: i32 = 2_000;

/// The forces of an input. The magnitudes are fixed, whatever the length of
/// a step: forward and backward push along the heading, left and right turn
/// about the vertical axis, and a tank that turns while it moves turns
/// further when it drives forward and less when it backs up.
pub open spec fn input_forces(input: PlayerInput) -> InputForces {
    let push: int = if input.forward {
        TANK_POWER as int
    } else {
        0
    };
    let pull: int = if input.backward {
        REVERSE_POWER as int
    } else {
        0
    };
    let more: int = if input.forward {
        FORWARD_TURN_POWER as int
    } else {
        0
    };
    let less: int = if input.backward {
        REVERSE_TURN_POWER as int
    } else {
        0
    };
    let turn: int = TURN_POWER + more - less;
    let left: int = if input.rotate_left {
        turn
    } else {
        0
    };
    let right: int = if input.rotate_right {
        turn
    } else {
        0
    };
    InputForces { thrust: (push - pull) as i32, torque: (left - right) as i32 }
}

/// Computes `input_forces`.
pub fn apply_input_forces(input: &PlayerInput) -> (forces: InputForces)
    ensures
        forces == input_forces(*input),
{
    let mut thrust: i32 = 0;
    if input.forward {
        thrust = thrust + TANK_POWER;
    }
    if input.backward {
        thrust = thrust - REVERSE_POWER;
    }
    let mut torque: i32 = 0;
    if input.rotate_left {
        torque = torque + TURN_POWER;
    }
    if input.rotate_right {
        torque = torque - TURN_POWER;
    }
    if input.forward && input.rotate_left {
        torque = torque + FORWARD_TURN_POWER;
    }
    if input.forward && input.rotate_right {
        torque = torque - FORWARD_TURN_POWER;
    }
    if input.backward && input.rotate_left {
        torque = torque - REVERSE_TURN_POWER;
    }
    if input.backward && input.rotate_right {
        torque = torque + REVERSE_TURN_POWER;
    }
    InputForces { thrust, torque }
}

/// An index of bodies without those behind `handles`.
pub open spec fn without_bodies(bodies: Map<u64, EntityId>, handles: Seq<PhysicsHandle>) -> Map<
    u64,
    EntityId,
> {
    bodies.remove_keys(handles.map_values(|h: PhysicsHandle| h.spec_key()).to_set())
}

/// The index of the bodies that the engine holds: which entity each body
/// stands for.
pub struct PhysicsWorld {
    entity_map: HashMap<u64, EntityId>,
    timestep: u64,
}

impl PhysicsWorld {
    /// The entity of each body, by the key of the body's handle.
    pub closed spec fn bodies(&self) -> Map<u64, EntityId> {
        self.entity_map@
    }

    /// The length of one step, in microseconds.
    pub closed spec fn step_length(&self) -> u64 {
        self.timestep
    }

    /// An index without bodies, for steps of the length that the settings give.
    pub fn new(config: &Config) -> (w: PhysicsWorld)
        ensures
            w.bodies() == Map::<u64, EntityId>::empty(),
            w.step_length() == config.server.physics_timestep,
    {
        PhysicsWorld { entity_map: HashMap::new(), timestep: config.server.physics_timestep }
    }

    /// The length of one step, in microseconds.
    pub fn timestep(&self) -> (t: u64)
        ensures
            t == self.step_length(),
    {
        self.timestep
    }

    /// What to make for a tank at `position`.
    pub fn create_tank(position: Vector3) -> (body: BodySpec)
        ensures
            body == tank_body(position),
    {
        BodySpec {
            kind: BodyKind::Dynamic,
            position,
            velocity: Vector3::zeros(),
            lock_rotations: true,
            shape: Shape::Cuboid { half_extents: Vector3::new(1000, 500, 2000) },
            sensor: false,
            memberships: 1,
            filter: 7,
        }
    }

    /// What to make for a projectile at `position` that flies at `velocity`.
    pub fn create_projectile(position: Vector3, velocity: Vector3) -> (body: BodySpec)
        ensures
            body == projectile_body(position, velocity),
    {
        BodySpec {
            kind: BodyKind::KinematicVelocityBased,
            position,
            velocity,
            lock_rotations: false,
            shape: Shape::Ball { radius: 100 },
            sensor: true,
            memberships: 2,
            filter: 5,
        }
    }

    /// What to make for an obstacle at `position` with half extents `size`.
    pub fn create_obstacle(position: Vector3, size: Vector3) -> (body: BodySpec)
        ensures
            body == obstacle_body(position, size),
    {
        BodySpec {
            kind: BodyKind::Fixed,
            position,
            velocity: Vector3::zeros(),
            lock_rotations: false,
            shape: Shape::Cuboid { half_extents: size },
            sensor: false,
            memberships: 4,
            filter: 3,
        }
    }

    /// Records that the engine made the body `handle` for `entity_id`.
    pub fn register_body(&mut self, handle: PhysicsHandle, entity_id: EntityId)
        ensures
            final(self).bodies() == old(self).bodies().insert(handle.spec_key(), entity_id),
            final(self).step_length() == old(self).step_length(),
    {
        self.entity_map.insert(handle.key(), entity_id);
    }

    /// Forgets a body, and tells whether the engine still has to remove it:
    /// a handle that was removed before, or never made, is not known, and
    /// then nothing changes.
    pub fn remove_body(&mut self, handle: PhysicsHandle) -> (known: bool)
        ensures
            known == old(self).bodies().contains_key(handle.spec_key()),
            final(self).bodies() == old(self).bodies().remove(handle.spec_key()),
            !final(self).bodies().contains_key(handle.spec_key()),
            final(self).step_length() == old(self).step_length(),
    {
        self.entity_map.remove(&handle.key()).is_some()
    }

    /// Forgets every body of `handles`; a handle that is not known changes
    /// nothing.
    pub fn remove_bodies(&mut self, handles: &Vec<PhysicsHandle>)
        ensures
            final(self).bodies() == without_bodies(old(self).bodies(), handles@),
            final(self).step_length() == old(self).step_length(),
    {
        let ghost keys = handles@.map_values(|h: PhysicsHandle| h.spec_key());
        let mut i: usize = 0;
        assert(self.bodies() =~= old(self).bodies().remove_keys(keys.take(0).to_set()));
        while i < handles.len()
            invariant
                i <= handles.len(),
                keys == handles@.map_values(|h: PhysicsHandle| h.spec_key()),
                self.bodies() == old(self).bodies().remove_keys(keys.take(i as int).to_set()),
                self.step_length() == old(self).step_length(),
            decreases handles.len() - i,
        {
            let _ = self.remove_body(handles[i]);
            proof {
                let done = keys.take(i as int);
                let more = keys.take(i + 1);
                let key = handles[i as int].spec_key();
                assert(more =~= done.push(key));
                assert(more.to_set() =~= done.to_set().insert(key)) by {
                    assert forall|k: u64| more.to_set().contains(k) <==> done.to_set().insert(
                        key,
                    ).contains(k) by {
                        if more.contains(k) {
                            let j = choose|j: int| 0 <= j < more.len() && more[j] == k;
                            if j < done.len() {
                                assert(done[j] == k);
                            }
                        }
                        if done.contains(k) {
                            let j = choose|j: int| 0 <= j < done.len() && done[j] == k;
                            assert(more[j] == k);
                        }
                        if k == key {
                            assert(more[i as int] == k);
                        }
                    }
                }
                assert(self.bodies() =~= old(self).bodies().remove_keys(more.to_set()));
            }
            i += 1;
        }
        assert(keys.take(handles.len() as int) =~= keys);
    }

    /// The entity that a body stands for; none for a handle that is not known.
    pub fn get_entity_id(&self, handle: PhysicsHandle) -> (id: Option<EntityId>)
        ensures
            id == if self.bodies().contains_key(handle.spec_key()) {
                Some(self.bodies()[handle.spec_key()])
            } else {
                None::<EntityId>
            },
    {
        match self.entity_map.get(&handle.key()) {
            Some(id) => Some(*id),
            None => None,
        }
    }

    /// The number of bodies.
    pub fn body_count(&self) -> (n: usize)
        ensures
            n == self.bodies().dom().len(),
    {
        self.entity_map.len()
    }
}

/// Removing a body twice: the second removal finds nothing and changes nothing.
pub proof fn lemma_remove_body_once(bodies: Map<u64, EntityId>, handle: PhysicsHandle)
    ensures
        !bodies.remove(handle.spec_key()).contains_key(handle.spec_key()),
        bodies.remove(handle.spec_key()).remove(handle.spec_key()) == bodies.remove(
            handle.spec_key(),
        ),
{
    assert(bodies.remove(handle.spec_key()).remove(handle.spec_key()) =~= bodies.remove(
        handle.spec_key(),
    ));
}

} // verus!

//! The entity world: which entities exist and which components each holds.

use vstd::prelude::*;
use std::collections::HashMap;
use crate::physics::PhysicsHandle;
use crate::store::{
    store_despawn, store_entities, store_get, store_insert_body, store_insert_driver,
    store_insert_npc_tank, store_insert_obstacle, store_insert_player_tank,
    store_insert_projectile, store_len, store_model, store_new,
    store_set_npc, store_set_player_input, store_set_projectile_lifetime, store_set_tank_health,
    store_set_transform, store_spawn,
};
use crate::ai::{is_nearest, nearer, next_ai_state, think, thought, AiConfig};
use crate::types::{
    advance, clamp_i32, distance_squared, travel, EntityId, Obstacle, PlayerId, PlayerInput,
    Projectile, Tank, Team, Transform, Vector3,
};

verus! {

/// Component that links an entity to its body in the physics engine.
#[derive(Debug, Clone, Copy, PartialEq, Eq, Structural)]
pub struct PhysicsBody {
    pub handle: PhysicsHandle,
}

/// Component of an entity that a player drives.
#[derive(Debug)]
pub struct Player {
    pub player_id: PlayerId,
    pub name: String,
    pub input: PlayerInput,
}

impl Clone for Player {
    fn clone(&self) -> (r: Player)
        ensures
            r == *self,
    {
        Player { player_id: self.player_id, name: self.name.clone(), input: self.input }
    }
}

/// What a tank without a player is up to.
#[derive(Debug, Clone, Copy, PartialEq, Eq, Structural)]
pub enum NpcAiState {
    Patrol,
    Attacking,
    Searching,
}

/// Component of a tank that no player drives.
#[derive(Debug, Clone, Copy, PartialEq, Eq, Structural)]
pub struct Npc {
    pub ai_state: NpcAiState,
    pub target: Option<EntityId>,
}

/// The components that one entity holds.
#[derive(Debug)]
pub struct Components {
    pub transform: Option<Transform>,
    pub tank: Option<Tank>,
    pub player: Option<Player>,
    pub npc: Option<Npc>,
    pub projectile: Option<Projectile>,
    pub obstacle: Option<Obstacle>,
    pub body: Option<PhysicsBody>,
}

impl Clone for Components {
    fn clone(&self) -> (r: Components)
        ensures
            r == *self,
    {
        Components {
            transform: self.transform,
            tank: self.tank,
            player: match &self.player {
                Some(p) => Some(p.clone()),
                None => None,
            },
            npc: self.npc,
            projectile: self.projectile,
            obstacle: self.obstacle,
            body: self.body,
        }
    }
}

impl Components {
    /// No component at all.
    pub open spec fn none() -> Components {
        Components {
            transform: None,
            tank: None,
            player: None,
            npc: None,
            projectile: None,
            obstacle: None,
            body: None,
        }
    }

    /// The components of a tank that a player drives.
    pub open spec fn player_tank(
        player_id: PlayerId,
        name: String,
        transform: Transform,
        handle: PhysicsHandle,
    ) -> Components {
        Components {
            transform: Some(transform),
            tank: Some(Tank { team: Team::Red, ..Tank::spec_default() }),
            player: Some(Player { player_id, name, input: PlayerInput::idle() }),
            body: Some(PhysicsBody { handle }),
            ..Components::none()
        }
    }

    /// The components of a tank that a player drives and that has no body
    /// yet.
    pub open spec fn unattached_player_tank(
        player_id: PlayerId,
        name: String,
        transform: Transform,
    ) -> Components {
        Components {
            transform: Some(transform),
            tank: Some(Tank { team: Team::Red, ..Tank::spec_default() }),
            player: Some(Player { player_id, name, input: PlayerInput::idle() }),
            ..Components::none()
        }
    }

    /// The components with the body behind `handle`.
    pub open spec fn with_body(self, handle: PhysicsHandle) -> Components {
        Components { body: Some(PhysicsBody { handle }), ..self }
    }

    /// The components of a tank that no player drives.
    pub open spec fn npc_tank(transform: Transform, handle: PhysicsHandle) -> Components {
        Components {
            transform: Some(transform),
            tank: Some(Tank::spec_default()),
            npc: Some(Npc { ai_state: NpcAiState::Patrol, target: None }),
            body: Some(PhysicsBody { handle }),
            ..Components::none()
        }
    }

    /// The components of a projectile.
    pub open spec fn projectile(
        transform: Transform,
        projectile: Projectile,
        handle: PhysicsHandle,
    ) -> Components {
        Components {
            transform: Some(transform),
            projectile: Some(projectile),
            body: Some(PhysicsBody { handle }),
            ..Components::none()
        }
    }

    /// The components of an obstacle.
    pub open spec fn obstacle(
        transform: Transform,
        obstacle: Obstacle,
        handle: PhysicsHandle,
    ) -> Components {
        Components {
            transform: Some(transform),
            obstacle: Some(obstacle),
            body: Some(PhysicsBody { handle }),
            ..Components::none()
        }
    }

    /// The body handle among the components, if there is one.
    pub open spec fn handle(self) -> Option<PhysicsHandle> {
        match self.body {
            Some(b) => Some(b.handle),
            None => None,
        }
    }

    /// Whether a player drives the entity and it can move: it has a
    /// transform, a tank and a player record.
    pub open spec fn is_player_tank(self) -> bool {
        self.transform is Some && self.tank is Some && self.player is Some
    }

    /// Whether the entity is a tank: it has a transform and a tank.
    pub open spec fn is_tank(self) -> bool {
        self.transform is Some && self.tank is Some
    }

    /// Whether the entity is a projectile in flight: it has a transform and
    /// a projectile.
    pub open spec fn is_projectile(self) -> bool {
        self.transform is Some && self.projectile is Some
    }

    /// The components after the movement of one tick: an entity that a player
    /// drives gets the transform that its input asks for.
    pub open spec fn moved(self, delta_time: u64) -> Components {
        if self.is_player_tank() {
            Components {
                transform: Some(
                    moved_transform(
                        self.transform->0,
                        self.tank->0,
                        self.player->0.input,
                        delta_time,
                    ),
                ),
                ..self
            }
        } else {
            self
        }
    }

    /// The components after the flight of one tick: a projectile is older by
    /// `delta_time`.
    pub open spec fn aged(self, delta_time: u64) -> Components {
        match self.projectile {
            Some(p) => Components { projectile: Some(p.aged(delta_time)), ..self },
            None => self,
        }
    }

    /// Whether the entity is a tank that no player drives: it has a
    /// transform, a tank and an NPC record.
    pub open spec fn is_npc_tank(self) -> bool {
        self.transform is Some && self.tank is Some && self.npc is Some
    }

    /// Whether the entity is a player's tank that is not destroyed.
    pub open spec fn is_live_player_tank(self) -> bool {
        self.is_player_tank() && self.tank->0.health > 0
    }

    /// Whether the entity holds a projectile that is spent.
    pub open spec fn is_spent(self) -> bool {
        self.projectile is Some && self.projectile->0.spec_is_expired()
    }
}

/// The kinds of component, to count entities by.
#[derive(Debug, Clone, Copy, PartialEq, Eq, Structural)]
pub enum ComponentKind {
    Transform,
    Tank,
    Player,
    Npc,
    Projectile,
    Obstacle,
    PhysicsBody,
}

impl ComponentKind {
    /// Whether `c` holds a component of this kind.
    pub open spec fn held_by(self, c: Components) -> bool {
        match self {
            ComponentKind::Transform => c.transform is Some,
            ComponentKind::Tank => c.tank is Some,
            ComponentKind::Player => c.player is Some,
            ComponentKind::Npc => c.npc is Some,
            ComponentKind::Projectile => c.projectile is Some,
            ComponentKind::Obstacle => c.obstacle is Some,
            ComponentKind::PhysicsBody => c.body is Some,
        }
    }

    fn is_held_by(self, c: &Components) -> (held: bool)
        ensures
            held == self.held_by(*c),
    {
        match self {
            ComponentKind::Transform => c.transform.is_some(),
            ComponentKind::Tank => c.tank.is_some(),
            ComponentKind::Player => c.player.is_some(),
            ComponentKind::Npc => c.npc.is_some(),
            ComponentKind::Projectile => c.projectile.is_some(),
            ComponentKind::Obstacle => c.obstacle.is_some(),
            ComponentKind::PhysicsBody => c.body.is_some(),
        }
    }
}

/// The transform of a tank after `delta_time` under `input`: forward and
/// backward move it along the depth axis at the tank's speed, left and right
/// turn it about the vertical axis at the tank's rotation speed. Each step
/// stops at the limits of the number range.
pub open spec fn moved_transform(
    transform: Transform,
    tank: Tank,
    input: PlayerInput,
    delta_time: u64,
) -> Transform {
    let step = travel(tank.movement_speed, delta_time);
    let turn = travel(tank.rotation_speed, delta_time);
    let z1 = if input.forward {
        clamp_i32(transform.position.z + step)
    } else {
        transform.position.z
    };
    let z2 = if input.backward {
        clamp_i32(z1 - step)
    } else {
        z1
    };
    let r1 = if input.rotate_left {
        clamp_i32(transform.rotation + turn)
    } else {
        transform.rotation
    };
    let r2 = if input.rotate_right {
        clamp_i32(r1 - turn)
    } else {
        r1
    };
    Transform { position: Vector3 { z: z2, ..transform.position }, rotation: r2 }
}

/// The components after the movement of `ticks` ticks of `delta_time` each.
pub open spec fn moved_times(c: Components, delta_time: u64, ticks: nat) -> Components
    decreases ticks,
{
    if ticks == 0 {
        c
    } else {
        moved_times(c, delta_time, (ticks - 1) as nat).moved(delta_time)
    }
}

/// A tank whose player holds forward, and nothing else, advances by the
/// same distance with every tick: after `ticks` ticks it stands `ticks`
/// times the travel of one tick further along the depth axis, as long as
/// a coordinate can hold that, and nothing else about it has changed.
pub proof fn lemma_steady_advance(c: Components, delta_time: u64, ticks: nat)
    requires
        c.is_player_tank(),
        c.player->0.input.forward,
        !c.player->0.input.backward,
        !c.player->0.input.rotate_left,
        !c.player->0.input.rotate_right,
        i32::MIN <= c.transform->0.position.z + ticks * travel(
            c.tank->0.movement_speed,
            delta_time,
        ) <= i32::MAX,
    ensures
        moved_times(c, delta_time, ticks) == (Components {
            transform: Some(
                Transform {
                    position: Vector3 {
                        z: (c.transform->0.position.z + ticks * travel(
                            c.tank->0.movement_speed,
                            delta_time,
                        )) as i32,
                        ..c.transform->0.position
                    },
                    rotation: c.transform->0.rotation,
                },
            ),
            ..c
        }),
    decreases ticks,
{
    let step = travel(c.tank->0.movement_speed, delta_time);
    let z = c.transform->0.position.z as int;
    if ticks > 0 {
        let fewer = (ticks - 1) as nat;
        assert(i32::MIN <= z + fewer * step <= i32::MAX) by (nonlinear_arith)
            requires
                i32::MIN <= z <= i32::MAX,
                i32::MIN <= z + ticks * step <= i32::MAX,
                fewer == ticks - 1,
                ticks >= 1,
        ;
        lemma_steady_advance(c, delta_time, fewer);
        assert(z + fewer * step + step == z + ticks * step) by (nonlinear_arith)
            requires
                fewer == ticks - 1,
        ;
    } else {
        assert(z + ticks * step == z) by (nonlinear_arith)
            requires
                ticks == 0,
        ;
    }
}

/// Computes `clamp_i32(base - travel(speed, micros))`.
fn retreat(base: i32, speed: i32, micros: u64) -> (r: i32)
    ensures
        r == clamp_i32(base - travel(speed, micros)),
{
    if speed == i32::MIN {
        // The step of the lowest speed, taken the other way, is that of the
        // highest speed and one more unit per second.
        let magnitude: u128 = 0x8000_0000;
        assert(magnitude * micros <= 0x8000_0000 * 0xffff_ffff_ffff_ffff) by (nonlinear_arith)
            requires
                magnitude == 0x8000_0000,
                micros <= 0xffff_ffff_ffff_ffff,
        ;
        let step: u128 = (magnitude * (micros as u128)) / 1_000_000;
        if step > (i32::MAX as i64 - base as i64) as u128 {
            i32::MAX
        } else {
            ((base as i64) + (step as i64)) as i32
        }
    } else {
        proof {
            let s = speed as int;
            let m = micros as int;
            assert(-((-s) * m) == s * m) by (nonlinear_arith);
            assert((-(-s)) * m == s * m) by (nonlinear_arith);
        }
        advance(base, -speed, micros)
    }
}

/// Computes `moved_transform`.
pub fn move_tank(transform: &Transform, tank: &Tank, input: &PlayerInput, delta_time: u64) -> (r:
    Transform)
    ensures
        r == moved_transform(*transform, *tank, *input, delta_time),
{
    let mut z = transform.position.z;
    if input.forward {
        z = advance(z, tank.movement_speed, delta_time);
    }
    if input.backward {
        z = retreat(z, tank.movement_speed, delta_time);
    }
    let mut rotation = transform.rotation;
    if input.rotate_left {
        rotation = advance(rotation, tank.rotation_speed, delta_time);
    }
    if input.rotate_right {
        rotation = retreat(rotation, tank.rotation_speed, delta_time);
    }
    Transform {
        position: Vector3 { x: transform.position.x, y: transform.position.y, z },
        rotation,
    }
}

/// The health that is left of `health` after `damage`.
pub open spec fn health_after(health: u32, damage: u32) -> u32 {
    if damage >= health {
        0
    } else {
        (health - damage) as u32
    }
}

/// How the world changes when a tank is hurt: the tank of the entity loses
/// `damage` of its health, down to zero at most, and is told destroyed at
/// zero; where the entity is gone or has no tank nothing changes and nothing
/// is told.
pub open spec fn tank_damaged(
    before: Map<EntityId, Components>,
    after: Map<EntityId, Components>,
    id: EntityId,
    damage: u32,
    destroyed: Option<bool>,
) -> bool {
    if before.contains_key(id) && before[id].tank is Some {
        let tank = before[id].tank->0;
        let left = health_after(tank.health, damage);
        &&& after == before.insert(
            id,
            Components { tank: Some(Tank { health: left, ..tank }), ..before[id] },
        )
        &&& destroyed == Some(left == 0)
    } else {
        after == before && destroyed is None
    }
}

/// Whether the entity `id` of `world` holds the record of `player_id`.
pub open spec fn holds_player(
    world: Map<EntityId, Components>,
    id: EntityId,
    player_id: PlayerId,
) -> bool {
    world.contains_key(id) && world[id].player is Some && world[id].player->0.player_id
        == player_id
}

/// How the world changes when a player's input is replaced: one entity
/// that holds the player's record holds the input from then on, and where
/// no entity holds the record nothing changes.
pub open spec fn input_replaced(
    before: Map<EntityId, Components>,
    after: Map<EntityId, Components>,
    player_id: PlayerId,
    input: PlayerInput,
) -> bool {
    if exists|id: EntityId| holds_player(before, id, player_id) {
        exists|id: EntityId| #[trigger]
            holds_player(before, id, player_id) && after == before.insert(
                id,
                Components {
                    player: Some(Player { input, ..before[id].player->0 }),
                    ..before[id]
                },
            )
    } else {
        after == before
    }
}

/// Whether `target` is the live player's tank of `world` nearest to
/// `origin`, the lower number deciding between equal distances.
pub open spec fn is_target(
    world: Map<EntityId, Components>,
    origin: Vector3,
    target: EntityId,
) -> bool {
    &&& world.contains_key(target)
    &&& world[target].is_live_player_tank()
    &&& forall|other: EntityId|
        world.contains_key(other) && (#[trigger] world[other]).is_live_player_tank() ==> nearer(
            origin,
            (target, world[target].transform->0.position),
            (other, world[other].transform->0.position),
        )
}

/// Whether `world` holds a live player's tank.
pub open spec fn has_target(world: Map<EntityId, Components>) -> bool {
    exists|id: EntityId| world.contains_key(id) && (#[trigger] world[id]).is_live_player_tank()
}

/// What a look around makes of the NPC record of an entity of `world`. A
/// tank without a player targets the nearest live player's tank and takes
/// the state that the distance to it asks for; without any such tank it
/// patrols without a target. Any other entity keeps what it has.
pub open spec fn npc_after(
    world: Map<EntityId, Components>,
    id: EntityId,
    config: AiConfig,
    next: Option<Npc>,
) -> bool {
    let c = world[id];
    if !c.is_npc_tank() {
        next == c.npc
    } else if !has_target(world) {
        next == Some(Npc { ai_state: NpcAiState::Patrol, target: None })
    } else {
        next is Some && next->0.target is Some && is_target(
            world,
            c.transform->0.position,
            next->0.target->0,
        ) && next->0.ai_state == next_ai_state(
            c.npc->0.ai_state,
            Some(
                distance_squared(
                    c.transform->0.position,
                    world[next->0.target->0].transform->0.position,
                ),
            ),
            config,
        )
    }
}

/// Whether entry `k` of `candidates` stands for a live player's tank of `world`.
pub closed spec fn candidate_of(
    world: Map<EntityId, Components>,
    candidate: (EntityId, Vector3),
) -> bool {
    world.contains_key(candidate.0) && world[candidate.0].is_live_player_tank()
        && world[candidate.0].transform->0.position == candidate.1
}

/// Whether `candidates` names the entity `id`.
pub closed spec fn names(candidates: Seq<(EntityId, Vector3)>, id: EntityId) -> bool {
    exists|k: int| 0 <= k < candidates.len() && (#[trigger] candidates[k]).0 == id
}

/// Whether one of the first `upto` entries of `all` is the entity `id` and
/// holds a projectile that is spent after `delta_time`.
pub closed spec fn spent_among(
    all: Seq<(EntityId, Components)>,
    upto: int,
    id: EntityId,
    delta_time: u64,
) -> bool {
    exists|k: int|
        0 <= k < upto && (#[trigger] all[k]).0 == id && all[k].1.aged(delta_time).is_spent()
}

/// The entity world. Entities are numbered from 1 in the order of their
/// creation, and a number is never given twice.
pub struct EcsWorld {
    world: hecs::World,
    next_entity_id: EntityId,
    entity_map: HashMap<EntityId, u64>,
    handle_map: HashMap<u64, EntityId>,
    physics_map: HashMap<u64, PhysicsHandle>,
}

impl View for EcsWorld {
    type V = Map<EntityId, Components>;

    /// The live entities with what each holds.
    closed spec fn view(&self) -> Map<EntityId, Components> {
        Map::new(
            |id: EntityId| self.entity_map@.contains_key(id),
            |id: EntityId| store_model(self.world)[self.entity_map@[id]],
        )
    }
}

impl EcsWorld {
    /// The number that the next entity gets.
    pub closed spec fn next_id(&self) -> EntityId {
        self.next_entity_id
    }

    /// The invariant of the world. It holds the two indexes to the store and
    /// to each other, every body handle to the body component of its entity,
    /// and every tank to its health invariant; and no tank is a projectile.
    pub closed spec fn wf(&self) -> bool {
        let m = store_model(self.world);
        let em = self.entity_map@;
        let hm = self.handle_map@;
        let pm = self.physics_map@;
        &&& m.dom().finite()
        &&& self.next_entity_id >= 1
        &&& m.dom().len() < self.next_entity_id
        &&& m.dom().len() == em.dom().len()
        &&& forall|id: EntityId| #[trigger]
            em.contains_key(id) ==> hm.contains_key(em[id]) && hm[em[id]] == id && m.contains_key(
                em[id],
            ) && 1 <= id < self.next_entity_id
        &&& forall|e: u64| #[trigger]
            hm.contains_key(e) ==> em.contains_key(hm[e]) && em[hm[e]] == e
        &&& forall|e: u64| #[trigger] m.contains_key(e) ==> hm.contains_key(e)
        &&& forall|e: u64| #[trigger]
            pm.contains_key(e) ==> m.contains_key(e) && m[e].body == Some(
                PhysicsBody { handle: pm[e] },
            )
        &&& forall|e: u64| #[trigger]
            m.contains_key(e) ==> (m[e].body is Some ==> pm.contains_key(e)) && (m[e].tank is Some
                ==> m[e].tank->0.wf() && m[e].projectile is None)
    }

    /// No tank of the world is a projectile, so none leaves as a spent one.
    pub proof fn lemma_tank_is_no_projectile(&self, id: EntityId)
        requires
            self.wf(),
            self@.contains_key(id),
            self@[id].tank is Some,
        ensures
            self@[id].projectile is None,
    {
    }

    /// Every tank of the world keeps its health within its maximum.
    pub proof fn lemma_health_invariant(&self, id: EntityId)
        requires
            self.wf(),
            self@.contains_key(id),
            self@[id].tank is Some,
        ensures
            0 <= self@[id].tank->0.health <= self@[id].tank->0.max_health,
    {
    }

    /// Every number in use is below the next one to be given.
    pub proof fn lemma_ids_below_next(&self, id: EntityId)
        requires
            self.wf(),
            self@.contains_key(id),
        ensures
            1 <= id < self.next_id(),
    {
    }

    /// The world is finite.
    pub proof fn lemma_finite(&self)
        requires
            self.wf(),
        ensures
            self@.dom().finite(),
            self@.dom().len() < self.next_id(),
    {
        assert(self@.dom() =~= self.entity_map@.dom());
    }

    /// An empty world.
    pub fn new() -> (w: EcsWorld)
        ensures
            w.wf(),
            w@ == Map::<EntityId, Components>::empty(),
            w.next_id() == 1,
    {
        let w = EcsWorld {
            world: store_new(),
            next_entity_id: 1,
            entity_map: HashMap::new(),
            handle_map: HashMap::new(),
            physics_map: HashMap::new(),
        };
        assert(w@ =~= Map::<EntityId, Components>::empty());
        assert(w.entity_map@.dom() =~= Set::<EntityId>::empty());
        w
    }

    /// Whether another entity can be made: the numbers have not run out.
    pub fn has_room(&self) -> (room: bool)
        ensures
            room == (self.next_id() < u32::MAX),
    {
        self.next_entity_id < u32::MAX
    }

    /// Makes an entity without components and gives it the next number.
    fn create_entity(&mut self) -> (r: (EntityId, u64))
        requires
            old(self).wf(),
            old(self).next_id() < u32::MAX,
        ensures
            final(self).wf(),
            r.0 == old(self).next_id(),
            final(self).next_id() == r.0 + 1,
            !old(self)@.contains_key(r.0),
            final(self)@ == old(self)@.insert(r.0, Components::none()),
            final(self).entity_map@.contains_key(r.0),
            final(self).entity_map@[r.0] == r.1,
            final(self).physics_map@ == old(self).physics_map@,
            !final(self).physics_map@.contains_key(r.1),
    {
        let entity_id = self.next_entity_id;
        self.next_entity_id = self.next_entity_id + 1;
        let entity = store_spawn(&mut self.world);
        proof {
            if old(self).entity_map@.contains_key(entity_id) {
                assert(entity_id < old(self).next_entity_id);
            }
            if old(self).handle_map@.contains_key(entity) {
                assert(old(self).entity_map@.contains_key(old(self).handle_map@[entity]));
            }
            if old(self).physics_map@.contains_key(entity) {
                assert(store_model(old(self).world).contains_key(entity));
            }
        }
        self.entity_map.insert(entity_id, entity);
        self.handle_map.insert(entity, entity_id);
        proof {
            let m0 = store_model(old(self).world);
            let m = store_model(self.world);
            let em = self.entity_map@;
            let hm = self.handle_map@;
            assert(m.dom() =~= m0.dom().insert(entity));
            assert(em.dom() =~= old(self).entity_map@.dom().insert(entity_id));
            assert forall|id: EntityId| #[trigger] em.contains_key(id) implies hm.contains_key(
                em[id],
            ) && hm[em[id]] == id && m.contains_key(em[id]) && 1 <= id
                < self.next_entity_id by {
                if id != entity_id {
                    assert(old(self).entity_map@.contains_key(id));
                    assert(old(self).entity_map@[id] != entity);
                }
            }
            assert forall|e: u64| #[trigger] hm.contains_key(e) implies em.contains_key(hm[e])
                && em[hm[e]] == e by {
                if e != entity {
                    assert(old(self).handle_map@.contains_key(e));
                    assert(old(self).handle_map@[e] != entity_id);
                }
            }
            assert(final(self)@ =~= old(self)@.insert(entity_id, Components::none())) by {
                assert forall|id: EntityId| final(self)@.contains_key(id) implies final(self)@[id]
                    == old(self)@.insert(entity_id, Components::none())[id] by {
                    if id != entity_id {
                        assert(old(self).entity_map@.contains_key(id));
                        assert(old(self).entity_map@[id] != entity);
                    }
                }
            }
        }
        (entity_id, entity)
    }

    /// Restores the invariant after the components of the newest entity were set.
    proof fn lemma_after_insert(pre: EcsWorld, post: EcsWorld, id: EntityId, c: Components)
        requires
            pre.wf(),
            pre@.contains_key(id),
            pre@[id] == Components::none(),
            !pre.physics_map@.contains_key(pre.entity_map@[id]),
            c.tank is Some ==> c.tank->0.wf() && c.projectile is None,
            post.next_entity_id == pre.next_entity_id,
            post.entity_map@ == pre.entity_map@,
            post.handle_map@ == pre.handle_map@,
            store_model(post.world) == store_model(pre.world).insert(pre.entity_map@[id], c),
            post.physics_map@ == if c.body is Some {
                pre.physics_map@.insert(pre.entity_map@[id], c.body->0.handle)
            } else {
                pre.physics_map@
            },
        ensures
            post.wf(),
            post@ == pre@.insert(id, c),
    {
        let e = pre.entity_map@[id];
        let m0 = store_model(pre.world);
        let m = store_model(post.world);
        assert(m.dom() =~= m0.dom());
        assert(post@ =~= pre@.insert(id, c)) by {
            assert forall|other: EntityId| post@.contains_key(other) implies post@[other]
                == pre@.insert(id, c)[other] by {
                if other != id {
                    assert(pre.entity_map@.contains_key(other));
                    assert(pre.handle_map@[pre.entity_map@[other]] == other);
                }
            }
        }
    }

    /// Adds a tank for a player: a fresh entity with the given transform, a
    /// default tank of the red team, the player's record with no key held,
    /// and the given body.
    pub fn create_player_tank(
        &mut self,
        player_id: PlayerId,
        name: String,
        transform: Transform,
        physics_handle: PhysicsHandle,
    ) -> (id: EntityId)
        requires
            old(self).wf(),
            old(self).next_id() < u32::MAX,
        ensures
            final(self).wf(),
            id == old(self).next_id(),
            final(self).next_id() == id + 1,
            !old(self)@.contains_key(id),
            final(self)@ == old(self)@.insert(
                id,
                Components::player_tank(player_id, name, transform, physics_handle),
            ),
    {
        let (entity_id, entity) = self.create_entity();
        let ghost pre = *self;
        let tank = Tank::with_team(Team::Red);
        let player = Player { player_id, name, input: PlayerInput::default() };
        let physics_body = PhysicsBody { handle: physics_handle };
        let _ = store_insert_player_tank(
            &mut self.world,
            entity,
            transform,
            tank,
            player,
            physics_body,
        );
        self.physics_map.insert(entity, physics_handle);
        proof {
            Self::lemma_after_insert(
                pre,
                *self,
                entity_id,
                Components::player_tank(player_id, name, transform, physics_handle),
            );
        }
        entity_id
    }

    /// Adds a tank for a player before its body is made: a fresh entity with
    /// the given transform, a default tank of the red team and the player's
    /// record with no key held, and without a body.
    pub fn create_unattached_player_tank(
        &mut self,
        player_id: PlayerId,
        name: String,
        transform: Transform,
    ) -> (id: EntityId)
        requires
            old(self).wf(),
            old(self).next_id() < u32::MAX,
        ensures
            final(self).wf(),
            id == old(self).next_id(),
            final(self).next_id() == id + 1,
            !old(self)@.contains_key(id),
            final(self)@ == old(self)@.insert(
                id,
                Components::unattached_player_tank(player_id, name, transform),
            ),
    {
        let (entity_id, entity) = self.create_entity();
        let ghost pre = *self;
        let tank = Tank::with_team(Team::Red);
        let player = Player { player_id, name, input: PlayerInput::default() };
        let _ = store_insert_driver(&mut self.world, entity, transform, tank, player);
        proof {
            Self::lemma_after_insert(
                pre,
                *self,
                entity_id,
                Components::unattached_player_tank(player_id, name, transform),
            );
        }
        entity_id
    }

    /// Gives an entity that has no body the body behind `handle`, and tells
    /// whether it did. Nothing changes where the number is not in use or the
    /// entity has a body already.
    pub fn attach_body(&mut self, entity_id: EntityId, handle: PhysicsHandle) -> (attached: bool)
        requires
            old(self).wf(),
        ensures
            final(self).wf(),
            final(self).next_id() == old(self).next_id(),
            attached == (old(self)@.contains_key(entity_id) && old(self)@[entity_id].body is None),
            final(self)@ == if attached {
                old(self)@.insert(entity_id, old(self)@[entity_id].with_body(handle))
            } else {
                old(self)@
            },
    {
        let found = match self.entity_map.get(&entity_id) {
            Some(entity) => Some(*entity),
            None => None,
        };
        match found {
            Some(entity) => {
                let free = match store_get(&self.world, entity) {
                    Some(components) => components.body.is_none(),
                    None => false,
                };
                if !free {
                    return false;
                }
                let ghost pre = *self;
                let _ = store_insert_body(&mut self.world, entity, PhysicsBody { handle });
                self.physics_map.insert(entity, handle);
                proof {
                    let c = pre@[entity_id].with_body(handle);
                    let m0 = store_model(pre.world);
                    let m = store_model(self.world);
                    assert(m.dom() =~= m0.dom());
                    assert(self@ =~= pre@.insert(entity_id, c)) by {
                        assert forall|other: EntityId| self@.contains_key(other) implies self@[other]
                            == pre@.insert(entity_id, c)[other] by {
                            if other != entity_id {
                                assert(pre.entity_map@.contains_key(other));
                                assert(pre.handle_map@[pre.entity_map@[other]] == other);
                            }
                        }
                    }
                }
                true
            },
            None => false,
        }
    }

    /// Adds a tank that no player drives: a fresh entity with the given
    /// transform, a default tank, an NPC record on patrol, and the given body.
    pub fn create_npc_tank(&mut self, transform: Transform, physics_handle: PhysicsHandle) -> (id:
        EntityId)
        requires
            old(self).wf(),
            old(self).next_id() < u32::MAX,
        ensures
            final(self).wf(),
            id == old(self).next_id(),
            final(self).next_id() == id + 1,
            !old(self)@.contains_key(id),
            final(self)@ == old(self)@.insert(id, Components::npc_tank(transform, physics_handle)),
    {
        let (entity_id, entity) = self.create_entity();
        let ghost pre = *self;
        let tank = Tank::with_team(Team::Neutral);
        let npc = Npc { ai_state: NpcAiState::Patrol, target: None };
        let physics_body = PhysicsBody { handle: physics_handle };
        let _ = store_insert_npc_tank(&mut self.world, entity, transform, tank, npc, physics_body);
        self.physics_map.insert(entity, physics_handle);
        proof {
            Self::lemma_after_insert(
                pre,
                *self,
                entity_id,
                Components::npc_tank(transform, physics_handle),
            );
        }
        entity_id
    }

    /// Adds a projectile: a fresh entity with the given transform, projectile
    /// data and body.
    pub fn create_projectile(
        &mut self,
        transform: Transform,
        projectile: Projectile,
        physics_handle: PhysicsHandle,
    ) -> (id: EntityId)
        requires
            old(self).wf(),
            old(self).next_id() < u32::MAX,
        ensures
            final(self).wf(),
            id == old(self).next_id(),
            final(self).next_id() == id + 1,
            !old(self)@.contains_key(id),
            final(self)@ == old(self)@.insert(
                id,
                Components::projectile(transform, projectile, physics_handle),
            ),
    {
        let (entity_id, entity) = self.create_entity();
        let ghost pre = *self;
        let physics_body = PhysicsBody { handle: physics_handle };
        let _ = store_insert_projectile(
            &mut self.world,
            entity,
            transform,
            projectile,
            physics_body,
        );
        self.physics_map.insert(entity, physics_handle);
        proof {
            Self::lemma_after_insert(
                pre,
                *self,
                entity_id,
                Components::projectile(transform, projectile, physics_handle),
            );
        }
        entity_id
    }

    /// Adds an obstacle: a fresh entity with the given transform, obstacle
    /// data and body.
    pub fn create_obstacle(
        &mut self,
        transform: Transform,
        obstacle: Obstacle,
        physics_handle: PhysicsHandle,
    ) -> (id: EntityId)
        requires
            old(self).wf(),
            old(self).next_id() < u32::MAX,
        ensures
            final(self).wf(),
            id == old(self).next_id(),
            final(self).next_id() == id + 1,
            !old(self)@.contains_key(id),
            final(self)@ == old(self)@.insert(
                id,
                Components::obstacle(transform, obstacle, physics_handle),
            ),
    {
        let (entity_id, entity) = self.create_entity();
        let ghost pre = *self;
        let physics_body = PhysicsBody { handle: physics_handle };
        let _ = store_insert_obstacle(&mut self.world, entity, transform, obstacle, physics_body);
        self.physics_map.insert(entity, physics_handle);
        proof {
            Self::lemma_after_insert(
                pre,
                *self,
                entity_id,
                Components::obstacle(transform, obstacle, physics_handle),
            );
        }
        entity_id
    }

    /// Removes an entity with all its components and hands back the handle
    /// of its body, for the caller to release. For a number that is not in
    /// use nothing changes and nothing is handed back.
    pub fn remove_entity(&mut self, entity_id: EntityId) -> (handle: Option<PhysicsHandle>)
        requires
            old(self).wf(),
        ensures
            final(self).wf(),
            final(self).next_id() == old(self).next_id(),
            final(self)@ == old(self)@.remove(entity_id),
            handle == if old(self)@.contains_key(entity_id) {
                old(self)@[entity_id].handle()
            } else {
                None::<PhysicsHandle>
            },
    {
        match self.entity_map.remove(&entity_id) {
            Some(entity) => {
                self.handle_map.remove(&entity);
                let physics_handle = self.physics_map.remove(&entity);
                let _ = store_despawn(&mut self.world, entity);
                proof {
                    let m0 = store_model(old(self).world);
                    let m = store_model(self.world);
                    let em = self.entity_map@;
                    let hm = self.handle_map@;
                    assert(old(self).entity_map@.contains_key(entity_id));
                    assert(m.dom() =~= m0.dom().remove(entity));
                    assert(em.dom() =~= old(self).entity_map@.dom().remove(entity_id));
                    assert forall|id: EntityId| #[trigger] em.contains_key(id) implies hm.contains_key(
                        em[id],
                    ) && hm[em[id]] == id && m.contains_key(em[id]) && 1 <= id
                        < self.next_entity_id by {
                        assert(old(self).entity_map@.contains_key(id));
                        assert(old(self).handle_map@[old(self).entity_map@[id]] == id);
                    }
                    assert forall|e: u64| #[trigger] hm.contains_key(e) implies em.contains_key(
                        hm[e],
                    ) && em[hm[e]] == e by {
                        assert(old(self).handle_map@.contains_key(e));
                    }
                    assert(final(self)@ =~= old(self)@.remove(entity_id)) by {
                        assert forall|id: EntityId| final(self)@.contains_key(id)
                            implies final(self)@[id] == old(self)@[id] by {
                            assert(old(self).entity_map@.contains_key(id));
                            assert(old(self).handle_map@[old(self).entity_map@[id]] == id);
                        }
                    }
                    if old(self).physics_map@.contains_key(entity) {
                        assert(m0[entity].body == Some(
                            PhysicsBody { handle: old(self).physics_map@[entity] },
                        ));
                    } else {
                        assert(m0.contains_key(entity));
                    }
                }
                physics_handle
            },
            None => {
                assert(final(self)@ =~= old(self)@.remove(entity_id));
                None
            },
        }
    }

    /// The number of the entity behind a store handle.
    fn get_entity_id(&self, entity: u64) -> (id: Option<EntityId>)
        requires
            self.wf(),
        ensures
            match id {
                Some(id) => self.entity_map@.contains_key(id) && self.entity_map@[id] == entity,
                None => !store_model(self.world).contains_key(entity),
            },
    {
        match self.handle_map.get(&entity) {
            Some(id) => Some(*id),
            None => None,
        }
    }

    /// Every live entity with a copy of what it holds, each once.
    pub fn entities(&self) -> (all: Vec<(EntityId, Components)>)
        requires
            self.wf(),
        ensures
            forall|k: int|
                0 <= k < all.len() ==> self@.contains_key((#[trigger] all[k]).0) && self@[all[k].0]
                    == all[k].1,
            forall|id: EntityId|
                self@.contains_key(id) ==> exists|k: int|
                    0 <= k < all.len() && (#[trigger] all[k]).0 == id,
            forall|k: int, l: int|
                0 <= k < l < all.len() ==> (#[trigger] all[k]).0 != (#[trigger] all[l]).0,
    {
        let handles = store_entities(&self.world);
        let mut all: Vec<(EntityId, Components)> = Vec::new();
        let mut i: usize = 0;
        while i < handles.len()
            invariant
                i <= handles.len(),
                self.wf(),
                handles@.no_duplicates(),
                forall|e: u64| handles@.contains(e) <==> store_model(self.world).contains_key(e),
                all.len() == i,
                forall|k: int|
                    0 <= k < i ==> self.entity_map@.contains_key((#[trigger] all[k]).0)
                        && self.entity_map@[all[k].0] == handles[k] && store_model(
                        self.world,
                    )[handles[k]] == all[k].1,
            decreases handles.len() - i,
        {
            let entity = handles[i];
            assert(handles@.contains(entity));
            let id = self.get_entity_id(entity);
            let components = store_get(&self.world, entity);
            match (id, components) {
                (Some(id), Some(components)) => {
                    all.push((id, components));
                },
                _ => {
                    assert(false);
                },
            }
            i += 1;
        }
        proof {
            assert forall|id: EntityId| self@.contains_key(id) implies exists|k: int|
                0 <= k < all.len() && (#[trigger] all[k]).0 == id by {
                let e = self.entity_map@[id];
                assert(handles@.contains(e));
                let k = choose|k: int| 0 <= k < handles.len() && handles[k] == e;
                assert(self.handle_map@[self.entity_map@[all[k].0]] == all[k].0);
                assert(all[k].0 == id);
            }
        }
        all
    }

    /// The entities that players drive: each entity with a transform, a tank
    /// and a player record, once, with copies of the three.
    pub fn get_players(&self) -> (players: Vec<(EntityId, Transform, Tank, Player)>)
        requires
            self.wf(),
        ensures
            forall|k: int|
                0 <= k < players.len() ==> {
                    let p = #[trigger] players[k];
                    &&& self@.contains_key(p.0)
                    &&& self@[p.0].transform == Some(p.1)
                    &&& self@[p.0].tank == Some(p.2)
                    &&& self@[p.0].player == Some(p.3)
                },
            forall|id: EntityId|
                self@.contains_key(id) && self@[id].is_player_tank() ==> exists|k: int|
                    0 <= k < players.len() && (#[trigger] players[k]).0 == id,
            forall|k: int, l: int|
                0 <= k < l < players.len() ==> (#[trigger] players[k]).0 != (
                #[trigger] players[l]).0,
    {
        let all = self.entities();
        let mut players: Vec<(EntityId, Transform, Tank, Player)> = Vec::new();
        let mut i: usize = 0;
        while i < all.len()
            invariant
                i <= all.len(),
                forall|k: int|
                    0 <= k < all.len() ==> self@.contains_key((#[trigger] all[k]).0)
                        && self@[all[k].0] == all[k].1,
                forall|k: int, l: int|
                    0 <= k < l < all.len() ==> (#[trigger] all[k]).0 != (#[trigger] all[l]).0,
                forall|k: int|
                    0 <= k < players.len() ==> {
                        let p = #[trigger] players[k];
                        &&& self@.contains_key(p.0)
                        &&& self@[p.0].transform == Some(p.1)
                        &&& self@[p.0].tank == Some(p.2)
                        &&& self@[p.0].player == Some(p.3)
                        &&& exists|j: int| 0 <= j < i && (#[trigger] all[j]).0 == p.0
                    },
                forall|j: int|
                    0 <= j < i && (#[trigger] all[j]).1.is_player_tank() ==> exists|k: int|
                        0 <= k < players.len() && (#[trigger] players[k]).0 == all[j].0,
                forall|k: int, l: int|
                    0 <= k < l < players.len() ==> (#[trigger] players[k]).0 != (
                    #[trigger] players[l]).0,
            decreases all.len() - i,
        {
            let ghost before = players@;
            let id = all[i].0;
            let c = &all[i].1;
            match (&c.transform, &c.tank, &c.player) {
                (Some(transform), Some(tank), Some(player)) => {
                    let copy = Player {
                        player_id: player.player_id,
                        name: player.name.clone(),
                        input: player.input,
                    };
                    assert(copy == *player);
                    players.push((id, *transform, *tank, copy));
                    assert(players[players.len() - 1].0 == all[i as int].0);
                },
                _ => {},
            }
            proof {
                assert forall|j: int|
                    0 <= j < i + 1 && (#[trigger] all[j]).1.is_player_tank() implies exists|k: int|
                    0 <= k < players.len() && (#[trigger] players[k]).0 == all[j].0 by {
                    if j < i {
                        let k = choose|k: int|
                            0 <= k < before.len() && (#[trigger] before[k]).0 == all[j].0;
                        assert(players[k].0 == all[j].0);
                    } else {
                        assert(players[players.len() - 1].0 == all[j].0);
                    }
                }
            }
            i += 1;
        }
        proof {
            assert forall|id: EntityId|
                self@.contains_key(id) && self@[id].is_player_tank() implies exists|k: int|
                0 <= k < players.len() && (#[trigger] players[k]).0 == id by {
                let j = choose|j: int| 0 <= j < all.len() && (#[trigger] all[j]).0 == id;
                assert(all[j].1.is_player_tank());
            }
        }
        players
    }

    /// The tanks: each entity with a transform and a tank, once, with copies
    /// of the two.
    pub fn get_tanks(&self) -> (tanks: Vec<(EntityId, Transform, Tank)>)
        requires
            self.wf(),
        ensures
            forall|k: int|
                0 <= k < tanks.len() ==> {
                    let t = #[trigger] tanks[k];
                    &&& self@.contains_key(t.0)
                    &&& self@[t.0].transform == Some(t.1)
                    &&& self@[t.0].tank == Some(t.2)
                    &&& t.2.wf()
                },
            forall|id: EntityId|
                self@.contains_key(id) && self@[id].is_tank() ==> exists|k: int|
                    0 <= k < tanks.len() && (#[trigger] tanks[k]).0 == id,
            forall|k: int, l: int|
                0 <= k < l < tanks.len() ==> (#[trigger] tanks[k]).0 != (#[trigger] tanks[l]).0,
    {
        let all = self.entities();
        let mut tanks: Vec<(EntityId, Transform, Tank)> = Vec::new();
        let mut i: usize = 0;
        while i < all.len()
            invariant
                i <= all.len(),
                self.wf(),
                forall|k: int|
                    0 <= k < all.len() ==> self@.contains_key((#[trigger] all[k]).0)
                        && self@[all[k].0] == all[k].1,
                forall|k: int, l: int|
                    0 <= k < l < all.len() ==> (#[trigger] all[k]).0 != (#[trigger] all[l]).0,
                forall|k: int|
                    0 <= k < tanks.len() ==> {
                        let t = #[trigger] tanks[k];
                        &&& self@.contains_key(t.0)
                        &&& self@[t.0].transform == Some(t.1)
                        &&& self@[t.0].tank == Some(t.2)
                        &&& t.2.wf()
                        &&& exists|j: int| 0 <= j < i && (#[trigger] all[j]).0 == t.0
                    },
                forall|j: int|
                    0 <= j < i && (#[trigger] all[j]).1.is_tank() ==> exists|k: int|
                        0 <= k < tanks.len() && (#[trigger] tanks[k]).0 == all[j].0,
                forall|k: int, l: int|
                    0 <= k < l < tanks.len() ==> (#[trigger] tanks[k]).0 != (#[trigger] tanks[l]).0,
            decreases all.len() - i,
        {
            let ghost before = tanks@;
            let id = all[i].0;
            let c = &all[i].1;
            match (&c.transform, &c.tank) {
                (Some(transform), Some(tank)) => {
                    proof {
                        self.lemma_health_invariant(id);
                    }
                    tanks.push((id, *transform, *tank));
                    assert(tanks[tanks.len() - 1].0 == all[i as int].0);
                },
                _ => {},
            }
            proof {
                assert forall|j: int|
                    0 <= j < i + 1 && (#[trigger] all[j]).1.is_tank() implies exists|k: int|
                    0 <= k < tanks.len() && (#[trigger] tanks[k]).0 == all[j].0 by {
                    if j < i {
                        let k = choose|k: int|
                            0 <= k < before.len() && (#[trigger] before[k]).0 == all[j].0;
                        assert(tanks[k].0 == all[j].0);
                    } else {
                        assert(tanks[tanks.len() - 1].0 == all[j].0);
                    }
                }
            }
            i += 1;
        }
        proof {
            assert forall|id: EntityId|
                self@.contains_key(id) && self@[id].is_tank() implies exists|k: int|
                0 <= k < tanks.len() && (#[trigger] tanks[k]).0 == id by {
                let j = choose|j: int| 0 <= j < all.len() && (#[trigger] all[j]).0 == id;
                assert(all[j].1.is_tank());
            }
        }
        tanks
    }

    /// The projectiles: each entity with a transform and a projectile, once,
    /// with copies of the two.
    pub fn get_projectiles(&self) -> (projectiles: Vec<(EntityId, Transform, Projectile)>)
        requires
            self.wf(),
        ensures
            forall|k: int|
                0 <= k < projectiles.len() ==> {
                    let p = #[trigger] projectiles[k];
                    &&& self@.contains_key(p.0)
                    &&& self@[p.0].transform == Some(p.1)
                    &&& self@[p.0].projectile == Some(p.2)
                },
            forall|id: EntityId|
                self@.contains_key(id) && self@[id].is_projectile() ==> exists|k: int|
                    0 <= k < projectiles.len() && (#[trigger] projectiles[k]).0 == id,
            forall|k: int, l: int|
                0 <= k < l < projectiles.len() ==> (#[trigger] projectiles[k]).0 != (
                #[trigger] projectiles[l]).0,
    {
        let all = self.entities();
        let mut projectiles: Vec<(EntityId, Transform, Projectile)> = Vec::new();
        let mut i: usize = 0;
        while i < all.len()
            invariant
                i <= all.len(),
                forall|k: int|
                    0 <= k < all.len() ==> self@.contains_key((#[trigger] all[k]).0)
                        && self@[all[k].0] == all[k].1,
                forall|k: int, l: int|
                    0 <= k < l < all.len() ==> (#[trigger] all[k]).0 != (#[trigger] all[l]).0,
                forall|k: int|
                    0 <= k < projectiles.len() ==> {
                        let p = #[trigger] projectiles[k];
                        &&& self@.contains_key(p.0)
                        &&& self@[p.0].transform == Some(p.1)
                        &&& self@[p.0].projectile == Some(p.2)
                        &&& exists|j: int| 0 <= j < i && (#[trigger] all[j]).0 == p.0
                    },
                forall|j: int|
                    0 <= j < i && (#[trigger] all[j]).1.is_projectile() ==> exists|k: int|
                        0 <= k < projectiles.len() && (#[trigger] projectiles[k]).0 == all[j].0,
                forall|k: int, l: int|
                    0 <= k < l < projectiles.len() ==> (#[trigger] projectiles[k]).0 != (
                    #[trigger] projectiles[l]).0,
            decreases all.len() - i,
        {
            let ghost before = projectiles@;
            let id = all[i].0;
            let c = &all[i].1;
            match (&c.transform, &c.projectile) {
                (Some(transform), Some(projectile)) => {
                    projectiles.push((id, *transform, *projectile));
                    assert(projectiles[projectiles.len() - 1].0 == all[i as int].0);
                },
                _ => {},
            }
            proof {
                assert forall|j: int|
                    0 <= j < i + 1 && (#[trigger] all[j]).1.is_projectile() implies exists|k: int|
                    0 <= k < projectiles.len() && (#[trigger] projectiles[k]).0 == all[j].0 by {
                    if j < i {
                        let k = choose|k: int|
                            0 <= k < before.len() && (#[trigger] before[k]).0 == all[j].0;
                        assert(projectiles[k].0 == all[j].0);
                    } else {
                        assert(projectiles[projectiles.len() - 1].0 == all[j].0);
                    }
                }
            }
            i += 1;
        }
        proof {
            assert forall|id: EntityId|
                self@.contains_key(id) && self@[id].is_projectile() implies exists|k: int|
                0 <= k < projectiles.len() && (#[trigger] projectiles[k]).0 == id by {
                let j = choose|j: int| 0 <= j < all.len() && (#[trigger] all[j]).0 == id;
                assert(all[j].1.is_projectile());
            }
        }
        projectiles
    }

    /// The entities with a body, each once, with the handle of the body.
    pub fn get_physics_entities(&self) -> (bodies: Vec<(EntityId, PhysicsHandle)>)
        requires
            self.wf(),
        ensures
            forall|k: int|
                0 <= k < bodies.len() ==> {
                    let b = #[trigger] bodies[k];
                    &&& self@.contains_key(b.0)
                    &&& self@[b.0].handle() == Some(b.1)
                },
            forall|id: EntityId|
                self@.contains_key(id) && self@[id].body is Some ==> exists|k: int|
                    0 <= k < bodies.len() && (#[trigger] bodies[k]).0 == id,
            forall|k: int, l: int|
                0 <= k < l < bodies.len() ==> (#[trigger] bodies[k]).0 != (#[trigger] bodies[l]).0,
    {
        let all = self.entities();
        let mut bodies: Vec<(EntityId, PhysicsHandle)> = Vec::new();
        let mut i: usize = 0;
        while i < all.len()
            invariant
                i <= all.len(),
                forall|k: int|
                    0 <= k < all.len() ==> self@.contains_key((#[trigger] all[k]).0)
                        && self@[all[k].0] == all[k].1,
                forall|k: int, l: int|
                    0 <= k < l < all.len() ==> (#[trigger] all[k]).0 != (#[trigger] all[l]).0,
                forall|k: int|
                    0 <= k < bodies.len() ==> {
                        let b = #[trigger] bodies[k];
                        &&& self@.contains_key(b.0)
                        &&& self@[b.0].handle() == Some(b.1)
                        &&& exists|j: int| 0 <= j < i && (#[trigger] all[j]).0 == b.0
                    },
                forall|j: int|
                    0 <= j < i && (#[trigger] all[j]).1.body is Some ==> exists|k: int|
                        0 <= k < bodies.len() && (#[trigger] bodies[k]).0 == all[j].0,
                forall|k: int, l: int|
                    0 <= k < l < bodies.len() ==> (#[trigger] bodies[k]).0 != (
                    #[trigger] bodies[l]).0,
            decreases all.len() - i,
        {
            let ghost before = bodies@;
            let id = all[i].0;
            match &all[i].1.body {
                Some(body) => {
                    bodies.push((id, body.handle));
                    assert(bodies[bodies.len() - 1].0 == all[i as int].0);
                },
                None => {},
            }
            proof {
                assert forall|j: int|
                    0 <= j < i + 1 && (#[trigger] all[j]).1.body is Some implies exists|k: int|
                    0 <= k < bodies.len() && (#[trigger] bodies[k]).0 == all[j].0 by {
                    if j < i {
                        let k = choose|k: int|
                            0 <= k < before.len() && (#[trigger] before[k]).0 == all[j].0;
                        assert(bodies[k].0 == all[j].0);
                    } else {
                        assert(bodies[bodies.len() - 1].0 == all[j].0);
                    }
                }
            }
            i += 1;
        }
        proof {
            assert forall|id: EntityId|
                self@.contains_key(id) && self@[id].body is Some implies exists|k: int|
                0 <= k < bodies.len() && (#[trigger] bodies[k]).0 == id by {
                let j = choose|j: int| 0 <= j < all.len() && (#[trigger] all[j]).0 == id;
                assert(all[j].1.body is Some);
            }
        }
        bodies
    }

    /// Effect of replacing one component of a live entity on the view.
    proof fn lemma_after_update(pre: EcsWorld, post: EcsWorld, id: EntityId, c: Components)
        requires
            pre.wf(),
            pre@.contains_key(id),
            c.body == pre@[id].body,
            c.tank == pre@[id].tank,
            c.projectile is Some <==> pre@[id].projectile is Some,
            post.next_entity_id == pre.next_entity_id,
            post.entity_map@ == pre.entity_map@,
            post.handle_map@ == pre.handle_map@,
            post.physics_map@ == pre.physics_map@,
            store_model(post.world) == store_model(pre.world).insert(pre.entity_map@[id], c),
        ensures
            post.wf(),
            post@ == pre@.insert(id, c),
    {
        let m0 = store_model(pre.world);
        let m = store_model(post.world);
        assert(m.dom() =~= m0.dom());
        assert(post@ =~= pre@.insert(id, c)) by {
            assert forall|other: EntityId| post@.contains_key(other) implies post@[other]
                == pre@.insert(id, c)[other] by {
                if other != id {
                    assert(pre.entity_map@.contains_key(other));
                    assert(pre.handle_map@[pre.entity_map@[other]] == other);
                }
            }
        }
    }

    /// Replaces the transform of an entity. Nothing changes where the number
    /// is not in use or the entity has no transform.
    pub fn update_transform(&mut self, entity_id: EntityId, transform: Transform)
        requires
            old(self).wf(),
        ensures
            final(self).wf(),
            final(self).next_id() == old(self).next_id(),
            final(self)@ == if old(self)@.contains_key(entity_id)
                && old(self)@[entity_id].transform is Some {
                old(self)@.insert(
                    entity_id,
                    Components { transform: Some(transform), ..old(self)@[entity_id] },
                )
            } else {
                old(self)@
            },
    {
        let found = match self.entity_map.get(&entity_id) {
            Some(entity) => Some(*entity),
            None => None,
        };
        match found {
            Some(entity) => {
                let ghost pre = *self;
                let ok = store_set_transform(&mut self.world, entity, transform);
                proof {
                    if ok {
                        Self::lemma_after_update(
                            pre,
                            *self,
                            entity_id,
                            Components { transform: Some(transform), ..pre@[entity_id] },
                        );
                    } else {
                        assert(final(self)@ =~= old(self)@);
                    }
                }
            },
            None => {},
        }
    }

    /// The transform of an entity; none where the number is not in use or
    /// the entity has no transform.
    pub fn transform_of(&self, entity_id: EntityId) -> (transform: Option<Transform>)
        requires
            self.wf(),
        ensures
            transform == if self@.contains_key(entity_id) {
                self@[entity_id].transform
            } else {
                None::<Transform>
            },
    {
        let found = match self.entity_map.get(&entity_id) {
            Some(entity) => Some(*entity),
            None => None,
        };
        match found {
            Some(entity) => match store_get(&self.world, entity) {
                Some(components) => components.transform,
                None => None,
            },
            None => None,
        }
    }

    /// Takes `damage` off the health of a tank, stopping at zero, and tells
    /// whether the tank is now destroyed. Nothing changes and nothing is told
    /// where the number is not in use or the entity has no tank.
    pub fn damage_tank(&mut self, entity_id: EntityId, damage: u32) -> (destroyed: Option<bool>)
        requires
            old(self).wf(),
        ensures
            final(self).wf(),
            final(self).next_id() == old(self).next_id(),
            tank_damaged(old(self)@, final(self)@, entity_id, damage, destroyed),
    {
        let found = match self.entity_map.get(&entity_id) {
            Some(entity) => Some(*entity),
            None => None,
        };
        match found {
            Some(entity) => {
                match store_get(&self.world, entity) {
                    Some(components) => match components.tank {
                        Some(tank) => {
                            let ghost pre = *self;
                            let health = tank.health.saturating_sub(damage);
                            let _ = store_set_tank_health(&mut self.world, entity, health);
                            proof {
                                let c = Components {
                                    tank: Some(Tank { health, ..pre@[entity_id].tank->0 }),
                                    ..pre@[entity_id]
                                };
                                Self::lemma_after_tank_update(pre, *self, entity_id, c);
                            }
                            Some(health == 0)
                        },
                        None => None,
                    },
                    None => None,
                }
            },
            None => None,
        }
    }

    /// Effect of replacing the tank of a live entity by one that keeps the
    /// health invariant.
    proof fn lemma_after_tank_update(pre: EcsWorld, post: EcsWorld, id: EntityId, c: Components)
        requires
            pre.wf(),
            pre@.contains_key(id),
            c.body == pre@[id].body,
            c.tank is Some,
            c.tank->0.wf(),
            c.projectile is None,
            post.next_entity_id == pre.next_entity_id,
            post.entity_map@ == pre.entity_map@,
            post.handle_map@ == pre.handle_map@,
            post.physics_map@ == pre.physics_map@,
            store_model(post.world) == store_model(pre.world).insert(pre.entity_map@[id], c),
        ensures
            post.wf(),
            post@ == pre@.insert(id, c),
    {
        let m0 = store_model(pre.world);
        let m = store_model(post.world);
        assert(m.dom() =~= m0.dom());
        assert(post@ =~= pre@.insert(id, c)) by {
            assert forall|other: EntityId| post@.contains_key(other) implies post@[other]
                == pre@.insert(id, c)[other] by {
                if other != id {
                    assert(pre.entity_map@.contains_key(other));
                    assert(pre.handle_map@[pre.entity_map@[other]] == other);
                }
            }
        }
    }

    /// Replaces the input of one entity that holds the record of
    /// `player_id`. Nothing changes where no entity holds it.
    pub fn update_player_input(&mut self, player_id: PlayerId, input: PlayerInput)
        requires
            old(self).wf(),
        ensures
            final(self).wf(),
            final(self).next_id() == old(self).next_id(),
            input_replaced(old(self)@, final(self)@, player_id, input),
    {
        let all = self.entities();
        let mut i: usize = 0;
        while i < all.len()
            invariant
                i <= all.len(),
                self.wf(),
                *self == *old(self),
                forall|k: int|
                    0 <= k < all.len() ==> self@.contains_key((#[trigger] all[k]).0)
                        && self@[all[k].0] == all[k].1,
                forall|id: EntityId|
                    self@.contains_key(id) ==> exists|k: int|
                        0 <= k < all.len() && (#[trigger] all[k]).0 == id,
                forall|k: int|
                    0 <= k < i && (#[trigger] all[k]).1.player is Some
                        ==> all[k].1.player->0.player_id != player_id,
            decreases all.len() - i,
        {
            let id = all[i].0;
            let hit = match &all[i].1.player {
                Some(player) => player.player_id == player_id,
                None => false,
            };
            if hit {
                let found = match self.entity_map.get(&id) {
                    Some(entity) => Some(*entity),
                    None => None,
                };
                match found {
                    Some(entity) => {
                        let ghost pre = *self;
                        let _ = store_set_player_input(&mut self.world, entity, input);
                        proof {
                            Self::lemma_after_update(
                                pre,
                                *self,
                                id,
                                Components {
                                    player: Some(Player { input, ..pre@[id].player->0 }),
                                    ..pre@[id]
                                },
                            );
                            assert(holds_player(old(self)@, id, player_id));
                        }
                    },
                    None => {
                        assert(false);
                    },
                }
                return ;
            }
            i += 1;
        }
        proof {
            assert forall|id: EntityId| !holds_player(old(self)@, id, player_id) by {
                if holds_player(old(self)@, id, player_id) {
                    let k = choose|k: int| 0 <= k < all.len() && (#[trigger] all[k]).0 == id;
                    assert(all[k].1.player is Some);
                }
            }
        }
    }

    /// The number of live entities.
    pub fn entity_count(&self) -> (n: usize)
        requires
            self.wf(),
        ensures
            n == self@.dom().len(),
    {
        assert(self@.dom() =~= self.entity_map@.dom());
        store_len(&self.world) as usize
    }

    /// The number of live entities that hold a component of `kind`.
    pub fn count_entities_with(&self, kind: ComponentKind) -> (n: usize)
        requires
            self.wf(),
        ensures
            n == self@.dom().filter(|id: EntityId| kind.held_by(self@[id])).len(),
    {
        let all = self.entities();
        let mut ids: Vec<EntityId> = Vec::new();
        let mut i: usize = 0;
        while i < all.len()
            invariant
                i <= all.len(),
                forall|k: int|
                    0 <= k < all.len() ==> self@.contains_key((#[trigger] all[k]).0)
                        && self@[all[k].0] == all[k].1,
                forall|k: int, l: int|
                    0 <= k < l < all.len() ==> (#[trigger] all[k]).0 != (#[trigger] all[l]).0,
                forall|k: int|
                    0 <= k < ids.len() ==> self@.contains_key(#[trigger] ids[k]) && kind.held_by(
                        self@[ids[k]],
                    ) && exists|j: int| 0 <= j < i && (#[trigger] all[j]).0 == ids[k],
                forall|j: int|
                    0 <= j < i && kind.held_by((#[trigger] all[j]).1) ==> ids@.contains(all[j].0),
                ids@.no_duplicates(),
            decreases all.len() - i,
        {
            let ghost before = ids@;
            if kind.is_held_by(&all[i].1) {
                ids.push(all[i].0);
                proof {
                    assert(ids[ids.len() - 1] == all[i as int].0);
                    assert forall|k: int, l: int| 0 <= k < l < ids.len() implies ids[k]
                        != ids[l] by {
                        if l == ids.len() - 1 {
                            let j = choose|j: int| 0 <= j < i && (#[trigger] all[j]).0 == ids[k];
                        }
                    }
                }
            }
            proof {
                assert forall|j: int|
                    0 <= j < i + 1 && kind.held_by((#[trigger] all[j]).1) implies ids@.contains(
                    all[j].0,
                ) by {
                    if j < i {
                        assert(before.contains(all[j].0));
                        let k = choose|k: int| 0 <= k < before.len() && before[k] == all[j].0;
                        assert(ids[k] == all[j].0);
                    } else {
                        assert(ids[ids.len() - 1] == all[j].0);
                    }
                }
            }
            i += 1;
        }
        proof {
            let wanted = self@.dom().filter(|id: EntityId| kind.held_by(self@[id]));
            ids@.unique_seq_to_set();
            assert(ids@.to_set() =~= wanted) by {
                assert forall|id: EntityId| wanted.contains(id) implies ids@.to_set().contains(
                    id,
                ) by {
                    let j = choose|j: int| 0 <= j < all.len() && (#[trigger] all[j]).0 == id;
                    assert(kind.held_by(all[j].1));
                    assert(ids@.contains(all[j].0));
                }
                assert forall|id: EntityId| ids@.to_set().contains(id) implies wanted.contains(
                    id,
                ) by {
                    let k = choose|k: int| 0 <= k < ids.len() && ids[k] == id;
                    assert(self@.contains_key(ids[k]));
                }
            }
        }
        ids.len()
    }

    /// Moves every entity that a player drives by what its input asks for
    /// over `delta_time`.
    pub fn movement_system(&mut self, delta_time: u64)
        requires
            old(self).wf(),
        ensures
            final(self).wf(),
            final(self).next_id() == old(self).next_id(),
            final(self)@.dom() == old(self)@.dom(),
            forall|id: EntityId|
                old(self)@.contains_key(id) ==> #[trigger] final(self)@[id] == old(self)@[id].moved(
                    delta_time,
                ),
    {
        let all = self.entities();
        let mut i: usize = 0;
        while i < all.len()
            invariant
                i <= all.len(),
                self.wf(),
                self.next_id() == old(self).next_id(),
                self@.dom() == old(self)@.dom(),
                forall|k: int|
                    0 <= k < all.len() ==> old(self)@.contains_key((#[trigger] all[k]).0)
                        && old(self)@[all[k].0] == all[k].1,
                forall|id: EntityId|
                    old(self)@.contains_key(id) ==> exists|k: int|
                        0 <= k < all.len() && (#[trigger] all[k]).0 == id,
                forall|k: int, l: int|
                    0 <= k < l < all.len() ==> (#[trigger] all[k]).0 != (#[trigger] all[l]).0,
                forall|k: int|
                    0 <= k < i ==> self@[(#[trigger] all[k]).0] == all[k].1.moved(delta_time),
                forall|k: int| i <= k < all.len() ==> self@[(#[trigger] all[k]).0] == all[k].1,
            decreases all.len() - i,
        {
            let id = all[i].0;
            let c = &all[i].1;
            let ghost before = self@;
            match (&c.transform, &c.tank, &c.player) {
                (Some(transform), Some(tank), Some(player)) => {
                    let target = move_tank(transform, tank, &player.input, delta_time);
                    self.update_transform(id, target);
                    assert(self@.dom() =~= old(self)@.dom());
                },
                _ => {},
            }
            proof {
                assert(self@[id] == all[i as int].1.moved(delta_time));
                assert forall|k: int| 0 <= k < i implies self@[(#[trigger] all[k]).0]
                    == all[k].1.moved(delta_time) by {
                    assert(all[k].0 != all[i as int].0);
                    assert(self@[all[k].0] == before[all[k].0]);
                }
                assert forall|k: int| i + 1 <= k < all.len() implies self@[(#[trigger] all[k]).0]
                    == all[k].1 by {
                    assert(all[i as int].0 != all[k].0);
                    assert(self@[all[k].0] == before[all[k].0]);
                }
            }
            i += 1;
        }
        proof {
            assert forall|id: EntityId| old(self)@.contains_key(id)
                implies #[trigger] final(self)@[id] == old(self)@[id].moved(delta_time) by {
                let k = choose|k: int| 0 <= k < all.len() && (#[trigger] all[k]).0 == id;
                assert(self@[all[k].0] == all[k].1.moved(delta_time));
            }
        }
    }

    /// Replaces the lifetime of the projectile that an entity holds.
    fn set_projectile_lifetime(&mut self, entity_id: EntityId, lifetime: u64)
        requires
            old(self).wf(),
            old(self)@.contains_key(entity_id),
            old(self)@[entity_id].projectile is Some,
        ensures
            final(self).wf(),
            final(self).next_id() == old(self).next_id(),
            final(self)@ == old(self)@.insert(
                entity_id,
                Components {
                    projectile: Some(
                        Projectile { lifetime, ..old(self)@[entity_id].projectile->0 },
                    ),
                    ..old(self)@[entity_id]
                },
            ),
    {
        let found = match self.entity_map.get(&entity_id) {
            Some(entity) => Some(*entity),
            None => None,
        };
        match found {
            Some(entity) => {
                let ghost pre = *self;
                let _ = store_set_projectile_lifetime(&mut self.world, entity, lifetime);
                proof {
                    Self::lemma_after_update(
                        pre,
                        *self,
                        entity_id,
                        Components {
                            projectile: Some(
                                Projectile { lifetime, ..pre@[entity_id].projectile->0 },
                            ),
                            ..pre@[entity_id]
                        },
                    );
                }
            },
            None => {
                assert(false);
            },
        }
    }

    /// Lets every projectile age by `delta_time` and names those that are
    /// spent after it, each once, for the caller to remove.
    pub fn projectile_system(&mut self, delta_time: u64) -> (expired: Vec<EntityId>)
        requires
            old(self).wf(),
        ensures
            final(self).wf(),
            final(self).next_id() == old(self).next_id(),
            final(self)@.dom() == old(self)@.dom(),
            forall|id: EntityId|
                old(self)@.contains_key(id) ==> #[trigger] final(self)@[id] == old(self)@[id].aged(
                    delta_time,
                ),
            forall|id: EntityId|
                expired@.contains(id) <==> final(self)@.contains_key(id) && final(self)@[id].is_spent(),
            expired@.no_duplicates(),
    {
        let all = self.entities();
        let mut expired: Vec<EntityId> = Vec::new();
        let mut i: usize = 0;
        while i < all.len()
            invariant
                i <= all.len(),
                self.wf(),
                self.next_id() == old(self).next_id(),
                self@.dom() == old(self)@.dom(),
                forall|k: int|
                    0 <= k < all.len() ==> old(self)@.contains_key((#[trigger] all[k]).0)
                        && old(self)@[all[k].0] == all[k].1,
                forall|id: EntityId|
                    old(self)@.contains_key(id) ==> exists|k: int|
                        0 <= k < all.len() && (#[trigger] all[k]).0 == id,
                forall|k: int, l: int|
                    0 <= k < l < all.len() ==> (#[trigger] all[k]).0 != (#[trigger] all[l]).0,
                forall|k: int|
                    0 <= k < i ==> self@[(#[trigger] all[k]).0] == all[k].1.aged(delta_time),
                forall|k: int| i <= k < all.len() ==> self@[(#[trigger] all[k]).0] == all[k].1,
                forall|n: int|
                    0 <= n < expired.len() ==> spent_among(
                        all@,
                        i as int,
                        #[trigger] expired[n],
                        delta_time,
                    ),
                forall|k: int|
                    0 <= k < i && (#[trigger] all[k]).1.aged(delta_time).is_spent()
                        ==> expired@.contains(all[k].0),
                expired@.no_duplicates(),
            decreases all.len() - i,
        {
            let id = all[i].0;
            let ghost before = self@;
            let ghost named = expired@;
            match &all[i].1.projectile {
                Some(projectile) => {
                    let lifetime = projectile.lifetime.saturating_add(delta_time);
                    self.set_projectile_lifetime(id, lifetime);
                    assert(self@.dom() =~= old(self)@.dom());
                    if lifetime >= projectile.max_lifetime {
                        proof {
                            assert forall|n: int| 0 <= n < expired.len() implies expired[n]
                                != id by {
                                assert(spent_among(all@, i as int, expired[n], delta_time));
                                let k = choose|k: int|
                                    0 <= k < i && (#[trigger] all[k]).0 == expired[n];
                            }
                        }
                        expired.push(id);
                        assert(expired[expired.len() - 1] == all[i as int].0);
                    }
                },
                None => {},
            }
            proof {
                assert(self@[id] == all[i as int].1.aged(delta_time));
                assert forall|k: int| 0 <= k < i implies self@[(#[trigger] all[k]).0]
                    == all[k].1.aged(delta_time) by {
                    assert(all[k].0 != all[i as int].0);
                    assert(self@[all[k].0] == before[all[k].0]);
                }
                assert forall|k: int| i + 1 <= k < all.len() implies self@[(#[trigger] all[k]).0]
                    == all[k].1 by {
                    assert(all[i as int].0 != all[k].0);
                    assert(self@[all[k].0] == before[all[k].0]);
                }
                assert forall|n: int| 0 <= n < expired.len() implies spent_among(
                    all@,
                    i + 1,
                    #[trigger] expired[n],
                    delta_time,
                ) by {
                    if n < named.len() {
                        assert(spent_among(all@, i as int, named[n], delta_time));
                        let k = choose|k: int|
                            0 <= k < i && (#[trigger] all[k]).0 == named[n] && all[k].1.aged(
                                delta_time,
                            ).is_spent();
                        assert(all[k].0 == expired[n]);
                    } else {
                        assert(all[i as int].0 == expired[n]);
                    }
                }
                assert forall|k: int|
                    0 <= k < i + 1 && (#[trigger] all[k]).1.aged(delta_time).is_spent()
                        implies expired@.contains(all[k].0) by {
                    if k < i {
                        assert(named.contains(all[k].0));
                        let n = choose|n: int| 0 <= n < named.len() && named[n] == all[k].0;
                        assert(expired[n] == all[k].0);
                    } else {
                        assert(expired[expired.len() - 1] == all[k].0);
                    }
                }
            }
            i += 1;
        }
        proof {
            assert forall|id: EntityId| old(self)@.contains_key(id)
                implies #[trigger] final(self)@[id] == old(self)@[id].aged(delta_time) by {
                let k = choose|k: int| 0 <= k < all.len() && (#[trigger] all[k]).0 == id;
                assert(self@[all[k].0] == all[k].1.aged(delta_time));
            }
            assert forall|id: EntityId| expired@.contains(id) <==> final(self)@.contains_key(id)
                && final(self)@[id].is_spent() by {
                if expired@.contains(id) {
                    let n = choose|n: int| 0 <= n < expired.len() && expired[n] == id;
                    assert(spent_among(all@, all.len() as int, expired[n], delta_time));
                    let k = choose|k: int|
                        0 <= k < all.len() && (#[trigger] all[k]).0 == expired[n] && all[k].1.aged(
                            delta_time,
                        ).is_spent();
                    assert(self@[all[k].0] == all[k].1.aged(delta_time));
                }
                if final(self)@.contains_key(id) && final(self)@[id].is_spent() {
                    let k = choose|k: int| 0 <= k < all.len() && (#[trigger] all[k]).0 == id;
                    assert(self@[all[k].0] == all[k].1.aged(delta_time));
                    assert(expired@.contains(all[k].0));
                }
            }
        }
        expired
    }

    /// Replaces the NPC record of an entity that has one.
    fn set_npc(&mut self, entity_id: EntityId, npc: Npc)
        requires
            old(self).wf(),
            old(self)@.contains_key(entity_id),
            old(self)@[entity_id].npc is Some,
        ensures
            final(self).wf(),
            final(self).next_id() == old(self).next_id(),
            final(self)@ == old(self)@.insert(
                entity_id,
                Components { npc: Some(npc), ..old(self)@[entity_id] },
            ),
    {
        let found = match self.entity_map.get(&entity_id) {
            Some(entity) => Some(*entity),
            None => None,
        };
        match found {
            Some(entity) => {
                let ghost pre = *self;
                let _ = store_set_npc(&mut self.world, entity, npc);
                proof {
                    Self::lemma_after_update(
                        pre,
                        *self,
                        entity_id,
                        Components { npc: Some(npc), ..pre@[entity_id] },
                    );
                }
            },
            None => {
                assert(false);
            },
        }
    }

    /// The live players' tanks with their positions, each once.
    fn targets(all: &Vec<(EntityId, Components)>, Ghost(world): Ghost<Map<EntityId, Components>>) -> (candidates:
        Vec<(EntityId, Vector3)>)
        requires
            forall|k: int|
                0 <= k < all.len() ==> world.contains_key((#[trigger] all[k]).0) && world[all[k].0]
                    == all[k].1,
            forall|id: EntityId|
                world.contains_key(id) ==> exists|k: int|
                    0 <= k < all.len() && (#[trigger] all[k]).0 == id,
        ensures
            forall|k: int|
                0 <= k < candidates.len() ==> candidate_of(world, #[trigger] candidates[k]),
            forall|id: EntityId|
                world.contains_key(id) && (#[trigger] world[id]).is_live_player_tank() ==> names(
                    candidates@,
                    id,
                ),
    {
        let mut candidates: Vec<(EntityId, Vector3)> = Vec::new();
        let mut i: usize = 0;
        while i < all.len()
            invariant
                i <= all.len(),
                forall|k: int|
                    0 <= k < all.len() ==> world.contains_key((#[trigger] all[k]).0)
                        && world[all[k].0] == all[k].1,
                forall|k: int|
                    0 <= k < candidates.len() ==> candidate_of(world, #[trigger] candidates[k]),
                forall|j: int|
                    0 <= j < i && (#[trigger] all[j]).1.is_live_player_tank() ==> names(
                        candidates@,
                        all[j].0,
                    ),
            decreases all.len() - i,
        {
            let ghost before = candidates@;
            let c = &all[i].1;
            match (&c.transform, &c.tank, &c.player) {
                (Some(transform), Some(tank), Some(_)) => {
                    if tank.health > 0 {
                        candidates.push((all[i].0, transform.position));
                        assert(candidates[candidates.len() - 1].0 == all[i as int].0);
                    }
                },
                _ => {},
            }
            proof {
                assert forall|j: int|
                    0 <= j < i + 1 && (#[trigger] all[j]).1.is_live_player_tank() implies names(
                    candidates@,
                    all[j].0,
                ) by {
                    if j < i {
                        assert(names(before, all[j].0));
                        let k = choose|k: int|
                            0 <= k < before.len() && (#[trigger] before[k]).0 == all[j].0;
                        assert(candidates[k].0 == all[j].0);
                    } else {
                        assert(candidates[candidates.len() - 1].0 == all[j].0);
                    }
                }
            }
            i += 1;
        }
        proof {
            assert forall|id: EntityId|
                world.contains_key(id) && (#[trigger] world[id]).is_live_player_tank() implies names(
                candidates@,
                id,
            ) by {
                let j = choose|j: int| 0 <= j < all.len() && (#[trigger] all[j]).0 == id;
                assert(all[j].1.is_live_player_tank());
            }
        }
        candidates
    }

    /// From what a tank makes of the listed candidates to what it makes of
    /// the world.
    proof fn lemma_thought(
        world: Map<EntityId, Components>,
        id: EntityId,
        candidates: Seq<(EntityId, Vector3)>,
        config: AiConfig,
        next: Npc,
    )
        requires
            world.contains_key(id),
            world[id].is_npc_tank(),
            forall|k: int|
                0 <= k < candidates.len() ==> candidate_of(world, #[trigger] candidates[k]),
            forall|other: EntityId|
                world.contains_key(other) && (#[trigger] world[other]).is_live_player_tank()
                    ==> names(candidates, other),
            thought(world[id].npc->0, world[id].transform->0.position, candidates, config, next),
        ensures
            npc_after(world, id, config, Some(next)),
    {
        let origin = world[id].transform->0.position;
        if candidates.len() == 0 {
            if has_target(world) {
                let t = choose|t: EntityId|
                    world.contains_key(t) && (#[trigger] world[t]).is_live_player_tank();
                assert(names(candidates, t));
            }
        } else {
            let k = choose|k: int|
                is_nearest(origin, candidates, k) && next == (Npc {
                    ai_state: next_ai_state(
                        world[id].npc->0.ai_state,
                        Some(distance_squared(origin, (#[trigger] candidates[k]).1)),
                        config,
                    ),
                    target: Some(candidates[k].0),
                });
            let target = candidates[k].0;
            assert(candidate_of(world, candidates[k]));
            assert(world[target].is_live_player_tank());
            assert(has_target(world));
            assert forall|other: EntityId|
                world.contains_key(other)
                    && (#[trigger] world[other]).is_live_player_tank() implies nearer(
                origin,
                (target, world[target].transform->0.position),
                (other, world[other].transform->0.position),
            ) by {
                assert(names(candidates, other));
                let j = choose|j: int|
                    0 <= j < candidates.len() && (#[trigger] candidates[j]).0 == other;
                assert(candidate_of(world, candidates[j]));
                assert(nearer(origin, candidates[k], candidates[j]));
            }
        }
    }

    /// Lets every tank without a player look around: it targets the nearest
    /// live player's tank and takes the state that the distance asks for.
    pub fn ai_system(&mut self, config: &AiConfig)
        requires
            old(self).wf(),
        ensures
            final(self).wf(),
            final(self).next_id() == old(self).next_id(),
            final(self)@.dom() == old(self)@.dom(),
            forall|id: EntityId|
                old(self)@.contains_key(id) ==> (#[trigger] final(self)@[id]) == (Components {
                    npc: final(self)@[id].npc,
                    ..old(self)@[id]
                }) && npc_after(old(self)@, id, *config, final(self)@[id].npc),
    {
        let all = self.entities();
        let candidates = Self::targets(&all, Ghost(self@));
        let mut i: usize = 0;
        while i < all.len()
            invariant
                i <= all.len(),
                self.wf(),
                self.next_id() == old(self).next_id(),
                self@.dom() == old(self)@.dom(),
                forall|k: int|
                    0 <= k < all.len() ==> old(self)@.contains_key((#[trigger] all[k]).0)
                        && old(self)@[all[k].0] == all[k].1,
                forall|k: int, l: int|
                    0 <= k < l < all.len() ==> (#[trigger] all[k]).0 != (#[trigger] all[l]).0,
                forall|k: int|
                    0 <= k < candidates.len() ==> candidate_of(
                        old(self)@,
                        #[trigger] candidates[k],
                    ),
                forall|other: EntityId|
                    old(self)@.contains_key(other)
                        && (#[trigger] old(self)@[other]).is_live_player_tank()
                            ==> names(candidates@, other),
                forall|k: int|
                    0 <= k < i ==> self@[(#[trigger] all[k]).0] == (Components {
                        npc: self@[all[k].0].npc,
                        ..all[k].1
                    }) && npc_after(old(self)@, all[k].0, *config, self@[all[k].0].npc),
                forall|k: int| i <= k < all.len() ==> self@[(#[trigger] all[k]).0] == all[k].1,
            decreases all.len() - i,
        {
            let id = all[i].0;
            let c = &all[i].1;
            let ghost before = self@;
            match (&c.transform, &c.tank, &c.npc) {
                (Some(transform), Some(_), Some(npc)) => {
                    let next = think(npc, &transform.position, &candidates, config);
                    self.set_npc(id, next);
                    proof {
                        assert(self@.dom() =~= old(self)@.dom());
                        Self::lemma_thought(old(self)@, id, candidates@, *config, next);
                    }
                },
                _ => {},
            }
            proof {
                assert forall|k: int| 0 <= k < i implies self@[(#[trigger] all[k]).0] == (Components {
                    npc: self@[all[k].0].npc,
                    ..all[k].1
                }) && npc_after(old(self)@, all[k].0, *config, self@[all[k].0].npc) by {
                    assert(all[k].0 != all[i as int].0);
                    assert(self@[all[k].0] == before[all[k].0]);
                }
                assert forall|k: int| i + 1 <= k < all.len() implies self@[(#[trigger] all[k]).0]
                    == all[k].1 by {
                    assert(all[i as int].0 != all[k].0);
                    assert(self@[all[k].0] == before[all[k].0]);
                }
            }
            i += 1;
        }
        proof {
            assert forall|id: EntityId| old(self)@.contains_key(id)
                implies (#[trigger] final(self)@[id])
                    == (Components { npc: final(self)@[id].npc, ..old(self)@[id] }) && npc_after(
                old(self)@,
                id,
                *config,
                final(self)@[id].npc,
            ) by {
                let k = choose|k: int| 0 <= k < all.len() && (#[trigger] all[k]).0 == id;
                assert(self@[all[k].0] == (Components { npc: self@[all[k].0].npc, ..all[k].1 }));
            }
        }
    }
}

/// The life of an entity: once it is removed, no listing of the world names
/// it, and to remove it again changes nothing and hands nothing back.
///
/// `after` is the world that `remove_entity` leaves, `listing` the numbers
/// that any of the queries names of it, `again` and `handle` what a second
/// `remove_entity` leaves and returns.
pub proof fn lemma_entity_lifecycle(
    before: Map<EntityId, Components>,
    id: EntityId,
    after: Map<EntityId, Components>,
    listing: Seq<EntityId>,
    again: Map<EntityId, Components>,
    handle: Option<PhysicsHandle>,
)
    requires
        after == before.remove(id),
        forall|k: int| 0 <= k < listing.len() ==> after.contains_key(#[trigger] listing[k]),
        again == after.remove(id),
        handle == if after.contains_key(id) {
            after[id].handle()
        } else {
            None::<PhysicsHandle>
        },
    ensures
        !after.contains_key(id),
        forall|k: int| 0 <= k < listing.len() ==> #[trigger] listing[k] != id,
        again == after,
        handle is None,
{
    assert(again =~= after);
}

impl Default for EcsWorld {
    fn default() -> (w: EcsWorld)
        ensures
            w.wf(),
            w@ == Map::<EntityId, Components>::empty(),
            w.next_id() == 1,
    {
        EcsWorld::new()
    }
}

} // verus!

//! The state of the match and its advance by one tick.

use vstd::prelude::*;
use std::collections::HashMap;
use std::collections::VecDeque;
use crate::config::Config;
use crate::ai::AiConfig;
use crate::ecs::{input_replaced, npc_after, tank_damaged, Components, EcsWorld, Player};
use crate::events::{
    event_views, EntityState, EntityType, GameEvent, GameEventView, StateMessage,
};
use crate::physics::{apply_input_forces, input_forces, InputForces, PhysicsHandle};
use crate::types::{EntityId, PlayerId, PlayerInput, PlayerScore, Team, Transform};

verus! {

/// The number of events that the log keeps.
pub const EVENT_LOG_SIZE: usize = 100;

/// What an entity holds after one tick, before the spent projectiles leave:
/// it moved as its input asks, and its projectile aged.
pub open spec fn stepped(c: Components, delta_time: u64) -> Components {
    c.moved(delta_time).aged(delta_time)
}

/// Whether `handle` is that of the body of a projectile of `world` that is
/// spent after a tick of `delta_time`.
pub open spec fn body_of_spent(
    world: Map<EntityId, Components>,
    delta_time: u64,
    handle: PhysicsHandle,
) -> bool {
    exists|id: EntityId|
        world.contains_key(id) && (#[trigger] stepped(world[id], delta_time)).is_spent() && stepped(
            world[id],
            delta_time,
        ).handle() == Some(handle)
}

/// Whether `handle` is that of the body of one of the first `upto` of `expired`.
pub closed spec fn handle_among(
    world: Map<EntityId, Components>,
    expired: Seq<EntityId>,
    upto: int,
    handle: PhysicsHandle,
) -> bool {
    exists|j: int| 0 <= j < upto && world[#[trigger] expired[j]].handle() == Some(handle)
}

/// What every entity holds after the movement and the flight of one tick.
pub open spec fn stepped_world(
    world: Map<EntityId, Components>,
    delta_time: u64,
) -> Map<EntityId, Components> {
    Map::new(|id: EntityId| world.contains_key(id), |id: EntityId| stepped(world[id], delta_time))
}

/// How the world after a tick relates to the world before it. The entities
/// that hold a spent projectile after the movement and the flight are gone,
/// no entity is new, and each that stays holds what it held after the
/// movement and the flight, with the NPC record that a look around at that
/// world leaves it.
pub open spec fn world_after_tick(
    before: Map<EntityId, Components>,
    delta_time: u64,
    ai: AiConfig,
    after: Map<EntityId, Components>,
) -> bool {
    let w = stepped_world(before, delta_time);
    &&& forall|id: EntityId| #[trigger]
        after.contains_key(id) <==> w.contains_key(id) && !w[id].is_spent()
    &&& forall|id: EntityId| #[trigger]
        after.contains_key(id) ==> after[id] == (Components { npc: after[id].npc, ..w[id] })
            && npc_after(w, id, ai, after[id].npc)
}

/// Whether `player_id` drives the entity `id` of `world`: the entity is a
/// tank with the player's record.
pub open spec fn drives(world: Map<EntityId, Components>, id: EntityId, player_id: PlayerId) -> bool {
    world.contains_key(id) && world[id].is_player_tank() && world[id].player->0.player_id
        == player_id
}

/// How the world changes when a player is removed: one tank that the player
/// drives is gone and the handle of its body is handed back, and where the
/// player drives no tank nothing changes and nothing is handed back.
pub open spec fn player_removed(
    before: Map<EntityId, Components>,
    after: Map<EntityId, Components>,
    player_id: PlayerId,
    released: Option<PhysicsHandle>,
) -> bool {
    if exists|id: EntityId| drives(before, id, player_id) {
        exists|id: EntityId| #[trigger]
            drives(before, id, player_id) && after == before.remove(id) && released
                == before[id].handle()
    } else {
        after == before && released is None
    }
}

/// Whether an entry names a tank of `world` that a player drives, the
/// handle of its body, and the forces of the input that its player holds.
pub open spec fn asks_for(
    world: Map<EntityId, Components>,
    entry: (EntityId, PhysicsHandle, InputForces),
) -> bool {
    &&& world.contains_key(entry.0)
    &&& world[entry.0].is_player_tank()
    &&& world[entry.0].handle() == Some(entry.1)
    &&& entry.2 == input_forces(world[entry.0].player->0.input)
}

/// Whether one of `forces` is of the entity `id`.
pub open spec fn asked(forces: Seq<(EntityId, PhysicsHandle, InputForces)>, id: EntityId) -> bool {
    exists|k: int| 0 <= k < forces.len() && (#[trigger] forces[k]).0 == id
}

/// Whether one of the first `upto` entries of `all` is the entity `id`.
pub closed spec fn listed_in(all: Seq<(EntityId, Components)>, upto: int, id: EntityId) -> bool {
    exists|j: int| 0 <= j < upto && (#[trigger] all[j]).0 == id
}

/// What a client is told of a tank: where it is, its health and team, the
/// angle of its turret, and the player that drives it, if one does.
pub open spec fn tank_entry(id: EntityId, c: Components) -> EntityState {
    EntityState {
        id,
        transform: c.transform->0,
        entity_type: EntityType::Tank {
            health: c.tank->0.health,
            max_health: c.tank->0.max_health,
            team: c.tank->0.team,
            turret_angle: c.tank->0.turret_angle,
            player_id: match c.player {
                Some(p) => Some(p.player_id),
                None => None,
            },
        },
    }
}

/// What a client is told of a projectile: where it is, how it flies, and
/// whose it is.
pub open spec fn projectile_entry(id: EntityId, c: Components) -> EntityState {
    EntityState {
        id,
        transform: c.transform->0,
        entity_type: EntityType::Projectile {
            velocity: c.projectile->0.velocity,
            owner: c.projectile->0.owner,
        },
    }
}

/// Whether one of `entities` is the entity `id`.
pub open spec fn entity_listed(entities: Seq<EntityState>, id: EntityId) -> bool {
    exists|k: int| 0 <= k < entities.len() && (#[trigger] entities[k]).id == id
}

/// Whether `entities` tells of the tanks and the projectiles of `world`:
/// each entry is the tank or the projectile of a live entity, each tank and
/// each projectile has an entry, none has two, and the tanks come first.
pub open spec fn lists_entities(world: Map<EntityId, Components>, entities: Seq<EntityState>) -> bool {
    &&& forall|k: int|
        0 <= k < entities.len() ==> {
            let e = #[trigger] entities[k];
            &&& world.contains_key(e.id)
            &&& if world[e.id].is_tank() {
                e == tank_entry(e.id, world[e.id])
            } else {
                world[e.id].is_projectile() && e == projectile_entry(e.id, world[e.id])
            }
        }
    &&& forall|id: EntityId|
        world.contains_key(id) && (world[id].is_tank() || world[id].is_projectile())
            ==> #[trigger] entity_listed(entities, id)
    &&& forall|k: int, l: int|
        0 <= k < l < entities.len() ==> (#[trigger] entities[k]).id != (#[trigger] entities[l]).id
    &&& forall|k: int, l: int|
        0 <= k < l < entities.len() && (#[trigger] entities[l]).entity_type is Tank ==> (
        #[trigger] entities[k]).entity_type is Tank
}

/// The log after a trim: its last `EVENT_LOG_SIZE` events.
pub open spec fn trimmed(log: Seq<GameEventView>) -> Seq<GameEventView> {
    if log.len() > EVENT_LOG_SIZE {
        log.skip(log.len() - EVENT_LOG_SIZE)
    } else {
        log
    }
}

/// `a + b`, held at the largest value.
pub open spec fn saturating_sum(a: u64, b: u64) -> u64 {
    if a + b > u64::MAX {
        u64::MAX
    } else {
        (a + b) as u64
    }
}

/// A list without repeats that names exactly the members of a set has the
/// set's size.
pub proof fn lemma_listed_set_len<A>(list: Seq<A>, set: Set<A>)
    requires
        list.no_duplicates(),
        forall|a: A| list.contains(a) <==> set.contains(a),
    ensures
        set.finite(),
        set.len() == list.len(),
{
    list.unique_seq_to_set();
    assert(list.to_set() =~= set);
}

/// The state of the match: the entity world, the tick counter, the log of
/// recent events, the scores and the round timer.
pub struct GameState {
    ecs_world: EcsWorld,
    tick_counter: u64,
    events: VecDeque<GameEvent>,
    player_scores: HashMap<PlayerId, PlayerScore>,
    round_timer: u64,
    config: Config,
    ai_config: AiConfig,
}

impl GameState {
    /// The live entities with what each holds.
    pub closed spec fn world(&self) -> Map<EntityId, Components> {
        self.ecs_world@
    }

    /// The number that the next entity gets.
    pub closed spec fn next_entity_id(&self) -> EntityId {
        self.ecs_world.next_id()
    }

    /// The number of ticks made.
    pub closed spec fn ticks(&self) -> u64 {
        self.tick_counter
    }

    /// The recent events, oldest first.
    pub closed spec fn event_log(&self) -> Seq<GameEventView> {
        event_views(self.events@)
    }

    /// The scores, by player.
    pub closed spec fn scores(&self) -> Map<PlayerId, PlayerScore> {
        self.player_scores@
    }

    /// The time played in this round, in microseconds.
    pub closed spec fn round_time(&self) -> u64 {
        self.round_timer
    }

    /// The settings that the state was made with.
    pub closed spec fn settings(&self) -> Config {
        self.config
    }

    /// The length of a tick, in microseconds: the physics timestep of the
    /// settings.
    pub open spec fn timestep(&self) -> u64 {
        self.settings().server.physics_timestep
    }

    /// The distances at which the tanks without a player react.
    pub closed spec fn ai(&self) -> AiConfig {
        self.ai_config
    }

    /// The invariant of the state: that of its entity world.
    pub closed spec fn wf(&self) -> bool {
        self.ecs_world.wf()
    }

    /// Every tank of the match keeps its health within its maximum.
    pub proof fn lemma_health_invariant(&self, id: EntityId)
        requires
            self.wf(),
            self.world().contains_key(id),
            self.world()[id].tank is Some,
        ensures
            0 <= self.world()[id].tank->0.health <= self.world()[id].tank->0.max_health,
    {
        self.ecs_world.lemma_health_invariant(id);
    }

    /// A tick keeps every tank, with its health: no tank is a projectile,
    /// so none leaves as a spent one, and neither the movement nor the look
    /// around touches a tank's record.
    pub proof fn lemma_tick_keeps_tanks(&self, after: Map<EntityId, Components>, id: EntityId)
        requires
            self.wf(),
            world_after_tick(self.world(), self.timestep(), self.ai(), after),
            self.world().contains_key(id),
            self.world()[id].tank is Some,
        ensures
            after.contains_key(id),
            after[id].tank == self.world()[id].tank,
            0 <= after[id].tank->0.health <= after[id].tank->0.max_health,
    {
        self.ecs_world.lemma_tank_is_no_projectile(id);
        self.ecs_world.lemma_health_invariant(id);
        let w = stepped_world(self.world(), self.timestep());
        assert(w.contains_key(id));
        let c = self.world()[id];
        assert(w[id] == stepped(c, self.timestep()));
        assert(c.moved(self.timestep()).tank == c.tank);
        assert(c.moved(self.timestep()).projectile is None);
        assert(w[id].tank == c.tank);
        assert(!w[id].is_spent());
        assert(after.contains_key(id));
        assert(after[id] == (Components { npc: after[id].npc, ..w[id] }));
    }

    /// Every number in use is below the next one to be given, so that a
    /// number that was removed is never in use again.
    pub proof fn lemma_ids_below_next(&self, id: EntityId)
        requires
            self.wf(),
            self.world().contains_key(id),
        ensures
            1 <= id < self.next_entity_id(),
    {
        self.ecs_world.lemma_ids_below_next(id);
    }

    /// A match without entities, at tick zero.
    pub fn new(config: &Config) -> (s: GameState)
        ensures
            s.wf(),
            s.world() == Map::<EntityId, Components>::empty(),
            s.next_entity_id() == 1,
            s.ticks() == 0,
            s.event_log() == Seq::<GameEventView>::empty(),
            s.scores() == Map::<PlayerId, PlayerScore>::empty(),
            s.round_time() == 0,
            s.settings() == *config,
            s.ai() == (AiConfig { attack_range: 30_000, search_range: 60_000 }),
    {
        let s = GameState {
            ecs_world: EcsWorld::new(),
            tick_counter: 0,
            events: VecDeque::new(),
            player_scores: HashMap::new(),
            round_timer: 0,
            config: config.clone(),
            ai_config: AiConfig::default(),
        };
        assert(s.event_log() =~= Seq::<GameEventView>::empty());
        s
    }

    /// Whether another entity can be made.
    pub fn has_room(&self) -> (room: bool)
        ensures
            room == (self.next_entity_id() < u32::MAX),
    {
        self.ecs_world.has_room()
    }

    /// Drops the oldest events until the log holds its size at most.
    fn trim_events(&mut self)
        ensures
            final(self).event_log() == trimmed(old(self).event_log()),
            final(self).ecs_world == old(self).ecs_world,
            final(self).tick_counter == old(self).tick_counter,
            final(self).player_scores == old(self).player_scores,
            final(self).round_timer == old(self).round_timer,
            final(self).config == old(self).config,
            final(self).ai_config == old(self).ai_config,
    {
        let ghost log = self.event_log();
        assert(log.skip(0) =~= log);
        while self.events.len() > EVENT_LOG_SIZE
            invariant
                log == old(self).event_log(),
                self.events.len() <= log.len(),
                log.len() <= EVENT_LOG_SIZE ==> self.events.len() == log.len(),
                log.len() > EVENT_LOG_SIZE ==> self.events.len() >= EVENT_LOG_SIZE,
                self.event_log() == log.skip(log.len() - self.events.len()),
                self.ecs_world == old(self).ecs_world,
                self.tick_counter == old(self).tick_counter,
                self.player_scores == old(self).player_scores,
                self.round_timer == old(self).round_timer,
                self.config == old(self).config,
                self.ai_config == old(self).ai_config,
            decreases self.events.len(),
        {
            let ghost before = self.event_log();
            let _ = self.events.pop_front();
            assert(self.event_log() =~= before.skip(1));
            assert(before.skip(1) =~= log.skip(log.len() - self.events.len()));
        }
    }

    /// Advances the match by one tick: counts the tick, lets the round timer
    /// run, moves the tanks that players drive, lets the projectiles age,
    /// lets the tanks without a player look around, removes the projectiles
    /// that are spent, and trims the event log. Returns the body handles of
    /// the removed projectiles, for the caller to release.
    pub fn update(&mut self) -> (released: Vec<PhysicsHandle>)
        requires
            old(self).wf(),
            old(self).ticks() < u64::MAX,
        ensures
            final(self).wf(),
            final(self).ticks() == old(self).ticks() + 1,
            final(self).round_time() == saturating_sum(
                old(self).round_time(),
                old(self).timestep(),
            ),
            final(self).next_entity_id() == old(self).next_entity_id(),
            final(self).scores() == old(self).scores(),
            final(self).settings() == old(self).settings(),
            final(self).ai() == old(self).ai(),
            final(self).event_log() == trimmed(old(self).event_log()),
            world_after_tick(
                old(self).world(),
                old(self).timestep(),
                old(self).ai(),
                final(self).world(),
            ),
            forall|k: int|
                0 <= k < released.len() ==> body_of_spent(
                    old(self).world(),
                    old(self).timestep(),
                    #[trigger] released[k],
                ),
            forall|id: EntityId|
                old(self).world().contains_key(id) && (#[trigger] stepped(
                    old(self).world()[id],
                    old(self).timestep(),
                )).is_spent() && stepped(old(self).world()[id], old(self).timestep()).handle()
                    is Some ==> released@.contains(
                    stepped(old(self).world()[id], old(self).timestep()).handle()->0,
                ),
    {
        let delta_time = self.config.server.physics_timestep;
        self.tick_counter = self.tick_counter + 1;
        self.round_timer = self.round_timer.saturating_add(delta_time);
        self.ecs_world.movement_system(delta_time);
        let ghost moved = self.ecs_world@;
        let expired = self.ecs_world.projectile_system(delta_time);
        let ghost aged = self.ecs_world@;
        proof {
            assert forall|id: EntityId| aged.contains_key(id) implies #[trigger] aged[id]
                == stepped(old(self).world()[id], delta_time) by {
                assert(moved.contains_key(id));
                assert(moved[id] == old(self).world()[id].moved(delta_time));
                assert(aged[id] == moved[id].aged(delta_time));
            }
            assert(aged =~= stepped_world(old(self).world(), delta_time));
        }
        let ai_config = self.ai_config;
        self.ecs_world.ai_system(&ai_config);
        let ghost thought = self.ecs_world@;
        let mut released: Vec<PhysicsHandle> = Vec::new();
        let mut i: usize = 0;
        while i < expired.len()
            invariant
                i <= expired.len(),
                self.ecs_world.wf(),
                self.ecs_world.next_id() == old(self).ecs_world.next_id(),
                self.tick_counter == old(self).tick_counter + 1,
                self.round_timer == saturating_sum(old(self).round_timer, delta_time),
                self.player_scores == old(self).player_scores,
                self.config == old(self).config,
                self.ai_config == old(self).ai_config,
                self.events == old(self).events,
                expired@.no_duplicates(),
                thought.dom() == aged.dom(),
                forall|id: EntityId|
                    aged.contains_key(id) ==> (#[trigger] thought[id]) == (Components {
                        npc: thought[id].npc,
                        ..aged[id]
                    }),
                forall|id: EntityId|
                    expired@.contains(id) <==> aged.contains_key(id) && aged[id].is_spent(),
                forall|id: EntityId| #[trigger]
                    self.ecs_world@.contains_key(id) <==> aged.contains_key(id)
                        && !expired@.take(i as int).contains(id),
                forall|id: EntityId| #[trigger]
                    self.ecs_world@.contains_key(id) ==> self.ecs_world@[id] == thought[id],
                forall|k: int|
                    0 <= k < released.len() ==> handle_among(
                        aged,
                        expired@,
                        i as int,
                        #[trigger] released[k],
                    ),
                forall|j: int|
                    0 <= j < i && aged[#[trigger] expired[j]].handle() is Some
                        ==> released@.contains(aged[expired[j]].handle()->0),
            decreases expired.len() - i,
        {
            let id = expired[i];
            let ghost before = self.ecs_world@;
            let ghost done = expired@.take(i as int);
            let ghost named = released@;
            assert(expired@.contains(id));
            assert(!done.contains(id)) by {
                if done.contains(id) {
                    let j = choose|j: int| 0 <= j < done.len() && done[j] == id;
                    assert(expired[j] == expired[i as int]);
                }
            }
            assert(self.ecs_world@.contains_key(id));
            assert(thought[id].handle() == aged[id].handle());
            let handle = self.ecs_world.remove_entity(id);
            match handle {
                Some(h) => {
                    released.push(h);
                    assert(released[released.len() - 1] == h);
                },
                None => {},
            }
            proof {
                let more = expired@.take(i + 1);
                assert(more =~= done.push(id));
                assert forall|other: EntityId| #[trigger]
                    self.ecs_world@.contains_key(other) <==> aged.contains_key(other)
                        && !more.contains(other) by {
                    if more.contains(other) && other != id {
                        let j = choose|j: int| 0 <= j < more.len() && more[j] == other;
                        assert(done[j] == other);
                    }
                    if done.contains(other) {
                        let j = choose|j: int| 0 <= j < done.len() && done[j] == other;
                        assert(more[j] == other);
                    }
                    assert(more[i as int] == id);
                }
                assert forall|k: int| 0 <= k < released.len() implies handle_among(
                    aged,
                    expired@,
                    i + 1,
                    #[trigger] released[k],
                ) by {
                    if k < named.len() {
                        assert(handle_among(aged, expired@, i as int, named[k]));
                        let j = choose|j: int|
                            0 <= j < i && aged[#[trigger] expired[j]].handle() == Some(named[k]);
                        assert(aged[expired[j]].handle() == Some(released[k]));
                    } else {
                        assert(aged[expired[i as int]].handle() == Some(released[k]));
                    }
                }
                assert forall|j: int|
                    0 <= j < i + 1 && aged[#[trigger] expired[j]].handle()
                        is Some implies released@.contains(aged[expired[j]].handle()->0) by {
                    if j < i {
                        let h = aged[expired[j]].handle()->0;
                        assert(named.contains(h));
                        let k = choose|k: int| 0 <= k < named.len() && named[k] == h;
                        assert(released[k] == h);
                    } else {
                        assert(released[released.len() - 1] == aged[expired[j]].handle()->0);
                    }
                }
            }
            i += 1;
        }
        assert(expired@.take(expired.len() as int) =~= expired@);
        self.trim_events();
        proof {
            let dt = old(self).timestep();
            let w = stepped_world(old(self).world(), dt);
            assert forall|k: int| 0 <= k < released.len() implies body_of_spent(
                old(self).world(),
                dt,
                #[trigger] released[k],
            ) by {
                assert(handle_among(aged, expired@, expired.len() as int, released[k]));
                let j = choose|j: int|
                    0 <= j < expired.len() && aged[#[trigger] expired[j]].handle() == Some(
                        released[k],
                    );
                let id = expired[j];
                assert(expired@.contains(id));
                assert(aged[id] == stepped(old(self).world()[id], dt));
                assert(old(self).world().contains_key(id) && stepped(
                    old(self).world()[id],
                    dt,
                ).is_spent() && stepped(old(self).world()[id], dt).handle() == Some(released[k]));
            }
            assert forall|id: EntityId|
                old(self).world().contains_key(id) && (#[trigger] stepped(
                    old(self).world()[id],
                    dt,
                )).is_spent() && stepped(old(self).world()[id], dt).handle()
                    is Some implies released@.contains(
                stepped(old(self).world()[id], dt).handle()->0,
            ) by {
                assert(aged.contains_key(id));
                assert(aged[id] == stepped(old(self).world()[id], dt));
                assert(expired@.contains(id));
                let j = choose|j: int| 0 <= j < expired.len() && expired[j] == id;
                assert(aged[expired[j]].handle() is Some);
            }
            assert forall|id: EntityId| #[trigger]
                final(self).world().contains_key(id) <==> w.contains_key(id)
                    && !w[id].is_spent() by {
                if w.contains_key(id) {
                    assert(aged[id] == w[id]);
                }
            }
            assert forall|id: EntityId| #[trigger]
                final(self).world().contains_key(id) implies final(self).world()[id] == (Components {
                    npc: final(self).world()[id].npc,
                    ..w[id]
                }) && npc_after(w, id, old(self).ai(), final(self).world()[id].npc) by {
                assert(aged.contains_key(id));
                assert(final(self).world()[id] == thought[id]);
            }
        }
        released
    }

    /// Adds a player with a tank at the origin that has no body yet: makes
    /// the tank, opens a score for the player, and logs that the player
    /// joined. `attach_body` gives the tank its body once that is made.
    pub fn add_player(&mut self, player_id: PlayerId, name: String) -> (id: EntityId)
        requires
            old(self).wf(),
            old(self).next_entity_id() < u32::MAX,
        ensures
            final(self).wf(),
            id == old(self).next_entity_id(),
            final(self).next_entity_id() == id + 1,
            !old(self).world().contains_key(id),
            final(self).world() == old(self).world().insert(
                id,
                Components::unattached_player_tank(
                    player_id,
                    name,
                    Transform { position: crate::types::Vector3 { x: 0, y: 0, z: 0 }, rotation: 0 },
                ),
            ),
            final(self).scores() == old(self).scores().insert(
                player_id,
                PlayerScore { kills: 0, deaths: 0, npc_kills: 0 },
            ),
            final(self).event_log() == old(self).event_log().push(
                GameEventView::PlayerJoined { player_id, name: name@, team: Team::Red },
            ),
            final(self).ticks() == old(self).ticks(),
            final(self).round_time() == old(self).round_time(),
            final(self).settings() == old(self).settings(),
            final(self).ai() == old(self).ai(),
    {
        let label = name.clone();
        let entity_id = self.ecs_world.create_unattached_player_tank(
            player_id,
            name,
            Transform::default(),
        );
        self.player_scores.insert(player_id, PlayerScore::default());
        let event = GameEvent::PlayerJoined { player_id, name: label, team: Team::Red };
        let ghost before = self.event_log();
        self.events.push_back(event);
        assert(self.event_log() =~= before.push(event@));
        entity_id
    }

    /// Gives an entity that has no body the body behind `handle`, and tells
    /// whether it did. Nothing changes where the number is not in use or
    /// the entity has a body already.
    pub fn attach_body(&mut self, entity_id: EntityId, handle: PhysicsHandle) -> (attached: bool)
        requires
            old(self).wf(),
        ensures
            final(self).wf(),
            attached == (old(self).world().contains_key(entity_id) && old(
                self,
            ).world()[entity_id].body is None),
            final(self).world() == if attached {
                old(self).world().insert(
                    entity_id,
                    old(self).world()[entity_id].with_body(handle),
                )
            } else {
                old(self).world()
            },
            final(self).next_entity_id() == old(self).next_entity_id(),
            final(self).scores() == old(self).scores(),
            final(self).event_log() == old(self).event_log(),
            final(self).ticks() == old(self).ticks(),
            final(self).round_time() == old(self).round_time(),
            final(self).settings() == old(self).settings(),
            final(self).ai() == old(self).ai(),
    {
        self.ecs_world.attach_body(entity_id, handle)
    }

    /// Adds a player with a tank at `transform` that has the body behind
    /// `physics_handle`: makes the tank, opens a score for the player, and
    /// logs that the player joined.
    pub fn add_player_with_body(
        &mut self,
        player_id: PlayerId,
        name: String,
        transform: Transform,
        physics_handle: PhysicsHandle,
    ) -> (id: EntityId)
        requires
            old(self).wf(),
            old(self).next_entity_id() < u32::MAX,
        ensures
            final(self).wf(),
            id == old(self).next_entity_id(),
            final(self).next_entity_id() == id + 1,
            !old(self).world().contains_key(id),
            final(self).world() == old(self).world().insert(
                id,
                Components::player_tank(player_id, name, transform, physics_handle),
            ),
            final(self).scores() == old(self).scores().insert(
                player_id,
                PlayerScore { kills: 0, deaths: 0, npc_kills: 0 },
            ),
            final(self).event_log() == old(self).event_log().push(
                GameEventView::PlayerJoined { player_id, name: name@, team: Team::Red },
            ),
            final(self).ticks() == old(self).ticks(),
            final(self).round_time() == old(self).round_time(),
            final(self).settings() == old(self).settings(),
            final(self).ai() == old(self).ai(),
    {
        let label = name.clone();
        let entity_id = self.ecs_world.create_player_tank(
            player_id,
            name,
            transform,
            physics_handle,
        );
        self.player_scores.insert(player_id, PlayerScore::default());
        let event = GameEvent::PlayerJoined { player_id, name: label, team: Team::Red };
        let ghost before = self.event_log();
        self.events.push_back(event);
        assert(self.event_log() =~= before.push(event@));
        entity_id
    }

    /// Position of the first entry of `players` that `player_id` drives.
    fn find_player(players: &Vec<(EntityId, Transform, crate::types::Tank, Player)>, player_id: PlayerId) -> (r:
        Option<usize>)
        ensures
            match r {
                Some(i) => i < players.len() && players[i as int].3.player_id == player_id,
                None => forall|k: int|
                    0 <= k < players.len() ==> (#[trigger] players[k]).3.player_id != player_id,
            },
    {
        let mut i: usize = 0;
        while i < players.len()
            invariant
                i <= players.len(),
                forall|k: int| 0 <= k < i ==> (#[trigger] players[k]).3.player_id != player_id,
            decreases players.len() - i,
        {
            if players[i].3.player_id == player_id {
                return Some(i);
            }
            i += 1;
        }
        None
    }

    /// Removes a player: one tank that the player drives, if there is one,
    /// and the player's score; logs that the player left. Returns the body
    /// handle of the removed tank, for the caller to release.
    pub fn remove_player(&mut self, player_id: PlayerId) -> (released: Option<PhysicsHandle>)
        requires
            old(self).wf(),
        ensures
            final(self).wf(),
            final(self).next_entity_id() == old(self).next_entity_id(),
            final(self).scores() == old(self).scores().remove(player_id),
            final(self).event_log() == old(self).event_log().push(
                GameEventView::PlayerLeft { player_id },
            ),
            final(self).ticks() == old(self).ticks(),
            final(self).round_time() == old(self).round_time(),
            final(self).settings() == old(self).settings(),
            final(self).ai() == old(self).ai(),
            player_removed(old(self).world(), final(self).world(), player_id, released),
    {
        let players = self.ecs_world.get_players();
        let target = Self::find_player(&players, player_id);
        let released = match target {
            Some(i) => {
                let id = players[i].0;
                assert(drives(old(self).world(), id, player_id));
                self.ecs_world.remove_entity(id)
            },
            None => None,
        };
        self.player_scores.remove(&player_id);
        let event = GameEvent::PlayerLeft { player_id };
        let ghost before = self.event_log();
        self.events.push_back(event);
        proof {
            assert(self.event_log() =~= before.push(event@));
            if target is None {
                assert forall|id: EntityId| !drives(old(self).world(), id, player_id) by {
                    if drives(old(self).world(), id, player_id) {
                        let k = choose|k: int|
                            0 <= k < players.len() && (#[trigger] players[k]).0 == id;
                        assert(players[k].3.player_id != player_id);
                    }
                }
            }
        }
        released
    }

    /// Replaces the input of one entity that holds the record of `player_id`.
    pub fn update_player_input(&mut self, player_id: PlayerId, input: PlayerInput)
        requires
            old(self).wf(),
        ensures
            final(self).wf(),
            final(self).next_entity_id() == old(self).next_entity_id(),
            final(self).scores() == old(self).scores(),
            final(self).event_log() == old(self).event_log(),
            final(self).ticks() == old(self).ticks(),
            final(self).round_time() == old(self).round_time(),
            final(self).settings() == old(self).settings(),
            final(self).ai() == old(self).ai(),
            input_replaced(old(self).world(), final(self).world(), player_id, input),
    {
        self.ecs_world.update_player_input(player_id, input);
    }

    /// Hurts a tank by `damage` and tells whether it is now destroyed; where
    /// it is, that is logged with the one who did it and the place. Nothing
    /// changes and nothing is told where the entity is gone or is no tank.
    pub fn damage_tank(&mut self, tank_id: EntityId, damage: u32, killer_id: Option<PlayerId>) -> (destroyed:
        Option<bool>)
        requires
            old(self).wf(),
        ensures
            final(self).wf(),
            final(self).next_entity_id() == old(self).next_entity_id(),
            final(self).scores() == old(self).scores(),
            final(self).ticks() == old(self).ticks(),
            final(self).round_time() == old(self).round_time(),
            final(self).settings() == old(self).settings(),
            final(self).ai() == old(self).ai(),
            tank_damaged(old(self).world(), final(self).world(), tank_id, damage, destroyed),
            final(self).event_log() == if destroyed == Some(true) && old(self).world()[tank_id].transform
                is Some {
                old(self).event_log().push(
                    GameEventView::TankDestroyed {
                        tank_id,
                        killer_id,
                        position: old(self).world()[tank_id].transform->0,
                    },
                )
            } else {
                old(self).event_log()
            },
    {
        let place = self.ecs_world.transform_of(tank_id);
        let destroyed = self.ecs_world.damage_tank(tank_id, damage);
        match (destroyed, place) {
            (Some(true), Some(position)) => {
                let event = GameEvent::TankDestroyed { tank_id, killer_id, position };
                let ghost before = self.event_log();
                self.events.push_back(event);
                assert(self.event_log() =~= before.push(event@));
            },
            _ => {},
        }
        destroyed
    }

    /// Replaces the transform of an entity, as the physics step left it.
    /// Nothing changes where the entity is gone or has no transform.
    pub fn update_transform(&mut self, entity_id: EntityId, transform: Transform)
        requires
            old(self).wf(),
        ensures
            final(self).wf(),
            final(self).next_entity_id() == old(self).next_entity_id(),
            final(self).scores() == old(self).scores(),
            final(self).event_log() == old(self).event_log(),
            final(self).ticks() == old(self).ticks(),
            final(self).round_time() == old(self).round_time(),
            final(self).settings() == old(self).settings(),
            final(self).ai() == old(self).ai(),
            final(self).world() == if old(self).world().contains_key(entity_id)
                && old(self).world()[entity_id].transform is Some {
                old(self).world().insert(
                    entity_id,
                    Components { transform: Some(transform), ..old(self).world()[entity_id] },
                )
            } else {
                old(self).world()
            },
    {
        self.ecs_world.update_transform(entity_id, transform);
    }

    /// Sets the distances at which the tanks without a player react.
    pub fn set_ai_config(&mut self, ai: AiConfig)
        ensures
            final(self).ai() == ai,
            final(self).wf() == old(self).wf(),
            final(self).world() == old(self).world(),
            final(self).next_entity_id() == old(self).next_entity_id(),
            final(self).scores() == old(self).scores(),
            final(self).event_log() == old(self).event_log(),
            final(self).ticks() == old(self).ticks(),
            final(self).round_time() == old(self).round_time(),
            final(self).settings() == old(self).settings(),
    {
        self.ai_config = ai;
    }

    /// The settings that the state was made with.
    pub fn config(&self) -> (c: &Config)
        ensures
            *c == self.settings(),
    {
        &self.config
    }

    /// The time played in this round, in microseconds.
    pub fn round_timer(&self) -> (t: u64)
        ensures
            t == self.round_time(),
    {
        self.round_timer
    }

    /// The number of ticks made.
    pub fn tick(&self) -> (t: u64)
        ensures
            t == self.ticks(),
    {
        self.tick_counter
    }

    /// The entity world, to read.
    pub fn ecs(&self) -> (w: &EcsWorld)
        ensures
            w@ == self.world(),
            w.wf() == self.wf(),
            w.next_id() == self.next_entity_id(),
    {
        &self.ecs_world
    }

    /// The score of a player.
    pub fn score_of(&self, player_id: PlayerId) -> (score: Option<PlayerScore>)
        ensures
            score == if self.scores().contains_key(player_id) {
                Some(self.scores()[player_id])
            } else {
                None::<PlayerScore>
            },
    {
        match self.player_scores.get(&player_id) {
            Some(s) => Some(*s),
            None => None,
        }
    }

    /// The player of the entry of `players` for the entity `id`.
    fn driver_of(players: &Vec<(EntityId, Transform, crate::types::Tank, Player)>, id: EntityId) -> (r:
        Option<PlayerId>)
        ensures
            match r {
                Some(p) => exists|k: int|
                    0 <= k < players.len() && (#[trigger] players[k]).0 == id && players[k].3.player_id
                        == p,
                None => forall|k: int| 0 <= k < players.len() ==> (#[trigger] players[k]).0 != id,
            },
    {
        let mut i: usize = 0;
        while i < players.len()
            invariant
                i <= players.len(),
                forall|k: int| 0 <= k < i ==> (#[trigger] players[k]).0 != id,
            decreases players.len() - i,
        {
            if players[i].0 == id {
                return Some(players[i].3.player_id);
            }
            i += 1;
        }
        None
    }

    /// The state of the match for the clients: the tick, every tank and then
    /// every projectile, and the recent events.
    #[verifier::loop_isolation(false)]
    pub fn create_state_message(&self) -> (message: StateMessage)
        requires
            self.wf(),
        ensures
            message.tick == self.ticks(),
            event_views(message.events@) == self.event_log(),
            lists_entities(self.world(), message.entities@),
    {
        let tanks = self.ecs_world.get_tanks();
        let players = self.ecs_world.get_players();
        let projectiles = self.ecs_world.get_projectiles();
        let ghost world = self.world();
        let mut entities: Vec<EntityState> = Vec::new();
        let mut i: usize = 0;
        while i < tanks.len()
            invariant
                i <= tanks.len(),
                entities.len() == i,
                forall|k: int|
                    0 <= k < i ==> #[trigger] entities[k] == tank_entry(tanks[k].0, world[tanks[k].0]),
            decreases tanks.len() - i,
        {
            let (entity_id, transform, tank) = tanks[i];
            let player_id = Self::driver_of(&players, entity_id);
            proof {
                let c = world[entity_id];
                assert(world.contains_key(tanks[i as int].0));
                match player_id {
                    Some(p) => {
                        let k = choose|k: int|
                            0 <= k < players.len() && (#[trigger] players[k]).0 == entity_id
                                && players[k].3.player_id == p;
                        assert(c.player == Some(players[k].3));
                    },
                    None => {
                        if c.player is Some {
                            assert(c.is_player_tank());
                            let k = choose|k: int|
                                0 <= k < players.len() && (#[trigger] players[k]).0 == entity_id;
                            assert(false);
                        }
                    },
                }
            }
            entities.push(
                EntityState {
                    id: entity_id,
                    transform,
                    entity_type: EntityType::Tank {
                        health: tank.health,
                        max_health: tank.max_health,
                        team: tank.team,
                        turret_angle: tank.turret_angle,
                        player_id,
                    },
                },
            );
            i += 1;
        }
        let mut j: usize = 0;
        while j < projectiles.len()
            invariant
                j <= projectiles.len(),
                entities.len() == tanks.len() + j,
                forall|k: int|
                    0 <= k < tanks.len() ==> #[trigger] entities[k] == tank_entry(
                        tanks[k].0,
                        world[tanks[k].0],
                    ),
                forall|k: int|
                    0 <= k < j ==> #[trigger] entities[tanks.len() + k] == projectile_entry(
                        projectiles[k].0,
                        world[projectiles[k].0],
                    ),
            decreases projectiles.len() - j,
        {
            let (entity_id, transform, projectile) = projectiles[j];
            assert(world.contains_key(projectiles[j as int].0));
            entities.push(
                EntityState {
                    id: entity_id,
                    transform,
                    entity_type: EntityType::Projectile {
                        velocity: projectile.velocity,
                        owner: projectile.owner,
                    },
                },
            );
            j += 1;
        }
        proof {
            let n = tanks.len() as int;
            assert forall|k: int| 0 <= k < entities.len() implies {
                let e = #[trigger] entities[k];
                &&& world.contains_key(e.id)
                &&& if world[e.id].is_tank() {
                    e == tank_entry(e.id, world[e.id])
                } else {
                    world[e.id].is_projectile() && e == projectile_entry(e.id, world[e.id])
                }
            } by {
                if k < n {
                    assert(world.contains_key(tanks[k].0));
                } else {
                    assert(entities[n + (k - n)] == projectile_entry(
                        projectiles[k - n].0,
                        world[projectiles[k - n].0],
                    ));
                    let id = projectiles[k - n].0;
                    assert(world.contains_key(id));
                    if world[id].tank is Some {
                        self.ecs_world.lemma_tank_is_no_projectile(id);
                    }
                }
            }
            assert forall|id: EntityId|
                world.contains_key(id) && (world[id].is_tank() || world[id].is_projectile())
                    implies #[trigger] entity_listed(entities@, id) by {
                if world[id].is_tank() {
                    let k = choose|k: int| 0 <= k < tanks.len() && (#[trigger] tanks[k]).0 == id;
                    assert(entities[k].id == id);
                } else {
                    let k = choose|k: int|
                        0 <= k < projectiles.len() && (#[trigger] projectiles[k]).0 == id;
                    assert(entities[n + k].id == id);
                }
            }
            assert forall|k: int, l: int| 0 <= k < l < entities.len() implies (
            #[trigger] entities[k]).id != (#[trigger] entities[l]).id by {
                if l < n {
                    assert(tanks[k].0 != tanks[l].0);
                } else if k >= n {
                    assert(entities[n + (k - n)].id == projectiles[k - n].0);
                    assert(entities[n + (l - n)].id == projectiles[l - n].0);
                    assert(projectiles[k - n].0 != projectiles[l - n].0);
                } else {
                    assert(entities[n + (l - n)].id == projectiles[l - n].0);
                    let id = projectiles[l - n].0;
                    assert(world.contains_key(id));
                    if tanks[k].0 == id {
                        self.ecs_world.lemma_tank_is_no_projectile(id);
                    }
                }
            }
            assert forall|k: int, l: int|
                0 <= k < l < entities.len() && (#[trigger] entities[l]).entity_type
                    is Tank implies (#[trigger] entities[k]).entity_type is Tank by {
                if l >= n {
                    assert(entities[n + (l - n)] == projectile_entry(
                        projectiles[l - n].0,
                        world[projectiles[l - n].0],
                    ));
                }
            }
        }
        StateMessage { tick: self.tick_counter, entities, events: self.recent_events() }
    }

    /// A copy of the recent events, oldest first.
    pub fn recent_events(&self) -> (events: Vec<GameEvent>)
        ensures
            event_views(events@) == self.event_log(),
    {
        let mut events: Vec<GameEvent> = Vec::new();
        let mut i: usize = 0;
        assert(self.event_log().take(0) =~= Seq::<GameEventView>::empty());
        assert(event_views(events@) =~= Seq::<GameEventView>::empty());
        while i < self.events.len()
            invariant
                i <= self.events.len(),
                event_views(events@) == self.event_log().take(i as int),
            decreases self.events.len() - i,
        {
            let ghost before = event_views(events@);
            let copy = self.events[i].clone();
            events.push(copy);
            assert(event_views(events@) =~= before.push(copy@));
            assert(self.event_log().take(i + 1) =~= self.event_log().take(i as int).push(
                self.events@[i as int]@,
            ));
            i += 1;
        }
        assert(self.event_log().take(self.events.len() as int) =~= self.event_log());
        events
    }

    /// The entity that a player drives: one tank with the player's record,
    /// if there is one.
    pub fn entity_of(&self, player_id: PlayerId) -> (entity: Option<EntityId>)
        requires
            self.wf(),
        ensures
            match entity {
                Some(id) => drives(self.world(), id, player_id),
                None => forall|id: EntityId| !drives(self.world(), id, player_id),
            },
    {
        let players = self.ecs_world.get_players();
        match Self::find_player(&players, player_id) {
            Some(i) => Some(players[i].0),
            None => {
                proof {
                    assert forall|id: EntityId| !drives(self.world(), id, player_id) by {
                        if drives(self.world(), id, player_id) {
                            let k = choose|k: int|
                                0 <= k < players.len() && (#[trigger] players[k]).0 == id;
                            assert(players[k].3.player_id != player_id);
                        }
                    }
                }
                None
            },
        }
    }

    /// The forces that the inputs ask for, before the physics step: for
    /// each tank that a player drives and that has a body, once, the
    /// entity, the handle of its body, and the forces of the input that the
    /// player holds.
    pub fn input_forces(&self) -> (forces: Vec<(EntityId, PhysicsHandle, InputForces)>)
        requires
            self.wf(),
        ensures
            forall|k: int|
                0 <= k < forces.len() ==> asks_for(self.world(), #[trigger] forces[k]),
            forall|id: EntityId|
                self.world().contains_key(id) && (#[trigger] self.world()[id]).is_player_tank()
                    && self.world()[id].body is Some ==> asked(forces@, id),
            forall|k: int, l: int|
                0 <= k < l < forces.len() ==> (#[trigger] forces[k]).0 != (#[trigger] forces[l]).0,
    {
        let all = self.ecs_world.entities();
        let mut forces: Vec<(EntityId, PhysicsHandle, InputForces)> = Vec::new();
        let mut i: usize = 0;
        let ghost w = self.world();
        while i < all.len()
            invariant
                i <= all.len(),
                w == self.world(),
                forall|k: int|
                    0 <= k < all.len() ==> w.contains_key((#[trigger] all[k]).0) && w[all[k].0]
                        == all[k].1,
                forall|k: int, l: int|
                    0 <= k < l < all.len() ==> (#[trigger] all[k]).0 != (#[trigger] all[l]).0,
                forall|k: int|
                    0 <= k < forces.len() ==> asks_for(w, #[trigger] forces[k]) && listed_in(
                        all@,
                        i as int,
                        forces[k].0,
                    ),
                forall|j: int|
                    0 <= j < i && (#[trigger] all[j]).1.is_player_tank() && all[j].1.body is Some
                        ==> asked(forces@, all[j].0),
                forall|k: int, l: int|
                    0 <= k < l < forces.len() ==> (#[trigger] forces[k]).0 != (
                    #[trigger] forces[l]).0,
            decreases all.len() - i,
        {
            let ghost before = forces@;
            let id = all[i].0;
            let c = &all[i].1;
            match (&c.transform, &c.tank, &c.player, &c.body) {
                (Some(_), Some(_), Some(player), Some(body)) => {
                    proof {
                        assert forall|k: int| 0 <= k < forces.len() implies (
                        #[trigger] forces[k]).0 != id by {
                            assert(listed_in(all@, i as int, forces[k].0));
                            let j = choose|j: int|
                                0 <= j < i && (#[trigger] all[j]).0 == forces[k].0;
                        }
                    }
                    forces.push((id, body.handle, apply_input_forces(&player.input)));
                    assert(forces[forces.len() - 1].0 == all[i as int].0);
                },
                _ => {},
            }
            proof {
                assert forall|k: int| 0 <= k < forces.len() implies listed_in(
                    all@,
                    i + 1,
                    (#[trigger] forces[k]).0,
                ) by {
                    if k < before.len() {
                        assert(listed_in(all@, i as int, before[k].0));
                        let j = choose|j: int| 0 <= j < i && (#[trigger] all[j]).0 == before[k].0;
                        assert(all[j].0 == forces[k].0);
                    } else {
                        assert(all[i as int].0 == forces[k].0);
                    }
                }
                assert forall|j: int|
                    0 <= j < i + 1 && (#[trigger] all[j]).1.is_player_tank() && all[j].1.body
                        is Some implies asked(forces@, all[j].0) by {
                    if j < i {
                        assert(asked(before, all[j].0));
                        let k = choose|k: int|
                            0 <= k < before.len() && (#[trigger] before[k]).0 == all[j].0;
                        assert(forces[k].0 == all[j].0);
                    } else {
                        assert(forces[forces.len() - 1].0 == all[j].0);
                    }
                }
            }
            i += 1;
        }
        proof {
            assert forall|id: EntityId|
                w.contains_key(id) && (#[trigger] w[id]).is_player_tank() && w[id].body
                    is Some implies asked(forces@, id) by {
                let j = choose|j: int| 0 <= j < all.len() && (#[trigger] all[j]).0 == id;
                assert(all[j].1.is_player_tank());
            }
        }
        forces
    }

    /// The number of tanks that players drive.
    pub fn player_count(&self) -> (n: usize)
        requires
            self.wf(),
        ensures
            n == self.world().dom().filter(|id: EntityId| self.world()[id].is_player_tank()).len(),
    {
        let players = self.ecs_world.get_players();
        proof {
            let ids = players@.map_values(|p: (EntityId, Transform, crate::types::Tank, Player)| p.0);
            let set = self.world().dom().filter(|id: EntityId| self.world()[id].is_player_tank());
            assert forall|a: int, b: int|
                0 <= a < ids.len() && 0 <= b < ids.len() && a != b implies ids[a] != ids[b] by {
                if a < b {
                    assert(players[a].0 != players[b].0);
                } else {
                    assert(players[b].0 != players[a].0);
                }
            }
            assert forall|id: EntityId| ids.contains(id) <==> set.contains(id) by {
                if ids.contains(id) {
                    let k = choose|k: int| 0 <= k < ids.len() && ids[k] == id;
                    assert(players[k].0 == id);
                }
                if set.contains(id) {
                    let k = choose|k: int| 0 <= k < players.len() && (#[trigger] players[k]).0 == id;
                    assert(ids[k] == id);
                }
            }
            lemma_listed_set_len(ids, set);
        }
        players.len()
    }

    /// The number of live entities.
    pub fn entity_count(&self) -> (n: usize)
        requires
            self.wf(),
        ensures
            n == self.world().dom().len(),
    {
        self.ecs_world.entity_count()
    }
}

} // verus!

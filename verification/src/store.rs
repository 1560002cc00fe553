//! Trusted boundary around the `hecs` entity store.
//!
//! The store is modelled as a map from the bits of an entity handle to the
//! components that the entity holds. Nothing here is proved: each function
//! states what the `hecs` method that it calls does to that map.

use vstd::prelude::*;
use crate::ecs::{Components, Npc, PhysicsBody, Player};
use crate::types::{Obstacle, PlayerInput, Projectile, Tank, Transform};

verus! {

/// `hecs::World`, the entity store, carried as a value that cannot be looked into.
#[verifier::external_type_specification]
#[verifier::external_body]
pub struct ExWorld(hecs::World);

/// The live entities of a store with their components, by the bits of their handle.
pub uninterp spec fn store_model(w: hecs::World) -> Map<u64, Components>;

/// `hecs::World::new`: a store without entities.
#[verifier::external_body]
pub(crate) fn store_new() -> (w: hecs::World)
    ensures
        store_model(w).dom() == Set::<u64>::empty(),
{
    hecs::World::new()
}

/// `hecs::World::len`: the number of live entities.
#[verifier::external_body]
pub(crate) fn store_len(w: &hecs::World) -> (n: u32)
    requires
        store_model(*w).dom().finite(),
    ensures
        n == store_model(*w).dom().len(),
{
    w.len()
}

/// `hecs::World::spawn` with the empty bundle: a new live entity without
/// components, under a handle that no live entity has. The call fails only
/// where the store is full, which `requires` leaves out.
#[verifier::external_body]
pub(crate) fn store_spawn(w: &mut hecs::World) -> (e: u64)
    requires
        store_model(*old(w)).dom().finite(),
        store_model(*old(w)).dom().len() < u32::MAX,
    ensures
        !store_model(*old(w)).contains_key(e),
        store_model(*final(w)) == store_model(*old(w)).insert(e, Components::none()),
{
    w.spawn(()).to_bits().get()
}

/// `hecs::World::insert` with a transform, a tank, a player and a body: a live
/// entity gets these four components, in place of those it had of these types,
/// and keeps its others; for any other handle nothing changes.
#[verifier::external_body]
pub(crate) fn store_insert_player_tank(
    w: &mut hecs::World,
    e: u64,
    transform: Transform,
    tank: Tank,
    player: Player,
    body: PhysicsBody,
) -> (ok: bool)
    ensures
        ok == store_model(*old(w)).contains_key(e),
        ok ==> store_model(*final(w)) == store_model(*old(w)).insert(
            e,
            Components {
                transform: Some(transform),
                tank: Some(tank),
                player: Some(player),
                body: Some(body),
                ..store_model(*old(w))[e]
            },
        ),
        !ok ==> store_model(*final(w)) == store_model(*old(w)),
{
    match hecs::Entity::from_bits(e) {
        Some(entity) => w.insert(entity, (transform, tank, player, body)).is_ok(),
        None => false,
    }
}

/// `hecs::World::insert` with a transform, a tank and a player: a live entity
/// gets these three components, in place of those it had of these types, and
/// keeps its others; for any other handle nothing changes.
#[verifier::external_body]
pub(crate) fn store_insert_driver(
    w: &mut hecs::World,
    e: u64,
    transform: Transform,
    tank: Tank,
    player: Player,
) -> (ok: bool)
    ensures
        ok == store_model(*old(w)).contains_key(e),
        ok ==> store_model(*final(w)) == store_model(*old(w)).insert(
            e,
            Components {
                transform: Some(transform),
                tank: Some(tank),
                player: Some(player),
                ..store_model(*old(w))[e]
            },
        ),
        !ok ==> store_model(*final(w)) == store_model(*old(w)),
{
    match hecs::Entity::from_bits(e) {
        Some(entity) => w.insert(entity, (transform, tank, player)).is_ok(),
        None => false,
    }
}

/// `hecs::World::insert_one` with a body: a live entity gets the body, in
/// place of one it had, and keeps its other components; for any other handle
/// nothing changes.
#[verifier::external_body]
pub(crate) fn store_insert_body(w: &mut hecs::World, e: u64, body: PhysicsBody) -> (ok: bool)
    ensures
        ok == store_model(*old(w)).contains_key(e),
        ok ==> store_model(*final(w)) == store_model(*old(w)).insert(
            e,
            Components { body: Some(body), ..store_model(*old(w))[e] },
        ),
        !ok ==> store_model(*final(w)) == store_model(*old(w)),
{
    match hecs::Entity::from_bits(e) {
        Some(entity) => w.insert_one(entity, body).is_ok(),
        None => false,
    }
}

/// `hecs::World::insert` with a transform, a tank, an NPC record and a body.
#[verifier::external_body]
pub(crate) fn store_insert_npc_tank(
    w: &mut hecs::World,
    e: u64,
    transform: Transform,
    tank: Tank,
    npc: Npc,
    body: PhysicsBody,
) -> (ok: bool)
    ensures
        ok == store_model(*old(w)).contains_key(e),
        ok ==> store_model(*final(w)) == store_model(*old(w)).insert(
            e,
            Components {
                transform: Some(transform),
                tank: Some(tank),
                npc: Some(npc),
                body: Some(body),
                ..store_model(*old(w))[e]
            },
        ),
        !ok ==> store_model(*final(w)) == store_model(*old(w)),
{
    match hecs::Entity::from_bits(e) {
        Some(entity) => w.insert(entity, (transform, tank, npc, body)).is_ok(),
        None => false,
    }
}

/// `hecs::World::insert` with a transform, a projectile and a body.
#[verifier::external_body]
pub(crate) fn store_insert_projectile(
    w: &mut hecs::World,
    e: u64,
    transform: Transform,
    projectile: Projectile,
    body: PhysicsBody,
) -> (ok: bool)
    ensures
        ok == store_model(*old(w)).contains_key(e),
        ok ==> store_model(*final(w)) == store_model(*old(w)).insert(
            e,
            Components {
                transform: Some(transform),
                projectile: Some(projectile),
                body: Some(body),
                ..store_model(*old(w))[e]
            },
        ),
        !ok ==> store_model(*final(w)) == store_model(*old(w)),
{
    match hecs::Entity::from_bits(e) {
        Some(entity) => w.insert(entity, (transform, projectile, body)).is_ok(),
        None => false,
    }
}

/// `hecs::World::insert` with a transform, an obstacle and a body.
#[verifier::external_body]
pub(crate) fn store_insert_obstacle(
    w: &mut hecs::World,
    e: u64,
    transform: Transform,
    obstacle: Obstacle,
    body: PhysicsBody,
) -> (ok: bool)
    ensures
        ok == store_model(*old(w)).contains_key(e),
        ok ==> store_model(*final(w)) == store_model(*old(w)).insert(
            e,
            Components {
                transform: Some(transform),
                obstacle: Some(obstacle),
                body: Some(body),
                ..store_model(*old(w))[e]
            },
        ),
        !ok ==> store_model(*final(w)) == store_model(*old(w)),
{
    match hecs::Entity::from_bits(e) {
        Some(entity) => w.insert(entity, (transform, obstacle, body)).is_ok(),
        None => false,
    }
}

/// `hecs::World::despawn`: a live entity leaves the store with all its
/// components; for any other handle nothing changes.
#[verifier::external_body]
pub(crate) fn store_despawn(w: &mut hecs::World, e: u64) -> (ok: bool)
    ensures
        ok == store_model(*old(w)).contains_key(e),
        store_model(*final(w)) == store_model(*old(w)).remove(e),
{
    match hecs::Entity::from_bits(e) {
        Some(entity) => w.despawn(entity).is_ok(),
        None => false,
    }
}

/// `hecs::World::iter`: the handle of every live entity, each once, in the
/// order in which the store holds them, of which nothing is promised.
#[verifier::external_body]
pub(crate) fn store_entities(w: &hecs::World) -> (ids: Vec<u64>)
    ensures
        ids@.no_duplicates(),
        forall|e: u64| ids@.contains(e) <==> store_model(*w).contains_key(e),
{
    w.iter().map(|entity| entity.entity().to_bits().get()).collect()
}

/// `hecs::World::entity` and `hecs::EntityRef::get` for each component type:
/// a copy of what a live entity holds.
#[verifier::external_body]
pub(crate) fn store_get(w: &hecs::World, e: u64) -> (c: Option<Components>)
    ensures
        store_model(*w).contains_key(e) ==> c == Some(store_model(*w)[e]),
        !store_model(*w).contains_key(e) ==> c is None,
{
    let r = w.entity(hecs::Entity::from_bits(e)?).ok()?;
    Some(Components {
        transform: r.get::<&Transform>().map(|c| *c),
        tank: r.get::<&Tank>().map(|c| *c),
        player: r.get::<&Player>().map(|c| (*c).clone()),
        npc: r.get::<&Npc>().map(|c| *c),
        projectile: r.get::<&Projectile>().map(|c| *c),
        obstacle: r.get::<&Obstacle>().map(|c| *c),
        body: r.get::<&PhysicsBody>().map(|c| *c),
    })
}

/// `hecs::World::get` of the transform, by unique reference: the transform of
/// a live entity that has one is replaced; otherwise nothing changes.
#[verifier::external_body]
pub(crate) fn store_set_transform(w: &mut hecs::World, e: u64, transform: Transform) -> (ok: bool)
    ensures
        ok == (store_model(*old(w)).contains_key(e) && store_model(*old(w))[e].transform is Some),
        ok ==> store_model(*final(w)) == store_model(*old(w)).insert(
            e,
            Components { transform: Some(transform), ..store_model(*old(w))[e] },
        ),
        !ok ==> store_model(*final(w)) == store_model(*old(w)),
{
    match hecs::Entity::from_bits(e).map(|entity| w.get::<&mut Transform>(entity)) {
        Some(Ok(mut slot)) => {
            *slot = transform;
            true
        },
        _ => false,
    }
}

/// `hecs::World::get` of the player record, by unique reference: the input of
/// a live entity that has a player record is replaced; otherwise nothing changes.
#[verifier::external_body]
pub(crate) fn store_set_player_input(w: &mut hecs::World, e: u64, input: PlayerInput) -> (ok: bool)
    ensures
        ok == (store_model(*old(w)).contains_key(e) && store_model(*old(w))[e].player is Some),
        ok ==> store_model(*final(w)) == store_model(*old(w)).insert(
            e,
            Components {
                player: Some(Player { input, ..store_model(*old(w))[e].player->0 }),
                ..store_model(*old(w))[e]
            },
        ),
        !ok ==> store_model(*final(w)) == store_model(*old(w)),
{
    match hecs::Entity::from_bits(e).map(|entity| w.get::<&mut Player>(entity)) {
        Some(Ok(mut slot)) => {
            slot.input = input;
            true
        },
        _ => false,
    }
}

/// `hecs::World::get` of the projectile, by unique reference: the lifetime of
/// a live entity that has a projectile is replaced; otherwise nothing changes.
#[verifier::external_body]
pub(crate) fn store_set_projectile_lifetime(w: &mut hecs::World, e: u64, lifetime: u64) -> (ok:
    bool)
    ensures
        ok == (store_model(*old(w)).contains_key(e) && store_model(*old(w))[e].projectile is Some),
        ok ==> store_model(*final(w)) == store_model(*old(w)).insert(
            e,
            Components {
                projectile: Some(Projectile { lifetime, ..store_model(*old(w))[e].projectile->0 }),
                ..store_model(*old(w))[e]
            },
        ),
        !ok ==> store_model(*final(w)) == store_model(*old(w)),
{
    match hecs::Entity::from_bits(e).map(|entity| w.get::<&mut Projectile>(entity)) {
        Some(Ok(mut slot)) => {
            slot.lifetime = lifetime;
            true
        },
        _ => false,
    }
}

/// `hecs::World::get` of the NPC record, by unique reference: the record of a
/// live entity that has one is replaced; otherwise nothing changes.
#[verifier::external_body]
pub(crate) fn store_set_npc(w: &mut hecs::World, e: u64, npc: Npc) -> (ok: bool)
    ensures
        ok == (store_model(*old(w)).contains_key(e) && store_model(*old(w))[e].npc is Some),
        ok ==> store_model(*final(w)) == store_model(*old(w)).insert(
            e,
            Components { npc: Some(npc), ..store_model(*old(w))[e] },
        ),
        !ok ==> store_model(*final(w)) == store_model(*old(w)),
{
    match hecs::Entity::from_bits(e).map(|entity| w.get::<&mut Npc>(entity)) {
        Some(Ok(mut slot)) => {
            *slot = npc;
            true
        },
        _ => false,
    }
}

/// `hecs::World::get` of the tank, by unique reference: the health of a
/// live entity that has a tank is replaced; otherwise nothing changes.
#[verifier::external_body]
pub(crate) fn store_set_tank_health(w: &mut hecs::World, e: u64, health: u32) -> (ok: bool)
    ensures
        ok == (store_model(*old(w)).contains_key(e) && store_model(*old(w))[e].tank is Some),
        ok ==> store_model(*final(w)) == store_model(*old(w)).insert(
            e,
            Components {
                tank: Some(Tank { health, ..store_model(*old(w))[e].tank->0 }),
                ..store_model(*old(w))[e]
            },
        ),
        !ok ==> store_model(*final(w)) == store_model(*old(w)),
{
    match hecs::Entity::from_bits(e).map(|entity| w.get::<&mut Tank>(entity)) {
        Some(Ok(mut slot)) => {
            slot.health = health;
            true
        },
        _ => false,
    }
}

} // verus!

//! Things that happen during play and are reported to every client.

use vstd::prelude::*;
use crate::types::{EntityId, PlayerId, Team, Transform, Vector3};

verus! {

/// One gameplay event.
#[derive(Debug)]
#[allow(inconsistent_fields)]
pub enum GameEvent {
    PlayerJoined { player_id: PlayerId, name: String, team: Team },
    PlayerLeft { player_id: PlayerId },
    TankDestroyed { tank_id: EntityId, killer_id: Option<PlayerId>, position: Transform },
    ProjectileHit {
        projectile_id: EntityId,
        target_id: Option<EntityId>,
        position: Transform,
        damage: u32,
    },
    PlayerKill { killer_id: PlayerId, victim_id: PlayerId },
    RoundStarted { round_duration: u64 },
    RoundEnded { winner: Option<PlayerId>, scores: Vec<(PlayerId, u32)> },
    ChatMessage { player_id: PlayerId, message: String, timestamp: u64 },
}

/// What a `GameEvent` says, with its texts and lists as sequences.
#[allow(inconsistent_fields)]
pub enum GameEventView {
    PlayerJoined { player_id: PlayerId, name: Seq<char>, team: Team },
    PlayerLeft { player_id: PlayerId },
    TankDestroyed { tank_id: EntityId, killer_id: Option<PlayerId>, position: Transform },
    ProjectileHit {
        projectile_id: EntityId,
        target_id: Option<EntityId>,
        position: Transform,
        damage: u32,
    },
    PlayerKill { killer_id: PlayerId, victim_id: PlayerId },
    RoundStarted { round_duration: u64 },
    RoundEnded { winner: Option<PlayerId>, scores: Seq<(PlayerId, u32)> },
    ChatMessage { player_id: PlayerId, message: Seq<char>, timestamp: u64 },
}

impl View for GameEvent {
    type V = GameEventView;

    open spec fn view(&self) -> GameEventView {
        match *self {
            GameEvent::PlayerJoined { player_id, name, team } => GameEventView::PlayerJoined {
                player_id,
                name: name@,
                team,
            },
            GameEvent::PlayerLeft { player_id } => GameEventView::PlayerLeft { player_id },
            GameEvent::TankDestroyed {
                tank_id,
                killer_id,
                position,
            } => GameEventView::TankDestroyed { tank_id, killer_id, position },
            GameEvent::ProjectileHit {
                projectile_id,
                target_id,
                position,
                damage,
            } => GameEventView::ProjectileHit { projectile_id, target_id, position, damage },
            GameEvent::PlayerKill { killer_id, victim_id } => GameEventView::PlayerKill {
                killer_id,
                victim_id,
            },
            GameEvent::RoundStarted { round_duration } => GameEventView::RoundStarted {
                round_duration,
            },
            GameEvent::RoundEnded { winner, scores } => GameEventView::RoundEnded {
                winner,
                scores: scores@,
            },
            GameEvent::ChatMessage { player_id, message, timestamp } => GameEventView::ChatMessage {
                player_id,
                message: message@,
                timestamp,
            },
        }
    }
}

impl Clone for GameEvent {
    fn clone(&self) -> (r: GameEvent)
        ensures
            r@ == self@,
    {
        match self {
            GameEvent::PlayerJoined { player_id, name, team } => GameEvent::PlayerJoined {
                player_id: *player_id,
                name: name.clone(),
                team: *team,
            },
            GameEvent::PlayerLeft { player_id } => GameEvent::PlayerLeft { player_id: *player_id },
            GameEvent::TankDestroyed { tank_id, killer_id, position } => GameEvent::TankDestroyed {
                tank_id: *tank_id,
                killer_id: *killer_id,
                position: *position,
            },
            GameEvent::ProjectileHit {
                projectile_id,
                target_id,
                position,
                damage,
            } => GameEvent::ProjectileHit {
                projectile_id: *projectile_id,
                target_id: *target_id,
                position: *position,
                damage: *damage,
            },
            GameEvent::PlayerKill { killer_id, victim_id } => GameEvent::PlayerKill {
                killer_id: *killer_id,
                victim_id: *victim_id,
            },
            GameEvent::RoundStarted { round_duration } => GameEvent::RoundStarted {
                round_duration: *round_duration,
            },
            GameEvent::RoundEnded { winner, scores } => {
                GameEvent::RoundEnded { winner: *winner, scores: copy_scores(scores) }
            },
            GameEvent::ChatMessage { player_id, message, timestamp } => GameEvent::ChatMessage {
                player_id: *player_id,
                message: message.clone(),
                timestamp: *timestamp,
            },
        }
    }
}

fn copy_scores(scores: &Vec<(PlayerId, u32)>) -> (r: Vec<(PlayerId, u32)>)
    ensures
        r@ == scores@,
{
    let mut r: Vec<(PlayerId, u32)> = Vec::new();
    let mut i: usize = 0;
    while i < scores.len()
        invariant
            i <= scores.len(),
            r@ == scores@.take(i as int),
        decreases scores.len() - i,
    {
        r.push((scores[i].0, scores[i].1));
        assert(r@ =~= scores@.take(i + 1));
        i += 1;
    }
    assert(r@ =~= scores@);
    r
}

/// What an entity is, for a client that draws it.
#[derive(Debug, Clone, Copy, PartialEq, Eq, Structural)]
#[allow(inconsistent_fields)]
pub enum EntityType {
    Tank { health: u32, max_health: u32, team: Team, turret_angle: i32, player_id: Option<PlayerId> },
    Projectile { velocity: Vector3, owner: PlayerId },
    Obstacle,
}

/// One entity as a client is told of it.
#[derive(Debug, Clone, Copy, PartialEq, Eq, Structural)]
pub struct EntityState {
    pub id: EntityId,
    pub transform: Transform,
    pub entity_type: EntityType,
}

/// The state of the match as a client is told of it: the tick, the tanks
/// and the projectiles, and the recent events.
#[derive(Debug)]
pub struct StateMessage {
    pub tick: u64,
    pub entities: Vec<EntityState>,
    pub events: Vec<GameEvent>,
}

/// The views of a list of events, in order.
pub open spec fn event_views(events: Seq<GameEvent>) -> Seq<GameEventView> {
    events.map_values(|e: GameEvent| e@)
}

/// Copies a list of events.
pub fn clone_events(events: &Vec<GameEvent>) -> (r: Vec<GameEvent>)
    ensures
        event_views(r@) == event_views(events@),
{
    let r = events.clone();
    assert(event_views(r@) =~= event_views(events@));
    r
}

} // verus!

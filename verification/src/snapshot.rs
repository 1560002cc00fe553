//! Turning the state of the match into a snapshot for the synchronizer.

use vstd::prelude::*;
use crate::ecs::Components;
use crate::game_state::GameState;
use crate::ids::{player_id_string, player_id_text};
use crate::proto::{
    ActivePowerUp, PlayerScore, PlayerScoreView, ProjectileState, ProjectileStateView, TankState,
    TankStateView, TeamColor,
};
use crate::state_sync::{GameStateSnapshot, GameStateSnapshotView};
use crate::types::{EntityId, PlayerId, Team};

verus! {

/// The number that stands for a team in a message.
pub open spec fn team_code(team: Team) -> i32 {
    match team {
        Team::Red => 0,
        Team::Blue => 1,
        Team::Neutral => 2,
    }
}

fn team_color(team: Team) -> (c: TeamColor)
    ensures
        c.spec_code() == team_code(team),
{
    match team {
        Team::Red => TeamColor::TeamRed,
        Team::Blue => TeamColor::TeamBlue,
        Team::Neutral => TeamColor::TeamNeutral,
    }
}

/// How a snapshot shows a tank: its number, the identifier and the name of
/// its player (both empty for a tank without one), where it is and how it
/// faces, the angle of its turret, its health and its team. It carries no
/// power-up and can be hurt.
pub open spec fn tank_state_of(id: EntityId, c: Components) -> TankStateView {
    TankStateView {
        entity_id: id,
        player_id: match c.player {
            Some(p) => player_id_string(p.player_id),
            None => Seq::empty(),
        },
        display_name: match c.player {
            Some(p) => p.name@,
            None => Seq::empty(),
        },
        position: Some(c.transform->0.position),
        body_rotation: c.transform->0.rotation,
        turret_rotation: c.tank->0.turret_angle,
        health: c.tank->0.health,
        max_health: c.tank->0.max_health,
        team: team_code(c.tank->0.team),
        active_powerups: Seq::<ActivePowerUp>::empty(),
        is_invulnerable: false,
        invulnerability_remaining: 0,
    }
}

/// How a snapshot shows a projectile: its number, the identifier of its
/// owner, where it is, its velocity and damage, and the flight that is left
/// to it. Projectiles are shown as neutral.
pub open spec fn projectile_state_of(id: EntityId, c: Components) -> ProjectileStateView {
    let p = c.projectile->0;
    ProjectileStateView {
        entity_id: id,
        owner_id: player_id_string(p.owner),
        position: Some(c.transform->0.position),
        velocity: Some(p.velocity),
        damage: p.damage,
        team: team_code(Team::Neutral),
        lifetime_remaining: if p.max_lifetime >= p.lifetime {
            (p.max_lifetime - p.lifetime) as u64
        } else {
            0
        },
    }
}

/// How a snapshot shows the score of a player.
pub open spec fn score_line_of(player_id: PlayerId, score: crate::types::PlayerScore) -> PlayerScoreView {
    PlayerScoreView {
        player_id: player_id_string(player_id),
        kills: score.kills,
        deaths: score.deaths,
        npc_kills: score.npc_kills,
    }
}

/// Whether `view` shows a tank of `world`.
pub open spec fn shows_tank(world: Map<EntityId, Components>, view: TankStateView) -> bool {
    world.contains_key(view.entity_id) && world[view.entity_id].is_tank() && view == tank_state_of(
        view.entity_id,
        world[view.entity_id],
    )
}

/// Whether `view` shows a projectile of `world`.
pub open spec fn shows_projectile(
    world: Map<EntityId, Components>,
    view: ProjectileStateView,
) -> bool {
    world.contains_key(view.entity_id) && world[view.entity_id].is_projectile() && view
        == projectile_state_of(view.entity_id, world[view.entity_id])
}

/// Whether one of `list` is of the entity `id`.
pub open spec fn tank_listed(list: Seq<TankStateView>, id: EntityId) -> bool {
    exists|k: int| 0 <= k < list.len() && (#[trigger] list[k]).entity_id == id
}

/// Whether one of `list` is of the entity `id`.
pub open spec fn projectile_listed(list: Seq<ProjectileStateView>, id: EntityId) -> bool {
    exists|k: int| 0 <= k < list.len() && (#[trigger] list[k]).entity_id == id
}

/// Whether `line` is the score of a player that drives a tank of `world`.
pub open spec fn shows_score(
    world: Map<EntityId, Components>,
    scores: Map<PlayerId, crate::types::PlayerScore>,
    line: PlayerScoreView,
) -> bool {
    exists|id: EntityId|
        world.contains_key(id) && (#[trigger] world[id]).is_player_tank() && scores.contains_key(
            world[id].player->0.player_id,
        ) && line == score_line_of(
            world[id].player->0.player_id,
            scores[world[id].player->0.player_id],
        )
}

/// Whether one of `list` is the line `line`.
pub open spec fn score_listed(list: Seq<PlayerScoreView>, line: PlayerScoreView) -> bool {
    exists|k: int| 0 <= k < list.len() && #[trigger] list[k] == line
}

/// Whether `list` holds the score line of the player of the entity `c`, where
/// that is a tank whose player has a score.
pub open spec fn score_covered(
    list: Seq<PlayerScoreView>,
    scores: Map<PlayerId, crate::types::PlayerScore>,
    c: Components,
) -> bool {
    c.is_player_tank() && scores.contains_key(c.player->0.player_id) ==> score_listed(
        list,
        score_line_of(c.player->0.player_id, scores[c.player->0.player_id]),
    )
}

/// What a snapshot of a match holds: the tick, the time left in the round,
/// every tank and every projectile of the world once, the recent events, and
/// a score line for each tank whose player has a score.
pub open spec fn snapshot_of(state: GameState, view: GameStateSnapshotView) -> bool {
    &&& view.tick == state.ticks()
    &&& view.round_time_remaining == if state.settings().game.round_duration
        >= state.round_time() {
        (state.settings().game.round_duration - state.round_time()) as u64
    } else {
        0
    }
    &&& view.events == state.event_log()
    &&& view.power_ups.len() == 0
    &&& forall|k: int| 0 <= k < view.tanks.len() ==> shows_tank(state.world(), #[trigger] view.tanks[k])
    &&& forall|id: EntityId|
        state.world().contains_key(id) && (#[trigger] state.world()[id]).is_tank() ==> tank_listed(
            view.tanks,
            id,
        )
    &&& forall|k: int, l: int|
        0 <= k < l < view.tanks.len() ==> (#[trigger] view.tanks[k]).entity_id != (
        #[trigger] view.tanks[l]).entity_id
    &&& forall|k: int|
        0 <= k < view.projectiles.len() ==> shows_projectile(
            state.world(),
            #[trigger] view.projectiles[k],
        )
    &&& forall|id: EntityId|
        state.world().contains_key(id) && (#[trigger] state.world()[id]).is_projectile()
            ==> projectile_listed(view.projectiles, id)
    &&& forall|k: int, l: int|
        0 <= k < l < view.projectiles.len() ==> (#[trigger] view.projectiles[k]).entity_id != (
        #[trigger] view.projectiles[l]).entity_id
    &&& forall|k: int|
        0 <= k < view.scores.len() ==> shows_score(
            state.world(),
            state.scores(),
            #[trigger] view.scores[k],
        )
    &&& forall|id: EntityId|
        state.world().contains_key(id) ==> score_covered(
            view.scores,
            state.scores(),
            #[trigger] state.world()[id],
        )
    &&& forall|k: int|
        0 <= k < view.tanks.len() ==> (#[trigger] view.tanks[k]).health <= view.tanks[k].max_health
}

/// Takes a snapshot of the match.
pub fn take_snapshot(state: &GameState) -> (snapshot: GameStateSnapshot)
    requires
        state.wf(),
    ensures
        snapshot_of(*state, snapshot@),
{
    let mut snapshot = GameStateSnapshot::new(state.tick());
    let round_duration = state.config().game.round_duration;
    let round_time = state.round_timer();
    snapshot.round_time_remaining = if round_duration >= round_time {
        round_duration - round_time
    } else {
        0
    };
    snapshot.events = state.recent_events();
    let world = state.ecs();
    let all = world.entities();
    let mut tanks: Vec<TankState> = Vec::new();
    let mut projectiles: Vec<ProjectileState> = Vec::new();
    let mut scores: Vec<PlayerScore> = Vec::new();
    let ghost w = state.world();
    let mut i: usize = 0;
    while i < all.len()
        invariant
            i <= all.len(),
            state.wf(),
            w == state.world(),
            forall|k: int|
                0 <= k < all.len() ==> w.contains_key((#[trigger] all[k]).0) && w[all[k].0]
                    == all[k].1,
            forall|k: int, l: int|
                0 <= k < l < all.len() ==> (#[trigger] all[k]).0 != (#[trigger] all[l]).0,
            forall|k: int|
                0 <= k < tanks.len() ==> shows_tank(w, (#[trigger] tanks[k])@) && listed_before(
                    all@,
                    i as int,
                    tanks[k].entity_id,
                ) && tanks[k].health <= tanks[k].max_health,
            forall|j: int|
                0 <= j < i && (#[trigger] all[j]).1.is_tank() ==> tank_listed(
                    crate::proto::tank_views(tanks@),
                    all[j].0,
                ),
            forall|k: int, l: int|
                0 <= k < l < tanks.len() ==> (#[trigger] tanks[k]).entity_id != (
                #[trigger] tanks[l]).entity_id,
            forall|k: int|
                0 <= k < projectiles.len() ==> shows_projectile(w, (#[trigger] projectiles[k])@)
                    && listed_before(all@, i as int, projectiles[k].entity_id),
            forall|j: int|
                0 <= j < i && (#[trigger] all[j]).1.is_projectile() ==> projectile_listed(
                    crate::proto::projectile_views(projectiles@),
                    all[j].0,
                ),
            forall|k: int, l: int|
                0 <= k < l < projectiles.len() ==> (#[trigger] projectiles[k]).entity_id != (
                #[trigger] projectiles[l]).entity_id,
            forall|k: int|
                0 <= k < scores.len() ==> shows_score(w, state.scores(), (#[trigger] scores[k])@),
            forall|j: int|
                0 <= j < i ==> score_covered(
                    crate::proto::score_views(scores@),
                    state.scores(),
                    (#[trigger] all[j]).1,
                ),
        decreases all.len() - i,
    {
        let id = all[i].0;
        let c = &all[i].1;
        let ghost tanks_before = tanks@;
        let ghost projectiles_before = projectiles@;
        let ghost scores_before = crate::proto::score_views(scores@);
        assert(w[id] == *c);
        match (&c.transform, &c.tank) {
            (Some(transform), Some(tank)) => {
                let (player_id, display_name) = match &c.player {
                    Some(p) => (player_id_text(p.player_id), p.name.clone()),
                    None => (String::new(), String::new()),
                };
                proof {
                    state.lemma_health_invariant(id);
                    assert forall|k: int| 0 <= k < tanks.len() implies (#[trigger] tanks[k]).entity_id
                        != id by {
                        let j = choose|j: int|
                            0 <= j < i && (#[trigger] all[j]).0 == tanks[k].entity_id;
                    }
                }
                let entry = TankState {
                    entity_id: id,
                    player_id,
                    display_name,
                    position: Some(transform.position),
                    body_rotation: transform.rotation,
                    turret_rotation: tank.turret_angle,
                    health: tank.health,
                    max_health: tank.max_health,
                    team: team_color(tank.team).code(),
                    active_powerups: Vec::new(),
                    is_invulnerable: false,
                    invulnerability_remaining: 0,
                };
                assert(entry@.active_powerups =~= Seq::<ActivePowerUp>::empty());
                assert(entry@ == tank_state_of(id, *c));
                tanks.push(entry);
                assert(tanks[tanks.len() - 1].entity_id == all[i as int].0);
            },
            _ => {},
        }
        match (&c.transform, &c.projectile) {
            (Some(transform), Some(projectile)) => {
                proof {
                    assert forall|k: int|
                        0 <= k < projectiles.len() implies (#[trigger] projectiles[k]).entity_id
                        != id by {
                        let j = choose|j: int|
                            0 <= j < i && (#[trigger] all[j]).0 == projectiles[k].entity_id;
                    }
                }
                let entry = ProjectileState {
                    entity_id: id,
                    owner_id: player_id_text(projectile.owner),
                    position: Some(transform.position),
                    velocity: Some(projectile.velocity),
                    damage: projectile.damage,
                    team: team_color(Team::Neutral).code(),
                    lifetime_remaining: if projectile.max_lifetime >= projectile.lifetime {
                        projectile.max_lifetime - projectile.lifetime
                    } else {
                        0
                    },
                };
                assert(entry@ == projectile_state_of(id, *c));
                projectiles.push(entry);
                assert(projectiles[projectiles.len() - 1].entity_id == all[i as int].0);
            },
            _ => {},
        }
        match (&c.transform, &c.tank, &c.player) {
            (Some(_), Some(_), Some(player)) => {
                match state.score_of(player.player_id) {
                    Some(score) => {
                        let line = PlayerScore {
                            player_id: player_id_text(player.player_id),
                            kills: score.kills,
                            deaths: score.deaths,
                            npc_kills: score.npc_kills,
                        };
                        assert(w[id].is_player_tank());
                        assert(line@ == score_line_of(player.player_id, score));
                        assert(shows_score(w, state.scores(), line@));
                        scores.push(line);
                    },
                    None => {},
                }
            },
            _ => {},
        }
        proof {
            let lines = crate::proto::score_views(scores@);
            assert forall|j: int| 0 <= j < i + 1 implies score_covered(
                lines,
                state.scores(),
                (#[trigger] all[j]).1,
            ) by {
                let cj = all[j].1;
                if cj.is_player_tank() && state.scores().contains_key(cj.player->0.player_id) {
                    let line = score_line_of(
                        cj.player->0.player_id,
                        state.scores()[cj.player->0.player_id],
                    );
                    if j < i {
                        assert(score_covered(scores_before, state.scores(), all[j].1));
                        let k = choose|k: int|
                            0 <= k < scores_before.len() && #[trigger] scores_before[k] == line;
                        assert(lines[k] == line);
                    } else {
                        assert(lines[lines.len() - 1] == line);
                    }
                }
            }
            assert forall|k: int| 0 <= k < tanks.len() implies listed_before(
                all@,
                i + 1,
                (#[trigger] tanks[k]).entity_id,
            ) by {
                if k < tanks_before.len() {
                    let j = choose|j: int| 0 <= j < i && (#[trigger] all[j]).0 == tanks[k].entity_id;
                    assert(all[j].0 == tanks[k].entity_id);
                } else {
                    assert(all[i as int].0 == tanks[k].entity_id);
                }
            }
            assert forall|k: int| 0 <= k < projectiles.len() implies listed_before(
                all@,
                i + 1,
                (#[trigger] projectiles[k]).entity_id,
            ) by {
                if k < projectiles_before.len() {
                    let j = choose|j: int|
                        0 <= j < i && (#[trigger] all[j]).0 == projectiles[k].entity_id;
                    assert(all[j].0 == projectiles[k].entity_id);
                } else {
                    assert(all[i as int].0 == projectiles[k].entity_id);
                }
            }
            let tv = crate::proto::tank_views(tanks@);
            let pv = crate::proto::projectile_views(projectiles@);
            assert forall|j: int| 0 <= j < i + 1 && (#[trigger] all[j]).1.is_tank() implies tank_listed(
                tv,
                all[j].0,
            ) by {
                if j < i {
                    let before = crate::proto::tank_views(tanks_before);
                    assert(tank_listed(before, all[j].0));
                    let k = choose|k: int|
                        0 <= k < before.len() && (#[trigger] before[k]).entity_id == all[j].0;
                    assert(tv[k].entity_id == all[j].0);
                } else {
                    assert(tv[tv.len() - 1].entity_id == all[j].0);
                }
            }
            assert forall|j: int|
                0 <= j < i + 1 && (#[trigger] all[j]).1.is_projectile() implies projectile_listed(
                pv,
                all[j].0,
            ) by {
                if j < i {
                    let before = crate::proto::projectile_views(projectiles_before);
                    assert(projectile_listed(before, all[j].0));
                    let k = choose|k: int|
                        0 <= k < before.len() && (#[trigger] before[k]).entity_id == all[j].0;
                    assert(pv[k].entity_id == all[j].0);
                } else {
                    assert(pv[pv.len() - 1].entity_id == all[j].0);
                }
            }
        }
        i += 1;
    }
    snapshot.tanks = tanks;
    snapshot.projectiles = projectiles;
    snapshot.scores = scores;
    proof {
        let view = snapshot@;
        assert forall|k: int| 0 <= k < view.tanks.len() implies shows_tank(
            w,
            #[trigger] view.tanks[k],
        ) && view.tanks[k].health <= view.tanks[k].max_health by {
            assert(view.tanks[k] == snapshot.tanks[k]@);
        }
        assert forall|k: int, l: int| 0 <= k < l < view.tanks.len() implies (
        #[trigger] view.tanks[k]).entity_id != (#[trigger] view.tanks[l]).entity_id by {
            assert(view.tanks[k] == snapshot.tanks[k]@);
            assert(view.tanks[l] == snapshot.tanks[l]@);
        }
        assert forall|id: EntityId|
            w.contains_key(id) && (#[trigger] w[id]).is_tank() implies tank_listed(
            view.tanks,
            id,
        ) by {
            let j = choose|j: int| 0 <= j < all.len() && (#[trigger] all[j]).0 == id;
            assert(all[j].1.is_tank());
        }
        assert forall|k: int| 0 <= k < view.projectiles.len() implies shows_projectile(
            w,
            #[trigger] view.projectiles[k],
        ) by {
            assert(view.projectiles[k] == snapshot.projectiles[k]@);
        }
        assert forall|k: int, l: int| 0 <= k < l < view.projectiles.len() implies (
        #[trigger] view.projectiles[k]).entity_id != (
        #[trigger] view.projectiles[l]).entity_id by {
            assert(view.projectiles[k] == snapshot.projectiles[k]@);
            assert(view.projectiles[l] == snapshot.projectiles[l]@);
        }
        assert forall|id: EntityId|
            w.contains_key(id) && (#[trigger] w[id]).is_projectile() implies projectile_listed(
            view.projectiles,
            id,
        ) by {
            let j = choose|j: int| 0 <= j < all.len() && (#[trigger] all[j]).0 == id;
            assert(all[j].1.is_projectile());
        }
        assert forall|k: int| 0 <= k < view.scores.len() implies shows_score(
            w,
            state.scores(),
            #[trigger] view.scores[k],
        ) by {
            assert(view.scores[k] == snapshot.scores[k]@);
        }
        assert forall|id: EntityId| w.contains_key(id) implies score_covered(
            view.scores,
            state.scores(),
            #[trigger] w[id],
        ) by {
            let j = choose|j: int| 0 <= j < all.len() && (#[trigger] all[j]).0 == id;
            assert(score_covered(view.scores, state.scores(), all[j].1));
        }
    }
    snapshot
}

/// Whether one of the first `upto` entries of `all` is the entity `id`.
pub open spec fn listed_before(all: Seq<(EntityId, Components)>, upto: int, id: EntityId) -> bool {
    exists|j: int| 0 <= j < upto && (#[trigger] all[j]).0 == id
}

/// A spent projectile is gone from the next snapshot: an entity that holds
/// a spent projectile after the movement and the flight of a tick is not in
/// the world after the tick, and a snapshot of that world lists neither a
/// projectile nor a tank under its number.
pub proof fn lemma_spent_projectile_leaves(
    before: Map<EntityId, Components>,
    delta_time: u64,
    ai: crate::ai::AiConfig,
    state: GameState,
    view: GameStateSnapshotView,
    id: EntityId,
)
    requires
        crate::game_state::world_after_tick(before, delta_time, ai, state.world()),
        before.contains_key(id),
        crate::game_state::stepped(before[id], delta_time).is_spent(),
        snapshot_of(state, view),
    ensures
        !state.world().contains_key(id),
        !projectile_listed(view.projectiles, id),
        !tank_listed(view.tanks, id),
{
    let w = crate::game_state::stepped_world(before, delta_time);
    assert(w.contains_key(id) && w[id].is_spent());
    if projectile_listed(view.projectiles, id) {
        let k = choose|k: int|
            0 <= k < view.projectiles.len() && (#[trigger] view.projectiles[k]).entity_id == id;
        assert(shows_projectile(state.world(), view.projectiles[k]));
    }
    if tank_listed(view.tanks, id) {
        let k = choose|k: int| 0 <= k < view.tanks.len() && (#[trigger] view.tanks[k]).entity_id == id;
        assert(shows_tank(state.world(), view.tanks[k]));
    }
}

} // verus!

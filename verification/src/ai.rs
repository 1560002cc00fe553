//! The behaviour of tanks that no player drives.

use vstd::prelude::*;
use crate::ecs::{Components, Npc, NpcAiState};
use crate::types::{distance_squared, EntityId, Vector3};

verus! {

/// The distances at which a tank without a player reacts to a player's tank.
#[derive(Debug, Clone, Copy, PartialEq, Eq, Structural)]
pub struct AiConfig {
    /// A target within this distance is attacked.
    pub attack_range: u32,
    /// A target beyond this distance is given up.
    pub search_range: u32,
}

impl Default for AiConfig {
    fn default() -> (c: AiConfig)
        ensures
            c == (AiConfig { attack_range: 30_000, search_range: 60_000 }),
    {
        AiConfig { attack_range: 30_000, search_range: 60_000 }
    }
}

/// The state after a look around. With a target in attack range the tank
/// attacks. With a target beyond it but in search range, a tank that
/// attacked searches, and any other stays as it is. With no target in
/// search range the tank patrols.
pub open spec fn next_ai_state(
    state: NpcAiState,
    target_distance_squared: Option<int>,
    config: AiConfig,
) -> NpcAiState {
    match target_distance_squared {
        Some(d) => if d <= config.attack_range * config.attack_range {
            NpcAiState::Attacking
        } else if d <= config.search_range * config.search_range {
            match state {
                NpcAiState::Patrol => NpcAiState::Patrol,
                _ => NpcAiState::Searching,
            }
        } else {
            NpcAiState::Patrol
        },
        None => NpcAiState::Patrol,
    }
}

/// Computes `next_ai_state`.
pub fn transition(state: NpcAiState, target_distance_squared: Option<u128>, config: &AiConfig) -> (next:
    NpcAiState)
    ensures
        next == next_ai_state(
            state,
            match target_distance_squared {
                Some(d) => Some(d as int),
                None => None,
            },
            *config,
        ),
{
    assert(config.attack_range * config.attack_range <= 0xffff_ffff * 0xffff_ffff)
        by (nonlinear_arith)
        requires
            0 <= config.attack_range <= 0xffff_ffff,
    ;
    assert(config.search_range * config.search_range <= 0xffff_ffff * 0xffff_ffff)
        by (nonlinear_arith)
        requires
            0 <= config.search_range <= 0xffff_ffff,
    ;
    match target_distance_squared {
        Some(d) => {
            let attack: u128 = (config.attack_range as u128) * (config.attack_range as u128);
            let search: u128 = (config.search_range as u128) * (config.search_range as u128);
            if d <= attack {
                NpcAiState::Attacking
            } else if d <= search {
                match state {
                    NpcAiState::Patrol => NpcAiState::Patrol,
                    _ => NpcAiState::Searching,
                }
            } else {
                NpcAiState::Patrol
            }
        },
        None => NpcAiState::Patrol,
    }
}

/// Whether a first candidate is nearer to a point than a second, the lower
/// number deciding between equal distances.
pub open spec fn nearer(origin: Vector3, a: (EntityId, Vector3), b: (EntityId, Vector3)) -> bool {
    distance_squared(origin, a.1) < distance_squared(origin, b.1) || (distance_squared(
        origin,
        a.1,
    ) == distance_squared(origin, b.1) && a.0 <= b.0)
}

/// Whether entry `k` of `candidates` is the nearest to `origin`.
pub open spec fn is_nearest(origin: Vector3, candidates: Seq<(EntityId, Vector3)>, k: int) -> bool {
    0 <= k < candidates.len() && forall|j: int|
        0 <= j < candidates.len() ==> nearer(origin, candidates[k], #[trigger] candidates[j])
}

/// Picks the candidate nearest to `origin`, the lower number deciding
/// between equal distances, with the square of its distance.
pub fn nearest_player(origin: &Vector3, candidates: &Vec<(EntityId, Vector3)>) -> (r: Option<
    (usize, u128),
>)
    ensures
        match r {
            Some((k, d)) => is_nearest(*origin, candidates@, k as int) && d == distance_squared(
                *origin,
                candidates[k as int].1,
            ),
            None => candidates.len() == 0,
        },
{
    if candidates.len() == 0 {
        return None;
    }
    let mut best: usize = 0;
    let mut best_distance: u128 = origin.distance_squared(&candidates[0].1);
    let mut i: usize = 1;
    while i < candidates.len()
        invariant
            1 <= i <= candidates.len(),
            best < i,
            best_distance == distance_squared(*origin, candidates[best as int].1),
            forall|j: int|
                0 <= j < i ==> nearer(*origin, candidates[best as int], #[trigger] candidates[j]),
        decreases candidates.len() - i,
    {
        let d = origin.distance_squared(&candidates[i].1);
        if d < best_distance || (d == best_distance && candidates[i].0 < candidates[best].0) {
            best = i;
            best_distance = d;
        }
        i += 1;
    }
    Some((best, best_distance))
}

/// What a tank without a player makes of the candidates around it: its next
/// state, and as its target the nearest candidate, if there is one.
pub open spec fn thought(
    npc: Npc,
    origin: Vector3,
    candidates: Seq<(EntityId, Vector3)>,
    config: AiConfig,
    next: Npc,
) -> bool {
    if candidates.len() == 0 {
        next == (Npc { ai_state: NpcAiState::Patrol, target: None })
    } else {
        exists|k: int|
            is_nearest(origin, candidates, k) && next == (Npc {
                ai_state: next_ai_state(
                    npc.ai_state,
                    Some(distance_squared(origin, (#[trigger] candidates[k]).1)),
                    config,
                ),
                target: Some(candidates[k].0),
            })
    }
}

/// Lets a tank without a player look around: computes a record that
/// `thought` holds of.
pub fn think(npc: &Npc, origin: &Vector3, candidates: &Vec<(EntityId, Vector3)>, config: &AiConfig) -> (next:
    Npc)
    ensures
        thought(*npc, *origin, candidates@, *config, next),
{
    match nearest_player(origin, candidates) {
        Some((k, d)) => Npc {
            ai_state: transition(npc.ai_state, Some(d), config),
            target: Some(candidates[k].0),
        },
        None => Npc { ai_state: transition(npc.ai_state, None, config), target: None },
    }
}

} // verus!

use battletanks::ai::{nearest_player, think, transition, AiConfig};
use battletanks::ecs::{Npc, NpcAiState};
use battletanks::types::Vector3;

#[test]
fn state_follows_the_distance_to_the_target() {
    let config = AiConfig { attack_range: 10, search_range: 20 };
    for state in [NpcAiState::Patrol, NpcAiState::Attacking, NpcAiState::Searching] {
        assert_eq!(transition(state, Some(100), &config), NpcAiState::Attacking);
        assert_eq!(transition(state, Some(0), &config), NpcAiState::Attacking);
        assert_eq!(transition(state, Some(401), &config), NpcAiState::Patrol);
        assert_eq!(transition(state, None, &config), NpcAiState::Patrol);
    }
    assert_eq!(transition(NpcAiState::Patrol, Some(101), &config), NpcAiState::Patrol);
    assert_eq!(transition(NpcAiState::Attacking, Some(101), &config), NpcAiState::Searching);
    assert_eq!(transition(NpcAiState::Searching, Some(400), &config), NpcAiState::Searching);
    let default = AiConfig::default();
    assert_eq!((default.attack_range, default.search_range), (30_000, 60_000));
}

#[test]
fn nearest_candidate_wins_and_the_lower_number_breaks_ties() {
    let origin = Vector3::new(0, 0, 0);
    assert_eq!(nearest_player(&origin, &vec![]), None);
    let candidates = vec![
        (5, Vector3::new(0, 0, 9)),
        (3, Vector3::new(3, 4, 0)),
        (2, Vector3::new(0, 5, 0)),
        (8, Vector3::new(0, -5, 0)),
    ];
    assert_eq!(nearest_player(&origin, &candidates), Some((2, 25)));
    let npc = Npc { ai_state: NpcAiState::Patrol, target: None };
    let next = think(&npc, &origin, &candidates, &AiConfig { attack_range: 5, search_range: 9 });
    assert_eq!(next, Npc { ai_state: NpcAiState::Attacking, target: Some(2) });
    let next = think(&npc, &origin, &vec![], &AiConfig::default());
    assert_eq!(next, Npc { ai_state: NpcAiState::Patrol, target: None });
}

use battletanks::proto::{
    ActivePowerUp, GameStateUpdate, MessageType, PowerUpState, PowerUpType, ProjectileState,
    TankState, TeamColor,
};
use battletanks::state_sync::{GameStateSnapshot, LagCompensator, StateSynchronizer};
use battletanks::types::Vector3;

fn tank(entity_id: u32, x: i32) -> TankState {
    TankState {
        entity_id,
        player_id: format!("player{}", entity_id),
        display_name: format!("Player {}", entity_id),
        position: Some(Vector3 { x, y: 0, z: 0 }),
        body_rotation: 0,
        turret_rotation: 0,
        health: 100,
        max_health: 100,
        team: TeamColor::TeamRed.code(),
        active_powerups: vec![],
        is_invulnerable: false,
        invulnerability_remaining: 0,
    }
}

fn update_of(message: battletanks::proto::NetworkMessage) -> GameStateUpdate {
    match message.message_type {
        Some(MessageType::GameStateUpdate(update)) => update,
        _ => panic!("Expected GameStateUpdate message"),
    }
}

#[test]
fn test_state_synchronizer_creation() {
    let sync = StateSynchronizer::new();
    assert_eq!(sync.history_len(), 0);
    assert_eq!(sync.last_full_state_tick(), 0);
}

#[test]
fn test_snapshot_storage() {
    let mut sync = StateSynchronizer::new();
    let snapshot = GameStateSnapshot::new(1);

    sync.store_snapshot(snapshot);
    assert_eq!(sync.history_len(), 1);
    assert!(sync.get_snapshot(1).is_some());
}

#[test]
fn test_tank_change_detection() {
    let sync = StateSynchronizer::new();

    let tank1 = TankState {
        entity_id: 1,
        player_id: "player1".to_string(),
        display_name: "Player 1".to_string(),
        position: Some(Vector3 { x: 0, y: 0, z: 0 }),
        body_rotation: 0,
        turret_rotation: 0,
        health: 100,
        max_health: 100,
        team: TeamColor::TeamRed.code(),
        active_powerups: vec![],
        is_invulnerable: false,
        invulnerability_remaining: 0,
    };

    let mut tank2 = tank1.clone();
    tank2.position = Some(Vector3 { x: 1000, y: 0, z: 0 });

    assert!(sync.tank_has_changed(&tank1, &tank2));
    assert!(!sync.tank_has_changed(&tank1, &tank1));
}

#[test]
fn state_sync_test_delta_compression() {
    let mut sync = StateSynchronizer::new();

    let mut snapshot1 = GameStateSnapshot::new(1);
    snapshot1.tanks.push(TankState {
        entity_id: 1,
        player_id: "player1".to_string(),
        display_name: "Player 1".to_string(),
        position: Some(Vector3 { x: 0, y: 0, z: 0 }),
        body_rotation: 0,
        turret_rotation: 0,
        health: 100,
        max_health: 100,
        team: TeamColor::TeamRed.code(),
        active_powerups: vec![],
        is_invulnerable: false,
        invulnerability_remaining: 0,
    });

    sync.store_snapshot(snapshot1.clone());

    let mut snapshot2 = GameStateSnapshot::new(2);
    let mut updated_tank = snapshot1.tanks[0].clone();
    updated_tank.position = Some(Vector3 { x: 1000, y: 0, z: 0 });
    snapshot2.tanks.push(updated_tank);

    let delta_message = sync.create_delta_update(&snapshot2, Some(1));

    if let Some(MessageType::GameStateUpdate(update)) = delta_message.message_type {
        assert_eq!(update.tick, 2);
        assert_eq!(update.tanks.len(), 1);
    } else {
        panic!("Expected GameStateUpdate message");
    }
}

#[test]
fn integration_protobuf_test_delta_compression() {
    let mut synchronizer = StateSynchronizer::new();

    let mut snapshot1 = GameStateSnapshot::new(1);
    snapshot1.tanks.push(tank(1, 0));
    synchronizer.store_snapshot(snapshot1.clone());

    let mut snapshot2 = GameStateSnapshot::new(2);
    let mut moved_tank = snapshot1.tanks[0].clone();
    moved_tank.position = Some(Vector3 { x: 5000, y: 0, z: 0 });
    snapshot2.tanks.push(moved_tank);

    let delta_message = synchronizer.create_delta_update(&snapshot2, Some(1));

    if let Some(MessageType::GameStateUpdate(update)) = delta_message.message_type {
        assert_eq!(update.tick, 2);
        assert!(update.is_delta_update);
        assert_eq!(update.tanks.len(), 1);
        if let Some(position) = &update.tanks[0].position {
            assert_eq!(position.x, 5000);
        }
    } else {
        panic!("Expected GameStateUpdate message");
    }

    synchronizer.set_full_state_interval(1);
    let mut snapshot3 = GameStateSnapshot::new(3);
    snapshot3.tanks.push(snapshot2.tanks[0].clone());

    let full_message = synchronizer.create_delta_update(&snapshot3, Some(2));

    if let Some(MessageType::GameStateUpdate(update)) = full_message.message_type {
        assert!(!update.is_delta_update);
    }
}

#[test]
fn test_lag_compensator() {
    let mut compensator = LagCompensator::new();
    let player_id = 42u128;
    let latency = 50_000;

    compensator.update_player_latency(player_id, latency);
    assert_eq!(compensator.get_player_latency(player_id), Some(latency));

    let compensated_tick = compensator.get_compensated_tick(player_id, 100, 30);
    assert!(compensated_tick < 100);
}

#[test]
fn test_full_state_interval() {
    let mut sync = StateSynchronizer::new();
    sync.set_full_state_interval(2);

    let snapshot1 = GameStateSnapshot::new(1);
    let snapshot2 = GameStateSnapshot::new(2);
    let snapshot3 = GameStateSnapshot::new(3);

    sync.store_snapshot(snapshot1.clone());
    sync.store_snapshot(snapshot2.clone());

    let msg1 = sync.create_delta_update(&snapshot1, None);
    if let Some(MessageType::GameStateUpdate(update)) = msg1.message_type {
        assert!(!update.is_delta_update);
    }

    let msg2 = sync.create_delta_update(&snapshot2, Some(1));
    if let Some(MessageType::GameStateUpdate(update)) = msg2.message_type {
        assert!(update.is_delta_update);
    }

    let msg3 = sync.create_delta_update(&snapshot3, Some(2));
    if let Some(MessageType::GameStateUpdate(update)) = msg3.message_type {
        assert!(!update.is_delta_update);
    }
}

#[test]
fn test_bandwidth_optimization() {
    let mut synchronizer = StateSynchronizer::new();

    let mut large_snapshot = GameStateSnapshot::new(1);
    for i in 0..20 {
        large_snapshot.tanks.push(tank(i, i as i32 * 1000));
    }
    synchronizer.store_snapshot(large_snapshot.clone());

    let full = update_of(synchronizer.create_delta_update(&large_snapshot, None));
    assert!(!full.is_delta_update);
    assert_eq!(full.tanks.len(), 20);

    let mut small_change_snapshot = GameStateSnapshot::new(2);
    for (i, tank) in large_snapshot.tanks.iter().enumerate() {
        let mut new_tank = tank.clone();
        if i == 0 {
            new_tank.position = Some(Vector3 { x: 100, y: 0, z: 0 });
        }
        small_change_snapshot.tanks.push(new_tank);
    }

    let delta = update_of(synchronizer.create_delta_update(&small_change_snapshot, Some(1)));
    assert!(delta.is_delta_update);
    assert!(delta.tanks.len() < full.tanks.len() / 2);
    assert_eq!(delta.tanks.len(), 0);
}

#[test]
fn delta_and_full_update_of_a_moved_tank() {
    let mut sync = StateSynchronizer::new();
    let mut a = GameStateSnapshot::new(1);
    a.tanks.push(tank(1, 2000));
    sync.store_snapshot(a.clone());
    let mut b = GameStateSnapshot::new(2);
    b.round_time_remaining = 9;
    b.tanks.push(tank(1, 3000));

    let delta = update_of(sync.create_delta_update(&b, Some(1)));
    assert!(delta.is_delta_update);
    assert_eq!(delta.tick, 2);
    assert_eq!(delta.round_time_remaining, 9);
    assert_eq!(delta.full_state_tick, 0);
    assert_eq!(delta.tanks.len(), 1);
    assert_eq!(delta.tanks[0].entity_id, 1);
    assert_eq!(delta.tanks[0].position, Some(Vector3 { x: 3000, y: 0, z: 0 }));
    assert_eq!(delta.tanks[0].health, 100);
    assert_eq!(sync.last_full_state_tick(), 0);

    let full = update_of(sync.create_delta_update(&b, None));
    assert!(!full.is_delta_update);
    assert_eq!(full.full_state_tick, 2);
    assert_eq!(full.tanks.len(), 1);
    assert_eq!(full.tanks[0].position, Some(Vector3 { x: 3000, y: 0, z: 0 }));
    assert_eq!(sync.last_full_state_tick(), 2);
}

#[test]
fn full_state_goes_out_every_nth_tick() {
    for interval in [1u64, 2, 3, 7, 30] {
        let mut sync = StateSynchronizer::new();
        sync.set_full_state_interval(interval);
        let first = GameStateSnapshot::new(0);
        sync.store_snapshot(first.clone());
        assert!(!update_of(sync.create_delta_update(&first, None)).is_delta_update);
        for tick in 1..=100u64 {
            let mut snapshot = GameStateSnapshot::new(tick);
            if tick % 2 == 0 {
                snapshot.tanks.push(tank(1, tick as i32 * 1000));
            }
            sync.store_snapshot(snapshot.clone());
            let update = update_of(sync.create_delta_update(&snapshot, Some(tick - 1)));
            assert_eq!(update.is_delta_update, tick % interval != 0, "tick {}", tick);
        }
    }
}

#[test]
fn missing_reference_falls_back_to_full_state() {
    let mut sync = StateSynchronizer::new();
    sync.store_snapshot(GameStateSnapshot::new(5));
    let current = GameStateSnapshot::new(6);
    let update = update_of(sync.create_delta_update(&current, Some(4)));
    assert!(!update.is_delta_update);
    assert_eq!(update.full_state_tick, 6);
    let stale = GameStateSnapshot::new(3);
    let update = update_of(sync.create_delta_update(&stale, Some(5)));
    assert!(!update.is_delta_update);
    assert_eq!(sync.last_full_state_tick(), 3);
}

#[test]
fn history_keeps_a_window_of_ticks() {
    let mut sync = StateSynchronizer::new();
    for tick in 1..=400u64 {
        sync.store_snapshot(GameStateSnapshot::new(tick));
    }
    assert_eq!(sync.history_len(), 300);
    assert!(sync.get_snapshot(100).is_none());
    assert!(sync.get_snapshot(101).is_some());
    assert_eq!(sync.get_latest_snapshot().map(|s| s.tick), Some(400));
    let mut replacement = GameStateSnapshot::new(400);
    replacement.round_time_remaining = 77;
    sync.store_snapshot(replacement);
    assert_eq!(sync.history_len(), 300);
    assert_eq!(sync.get_snapshot(400).map(|s| s.round_time_remaining), Some(77));
    sync.store_snapshot(GameStateSnapshot::new(1000));
    assert_eq!(sync.history_len(), 1);
    assert!(StateSynchronizer::new().get_latest_snapshot().is_none());
}

#[test]
fn tank_delta_lists_changed_new_and_removed() {
    let sync = StateSynchronizer::new();
    let old = vec![tank(1, 0), tank(2, 0), tank(3, 0)];
    let mut hurt = tank(3, 0);
    hurt.health = 60;
    let new = vec![tank(4, 7), hurt, tank(1, 100)];
    let delta = sync.compute_tank_delta(&old, &new);
    let ids: Vec<(u32, u32)> = delta.iter().map(|t| (t.entity_id, t.health)).collect();
    assert_eq!(ids, vec![(4, 100), (3, 60), (2, 0)]);
    assert_eq!(delta[2].position, Some(Vector3 { x: 0, y: 0, z: 0 }));
    assert_eq!(delta[2].max_health, 100);
}

#[test]
fn tank_change_thresholds_are_strict() {
    let mut sync = StateSynchronizer::new();
    let base = tank(1, 0);
    let mut other = tank(1, 0);
    other.position = Some(Vector3 { x: 60, y: 80, z: 0 });
    assert!(!sync.tank_has_changed(&base, &other));
    other.position = Some(Vector3 { x: 60, y: 80, z: 1 });
    assert!(sync.tank_has_changed(&base, &other));
    let mut other = tank(1, 0);
    other.body_rotation = -50;
    assert!(!sync.tank_has_changed(&base, &other));
    other.body_rotation = 51;
    assert!(sync.tank_has_changed(&base, &other));
    let mut other = tank(1, 0);
    other.turret_rotation = -51;
    assert!(sync.tank_has_changed(&base, &other));
    let mut other = tank(1, 0);
    other.is_invulnerable = true;
    assert!(sync.tank_has_changed(&base, &other));
    let mut other = tank(1, 0);
    other.active_powerups.push(ActivePowerUp { power_up_type: 1, time_remaining: 5 });
    assert!(sync.tank_has_changed(&base, &other));
    let mut swapped = tank(1, 0);
    swapped.active_powerups.push(ActivePowerUp { power_up_type: 2, time_remaining: 5 });
    assert!(sync.tank_has_changed(&other, &swapped));
    assert!(sync.tank_has_changed(&swapped, &other));
    let mut later = tank(1, 0);
    later.active_powerups.push(ActivePowerUp { power_up_type: 1, time_remaining: 4 });
    assert!(sync.tank_has_changed(&other, &later));
    let mut same = tank(1, 0);
    same.active_powerups.push(ActivePowerUp { power_up_type: 1, time_remaining: 5 });
    assert!(!sync.tank_has_changed(&other, &same));
    assert!(!sync.tank_has_changed(&other, &other));
    let mut other = tank(1, 0);
    other.position = None;
    other.display_name = "renamed".to_string();
    assert!(!sync.tank_has_changed(&base, &other));
    sync.set_thresholds(0, 0, 0);
    let mut other = tank(1, 0);
    other.position = Some(Vector3 { x: 0, y: 0, z: 1 });
    assert!(sync.tank_has_changed(&base, &other));
}

#[test]
fn projectiles_events_and_scores_go_out_whole_in_a_delta() {
    let mut sync = StateSynchronizer::new();
    let mut a = GameStateSnapshot::new(1);
    let shot = ProjectileState::new(
        9,
        "o".to_string(),
        Vector3::zeros(),
        Vector3::zeros(),
        1,
        TeamColor::TeamBlue,
    );
    a.projectiles.push(shot.clone());
    a.power_ups.push(PowerUpState::new(20, PowerUpType::Health, Vector3::zeros()));
    a.power_ups.push(PowerUpState::new(21, PowerUpType::Speed, Vector3::zeros()));
    sync.store_snapshot(a.clone());
    let mut b = GameStateSnapshot::new(2);
    b.projectiles.push(shot);
    b.events.push(battletanks::events::GameEvent::RoundStarted { round_duration: 5 });
    b.scores.push(battletanks::proto::PlayerScore {
        player_id: "p".to_string(),
        kills: 1,
        deaths: 2,
        npc_kills: 3,
    });
    let mut taken = a.power_ups[0];
    taken.is_available = false;
    let mut ticking = a.power_ups[1];
    ticking.respawn_timer = 100_000;
    b.power_ups.push(taken);
    b.power_ups.push(ticking);
    b.power_ups.push(PowerUpState::new(22, PowerUpType::Damage, Vector3::zeros()));
    let delta = update_of(sync.create_delta_update(&b, Some(1)));
    assert!(delta.is_delta_update);
    assert_eq!(delta.projectiles.len(), 1);
    assert_eq!(delta.events.len(), 1);
    assert_eq!(delta.scores.len(), 1);
    assert_eq!((delta.scores[0].kills, delta.scores[0].deaths, delta.scores[0].npc_kills), (1, 2, 3));
    let ids: Vec<u32> = delta.power_ups.iter().map(|p| p.entity_id).collect();
    assert_eq!(ids, vec![20, 22]);
}

#[test]
fn compensated_tick_follows_the_latency() {
    let mut compensator = LagCompensator::new();
    assert_eq!(compensator.get_player_latency(1), None);
    assert_eq!(compensator.get_compensated_tick(1, 100, 30), 100);
    compensator.update_player_latency(1, 100_000);
    assert_eq!(compensator.get_compensated_tick(1, 100, 30), 97);
    compensator.update_player_latency(1, 50_000);
    assert_eq!(compensator.get_compensated_tick(1, 100, 30), 98);
    compensator.update_player_latency(1, 10_000);
    assert_eq!(compensator.get_compensated_tick(1, 100, 30), 100);
    compensator.update_player_latency(1, 5_000_000);
    assert_eq!(compensator.get_player_latency(1), Some(200_000));
    assert_eq!(compensator.get_compensated_tick(1, 100, 30), 94);
    assert_eq!(compensator.get_compensated_tick(1, 3, 30), 0);
    assert_eq!(compensator.get_compensated_tick(1, 100, 0), 100);
    assert_eq!(compensator.get_compensated_tick(2, 100, 30), 100);
}

#[test]
fn compensated_tick_never_grows_with_latency() {
    let mut compensator = LagCompensator::new();
    let mut previous = 1000;
    for latency in (0..=250_000u64).step_by(1_000) {
        compensator.update_player_latency(7, latency);
        let tick = compensator.get_compensated_tick(7, 1000, 30);
        assert!(tick <= 1000);
        assert!(tick <= previous);
        previous = tick;
    }
    assert_eq!(previous, 994);
}

#[test]
fn a_swapped_power_up_puts_the_tank_into_the_delta() {
    let mut sync = StateSynchronizer::new();
    let mut before = GameStateSnapshot::new(1);
    let mut held = tank(1, 0);
    held.active_powerups.push(ActivePowerUp { power_up_type: 1, time_remaining: 5 });
    before.tanks.push(held);
    before.tanks.push(tank(2, 0));
    sync.store_snapshot(before.clone());
    let _ = sync.create_delta_update(&before, None);
    let mut after = GameStateSnapshot::new(2);
    let mut swapped = tank(1, 0);
    swapped.active_powerups.push(ActivePowerUp { power_up_type: 3, time_remaining: 5 });
    after.tanks.push(swapped);
    after.tanks.push(tank(2, 0));
    let update = update_of(sync.create_delta_update(&after, Some(1)));
    assert!(update.is_delta_update);
    assert_eq!(update.tanks.len(), 1);
    assert_eq!(update.tanks[0].entity_id, 1);
    assert_eq!(update.tanks[0].active_powerups[0].power_up_type, 3);
}

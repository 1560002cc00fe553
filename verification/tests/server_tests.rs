use battletanks::config::Config;
use battletanks::network::{Frame, NetworkEvent};
use battletanks::physics::PhysicsHandle;
use battletanks::proto::{
    ChatMessageEvent, GameStateUpdate, JoinGameRequest, MessageType, NetworkMessage, PingRequest,
    PlayerInput,
};
use battletanks::server::{GameServer, Handled, Outbound};
use battletanks::types::Vector3;

const ADA: u128 = 0x0123_4567_89ab_cdef_0011_2233_4455_6677;

fn join(name: &str) -> NetworkMessage {
    NetworkMessage {
        timestamp: 0,
        message_type: Some(MessageType::JoinGameRequest(JoinGameRequest {
            display_name: name.to_string(),
            client_version: "1.0.0".to_string(),
        })),
    }
}

fn input(forward: bool) -> NetworkMessage {
    NetworkMessage {
        timestamp: 0,
        message_type: Some(MessageType::PlayerInput(PlayerInput::at(
            0, forward, false, false, false, false, 0, 1,
        ))),
    }
}

fn sent(handled: &Handled, index: usize) -> (u128, &NetworkMessage) {
    match &handled.outbound[index] {
        Outbound::Send { to, message } => (*to, message),
        other => panic!("unexpected {:?}", other),
    }
}

fn update_of(message: NetworkMessage) -> GameStateUpdate {
    match message.message_type {
        Some(MessageType::GameStateUpdate(update)) => update,
        _ => panic!("Expected GameStateUpdate message"),
    }
}

#[test]
fn test_server_creation() {
    let server = GameServer::new();
    assert_eq!(server.address(), "127.0.0.1:8080");
}

#[test]
fn test_health_info() {
    let server = GameServer::new();
    let health = server.health_info();
    assert_eq!(health.status.as_str(), "healthy");
    assert_eq!(health.tick, 0);
    assert_eq!(health.players, 0);
}

#[test]
fn test_server_creation_and_health_info() {
    let config = Config::default();
    let server = GameServer::from_config(config.clone());

    assert_eq!(server.address(), "127.0.0.1:8080");

    let health = server.health_info();
    assert_eq!(health.status.as_str(), "healthy");
    assert_eq!(health.tick, 0);
    assert_eq!(health.players, 0);
    assert_eq!(health.entities, 0);
}

#[test]
fn health_info_counts_what_the_server_holds() {
    let mut config = Config::default();
    config.server.port = 8081;
    let mut server = GameServer::from_config(config);
    assert_eq!(server.address(), "127.0.0.1:8081");
    server.connect_as(1);
    let handled = server.handle_client_message_at(1, join("a"), 0);
    assert_eq!(handled.joined, Some(1));
    assert_eq!(server.health_info().physics_bodies, 0);
    assert!(server.attach_body(1, PhysicsHandle::from_raw_parts(4, 2)));
    server.tick();
    let health = server.health_info();
    assert_eq!(health.tick, 1);
    assert_eq!(health.uptime_ticks, 1);
    assert_eq!(health.players, 1);
    assert_eq!(health.entities, 1);
    assert_eq!(health.physics_bodies, 1);
    assert_eq!(health.tick_rate, 30);
    assert_eq!(health.max_players, 50);
    assert_eq!(health.port, 8081);
}

#[test]
fn test_join_game_protobuf_flow() {
    let mut server = GameServer::new();
    server.connect_as(ADA);
    let handled = server.handle_client_message_at(ADA, join("TestPlayer"), 1234);
    assert_eq!(handled.outbound.len(), 2);
    let (to, message) = sent(&handled, 0);
    assert_eq!(to, ADA);
    assert_eq!(message.timestamp, 1234);
    match &message.message_type {
        Some(MessageType::JoinGameResponse(response)) => {
            assert!(response.success);
            assert!(!response.player_id.is_empty());
            assert_eq!(response.player_id, "01234567-89ab-cdef-0011-223344556677");
            assert!(response.assigned_entity_id > 0);
            assert!(response.game_config.is_some());
            assert_eq!(response.error_message, "");
            let config = response.game_config.unwrap();
            assert_eq!(config.tick_rate, 30);
            assert_eq!(config.max_players, 50);
            assert_eq!(config.round_duration, 600_000_000);
            assert_eq!(config.respawn_time, 3_000_000);
            assert_eq!(config.invulnerability_time, 1_000_000);
            assert_eq!(config.map_size.map(|m| (m.x, m.y)), Some((500_000, 500_000)));
        }
        other => panic!("Received message type: {:?}", other),
    }
    let (to, message) = sent(&handled, 1);
    assert_eq!(to, ADA);
    match &message.message_type {
        Some(MessageType::GameStateUpdate(update)) => {
            assert!(!update.is_delta_update);
            assert_eq!(update.tick, 0);
            assert!(update.tanks.is_empty());
        }
        other => panic!("Received message type: {:?}", other),
    }
}

#[test]
fn test_server_max_players_limit_with_timeout() {
    let mut config = Config::default();
    config.server.max_players = 2;
    let mut server = GameServer::from_config(config);
    server.connect_as(1);
    let handled = server.handle_client_message_at(1, join("Player0"), 5);
    assert_eq!(handled.outbound.len(), 2);
    server.connect_as(2);
    let handled = server.handle_client_message_at(2, join("Player1"), 6);
    assert_eq!(handled.outbound.len(), 1);
    let (to, message) = sent(&handled, 0);
    assert_eq!(to, 2);
    assert_eq!(message.timestamp, 6);
    match &message.message_type {
        Some(MessageType::JoinGameResponse(response)) => {
            assert!(!response.success);
            assert_eq!(response.error_message, "Server is full");
            assert_eq!(response.player_id, "");
            assert_eq!(response.assigned_entity_id, 0);
            assert!(response.game_config.is_none());
        }
        other => panic!("unexpected {:?}", other),
    }
    assert_eq!(server.game_state().player_count(), 1);
}

#[test]
fn test_ping_pong_latency_measurement() {
    let mut server = GameServer::new();
    server.connect_as(3);
    let ping = NetworkMessage {
        timestamp: 0,
        message_type: Some(MessageType::PingRequest(PingRequest {
            client_timestamp: 1_000,
            sequence_number: 1,
        })),
    };
    let handled = server.handle_client_message_at(3, ping, 1_060);
    assert_eq!(handled.outbound.len(), 1);
    let (to, message) = sent(&handled, 0);
    assert_eq!(to, 3);
    assert_eq!(message.timestamp, 1_060);
    match &message.message_type {
        Some(MessageType::PongResponse(pong)) => {
            assert_eq!(pong.client_timestamp, 1_000);
            assert_eq!(pong.sequence_number, 1);
            assert_eq!(pong.server_timestamp, 1_060);
        }
        _ => panic!("Expected PongResponse"),
    }
    assert_eq!(server.get_lag_compensator().get_player_latency(3), Some(30_000));

    let late = NetworkMessage {
        timestamp: 0,
        message_type: Some(MessageType::PingRequest(PingRequest {
            client_timestamp: 0,
            sequence_number: 2,
        })),
    };
    server.handle_client_message_at(3, late, 10_000);
    assert_eq!(server.get_lag_compensator().get_player_latency(3), Some(200_000));
    let early = NetworkMessage {
        timestamp: 0,
        message_type: Some(MessageType::PingRequest(PingRequest {
            client_timestamp: 50,
            sequence_number: 3,
        })),
    };
    let handled = server.handle_client_message_at(9, early, 10);
    assert!(handled.outbound.is_empty());
    assert_eq!(server.get_lag_compensator().get_player_latency(9), Some(0));
}

#[test]
fn test_end_to_end_scenario() {
    let mut server = GameServer::new();
    server.connect_as(ADA);
    let handled = server.handle_client_message_at(ADA, join("Ada"), 0);
    let entity_id = match &sent(&handled, 0).1.message_type {
        Some(MessageType::JoinGameResponse(response)) => {
            assert!(response.success);
            assert_eq!(response.assigned_entity_id, 1);
            response.assigned_entity_id
        }
        other => panic!("unexpected {:?}", other),
    };

    let mut last = None;
    for tick in 1..=30u64 {
        let handled = server.handle_client_message_at(ADA, input(true), tick * 33);
        assert!(handled.outbound.is_empty());
        assert_eq!(handled.input_tick, Some(tick - 1));
        let output = server.tick();
        assert!(output.released.is_empty());
        last = Some(update_of(output.message));
    }
    let tanks = server.game_state().ecs().get_tanks();
    assert_eq!(tanks.len(), 1);
    assert_eq!(tanks[0].0, entity_id);
    let position = tanks[0].1.position;
    let speed = tanks[0].2.movement_speed;
    assert!((position.z - speed).abs() <= speed / 100);
    assert_eq!(position.z, 30 * 333);
    assert_eq!(position.x, 0);
    assert_eq!(position.y, 0);

    let update = last.unwrap();
    assert_eq!(update.tick, 30);
    assert!(update.is_delta_update);
    assert_eq!(update.full_state_tick, 1);
    assert_eq!(update.tanks.len(), 1);
    assert_eq!(update.tanks[0].entity_id, 1);
    assert_eq!(update.tanks[0].display_name, "Ada");
    assert_eq!(update.tanks[0].position, Some(Vector3::new(0, 0, 9_990)));
}

#[test]
fn tick_sends_deltas_between_full_states() {
    let mut server = GameServer::new();
    server.connect_as(1);
    server.handle_client_message_at(1, join("a"), 0);
    let mut kinds = Vec::new();
    for _ in 0..61 {
        kinds.push(update_of(server.tick().message).is_delta_update);
    }
    let fulls: Vec<usize> = kinds.iter().enumerate().filter(|k| !*k.1).map(|k| k.0 + 1).collect();
    assert_eq!(fulls, vec![1, 31, 61]);
    assert_eq!(server.get_state_synchronizer().last_full_state_tick(), 61);
    assert_eq!(server.get_state_synchronizer().history_len(), 61);
}

#[test]
fn still_tank_stays_out_of_the_delta() {
    let mut server = GameServer::new();
    server.connect_as(1);
    server.handle_client_message_at(1, join("a"), 0);
    assert!(!update_of(server.tick().message).is_delta_update);
    let delta = update_of(server.tick().message);
    assert!(delta.is_delta_update);
    assert!(delta.tanks.is_empty());
    assert_eq!(delta.scores.len(), 1);
    server.handle_client_message_at(1, input(true), 0);
    let delta = update_of(server.tick().message);
    assert!(delta.is_delta_update);
    assert_eq!(delta.tanks.len(), 1);
    assert_eq!(delta.tanks[0].position, Some(Vector3::new(0, 0, 333)));
}

#[test]
fn chat_goes_to_everyone() {
    let mut server = GameServer::new();
    let chat = NetworkMessage {
        timestamp: 0,
        message_type: Some(MessageType::ChatMessage(ChatMessageEvent {
            player_id: "p".to_string(),
            message: "hello".to_string(),
            timestamp: 3,
        })),
    };
    let handled = server.handle_client_message_at(5, chat, 44);
    assert_eq!(handled.outbound.len(), 1);
    match &handled.outbound[0] {
        Outbound::Broadcast { message } => {
            assert_eq!(message.timestamp, 44);
            match &message.message_type {
                Some(MessageType::ChatMessage(chat)) => {
                    assert_eq!(chat.message, "hello");
                    assert_eq!(chat.player_id, "p");
                    assert_eq!(chat.timestamp, 3);
                }
                other => panic!("unexpected {:?}", other),
            }
        }
        other => panic!("unexpected {:?}", other),
    }
}

#[test]
fn messages_without_a_meaning_are_ignored() {
    let mut server = GameServer::new();
    server.connect_as(1);
    let empty = NetworkMessage { timestamp: 0, message_type: None };
    let handled = server.handle_client_message_at(1, empty, 0);
    assert!(handled.outbound.is_empty());
    assert!(handled.input_tick.is_none() && handled.released.is_none());
    let stray = NetworkMessage::game_state_update(GameStateUpdate::new(1));
    let handled = server.handle_client_message(1, stray);
    assert!(handled.outbound.is_empty());
    assert_eq!(server.game_state().entity_count(), 0);
}

#[test]
fn join_without_a_session_is_not_answered() {
    let mut server = GameServer::new();
    let handled = server.handle_client_message_at(8, join("ghost"), 0);
    assert!(handled.outbound.is_empty());
    assert_eq!(server.game_state().player_count(), 1);
    assert_eq!(server.get_state_synchronizer().last_full_state_tick(), 0);
}

#[test]
fn disconnect_removes_the_player_and_the_session() {
    let mut server = GameServer::new();
    let id = server.handle_client_connection();
    let handled = server.handle_network_event_at(NetworkEvent::PlayerConnected { player_id: id }, 0);
    assert!(handled.outbound.is_empty());
    server.handle_network_event_at(
        NetworkEvent::MessageReceived { player_id: id, message: join("x") },
        0,
    );
    assert_eq!(server.health_info().players, 1);
    assert_eq!(server.game_state().player_count(), 1);
    assert!(server.attach_body(1, PhysicsHandle::from_raw_parts(3, 1)));
    assert!(!server.attach_body(1, PhysicsHandle::from_raw_parts(4, 1)));
    assert!(!server.attach_body(2, PhysicsHandle::from_raw_parts(4, 1)));
    assert_eq!(server.health_info().physics_bodies, 1);
    let handled = server.handle_network_event(NetworkEvent::PlayerDisconnected { player_id: id });
    assert_eq!(handled.released, Some(PhysicsHandle::from_raw_parts(3, 1)));
    assert_eq!(server.health_info().physics_bodies, 0);
    assert_eq!(server.health_info().players, 0);
    assert_eq!(server.game_state().player_count(), 0);
    let handled = server.handle_network_event_at(NetworkEvent::PlayerDisconnected { player_id: id }, 0);
    assert_eq!(handled.released, None);
}

#[test]
fn input_tick_is_moved_back_by_the_latency() {
    let mut server = GameServer::new();
    server.connect_as(1);
    server.handle_client_message_at(1, join("a"), 0);
    for _ in 0..10 {
        server.tick();
    }
    let ping = NetworkMessage {
        timestamp: 0,
        message_type: Some(MessageType::PingRequest(PingRequest {
            client_timestamp: 0,
            sequence_number: 1,
        })),
    };
    server.handle_client_message_at(1, ping, 200);
    let handled = server.handle_client_message_at(1, input(false), 0);
    assert_eq!(handled.input_tick, Some(7));
    assert!(server.has_room() && server.can_tick());
}

#[test]
fn thirty_ticks_forward_at_the_default_settings() {
    let mut server = GameServer::new();
    server.connect_as(1);
    let handled = server.handle_client_message_at(1, join("Ada"), 0);
    assert_eq!(handled.joined, Some(1));
    server.handle_client_message_at(1, input(true), 0);
    for _ in 0..30 {
        server.tick();
    }
    assert_eq!(server.game_state().tick(), 30);
    let tanks = server.game_state().ecs().get_tanks();
    assert_eq!(tanks.len(), 1);
    assert_eq!(tanks[0].0, 1);
    assert_eq!(tanks[0].1.position, Vector3::new(0, 0, 9_990));
    assert_eq!(tanks[0].1.rotation, 0);
    assert_eq!((tanks[0].2.health, tanks[0].2.max_health), (100, 100));
}

#[test]
fn a_refused_join_needs_no_room_and_makes_no_tank() {
    let mut config = Config::default();
    config.server.max_players = 1;
    let mut server = GameServer::from_config(config);
    server.connect_as(1);
    server.connect_as(2);
    let handled = server.handle_client_message_at(2, join("late"), 5);
    assert_eq!(handled.joined, None);
    assert_eq!(handled.outbound.len(), 1);
    assert_eq!(server.game_state().entity_count(), 0);
}

#[test]
fn a_session_opened_again_starts_afresh_and_leaves_the_others() {
    let mut server = GameServer::new();
    server.connect_as(1);
    server.connect_as(2);
    server.handle_client_message_at(1, join("a"), 0);
    server.handle_client_message_at(2, join("b"), 0);
    for i in 0..30u64 {
        assert!(server.receive_at(1, Frame::Message(input(true)), i).input_tick.is_some());
        assert!(server.receive_at(2, Frame::Message(input(true)), i).input_tick.is_some());
    }
    assert!(server.receive_at(1, Frame::Message(input(true)), 40).input_tick.is_none());
    server.connect_as(1);
    assert!(server.receive_at(1, Frame::Message(input(true)), 41).input_tick.is_some());
    assert!(server.receive_at(2, Frame::Message(input(true)), 41).input_tick.is_none());
    server.drop_failed(&vec![1]);
    assert!(server.receive_at(2, Frame::Message(input(true)), 42).input_tick.is_none());
    assert!(server.receive_at(1, Frame::Message(input(true)), 42).input_tick.is_none());
    let mut left = server.recipients();
    left.sort();
    assert_eq!(left, vec![2]);
}

#[test]
fn fresh_connections_get_distinct_identifiers() {
    let mut server = GameServer::new();
    let a = server.handle_client_connection();
    let b = server.handle_client_connection();
    assert_ne!(a, b);
    assert_eq!(server.health_info().players, 2);
}

#[test]
fn frames_pass_the_session_before_the_server() {
    let mut server = GameServer::new();
    server.connect_as(1);
    let handled = server.receive_at(1, Frame::Message(join("a")), 0);
    assert_eq!(handled.outbound.len(), 2);
    assert!(!handled.closed);

    let mut taken = 0;
    for i in 0..50u64 {
        let handled = server.receive_at(1, Frame::Message(input(true)), i * 10_000);
        assert!(handled.outbound.is_empty());
        if handled.input_tick.is_some() {
            taken += 1;
        }
    }
    assert_eq!(taken, 30);

    let handled = server.receive_at(1, Frame::Ping(vec![7, 8]), 0);
    match &handled.outbound[..] {
        [Outbound::Pong { to, payload }] => {
            assert_eq!(*to, 1);
            assert_eq!(payload, &vec![7, 8]);
        }
        other => panic!("unexpected {:?}", other),
    }
    assert!(server.receive_at(1, Frame::Malformed, 0).outbound.is_empty());
    assert!(server.receive(1, Frame::Text).outbound.is_empty());

    let handled = server.receive_at(2, Frame::Message(join("stranger")), 0);
    assert!(handled.outbound.is_empty());
    assert_eq!(server.game_state().player_count(), 1);

    let handled = server.receive_at(1, Frame::Close, 0);
    assert!(handled.closed);
    assert_eq!(handled.released, None);
    assert_eq!(server.health_info().players, 0);
    assert_eq!(server.game_state().player_count(), 0);
    let handled = server.receive_at(1, Frame::Failed, 0);
    assert!(!handled.closed);
    assert!(handled.released.is_none());
}

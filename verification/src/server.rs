//! The server: what it does about each event from a connection, and its tick.

use vstd::prelude::*;
use crate::clock::unix_millis;
use crate::config::Config;
use crate::ecs::{input_replaced, Components};
use crate::events::GameEventView;
use crate::game_state::{
    body_of_spent, player_removed, saturating_sum, stepped, trimmed, world_after_tick, GameState,
};
use crate::ids::{player_id_string, player_id_text, random_player_id};
use crate::network::{
    frame_received, is_new_session, session_received, sessions_wf, ClientConnection, Frame,
    NetworkEvent, Reaction,
};
use crate::physics::{without_bodies, PhysicsHandle, PhysicsWorld};
use crate::proto::{
    ChatMessageEvent, GameConfig, JoinGameRequest, JoinGameResponse, JoinGameResponseView,
    MessageType, NetworkMessage, PingRequest, PlayerInput, PongResponse, Vector2,
};
use crate::snapshot::{snapshot_of, take_snapshot};
use crate::table::{
    table_contains, table_insert, table_keys, table_len, table_model, table_new, table_remove,
};
use crate::state_sync::{
    compensated_tick, retained, sends_full, update_for, GameStateSnapshot, GameStateSnapshotView,
    LagCompensator, StateSynchronizer,
};
use crate::types::{EntityId, PlayerId};

verus! {

/// A message that the server wants sent.
#[derive(Debug)]
pub enum Outbound {
    /// To the session of one player.
    Send { to: PlayerId, message: NetworkMessage },
    /// To every live session.
    Broadcast { message: NetworkMessage },
    /// A transport-level pong with this payload, to the session of one player.
    Pong { to: PlayerId, payload: Vec<u8> },
}

/// What came of one event.
#[derive(Debug)]
pub struct Handled {
    /// The messages to send, in order.
    pub outbound: Vec<Outbound>,
    /// For an input: the tick at which it is taken to have been given.
    pub input_tick: Option<u64>,
    /// For a player that left: the body handle of the removed tank, to release.
    pub released: Option<PhysicsHandle>,
    /// Whether the session has ended, so that its connection is to be closed.
    pub closed: bool,
    /// For a player that joined: the tank that was made, for which the
    /// caller makes a body and hands its handle to `attach_body`.
    pub joined: Option<EntityId>,
}

/// What came of one tick.
#[derive(Debug)]
pub struct TickOutput {
    /// The state update, to send to every live session.
    pub message: NetworkMessage,
    /// The body handles of the entities that the tick removed, to release.
    pub released: Vec<PhysicsHandle>,
}

/// How the server is.
#[derive(Debug, Clone, Copy, PartialEq, Eq, Structural)]
pub enum HealthStatus {
    Healthy,
}

impl HealthStatus {
    /// The word that an observer is shown.
    pub fn as_str(self) -> (word: &'static str)
        ensures
            word@ == "healthy"@,
    {
        "healthy"
    }
}

/// Counters for an observer.
#[derive(Debug, Clone, Copy, PartialEq, Eq, Structural)]
pub struct HealthInfo {
    pub status: HealthStatus,
    pub tick: u64,
    pub players: usize,
    pub entities: usize,
    pub physics_bodies: usize,
    pub uptime_ticks: u64,
    pub tick_rate: u32,
    pub max_players: usize,
    pub port: u16,
}

/// The text with which a join is refused when no place is left.
pub open spec fn server_full() -> Seq<char> {
    "Server is full"@
}

/// The rules of the match as a joining client is told them.
pub open spec fn game_config_of(config: Config) -> GameConfig {
    GameConfig {
        tick_rate: config.server.tick_rate,
        max_players: ((config.server.max_players as int) % 0x1_0000_0000) as u32,
        round_duration: config.game.round_duration,
        respawn_time: config.game.respawn_delay,
        invulnerability_time: config.game.spawn_protection_duration,
        map_size: Some(Vector2 { x: config.game.map_size, y: config.game.map_size }),
    }
}

/// The one-way latency, in microseconds, that a ping shows: half the time
/// from the client's stamp to the server's, both in milliseconds.
pub open spec fn ping_latency(server_timestamp: u64, client_timestamp: u64) -> u64 {
    if server_timestamp <= client_timestamp {
        0
    } else if (server_timestamp - client_timestamp) / 2 * 1000 > u64::MAX {
        u64::MAX
    } else {
        ((server_timestamp - client_timestamp) / 2 * 1000) as u64
    }
}

/// The latency that a compensator holds for a player after a ping.
pub open spec fn clamped(latency: u64, limit: u64) -> u64 {
    if latency <= limit {
        latency
    } else {
        limit
    }
}

/// The refusal of a join, sent at `now`.
pub open spec fn is_refusal(out: Outbound, player_id: PlayerId, now: u64) -> bool {
    match out {
        Outbound::Send { to, message } => to == player_id && message.timestamp == now
            && match message.message_type {
            Some(MessageType::JoinGameResponse(r)) => r@ == (JoinGameResponseView {
                success: false,
                error_message: server_full(),
                player_id: Seq::empty(),
                assigned_entity_id: 0,
                game_config: None,
            }),
            _ => false,
        },
        _ => false,
    }
}

/// The welcome of a player to the entity `entity_id`, sent at `now`.
pub open spec fn is_welcome(
    out: Outbound,
    player_id: PlayerId,
    entity_id: EntityId,
    config: Config,
    now: u64,
) -> bool {
    match out {
        Outbound::Send { to, message } => to == player_id && message.timestamp == now
            && match message.message_type {
            Some(MessageType::JoinGameResponse(r)) => r@ == (JoinGameResponseView {
                success: true,
                error_message: Seq::empty(),
                player_id: player_id_string(player_id),
                assigned_entity_id: entity_id,
                game_config: Some(game_config_of(config)),
            }),
            _ => false,
        },
        _ => false,
    }
}

/// The first state that a player is sent: the full, empty state of `tick`.
pub open spec fn is_initial_state(
    out: Outbound,
    player_id: PlayerId,
    tick: u64,
    synchronizer: StateSynchronizer,
) -> bool {
    match out {
        Outbound::Send { to, message } => to == player_id && match message.message_type {
            Some(MessageType::GameStateUpdate(u)) => u@ == update_for(
                GameStateSnapshotView {
                    tick,
                    round_time_remaining: 0,
                    tanks: Seq::empty(),
                    projectiles: Seq::empty(),
                    power_ups: Seq::empty(),
                    events: Seq::empty(),
                    scores: Seq::empty(),
                },
                None,
                tick,
                synchronizer.thresholds().0,
                synchronizer.thresholds().1,
                synchronizer.thresholds().2,
            ),
            _ => false,
        },
        _ => false,
    }
}

/// The game server: the match, the sessions, the synchronizer and the lag
/// compensator.
pub struct GameServer {
    config: Config,
    game_state: GameState,
    clients: dashmap::DashMap<PlayerId, ClientConnection>,
    state_synchronizer: StateSynchronizer,
    lag_compensator: LagCompensator,
    physics_world: PhysicsWorld,
}

impl GameServer {
    /// The settings of the server.
    pub closed spec fn settings(&self) -> Config {
        self.config
    }

    /// The match.
    pub closed spec fn game(&self) -> GameState {
        self.game_state
    }

    /// The live sessions, by player.
    pub closed spec fn sessions(&self) -> Map<PlayerId, ClientConnection> {
        table_model(self.clients)
    }

    /// The synchronizer.
    pub closed spec fn synchronizer(&self) -> StateSynchronizer {
        self.state_synchronizer
    }

    /// The lag compensator.
    pub closed spec fn compensator(&self) -> LagCompensator {
        self.lag_compensator
    }

    /// The entity of each body that the physics engine holds, by the key of
    /// the body's handle.
    pub closed spec fn bodies(&self) -> Map<u64, EntityId> {
        self.physics_world.bodies()
    }

    /// The state of a server that has just been made: a match without
    /// entities at tick zero, no session, no body, an empty history with a
    /// window of 300 ticks and a full state every 30 ticks, and no latency on
    /// record.
    pub open spec fn fresh(&self) -> bool {
        &&& self.game().world() == Map::<EntityId, Components>::empty()
        &&& self.game().next_entity_id() == 1
        &&& self.game().ticks() == 0
        &&& self.game().round_time() == 0
        &&& self.game().event_log() == Seq::<GameEventView>::empty()
        &&& self.game().scores() == Map::<PlayerId, crate::types::PlayerScore>::empty()
        &&& self.game().ai() == (crate::ai::AiConfig { attack_range: 30_000, search_range: 60_000 })
        &&& self.sessions() == Map::<PlayerId, ClientConnection>::empty()
        &&& self.bodies() == Map::<u64, EntityId>::empty()
        &&& self.synchronizer().history() == Map::<u64, GameStateSnapshotView>::empty()
        &&& self.synchronizer().window() == 300
        &&& self.synchronizer().interval() == 30
        &&& self.synchronizer().last_full() == 0
        &&& self.synchronizer().thresholds() == (100u32, 50u32, 100_000u64)
        &&& self.compensator().latencies() == Map::<PlayerId, u64>::empty()
        &&& self.compensator().limit() == 200_000
    }

    /// Whether a place is left for another player: the sessions number fewer
    /// than `max_players`.
    pub open spec fn has_place(&self) -> bool {
        self.sessions().dom().len() < self.settings().server.max_players
    }

    /// Whether a message gets a new player into the match: it asks to join,
    /// and a place is left.
    pub open spec fn admits(&self, message: NetworkMessage) -> bool {
        &&& message.message_type is Some
        &&& message.message_type->0 is JoinGameRequest
        &&& self.has_place()
    }

    /// The invariant of the server: those of its parts.
    pub open spec fn wf(&self) -> bool {
        &&& self.game().wf()
        &&& sessions_wf(self.sessions())
        &&& self.sessions().dom().finite()
        &&& self.synchronizer().wf()
        &&& self.game().settings() == self.settings()
    }

    /// A server with the default settings.
    pub fn new() -> (s: GameServer)
        ensures
            s.wf(),
            s.fresh(),
            s.settings().server.port == 8080,
            s.settings().server.host@ == "127.0.0.1"@,
            s.settings().server.max_players == 50,
            s.settings().server.tick_rate == 30,
            s.settings().server.physics_timestep == 33_333,
            s.settings().game == (crate::config::GameConfig {
                map_size: 500_000,
                round_duration: 600_000_000,
                respawn_delay: 3_000_000,
                spawn_protection_duration: 1_000_000,
                npc_count: 15,
                projectile_speed: 50_000,
                tank_speed: 10_000,
                tank_rotation_speed: 1_571,
                turret_rotation_speed: 2_094,
            }),
    {
        GameServer::from_config(Config::default())
    }

    /// A server with the given settings.
    pub fn from_config(config: Config) -> (s: GameServer)
        ensures
            s.wf(),
            s.fresh(),
            s.settings() == config,
    {
        let game_state = GameState::new(&config);
        let physics_world = PhysicsWorld::new(&config);
        let clients = table_new();
        assert(table_model(clients) =~= Map::<PlayerId, ClientConnection>::empty());
        GameServer {
            config,
            game_state,
            clients,
            state_synchronizer: StateSynchronizer::new(),
            lag_compensator: LagCompensator::new(),
            physics_world,
        }
    }

    /// The listening address.
    pub fn address(&self) -> (address: String)
        ensures
            address@ == self.settings().server.host@ + seq![':'] + crate::text::decimal(
                self.settings().server.port as nat,
            ),
    {
        self.config.server_address()
    }

    /// The counters of the server: the tick, the numbers of sessions, of
    /// entities and of bodies in the physics engine, and the settings that an
    /// observer is shown.
    pub fn health_info(&self) -> (info: HealthInfo)
        requires
            self.wf(),
        ensures
            info == (HealthInfo {
                status: HealthStatus::Healthy,
                tick: self.game().ticks(),
                players: self.sessions().dom().len() as usize,
                entities: self.game().world().dom().len() as usize,
                physics_bodies: self.bodies().dom().len() as usize,
                uptime_ticks: self.game().ticks(),
                tick_rate: self.settings().server.tick_rate,
                max_players: self.settings().server.max_players,
                port: self.settings().server.port,
            }),
    {
        HealthInfo {
            status: HealthStatus::Healthy,
            tick: self.game_state.tick(),
            players: table_len(&self.clients),
            entities: self.game_state.entity_count(),
            physics_bodies: self.physics_world.body_count(),
            uptime_ticks: self.game_state.tick(),
            tick_rate: self.config.server.tick_rate,
            max_players: self.config.server.max_players,
            port: self.config.server.port,
        }
    }

    /// The match, to read.
    pub fn game_state(&self) -> (g: &GameState)
        ensures
            *g == self.game(),
    {
        &self.game_state
    }

    /// The synchronizer, to read.
    pub fn get_state_synchronizer(&self) -> (s: &StateSynchronizer)
        ensures
            *s == self.synchronizer(),
    {
        &self.state_synchronizer
    }

    /// The lag compensator, to read.
    pub fn get_lag_compensator(&self) -> (c: &LagCompensator)
        ensures
            *c == self.compensator(),
    {
        &self.lag_compensator
    }

    /// Whether the match can make another entity.
    pub fn has_room(&self) -> (room: bool)
        ensures
            room == (self.game().next_entity_id() < u32::MAX),
    {
        self.game_state.has_room()
    }

    /// Whether a place is left for another player.
    pub fn place_left(&self) -> (left: bool)
        requires
            self.wf(),
        ensures
            left == self.has_place(),
    {
        table_len(&self.clients) < self.config.server.max_players
    }

    /// Whether the tick counter can go on.
    pub fn can_tick(&self) -> (ok: bool)
        ensures
            ok == (self.game().ticks() < u64::MAX),
    {
        self.game_state.tick() < u64::MAX
    }

    /// Opens a session for a connection under the given identifier, in place
    /// of one that the identifier had: a session whose limiter lets 30 inputs
    /// through per second and has seen none. No other session changes.
    pub fn connect_as(&mut self, player_id: PlayerId)
        requires
            old(self).wf(),
        ensures
            final(self).wf(),
            session_opened(old(self).sessions(), final(self).sessions(), player_id),
            final(self).bodies() == old(self).bodies(),
            final(self).game() == old(self).game(),
            final(self).settings() == old(self).settings(),
            final(self).synchronizer() == old(self).synchronizer(),
            final(self).compensator() == old(self).compensator(),
    {
        table_insert(&mut self.clients, player_id, ClientConnection::new(player_id));
    }

    /// Opens a session for a connection under a fresh random identifier, as
    /// `connect_as` does, and returns the identifier.
    pub fn handle_client_connection(&mut self) -> (player_id: PlayerId)
        requires
            old(self).wf(),
        ensures
            final(self).wf(),
            session_opened(old(self).sessions(), final(self).sessions(), player_id),
            final(self).bodies() == old(self).bodies(),
            final(self).game() == old(self).game(),
            final(self).settings() == old(self).settings(),
            final(self).synchronizer() == old(self).synchronizer(),
            final(self).compensator() == old(self).compensator(),
    {
        let player_id = random_player_id();
        self.connect_as(player_id);
        player_id
    }

    /// Answers a request to join that arrives at `now`.
    ///
    /// Where the sessions number `max_players` or more, the player is refused
    /// and nothing changes. Otherwise the player gets a tank without a body,
    /// and is sent a welcome and then the first state, which counts as a
    /// full state. A player without a session is sent nothing. Returns what
    /// to send, and the tank that was made.
    pub fn handle_join(&mut self, player_id: PlayerId, request: JoinGameRequest, now: u64) -> (out: (
        Vec<Outbound>,
        Option<EntityId>,
    ))
        requires
            old(self).wf(),
            old(self).has_place() ==> old(self).game().next_entity_id() < u32::MAX,
        ensures
            final(self).wf(),
            final(self).settings() == old(self).settings(),
            final(self).sessions() == old(self).sessions(),
            final(self).game().ticks() == old(self).game().ticks(),
            final(self).game().round_time() == old(self).game().round_time(),
            final(self).game().ai() == old(self).game().ai(),
            final(self).bodies() == old(self).bodies(),
            join_handled(*old(self), *final(self), player_id, request, now, out.0@),
            out.1 == joined_entity(*old(self)),
    {
        let mut out: Vec<Outbound> = Vec::new();
        let known = table_contains(&self.clients, player_id);
        if table_len(&self.clients) >= self.config.server.max_players {
            if known {
                proof {
                    reveal_strlit("Server is full");
                }
                let response = JoinGameResponse::error("Server is full".to_string());
                out.push(
                    Outbound::Send {
                        to: player_id,
                        message: NetworkMessage {
                            timestamp: now,
                            message_type: Some(MessageType::JoinGameResponse(response)),
                        },
                    },
                );
            }
            return (out, None);
        }
        let entity_id = self.game_state.add_player(player_id, request.display_name);
        if known {
            let game_config = GameConfig {
                tick_rate: self.config.server.tick_rate,
                max_players: ((self.config.server.max_players as u64) % 0x1_0000_0000) as u32,
                round_duration: self.config.game.round_duration,
                respawn_time: self.config.game.respawn_delay,
                invulnerability_time: self.config.game.spawn_protection_duration,
                map_size: Some(Vector2::new(self.config.game.map_size, self.config.game.map_size)),
            };
            let response = JoinGameResponse::success(
                player_id_text(player_id),
                entity_id,
                game_config,
            );
            out.push(
                Outbound::Send {
                    to: player_id,
                    message: NetworkMessage {
                        timestamp: now,
                        message_type: Some(MessageType::JoinGameResponse(response)),
                    },
                },
            );
            let current_tick = self.game_state.tick();
            let snapshot = GameStateSnapshot::new(current_tick);
            let state_message = self.state_synchronizer.create_delta_update(&snapshot, None);
            out.push(Outbound::Send { to: player_id, message: state_message });
        }
        (out, Some(entity_id))
    }

    /// Takes an input of a player: the tank that the player drives holds it
    /// from now on. Returns the tick at which the input is taken to have been
    /// given.
    pub fn handle_input(&mut self, player_id: PlayerId, input: PlayerInput) -> (input_tick: u64)
        requires
            old(self).wf(),
        ensures
            final(self).wf(),
            final(self).settings() == old(self).settings(),
            final(self).sessions() == old(self).sessions(),
            final(self).bodies() == old(self).bodies(),
            final(self).compensator() == old(self).compensator(),
            final(self).synchronizer() == old(self).synchronizer(),
            final(self).game().ticks() == old(self).game().ticks(),
            final(self).game().round_time() == old(self).game().round_time(),
            final(self).game().ai() == old(self).game().ai(),
            final(self).game().next_entity_id() == old(self).game().next_entity_id(),
            final(self).game().scores() == old(self).game().scores(),
            final(self).game().event_log() == old(self).game().event_log(),
            input_tick == input_tick_of(*old(self), player_id),
            input_tick <= old(self).game().ticks(),
            input_replaced(
                old(self).game().world(),
                final(self).game().world(),
                player_id,
                input.spec_to_component(),
            ),
    {
        let current_tick = self.game_state.tick();
        let input_tick = self.lag_compensator.get_compensated_tick(
            player_id,
            current_tick,
            self.config.server.tick_rate,
        );
        self.game_state.update_player_input(player_id, input.to_component());
        input_tick
    }

    /// Answers a ping that arrives at `now`: records half the time since the
    /// client's stamp as the player's latency, and sends back a pong with
    /// both stamps. A player without a session is sent nothing.
    pub fn handle_ping(&mut self, player_id: PlayerId, ping: PingRequest, now: u64) -> (out: Vec<
        Outbound,
    >)
        requires
            old(self).wf(),
        ensures
            final(self).wf(),
            final(self).settings() == old(self).settings(),
            final(self).sessions() == old(self).sessions(),
            final(self).bodies() == old(self).bodies(),
            final(self).synchronizer() == old(self).synchronizer(),
            final(self).game() == old(self).game(),
            final(self).compensator().limit() == old(self).compensator().limit(),
            final(self).compensator().latencies() == old(self).compensator().latencies().insert(
                player_id,
                clamped(ping_latency(now, ping.client_timestamp), old(self).compensator().limit()),
            ),
            if old(self).sessions().contains_key(player_id) {
                out.len() == 1 && out[0] == (Outbound::Send {
                    to: player_id,
                    message: NetworkMessage {
                        timestamp: now,
                        message_type: Some(
                            MessageType::PongResponse(
                                PongResponse {
                                    client_timestamp: ping.client_timestamp,
                                    server_timestamp: now,
                                    sequence_number: ping.sequence_number,
                                },
                            ),
                        ),
                    },
                })
            } else {
                out.len() == 0
            },
    {
        let half: u64 = now.saturating_sub(ping.client_timestamp) / 2;
        let latency: u64 = if half > u64::MAX / 1000 {
            u64::MAX
        } else {
            half * 1000
        };
        self.lag_compensator.update_player_latency(player_id, latency);
        let mut out: Vec<Outbound> = Vec::new();
        if table_contains(&self.clients, player_id) {
            out.push(
                Outbound::Send {
                    to: player_id,
                    message: NetworkMessage {
                        timestamp: now,
                        message_type: Some(
                            MessageType::PongResponse(
                                PongResponse::at(now, ping.client_timestamp, ping.sequence_number),
                            ),
                        ),
                    },
                },
            );
        }
        out
    }

    /// Decides on a message of a player that arrives at `now`, by its kind:
    /// a join is answered as `handle_join` does, an input taken as
    /// `handle_input` does, a ping answered as `handle_ping` does, and a
    /// line of chat goes to every session. Any other message changes
    /// nothing and has no answer.
    pub fn handle_client_message_at(
        &mut self,
        player_id: PlayerId,
        message: NetworkMessage,
        now: u64,
    ) -> (handled: Handled)
        requires
            old(self).wf(),
            old(self).admits(message) ==> old(self).game().next_entity_id() < u32::MAX,
        ensures
            final(self).wf(),
            message_handled(*old(self), *final(self), player_id, message, now, handled),
    {
        match message.message_type {
            Some(MessageType::JoinGameRequest(request)) => {
                let (outbound, joined) = self.handle_join(player_id, request, now);
                Handled { outbound, input_tick: None, released: None, closed: false, joined }
            },
            Some(MessageType::PlayerInput(input)) => {
                let input_tick = self.handle_input(player_id, input);
                Handled {
                    outbound: Vec::new(),
                    input_tick: Some(input_tick),
                    released: None,
                    closed: false,
                    joined: None,
                }
            },
            Some(MessageType::PingRequest(ping)) => {
                let outbound = self.handle_ping(player_id, ping, now);
                Handled { outbound, input_tick: None, released: None, closed: false, joined: None }
            },
            Some(MessageType::ChatMessage(chat)) => {
                let mut outbound: Vec<Outbound> = Vec::new();
                outbound.push(
                    Outbound::Broadcast {
                        message: NetworkMessage {
                            timestamp: now,
                            message_type: Some(MessageType::ChatMessage(chat)),
                        },
                    },
                );
                Handled { outbound, input_tick: None, released: None, closed: false, joined: None }
            },
            _ => Handled {
                outbound: Vec::new(),
                input_tick: None,
                released: None,
                closed: false,
                joined: None,
            },
        }
    }

    /// Decides on a message of a player that arrives at the time of the
    /// call, as `handle_client_message_at` does for that time.
    pub fn handle_client_message(&mut self, player_id: PlayerId, message: NetworkMessage) -> (handled:
        Handled)
        requires
            old(self).wf(),
            old(self).admits(message) ==> old(self).game().next_entity_id() < u32::MAX,
        ensures
            final(self).wf(),
            exists|now: u64| #[trigger]
                message_handled(*old(self), *final(self), player_id, message, now, handled),
    {
        let now = unix_millis();
        self.handle_client_message_at(player_id, message, now)
    }

    /// Decides on an event of a connection that arrives at `now`: a new
    /// connection changes nothing, a lost one takes its player out of the
    /// match and its session out of the table, and a message is decided on
    /// as `handle_client_message_at` does.
    pub fn handle_network_event_at(&mut self, event: NetworkEvent, now: u64) -> (handled: Handled)
        requires
            old(self).wf(),
            event is MessageReceived && old(self).admits(event->message)
                ==> old(self).game().next_entity_id() < u32::MAX,
        ensures
            final(self).wf(),
            event_handled(*old(self), *final(self), event, now, handled),
    {
        match event {
            NetworkEvent::PlayerConnected { player_id } => Handled {
                outbound: Vec::new(),
                input_tick: None,
                released: None,
                closed: false,
                joined: None,
            },
            NetworkEvent::PlayerDisconnected { player_id } => {
                let released = self.game_state.remove_player(player_id);
                let _ = table_remove(&mut self.clients, player_id);
                match released {
                    Some(handle) => {
                        let _ = self.physics_world.remove_body(handle);
                    },
                    None => {},
                }
                Handled {
                    outbound: Vec::new(),
                    input_tick: None,
                    released,
                    closed: true,
                    joined: None,
                }
            },
            NetworkEvent::MessageReceived { player_id, message } => {
                self.handle_client_message_at(player_id, message, now)
            },
        }
    }

    /// Decides on an event of a connection that arrives at the time of the
    /// call, as `handle_network_event_at` does for that time.
    pub fn handle_network_event(&mut self, event: NetworkEvent) -> (handled: Handled)
        requires
            old(self).wf(),
            event is MessageReceived && old(self).admits(event->message)
                ==> old(self).game().next_entity_id() < u32::MAX,
        ensures
            final(self).wf(),
            exists|now: u64| #[trigger] event_handled(*old(self), *final(self), event, now, handled),
    {
        let now = unix_millis();
        self.handle_network_event_at(event, now)
    }

    /// Lets the session of `player_id` decide on a frame that arrives at
    /// `now`: the session is taken out of the table, decides, and is put back.
    fn session_receive_at(&mut self, player_id: PlayerId, frame: Frame, now: u64) -> (reaction:
        Option<Reaction>)
        requires
            old(self).wf(),
        ensures
            frame_taken(*old(self), *final(self), player_id, frame, now, reaction),
    {
        match table_remove(&mut self.clients, player_id) {
            Some(connection) => {
                let mut connection = connection;
                let reaction = connection.receive_at(frame, now);
                table_insert(&mut self.clients, player_id, connection);
                assert(self.sessions() =~= old(self).sessions().insert(player_id, connection));
                Some(reaction)
            },
            None => {
                assert(self.sessions() =~= old(self).sessions());
                None
            },
        }
    }

    /// Lets the session of `player_id` decide on a frame that arrives at the
    /// time of the call, which the session's clock gives.
    fn session_receive(&mut self, player_id: PlayerId, frame: Frame) -> (reaction: Option<Reaction>)
        requires
            old(self).wf(),
        ensures
            exists|arrival: u64| #[trigger]
                frame_taken(*old(self), *final(self), player_id, frame, arrival, reaction),
    {
        match table_remove(&mut self.clients, player_id) {
            Some(connection) => {
                let ghost taken = connection;
                let mut connection = connection;
                let reaction = connection.receive(frame);
                table_insert(&mut self.clients, player_id, connection);
                proof {
                    assert(self.sessions() =~= old(self).sessions().insert(player_id, connection));
                    let arrival = choose|arrival: u64| #[trigger]
                        frame_received(taken, connection, frame, arrival, reaction);
                    assert(frame_taken(
                        *old(self),
                        *self,
                        player_id,
                        frame,
                        arrival,
                        Some(reaction),
                    ));
                }
                Some(reaction)
            },
            None => {
                assert(self.sessions() =~= old(self).sessions());
                assert(frame_taken(*old(self), *self, player_id, frame, 0, None));
                None
            },
        }
    }

    /// Decides on a frame that arrives at `now` on the connection of
    /// `player_id`: the session of the player decides on it, an input beyond
    /// the rate is dropped there, and what the session delivers is handled as
    /// `handle_network_event_at` does. A transport-level ping is answered
    /// with a pong. A frame for a player without a session changes nothing.
    pub fn receive_at(&mut self, player_id: PlayerId, frame: Frame, now: u64) -> (handled: Handled)
        requires
            old(self).wf(),
            frame is Message && old(self).admits(frame->Message_0)
                ==> old(self).game().next_entity_id() < u32::MAX,
        ensures
            final(self).wf(),
            frame_handled(*old(self), *final(self), player_id, frame, now, handled),
    {
        let reaction = self.session_receive_at(player_id, frame, now);
        let ghost mid = *self;
        assert(frame_taken(*old(self), mid, player_id, frame, now, reaction));
        assert(mid.sessions().dom() =~= old(self).sessions().dom());
        match reaction {
            Some(Reaction::Deliver(event)) => self.handle_network_event_at(event, now),
            Some(Reaction::Disconnect(event)) => {
                assert(frame_received(
                    old(self).sessions()[player_id],
                    mid.sessions()[player_id],
                    frame,
                    now,
                    Reaction::Disconnect(event),
                ));
                assert(event is PlayerDisconnected);
                self.handle_network_event_at(event, now)
            },
            Some(Reaction::Pong(payload)) => {
                let mut outbound: Vec<Outbound> = Vec::new();
                outbound.push(Outbound::Pong { to: player_id, payload });
                Handled { outbound, input_tick: None, released: None, closed: false, joined: None }
            },
            _ => Handled {
                outbound: Vec::new(),
                input_tick: None,
                released: None,
                closed: false,
                joined: None,
            },
        }
    }

    /// Decides on a frame that arrives at the time of the call on the
    /// connection of `player_id`, as `receive_at` does for some time: the
    /// session's clock gives the time of the frame, and the system clock the
    /// time of the answers.
    pub fn receive(&mut self, player_id: PlayerId, frame: Frame) -> (handled: Handled)
        requires
            old(self).wf(),
            frame is Message && old(self).admits(frame->Message_0)
                ==> old(self).game().next_entity_id() < u32::MAX,
        ensures
            final(self).wf(),
            exists|arrival: u64, now: u64| #[trigger]
                frame_handled_between(
                    *old(self),
                    *final(self),
                    player_id,
                    frame,
                    arrival,
                    now,
                    handled,
                ),
    {
        let reaction = self.session_receive(player_id, frame);
        let ghost mid = *self;
        let ghost arrival = choose|arrival: u64| #[trigger]
            frame_taken(*old(self), mid, player_id, frame, arrival, reaction);
        assert(frame_taken(*old(self), mid, player_id, frame, arrival, reaction));
        assert(mid.sessions().dom() =~= old(self).sessions().dom());
        let now = unix_millis();
        let handled = match reaction {
            Some(Reaction::Deliver(event)) => self.handle_network_event_at(event, now),
            Some(Reaction::Disconnect(event)) => {
                assert(frame_received(
                    old(self).sessions()[player_id],
                    mid.sessions()[player_id],
                    frame,
                    arrival,
                    Reaction::Disconnect(event),
                ));
                assert(event is PlayerDisconnected);
                self.handle_network_event_at(event, now)
            },
            Some(Reaction::Pong(payload)) => {
                let mut outbound: Vec<Outbound> = Vec::new();
                outbound.push(Outbound::Pong { to: player_id, payload });
                Handled { outbound, input_tick: None, released: None, closed: false, joined: None }
            },
            _ => Handled {
                outbound: Vec::new(),
                input_tick: None,
                released: None,
                closed: false,
                joined: None,
            },
        };
        assert(frame_handled_between(*old(self), *self, player_id, frame, arrival, now, handled));
        handled
    }

    /// Takes over the transform that the physics step left an entity.
    /// Nothing changes where the entity is gone or has no transform.
    pub fn sync_transform(&mut self, entity_id: EntityId, transform: crate::types::Transform)
        requires
            old(self).wf(),
        ensures
            final(self).wf(),
            final(self).settings() == old(self).settings(),
            final(self).sessions() == old(self).sessions(),
            final(self).bodies() == old(self).bodies(),
            final(self).synchronizer() == old(self).synchronizer(),
            final(self).compensator() == old(self).compensator(),
            final(self).game().ticks() == old(self).game().ticks(),
            final(self).game().round_time() == old(self).game().round_time(),
            final(self).game().next_entity_id() == old(self).game().next_entity_id(),
            final(self).game().scores() == old(self).game().scores(),
            final(self).game().event_log() == old(self).game().event_log(),
            final(self).game().ai() == old(self).game().ai(),
            final(self).game().world() == if old(self).game().world().contains_key(entity_id)
                && old(self).game().world()[entity_id].transform is Some {
                old(self).game().world().insert(
                    entity_id,
                    Components {
                        transform: Some(transform),
                        ..old(self).game().world()[entity_id]
                    },
                )
            } else {
                old(self).game().world()
            },
    {
        self.game_state.update_transform(entity_id, transform);
    }

    /// Records the body that the physics engine made for an entity: the
    /// entity gets the body behind `handle`, and the index of bodies names
    /// the entity under it. Nothing changes, and `false` is returned, where
    /// the entity is gone or has a body already.
    pub fn attach_body(&mut self, entity_id: EntityId, handle: PhysicsHandle) -> (attached: bool)
        requires
            old(self).wf(),
        ensures
            final(self).wf(),
            final(self).settings() == old(self).settings(),
            final(self).sessions() == old(self).sessions(),
            final(self).synchronizer() == old(self).synchronizer(),
            final(self).compensator() == old(self).compensator(),
            final(self).game().ticks() == old(self).game().ticks(),
            final(self).game().round_time() == old(self).game().round_time(),
            final(self).game().next_entity_id() == old(self).game().next_entity_id(),
            final(self).game().scores() == old(self).game().scores(),
            final(self).game().event_log() == old(self).game().event_log(),
            final(self).game().ai() == old(self).game().ai(),
            attached == (old(self).game().world().contains_key(entity_id) && old(
                self,
            ).game().world()[entity_id].body is None),
            final(self).game().world() == if attached {
                old(self).game().world().insert(
                    entity_id,
                    old(self).game().world()[entity_id].with_body(handle),
                )
            } else {
                old(self).game().world()
            },
            final(self).bodies() == if attached {
                old(self).bodies().insert(handle.spec_key(), entity_id)
            } else {
                old(self).bodies()
            },
    {
        let attached = self.game_state.attach_body(entity_id, handle);
        if attached {
            self.physics_world.register_body(handle, entity_id);
        }
        attached
    }

    /// The players to whom a broadcast goes: every live session, once.
    pub fn recipients(&self) -> (ids: Vec<PlayerId>)
        ensures
            ids@.no_duplicates(),
            ids@.to_set() == self.sessions().dom(),
    {
        table_keys(&self.clients)
    }

    /// Ends a broadcast: the sessions to which the send failed are removed,
    /// and nothing else changes, no other session either.
    pub fn drop_failed(&mut self, failed: &Vec<PlayerId>)
        requires
            old(self).wf(),
        ensures
            final(self).wf(),
            final(self).sessions() == old(self).sessions().remove_keys(failed@.to_set()),
            final(self).bodies() == old(self).bodies(),
            final(self).settings() == old(self).settings(),
            final(self).game() == old(self).game(),
            final(self).synchronizer() == old(self).synchronizer(),
            final(self).compensator() == old(self).compensator(),
    {
        let mut i: usize = 0;
        assert(self.sessions() =~= old(self).sessions().remove_keys(failed@.take(0).to_set()));
        while i < failed.len()
            invariant
                i <= failed.len(),
                self.wf(),
                self.sessions() == old(self).sessions().remove_keys(
                    failed@.take(i as int).to_set(),
                ),
                self.bodies() == old(self).bodies(),
                self.settings() == old(self).settings(),
                self.game() == old(self).game(),
                self.synchronizer() == old(self).synchronizer(),
                self.compensator() == old(self).compensator(),
            decreases failed.len() - i,
        {
            let _ = table_remove(&mut self.clients, failed[i]);
            proof {
                let done = failed@.take(i as int);
                let more = failed@.take(i + 1);
                assert(more =~= done.push(failed[i as int]));
                assert(more.to_set() =~= done.to_set().insert(failed[i as int])) by {
                    assert forall|id: PlayerId| more.to_set().contains(id)
                        <==> done.to_set().insert(failed[i as int]).contains(id) by {
                        if more.contains(id) {
                            let k = choose|k: int| 0 <= k < more.len() && more[k] == id;
                            if k < done.len() {
                                assert(done[k] == id);
                            }
                        }
                        if done.contains(id) {
                            let k = choose|k: int| 0 <= k < done.len() && done[k] == id;
                            assert(more[k] == id);
                        }
                        if id == failed[i as int] {
                            assert(more[i as int] == id);
                        }
                    }
                }
                assert(self.sessions() =~= old(self).sessions().remove_keys(more.to_set()));
            }
            i += 1;
        }
        assert(failed@.take(failed.len() as int) =~= failed@);
    }

    /// The first step of a tick: the forces that the physics engine is to
    /// apply before its step, one entry for each tank that a player drives
    /// and that has a body.
    pub fn tick_forces(&self) -> (forces: Vec<(EntityId, PhysicsHandle, crate::physics::InputForces)>)
        requires
            self.wf(),
        ensures
            forall|k: int|
                0 <= k < forces.len() ==> crate::game_state::asks_for(
                    self.game().world(),
                    #[trigger] forces[k],
                ),
            forall|id: EntityId|
                self.game().world().contains_key(id) && self.game().world()[id].is_player_tank()
                    && self.game().world()[id].body is Some ==> #[trigger] crate::game_state::asked(
                    forces@,
                    id,
                ),
            forall|k: int, l: int|
                0 <= k < l < forces.len() ==> (#[trigger] forces[k]).0 != (#[trigger] forces[l]).0,
    {
        self.game_state.input_forces()
    }

    /// The rest of a tick, after the step of the physics engine, in its fixed
    /// order: takes over the transforms that the step left, one after the
    /// other as `sync_transform` does, and then makes the tick as `tick` does.
    pub fn complete_tick(&mut self, transforms: &Vec<(EntityId, crate::types::Transform)>) -> (output:
        TickOutput)
        requires
            old(self).wf(),
            old(self).game().ticks() < u64::MAX,
        ensures
            final(self).wf(),
            exists|mid: GameServer| #[trigger]
                transforms_taken(*old(self), mid, transforms@) && tick_made(
                    mid,
                    *final(self),
                    output,
                ),
    {
        let mut i: usize = 0;
        assert(transforms@.take(0) =~= Seq::<(EntityId, crate::types::Transform)>::empty());
        while i < transforms.len()
            invariant
                i <= transforms.len(),
                transforms_taken(*old(self), *self, transforms@.take(i as int)),
            decreases transforms.len() - i,
        {
            self.sync_transform(transforms[i].0, transforms[i].1);
            proof {
                let more = transforms@.take(i + 1);
                assert(more.drop_last() =~= transforms@.take(i as int));
                assert(more.last() == transforms[i as int]);
            }
            i += 1;
        }
        assert(transforms@.take(transforms.len() as int) =~= transforms@);
        let ghost mid = *self;
        let output = self.tick();
        assert(transforms_taken(*old(self), mid, transforms@) && tick_made(mid, *self, output));
        output
    }

    /// Makes one tick, after the physics step: advances the match as
    /// `GameState::update` does, forgets the bodies of the entities that
    /// left, takes a snapshot of the match and stores it, and builds the
    /// update for every session, a delta against the tick before from the
    /// second tick on.
    pub fn tick(&mut self) -> (output: TickOutput)
        requires
            old(self).wf(),
            old(self).game().ticks() < u64::MAX,
        ensures
            final(self).wf(),
            tick_made(*old(self), *final(self), output),
    {
        let released = self.game_state.update();
        self.physics_world.remove_bodies(&released);
        let current_tick = self.game_state.tick();
        let snapshot = take_snapshot(&self.game_state);
        let copy = snapshot.clone();
        self.state_synchronizer.store_snapshot(copy);
        let reference_tick = if current_tick > 1 {
            Some(current_tick - 1)
        } else {
            None
        };
        let message = self.state_synchronizer.create_delta_update(&snapshot, reference_tick);
        TickOutput { message, released }
    }
}

/// The world after the transforms of `transforms` were taken over, one after
/// the other: each goes to its entity, if that is live and has a transform.
pub open spec fn world_with_transforms(
    world: Map<EntityId, Components>,
    transforms: Seq<(EntityId, crate::types::Transform)>,
) -> Map<EntityId, Components>
    decreases transforms.len(),
{
    if transforms.len() == 0 {
        world
    } else {
        let earlier = world_with_transforms(world, transforms.drop_last());
        let id = transforms.last().0;
        if earlier.contains_key(id) && earlier[id].transform is Some {
            earlier.insert(
                id,
                Components { transform: Some(transforms.last().1), ..earlier[id] },
            )
        } else {
            earlier
        }
    }
}

/// How the server stands after the transforms of a physics step were taken
/// over: the entities hold them, and nothing else has changed.
pub open spec fn transforms_taken(
    before: GameServer,
    mid: GameServer,
    transforms: Seq<(EntityId, crate::types::Transform)>,
) -> bool {
    &&& mid.wf()
    &&& mid.settings() == before.settings()
    &&& mid.sessions() == before.sessions()
    &&& mid.bodies() == before.bodies()
    &&& mid.synchronizer() == before.synchronizer()
    &&& mid.compensator() == before.compensator()
    &&& mid.game().ticks() == before.game().ticks()
    &&& mid.game().round_time() == before.game().round_time()
    &&& mid.game().next_entity_id() == before.game().next_entity_id()
    &&& mid.game().scores() == before.game().scores()
    &&& mid.game().event_log() == before.game().event_log()
    &&& mid.game().ai() == before.game().ai()
    &&& mid.game().world() == world_with_transforms(before.game().world(), transforms)
}

/// What `GameServer::tick` makes of the server: the match advances as
/// `GameState::update` says, the bodies of the entities that left are
/// forgotten, the snapshot of the new tick is stored, and the update is the
/// full state or the delta against the tick before.
pub open spec fn tick_made(before: GameServer, after: GameServer, output: TickOutput) -> bool {
    &&& after.settings() == before.settings()
    &&& after.sessions() == before.sessions()
    &&& after.compensator() == before.compensator()
    &&& after.bodies() == without_bodies(before.bodies(), output.released@)
    &&& after.game().ticks() == before.game().ticks() + 1
    &&& after.game().next_entity_id() == before.game().next_entity_id()
    &&& after.game().scores() == before.game().scores()
    &&& after.game().event_log() == trimmed(before.game().event_log())
    &&& after.game().round_time() == saturating_sum(
        before.game().round_time(),
        before.game().timestep(),
    )
    &&& after.game().ai() == before.game().ai()
    &&& world_after_tick(
        before.game().world(),
        before.game().timestep(),
        before.game().ai(),
        after.game().world(),
    )
    &&& forall|k: int|
        0 <= k < output.released.len() ==> body_of_spent(
            before.game().world(),
            before.game().timestep(),
            #[trigger] output.released[k],
        )
    &&& forall|id: EntityId|
        before.game().world().contains_key(id) && (#[trigger] stepped(
            before.game().world()[id],
            before.game().timestep(),
        )).is_spent() && stepped(
            before.game().world()[id],
            before.game().timestep(),
        ).handle() is Some ==> output.released@.contains(
            stepped(before.game().world()[id], before.game().timestep()).handle()->0,
        )
    &&& after.synchronizer().interval() == before.synchronizer().interval()
    &&& after.synchronizer().window() == before.synchronizer().window()
    &&& after.synchronizer().thresholds() == before.synchronizer().thresholds()
    &&& after.synchronizer().history().contains_key(after.game().ticks())
    &&& after.synchronizer().history() == before.synchronizer().history().insert(
        after.game().ticks(),
        after.synchronizer().history()[after.game().ticks()],
    ).restrict(
        retained(before.synchronizer().window(), after.game().ticks()),
    )
    &&& snapshot_of(
        after.game(),
        after.synchronizer().history()[after.game().ticks()],
    )
    &&& output.message.message_type matches Some(MessageType::GameStateUpdate(update)) && {
        let tick = after.game().ticks();
        let reference = if tick > 1 {
            Some((tick - 1) as u64)
        } else {
            None
        };
        let stored = after.synchronizer().history();
        &&& update.tick == tick
        &&& update.is_delta_update == !sends_full(
            reference,
            tick,
            before.synchronizer().last_full(),
            before.synchronizer().interval(),
            stored.dom(),
        )
        &&& after.synchronizer().last_full() == if update.is_delta_update {
            before.synchronizer().last_full()
        } else {
            tick
        }
        &&& update@ == update_for(
            stored[tick],
            if update.is_delta_update {
                Some(stored[(tick - 1) as u64])
            } else {
                None
            },
            after.synchronizer().last_full(),
            before.synchronizer().thresholds().0,
            before.synchronizer().thresholds().1,
            before.synchronizer().thresholds().2,
        )
    }
}

/// How the sessions change when one is opened for `player_id`: the player has
/// a new session, in place of one that it had, and no other session changes.
pub open spec fn session_opened(
    before: Map<PlayerId, ClientConnection>,
    after: Map<PlayerId, ClientConnection>,
    player_id: PlayerId,
) -> bool {
    &&& after.contains_key(player_id)
    &&& after == before.insert(player_id, after[player_id])
    &&& is_new_session(after[player_id], player_id)
}

/// The tick at which an input of a player that arrives now is taken to have
/// been given: the current tick, moved back by the player's latency.
pub open spec fn input_tick_of(server: GameServer, player_id: PlayerId) -> u64 {
    compensated_tick(
        if server.compensator().latencies().contains_key(player_id) {
            Some(server.compensator().latencies()[player_id])
        } else {
            None
        },
        server.game().ticks(),
        server.settings().server.tick_rate,
    )
}

/// The tank that a request to join gets: the next entity where a place is
/// left, and none otherwise.
pub open spec fn joined_entity(before: GameServer) -> Option<EntityId> {
    if before.has_place() {
        Some(before.game().next_entity_id())
    } else {
        None
    }
}

/// What `handle_join` makes of a request to join that arrives at `now`.
pub open spec fn join_handled(
    before: GameServer,
    after: GameServer,
    player_id: PlayerId,
    request: JoinGameRequest,
    now: u64,
    outbound: Seq<Outbound>,
) -> bool {
    let known = before.sessions().contains_key(player_id);
    &&& after.compensator() == before.compensator()
    &&& if !before.has_place() {
        &&& after.game() == before.game()
        &&& after.synchronizer() == before.synchronizer()
        &&& if known {
            outbound.len() == 1 && is_refusal(outbound[0], player_id, now)
        } else {
            outbound.len() == 0
        }
    } else {
        let entity_id = before.game().next_entity_id();
        &&& after.game().next_entity_id() == entity_id + 1
        &&& after.game().world() == before.game().world().insert(
            entity_id,
            Components::unattached_player_tank(
                player_id,
                request.display_name,
                crate::types::Transform {
                    position: crate::types::Vector3 { x: 0, y: 0, z: 0 },
                    rotation: 0,
                },
            ),
        )
        &&& after.game().scores() == before.game().scores().insert(
            player_id,
            crate::types::PlayerScore { kills: 0, deaths: 0, npc_kills: 0 },
        )
        &&& after.game().event_log() == before.game().event_log().push(
            GameEventView::PlayerJoined {
                player_id,
                name: request.display_name@,
                team: crate::types::Team::Red,
            },
        )
        &&& if known {
            &&& outbound.len() == 2
            &&& is_welcome(outbound[0], player_id, entity_id, before.settings(), now)
            &&& is_initial_state(
                outbound[1],
                player_id,
                before.game().ticks(),
                before.synchronizer(),
            )
            &&& after.synchronizer().last_full() == before.game().ticks()
            &&& after.synchronizer().history() == before.synchronizer().history()
            &&& after.synchronizer().interval() == before.synchronizer().interval()
            &&& after.synchronizer().window() == before.synchronizer().window()
            &&& after.synchronizer().thresholds() == before.synchronizer().thresholds()
        } else {
            &&& outbound.len() == 0
            &&& after.synchronizer() == before.synchronizer()
        }
    }
}

/// What `handle_client_message_at` makes of a message of a player that
/// arrives at `now`.
///
/// A request to join is refused where the sessions number `max_players` or
/// more; otherwise the player gets a tank, and is sent a welcome and then the
/// first state, which counts as a full state. An input goes to the tank that
/// the player drives, and its tick is moved back by the player's latency. A
/// ping sets the player's latency and is answered with a pong. A line of chat
/// goes to every session. Any other message changes nothing and has no
/// answer. A player without a session is sent nothing.
pub open spec fn message_handled(
    before: GameServer,
    after: GameServer,
    player_id: PlayerId,
    message: NetworkMessage,
    now: u64,
    handled: Handled,
) -> bool {
    let known = before.sessions().contains_key(player_id);
    &&& after.settings() == before.settings()
    &&& after.sessions() == before.sessions()
    &&& after.bodies() == before.bodies()
    &&& after.game().ticks() == before.game().ticks()
    &&& after.game().round_time() == before.game().round_time()
    &&& after.game().ai() == before.game().ai()
    &&& handled.released is None
    &&& !handled.closed
    &&& handled.joined == if message.message_type is Some && message.message_type->0
        is JoinGameRequest {
        joined_entity(before)
    } else {
        None
    }
    &&& match message.message_type {
        Some(MessageType::JoinGameRequest(request)) => {
            &&& handled.input_tick is None
            &&& join_handled(before, after, player_id, request, now, handled.outbound@)
        },
        Some(MessageType::PlayerInput(input)) => {
            &&& handled.outbound.len() == 0
            &&& handled.input_tick == Some(input_tick_of(before, player_id))
            &&& after.compensator() == before.compensator()
            &&& after.synchronizer() == before.synchronizer()
            &&& after.game().next_entity_id() == before.game().next_entity_id()
            &&& after.game().scores() == before.game().scores()
            &&& after.game().event_log() == before.game().event_log()
            &&& input_replaced(
                before.game().world(),
                after.game().world(),
                player_id,
                input.spec_to_component(),
            )
        },
        Some(MessageType::PingRequest(ping)) => {
            &&& handled.input_tick is None
            &&& after.game() == before.game()
            &&& after.synchronizer() == before.synchronizer()
            &&& after.compensator().limit() == before.compensator().limit()
            &&& after.compensator().latencies() == before.compensator().latencies().insert(
                player_id,
                clamped(ping_latency(now, ping.client_timestamp), before.compensator().limit()),
            )
            &&& if known {
                handled.outbound.len() == 1 && handled.outbound[0] == (Outbound::Send {
                    to: player_id,
                    message: NetworkMessage {
                        timestamp: now,
                        message_type: Some(
                            MessageType::PongResponse(
                                PongResponse {
                                    client_timestamp: ping.client_timestamp,
                                    server_timestamp: now,
                                    sequence_number: ping.sequence_number,
                                },
                            ),
                        ),
                    },
                })
            } else {
                handled.outbound.len() == 0
            }
        },
        Some(MessageType::ChatMessage(chat)) => {
            &&& handled.input_tick is None
            &&& after.game() == before.game()
            &&& after.synchronizer() == before.synchronizer()
            &&& after.compensator() == before.compensator()
            &&& handled.outbound.len() == 1
            &&& handled.outbound[0] == (Outbound::Broadcast {
                message: NetworkMessage {
                    timestamp: now,
                    message_type: Some(MessageType::ChatMessage(chat)),
                },
            })
        },
        _ => {
            &&& handled.input_tick is None
            &&& after.game() == before.game()
            &&& after.synchronizer() == before.synchronizer()
            &&& after.compensator() == before.compensator()
            &&& handled.outbound.len() == 0
        },
    }
}

/// What `handle_network_event_at` makes of an event of a connection that
/// arrives at `now`: a new connection changes nothing, a lost one takes its
/// player out of the match and its session out of the table, and a message
/// is handled as `message_handled` says.
pub open spec fn event_handled(
    before: GameServer,
    after: GameServer,
    event: NetworkEvent,
    now: u64,
    handled: Handled,
) -> bool {
    match event {
        NetworkEvent::PlayerConnected { player_id } => {
            &&& after.settings() == before.settings()
            &&& after.game() == before.game()
            &&& after.sessions() == before.sessions()
            &&& after.bodies() == before.bodies()
            &&& after.synchronizer() == before.synchronizer()
            &&& after.compensator() == before.compensator()
            &&& handled.outbound.len() == 0
            &&& handled.input_tick is None
            &&& handled.released is None
            &&& handled.joined is None
            &&& !handled.closed
        },
        NetworkEvent::PlayerDisconnected { player_id } => {
            &&& after.settings() == before.settings()
            &&& after.sessions() == before.sessions().remove(player_id)
            &&& after.synchronizer() == before.synchronizer()
            &&& after.compensator() == before.compensator()
            &&& after.game().ticks() == before.game().ticks()
            &&& after.game().round_time() == before.game().round_time()
            &&& after.game().ai() == before.game().ai()
            &&& after.game().next_entity_id() == before.game().next_entity_id()
            &&& after.game().scores() == before.game().scores().remove(player_id)
            &&& after.game().event_log() == before.game().event_log().push(
                GameEventView::PlayerLeft { player_id },
            )
            &&& player_removed(
                before.game().world(),
                after.game().world(),
                player_id,
                handled.released,
            )
            &&& after.bodies() == match handled.released {
                Some(handle) => before.bodies().remove(handle.spec_key()),
                None => before.bodies(),
            }
            &&& handled.outbound.len() == 0
            &&& handled.input_tick is None
            &&& handled.joined is None
            &&& handled.closed
        },
        NetworkEvent::MessageReceived { player_id, message } => message_handled(
            before,
            after,
            player_id,
            message,
            now,
            handled,
        ),
    }
}

/// What the session table makes of a frame before the server acts on it:
/// the session of the player decides on the frame as `session_received`
/// says, and nothing but the sessions changes.
pub open spec fn frame_taken(
    before: GameServer,
    mid: GameServer,
    player_id: PlayerId,
    frame: Frame,
    arrival: u64,
    reaction: Option<Reaction>,
) -> bool {
    &&& mid.wf()
    &&& mid.settings() == before.settings()
    &&& mid.game() == before.game()
    &&& mid.bodies() == before.bodies()
    &&& mid.synchronizer() == before.synchronizer()
    &&& mid.compensator() == before.compensator()
    &&& session_received(before.sessions(), mid.sessions(), player_id, frame, arrival, reaction)
}

/// What the server makes of the reaction of a session at `now`: what the
/// session delivers, or its end, is handled as `event_handled` says; a
/// transport-level pong is handed on; anything else changes nothing and has
/// no answer.
pub open spec fn reaction_handled(
    mid: GameServer,
    after: GameServer,
    player_id: PlayerId,
    reaction: Option<Reaction>,
    now: u64,
    handled: Handled,
) -> bool {
    match reaction {
        Some(Reaction::Deliver(event)) => event_handled(mid, after, event, now, handled),
        Some(Reaction::Disconnect(event)) => event_handled(mid, after, event, now, handled),
        Some(Reaction::Pong(payload)) => {
            &&& after == mid
            &&& handled.outbound@ == seq![Outbound::Pong { to: player_id, payload }]
            &&& handled.input_tick is None
            &&& handled.released is None
            &&& handled.joined is None
            &&& !handled.closed
        },
        _ => {
            &&& after == mid
            &&& handled.outbound.len() == 0
            &&& handled.input_tick is None
            &&& handled.released is None
            &&& handled.joined is None
            &&& !handled.closed
        },
    }
}

/// What `receive` makes of a frame that the session takes at `arrival` on
/// its own clock and that the server answers at `now`.
pub open spec fn frame_handled_between(
    before: GameServer,
    after: GameServer,
    player_id: PlayerId,
    frame: Frame,
    arrival: u64,
    now: u64,
    handled: Handled,
) -> bool {
    exists|mid: GameServer, reaction: Option<Reaction>| #[trigger]
        frame_taken(before, mid, player_id, frame, arrival, reaction) && reaction_handled(
            mid,
            after,
            player_id,
            reaction,
            now,
            handled,
        )
}

/// What `receive_at` makes of a frame that arrives at `now`.
pub open spec fn frame_handled(
    before: GameServer,
    after: GameServer,
    player_id: PlayerId,
    frame: Frame,
    now: u64,
    handled: Handled,
) -> bool {
    frame_handled_between(before, after, player_id, frame, now, now, handled)
}

} // verus!

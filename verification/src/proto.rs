//! The messages that clients and the server exchange, as plain values.

use vstd::prelude::*;
use crate::clock::unix_millis;
use crate::events::{clone_events, event_views, GameEvent, GameEventView};
use crate::types::Vector3;

verus! {

/// Team of a tank on the wire.
#[derive(Debug, Clone, Copy, PartialEq, Eq, Structural)]
pub enum TeamColor {
    TeamRed,
    TeamBlue,
    TeamNeutral,
}

impl TeamColor {
    /// The number that stands for the team in a message.
    pub open spec fn spec_code(self) -> i32 {
        match self {
            TeamColor::TeamRed => 0,
            TeamColor::TeamBlue => 1,
            TeamColor::TeamNeutral => 2,
        }
    }

    #[verifier::when_used_as_spec(spec_code)]
    pub fn code(self) -> (c: i32)
        ensures
            c == self.spec_code(),
    {
        match self {
            TeamColor::TeamRed => 0,
            TeamColor::TeamBlue => 1,
            TeamColor::TeamNeutral => 2,
        }
    }
}

/// Kind of a power-up on the wire.
#[derive(Debug, Clone, Copy, PartialEq, Eq, Structural)]
pub enum PowerUpType {
    Health,
    Speed,
    Damage,
    Shield,
}

impl PowerUpType {
    /// The number that stands for the kind in a message.
    pub open spec fn spec_code(self) -> i32 {
        match self {
            PowerUpType::Health => 0,
            PowerUpType::Speed => 1,
            PowerUpType::Damage => 2,
            PowerUpType::Shield => 3,
        }
    }

    #[verifier::when_used_as_spec(spec_code)]
    pub fn code(self) -> (c: i32)
        ensures
            c == self.spec_code(),
    {
        match self {
            PowerUpType::Health => 0,
            PowerUpType::Speed => 1,
            PowerUpType::Damage => 2,
            PowerUpType::Shield => 3,
        }
    }
}

/// A point on the map plane.
#[derive(Debug, Clone, Copy, PartialEq, Eq, Structural)]
pub struct Vector2 {
    pub x: i32,
    pub y: i32,
}

impl Vector2 {
    pub fn new(x: i32, y: i32) -> (v: Vector2)
        ensures
            v == (Vector2 { x, y }),
    {
        Vector2 { x, y }
    }
}

/// A power-up that a tank currently carries.
#[derive(Debug, Clone, Copy, PartialEq, Eq, Structural)]
pub struct ActivePowerUp {
    pub power_up_type: i32,
    pub time_remaining: u64,
}

/// State of one tank in a snapshot or an update.
#[derive(Debug)]
pub struct TankState {
    pub entity_id: u32,
    pub player_id: String,
    pub display_name: String,
    pub position: Option<Vector3>,
    pub body_rotation: i32,
    pub turret_rotation: i32,
    pub health: u32,
    pub max_health: u32,
    pub team: i32,
    pub active_powerups: Vec<ActivePowerUp>,
    pub is_invulnerable: bool,
    pub invulnerability_remaining: u64,
}

/// What a `TankState` says.
pub struct TankStateView {
    pub entity_id: u32,
    pub player_id: Seq<char>,
    pub display_name: Seq<char>,
    pub position: Option<Vector3>,
    pub body_rotation: i32,
    pub turret_rotation: i32,
    pub health: u32,
    pub max_health: u32,
    pub team: i32,
    pub active_powerups: Seq<ActivePowerUp>,
    pub is_invulnerable: bool,
    pub invulnerability_remaining: u64,
}

impl View for TankState {
    type V = TankStateView;

    open spec fn view(&self) -> TankStateView {
        TankStateView {
            entity_id: self.entity_id,
            player_id: self.player_id@,
            display_name: self.display_name@,
            position: self.position,
            body_rotation: self.body_rotation,
            turret_rotation: self.turret_rotation,
            health: self.health,
            max_health: self.max_health,
            team: self.team,
            active_powerups: self.active_powerups@,
            is_invulnerable: self.is_invulnerable,
            invulnerability_remaining: self.invulnerability_remaining,
        }
    }
}

fn copy_powerups(list: &Vec<ActivePowerUp>) -> (r: Vec<ActivePowerUp>)
    ensures
        r@ == list@,
{
    let mut r: Vec<ActivePowerUp> = Vec::new();
    let mut i: usize = 0;
    while i < list.len()
        invariant
            i <= list.len(),
            r@ == list@.take(i as int),
        decreases list.len() - i,
    {
        r.push(list[i]);
        assert(r@ =~= list@.take(i + 1));
        i += 1;
    }
    assert(r@ =~= list@);
    r
}

impl Clone for TankState {
    fn clone(&self) -> (r: TankState)
        ensures
            r@ == self@,
    {
        TankState {
            entity_id: self.entity_id,
            player_id: self.player_id.clone(),
            display_name: self.display_name.clone(),
            position: self.position,
            body_rotation: self.body_rotation,
            turret_rotation: self.turret_rotation,
            health: self.health,
            max_health: self.max_health,
            team: self.team,
            active_powerups: copy_powerups(&self.active_powerups),
            is_invulnerable: self.is_invulnerable,
            invulnerability_remaining: self.invulnerability_remaining,
        }
    }
}

impl TankState {
    /// A tank at full health, facing along the axis, without power-ups.
    pub fn new(
        entity_id: u32,
        player_id: String,
        display_name: String,
        position: Vector3,
        team: TeamColor,
    ) -> (t: TankState)
        ensures
            t@ == (TankStateView {
                entity_id,
                player_id: player_id@,
                display_name: display_name@,
                position: Some(position),
                body_rotation: 0,
                turret_rotation: 0,
                health: 100,
                max_health: 100,
                team: team.spec_code(),
                active_powerups: Seq::<ActivePowerUp>::empty(),
                is_invulnerable: false,
                invulnerability_remaining: 0,
            }),
    {
        TankState {
            entity_id,
            player_id,
            display_name,
            position: Some(position),
            body_rotation: 0,
            turret_rotation: 0,
            health: 100,
            max_health: 100,
            team: team.code(),
            active_powerups: Vec::new(),
            is_invulnerable: false,
            invulnerability_remaining: 0,
        }
    }
}

/// The views of a list of tanks, in order.
pub open spec fn tank_views(tanks: Seq<TankState>) -> Seq<TankStateView> {
    tanks.map_values(|t: TankState| t@)
}

/// Copies a list of tanks.
pub fn clone_tanks(tanks: &Vec<TankState>) -> (r: Vec<TankState>)
    ensures
        tank_views(r@) == tank_views(tanks@),
{
    let r = tanks.clone();
    assert(tank_views(r@) =~= tank_views(tanks@));
    r
}

/// State of one projectile in a snapshot or an update.
#[derive(Debug)]
pub struct ProjectileState {
    pub entity_id: u32,
    pub owner_id: String,
    pub position: Option<Vector3>,
    pub velocity: Option<Vector3>,
    pub damage: u32,
    pub team: i32,
    pub lifetime_remaining: u64,
}

/// What a `ProjectileState` says.
pub struct ProjectileStateView {
    pub entity_id: u32,
    pub owner_id: Seq<char>,
    pub position: Option<Vector3>,
    pub velocity: Option<Vector3>,
    pub damage: u32,
    pub team: i32,
    pub lifetime_remaining: u64,
}

impl View for ProjectileState {
    type V = ProjectileStateView;

    open spec fn view(&self) -> ProjectileStateView {
        ProjectileStateView {
            entity_id: self.entity_id,
            owner_id: self.owner_id@,
            position: self.position,
            velocity: self.velocity,
            damage: self.damage,
            team: self.team,
            lifetime_remaining: self.lifetime_remaining,
        }
    }
}

impl Clone for ProjectileState {
    fn clone(&self) -> (r: ProjectileState)
        ensures
            r@ == self@,
    {
        ProjectileState {
            entity_id: self.entity_id,
            owner_id: self.owner_id.clone(),
            position: self.position,
            velocity: self.velocity,
            damage: self.damage,
            team: self.team,
            lifetime_remaining: self.lifetime_remaining,
        }
    }
}

impl ProjectileState {
    /// A projectile with five seconds of flight left.
    pub fn new(
        entity_id: u32,
        owner_id: String,
        position: Vector3,
        velocity: Vector3,
        damage: u32,
        team: TeamColor,
    ) -> (p: ProjectileState)
        ensures
            p@ == (ProjectileStateView {
                entity_id,
                owner_id: owner_id@,
                position: Some(position),
                velocity: Some(velocity),
                damage,
                team: team.spec_code(),
                lifetime_remaining: 5_000_000,
            }),
    {
        ProjectileState {
            entity_id,
            owner_id,
            position: Some(position),
            velocity: Some(velocity),
            damage,
            team: team.code(),
            lifetime_remaining: 5_000_000,
        }
    }
}

/// The views of a list of projectiles, in order.
pub open spec fn projectile_views(list: Seq<ProjectileState>) -> Seq<ProjectileStateView> {
    list.map_values(|p: ProjectileState| p@)
}

/// Copies a list of projectiles.
pub fn clone_projectiles(list: &Vec<ProjectileState>) -> (r: Vec<ProjectileState>)
    ensures
        projectile_views(r@) == projectile_views(list@),
{
    let r = list.clone();
    assert(projectile_views(r@) =~= projectile_views(list@));
    r
}

/// State of one power-up in a snapshot or an update.
#[derive(Debug, Clone, Copy, PartialEq, Eq, Structural)]
pub struct PowerUpState {
    pub entity_id: u32,
    pub power_up_type: i32,
    pub position: Option<Vector3>,
    pub is_available: bool,
    pub respawn_timer: u64,
}

impl PowerUpState {
    /// A power-up that lies ready to be taken.
    pub fn new(entity_id: u32, power_up_type: PowerUpType, position: Vector3) -> (p: PowerUpState)
        ensures
            p == (PowerUpState {
                entity_id,
                power_up_type: power_up_type.spec_code(),
                position: Some(position),
                is_available: true,
                respawn_timer: 0,
            }),
    {
        PowerUpState {
            entity_id,
            power_up_type: power_up_type.code(),
            position: Some(position),
            is_available: true,
            respawn_timer: 0,
        }
    }
}

/// Copies a list of power-ups.
pub fn clone_power_ups(list: &Vec<PowerUpState>) -> (r: Vec<PowerUpState>)
    ensures
        r@ == list@,
{
    let mut r: Vec<PowerUpState> = Vec::new();
    let mut i: usize = 0;
    while i < list.len()
        invariant
            i <= list.len(),
            r@ == list@.take(i as int),
        decreases list.len() - i,
    {
        r.push(list[i]);
        assert(r@ =~= list@.take(i + 1));
        i += 1;
    }
    assert(r@ =~= list@);
    r
}

/// Score line of one player in a snapshot or an update.
#[derive(Debug)]
pub struct PlayerScore {
    pub player_id: String,
    pub kills: u32,
    pub deaths: u32,
    pub npc_kills: u32,
}

/// What a `PlayerScore` line says.
pub struct PlayerScoreView {
    pub player_id: Seq<char>,
    pub kills: u32,
    pub deaths: u32,
    pub npc_kills: u32,
}

impl View for PlayerScore {
    type V = PlayerScoreView;

    open spec fn view(&self) -> PlayerScoreView {
        PlayerScoreView {
            player_id: self.player_id@,
            kills: self.kills,
            deaths: self.deaths,
            npc_kills: self.npc_kills,
        }
    }
}

impl Clone for PlayerScore {
    fn clone(&self) -> (r: PlayerScore)
        ensures
            r@ == self@,
    {
        PlayerScore {
            player_id: self.player_id.clone(),
            kills: self.kills,
            deaths: self.deaths,
            npc_kills: self.npc_kills,
        }
    }
}

/// The views of a list of score lines, in order.
pub open spec fn score_views(list: Seq<PlayerScore>) -> Seq<PlayerScoreView> {
    list.map_values(|s: PlayerScore| s@)
}

/// Copies a list of score lines.
pub fn clone_scores(list: &Vec<PlayerScore>) -> (r: Vec<PlayerScore>)
    ensures
        score_views(r@) == score_views(list@),
{
    let r = list.clone();
    assert(score_views(r@) =~= score_views(list@));
    r
}

/// The rules of a match, as told to a joining client.
#[derive(Debug, Clone, Copy, PartialEq, Eq, Structural)]
pub struct GameConfig {
    pub tick_rate: u32,
    pub max_players: u32,
    pub round_duration: u64,
    pub respawn_time: u64,
    pub invulnerability_time: u64,
    pub map_size: Option<Vector2>,
}

/// The state of the match at one tick, whole or as a delta.
#[derive(Debug)]
pub struct GameStateUpdate {
    pub tick: u64,
    pub round_time_remaining: u64,
    pub tanks: Vec<TankState>,
    pub projectiles: Vec<ProjectileState>,
    pub power_ups: Vec<PowerUpState>,
    pub events: Vec<GameEvent>,
    pub scores: Vec<PlayerScore>,
    pub is_delta_update: bool,
    pub full_state_tick: u32,
}

/// What a `GameStateUpdate` says.
pub struct GameStateUpdateView {
    pub tick: u64,
    pub round_time_remaining: u64,
    pub tanks: Seq<TankStateView>,
    pub projectiles: Seq<ProjectileStateView>,
    pub power_ups: Seq<PowerUpState>,
    pub events: Seq<GameEventView>,
    pub scores: Seq<PlayerScoreView>,
    pub is_delta_update: bool,
    pub full_state_tick: u32,
}

impl View for GameStateUpdate {
    type V = GameStateUpdateView;

    open spec fn view(&self) -> GameStateUpdateView {
        GameStateUpdateView {
            tick: self.tick,
            round_time_remaining: self.round_time_remaining,
            tanks: tank_views(self.tanks@),
            projectiles: projectile_views(self.projectiles@),
            power_ups: self.power_ups@,
            events: event_views(self.events@),
            scores: score_views(self.scores@),
            is_delta_update: self.is_delta_update,
            full_state_tick: self.full_state_tick,
        }
    }
}

impl Clone for GameStateUpdate {
    fn clone(&self) -> (r: GameStateUpdate)
        ensures
            r@ == self@,
    {
        GameStateUpdate {
            tick: self.tick,
            round_time_remaining: self.round_time_remaining,
            tanks: clone_tanks(&self.tanks),
            projectiles: clone_projectiles(&self.projectiles),
            power_ups: clone_power_ups(&self.power_ups),
            events: clone_events(&self.events),
            scores: clone_scores(&self.scores),
            is_delta_update: self.is_delta_update,
            full_state_tick: self.full_state_tick,
        }
    }
}

/// The low 32 bits of a tick, as the wire carries the tick of a full state.
pub open spec fn tick_low_bits(tick: u64) -> u32 {
    (tick % 0x1_0000_0000) as u32
}

/// Computes `tick_low_bits`.
pub fn low_bits(tick: u64) -> (r: u32)
    ensures
        r == tick_low_bits(tick),
{
    (tick % 0x1_0000_0000) as u32
}

impl GameStateUpdate {
    /// An empty full-state update for `tick`.
    pub fn new(tick: u64) -> (u: GameStateUpdate)
        ensures
            u@ == (GameStateUpdateView {
                tick,
                round_time_remaining: 0,
                tanks: Seq::<TankStateView>::empty(),
                projectiles: Seq::<ProjectileStateView>::empty(),
                power_ups: Seq::<PowerUpState>::empty(),
                events: Seq::<GameEventView>::empty(),
                scores: Seq::<PlayerScoreView>::empty(),
                is_delta_update: false,
                full_state_tick: tick_low_bits(tick),
            }),
    {
        let u = GameStateUpdate {
            tick,
            round_time_remaining: 0,
            tanks: Vec::new(),
            projectiles: Vec::new(),
            power_ups: Vec::new(),
            events: Vec::new(),
            scores: Vec::new(),
            is_delta_update: false,
            full_state_tick: low_bits(tick),
        };
        assert(u@.tanks =~= Seq::<TankStateView>::empty());
        assert(u@.projectiles =~= Seq::<ProjectileStateView>::empty());
        assert(u@.events =~= Seq::<GameEventView>::empty());
        assert(u@.scores =~= Seq::<PlayerScoreView>::empty());
        u
    }

    /// An empty delta update for `tick`, relative to the full state of
    /// `full_state_tick`.
    pub fn delta(tick: u64, full_state_tick: u32) -> (u: GameStateUpdate)
        ensures
            u@ == (GameStateUpdateView {
                tick,
                round_time_remaining: 0,
                tanks: Seq::<TankStateView>::empty(),
                projectiles: Seq::<ProjectileStateView>::empty(),
                power_ups: Seq::<PowerUpState>::empty(),
                events: Seq::<GameEventView>::empty(),
                scores: Seq::<PlayerScoreView>::empty(),
                is_delta_update: true,
                full_state_tick,
            }),
    {
        let u = GameStateUpdate {
            tick,
            round_time_remaining: 0,
            tanks: Vec::new(),
            projectiles: Vec::new(),
            power_ups: Vec::new(),
            events: Vec::new(),
            scores: Vec::new(),
            is_delta_update: true,
            full_state_tick,
        };
        assert(u@.tanks =~= Seq::<TankStateView>::empty());
        assert(u@.projectiles =~= Seq::<ProjectileStateView>::empty());
        assert(u@.events =~= Seq::<GameEventView>::empty());
        assert(u@.scores =~= Seq::<PlayerScoreView>::empty());
        u
    }
}

/// A player's input as sent by a client.
#[derive(Debug, Clone, Copy, PartialEq, Eq, Structural)]
pub struct PlayerInput {
    pub forward: bool,
    pub backward: bool,
    pub rotate_left: bool,
    pub rotate_right: bool,
    pub fire: bool,
    pub turret_angle: i32,
    pub timestamp: u64,
    pub sequence_number: u32,
}

impl PlayerInput {
    /// An input stamped with the given time.
    pub fn at(
        timestamp: u64,
        forward: bool,
        backward: bool,
        rotate_left: bool,
        rotate_right: bool,
        fire: bool,
        turret_angle: i32,
        sequence_number: u32,
    ) -> (i: PlayerInput)
        ensures
            i == (PlayerInput {
                forward,
                backward,
                rotate_left,
                rotate_right,
                fire,
                turret_angle,
                timestamp,
                sequence_number,
            }),
    {
        PlayerInput {
            forward,
            backward,
            rotate_left,
            rotate_right,
            fire,
            turret_angle,
            timestamp,
            sequence_number,
        }
    }

    /// An input stamped with the time of the call.
    pub fn new(
        forward: bool,
        backward: bool,
        rotate_left: bool,
        rotate_right: bool,
        fire: bool,
        turret_angle: i32,
        sequence_number: u32,
    ) -> (i: PlayerInput)
        ensures
            i == (PlayerInput { timestamp: i.timestamp, ..PlayerInput {
                forward,
                backward,
                rotate_left,
                rotate_right,
                fire,
                turret_angle,
                timestamp: 0,
                sequence_number,
            } }),
    {
        PlayerInput::at(
            unix_millis(),
            forward,
            backward,
            rotate_left,
            rotate_right,
            fire,
            turret_angle,
            sequence_number,
        )
    }

    /// The input as the simulation holds it.
    pub open spec fn spec_to_component(self) -> crate::types::PlayerInput {
        crate::types::PlayerInput {
            forward: self.forward,
            backward: self.backward,
            rotate_left: self.rotate_left,
            rotate_right: self.rotate_right,
            fire: self.fire,
            turret_angle: self.turret_angle,
            timestamp: self.timestamp,
        }
    }

    #[verifier::when_used_as_spec(spec_to_component)]
    pub fn to_component(self) -> (c: crate::types::PlayerInput)
        ensures
            c == self.spec_to_component(),
    {
        crate::types::PlayerInput {
            forward: self.forward,
            backward: self.backward,
            rotate_left: self.rotate_left,
            rotate_right: self.rotate_right,
            fire: self.fire,
            turret_angle: self.turret_angle,
            timestamp: self.timestamp,
        }
    }
}

/// A client asks to enter the match.
#[derive(Debug)]
pub struct JoinGameRequest {
    pub display_name: String,
    pub client_version: String,
}

/// Version that this library reports in a join request.
pub open spec fn client_version() -> Seq<char> {
    "0.1.0"@
}

impl JoinGameRequest {
    /// A join request under `display_name`, with this library's version.
    pub fn new(display_name: String) -> (r: JoinGameRequest)
        ensures
            r.display_name@ == display_name@,
            r.client_version@ == client_version(),
            r.client_version@.len() == 5,
    {
        proof {
            reveal_strlit("0.1.0");
        }
        JoinGameRequest { display_name, client_version: "0.1.0".to_string() }
    }
}

impl Clone for JoinGameRequest {
    fn clone(&self) -> (r: JoinGameRequest)
        ensures
            r.display_name@ == self.display_name@,
            r.client_version@ == self.client_version@,
    {
        JoinGameRequest {
            display_name: self.display_name.clone(),
            client_version: self.client_version.clone(),
        }
    }
}

/// The server's answer to a join request.
#[derive(Debug)]
pub struct JoinGameResponse {
    pub success: bool,
    pub error_message: String,
    pub player_id: String,
    pub assigned_entity_id: u32,
    pub game_config: Option<GameConfig>,
}

/// What a `JoinGameResponse` says.
pub struct JoinGameResponseView {
    pub success: bool,
    pub error_message: Seq<char>,
    pub player_id: Seq<char>,
    pub assigned_entity_id: u32,
    pub game_config: Option<GameConfig>,
}

impl View for JoinGameResponse {
    type V = JoinGameResponseView;

    open spec fn view(&self) -> JoinGameResponseView {
        JoinGameResponseView {
            success: self.success,
            error_message: self.error_message@,
            player_id: self.player_id@,
            assigned_entity_id: self.assigned_entity_id,
            game_config: self.game_config,
        }
    }
}

impl Clone for JoinGameResponse {
    fn clone(&self) -> (r: JoinGameResponse)
        ensures
            r@ == self@,
    {
        JoinGameResponse {
            success: self.success,
            error_message: self.error_message.clone(),
            player_id: self.player_id.clone(),
            assigned_entity_id: self.assigned_entity_id,
            game_config: self.game_config,
        }
    }
}

impl JoinGameResponse {
    /// The answer that admits a player.
    pub fn success(player_id: String, entity_id: u32, config: GameConfig) -> (r: JoinGameResponse)
        ensures
            r@ == (JoinGameResponseView {
                success: true,
                error_message: Seq::<char>::empty(),
                player_id: player_id@,
                assigned_entity_id: entity_id,
                game_config: Some(config),
            }),
    {
        JoinGameResponse {
            success: true,
            error_message: String::new(),
            player_id,
            assigned_entity_id: entity_id,
            game_config: Some(config),
        }
    }

    /// The answer that turns a player away, with the reason.
    pub fn error(message: String) -> (r: JoinGameResponse)
        ensures
            r@ == (JoinGameResponseView {
                success: false,
                error_message: message@,
                player_id: Seq::<char>::empty(),
                assigned_entity_id: 0,
                game_config: None,
            }),
    {
        JoinGameResponse {
            success: false,
            error_message: message,
            player_id: String::new(),
            assigned_entity_id: 0,
            game_config: None,
        }
    }
}

/// A client's latency probe.
#[derive(Debug, Clone, Copy, PartialEq, Eq, Structural)]
pub struct PingRequest {
    pub client_timestamp: u64,
    pub sequence_number: u32,
}

impl PingRequest {
    /// A probe, with the client time given.
    pub fn at(client_timestamp: u64, sequence_number: u32) -> (p: PingRequest)
        ensures
            p == (PingRequest { client_timestamp, sequence_number }),
    {
        PingRequest { client_timestamp, sequence_number }
    }

    /// A probe stamped with the time of the call.
    pub fn new(sequence_number: u32) -> (p: PingRequest)
        ensures
            p.sequence_number == sequence_number,
    {
        PingRequest::at(unix_millis(), sequence_number)
    }
}

/// The server's answer to a latency probe.
#[derive(Debug, Clone, Copy, PartialEq, Eq, Structural)]
pub struct PongResponse {
    pub client_timestamp: u64,
    pub server_timestamp: u64,
    pub sequence_number: u32,
}

impl PongResponse {
    /// The answer to a probe, with the server time given.
    pub fn at(server_timestamp: u64, client_timestamp: u64, sequence_number: u32) -> (p:
        PongResponse)
        ensures
            p == (PongResponse { client_timestamp, server_timestamp, sequence_number }),
    {
        PongResponse { client_timestamp, server_timestamp, sequence_number }
    }

    /// The answer to a probe, stamped with the time of the call.
    pub fn new(client_timestamp: u64, sequence_number: u32) -> (p: PongResponse)
        ensures
            p.client_timestamp == client_timestamp,
            p.sequence_number == sequence_number,
    {
        PongResponse::at(unix_millis(), client_timestamp, sequence_number)
    }
}

/// A line of chat.
#[derive(Debug)]
pub struct ChatMessageEvent {
    pub player_id: String,
    pub message: String,
    pub timestamp: u64,
}

/// What a `ChatMessageEvent` says.
pub struct ChatMessageEventView {
    pub player_id: Seq<char>,
    pub message: Seq<char>,
    pub timestamp: u64,
}

impl View for ChatMessageEvent {
    type V = ChatMessageEventView;

    open spec fn view(&self) -> ChatMessageEventView {
        ChatMessageEventView {
            player_id: self.player_id@,
            message: self.message@,
            timestamp: self.timestamp,
        }
    }
}

impl Clone for ChatMessageEvent {
    fn clone(&self) -> (r: ChatMessageEvent)
        ensures
            r@ == self@,
    {
        ChatMessageEvent {
            player_id: self.player_id.clone(),
            message: self.message.clone(),
            timestamp: self.timestamp,
        }
    }
}

/// The body of a message; the variant is the tag by which it is dispatched.
#[derive(Debug)]
pub enum MessageType {
    PlayerInput(PlayerInput),
    GameStateUpdate(GameStateUpdate),
    JoinGameRequest(JoinGameRequest),
    JoinGameResponse(JoinGameResponse),
    PingRequest(PingRequest),
    PongResponse(PongResponse),
    ChatMessage(ChatMessageEvent),
}

/// A message with the time at which it was made.
#[derive(Debug)]
pub struct NetworkMessage {
    pub timestamp: u64,
    pub message_type: Option<MessageType>,
}

impl NetworkMessage {
    /// A message stamped with the time of the call.
    pub fn new(message_type: Option<MessageType>) -> (m: NetworkMessage)
        ensures
            m.message_type == message_type,
    {
        NetworkMessage { timestamp: unix_millis(), message_type }
    }

    pub fn player_input(input: PlayerInput) -> (m: NetworkMessage)
        ensures
            m.message_type == Some(MessageType::PlayerInput(input)),
    {
        NetworkMessage::new(Some(MessageType::PlayerInput(input)))
    }

    pub fn game_state_update(update: GameStateUpdate) -> (m: NetworkMessage)
        ensures
            m.message_type == Some(MessageType::GameStateUpdate(update)),
    {
        NetworkMessage::new(Some(MessageType::GameStateUpdate(update)))
    }

    pub fn join_game_request(request: JoinGameRequest) -> (m: NetworkMessage)
        ensures
            m.message_type == Some(MessageType::JoinGameRequest(request)),
    {
        NetworkMessage::new(Some(MessageType::JoinGameRequest(request)))
    }

    pub fn join_game_response(response: JoinGameResponse) -> (m: NetworkMessage)
        ensures
            m.message_type == Some(MessageType::JoinGameResponse(response)),
    {
        NetworkMessage::new(Some(MessageType::JoinGameResponse(response)))
    }

    pub fn ping_request(request: PingRequest) -> (m: NetworkMessage)
        ensures
            m.message_type == Some(MessageType::PingRequest(request)),
    {
        NetworkMessage::new(Some(MessageType::PingRequest(request)))
    }

    pub fn pong_response(response: PongResponse) -> (m: NetworkMessage)
        ensures
            m.message_type == Some(MessageType::PongResponse(response)),
    {
        NetworkMessage::new(Some(MessageType::PongResponse(response)))
    }

    pub fn chat_message(message: ChatMessageEvent) -> (m: NetworkMessage)
        ensures
            m.message_type == Some(MessageType::ChatMessage(message)),
    {
        NetworkMessage::new(Some(MessageType::ChatMessage(message)))
    }
}

} // verus!

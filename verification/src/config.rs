//! The settings that the server is started with.

use vstd::prelude::*;
use crate::text::{append_decimal, append_str, decimal, push_char};

verus! {

/// Settings of the server process.
#[derive(Debug)]
pub struct ServerConfig {
    /// Port of the listening socket.
    pub port: u16,
    /// Address of the listening socket.
    pub host: String,
    /// Largest number of players at one time.
    pub max_players: usize,
    /// Ticks per second.
    pub tick_rate: u32,
    /// Length of one physics step, in microseconds.
    pub physics_timestep: u64,
}

impl Clone for ServerConfig {
    fn clone(&self) -> (r: ServerConfig)
        ensures
            r == *self,
    {
        ServerConfig {
            port: self.port,
            host: self.host.clone(),
            max_players: self.max_players,
            tick_rate: self.tick_rate,
            physics_timestep: self.physics_timestep,
        }
    }
}

impl Default for ServerConfig {
    fn default() -> (c: ServerConfig)
        ensures
            c.port == 8080,
            c.host@ == "127.0.0.1"@,
            c.max_players == 50,
            c.tick_rate == 30,
            c.physics_timestep == 33_333,
    {
        ServerConfig {
            port: 8080,
            host: "127.0.0.1".to_string(),
            max_players: 50,
            tick_rate: 30,
            physics_timestep: 33_333,
        }
    }
}

/// Settings of a match.
#[derive(Debug, Clone, Copy, PartialEq, Eq, Structural)]
pub struct GameConfig {
    /// Side of the square map.
    pub map_size: i32,
    /// Length of a round, in microseconds.
    pub round_duration: u64,
    /// Time from a tank's destruction to its return, in microseconds.
    pub respawn_delay: u64,
    /// Time for which a returned tank cannot be hurt, in microseconds.
    pub spawn_protection_duration: u64,
    /// Number of tanks without a player that the match keeps up.
    pub npc_count: usize,
    /// Speed of a projectile.
    pub projectile_speed: i32,
    /// Speed of a tank.
    pub tank_speed: i32,
    /// Rotation speed of a tank's body.
    pub tank_rotation_speed: i32,
    /// Rotation speed of a tank's turret.
    pub turret_rotation_speed: i32,
}

impl Default for GameConfig {
    fn default() -> (c: GameConfig)
        ensures
            c == (GameConfig {
                map_size: 500_000,
                round_duration: 600_000_000,
                respawn_delay: 3_000_000,
                spawn_protection_duration: 1_000_000,
                npc_count: 15,
                projectile_speed: 50_000,
                tank_speed: 10_000,
                tank_rotation_speed: 1_571,
                turret_rotation_speed: 2_094,
            }),
    {
        GameConfig {
            map_size: 500_000,
            round_duration: 600_000_000,
            respawn_delay: 3_000_000,
            spawn_protection_duration: 1_000_000,
            npc_count: 15,
            projectile_speed: 50_000,
            tank_speed: 10_000,
            tank_rotation_speed: 1_571,
            turret_rotation_speed: 2_094,
        }
    }
}

/// All settings.
#[derive(Debug)]
pub struct Config {
    pub server: ServerConfig,
    pub game: GameConfig,
}

impl Clone for Config {
    fn clone(&self) -> (r: Config)
        ensures
            r == *self,
    {
        Config { server: self.server.clone(), game: self.game }
    }
}

impl Default for Config {
    fn default() -> (c: Config)
        ensures
            c.server.port == 8080,
            c.server.host@ == "127.0.0.1"@,
            c.server.max_players == 50,
            c.server.tick_rate == 30,
            c.server.physics_timestep == 33_333,
            c.game == (GameConfig {
                map_size: 500_000,
                round_duration: 600_000_000,
                respawn_delay: 3_000_000,
                spawn_protection_duration: 1_000_000,
                npc_count: 15,
                projectile_speed: 50_000,
                tank_speed: 10_000,
                tank_rotation_speed: 1_571,
                turret_rotation_speed: 2_094,
            }),
    {
        Config { server: ServerConfig::default(), game: GameConfig::default() }
    }
}

impl Config {
    /// The listening address: the host, a colon, the port in decimal.
    pub fn server_address(&self) -> (address: String)
        ensures
            address@ == self.server.host@ + seq![':'] + decimal(self.server.port as nat),
    {
        let mut address = String::new();
        append_str(&mut address, self.server.host.as_str());
        push_char(&mut address, ':');
        append_decimal(&mut address, self.server.port as u64);
        assert(address@ =~= self.server.host@ + seq![':'] + decimal(self.server.port as nat));
        address
    }

    /// The length of one physics step, in microseconds.
    pub fn physics_timestep_duration(&self) -> (micros: u64)
        ensures
            micros == self.server.physics_timestep,
    {
        self.server.physics_timestep
    }

    /// The length of one tick, in whole microseconds.
    pub fn tick_duration(&self) -> (micros: u64)
        requires
            self.server.tick_rate > 0,
        ensures
            micros == 1_000_000int / (self.server.tick_rate as int),
    {
        1_000_000 / (self.server.tick_rate as u64)
    }
}

} // verus!

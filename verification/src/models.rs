//! Wire-level records exchanged with the match broker and the fleet
//! controller.

use vstd::prelude::*;
use crate::events::{SchnapsenDuoEventType, TimedEvent};

verus! {

/// A ranked performance label offered by this server.
pub struct Performance {
    pub name: String,
    pub weight: i32,
}

/// The ranking configuration announced at registration.
pub struct RankingConf {
    pub max_stars: i32,
    pub description: String,
    pub performances: Vec<Performance>,
}

/// The registration record of this game server.
pub struct GameServer {
    pub region: String,
    pub game: String,
    pub mode: String,
    pub server_priv: String,
    pub server_pub: String,
    pub min_players: u32,
    pub max_players: u32,
    pub ranking_conf: RankingConf,
}

/// A game mode as announced to the main server.
pub struct GameMode {
    pub name: String,
    pub player_count: u32,
    pub computer_lobby: bool,
}

/// The mode server's answer to a creation request, as the game
/// server's listener receives it.
pub struct ModeServerMatchCreated {
    pub player_write: Vec<(String, String)>,
    pub read: String,
}

/// A request to create a match.
#[derive(Clone, Debug)]
pub struct CreateMatch {
    pub game: String,
    pub players: Vec<String>,
    pub ai_players: Vec<String>,
    pub mode: String,
    pub ai: bool,
}

/// The answer to a creation request: tokens and endpoints.
#[derive(Clone, Debug)]
pub struct MatchCreated {
    pub player_write: Vec<(String, String)>,
    pub game: String,
    pub mode: String,
    pub ai: bool,
    pub ai_players: Vec<String>,
    pub read: String,
    pub url_pub: String,
    pub url_priv: String,
    pub region: String,
}

/// A player ran out of time; sent to every session.
#[derive(Clone, Debug)]
pub struct Timeout {
    pub user_id: String,
    pub reason: String,
}

/// Per-player performance labels attached to a result.
#[derive(Clone, Debug)]
pub struct Ranking {
    pub performances: Vec<(String, Vec<String>)>,
}

/// The terminal outcome of a completed match.
pub struct MatchResult {
    pub match_id: String,
    pub winners: Vec<(String, u8)>,
    pub losers: Vec<(String, u8)>,
    pub ranking: Ranking,
    pub event_log: Vec<TimedEvent<SchnapsenDuoEventType>>,
}

/// Why a match was closed without a result.
#[derive(Clone, Debug, PartialEq, Eq)]
pub enum MatchError {
    AllPlayersDisconnected,
    PlayerDidNotJoin(String),
}

/// The terminal outcome of an aborted match.
pub struct MatchAbruptClose {
    pub match_id: String,
    pub reason: MatchError,
}

} // verus!

//! Game-server registration types: the offered Schnapsen modes and a
//! builder that turns a player list into a typed game.

use vstd::prelude::*;

verus! {

/// The player count a Schnapsen table is set up for.
#[derive(Clone, Copy, Debug, PartialEq, Eq, Structural)]
pub enum SchnapsenMode {
    TwoPlayer,
    FourPlayer,
}

impl SchnapsenMode {
    /// The number of seats of this mode.
    pub fn get_player_count(&self) -> (r: u32)
        ensures
            r == spec_player_count(*self),
    {
        match self {
            SchnapsenMode::TwoPlayer => 2,
            SchnapsenMode::FourPlayer => 4,
        }
    }
}

/// The number of seats of a mode.
pub open spec fn spec_player_count(m: SchnapsenMode) -> int {
    match m {
        SchnapsenMode::TwoPlayer => 2,
        SchnapsenMode::FourPlayer => 4,
    }
}

/// A table of either mode, with its seated players.
pub enum SchnapsenType {
    TwoPlayer(SchnapsenTwoPlayer),
    FourPlayer(SchnapsenFourPlayer),
}

/// A game that knows which players sit at it.
pub trait Schnapsen {
    /// The seated players, as ghost character sequences.
    spec fn spec_players(&self) -> Seq<Seq<char>>;

    /// Whether the player sits at this game.
    fn has_player(&self, player: &str) -> (r: bool)
        ensures
            r == self.spec_players().contains(player@),
    ;
}

/// A two-seat table.
pub struct SchnapsenTwoPlayer {
    pub players: [String; 2],
}

impl SchnapsenTwoPlayer {
    /// Seats the two players.
    pub fn new(players: [String; 2]) -> (r: Self)
        ensures
            r.players == players,
    {
        SchnapsenTwoPlayer { players }
    }
}

impl Schnapsen for SchnapsenTwoPlayer {
    open spec fn spec_players(&self) -> Seq<Seq<char>> {
        seq![self.players[0]@, self.players[1]@]
    }

    fn has_player(&self, player: &str) -> (r: bool) {
        let found = crate::ext::str_eq(self.players[0].as_str(), player) || crate::ext::str_eq(
            self.players[1].as_str(),
            player,
        );
        proof {
            if found {
                if self.players[0]@ == player@ {
                    assert(self.spec_players()[0] == player@);
                } else {
                    assert(self.spec_players()[1] == player@);
                }
            } else {
                assert(forall|i: int|
                    0 <= i < self.spec_players().len() ==> self.spec_players()[i] != player@);
            }
        }
        found
    }
}

/// A four-seat table.
pub struct SchnapsenFourPlayer {
    pub players: [String; 4],
}

impl SchnapsenFourPlayer {
    /// Seats the four players.
    pub fn new(players: [String; 4]) -> (r: Self)
        ensures
            r.players == players,
    {
        SchnapsenFourPlayer { players }
    }
}

impl Schnapsen for SchnapsenFourPlayer {
    open spec fn spec_players(&self) -> Seq<Seq<char>> {
        seq![self.players[0]@, self.players[1]@, self.players[2]@, self.players[3]@]
    }

    fn has_player(&self, player: &str) -> (r: bool) {
        let found = crate::ext::str_eq(self.players[0].as_str(), player) || crate::ext::str_eq(
            self.players[1].as_str(),
            player,
        ) || crate::ext::str_eq(self.players[2].as_str(), player) || crate::ext::str_eq(
            self.players[3].as_str(),
            player,
        );
        proof {
            if found {
                if self.players[0]@ == player@ {
                    assert(self.spec_players()[0] == player@);
                } else if self.players[1]@ == player@ {
                    assert(self.spec_players()[1] == player@);
                } else if self.players[2]@ == player@ {
                    assert(self.spec_players()[2] == player@);
                } else {
                    assert(self.spec_players()[3] == player@);
                }
            } else {
                assert(forall|i: int|
                    0 <= i < self.spec_players().len() ==> self.spec_players()[i] != player@);
            }
        }
        found
    }
}

impl SchnapsenType {
    /// The seated players of the table, whichever mode it has.
    pub open spec fn spec_players(&self) -> Seq<Seq<char>> {
        match self {
            SchnapsenType::TwoPlayer(game) => game.spec_players(),
            SchnapsenType::FourPlayer(game) => game.spec_players(),
        }
    }

    /// Whether the player sits at this table, whichever mode it has.
    pub fn into_schnapsen(&self, player: &str) -> (r: bool)
        ensures
            r == self.spec_players().contains(player@),
    {
        match self {
            SchnapsenType::TwoPlayer(game) => game.has_player(player),
            SchnapsenType::FourPlayer(game) => game.has_player(player),
        }
    }
}

/// Collects mode and players before building a typed table.
pub struct SchnapsenBuilder {
    pub mode: SchnapsenMode,
    pub players: Vec<String>,
}

impl SchnapsenBuilder {
    /// An empty builder for a two-player table.
    pub fn new() -> (r: Self)
        ensures
            r.mode == SchnapsenMode::TwoPlayer,
            r.players@.len() == 0,
    {
        SchnapsenBuilder { mode: SchnapsenMode::TwoPlayer, players: Vec::new() }
    }

    /// Picks the mode; meaningful only before players are seated, and
    /// the seated players must fit the mode.
    pub fn mode(self, mode: SchnapsenMode) -> (r: Self)
        requires
            self.players@.len() == 0 || self.players@.len() == spec_player_count(mode),
        ensures
            self.players@.len() == 0 ==> r.mode == mode,
            self.players@.len() != 0 ==> r.mode == self.mode,
            r.players == self.players,
    {
        let mut next = self;
        if next.players.len() == 0 {
            next.mode = mode;
        }
        next
    }

    /// Seats the players, fixing the mode by their count; only two or
    /// four players can play.
    pub fn players(self, players: Vec<String>) -> (r: Self)
        requires
            players@.len() == 2 || players@.len() == 4,
        ensures
            r.players == players,
            players@.len() == 2 ==> r.mode == SchnapsenMode::TwoPlayer,
            players@.len() == 4 ==> r.mode == SchnapsenMode::FourPlayer,
    {
        let mut next = self;
        if players.len() == 4 {
            next.mode = SchnapsenMode::FourPlayer;
        } else {
            next.mode = SchnapsenMode::TwoPlayer;
        }
        next.players = players;
        next
    }

    /// Builds the typed table from the seated players, in seating
    /// order.
    pub fn build(self) -> (r: SchnapsenType)
        requires
            self.players@.len() == spec_player_count(self.mode),
        ensures
            self.mode == SchnapsenMode::TwoPlayer <==> r is TwoPlayer,
            r.spec_players().len() == self.players@.len(),
            forall|i: int|
                0 <= i < self.players@.len() ==> r.spec_players()[i] == self.players@[i]@,
    {
        match self.mode {
            SchnapsenMode::TwoPlayer => {
                let mut it = self.players;
                let second = it.pop().unwrap();
                let first = it.pop().unwrap();
                SchnapsenType::TwoPlayer(SchnapsenTwoPlayer::new([first, second]))
            },
            SchnapsenMode::FourPlayer => {
                let mut it = self.players;
                let fourth = it.pop().unwrap();
                let third = it.pop().unwrap();
                let second = it.pop().unwrap();
                let first = it.pop().unwrap();
                SchnapsenType::FourPlayer(
                    SchnapsenFourPlayer::new([first, second, third, fourth]),
                )
            },
        }
    }
}

} // verus!

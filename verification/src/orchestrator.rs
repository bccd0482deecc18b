//! The decision logic of the per-match orchestrator: which sessions
//! are bound, when the match starts, what a timer firing means, and
//! the one-shot exit. The surrounding runtime performs the directives
//! and feeds the events back in.

use vstd::prelude::*;
use vstd::string::StringExecFns;
use crate::events::{SchnapsenDuoEventType, TimedEvent};
use crate::ext::{random_id128, str_eq};
use crate::models::{CreateMatch, MatchCreated, MatchResult, Ranking};

verus! {

/// The forced-move and reconnection deadline, in seconds.
pub open spec fn spec_force_move_timeout() -> int {
    30
}

/// What the runtime is asked to do next. `StartMatch` carries the
/// player who leads: the one who authenticated first.
#[derive(Clone, Debug, PartialEq, Eq)]
pub enum MatchDirective {
    StartMatch(usize),
    ReplayLog(usize),
    ThreatenTimeout(usize, u64),
    CancelTimeoutThreat(usize),
    EmitTimeout(usize),
    AwaitReconnect(usize),
    BroadcastReset,
    ScheduleNextRound(usize),
    ExitWithResult,
    ExitAllDisconnected,
}

/// The orchestrator's own state: session counts per player, the
/// started and exited latches, and the match mode.
pub struct MatchManagerState {
    pub sockets: [u32; 2],
    pub timed_out: [bool; 2],
    pub started: bool,
    pub exited: bool,
    pub min_players: usize,
    pub bummerl: bool,
}

/// The exit latch as a function: the callbacks fire exactly when the
/// latch was not yet set, and the latch is set afterwards.
pub open spec fn exit_spec(exited: bool) -> (bool, bool) {
    (true, !exited)
}

/// Firing the exit twice never invokes the callbacks again: after any
/// exit the latch is set, and an exit from a set latch fires nothing.
pub proof fn lemma_exit_idempotent(exited: bool)
    ensures
        exit_spec(exit_spec(exited).0).1 == false,
{
}

/// Bummerl points from a raw round score: three from sixty-six up,
/// two from thirty-three up, else one.
pub fn to_bummerl_points(points: u8) -> (r: u8)
    ensures
        r == (if points >= 66 {
            3int
        } else if points >= 33 {
            2int
        } else {
            1int
        }),
{
    if points >= 66 {
        3
    } else if points >= 33 {
        2
    } else {
        1
    }
}

impl MatchManagerState {
    /// A fresh orchestrator: nobody connected, nothing started.
    pub fn new(bummerl: bool, min_players: usize) -> (r: MatchManagerState)
        ensures
            r.sockets@ == seq![0u32, 0u32],
            r.timed_out@ == seq![false, false],
            !r.started,
            !r.exited,
            r.min_players == min_players,
            r.bummerl == bummerl,
    {
        MatchManagerState {
            sockets: [0, 0],
            timed_out: [false, false],
            started: false,
            exited: false,
            min_players,
            bummerl,
        }
    }

    /// How many players hold at least one authenticated session.
    pub open spec fn connected_count(self) -> int {
        (if self.sockets@[0] > 0 {
            1int
        } else {
            0
        }) + (if self.sockets@[1] > 0 {
            1int
        } else {
            0
        })
    }

    /// How many players still count as in the match: connected and
    /// not timed out.
    pub open spec fn active_players(self) -> int {
        (if self.sockets@[0] > 0 && !self.timed_out@[0] {
            1int
        } else {
            0
        }) + (if self.sockets@[1] > 0 && !self.timed_out@[1] {
            1int
        } else {
            0
        })
    }

    /// Fires the exit latch once: returns whether the registered exit
    /// callbacks are to be invoked now. Repeated exits are no-ops.
    pub fn exit(&mut self) -> (fired: bool)
        ensures
            fired == !old(self).exited,
            final(self).exited,
            final(self).sockets == old(self).sockets,
            final(self).timed_out == old(self).timed_out,
            final(self).started == old(self).started,
            final(self).min_players == old(self).min_players,
            final(self).bummerl == old(self).bummerl,
    {
        let fired = !self.exited;
        self.exited = true;
        fired
    }

    /// An authenticated session arrived for the player: it is counted,
    /// a running match replays the journal to it, and the match starts
    /// once both players are connected for the first time.
    pub fn handle_auth(&mut self, player: usize) -> (r: Vec<MatchDirective>)
        requires
            player < 2,
        ensures
            final(self).sockets@ == old(self).sockets@.update(
                player as int,
                (if old(self).sockets@[player as int] < u32::MAX {
                    old(self).sockets@[player as int] + 1
                } else {
                    u32::MAX as int
                }) as u32,
            ),
            final(self).timed_out == old(self).timed_out,
            final(self).exited == old(self).exited,
            final(self).min_players == old(self).min_players,
            final(self).bummerl == old(self).bummerl,
            final(self).started == (old(self).started || final(self).connected_count() == 2),
            r@ == (if old(self).started {
                seq![MatchDirective::ReplayLog(player)]
            } else if final(self).connected_count() == 2 {
                seq![MatchDirective::StartMatch((1 - player) as usize)]
            } else {
                Seq::<MatchDirective>::empty()
            }),
    {
        let mut out: Vec<MatchDirective> = Vec::new();
        let n = self.sockets[player];
        if n < u32::MAX {
            self.sockets.set(player, n + 1);
        } else {
            self.sockets.set(player, u32::MAX);
        }
        if self.started {
            out.push(MatchDirective::ReplayLog(player));
            proof {
                assert(out@ =~= seq![MatchDirective::ReplayLog(player)]);
            }
            return out;
        }
        if self.sockets[0] > 0 && self.sockets[1] > 0 {
            self.started = true;
            out.push(MatchDirective::StartMatch(1 - player));
            proof {
                assert(out@ =~= seq![MatchDirective::StartMatch((1 - player) as usize)]);
            }
        }
        out
    }

    /// The directives of match creation: a thirty-second join window
    /// opens for each player; a window that runs out without a
    /// session fires the player's timeout.
    pub fn initial_join_directives(&self) -> (r: Vec<MatchDirective>)
        ensures
            r@ == seq![MatchDirective::AwaitReconnect(0), MatchDirective::AwaitReconnect(1)],
    {
        let mut out: Vec<MatchDirective> = Vec::new();
        out.push(MatchDirective::AwaitReconnect(0));
        out.push(MatchDirective::AwaitReconnect(1));
        proof {
            assert(out@ =~= seq![
                MatchDirective::AwaitReconnect(0),
                MatchDirective::AwaitReconnect(1),
            ]);
        }
        out
    }

    /// A session of the player dropped. When their last session is
    /// gone, the match ends at once if nobody is left, else a
    /// reconnection window opens for the player.
    pub fn on_disconnect(&mut self, player: usize) -> (r: Vec<MatchDirective>)
        requires
            player < 2,
        ensures
            final(self).sockets@ == old(self).sockets@.update(
                player as int,
                (if old(self).sockets@[player as int] > 0 {
                    old(self).sockets@[player as int] - 1
                } else {
                    0int
                }) as u32,
            ),
            final(self).timed_out == old(self).timed_out,
            final(self).started == old(self).started,
            final(self).exited == old(self).exited,
            final(self).min_players == old(self).min_players,
            final(self).bummerl == old(self).bummerl,
            r@ == (if final(self).sockets@[player as int] > 0 {
                Seq::<MatchDirective>::empty()
            } else if final(self).connected_count() == 0 {
                seq![MatchDirective::ExitAllDisconnected]
            } else {
                seq![MatchDirective::AwaitReconnect(player)]
            }),
    {
        let mut out: Vec<MatchDirective> = Vec::new();
        let n = self.sockets[player];
        if n > 0 {
            self.sockets.set(player, n - 1);
        } else {
            self.sockets.set(player, 0);
        }
        if self.sockets[player] > 0 {
            proof {
                assert(self.sockets@ =~= old(self).sockets@.update(
                    player as int,
                    self.sockets@[player as int],
                ));
            }
            return out;
        }
        if self.sockets[0] == 0 && self.sockets[1] == 0 {
            out.push(MatchDirective::ExitAllDisconnected);
            proof {
                assert(out@ =~= seq![MatchDirective::ExitAllDisconnected]);
            }
        } else {
            out.push(MatchDirective::AwaitReconnect(player));
            proof {
                assert(out@ =~= seq![MatchDirective::AwaitReconnect(player)]);
            }
        }
        out
    }

    /// A join, forced-move or reconnection timer ran out for the
    /// player before the awaited signal: the player is marked timed
    /// out and told so. With nobody connected the match closes
    /// abruptly; with fewer players than needed, or before the start,
    /// it ends with the connected players as winners with zero.
    pub fn on_timeout_fired(&mut self, player: usize) -> (r: Vec<MatchDirective>)
        requires
            player < 2,
        ensures
            final(self).timed_out@ == old(self).timed_out@.update(player as int, true),
            final(self).sockets == old(self).sockets,
            final(self).started == old(self).started,
            final(self).exited == old(self).exited,
            final(self).min_players == old(self).min_players,
            final(self).bummerl == old(self).bummerl,
            r@ == (if old(self).connected_count() == 0 {
                seq![
                    MatchDirective::EmitTimeout(player),
                    MatchDirective::ExitAllDisconnected,
                ]
            } else if final(self).active_players() < old(self).min_players || !old(
                self,
            ).started {
                seq![MatchDirective::EmitTimeout(player), MatchDirective::ExitWithResult]
            } else {
                seq![MatchDirective::EmitTimeout(player)]
            }),
    {
        self.timed_out.set(player, true);
        let mut out: Vec<MatchDirective> = Vec::new();
        out.push(MatchDirective::EmitTimeout(player));
        let connected: usize = (if self.sockets[0] > 0 {
            1
        } else {
            0
        }) + (if self.sockets[1] > 0 {
            1
        } else {
            0
        });
        let remaining: usize = (if self.sockets[0] > 0 && !self.timed_out[0] {
            1
        } else {
            0
        }) + (if self.sockets[1] > 0 && !self.timed_out[1] {
            1
        } else {
            0
        });
        if connected == 0 {
            out.push(MatchDirective::ExitAllDisconnected);
            proof {
                assert(out@ =~= seq![
                    MatchDirective::EmitTimeout(player),
                    MatchDirective::ExitAllDisconnected,
                ]);
            }
        } else if remaining < self.min_players || !self.started {
            out.push(MatchDirective::ExitWithResult);
            proof {
                assert(out@ =~= seq![
                    MatchDirective::EmitTimeout(player),
                    MatchDirective::ExitWithResult,
                ]);
            }
        } else {
            proof {
                assert(out@ =~= seq![MatchDirective::EmitTimeout(player)]);
            }
        }
        out
    }

    /// The player was just allowed to play a card: they are warned of
    /// the forced-move deadline.
    pub fn on_allow_play_card(&self, player: usize) -> (r: Vec<MatchDirective>)
        requires
            player < 2,
        ensures
            r@ == seq![
                MatchDirective::ThreatenTimeout(player, spec_force_move_timeout() as u64),
            ],
    {
        let mut out: Vec<MatchDirective> = Vec::new();
        out.push(MatchDirective::ThreatenTimeout(player, 30));
        proof {
            assert(out@ =~= seq![MatchDirective::ThreatenTimeout(player, 30u64)]);
        }
        out
    }

    /// A card was publicly played: the player's forced-move threat is
    /// withdrawn when it was theirs.
    pub fn on_play_card_seen(&self, threatened: usize, player: usize) -> (r: Vec<MatchDirective>)
        ensures
            r@ == (if threatened == player {
                seq![MatchDirective::CancelTimeoutThreat(player)]
            } else {
                Seq::<MatchDirective>::empty()
            }),
    {
        let mut out: Vec<MatchDirective> = Vec::new();
        if threatened == player {
            out.push(MatchDirective::CancelTimeoutThreat(player));
            proof {
                assert(out@ =~= seq![MatchDirective::CancelTimeoutThreat(player)]);
            }
        }
        out
    }

    /// A round result was published: a bummerl match resets the table
    /// and schedules the next round with the round winner leading; a
    /// single-round match ends with its result.
    pub fn on_round_result(&self, winner: usize) -> (r: Vec<MatchDirective>)
        requires
            winner < 2,
        ensures
            r@ == (if self.bummerl {
                seq![
                    MatchDirective::BroadcastReset,
                    MatchDirective::ScheduleNextRound(winner),
                ]
            } else {
                seq![MatchDirective::ExitWithResult]
            }),
    {
        let mut out: Vec<MatchDirective> = Vec::new();
        if self.bummerl {
            out.push(MatchDirective::BroadcastReset);
            out.push(MatchDirective::ScheduleNextRound(winner));
            proof {
                assert(out@ =~= seq![
                    MatchDirective::BroadcastReset,
                    MatchDirective::ScheduleNextRound(winner),
                ]);
            }
        } else {
            out.push(MatchDirective::ExitWithResult);
            proof {
                assert(out@ =~= seq![MatchDirective::ExitWithResult]);
            }
        }
        out
    }

    /// The final result was published: the match ends with it in
    /// either mode.
    pub fn on_final_result(&self) -> (r: Vec<MatchDirective>)
        ensures
            r@ == seq![MatchDirective::ExitWithResult],
    {
        let mut out: Vec<MatchDirective> = Vec::new();
        out.push(MatchDirective::ExitWithResult);
        proof {
            assert(out@ =~= seq![MatchDirective::ExitWithResult]);
        }
        out
    }
}

/// The player index a write token authorises, resolved against the
/// per-player token list; an unknown token binds nobody.
pub fn resolve_write_token(player_write: &Vec<(String, String)>, token: &str) -> (r: Option<
    usize,
>)
    ensures
        match r {
            Some(i) => i < player_write@.len() && player_write@[i as int].1@ == token@ && forall|
                j: int,
            | 0 <= j < i ==> player_write@[j].1@ != token@,
            None => forall|j: int|
                0 <= j < player_write@.len() ==> player_write@[j].1@ != token@,
        },
{
    let mut i: usize = 0;
    while i < player_write.len()
        invariant
            i <= player_write@.len(),
            forall|j: int| 0 <= j < i ==> player_write@[j].1@ != token@,
        decreases player_write@.len() - i,
    {
        if str_eq(player_write[i].1.as_str(), token) {
            return Some(i);
        }
        i += 1;
    }
    None
}

/// The terminal result sheet of a decided single-round match: the
/// round leader wins, both entries rated on the bummerl scale, the
/// winner labelled "win" and the loser "lose".
pub fn build_duo_result(
    match_id: String,
    winner_id: String,
    winner_score: u8,
    loser_id: String,
    loser_score: u8,
    event_log: Vec<TimedEvent<SchnapsenDuoEventType>>,
) -> (r: MatchResult)
    ensures
        r.match_id == match_id,
        r.winners@.len() == 1 && r.winners@[0].0 == winner_id && r.winners@[0].1 == (if winner_score
            >= 66 {
            3int
        } else if winner_score >= 33 {
            2int
        } else {
            1int
        }),
        r.losers@.len() == 1 && r.losers@[0].0 == loser_id && r.losers@[0].1 == (if loser_score
            >= 66 {
            3int
        } else if loser_score >= 33 {
            2int
        } else {
            1int
        }),
        r.ranking.performances@.len() == 2,
        r.ranking.performances@[0].0 == winner_id && r.ranking.performances@[0].1@.len() == 1
            && r.ranking.performances@[0].1@[0]@ == "win"@,
        r.ranking.performances@[1].0 == loser_id && r.ranking.performances@[1].1@.len() == 1
            && r.ranking.performances@[1].1@[0]@ == "lose"@,
        r.event_log == event_log,
{
    let mut winners: Vec<(String, u8)> = Vec::new();
    winners.push((winner_id.clone(), to_bummerl_points(winner_score)));
    let mut losers: Vec<(String, u8)> = Vec::new();
    losers.push((loser_id.clone(), to_bummerl_points(loser_score)));
    let mut win_label: Vec<String> = Vec::new();
    win_label.push(String::from_str("win"));
    let mut lose_label: Vec<String> = Vec::new();
    lose_label.push(String::from_str("lose"));
    let mut performances: Vec<(String, Vec<String>)> = Vec::new();
    performances.push((winner_id, win_label));
    performances.push((loser_id, lose_label));
    MatchResult { match_id, winners, losers, ranking: Ranking { performances }, event_log }
}

/// The result sheet of a match ended by a timeout or failed join:
/// every player still holding a session and not timed out is a
/// winner with zero bummerl points; everyone else — timed-out
/// players included — is a loser with zero.
pub fn build_timeout_result(
    state: &MatchManagerState,
    ids: &[String; 2],
    match_id: String,
    event_log: Vec<TimedEvent<SchnapsenDuoEventType>>,
) -> (r: MatchResult)
    ensures
        r.match_id == match_id,
        r.event_log == event_log,
        r.ranking.performances@.len() == 0,
        ({
            let c0 = state.sockets@[0] > 0 && !state.timed_out@[0];
            let c1 = state.sockets@[1] > 0 && !state.timed_out@[1];
            &&& r.winners@ == (if c0 && c1 {
                seq![(ids[0], 0u8), (ids[1], 0u8)]
            } else if c0 {
                seq![(ids[0], 0u8)]
            } else if c1 {
                seq![(ids[1], 0u8)]
            } else {
                Seq::<(String, u8)>::empty()
            })
            &&& r.losers@ == (if c0 && c1 {
                Seq::<(String, u8)>::empty()
            } else if c0 {
                seq![(ids[1], 0u8)]
            } else if c1 {
                seq![(ids[0], 0u8)]
            } else {
                seq![(ids[0], 0u8), (ids[1], 0u8)]
            })
        }),
{
    let mut winners: Vec<(String, u8)> = Vec::new();
    let mut losers: Vec<(String, u8)> = Vec::new();
    if state.sockets[0] > 0 && !state.timed_out[0] {
        winners.push((ids[0].clone(), 0));
    } else {
        losers.push((ids[0].clone(), 0));
    }
    if state.sockets[1] > 0 && !state.timed_out[1] {
        winners.push((ids[1].clone(), 0));
    } else {
        losers.push((ids[1].clone(), 0));
    }
    proof {
        let c0 = state.sockets@[0] > 0 && !state.timed_out@[0];
        let c1 = state.sockets@[1] > 0 && !state.timed_out@[1];
        if c0 && c1 {
            assert(winners@ =~= seq![(ids[0], 0u8), (ids[1], 0u8)]);
            assert(losers@ =~= Seq::<(String, u8)>::empty());
        } else if c0 {
            assert(winners@ =~= seq![(ids[0], 0u8)]);
            assert(losers@ =~= seq![(ids[1], 0u8)]);
        } else if c1 {
            assert(winners@ =~= seq![(ids[1], 0u8)]);
            assert(losers@ =~= seq![(ids[0], 0u8)]);
        } else {
            assert(winners@ =~= Seq::<(String, u8)>::empty());
            assert(losers@ =~= seq![(ids[0], 0u8), (ids[1], 0u8)]);
        }
    }
    MatchResult {
        match_id,
        winners,
        losers,
        ranking: Ranking { performances: Vec::new() },
        event_log,
    }
}

/// The creation record answered to the broker: each player's write
/// token is their own id, as the original issues them, with the
/// request's fields and the endpoints passed through.
pub fn build_match_created(
    new_match: &CreateMatch,
    read: String,
    url_pub: String,
    url_priv: String,
    region: String,
) -> (r: MatchCreated)
    ensures
        r.player_write@ == Seq::new(
            new_match.players@.len(),
            |k: int| (new_match.players@[k], new_match.players@[k]),
        ),
        r.game == new_match.game,
        r.mode == new_match.mode,
        r.ai == new_match.ai,
        r.ai_players@ == new_match.ai_players@,
        r.read == read,
        r.url_pub == url_pub,
        r.url_priv == url_priv,
        r.region == region,
{
    let mut player_write: Vec<(String, String)> = Vec::new();
    let mut i: usize = 0;
    while i < new_match.players.len()
        invariant
            i <= new_match.players@.len(),
            player_write@ == Seq::new(
                i as nat,
                |k: int| (new_match.players@[k], new_match.players@[k]),
            ),
        decreases new_match.players@.len() - i,
    {
        player_write.push((new_match.players[i].clone(), new_match.players[i].clone()));
        proof {
            assert(player_write@ =~= Seq::new(
                (i + 1) as nat,
                |k: int| (new_match.players@[k], new_match.players@[k]),
            ));
        }
        i += 1;
    }
    MatchCreated {
        player_write,
        game: new_match.game.clone(),
        mode: new_match.mode.clone(),
        ai: new_match.ai,
        ai_players: clone_ids(&new_match.ai_players),
        read,
        url_pub,
        url_priv,
        region,
    }
}

/// An equal copy of a list of ids.
fn clone_ids(ids: &Vec<String>) -> (r: Vec<String>)
    ensures
        r@ == ids@,
{
    let mut out: Vec<String> = Vec::new();
    let mut i: usize = 0;
    while i < ids.len()
        invariant
            i <= ids@.len(),
            out@ == ids@.take(i as int),
        decreases ids@.len() - i,
    {
        out.push(ids[i].clone());
        proof {
            assert(out@ =~= ids@.take(i + 1));
        }
        i += 1;
    }
    proof {
        assert(ids@.take(ids@.len() as int) =~= ids@);
        assert(out@ =~= ids@);
    }
    out
}

/// A fresh match identifier: a random 128-bit number, so collisions
/// stay negligible under any creation rate. Nothing is promised of a
/// random value.
pub fn fresh_match_id() -> u128 {
    random_id128()
}

} // verus!

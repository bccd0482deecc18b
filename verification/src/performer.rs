//! The action performer: routes a validated client action to the
//! matching rule-engine command and maps engine errors to one
//! user-facing kind.

use vstd::prelude::*;
use crate::cards::{Announcement, AnnounceType};
use crate::engine::{
    announce_post, close_talon_err, close_talon_post, cutt_deck_post, draw_err, draw_post,
    forty_of, play_card_err, play_lead_post, play_resp_post, swap_trump_post, take_cards_err,
    take_cards_post, valid_twenty_pair, SchnapsenDuo,
};
use crate::errors::PlayerError;
use crate::translator::SchnapsenDuoActions;

verus! {

/// The authority a session acts under.
#[derive(Clone, Debug)]
pub struct Player {
    pub write: String,
}

/// A failed action: either a rule refusal from the engine, or a
/// malformed call.
#[derive(Clone, Copy, Debug, PartialEq, Eq, Structural)]
pub enum PerformerError {
    SchnapsenError(PlayerError),
    CallError,
}

impl PerformerError {
    /// A human-readable description, sent back over the session.
    pub fn get_message(&self) -> &'static str {
        match self {
            PerformerError::SchnapsenError(e) => e.get_message(),
            PerformerError::CallError => "Function called with invalid Arguments",
        }
    }
}

/// Acts on the engine on behalf of one player.
pub struct Performer {
    pub player: usize,
}

impl Performer {
    /// A performer for the player with the given index.
    pub fn new(player: usize) -> (r: Performer)
        requires
            player < 2,
        ensures
            r.player == player,
            r.wf(),
    {
        Performer { player }
    }

    /// The performer acts for one of the two seats.
    pub open spec fn wf(self) -> bool {
        self.player < 2
    }

    /// Routes the action to the engine command it names, exactly as
    /// the original dispatch table: each variant drives its engine
    /// command on this performer's player, a quit is a malformed
    /// call, and every engine refusal comes back unchanged-state as
    /// `SchnapsenError` of the engine's own error.
    #[verifier::rlimit(100)]
    #[verifier::spinoff_prover]
    pub fn perform(&self, instance: &mut SchnapsenDuo, action: SchnapsenDuoActions) -> (r: Result<
        (),
        PerformerError,
    >)
        requires
            old(instance).wf(),
            self.wf(),
        ensures
            final(instance).wf(),
            match action {
                SchnapsenDuoActions::PlayCard(card) => match r {
                    Ok(()) => {
                        &&& old(instance).active == Some(self.player)
                        &&& old(instance).p(
                            self.player as int,
                        ).playable_cards@.contains(card)
                        &&& old(instance).p(self.player as int).cards@.contains(card)
                        &&& if old(instance).stack@.len() == 0 {
                            play_lead_post(*old(instance), *final(instance), self.player, card)
                        } else {
                            play_resp_post(*old(instance), *final(instance), self.player, card)
                        }
                    },
                    Err(PerformerError::SchnapsenError(e)) => *final(instance) == *old(instance)
                        && play_card_err(*old(instance), self.player, card, e),
                    Err(PerformerError::CallError) => false,
                },
                SchnapsenDuoActions::Quit => r == Result::<(), PerformerError>::Err(
                    PerformerError::CallError,
                ) && *final(instance) == *old(instance),
                SchnapsenDuoActions::SwapTrump(card) => match r {
                    Ok(()) => swap_trump_post(*old(instance), *final(instance), self.player, card),
                    Err(PerformerError::SchnapsenError(e)) => *final(instance) == *old(instance)
                        && e == PlayerError::CantSwapTrump && old(instance).spec_can_swap(
                        self.player as int,
                    ) != Some(card),
                    Err(PerformerError::CallError) => false,
                },
                SchnapsenDuoActions::CloseTalon => match r {
                    Ok(()) => close_talon_post(*old(instance), *final(instance), self.player),
                    Err(PerformerError::SchnapsenError(e)) => *final(instance) == *old(instance)
                        && close_talon_err(*old(instance), self.player, e),
                    Err(PerformerError::CallError) => false,
                },
                SchnapsenDuoActions::Announce20(cards) => match r {
                    Ok(()) => valid_twenty_pair(cards) && old(instance).may_announce(
                        self.player as int,
                        (Announcement { cards, announce_type: AnnounceType::Twenty }),
                    ) && announce_post(
                        *old(instance),
                        *final(instance),
                        self.player,
                        (Announcement { cards, announce_type: AnnounceType::Twenty }),
                    ),
                    Err(PerformerError::SchnapsenError(e)) => *final(instance) == *old(instance)
                        && e == PlayerError::CantPlay20 && !(valid_twenty_pair(cards) && old(
                        instance,
                    ).may_announce(
                        self.player as int,
                        (Announcement { cards, announce_type: AnnounceType::Twenty }),
                    )),
                    Err(PerformerError::CallError) => false,
                },
                SchnapsenDuoActions::Announce40 => match r {
                    Ok(()) => match old(instance).trump_suit() {
                        Some(ts) => old(instance).may_announce(self.player as int, forty_of(ts))
                            && announce_post(
                            *old(instance),
                            *final(instance),
                            self.player,
                            forty_of(ts),
                        ),
                        None => false,
                    },
                    Err(PerformerError::SchnapsenError(e)) => *final(instance) == *old(instance)
                        && e == PlayerError::CantPlay40 && match old(instance).trump_suit() {
                        None => true,
                        Some(ts) => !old(instance).may_announce(self.player as int, forty_of(ts)),
                    },
                    Err(PerformerError::CallError) => false,
                },
                SchnapsenDuoActions::DrawCard => match r {
                    Ok(()) => draw_post(*old(instance), *final(instance), self.player),
                    Err(PerformerError::SchnapsenError(e)) => *final(instance) == *old(instance)
                        && draw_err(*old(instance), self.player, e),
                    Err(PerformerError::CallError) => false,
                },
                SchnapsenDuoActions::CuttDeck(idx) => match r {
                    Ok(()) => cutt_deck_post(*old(instance), *final(instance), self.player, idx),
                    Err(PerformerError::SchnapsenError(e)) => *final(instance) == *old(instance)
                        && e == PlayerError::CantTakeCardRoundNotFinished && old(instance).active
                        == Some(self.player),
                    Err(PerformerError::CallError) => false,
                },
                SchnapsenDuoActions::TakeCards(idx) => match r {
                    Ok(()) => take_cards_post(*old(instance), *final(instance), self.player, idx),
                    Err(PerformerError::SchnapsenError(e)) => *final(instance) == *old(instance)
                        && take_cards_err(*old(instance), idx, e),
                    Err(PerformerError::CallError) => false,
                },
            },
    {
        match action {
            SchnapsenDuoActions::PlayCard(card) => match instance.play_card(self.player, card) {
                Ok(()) => Ok(()),
                Err(e) => Err(PerformerError::SchnapsenError(e)),
            },
            SchnapsenDuoActions::Quit => Err(PerformerError::CallError),
            SchnapsenDuoActions::SwapTrump(card) => match instance.swap_trump(
                self.player,
                card,
            ) {
                Ok(_) => Ok(()),
                Err(e) => Err(PerformerError::SchnapsenError(e)),
            },
            SchnapsenDuoActions::CloseTalon => match instance.close_talon(self.player) {
                Ok(()) => Ok(()),
                Err(e) => Err(PerformerError::SchnapsenError(e)),
            },
            SchnapsenDuoActions::Announce20(cards) => match instance.announce_20(
                self.player,
                cards,
            ) {
                Ok(_) => Ok(()),
                Err(e) => Err(PerformerError::SchnapsenError(e)),
            },
            SchnapsenDuoActions::Announce40 => match instance.announce_40(self.player) {
                Ok(_) => Ok(()),
                Err(e) => Err(PerformerError::SchnapsenError(e)),
            },
            SchnapsenDuoActions::DrawCard => match instance.draw_card_after_trick(self.player) {
                Ok(_) => Ok(()),
                Err(e) => Err(PerformerError::SchnapsenError(e)),
            },
            SchnapsenDuoActions::CuttDeck(idx) => match instance.cutt_deck(self.player, idx) {
                Ok(()) => Ok(()),
                Err(e) => Err(PerformerError::SchnapsenError(e)),
            },
            SchnapsenDuoActions::TakeCards(idx) => match instance.take_cards_til(
                self.player,
                idx,
            ) {
                Ok(_) => Ok(()),
                Err(e) => Err(PerformerError::SchnapsenError(e)),
            },
        }
    }
}

} // verus!

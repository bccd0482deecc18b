//! Inbound action messages: the closed set of typed action variants
//! and the wire names they travel under.

use vstd::prelude::*;
use crate::cards::Card;
use crate::ext::str_eq;

verus! {

/// A validated client action with its payload.
#[derive(Clone, Debug, PartialEq, Eq)]
pub enum SchnapsenDuoActions {
    PlayCard(Card),
    Quit,
    SwapTrump(Card),
    CloseTalon,
    Announce20([Card; 2]),
    Announce40,
    DrawCard,
    CuttDeck(usize),
    TakeCards(usize),
}

/// The bare kind of a client action, without its payload.
#[derive(Clone, Copy, Debug, PartialEq, Eq, Structural, Hash)]
pub enum SchnapsenDuoEmptyActions {
    PlayCard,
    Quit,
    Announce20,
    Announce40,
    SwapTrump,
    CloseTalon,
    DrawCard,
    CuttDeck,
    TakeCards,
}

/// The wire number of an action kind.
pub open spec fn spec_action_int(a: SchnapsenDuoEmptyActions) -> int {
    match a {
        SchnapsenDuoEmptyActions::PlayCard => 0,
        SchnapsenDuoEmptyActions::Quit => 1,
        SchnapsenDuoEmptyActions::Announce20 => 20,
        SchnapsenDuoEmptyActions::Announce40 => 40,
        SchnapsenDuoEmptyActions::SwapTrump => 3,
        SchnapsenDuoEmptyActions::CloseTalon => 4,
        SchnapsenDuoEmptyActions::DrawCard => 5,
        SchnapsenDuoEmptyActions::CuttDeck => 6,
        SchnapsenDuoEmptyActions::TakeCards => 7,
    }
}

impl SchnapsenDuoActions {
    /// The kind of this action.
    pub fn kind(&self) -> (r: SchnapsenDuoEmptyActions)
        ensures
            r == spec_action_kind(*self),
    {
        match self {
            SchnapsenDuoActions::PlayCard(_) => SchnapsenDuoEmptyActions::PlayCard,
            SchnapsenDuoActions::Quit => SchnapsenDuoEmptyActions::Quit,
            SchnapsenDuoActions::SwapTrump(_) => SchnapsenDuoEmptyActions::SwapTrump,
            SchnapsenDuoActions::CloseTalon => SchnapsenDuoEmptyActions::CloseTalon,
            SchnapsenDuoActions::Announce20(_) => SchnapsenDuoEmptyActions::Announce20,
            SchnapsenDuoActions::Announce40 => SchnapsenDuoEmptyActions::Announce40,
            SchnapsenDuoActions::DrawCard => SchnapsenDuoEmptyActions::DrawCard,
            SchnapsenDuoActions::CuttDeck(_) => SchnapsenDuoEmptyActions::CuttDeck,
            SchnapsenDuoActions::TakeCards(_) => SchnapsenDuoEmptyActions::TakeCards,
        }
    }

    /// The wire number of this action's kind.
    pub fn into_int(self) -> (r: u8)
        ensures
            r == spec_action_int(spec_action_kind(self)),
    {
        match self {
            SchnapsenDuoActions::PlayCard(_) => 0,
            SchnapsenDuoActions::Quit => 1,
            SchnapsenDuoActions::SwapTrump(_) => 3,
            SchnapsenDuoActions::CloseTalon => 4,
            SchnapsenDuoActions::Announce20(_) => 20,
            SchnapsenDuoActions::Announce40 => 40,
            SchnapsenDuoActions::DrawCard => 5,
            SchnapsenDuoActions::CuttDeck(_) => 6,
            SchnapsenDuoActions::TakeCards(_) => 7,
        }
    }
}

/// The kind of an action.
pub open spec fn spec_action_kind(a: SchnapsenDuoActions) -> SchnapsenDuoEmptyActions {
    match a {
        SchnapsenDuoActions::PlayCard(_) => SchnapsenDuoEmptyActions::PlayCard,
        SchnapsenDuoActions::Quit => SchnapsenDuoEmptyActions::Quit,
        SchnapsenDuoActions::SwapTrump(_) => SchnapsenDuoEmptyActions::SwapTrump,
        SchnapsenDuoActions::CloseTalon => SchnapsenDuoEmptyActions::CloseTalon,
        SchnapsenDuoActions::Announce20(_) => SchnapsenDuoEmptyActions::Announce20,
        SchnapsenDuoActions::Announce40 => SchnapsenDuoEmptyActions::Announce40,
        SchnapsenDuoActions::DrawCard => SchnapsenDuoEmptyActions::DrawCard,
        SchnapsenDuoActions::CuttDeck(_) => SchnapsenDuoEmptyActions::CuttDeck,
        SchnapsenDuoActions::TakeCards(_) => SchnapsenDuoEmptyActions::TakeCards,
    }
}

/// The message name of an action kind, as a ghost character sequence.
pub open spec fn spec_action_name(a: SchnapsenDuoEmptyActions) -> Seq<char> {
    match a {
        SchnapsenDuoEmptyActions::PlayCard => "play_card"@,
        SchnapsenDuoEmptyActions::Quit => "quit"@,
        SchnapsenDuoEmptyActions::Announce20 => "announce_20"@,
        SchnapsenDuoEmptyActions::Announce40 => "announce_40"@,
        SchnapsenDuoEmptyActions::SwapTrump => "swap_trump"@,
        SchnapsenDuoEmptyActions::CloseTalon => "close_talon"@,
        SchnapsenDuoEmptyActions::DrawCard => "draw_card"@,
        SchnapsenDuoEmptyActions::CuttDeck => "cutt_deck"@,
        SchnapsenDuoEmptyActions::TakeCards => "take_cards"@,
    }
}

/// The action kind a message name denotes: the inverse of
/// `spec_action_name` on the nine known names, and nothing on any
/// other name.
pub open spec fn spec_kind_of_name(name: Seq<char>) -> Option<SchnapsenDuoEmptyActions> {
    if name == "play_card"@ {
        Some(SchnapsenDuoEmptyActions::PlayCard)
    } else if name == "quit"@ {
        Some(SchnapsenDuoEmptyActions::Quit)
    } else if name == "announce_20"@ {
        Some(SchnapsenDuoEmptyActions::Announce20)
    } else if name == "announce_40"@ {
        Some(SchnapsenDuoEmptyActions::Announce40)
    } else if name == "swap_trump"@ {
        Some(SchnapsenDuoEmptyActions::SwapTrump)
    } else if name == "close_talon"@ {
        Some(SchnapsenDuoEmptyActions::CloseTalon)
    } else if name == "draw_card"@ {
        Some(SchnapsenDuoEmptyActions::DrawCard)
    } else if name == "cutt_deck"@ {
        Some(SchnapsenDuoEmptyActions::CuttDeck)
    } else if name == "take_cards"@ {
        Some(SchnapsenDuoEmptyActions::TakeCards)
    } else {
        None
    }
}

impl SchnapsenDuoEmptyActions {
    /// The message name this action kind travels under.
    pub fn event_name(&self) -> (r: &'static str)
        ensures
            r@ == spec_action_name(*self),
    {
        match self {
            SchnapsenDuoEmptyActions::PlayCard => "play_card",
            SchnapsenDuoEmptyActions::Quit => "quit",
            SchnapsenDuoEmptyActions::Announce20 => "announce_20",
            SchnapsenDuoEmptyActions::Announce40 => "announce_40",
            SchnapsenDuoEmptyActions::SwapTrump => "swap_trump",
            SchnapsenDuoEmptyActions::CloseTalon => "close_talon",
            SchnapsenDuoEmptyActions::DrawCard => "draw_card",
            SchnapsenDuoEmptyActions::CuttDeck => "cutt_deck",
            SchnapsenDuoEmptyActions::TakeCards => "take_cards",
        }
    }

    /// The action kind named by a message, if the name is known.
    /// Unknown messages are dropped by the caller with no effect.
    pub fn from_event_name(name: &str) -> (r: Option<SchnapsenDuoEmptyActions>)
        ensures
            r == spec_kind_of_name(name@),
    {
        if str_eq(name, "play_card") {
            Some(SchnapsenDuoEmptyActions::PlayCard)
        } else if str_eq(name, "quit") {
            Some(SchnapsenDuoEmptyActions::Quit)
        } else if str_eq(name, "announce_20") {
            Some(SchnapsenDuoEmptyActions::Announce20)
        } else if str_eq(name, "announce_40") {
            Some(SchnapsenDuoEmptyActions::Announce40)
        } else if str_eq(name, "swap_trump") {
            Some(SchnapsenDuoEmptyActions::SwapTrump)
        } else if str_eq(name, "close_talon") {
            Some(SchnapsenDuoEmptyActions::CloseTalon)
        } else if str_eq(name, "draw_card") {
            Some(SchnapsenDuoEmptyActions::DrawCard)
        } else if str_eq(name, "cutt_deck") {
            Some(SchnapsenDuoEmptyActions::CuttDeck)
        } else if str_eq(name, "take_cards") {
            Some(SchnapsenDuoEmptyActions::TakeCards)
        } else {
            None
        }
    }
}

} // verus!

//! The typed events the rule engine emits: public events visible to
//! both players and private events addressed to one of them.

use vstd::prelude::*;
use crate::cards::{Announcement, Card};

verus! {

/// An event addressed to a single player.
#[derive(Clone, Copy, Debug, PartialEq, Eq, Hash)]
pub enum PrivateEvent {
    CanAnnounce(Announcement),
    CannotAnnounce(Announcement),
    CardAvailable(Card),
    CardUnavailable(Card),
    CardPlayable(Card),
    CardNotPlayable(Card),
    TrumpChangePossible(Card),
    TrumpChangeImpossible(Card),
    AllowPlayCard,
    AllowDrawCard,
    AllowAnnounce,
    AllowCloseTalon,
    AllowSwapTrump,
}

/// An event visible to every session of the match. Player ids appear
/// as strings; ranked score sheets list the two (player id, points)
/// entries with the winner first.
#[derive(Clone, Debug, PartialEq, Eq, Hash)]
pub enum PublicEvent {
    Score { user_id: String, points: u8 },
    PlayCard { user_id: String, card: Card },
    Trick { user_id: String, cards: [Card; 2] },
    Announce { user_id: String, announcement: Announcement },
    Result { winner: String, points: u8, ranked: [(String, u8); 2] },
    FinalResult { ranked: [(String, u8); 2], winner: String },
    CloseTalon { user_id: String },
    TrumpChange(Option<Card>),
    Active { user_id: String },
    Inactive { user_id: String },
    DeckCardCount(usize),
    ReceiveCard { user_id: String },
    FinishedDistribution,
}

/// A type that carries the name under which it is sent over the wire.
pub trait EventIdentifier {
    /// The wire name, as a ghost character sequence.
    spec fn spec_event_name(&self) -> Seq<char>;

    /// The wire name of this value.
    fn event_name(&self) -> (r: &'static str)
        ensures
            r@ == self.spec_event_name(),
    ;
}

/// An event together with the scope it was produced in: private to one
/// player, or public to the whole match.
#[derive(Clone, Debug, PartialEq, Eq, Hash)]
pub enum EventType<Prv, Pub> {
    Private(Prv),
    Public(Pub),
}

/// A journalled event type: named for the wire and copyable without
/// loss, which `dup` states as a contract.
pub trait EventLike: EventIdentifier + Clone {
    /// An equal copy of the event.
    fn dup(&self) -> (r: Self)
        ensures
            r == *self,
    ;
}

impl EventIdentifier for PrivateEvent {
    open spec fn spec_event_name(&self) -> Seq<char> {
        match self {
            PrivateEvent::CanAnnounce(_) => "can_announce"@,
            PrivateEvent::CannotAnnounce(_) => "cannot_announce"@,
            PrivateEvent::CardAvailable(_) => "card_available"@,
            PrivateEvent::CardUnavailable(_) => "card_unavailable"@,
            PrivateEvent::CardPlayable(_) => "card_playable"@,
            PrivateEvent::CardNotPlayable(_) => "card_not_playable"@,
            PrivateEvent::TrumpChangePossible(_) => "trump_change_possible"@,
            PrivateEvent::TrumpChangeImpossible(_) => "trump_change_impossible"@,
            PrivateEvent::AllowPlayCard => "allow_play_card"@,
            PrivateEvent::AllowDrawCard => "allow_draw_card"@,
            PrivateEvent::AllowAnnounce => "allow_announce"@,
            PrivateEvent::AllowCloseTalon => "allow_close_talon"@,
            PrivateEvent::AllowSwapTrump => "allow_swap_trump"@,
        }
    }

    fn event_name(&self) -> &'static str {
        match self {
            PrivateEvent::CanAnnounce(_) => "can_announce",
            PrivateEvent::CannotAnnounce(_) => "cannot_announce",
            PrivateEvent::CardAvailable(_) => "card_available",
            PrivateEvent::CardUnavailable(_) => "card_unavailable",
            PrivateEvent::CardPlayable(_) => "card_playable",
            PrivateEvent::CardNotPlayable(_) => "card_not_playable",
            PrivateEvent::TrumpChangePossible(_) => "trump_change_possible",
            PrivateEvent::TrumpChangeImpossible(_) => "trump_change_impossible",
            PrivateEvent::AllowPlayCard => "allow_play_card",
            PrivateEvent::AllowDrawCard => "allow_draw_card",
            PrivateEvent::AllowAnnounce => "allow_announce",
            PrivateEvent::AllowCloseTalon => "allow_close_talon",
            PrivateEvent::AllowSwapTrump => "allow_swap_trump",
        }
    }
}

impl EventIdentifier for PublicEvent {
    open spec fn spec_event_name(&self) -> Seq<char> {
        match self {
            PublicEvent::Score { .. } => "score"@,
            PublicEvent::PlayCard { .. } => "play_card"@,
            PublicEvent::Trick { .. } => "trick"@,
            PublicEvent::Announce { .. } => "announce"@,
            PublicEvent::Result { .. } => "result"@,
            PublicEvent::FinalResult { .. } => "final_result"@,
            PublicEvent::CloseTalon { .. } => "close_talon"@,
            PublicEvent::TrumpChange(_) => "trump_change"@,
            PublicEvent::Active { .. } => "active"@,
            PublicEvent::Inactive { .. } => "inactive"@,
            PublicEvent::DeckCardCount(_) => "deck_card_count"@,
            PublicEvent::ReceiveCard { .. } => "receive_card"@,
            PublicEvent::FinishedDistribution => "finished_distribution"@,
        }
    }

    fn event_name(&self) -> &'static str {
        match self {
            PublicEvent::Score { .. } => "score",
            PublicEvent::PlayCard { .. } => "play_card",
            PublicEvent::Trick { .. } => "trick",
            PublicEvent::Announce { .. } => "announce",
            PublicEvent::Result { .. } => "result",
            PublicEvent::FinalResult { .. } => "final_result",
            PublicEvent::CloseTalon { .. } => "close_talon",
            PublicEvent::TrumpChange(_) => "trump_change",
            PublicEvent::Active { .. } => "active",
            PublicEvent::Inactive { .. } => "inactive",
            PublicEvent::DeckCardCount(_) => "deck_card_count",
            PublicEvent::ReceiveCard { .. } => "receive_card",
            PublicEvent::FinishedDistribution => "finished_distribution",
        }
    }
}

impl<Prv: EventIdentifier, Pub: EventIdentifier> EventIdentifier for EventType<Prv, Pub> {
    open spec fn spec_event_name(&self) -> Seq<char> {
        match self {
            EventType::Private(event) => event.spec_event_name(),
            EventType::Public(event) => event.spec_event_name(),
        }
    }

    fn event_name(&self) -> &'static str {
        match self {
            EventType::Private(event) => event.event_name(),
            EventType::Public(event) => event.event_name(),
        }
    }
}

impl EventLike for PrivateEvent {
    fn dup(&self) -> (r: Self) {
        *self
    }
}

impl EventLike for PublicEvent {
    fn dup(&self) -> (r: Self) {
        match self {
            PublicEvent::Score { user_id, points } => PublicEvent::Score {
                user_id: user_id.clone(),
                points: *points,
            },
            PublicEvent::PlayCard { user_id, card } => PublicEvent::PlayCard {
                user_id: user_id.clone(),
                card: *card,
            },
            PublicEvent::Trick { user_id, cards } => PublicEvent::Trick {
                user_id: user_id.clone(),
                cards: *cards,
            },
            PublicEvent::Announce { user_id, announcement } => PublicEvent::Announce {
                user_id: user_id.clone(),
                announcement: *announcement,
            },
            PublicEvent::Result { winner, points, ranked } => PublicEvent::Result {
                winner: winner.clone(),
                points: *points,
                ranked: dup_ranked(ranked),
            },
            PublicEvent::FinalResult { ranked, winner } => PublicEvent::FinalResult {
                ranked: dup_ranked(ranked),
                winner: winner.clone(),
            },
            PublicEvent::CloseTalon { user_id } => PublicEvent::CloseTalon {
                user_id: user_id.clone(),
            },
            PublicEvent::TrumpChange(card) => PublicEvent::TrumpChange(*card),
            PublicEvent::Active { user_id } => PublicEvent::Active { user_id: user_id.clone() },
            PublicEvent::Inactive { user_id } => PublicEvent::Inactive {
                user_id: user_id.clone(),
            },
            PublicEvent::DeckCardCount(n) => PublicEvent::DeckCardCount(*n),
            PublicEvent::ReceiveCard { user_id } => PublicEvent::ReceiveCard {
                user_id: user_id.clone(),
            },
            PublicEvent::FinishedDistribution => PublicEvent::FinishedDistribution,
        }
    }
}

/// An equal copy of a ranked score sheet.
fn dup_ranked(ranked: &[(String, u8); 2]) -> (r: [(String, u8); 2])
    ensures
        r == *ranked,
{
    let r = [(ranked[0].0.clone(), ranked[0].1), (ranked[1].0.clone(), ranked[1].1)];
    proof {
        assert(r =~= *ranked);
    }
    r
}

impl<Prv: EventLike, Pub: EventLike> EventLike for EventType<Prv, Pub> {
    fn dup(&self) -> (r: Self) {
        match self {
            EventType::Private(event) => EventType::Private(event.dup()),
            EventType::Public(event) => EventType::Public(event.dup()),
        }
    }
}

/// An event stamped with the microsecond timestamp of its creation.
#[derive(Clone, Debug, PartialEq, Eq, Hash)]
pub struct TimedEvent<T> {
    pub event: T,
    pub timestamp: u64,
}

impl<T: EventIdentifier> EventIdentifier for TimedEvent<T> {
    open spec fn spec_event_name(&self) -> Seq<char> {
        self.event.spec_event_name()
    }

    fn event_name(&self) -> &'static str {
        self.event.event_name()
    }
}

impl<T: EventLike> TimedEvent<T> {
    /// An equal copy of this entry.
    pub fn dup(&self) -> (r: TimedEvent<T>)
        ensures
            r == *self,
    {
        TimedEvent { event: self.event.dup(), timestamp: self.timestamp }
    }
}

/// The scoped event type of a Schnapsen duo match.
pub type SchnapsenDuoEventType = EventType<PrivateEvent, PublicEvent>;

} // verus!

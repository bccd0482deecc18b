//! The Schnapsen duo rule engine: a deterministic state machine over
//! one match. Commands validate a move, mutate the state, and append
//! the resulting public and private events to the event stream.

use vstd::prelude::*;
use crate::cards::{
    announce_points, Announcement, AnnounceType, Card, CardSuit, CardVal, full_deck, no_repeats,
    val_points,
};
use crate::errors::PlayerError;
use crate::events::{PrivateEvent, PublicEvent};
use crate::ext::{shuffle_cards, str_eq};
use crate::player::Player;

verus! {

/// An event as emitted by the engine: public, or addressed to the
/// player with the given index.
#[derive(Clone, Debug, PartialEq, Eq)]
pub enum EngineEvent {
    Public(PublicEvent),
    Private(usize, PrivateEvent),
}

/// Sum of the trick-point values of a sequence of cards.
pub open spec fn card_sum(s: Seq<Card>) -> int
    decreases s.len(),
{
    if s.len() == 0 {
        0
    } else {
        card_sum(s.drop_last()) + val_points(s.last().value)
    }
}

/// Sum of the trick-point values of a sequence of card pairs.
pub open spec fn pair_sum(s: Seq<[Card; 2]>) -> int
    decreases s.len(),
{
    if s.len() == 0 {
        0
    } else {
        pair_sum(s.drop_last()) + val_points(s.last()[0].value) + val_points(s.last()[1].value)
    }
}

/// Card-point value of an optional card.
pub open spec fn opt_card_points(c: Option<Card>) -> int {
    match c {
        Some(card) => val_points(card.value),
        None => 0,
    }
}

/// Number of cards held by an optional card slot.
pub open spec fn opt_card_count(c: Option<Card>) -> int {
    match c {
        Some(_) => 1,
        None => 0,
    }
}

/// The match engine. It owns both players, the talon, the trick stack
/// and the trump, and appends every event it produces to `events`.
pub struct SchnapsenDuo {
    pub players: Vec<Player>,
    pub deck: Vec<Card>,
    pub active: Option<usize>,
    pub trump: Option<Card>,
    pub taken_trump: Option<(usize, Card)>,
    pub closed_talon: Option<usize>,
    pub stack: Vec<Card>,
    pub events: Vec<EngineEvent>,
}

impl SchnapsenDuo {
    /// The player with the given index.
    pub open spec fn p(self, i: int) -> Player {
        self.players@[i]
    }

    /// The trump card slot of an optional taken trump.
    pub open spec fn taken_trump_card(self) -> Option<Card> {
        match self.taken_trump {
            Some((_, c)) => Some(c),
            None => None,
        }
    }

    /// The suit that beats the others: of the face-up trump while it
    /// lies under the talon, of the taken trump card afterwards.
    pub open spec fn trump_suit(self) -> Option<CardSuit> {
        match self.trump {
            Some(c) => Some(c.suit),
            None => match self.taken_trump {
                Some((_, c)) => Some(c.suit),
                None => None,
            },
        }
    }

    /// How many of the twenty cards each zone of the state holds; the
    /// conservation equation says the zones always add up to twenty.
    pub open spec fn placed_count(self) -> int {
        self.p(0).cards@.len() + self.p(1).cards@.len() + self.deck@.len() + self.stack@.len()
            + opt_card_count(self.trump) + 2 * self.p(0).tricks@.len() + 2 * self.p(
            1,
        ).tricks@.len()
    }

    /// The card points spread over the zones of the state; they always
    /// add up to the 120 points of the full deck.
    pub open spec fn placed_points(self) -> int {
        card_sum(self.p(0).cards@) + card_sum(self.p(1).cards@) + card_sum(self.deck@) + card_sum(
            self.stack@,
        ) + opt_card_points(self.trump) + pair_sum(self.p(0).tricks@) + pair_sum(
            self.p(1).tricks@,
        )
    }

    /// A recorded announcement is a king/queen pair of one suit, in
    /// either order, and a forty lies in the trump suit.
    pub open spec fn announcement_wf(self, a: Announcement) -> bool {
        &&& a.cards[0].suit == a.cards[1].suit
        &&& ((a.cards[0].value == CardVal::King && a.cards[1].value == CardVal::Queen) || (
        a.cards[0].value == CardVal::Queen && a.cards[1].value == CardVal::King))
        &&& a.announce_type == AnnounceType::Forty ==> self.trump_suit() == Some(a.cards[0].suit)
    }

    /// The announcements of player `i` are well-formed and no suit is
    /// announced twice.
    pub open spec fn announcements_wf(self, i: int) -> bool {
        &&& forall|k: int|
            0 <= k < self.p(i).announcements@.len() ==> self.announcement_wf(
                #[trigger] self.p(i).announcements@[k],
            )
        &&& forall|k: int, l: int|
            0 <= k < l < self.p(i).announcements@.len()
                ==> self.p(i).announcements@[k].cards[0].suit != self.p(
                i,
            ).announcements@[l].cards[0].suit
    }

    /// The structural invariant of the engine: two players, indices in
    /// range, at most one card waiting on the stack between commands,
    /// at most one live trump slot, and the two conservation
    /// equations.
    pub open spec fn wf(self) -> bool {
        &&& self.players@.len() == 2
        &&& match self.active {
            Some(i) => i < 2,
            None => true,
        }
        &&& match self.closed_talon {
            Some(i) => i < 2,
            None => true,
        }
        &&& match self.taken_trump {
            Some((i, _)) => i < 2,
            None => true,
        }
        &&& !(self.trump is Some && self.taken_trump is Some)
        &&& self.stack@.len() <= 1
        &&& self.placed_count() == 20
        &&& self.placed_points() == 120
        &&& self.announcements_wf(0)
        &&& self.announcements_wf(1)
        &&& self.active is Some ==> self.p(0).points <= 6 && self.p(1).points <= 6
        &&& self.p(0).points <= 9
        &&& self.p(1).points <= 9
    }

    /// A freshly shuffled deck of all twenty cards.
    fn populate_deck() -> (deck: Vec<Card>)
        ensures
            deck@.len() == 20,
            deck@.to_multiset() == full_deck().to_multiset(),
            no_repeats(deck@),
            card_sum(deck@) == 120,
    {
        let mut deck: Vec<Card> = Vec::new();
        deck.push(Card { value: CardVal::Ten, suit: CardSuit::Hearts });
        deck.push(Card { value: CardVal::Ace, suit: CardSuit::Hearts });
        deck.push(Card { value: CardVal::Jack, suit: CardSuit::Hearts });
        deck.push(Card { value: CardVal::Queen, suit: CardSuit::Hearts });
        deck.push(Card { value: CardVal::King, suit: CardSuit::Hearts });
        deck.push(Card { value: CardVal::Ten, suit: CardSuit::Diamonds });
        deck.push(Card { value: CardVal::Ace, suit: CardSuit::Diamonds });
        deck.push(Card { value: CardVal::Jack, suit: CardSuit::Diamonds });
        deck.push(Card { value: CardVal::Queen, suit: CardSuit::Diamonds });
        deck.push(Card { value: CardVal::King, suit: CardSuit::Diamonds });
        deck.push(Card { value: CardVal::Ten, suit: CardSuit::Clubs });
        deck.push(Card { value: CardVal::Ace, suit: CardSuit::Clubs });
        deck.push(Card { value: CardVal::Jack, suit: CardSuit::Clubs });
        deck.push(Card { value: CardVal::Queen, suit: CardSuit::Clubs });
        deck.push(Card { value: CardVal::King, suit: CardSuit::Clubs });
        deck.push(Card { value: CardVal::Ten, suit: CardSuit::Spades });
        deck.push(Card { value: CardVal::Ace, suit: CardSuit::Spades });
        deck.push(Card { value: CardVal::Jack, suit: CardSuit::Spades });
        deck.push(Card { value: CardVal::Queen, suit: CardSuit::Spades });
        deck.push(Card { value: CardVal::King, suit: CardSuit::Spades });
        proof {
            assert(deck@ =~= full_deck());
            lemma_full_deck_facts();
        }
        shuffle_cards(&mut deck);
        proof {
            lemma_card_sum_multiset(deck@, full_deck());
        }
        deck
    }

    /// A fresh match over the two given player ids, in that order: a
    /// shuffled full talon, empty hands, no trump revealed and nobody
    /// active yet.
    pub fn new(player_ids: &[String; 2]) -> (r: SchnapsenDuo)
        ensures
            r.wf(),
            r.p(0).id@ == player_ids[0]@,
            r.p(1).id@ == player_ids[1]@,
            r.p(0).cards@.len() == 0 && r.p(1).cards@.len() == 0,
            r.p(0).points == 0 && r.p(1).points == 0,
            r.p(0).tricks@.len() == 0 && r.p(1).tricks@.len() == 0,
            r.fresh_round_player(0),
            r.fresh_round_player(1),
            r.ready_to_distribute(),
            r.active is None,
            r.trump is None,
            r.taken_trump is None,
            r.closed_talon is None,
            r.stack@.len() == 0,
            r.deck@.len() == 20,
            no_repeats(r.deck@),
            r.deck@.to_multiset() == full_deck().to_multiset(),
            r.events@.len() == 0,
    {
        let deck = Self::populate_deck();
        let mut players: Vec<Player> = Vec::new();
        players.push(Player::new(player_ids[0].clone()));
        players.push(Player::new(player_ids[1].clone()));
        let r = SchnapsenDuo {
            players,
            deck,
            active: None,
            trump: None,
            taken_trump: None,
            closed_talon: None,
            stack: Vec::new(),
            events: Vec::new(),
        };
        r
    }

    /// Hands the accumulated events to the caller and clears the
    /// engine's stream.
    pub fn take_events(&mut self) -> (r: Vec<EngineEvent>)
        ensures
            r@ == old(self).events@,
            final(self).events@.len() == 0,
            final(self).players == old(self).players,
            final(self).deck == old(self).deck,
            final(self).active == old(self).active,
            final(self).trump == old(self).trump,
            final(self).taken_trump == old(self).taken_trump,
            final(self).closed_talon == old(self).closed_talon,
            final(self).stack == old(self).stack,
    {
        let mut out: Vec<EngineEvent> = Vec::new();
        core::mem::swap(&mut out, &mut self.events);
        out
    }

    /// The index of the player with the given id.
    pub fn get_player(&self, player_id: &str) -> (r: Option<usize>)
        requires
            self.wf(),
        ensures
            match r {
                Some(i) => i < 2 && self.p(i as int).id@ == player_id@,
                None => self.p(0).id@ != player_id@ && self.p(1).id@ != player_id@,
            },
    {
        if str_eq(self.players[0].id.as_str(), player_id) {
            Some(0)
        } else if str_eq(self.players[1].id.as_str(), player_id) {
            Some(1)
        } else {
            None
        }
    }

    /// The index of the other player.
    pub fn get_other_player(&self, player: usize) -> (r: usize)
        requires
            player < 2,
        ensures
            r == 1 - player,
    {
        1 - player
    }

    /// The active player, if a round is in progress.
    pub fn get_active_player(&self) -> (r: Option<usize>)
        ensures
            r == self.active,
    {
        self.active
    }

    /// The player who is not active; `None` while nobody is active.
    pub fn get_non_active_player(&self) -> (r: Option<usize>)
        requires
            self.wf(),
        ensures
            match self.active {
                Some(i) => r == Some((1 - i) as usize),
                None => r is None,
            },
    {
        match self.active {
            Some(i) => Some(1 - i),
            None => None,
        }
    }

    /// Whether the given player is the active one.
    pub fn is_active(&self, player: usize) -> (r: bool)
        ensures
            r == (self.active == Some(player)),
    {
        match self.active {
            Some(i) => i == player,
            None => false,
        }
    }

    /// Marks the player active and announces it; refused while some
    /// player is already active.
    pub fn set_active_player(&mut self, player: usize) -> (r: Result<(), PlayerError>)
        requires
            old(self).wf(),
            player < 2,
            old(self).p(0).points <= 6,
            old(self).p(1).points <= 6,
        ensures
            final(self).wf(),
            match r {
                Ok(()) => {
                    &&& old(self).active is None
                    &&& final(self).active == Some(player)
                    &&& final(self).events@ == old(self).events@.push(
                        EngineEvent::Public(
                            PublicEvent::Active { user_id: old(self).p(player as int).id },
                        ),
                    )
                    &&& final(self).players == old(self).players
                    &&& final(self).deck == old(self).deck
                    &&& final(self).trump == old(self).trump
                    &&& final(self).taken_trump == old(self).taken_trump
                    &&& final(self).closed_talon == old(self).closed_talon
                    &&& final(self).stack == old(self).stack
                },
                Err(e) => {
                    &&& old(self).active is Some
                    &&& e == PlayerError::CantSetActivePlayer
                    &&& *final(self) == *old(self)
                },
            },
    {
        if self.active.is_some() {
            return Err(PlayerError::CantSetActivePlayer);
        }
        self.make_active(player);
        Ok(())
    }

    /// Makes the player active and emits the `Active` event.
    fn make_active(&mut self, player: usize)
        requires
            old(self).wf(),
            player < 2,
            old(self).p(0).points <= 6,
            old(self).p(1).points <= 6,
        ensures
            final(self).wf(),
            final(self).active == Some(player),
            final(self).events@ == old(self).events@.push(
                EngineEvent::Public(PublicEvent::Active { user_id: old(self).p(player as int).id }),
            ),
            final(self).players == old(self).players,
            final(self).deck == old(self).deck,
            final(self).trump == old(self).trump,
            final(self).taken_trump == old(self).taken_trump,
            final(self).closed_talon == old(self).closed_talon,
            final(self).stack == old(self).stack,
    {
        self.active = Some(player);
        let user_id = self.players[player].id.clone();
        self.events.push(EngineEvent::Public(PublicEvent::Active { user_id }));
    }

    /// Seals the talon for the rest of the round. Allowed only for the
    /// active player, with cards still in the talon, no card on the
    /// stack, and the talon not closed before.
    pub fn close_talon(&mut self, player: usize) -> (r: Result<(), PlayerError>)
        requires
            old(self).wf(),
            player < 2,
        ensures
            final(self).wf(),
            match r {
                Ok(()) => {
                    &&& old(self).active == Some(player)
                    &&& old(self).deck@.len() > 0
                    &&& old(self).stack@.len() == 0
                    &&& old(self).closed_talon is None
                    &&& final(self).closed_talon == Some(player)
                    &&& final(self).events@ == old(self).events@.push(
                        EngineEvent::Public(
                            PublicEvent::CloseTalon { user_id: old(self).p(player as int).id },
                        ),
                    )
                    &&& final(self).players == old(self).players
                    &&& final(self).deck == old(self).deck
                    &&& final(self).active == old(self).active
                    &&& final(self).trump == old(self).trump
                    &&& final(self).taken_trump == old(self).taken_trump
                    &&& final(self).stack == old(self).stack
                },
                Err(e) => {
                    &&& *final(self) == *old(self)
                    &&& if old(self).active != Some(player) || old(self).deck@.len() == 0 || old(
                        self,
                    ).stack@.len() != 0 {
                        e == PlayerError::PlayerNotActive
                    } else {
                        e == PlayerError::TalonAlreadyClosed && old(self).closed_talon is Some
                    }
                },
            },
    {
        if !self.is_active(player) || self.deck.len() == 0 || self.stack.len() != 0 {
            return Err(PlayerError::PlayerNotActive);
        }
        if self.closed_talon.is_some() {
            return Err(PlayerError::TalonAlreadyClosed);
        }
        self.closed_talon = Some(player);
        let user_id = self.players[player].id.clone();
        self.events.push(EngineEvent::Public(PublicEvent::CloseTalon { user_id }));
        Ok(())
    }

    /// Rotates the talon: the bottom `cards_to_take` cards (clamped to
    /// the talon size) move on top, keeping their order. Refused for
    /// the active player.
    pub fn cutt_deck(&mut self, player: usize, cards_to_take: usize) -> (r: Result<
        (),
        PlayerError,
    >)
        requires
            old(self).wf(),
            player < 2,
        ensures
            final(self).wf(),
            match r {
                Ok(()) => {
                    &&& old(self).active != Some(player)
                    &&& {
                        let k = if cards_to_take > old(self).deck@.len() {
                            old(self).deck@.len() as int
                        } else {
                            cards_to_take as int
                        };
                        final(self).deck@ == old(self).deck@.skip(k) + old(self).deck@.take(k)
                    }
                    &&& final(self).players == old(self).players
                    &&& final(self).active == old(self).active
                    &&& final(self).trump == old(self).trump
                    &&& final(self).taken_trump == old(self).taken_trump
                    &&& final(self).closed_talon == old(self).closed_talon
                    &&& final(self).stack == old(self).stack
                    &&& final(self).events == old(self).events
                },
                Err(e) => {
                    &&& old(self).active == Some(player)
                    &&& e == PlayerError::CantTakeCardRoundNotFinished
                    &&& *final(self) == *old(self)
                },
            },
    {
        if self.is_active(player) {
            return Err(PlayerError::CantTakeCardRoundNotFinished);
        }
        let k = if cards_to_take > self.deck.len() {
            self.deck.len()
        } else {
            cards_to_take
        };
        let ghost pre = self.deck@;
        let mut rotated: Vec<Card> = Vec::new();
        let mut i: usize = k;
        while i < self.deck.len()
            invariant
                k <= i <= pre.len(),
                self.deck@ == pre,
                rotated@ == pre.skip(k as int).take(i - k),
            decreases pre.len() - i,
        {
            rotated.push(self.deck[i]);
            proof {
                assert(rotated@ =~= pre.skip(k as int).take(i + 1 - k));
            }
            i += 1;
        }
        let mut j: usize = 0;
        while j < k
            invariant
                j <= k <= pre.len(),
                self.deck@ == pre,
                rotated@ == pre.skip(k as int) + pre.take(j as int),
            decreases k - j,
        {
            rotated.push(self.deck[j]);
            proof {
                assert(rotated@ =~= pre.skip(k as int) + pre.take(j + 1));
            }
            j += 1;
        }
        proof {
            assert(pre.skip(k as int).take(pre.len() - k) =~= pre.skip(k as int));
            assert(pre.skip(k as int) + pre.take(0) =~= pre.skip(k as int));
            lemma_card_sum_split(pre, k as int);
            lemma_card_sum_concat(pre.skip(k as int), pre.take(k as int));
        }
        self.deck = rotated;
        Ok(())
    }
}

/// Whether the responding card takes the trick from the lead card,
/// given the trump suit: a lone trump wins, otherwise an off-suit
/// response loses, otherwise the higher value wins and the lead keeps
/// ties.
pub open spec fn wins_trick(lead: Card, response: Card, trump_suit: CardSuit) -> bool {
    if response.suit == trump_suit && lead.suit != trump_suit {
        true
    } else if lead.suit == trump_suit && response.suit != trump_suit {
        false
    } else if response.suit != lead.suit {
        false
    } else {
        val_points(response.value) > val_points(lead.value)
    }
}

/// The cards of the given suit, in hand order.
pub open spec fn suit_cards(hand: Seq<Card>, suit: CardSuit) -> Seq<Card>
    decreases hand.len(),
{
    if hand.len() == 0 {
        Seq::empty()
    } else {
        let rest = suit_cards(hand.drop_last(), suit);
        if hand.last().suit == suit {
            rest.push(hand.last())
        } else {
            rest
        }
    }
}

/// The cards that would take the current trick, in hand order.
pub open spec fn winning_cards(hand: Seq<Card>, lead: Card, trump_suit: CardSuit) -> Seq<Card>
    decreases hand.len(),
{
    if hand.len() == 0 {
        Seq::empty()
    } else {
        let rest = winning_cards(hand.drop_last(), lead, trump_suit);
        if wins_trick(lead, hand.last(), trump_suit) {
            rest.push(hand.last())
        } else {
            rest
        }
    }
}

/// The cards of `new` that `old` does not hold, in the order of `new`.
pub open spec fn added_cards(new: Seq<Card>, old: Seq<Card>) -> Seq<Card>
    decreases new.len(),
{
    if new.len() == 0 {
        Seq::empty()
    } else {
        let rest = added_cards(new.drop_last(), old);
        if !old.contains(new.last()) {
            rest.push(new.last())
        } else {
            rest
        }
    }
}

/// One `CardPlayable` event per card, addressed to the player.
pub open spec fn playable_evts(player: usize, cs: Seq<Card>) -> Seq<EngineEvent>
    decreases cs.len(),
{
    if cs.len() == 0 {
        Seq::empty()
    } else {
        playable_evts(player, cs.drop_last()).push(
            EngineEvent::Private(player, PrivateEvent::CardPlayable(cs.last())),
        )
    }
}

/// One `CardNotPlayable` event per card, addressed to the player.
pub open spec fn not_playable_evts(player: usize, cs: Seq<Card>) -> Seq<EngineEvent>
    decreases cs.len(),
{
    if cs.len() == 0 {
        Seq::empty()
    } else {
        not_playable_evts(player, cs.drop_last()).push(
            EngineEvent::Private(player, PrivateEvent::CardNotPlayable(cs.last())),
        )
    }
}

/// The cards a hand may legally play against the given stack.
///
/// With an open talon or an empty stack every hand card may be
/// played. Against a lead with the talon closed or exhausted, the
/// lead's suit must be followed, else trumped, else anything; with
/// the talon closed, a trick-taking card must be chosen if one
/// exists.
pub open spec fn playable_core(
    hand: Seq<Card>,
    stack: Seq<Card>,
    taken: bool,
    closed: bool,
    ts: Option<CardSuit>,
) -> Seq<Card> {
    let base = if stack.len() > 0 && (taken || closed) {
        let forcing = suit_cards(hand, stack[0].suit);
        if forcing.len() > 0 {
            forcing
        } else {
            match ts {
                Some(t) => suit_cards(hand, t),
                None => Seq::empty(),
            }
        }
    } else {
        hand
    };
    let base2 = if base.len() == 0 {
        hand
    } else {
        base
    };
    if closed && stack.len() > 0 {
        match ts {
            Some(t) => {
                let winning = winning_cards(base2, stack[0], t);
                if winning.len() > 0 {
                    winning
                } else {
                    base2
                }
            },
            None => base2,
        }
    } else {
        base2
    }
}

impl SchnapsenDuo {
    /// The cards the player may legally play in the current state.
    pub open spec fn spec_playable(self, i: int) -> Seq<Card> {
        playable_core(
            self.p(i).cards@,
            self.stack@,
            self.taken_trump is Some,
            self.closed_talon is Some,
            self.trump_suit(),
        )
    }
}

/// Whether `response` takes the trick from `lead` under `trump_suit`.
pub fn beats(lead: Card, response: Card, trump_suit: CardSuit) -> (r: bool)
    ensures
        r == wins_trick(lead, response, trump_suit),
{
    if response.suit == trump_suit && !(lead.suit == trump_suit) {
        true
    } else if lead.suit == trump_suit && !(response.suit == trump_suit) {
        false
    } else if !(response.suit == lead.suit) {
        false
    } else {
        response.points() > lead.points()
    }
}

/// Whether the cards hold the given one.
fn vec_contains_card(v: &Vec<Card>, c: Card) -> (r: bool)
    ensures
        r == v@.contains(c),
{
    let mut i: usize = 0;
    while i < v.len()
        invariant
            i <= v@.len(),
            forall|k: int| 0 <= k < i ==> v@[k] != c,
        decreases v@.len() - i,
    {
        if v[i] == c {
            assert(v@[i as int] == c);
            return true;
        }
        i += 1;
    }
    false
}

/// A copy of the cards.
fn clone_cards(v: &Vec<Card>) -> (r: Vec<Card>)
    ensures
        r@ == v@,
{
    let mut out: Vec<Card> = Vec::new();
    let mut i: usize = 0;
    while i < v.len()
        invariant
            i <= v@.len(),
            out@ == v@.take(i as int),
        decreases v@.len() - i,
    {
        out.push(v[i]);
        proof {
            assert(out@ =~= v@.take(i + 1));
        }
        i += 1;
    }
    proof {
        assert(v@.take(v@.len() as int) =~= v@);
    }
    out
}

/// The cards of the given suit, in order.
fn cards_of_suit(v: &Vec<Card>, suit: CardSuit) -> (r: Vec<Card>)
    ensures
        r@ == suit_cards(v@, suit),
{
    let mut out: Vec<Card> = Vec::new();
    let mut i: usize = 0;
    proof {
        assert(v@.take(0) =~= Seq::<Card>::empty());
    }
    while i < v.len()
        invariant
            i <= v@.len(),
            out@ == suit_cards(v@.take(i as int), suit),
        decreases v@.len() - i,
    {
        proof {
            assert(v@.take(i + 1).drop_last() =~= v@.take(i as int));
            assert(v@.take(i + 1).last() == v@[i as int]);
        }
        if v[i].suit == suit {
            out.push(v[i]);
        }
        i += 1;
    }
    proof {
        assert(v@.take(v@.len() as int) =~= v@);
    }
    out
}

/// The cards that would take the trick against `lead`, in order.
fn cards_winning(v: &Vec<Card>, lead: Card, trump_suit: CardSuit) -> (r: Vec<Card>)
    ensures
        r@ == winning_cards(v@, lead, trump_suit),
{
    let mut out: Vec<Card> = Vec::new();
    let mut i: usize = 0;
    proof {
        assert(v@.take(0) =~= Seq::<Card>::empty());
    }
    while i < v.len()
        invariant
            i <= v@.len(),
            out@ == winning_cards(v@.take(i as int), lead, trump_suit),
        decreases v@.len() - i,
    {
        proof {
            assert(v@.take(i + 1).drop_last() =~= v@.take(i as int));
            assert(v@.take(i + 1).last() == v@[i as int]);
        }
        if beats(lead, v[i], trump_suit) {
            out.push(v[i]);
        }
        i += 1;
    }
    proof {
        assert(v@.take(v@.len() as int) =~= v@);
    }
    out
}

impl SchnapsenDuo {
    /// The cards the player may legally play right now.
    pub fn find_playable_cards(&self, player: usize) -> (r: Vec<Card>)
        requires
            self.wf(),
            player < 2,
        ensures
            r@ == self.spec_playable(player as int),
    {
        let hand = &self.players[player].cards;
        let mut base: Vec<Card>;
        if self.stack.len() > 0 && (self.taken_trump.is_some() || self.closed_talon.is_some()) {
            let forcing = cards_of_suit(hand, self.stack[0].suit);
            if forcing.len() > 0 {
                base = forcing;
            } else {
                match self.trump_suit_now() {
                    Some(ts) => {
                        base = cards_of_suit(hand, ts);
                    },
                    None => {
                        base = Vec::new();
                    },
                }
            }
        } else {
            base = clone_cards(hand);
        }
        if base.len() == 0 {
            base = clone_cards(hand);
        }
        if self.closed_talon.is_some() && self.stack.len() > 0 {
            match self.trump_suit_now() {
                Some(ts) => {
                    let winning = cards_winning(&base, self.stack[0], ts);
                    if winning.len() > 0 {
                        return winning;
                    }
                    base
                },
                None => base,
            }
        } else {
            base
        }
    }

    /// The current trump suit, if a trump was revealed or taken.
    pub fn trump_suit_now(&self) -> (r: Option<CardSuit>)
        ensures
            r == self.trump_suit(),
    {
        match &self.trump {
            Some(c) => Some(c.suit),
            None => match &self.taken_trump {
                Some((_, c)) => Some(c.suit),
                None => None,
            },
        }
    }

    /// Recomputes the player's playable set, emitting one
    /// `CardPlayable` per newly playable card and one
    /// `CardNotPlayable` per card that dropped out.
    fn update_playable_cards(&mut self, player: usize)
        requires
            old(self).wf(),
            player < 2,
        ensures
            final(self).wf(),
            ({
                let newp = old(self).spec_playable(player as int);
                let oldp = old(self).p(player as int).playable_cards@;
                &&& final(self).p(player as int).playable_cards@ == newp
                &&& final(self).events@ == old(self).events@ + playable_evts(
                    player,
                    added_cards(newp, oldp),
                ) + not_playable_evts(player, added_cards(oldp, newp))
                &&& final(self).p(player as int).id == old(self).p(player as int).id
                &&& final(self).p(player as int).cards == old(self).p(player as int).cards
                &&& final(self).p(player as int).tricks == old(self).p(player as int).tricks
                &&& final(self).p(player as int).announcements == old(self).p(
                    player as int,
                ).announcements
                &&& final(self).p(player as int).announcable == old(self).p(
                    player as int,
                ).announcable
                &&& final(self).p(player as int).possible_trump_swap == old(self).p(
                    player as int,
                ).possible_trump_swap
                &&& final(self).p(player as int).points == old(self).p(player as int).points
                &&& final(self).p(1 - player as int) == old(self).p(1 - player as int)
                &&& final(self).players@.len() == 2
                &&& final(self).deck == old(self).deck
                &&& final(self).active == old(self).active
                &&& final(self).trump == old(self).trump
                &&& final(self).taken_trump == old(self).taken_trump
                &&& final(self).closed_talon == old(self).closed_talon
                &&& final(self).stack == old(self).stack
            }),
    {
        let ghost pre = *self;
        let newp = self.find_playable_cards(player);
        let ghost news = newp@;
        let ghost olds = self.players@[player as int].playable_cards@;
        let mut i: usize = 0;
        while i < newp.len()
            invariant
                i <= news.len(),
                newp@ == news,
                *self == (SchnapsenDuo { events: self.events, ..pre }),
                self.players@.len() == 2,
                olds == self.p(player as int).playable_cards@,
                player < 2,
                self.events@ == pre.events@ + playable_evts(
                    player,
                    added_cards(news.take(i as int), olds),
                ),
            decreases news.len() - i,
        {
            proof {
                assert(news.take(i + 1).drop_last() =~= news.take(i as int));
                assert(news.take(i + 1).last() == news[i as int]);
            }
            if !vec_contains_card(&self.players[player].playable_cards, newp[i]) {
                self.events.push(EngineEvent::Private(player, PrivateEvent::CardPlayable(newp[i])));
            }
            proof {
                let tk = news.take(i as int);
                let tk1 = news.take(i + 1);
                if !olds.contains(news[i as int]) {
                    assert(added_cards(tk1, olds) =~= added_cards(tk, olds).push(
                        news[i as int],
                    ));
                    lemma_playable_evts_push(player, added_cards(tk, olds), news[i as int]);
                    assert(self.events@ =~= pre.events@ + playable_evts(
                        player,
                        added_cards(tk1, olds),
                    ));
                } else {
                    assert(added_cards(tk1, olds) == added_cards(tk, olds));
                }
            }
            i += 1;
        }
        proof {
            assert(news.take(news.len() as int) =~= news);
        }
        let ghost mid_events = self.events@;
        let mut j: usize = 0;
        while j < self.players[player].playable_cards.len()
            invariant
                j <= olds.len(),
                newp@ == news,
                *self == (SchnapsenDuo { events: self.events, ..pre }),
                self.players@.len() == 2,
                olds == self.p(player as int).playable_cards@,
                player < 2,
                self.events@ == mid_events + not_playable_evts(
                    player,
                    added_cards(olds.take(j as int), news),
                ),
            decreases olds.len() - j,
        {
            proof {
                assert(olds.take(j + 1).drop_last() =~= olds.take(j as int));
                assert(olds.take(j + 1).last() == olds[j as int]);
            }
            let c = self.players[player].playable_cards[j];
            if !vec_contains_card(&newp, c) {
                self.events.push(EngineEvent::Private(player, PrivateEvent::CardNotPlayable(c)));
            }
            proof {
                let tk = olds.take(j as int);
                let tk1 = olds.take(j + 1);
                if !news.contains(olds[j as int]) {
                    assert(added_cards(tk1, news) =~= added_cards(tk, news).push(
                        olds[j as int],
                    ));
                    lemma_not_playable_evts_push(player, added_cards(tk, news), olds[j as int]);
                    assert(self.events@ =~= mid_events + not_playable_evts(
                        player,
                        added_cards(tk1, news),
                    ));
                } else {
                    assert(added_cards(tk1, news) == added_cards(tk, news));
                }
            }
            j += 1;
        }
        proof {
            assert(olds.take(olds.len() as int) =~= olds);
        }
        self.players[player].playable_cards = newp;
        proof {
            assert(self.events@ =~= pre.events@ + playable_evts(player, added_cards(news, olds))
                + not_playable_evts(player, added_cards(olds, news)));
        }
    }
}

/// The hand holds both king and queen of the suit.
pub open spec fn has_marriage(hand: Seq<Card>, suit: CardSuit) -> bool {
    hand.contains(Card { value: CardVal::King, suit }) && hand.contains(
        Card { value: CardVal::Queen, suit },
    )
}

/// The twenty announcement of a suit: its king and queen.
pub open spec fn twenty_of(suit: CardSuit) -> Announcement {
    Announcement {
        cards: [
            Card { value: CardVal::King, suit },
            Card { value: CardVal::Queen, suit },
        ],
        announce_type: AnnounceType::Twenty,
    }
}

/// The forty announcement: king and queen of the trump suit.
pub open spec fn forty_of(suit: CardSuit) -> Announcement {
    Announcement {
        cards: [
            Card { value: CardVal::King, suit },
            Card { value: CardVal::Queen, suit },
        ],
        announce_type: AnnounceType::Forty,
    }
}

/// The marriages a hand can announce, in suit order, as twenties, with
/// the forty of the trump suit appended when the hand holds it.
pub open spec fn ann_raw(hand: Seq<Card>, trump_suit: Option<CardSuit>) -> Seq<Announcement> {
    (if has_marriage(hand, CardSuit::Hearts) {
        seq![twenty_of(CardSuit::Hearts)]
    } else {
        Seq::empty()
    }) + (if has_marriage(hand, CardSuit::Diamonds) {
        seq![twenty_of(CardSuit::Diamonds)]
    } else {
        Seq::empty()
    }) + (if has_marriage(hand, CardSuit::Clubs) {
        seq![twenty_of(CardSuit::Clubs)]
    } else {
        Seq::empty()
    }) + (if has_marriage(hand, CardSuit::Spades) {
        seq![twenty_of(CardSuit::Spades)]
    } else {
        Seq::empty()
    }) + (match trump_suit {
        Some(ts) => if has_marriage(hand, ts) {
            seq![forty_of(ts)]
        } else {
            Seq::empty()
        },
        None => Seq::empty(),
    })
}

/// Some announcement of the player already names this suit.
pub open spec fn suit_announced(anns: Seq<Announcement>, suit: CardSuit) -> bool {
    exists|k: int| 0 <= k < anns.len() && anns[k].cards[0].suit == suit
}

/// The announcements of `raw` whose suit is not yet announced.
pub open spec fn minus_announced(raw: Seq<Announcement>, anns: Seq<Announcement>) -> Seq<
    Announcement,
>
    decreases raw.len(),
{
    if raw.len() == 0 {
        Seq::empty()
    } else {
        let rest = minus_announced(raw.drop_last(), anns);
        if !suit_announced(anns, raw.last().cards[0].suit) {
            rest.push(raw.last())
        } else {
            rest
        }
    }
}

/// Some announcement of the list has the same kind and suit.
pub open spec fn ann_matched(list: Seq<Announcement>, a: Announcement) -> bool {
    exists|k: int| 0 <= k < list.len() && crate::cards::matches_announcement(list[k], a)
}

/// One `CannotAnnounce` event for each stale announcement.
pub open spec fn cannot_evts(player: usize, olds: Seq<Announcement>, news: Seq<Announcement>) -> Seq<
    EngineEvent,
>
    decreases olds.len(),
{
    if olds.len() == 0 {
        Seq::empty()
    } else {
        let rest = cannot_evts(player, olds.drop_last(), news);
        if !ann_matched(news, olds.last()) {
            rest.push(EngineEvent::Private(player, PrivateEvent::CannotAnnounce(olds.last())))
        } else {
            rest
        }
    }
}

/// One `CanAnnounce` event for each newly announcable marriage.
pub open spec fn can_evts(player: usize, news: Seq<Announcement>, olds: Seq<Announcement>) -> Seq<
    EngineEvent,
>
    decreases news.len(),
{
    if news.len() == 0 {
        Seq::empty()
    } else {
        let rest = can_evts(player, news.drop_last(), olds);
        if !ann_matched(olds, news.last()) {
            rest.push(EngineEvent::Private(player, PrivateEvent::CanAnnounce(news.last())))
        } else {
            rest
        }
    }
}

/// The jack of the trump suit, when the hand holds it.
pub open spec fn jack_swap(hand: Seq<Card>, trump_suit: CardSuit) -> Option<Card> {
    if hand.contains(Card { value: CardVal::Jack, suit: trump_suit }) {
        Some(Card { value: CardVal::Jack, suit: trump_suit })
    } else {
        None
    }
}

/// The delta events of a trump-swap recheck: `TrumpChangePossible`
/// when the swap just became available, `TrumpChangeImpossible` when
/// it just lapsed, and `AllowSwapTrump` whenever it is available.
pub open spec fn swap_evts(player: usize, oldf: Option<Card>, newf: Option<Card>) -> Seq<
    EngineEvent,
> {
    (match (oldf, newf) {
        (None, Some(c)) => seq![
            EngineEvent::Private(player, PrivateEvent::TrumpChangePossible(c)),
        ],
        (Some(o), None) => seq![
            EngineEvent::Private(player, PrivateEvent::TrumpChangeImpossible(o)),
        ],
        _ => Seq::empty(),
    }) + (if newf is Some {
        seq![EngineEvent::Private(player, PrivateEvent::AllowSwapTrump)]
    } else {
        Seq::empty()
    })
}

/// The announcements a hand may make: its marriages, gated on being
/// active, minus suits already announced.
pub open spec fn ann_core(
    active: bool,
    hand: Seq<Card>,
    ts: Option<CardSuit>,
    anns: Seq<Announcement>,
) -> Seq<Announcement> {
    if !active {
        Seq::empty()
    } else {
        minus_announced(ann_raw(hand, ts), anns)
    }
}

/// The trump-jack swap a hand may make, when the enabling conditions
/// hold and the trump is still face up.
pub open spec fn swap_core(enabled: bool, trump: Option<Card>, hand: Seq<Card>) -> Option<Card> {
    if enabled {
        match trump {
            Some(t) => jack_swap(hand, t.suit),
            None => None,
        }
    } else {
        None
    }
}

impl SchnapsenDuo {
    /// The announcements player `i` may make right now.
    pub open spec fn spec_announcable(self, i: int) -> Seq<Announcement> {
        ann_core(
            self.active == Some(i as usize),
            self.p(i).cards@,
            self.trump_suit(),
            self.p(i).announcements@,
        )
    }

    /// The trump-jack swap available to player `i` right now: only for
    /// the active player with the trump face up, an empty stack and an
    /// open talon.
    pub open spec fn spec_can_swap(self, i: int) -> Option<Card> {
        swap_core(
            self.active == Some(i as usize) && self.stack@.len() == 0
                && self.closed_talon is None,
            self.trump,
            self.p(i).cards@,
        )
    }
}

/// Whether the list holds an announcement of the same kind and suit.
fn has_match(v: &Vec<Announcement>, a: &Announcement) -> (r: bool)
    ensures
        r == ann_matched(v@, *a),
{
    let mut i: usize = 0;
    while i < v.len()
        invariant
            i <= v@.len(),
            forall|k: int|
                0 <= k < i ==> !crate::cards::matches_announcement(v@[k], *a),
        decreases v@.len() - i,
    {
        if v[i].announce_type == a.announce_type && v[i].cards[0].suit == a.cards[0].suit {
            assert(crate::cards::matches_announcement(v@[i as int], *a));
            return true;
        }
        i += 1;
    }
    false
}

/// Whether the player's announcements already name the suit.
fn has_suit_announced(v: &Vec<Announcement>, suit: CardSuit) -> (r: bool)
    ensures
        r == suit_announced(v@, suit),
{
    let mut i: usize = 0;
    while i < v.len()
        invariant
            i <= v@.len(),
            forall|k: int| 0 <= k < i ==> v@[k].cards[0].suit != suit,
        decreases v@.len() - i,
    {
        if v[i].cards[0].suit == suit {
            assert(v@[i as int].cards[0].suit == suit);
            return true;
        }
        i += 1;
    }
    false
}

impl SchnapsenDuo {
    /// The announcements the player may make right now.
    fn compute_announcable(&self, player: usize) -> (r: Vec<Announcement>)
        requires
            self.wf(),
            player < 2,
        ensures
            r@ == self.spec_announcable(player as int),
    {
        let mut out: Vec<Announcement> = Vec::new();
        if !self.is_active(player) {
            return out;
        }
        let mut raw: Vec<Announcement> = Vec::new();
        let hand = &self.players[player].cards;
        if vec_contains_card(hand, Card { value: CardVal::King, suit: CardSuit::Hearts })
            && vec_contains_card(hand, Card { value: CardVal::Queen, suit: CardSuit::Hearts }) {
            raw.push(
                Announcement {
                    cards: [
                        Card { value: CardVal::King, suit: CardSuit::Hearts },
                        Card { value: CardVal::Queen, suit: CardSuit::Hearts },
                    ],
                    announce_type: AnnounceType::Twenty,
                },
            );
        }
        if vec_contains_card(hand, Card { value: CardVal::King, suit: CardSuit::Diamonds })
            && vec_contains_card(hand, Card { value: CardVal::Queen, suit: CardSuit::Diamonds }) {
            raw.push(
                Announcement {
                    cards: [
                        Card { value: CardVal::King, suit: CardSuit::Diamonds },
                        Card { value: CardVal::Queen, suit: CardSuit::Diamonds },
                    ],
                    announce_type: AnnounceType::Twenty,
                },
            );
        }
        if vec_contains_card(hand, Card { value: CardVal::King, suit: CardSuit::Clubs })
            && vec_contains_card(hand, Card { value: CardVal::Queen, suit: CardSuit::Clubs }) {
            raw.push(
                Announcement {
                    cards: [
                        Card { value: CardVal::King, suit: CardSuit::Clubs },
                        Card { value: CardVal::Queen, suit: CardSuit::Clubs },
                    ],
                    announce_type: AnnounceType::Twenty,
                },
            );
        }
        if vec_contains_card(hand, Card { value: CardVal::King, suit: CardSuit::Spades })
            && vec_contains_card(hand, Card { value: CardVal::Queen, suit: CardSuit::Spades }) {
            raw.push(
                Announcement {
                    cards: [
                        Card { value: CardVal::King, suit: CardSuit::Spades },
                        Card { value: CardVal::Queen, suit: CardSuit::Spades },
                    ],
                    announce_type: AnnounceType::Twenty,
                },
            );
        }
        match self.trump_suit_now() {
            Some(ts) => {
                if vec_contains_card(hand, Card { value: CardVal::King, suit: ts })
                    && vec_contains_card(hand, Card { value: CardVal::Queen, suit: ts }) {
                    raw.push(
                        Announcement {
                            cards: [
                                Card { value: CardVal::King, suit: ts },
                                Card { value: CardVal::Queen, suit: ts },
                            ],
                            announce_type: AnnounceType::Forty,
                        },
                    );
                }
            },
            None => {},
        }
        proof {
            assert(raw@ =~= ann_raw(self.p(player as int).cards@, self.trump_suit()));
        }
        let ghost raws = raw@;
        let ghost anns = self.p(player as int).announcements@;
        let mut i: usize = 0;
        while i < raw.len()
            invariant
                i <= raws.len(),
                raw@ == raws,
                anns == self.p(player as int).announcements@,
                player < 2,
                self.players@.len() == 2,
                out@ == minus_announced(raws.take(i as int), anns),
            decreases raws.len() - i,
        {
            proof {
                assert(raws.take(i + 1).drop_last() =~= raws.take(i as int));
                assert(raws.take(i + 1).last() == raws[i as int]);
            }
            if !has_suit_announced(&self.players[player].announcements, raw[i].cards[0].suit) {
                out.push(raw[i]);
            }
            i += 1;
        }
        proof {
            assert(raws.take(raws.len() as int) =~= raws);
        }
        out
    }

    /// The trump-jack swap available to the player right now.
    fn can_swap_trump(&self, player: usize) -> (r: Option<Card>)
        requires
            self.wf(),
            player < 2,
        ensures
            r == self.spec_can_swap(player as int),
    {
        if !self.is_active(player) || self.stack.len() != 0 || self.closed_talon.is_some() {
            return None;
        }
        match &self.trump {
            Some(t) => {
                let jack = Card { value: CardVal::Jack, suit: t.suit };
                if vec_contains_card(&self.players[player].cards, jack) {
                    Some(jack)
                } else {
                    None
                }
            },
            None => None,
        }
    }

    /// Recomputes whether the player may swap the trump jack, emits
    /// the delta events, and allows the swap when it is available.
    fn update_swap_trump(&mut self, player: usize)
        requires
            old(self).wf(),
            player < 2,
        ensures
            final(self).wf(),
            ({
                let newf = old(self).spec_can_swap(player as int);
                let oldf = old(self).p(player as int).possible_trump_swap;
                &&& final(self).p(player as int).possible_trump_swap == newf
                &&& final(self).events@ == old(self).events@ + swap_evts(player, oldf, newf)
                &&& final(self).p(player as int).id == old(self).p(player as int).id
                &&& final(self).p(player as int).cards == old(self).p(player as int).cards
                &&& final(self).p(player as int).playable_cards == old(self).p(
                    player as int,
                ).playable_cards
                &&& final(self).p(player as int).tricks == old(self).p(player as int).tricks
                &&& final(self).p(player as int).announcements == old(self).p(
                    player as int,
                ).announcements
                &&& final(self).p(player as int).announcable == old(self).p(
                    player as int,
                ).announcable
                &&& final(self).p(player as int).points == old(self).p(player as int).points
                &&& final(self).p(1 - player as int) == old(self).p(1 - player as int)
                &&& final(self).players@.len() == 2
                &&& final(self).deck == old(self).deck
                &&& final(self).active == old(self).active
                &&& final(self).trump == old(self).trump
                &&& final(self).taken_trump == old(self).taken_trump
                &&& final(self).closed_talon == old(self).closed_talon
                &&& final(self).stack == old(self).stack
            }),
    {
        let newf = self.can_swap_trump(player);
        let oldf = self.players[player].possible_trump_swap;
        match (oldf, newf) {
            (None, Some(c)) => {
                self.events.push(
                    EngineEvent::Private(player, PrivateEvent::TrumpChangePossible(c)),
                );
            },
            (Some(o), None) => {
                self.events.push(
                    EngineEvent::Private(player, PrivateEvent::TrumpChangeImpossible(o)),
                );
            },
            _ => {},
        }
        self.players[player].possible_trump_swap = newf;
        if newf.is_some() {
            self.events.push(EngineEvent::Private(player, PrivateEvent::AllowSwapTrump));
        }
        proof {
            assert(self.events@ =~= old(self).events@ + swap_evts(
                player,
                old(self).p(player as int).possible_trump_swap,
                old(self).spec_can_swap(player as int),
            ));
        }
    }

    /// Recomputes the player's announcable marriages, emitting
    /// `CannotAnnounce` for each one that lapsed and `CanAnnounce` for
    /// each new one.
    fn update_announcable_props(&mut self, player: usize)
        requires
            old(self).wf(),
            player < 2,
        ensures
            final(self).wf(),
            ({
                let news = old(self).spec_announcable(player as int);
                let olds = old(self).p(player as int).announcable@;
                &&& final(self).p(player as int).announcable@ == news
                &&& final(self).events@ == old(self).events@ + cannot_evts(player, olds, news)
                    + can_evts(player, news, olds)
                &&& final(self).p(player as int).id == old(self).p(player as int).id
                &&& final(self).p(player as int).cards == old(self).p(player as int).cards
                &&& final(self).p(player as int).playable_cards == old(self).p(
                    player as int,
                ).playable_cards
                &&& final(self).p(player as int).tricks == old(self).p(player as int).tricks
                &&& final(self).p(player as int).announcements == old(self).p(
                    player as int,
                ).announcements
                &&& final(self).p(player as int).possible_trump_swap == old(self).p(
                    player as int,
                ).possible_trump_swap
                &&& final(self).p(player as int).points == old(self).p(player as int).points
                &&& final(self).p(1 - player as int) == old(self).p(1 - player as int)
                &&& final(self).players@.len() == 2
                &&& final(self).deck == old(self).deck
                &&& final(self).active == old(self).active
                &&& final(self).trump == old(self).trump
                &&& final(self).taken_trump == old(self).taken_trump
                &&& final(self).closed_talon == old(self).closed_talon
                &&& final(self).stack == old(self).stack
            }),
    {
        let ghost pre = *self;
        let newlist = self.compute_announcable(player);
        let ghost news = newlist@;
        let ghost olds = self.players@[player as int].announcable@;
        let mut i: usize = 0;
        while i < self.players[player].announcable.len()
            invariant
                i <= olds.len(),
                newlist@ == news,
                *self == (SchnapsenDuo { events: self.events, ..pre }),
                self.players@.len() == 2,
                olds == self.p(player as int).announcable@,
                player < 2,
                self.events@ == pre.events@ + cannot_evts(
                    player,
                    olds.take(i as int),
                    news,
                ),
            decreases olds.len() - i,
        {
            proof {
                assert(olds.take(i + 1).drop_last() =~= olds.take(i as int));
                assert(olds.take(i + 1).last() == olds[i as int]);
            }
            let a = self.players[player].announcable[i];
            if !has_match(&newlist, &a) {
                self.events.push(EngineEvent::Private(player, PrivateEvent::CannotAnnounce(a)));
                proof {
                    assert(cannot_evts(player, olds.take(i + 1), news) =~= cannot_evts(
                        player,
                        olds.take(i as int),
                        news,
                    ).push(
                        EngineEvent::Private(
                            player,
                            PrivateEvent::CannotAnnounce(olds[i as int]),
                        ),
                    ));
                    assert(self.events@ =~= pre.events@ + cannot_evts(
                        player,
                        olds.take(i + 1),
                        news,
                    ));
                }
            }
            i += 1;
        }
        proof {
            assert(olds.take(olds.len() as int) =~= olds);
        }
        let ghost mid_events = self.events@;
        let mut j: usize = 0;
        while j < newlist.len()
            invariant
                j <= news.len(),
                newlist@ == news,
                *self == (SchnapsenDuo { events: self.events, ..pre }),
                self.players@.len() == 2,
                olds == self.p(player as int).announcable@,
                player < 2,
                self.events@ == mid_events + can_evts(player, news.take(j as int), olds),
            decreases news.len() - j,
        {
            proof {
                assert(news.take(j + 1).drop_last() =~= news.take(j as int));
                assert(news.take(j + 1).last() == news[j as int]);
            }
            let a = newlist[j];
            if !has_match(&self.players[player].announcable, &a) {
                self.events.push(EngineEvent::Private(player, PrivateEvent::CanAnnounce(a)));
                proof {
                    assert(can_evts(player, news.take(j + 1), olds) =~= can_evts(
                        player,
                        news.take(j as int),
                        olds,
                    ).push(
                        EngineEvent::Private(player, PrivateEvent::CanAnnounce(news[j as int])),
                    ));
                    assert(self.events@ =~= mid_events + can_evts(
                        player,
                        news.take(j + 1),
                        olds,
                    ));
                }
            }
            j += 1;
        }
        proof {
            assert(news.take(news.len() as int) =~= news);
        }
        self.players[player].announcable = newlist;
        proof {
            assert(self.events@ =~= pre.events@ + cannot_evts(player, olds, news) + can_evts(
                player,
                news,
                olds,
            ));
        }
    }
}

/// The two events of dealing one card to a player.
pub open spec fn deal_evts(player: usize, id: String, c: Card) -> Seq<EngineEvent> {
    seq![
        EngineEvent::Private(player, PrivateEvent::CardAvailable(c)),
        EngineEvent::Public(PublicEvent::ReceiveCard { user_id: id }),
    ]
}

/// One pair of deal events per taken card, in taking order.
pub open spec fn taken_evts(player: usize, id: String, cs: Seq<Card>) -> Seq<EngineEvent>
    decreases cs.len(),
{
    if cs.len() == 0 {
        Seq::empty()
    } else {
        taken_evts(player, id, cs.drop_last()) + deal_evts(player, id, cs.last())
    }
}

/// The event stream of a distribution over plain values: the active
/// player `a` with id `ida`, the other with `idb`, and the talon `d`
/// dealt from its top.
pub open spec fn distribution_events_core(
    a: usize,
    ida: String,
    idb: String,
    d: Seq<Card>,
    ev: Seq<EngineEvent>,
) -> Seq<EngineEvent> {
    let b = (1 - a) as usize;
    let hand_a = seq![d[19], d[18], d[17], d[12], d[11]];
    let hand_b = seq![d[16], d[15], d[14], d[10], d[9]];
    let ts = d[13].suit;
    ev + deal_evts(a, ida, d[19]) + deal_evts(a, ida, d[18]) + deal_evts(a, ida, d[17])
        + deal_evts(b, idb, d[16]) + deal_evts(b, idb, d[15]) + deal_evts(b, idb, d[14])
        + seq![EngineEvent::Public(PublicEvent::TrumpChange(Some(d[13])))] + deal_evts(
        a,
        ida,
        d[12],
    ) + deal_evts(a, ida, d[11]) + deal_evts(b, idb, d[10]) + deal_evts(b, idb, d[9])
        + playable_evts(a, hand_a) + swap_evts(a, None, jack_swap(hand_a, ts)) + can_evts(
        a,
        ann_raw(hand_a, Some(ts)),
        Seq::empty(),
    ) + playable_evts(b, hand_b) + seq![
        EngineEvent::Private(a, PrivateEvent::AllowPlayCard),
        EngineEvent::Private(a, PrivateEvent::AllowCloseTalon),
    ]
}

impl SchnapsenDuo {
    /// The event stream after a distribution, appended to the stream
    /// `ev` the engine held before it and determined by the
    /// pre-distribution state: three cards to the active player and
    /// three to the other, the trump reveal, two more to each, the
    /// derived-set events of both players, and the two allowances to
    /// the active player.
    pub open spec fn distribution_events(self, ev: Seq<EngineEvent>) -> Seq<EngineEvent> {
        let a = self.active.unwrap();
        distribution_events_core(
            a,
            self.p(a as int).id,
            self.p(1 - a as int).id,
            self.deck@,
            ev,
        )
    }

    /// A player's per-round state is untouched: empty hand and derived
    /// sets, no tricks and no announcements.
    pub open spec fn fresh_round_player(self, i: int) -> bool {
        &&& self.p(i).cards@.len() == 0
        &&& self.p(i).playable_cards@.len() == 0
        &&& self.p(i).tricks@.len() == 0
        &&& self.p(i).announcements@.len() == 0
        &&& self.p(i).announcable@.len() == 0
        &&& self.p(i).possible_trump_swap is None
    }

    /// The round is ready for a distribution: a full talon, untouched
    /// players, no trump out, no trick on the stack, the talon open.
    pub open spec fn ready_to_distribute(self) -> bool {
        &&& self.deck@.len() == 20
        &&& self.fresh_round_player(0)
        &&& self.fresh_round_player(1)
        &&& self.trump is None
        &&& self.taken_trump is None
        &&& self.closed_talon is None
        &&& self.stack@.len() == 0
    }

    /// Deals the top card of the talon to the player: the card moves
    /// into the hand and the pair of deal events is emitted.
    fn deal_one(&mut self, player: usize)
        requires
            old(self).wf(),
            player < 2,
            old(self).deck@.len() > 0,
        ensures
            final(self).wf(),
            ({
                let c = old(self).deck@.last();
                &&& final(self).deck@ == old(self).deck@.drop_last()
                &&& final(self).p(player as int).cards@ == old(self).p(player as int).cards@.push(
                    c,
                )
                &&& final(self).events@ == old(self).events@ + deal_evts(
                    player,
                    old(self).p(player as int).id,
                    c,
                )
                &&& final(self).p(player as int).id == old(self).p(player as int).id
                &&& final(self).p(player as int).playable_cards == old(self).p(
                    player as int,
                ).playable_cards
                &&& final(self).p(player as int).tricks == old(self).p(player as int).tricks
                &&& final(self).p(player as int).announcements == old(self).p(
                    player as int,
                ).announcements
                &&& final(self).p(player as int).announcable == old(self).p(
                    player as int,
                ).announcable
                &&& final(self).p(player as int).possible_trump_swap == old(self).p(
                    player as int,
                ).possible_trump_swap
                &&& final(self).p(player as int).points == old(self).p(player as int).points
                &&& final(self).p(1 - player as int) == old(self).p(1 - player as int)
                &&& final(self).players@.len() == 2
                &&& final(self).active == old(self).active
                &&& final(self).trump == old(self).trump
                &&& final(self).taken_trump == old(self).taken_trump
                &&& final(self).closed_talon == old(self).closed_talon
                &&& final(self).stack == old(self).stack
            }),
    {
        let card = self.deck.pop().unwrap();
        self.events.push(EngineEvent::Private(player, PrivateEvent::CardAvailable(card)));
        let user_id = self.players[player].id.clone();
        self.events.push(EngineEvent::Public(PublicEvent::ReceiveCard { user_id }));
        self.players[player].cards.push(card);
        proof {
            lemma_card_sum_push(old(self).p(player as int).cards@, card);
            assert(self.events@ =~= old(self).events@ + deal_evts(
                player,
                old(self).p(player as int).id,
                card,
            ));
        }
    }

    /// Deals the opening hands: three cards to the active player and
    /// to the other, the trump reveal, then two more to each; derives
    /// both players' action sets and allows the active player to play
    /// or close the talon. Refused when nobody is active.
    #[verifier::rlimit(100)]
    #[verifier::spinoff_prover]
    pub fn distribute_cards(&mut self) -> (r: Result<(), PlayerError>)
        requires
            old(self).wf(),
            old(self).ready_to_distribute(),
        ensures
            final(self).wf(),
            match r {
                Ok(()) => ({
                    let a = old(self).active.unwrap() as int;
                    let b = 1 - a;
                    let d = old(self).deck@;
                    let hand_a = seq![d[19], d[18], d[17], d[12], d[11]];
                    let hand_b = seq![d[16], d[15], d[14], d[10], d[9]];
                    let ts = d[13].suit;
                    &&& old(self).active is Some
                    &&& final(self).deck@ == d.take(9)
                    &&& final(self).trump == Some(d[13])
                    &&& final(self).p(a).cards@ == hand_a
                    &&& final(self).p(b).cards@ == hand_b
                    &&& final(self).p(a).playable_cards@ == hand_a
                    &&& final(self).p(b).playable_cards@ == hand_b
                    &&& final(self).p(a).announcable@ == ann_raw(hand_a, Some(ts))
                    &&& final(self).p(b).announcable@.len() == 0
                    &&& final(self).p(a).possible_trump_swap == jack_swap(hand_a, ts)
                    &&& final(self).p(b).possible_trump_swap is None
                    &&& final(self).p(a).tricks == old(self).p(a).tricks
                    &&& final(self).p(b).tricks == old(self).p(b).tricks
                    &&& final(self).p(a).announcements == old(self).p(a).announcements
                    &&& final(self).p(b).announcements == old(self).p(b).announcements
                    &&& final(self).p(a).points == old(self).p(a).points
                    &&& final(self).p(b).points == old(self).p(b).points
                    &&& final(self).p(a).id == old(self).p(a).id
                    &&& final(self).p(b).id == old(self).p(b).id
                    &&& final(self).active == old(self).active
                    &&& final(self).taken_trump is None
                    &&& final(self).closed_talon is None
                    &&& final(self).stack@.len() == 0
                    &&& final(self).events@ == old(self).distribution_events(old(self).events@)
                }),
                Err(e) => {
                    &&& old(self).active is None
                    &&& e == PlayerError::NoPlayerActive
                    &&& *final(self) == *old(self)
                },
            },
    {
        let a = match self.active {
            Some(i) => i,
            None => {
                return Err(PlayerError::NoPlayerActive);
            },
        };
        let b = 1 - a;
        let ghost d = self.deck@;
        self.deal_one(a);
        self.deal_one(a);
        self.deal_one(a);
        self.deal_one(b);
        self.deal_one(b);
        self.deal_one(b);
        let trump = self.deck.pop().unwrap();
        let ghost ep = self.events@;
        self.events.push(EngineEvent::Public(PublicEvent::TrumpChange(Some(trump))));
        proof {
            assert(self.events@ =~= ep + seq![
                EngineEvent::Public(PublicEvent::TrumpChange(Some(d[13]))),
            ]);
        }
        self.trump = Some(trump);
        self.deal_one(a);
        self.deal_one(a);
        self.deal_one(b);
        self.deal_one(b);
        let ghost hand_a = seq![d[19], d[18], d[17], d[12], d[11]];
        let ghost hand_b = seq![d[16], d[15], d[14], d[10], d[9]];
        let ghost ts = d[13].suit;
        proof {
            assert(self.p(a as int).cards@ =~= hand_a);
            assert(self.p(b as int).cards@ =~= hand_b);
            assert(self.deck@ =~= d.take(9));
        }
        let ghost e0 = self.events@;
        self.update_playable_cards(a);
        proof {
            assert(self.p(a as int).playable_cards@ == hand_a && self.events@ =~= e0
                + playable_evts(a, hand_a)) by {
                assert(old(self).p(a as int).playable_cards@ =~= Seq::<Card>::empty());
                lemma_added_empty(hand_a);
                assert(added_cards(Seq::<Card>::empty(), hand_a) =~= Seq::<Card>::empty());
            }
        }
        let ghost e1 = self.events@;
        self.update_swap_trump(a);
        proof {
            assert(self.p(a as int).possible_trump_swap == jack_swap(hand_a, ts) && self.events@
                =~= e1 + swap_evts(a, None, jack_swap(hand_a, ts)));
        }
        let ghost e2 = self.events@;
        self.update_announcable_props(a);
        proof {
            assert(self.p(a as int).announcable@ == ann_raw(hand_a, Some(ts)) && self.events@
                =~= e2 + can_evts(a, ann_raw(hand_a, Some(ts)), Seq::empty())) by {
                assert(old(self).p(a as int).announcements@ =~= Seq::<Announcement>::empty());
                assert(old(self).p(a as int).announcable@ =~= Seq::<Announcement>::empty());
                lemma_minus_empty(ann_raw(hand_a, Some(ts)));
            }
        }
        let ghost e3 = self.events@;
        self.update_playable_cards(b);
        proof {
            assert(self.p(b as int).playable_cards@ == hand_b && self.events@ =~= e3
                + playable_evts(b, hand_b)) by {
                assert(old(self).p(b as int).playable_cards@ =~= Seq::<Card>::empty());
                lemma_added_empty(hand_b);
                assert(added_cards(Seq::<Card>::empty(), hand_b) =~= Seq::<Card>::empty());
            }
        }
        let ghost e4 = self.events@;
        self.update_swap_trump(b);
        proof {
            assert(a != b);
            assert(self.events@ =~= e4);
        }
        let ghost e5 = self.events@;
        self.update_announcable_props(b);
        proof {
            assert(self.p(b as int).announcable@ =~= Seq::<Announcement>::empty());
            assert(self.events@ =~= e5);
        }
        let ghost e6 = self.events@;
        self.events.push(EngineEvent::Private(a, PrivateEvent::AllowPlayCard));
        self.events.push(EngineEvent::Private(a, PrivateEvent::AllowCloseTalon));
        proof {
            assert(self.events@ =~= e6 + seq![
                EngineEvent::Private(a, PrivateEvent::AllowPlayCard),
                EngineEvent::Private(a, PrivateEvent::AllowCloseTalon),
            ]);
            assert(self.events@ == old(self).distribution_events(old(self).events@));
        }
        Ok(())
    }
}

/// Against an empty old set, every card counts as added.
proof fn lemma_added_empty(s: Seq<Card>)
    ensures
        added_cards(s, Seq::empty()) == s,
    decreases s.len(),
{
    if s.len() > 0 {
        lemma_added_empty(s.drop_last());
        assert(added_cards(s, Seq::empty()) =~= s);
    } else {
        assert(added_cards(s, Seq::empty()) =~= s);
    }
}

/// With nothing announced yet, no marriage is filtered out.
proof fn lemma_minus_empty(s: Seq<Announcement>)
    ensures
        minus_announced(s, Seq::empty()) == s,
    decreases s.len(),
{
    if s.len() > 0 {
        lemma_minus_empty(s.drop_last());
        assert(minus_announced(s, Seq::empty()) =~= s);
    } else {
        assert(minus_announced(s, Seq::empty()) =~= s);
    }
}

/// Appending a card adds exactly its points to the sum.
pub proof fn lemma_card_sum_push(s: Seq<Card>, c: Card)
    ensures
        card_sum(s.push(c)) == card_sum(s) + val_points(c.value),
{
    assert(s.push(c).drop_last() =~= s);
    assert(s.push(c).last() == c);
}

/// Appending a pair adds exactly its points to the sum.
pub proof fn lemma_pair_sum_push(s: Seq<[Card; 2]>, p: [Card; 2])
    ensures
        pair_sum(s.push(p)) == pair_sum(s) + val_points(p[0].value) + val_points(p[1].value),
{
    assert(s.push(p).drop_last() =~= s);
    assert(s.push(p).last() == p);
}

/// Sum of the score values of a list of announcements.
pub open spec fn ann_sum(anns: Seq<Announcement>) -> int
    decreases anns.len(),
{
    if anns.len() == 0 {
        0
    } else {
        ann_sum(anns.drop_last()) + announce_points(anns.last().announce_type)
    }
}

/// The round score of a player: trick-card points plus announcement
/// values, the latter only once the player has taken a trick.
pub open spec fn player_score(p: Player) -> int {
    pair_sum(p.tricks@) + if p.tricks@.len() > 0 {
        ann_sum(p.announcements@)
    } else {
        0
    }
}

/// Bummerl points awarded to the round winner, from the loser's round
/// score: three for a blank loser, two under thirty-three, else one.
pub open spec fn bummerl_points(loser_score: int) -> int {
    if loser_score == 0 {
        3
    } else if loser_score >= 33 {
        2
    } else {
        1
    }
}

/// The outcome of a finished round, as plain data.
pub struct PlayerPoint {
    pub player: usize,
    pub points: u8,
}

/// Round scores by rank: the player with more raw points first. Ties
/// rank the second player as winner.
pub struct CardComparisonResult {
    pub winner: PlayerPoint,
    pub loser: PlayerPoint,
}

impl SchnapsenDuo {
    /// The round score of player `i`.
    pub open spec fn spec_score(self, i: int) -> int {
        player_score(self.p(i))
    }

    /// The index of the player currently leading on raw score; the
    /// second player on a tie.
    pub open spec fn score_leader(self) -> int {
        if self.spec_score(1) >= self.spec_score(0) {
            1
        } else {
            0
        }
    }

    /// A hand has run empty, ending the round by exhaustion.
    pub open spec fn exhausted(self) -> bool {
        self.p(0).cards@.len() == 0 || self.p(1).cards@.len() == 0
    }

    /// The round is over: the leader reached sixty-six or the hands
    /// ran out.
    pub open spec fn round_over(self) -> bool {
        self.spec_score(self.score_leader()) >= 66 || self.exhausted()
    }

    /// The winner index of a finished round, after the closed-talon
    /// and last-trick rules: a leader short of sixty-six on exhaustion
    /// forfeits to the closer rule or the last-trick rule.
    pub open spec fn round_winner(self, last_trick: int) -> int {
        let w = self.score_leader();
        if self.spec_score(w) >= 66 {
            w
        } else {
            match self.closed_talon {
                Some(closer) => if closer == w {
                    w
                } else {
                    1 - w
                },
                None => if last_trick != w {
                    1 - w
                } else {
                    w
                },
            }
        }
    }

    /// The bummerl points the round winner earns: on a sixty-six win,
    /// rated by the loser's own score; on exhaustion the loser's
    /// points are absorbed and count as blank.
    pub open spec fn round_bummerl(self, last_trick: int) -> int {
        let w = self.score_leader();
        if self.spec_score(w) >= 66 {
            bummerl_points(self.spec_score(1 - w))
        } else {
            bummerl_points(0)
        }
    }
}

/// Sums of card values are never negative.
proof fn lemma_card_sum_nonneg(s: Seq<Card>)
    ensures
        card_sum(s) >= 0,
    decreases s.len(),
{
    if s.len() > 0 {
        lemma_card_sum_nonneg(s.drop_last());
    }
}

/// Sums of pair values are never negative; each pair is worth at most
/// twenty-two.
proof fn lemma_pair_sum_bounds(s: Seq<[Card; 2]>)
    ensures
        pair_sum(s) >= 0,
        pair_sum(s) <= 22 * s.len(),
    decreases s.len(),
{
    if s.len() > 0 {
        lemma_pair_sum_bounds(s.drop_last());
    }
}

/// A prefix of the tricks carries at most the whole sum.
proof fn lemma_pair_sum_take(s: Seq<[Card; 2]>, k: int)
    requires
        0 <= k <= s.len(),
    ensures
        pair_sum(s.take(k)) <= pair_sum(s),
    decreases s.len() - k,
{
    if k < s.len() {
        assert(s.take(k + 1).drop_last() =~= s.take(k));
        assert(s.take(k + 1).last() == s[k]);
        lemma_pair_sum_take(s, k + 1);
        assert(s.take(s.len() as int) =~= s);
    } else {
        assert(s.take(k) =~= s);
    }
}

/// Announced suits are pairwise distinct, so at most four
/// announcements exist, at most one of them a forty: together they
/// are worth at most one hundred points.
proof fn lemma_ann_sum_bound(anns: Seq<Announcement>, ts: CardSuit)
    requires
        forall|k: int|
            0 <= k < anns.len() && #[trigger] anns[k].announce_type == AnnounceType::Forty
                ==> anns[k].cards[0].suit == ts,
        forall|k: int, l: int|
            0 <= k < l < anns.len() ==> anns[k].cards[0].suit != anns[l].cards[0].suit,
    ensures
        ann_sum(anns) <= 100,
        anns.len() <= 4,
{
    lemma_ann_len(anns);
    lemma_ann_sum_split(anns, ts);
}

/// Pairwise distinct suits bound the list at the four suits.
proof fn lemma_ann_len(anns: Seq<Announcement>)
    requires
        forall|k: int, l: int|
            0 <= k < l < anns.len() ==> anns[k].cards[0].suit != anns[l].cards[0].suit,
    ensures
        anns.len() <= 4,
{
    if anns.len() >= 5 {
        let s0 = anns[0].cards[0].suit;
        let s1 = anns[1].cards[0].suit;
        let s2 = anns[2].cards[0].suit;
        let s3 = anns[3].cards[0].suit;
        let s4 = anns[4].cards[0].suit;
        assert(s0 != s1 && s0 != s2 && s0 != s3 && s0 != s4 && s1 != s2 && s1 != s3 && s1 != s4
            && s2 != s3 && s2 != s4 && s3 != s4);
        assert(false);
    }
}

/// With at most one forty, the sum stays within twenty per entry plus
/// the forty's extra twenty.
proof fn lemma_ann_sum_split(anns: Seq<Announcement>, ts: CardSuit)
    requires
        forall|k: int|
            0 <= k < anns.len() && #[trigger] anns[k].announce_type == AnnounceType::Forty
                ==> anns[k].cards[0].suit == ts,
        forall|k: int, l: int|
            0 <= k < l < anns.len() ==> anns[k].cards[0].suit != anns[l].cards[0].suit,
    ensures
        ann_sum(anns) <= 20 * anns.len() + 20,
        (forall|k: int|
            0 <= k < anns.len() ==> #[trigger] anns[k].announce_type != AnnounceType::Forty)
            ==> ann_sum(anns) <= 20 * anns.len(),
    decreases anns.len(),
{
    if anns.len() > 0 {
        let rest = anns.drop_last();
        lemma_ann_sum_split(rest, ts);
        if anns.last().announce_type == AnnounceType::Forty {
            assert forall|k: int|
                0 <= k < rest.len() implies #[trigger] rest[k].announce_type
                != AnnounceType::Forty by {
                if rest[k].announce_type == AnnounceType::Forty {
                    assert(anns[k].cards[0].suit == ts);
                    assert(anns[anns.len() - 1].cards[0].suit == ts);
                }
            }
        }
    }
}

impl SchnapsenDuo {
    /// The round score of a player as a machine number; at most 220.
    fn score_of(&self, player: usize) -> (r: u8)
        requires
            self.wf(),
            player < 2,
        ensures
            r == self.spec_score(player as int),
    {
        let tricks = &self.players[player].tricks;
        let mut total: u32 = 0;
        let mut i: usize = 0;
        proof {
            lemma_pair_sum_bounds(tricks@);
            assert(2 * tricks@.len() <= 20);
        }
        while i < tricks.len()
            invariant
                i <= tricks@.len(),
                tricks@.len() <= 10,
                total == pair_sum(tricks@.take(i as int)),
                total <= 22 * i,
            decreases tricks@.len() - i,
        {
            proof {
                assert(tricks@.take(i + 1).drop_last() =~= tricks@.take(i as int));
                assert(tricks@.take(i + 1).last() == tricks@[i as int]);
            }
            let pair = tricks[i];
            total = total + pair[0].points() as u32 + pair[1].points() as u32;
            i += 1;
        }
        proof {
            assert(tricks@.take(tricks@.len() as int) =~= tricks@);
        }
        if tricks.len() > 0 {
            let anns = &self.players[player].announcements;
            let mut j: usize = 0;
            proof {
                lemma_ann_len(anns@);
            }
            while j < anns.len()
                invariant
                    j <= anns@.len(),
                    anns@.len() <= 4,
                    total == pair_sum(self.p(player as int).tricks@) + ann_sum(
                        anns@.take(j as int),
                    ),
                    total <= 220 + 40 * j,
                    pair_sum(self.p(player as int).tricks@) <= 220,
                    anns == self.players@[player as int].announcements,
                decreases anns@.len() - j,
            {
                proof {
                    assert(anns@.take(j + 1).drop_last() =~= anns@.take(j as int));
                    assert(anns@.take(j + 1).last() == anns@[j as int]);
                }
                total = total + anns[j].announce_type.points() as u32;
                j += 1;
            }
            proof {
                assert(anns@.take(anns@.len() as int) =~= anns@);
            }
        }
        proof {
            lemma_score_bound(*self, player as int);
        }
        total as u8
    }

    /// Publishes both players' raw round scores, leader first, and
    /// returns the ranking.
    fn update_points(&mut self) -> (r: CardComparisonResult)
        requires
            old(self).wf(),
        ensures
            final(self).wf(),
            r.winner.player == old(self).score_leader(),
            r.loser.player == 1 - old(self).score_leader(),
            r.winner.points == old(self).spec_score(old(self).score_leader()),
            r.loser.points == old(self).spec_score(1 - old(self).score_leader()),
            final(self).events@ == old(self).events@.push(
                EngineEvent::Public(
                    PublicEvent::Score {
                        user_id: old(self).p(old(self).score_leader()).id,
                        points: (old(self).spec_score(old(self).score_leader())) as u8,
                    },
                ),
            ).push(
                EngineEvent::Public(
                    PublicEvent::Score {
                        user_id: old(self).p(1 - old(self).score_leader()).id,
                        points: (old(self).spec_score(1 - old(self).score_leader())) as u8,
                    },
                ),
            ),
            final(self).players == old(self).players,
            final(self).deck == old(self).deck,
            final(self).active == old(self).active,
            final(self).trump == old(self).trump,
            final(self).taken_trump == old(self).taken_trump,
            final(self).closed_talon == old(self).closed_talon,
            final(self).stack == old(self).stack,
    {
        let s0 = self.score_of(0);
        let s1 = self.score_of(1);
        let (w, sw, sl): (usize, u8, u8) = if s1 >= s0 {
            (1, s1, s0)
        } else {
            (0, s0, s1)
        };
        let wid = self.players[w].id.clone();
        self.events.push(EngineEvent::Public(PublicEvent::Score { user_id: wid, points: sw }));
        let lid = self.players[1 - w].id.clone();
        self.events.push(EngineEvent::Public(PublicEvent::Score { user_id: lid, points: sl }));
        CardComparisonResult {
            winner: PlayerPoint { player: w, points: sw },
            loser: PlayerPoint { player: 1 - w, points: sl },
        }
    }

    /// The current ranking of the two players by raw round score,
    /// without publishing anything.
    pub fn calc_points(&self) -> (r: CardComparisonResult)
        requires
            self.wf(),
        ensures
            r.winner.player == self.score_leader(),
            r.loser.player == 1 - self.score_leader(),
            r.winner.points == self.spec_score(self.score_leader()),
            r.loser.points == self.spec_score(1 - self.score_leader()),
    {
        let s0 = self.score_of(0);
        let s1 = self.score_of(1);
        if s1 >= s0 {
            CardComparisonResult {
                winner: PlayerPoint { player: 1, points: s1 },
                loser: PlayerPoint { player: 0, points: s0 },
            }
        } else {
            CardComparisonResult {
                winner: PlayerPoint { player: 0, points: s0 },
                loser: PlayerPoint { player: 1, points: s1 },
            }
        }
    }
}

/// The delta events a player receives when their derived sets are
/// refreshed: announcable deltas, swap deltas, then playable deltas.
pub open spec fn refresh_evts(
    player: usize,
    old_ann: Seq<Announcement>,
    new_ann: Seq<Announcement>,
    old_swap: Option<Card>,
    new_swap: Option<Card>,
    old_play: Seq<Card>,
    new_play: Seq<Card>,
) -> Seq<EngineEvent> {
    cannot_evts(player, old_ann, new_ann) + can_evts(player, new_ann, old_ann) + swap_evts(
        player,
        old_swap,
        new_swap,
    ) + playable_evts(player, added_cards(new_play, old_play)) + not_playable_evts(
        player,
        added_cards(old_play, new_play),
    )
}

impl SchnapsenDuo {
    /// The derived sets of player `i` once they are made the active
    /// player, with the rest of the state unchanged.
    pub open spec fn sets_when_active(self, i: int) -> (Seq<Announcement>, Option<Card>, Seq<
        Card,
    >) {
        (
            ann_core(true, self.p(i).cards@, self.trump_suit(), self.p(i).announcements@),
            swap_core(
                self.stack@.len() == 0 && self.closed_talon is None,
                self.trump,
                self.p(i).cards@,
            ),
            playable_core(
                self.p(i).cards@,
                self.stack@,
                self.taken_trump is Some,
                self.closed_talon is Some,
                self.trump_suit(),
            ),
        )
    }

    /// The events of handing the turn to `player`: the active-player
    /// change, then the refresh deltas of the new active player.
    pub open spec fn swap_to_evts(self, player: usize, ev: Seq<EngineEvent>) -> Seq<EngineEvent> {
        let sets = self.sets_when_active(player as int);
        (if self.active == Some(player) {
            ev
        } else {
            ev + seq![
                EngineEvent::Public(
                    PublicEvent::Inactive { user_id: self.p(self.active.unwrap() as int).id },
                ),
                EngineEvent::Public(PublicEvent::Active { user_id: self.p(player as int).id }),
            ]
        }) + refresh_evts(
            player,
            self.p(player as int).announcable@,
            sets.0,
            self.p(player as int).possible_trump_swap,
            sets.1,
            self.p(player as int).playable_cards@,
            sets.2,
        )
    }

    /// Hands the turn to `player`: announces the change of the active
    /// player if there is one, and refreshes the new active player's
    /// derived sets with their delta events.
    #[verifier::rlimit(100)]
    #[verifier::spinoff_prover]
    fn swap_to(&mut self, player: usize)
        requires
            old(self).wf(),
            player < 2,
            old(self).active is Some,
        ensures
            final(self).wf(),
            ({
                let sets = old(self).sets_when_active(player as int);
                &&& final(self).active == Some(player)
                &&& final(self).events@ == old(self).swap_to_evts(player, old(self).events@)
                &&& final(self).p(player as int).announcable@ == sets.0
                &&& final(self).p(player as int).possible_trump_swap == sets.1
                &&& final(self).p(player as int).playable_cards@ == sets.2
                &&& final(self).p(player as int).id == old(self).p(player as int).id
                &&& final(self).p(player as int).cards == old(self).p(player as int).cards
                &&& final(self).p(player as int).tricks == old(self).p(player as int).tricks
                &&& final(self).p(player as int).announcements == old(self).p(
                    player as int,
                ).announcements
                &&& final(self).p(player as int).points == old(self).p(player as int).points
                &&& final(self).p(1 - player as int) == old(self).p(1 - player as int)
                &&& final(self).players@.len() == 2
                &&& final(self).deck == old(self).deck
                &&& final(self).trump == old(self).trump
                &&& final(self).taken_trump == old(self).taken_trump
                &&& final(self).closed_talon == old(self).closed_talon
                &&& final(self).stack == old(self).stack
            }),
    {
        if !self.is_active(player) {
            let prev = match self.active {
                Some(i) => i,
                None => 0,
            };
            let prev_id = self.players[prev].id.clone();
            self.events.push(EngineEvent::Public(PublicEvent::Inactive { user_id: prev_id }));
            self.make_active(player);
            proof {
                assert(self.events@ =~= old(self).events@ + seq![
                    EngineEvent::Public(
                        PublicEvent::Inactive {
                            user_id: old(self).p(old(self).active.unwrap() as int).id,
                        },
                    ),
                    EngineEvent::Public(
                        PublicEvent::Active { user_id: old(self).p(player as int).id },
                    ),
                ]);
            }
        }
        self.update_announcable_props(player);
        self.update_swap_trump(player);
        self.update_playable_cards(player);
    }

    /// The events of finishing a round from this state: the two score
    /// publications, the round result with the new cumulative score
    /// sheet, and the final result when the match is decided.
    pub open spec fn round_end_events(self, last_trick: int, ev: Seq<EngineEvent>) -> Seq<
        EngineEvent,
    > {
        let w0 = self.score_leader();
        let rw = self.round_winner(last_trick);
        let rl = 1 - rw;
        let bp = self.round_bummerl(last_trick);
        let wcum = (self.p(rw).points + bp) as u8;
        let lcum = self.p(rl).points;
        let base = ev.push(
            EngineEvent::Public(
                PublicEvent::Score {
                    user_id: self.p(w0).id,
                    points: self.spec_score(w0) as u8,
                },
            ),
        ).push(
            EngineEvent::Public(
                PublicEvent::Score {
                    user_id: self.p(1 - w0).id,
                    points: self.spec_score(1 - w0) as u8,
                },
            ),
        ).push(
            EngineEvent::Public(
                PublicEvent::Result {
                    winner: self.p(rw).id,
                    points: bp as u8,
                    ranked: [(self.p(rw).id, wcum), (self.p(rl).id, lcum)],
                },
            ),
        );
        if wcum >= 7 || lcum >= 7 {
            base.push(
                EngineEvent::Public(
                    PublicEvent::FinalResult {
                        ranked: [(self.p(rw).id, wcum), (self.p(rl).id, lcum)],
                        winner: self.p(rw).id,
                    },
                ),
            )
        } else {
            base
        }
    }

    /// Publishes both scores and, when the round is over, settles it:
    /// the round winner under the closed-talon or last-trick rule
    /// earns the bummerl points, the result is published, the
    /// per-round state is cleared with a fresh talon, and a decided
    /// match is announced with its final result. Returns whether the
    /// round ended.
    fn update_finish_round(&mut self, last_trick: usize) -> (ended: bool)
        requires
            old(self).wf(),
            last_trick < 2,
            old(self).active is Some,
        ensures
            final(self).wf(),
            ended == old(self).round_over(),
            !ended ==> ({
                &&& final(self).events@ == old(self).events@.push(
                    EngineEvent::Public(
                        PublicEvent::Score {
                            user_id: old(self).p(old(self).score_leader()).id,
                            points: old(self).spec_score(old(self).score_leader()) as u8,
                        },
                    ),
                ).push(
                    EngineEvent::Public(
                        PublicEvent::Score {
                            user_id: old(self).p(1 - old(self).score_leader()).id,
                            points: old(self).spec_score(1 - old(self).score_leader()) as u8,
                        },
                    ),
                )
                &&& final(self).players == old(self).players
                &&& final(self).deck == old(self).deck
                &&& final(self).active == old(self).active
                &&& final(self).trump == old(self).trump
                &&& final(self).taken_trump == old(self).taken_trump
                &&& final(self).closed_talon == old(self).closed_talon
                &&& final(self).stack == old(self).stack
            }),
            ended ==> ({
                let rw = old(self).round_winner(last_trick as int);
                let rl = 1 - rw;
                &&& final(self).p(rw).points == old(self).p(rw).points + old(self).round_bummerl(
                    last_trick as int,
                )
                &&& final(self).p(rl).points == old(self).p(rl).points
                &&& final(self).fresh_round_player(0)
                &&& final(self).fresh_round_player(1)
                &&& final(self).p(0).id == old(self).p(0).id
                &&& final(self).p(1).id == old(self).p(1).id
                &&& final(self).active is None
                &&& final(self).trump is None
                &&& final(self).taken_trump is None
                &&& final(self).closed_talon is None
                &&& final(self).stack@.len() == 0
                &&& final(self).deck@.len() == 20
                &&& final(self).deck@.to_multiset() == full_deck().to_multiset()
                &&& no_repeats(final(self).deck@)
                &&& final(self).events@ == old(self).round_end_events(
                    last_trick as int,
                    old(self).events@,
                )
            }),
    {
        proof {
            lemma_score_bound(*old(self), 0);
            lemma_score_bound(*old(self), 1);
        }
        let cmp = self.update_points();
        let mut w = cmp.winner.player;
        let mut l = cmp.loser.player;
        let sw = cmp.winner.points;
        let sl = cmp.loser.points;
        let class_score: u8;
        if sw < 66 {
            if self.players[0].cards.len() > 0 && self.players[1].cards.len() > 0 {
                return false;
            }
            match self.closed_talon {
                Some(closer) => {
                    if closer != w {
                        let t = w;
                        w = l;
                        l = t;
                    }
                },
                None => {
                    if last_trick != w {
                        let t = w;
                        w = l;
                        l = t;
                    }
                },
            }
            class_score = 0;
        } else {
            class_score = sl;
        }
        let points: u8 = if class_score == 0 {
            3
        } else if class_score >= 33 {
            2
        } else {
            1
        };
        self.players[w].points = self.players[w].points + points;
        let wcum = self.players[w].points;
        let lcum = self.players[l].points;
        let result_event = PublicEvent::Result {
            winner: self.players[w].id.clone(),
            points,
            ranked: [
                (self.players[w].id.clone(), wcum),
                (self.players[l].id.clone(), lcum),
            ],
        };
        self.events.push(EngineEvent::Public(result_event));
        let final_needed = wcum >= 7 || lcum >= 7;
        let final_event = if final_needed {
            Some(
                PublicEvent::FinalResult {
                    ranked: [
                        (self.players[w].id.clone(), wcum),
                        (self.players[l].id.clone(), lcum),
                    ],
                    winner: self.players[w].id.clone(),
                },
            )
        } else {
            None
        };
        self.players[0].reset();
        self.players[1].reset();
        self.active = None;
        self.trump = None;
        self.taken_trump = None;
        self.closed_talon = None;
        self.stack.clear();
        self.deck = Self::populate_deck();
        match final_event {
            Some(e) => {
                self.events.push(EngineEvent::Public(e));
            },
            None => {},
        }
        true
    }
}

/// The index of the first occurrence of `c` in `s`.
pub open spec fn first_index(s: Seq<Card>, c: Card) -> int
    decreases s.len(),
{
    if s.len() == 0 {
        0
    } else if s[0] == c {
        0
    } else {
        1 + first_index(s.drop_first(), c)
    }
}

/// `s` with the first occurrence of `c` removed; `s` itself when `c`
/// is not there.
pub open spec fn remove_first(s: Seq<Card>, c: Card) -> Seq<Card> {
    if s.contains(c) {
        s.remove(first_index(s, c))
    } else {
        s
    }
}

/// The leading player by round score; the second player on ties.
pub open spec fn leader_of(s0: int, s1: int) -> int {
    if s1 >= s0 {
        1
    } else {
        0
    }
}

/// The round winner after the closed-talon and last-trick rules.
pub open spec fn round_winner_core(
    s0: int,
    s1: int,
    closed: Option<usize>,
    last_trick: int,
) -> int {
    let w = leader_of(s0, s1);
    let sw = if w == 1 {
        s1
    } else {
        s0
    };
    if sw >= 66 {
        w
    } else {
        match closed {
            Some(closer) => if closer == w {
                w
            } else {
                1 - w
            },
            None => if last_trick != w {
                1 - w
            } else {
                w
            },
        }
    }
}

/// The bummerl points of a finished round: rated by the loser's own
/// score on a sixty-six win, always three on exhaustion.
pub open spec fn round_bummerl_core(s0: int, s1: int) -> int {
    let w = leader_of(s0, s1);
    let sw = if w == 1 {
        s1
    } else {
        s0
    };
    let sl = if w == 1 {
        s0
    } else {
        s1
    };
    if sw >= 66 {
        bummerl_points(sl)
    } else {
        bummerl_points(0)
    }
}

/// The events of finishing a round, over plain values: two score
/// publications in leader order, the result with the updated score
/// sheet, and the final result when the match is decided.
pub open spec fn round_end_evts_core(
    s0: int,
    s1: int,
    pts0: u8,
    pts1: u8,
    id0: String,
    id1: String,
    closed: Option<usize>,
    last_trick: int,
    ev: Seq<EngineEvent>,
) -> Seq<EngineEvent> {
    let w0 = leader_of(s0, s1);
    let rw = round_winner_core(s0, s1, closed, last_trick);
    let bp = round_bummerl_core(s0, s1);
    let sw = if w0 == 1 {
        s1
    } else {
        s0
    };
    let sl = if w0 == 1 {
        s0
    } else {
        s1
    };
    let idw0 = if w0 == 1 {
        id1
    } else {
        id0
    };
    let idl0 = if w0 == 1 {
        id0
    } else {
        id1
    };
    let idrw = if rw == 1 {
        id1
    } else {
        id0
    };
    let idrl = if rw == 1 {
        id0
    } else {
        id1
    };
    let wcum = ((if rw == 1 {
        pts1
    } else {
        pts0
    }) + bp) as u8;
    let lcum = if rw == 1 {
        pts0
    } else {
        pts1
    };
    let base = ev.push(
        EngineEvent::Public(PublicEvent::Score { user_id: idw0, points: sw as u8 }),
    ).push(EngineEvent::Public(PublicEvent::Score { user_id: idl0, points: sl as u8 })).push(
        EngineEvent::Public(
            PublicEvent::Result {
                winner: idrw,
                points: bp as u8,
                ranked: [(idrw, wcum), (idrl, lcum)],
            },
        ),
    );
    if wcum >= 7 || lcum >= 7 {
        base.push(
            EngineEvent::Public(
                PublicEvent::FinalResult { ranked: [(idrw, wcum), (idrl, lcum)], winner: idrw },
            ),
        )
    } else {
        base
    }
}

/// The three events of putting a card on the stack.
pub open spec fn play_prefix_evts(player: usize, id: String, c: Card) -> Seq<EngineEvent> {
    seq![
        EngineEvent::Private(player, PrivateEvent::CardUnavailable(c)),
        EngineEvent::Private(player, PrivateEvent::CardNotPlayable(c)),
        EngineEvent::Public(PublicEvent::PlayCard { user_id: id, card: c }),
    ]
}

/// The index of the trick winner: the responder when their card takes
/// the trick, else the lead player. Without any trump suit out, only
/// a higher card of the lead suit takes the trick.
pub open spec fn spec_trick_winner(
    lead: Card,
    resp: Card,
    ts: Option<CardSuit>,
    responder: int,
) -> int {
    match ts {
        Some(t) => if wins_trick(lead, resp, t) {
            responder
        } else {
            1 - responder
        },
        None => if lead.suit == resp.suit && val_points(resp.value) > val_points(lead.value) {
            responder
        } else {
            1 - responder
        },
    }
}

/// How a successful announcement relates the states before and after
/// it: the announcement recorded and published, the next play
/// restricted to its pair, and the round settled at once when the
/// marriage pushes the leader past sixty-five.
pub open spec fn announce_post(
    pre: SchnapsenDuo,
    post: SchnapsenDuo,
    player: usize,
    ann: Announcement,
) -> bool {
    &&& post.events@ == pre.announce_events(player, ann, pre.events@)
    &&& if pre.round_over_after_announce(player as int, ann) {
        round_end_state(
            pre,
            post,
            pre.ann_round_winner(player as int, ann),
            pre.ann_round_bummerl(player as int, ann),
        )
    } else {
        &&& post.p(player as int).announcements@ == pre.p(player as int).announcements@.push(
            ann,
        )
        &&& post.p(player as int).playable_cards@ == seq![ann.cards[0], ann.cards[1]]
        &&& post.p(player as int).cards == pre.p(player as int).cards
        &&& post.p(player as int).tricks == pre.p(player as int).tricks
        &&& post.p(player as int).id == pre.p(player as int).id
        &&& post.p(player as int).announcable == pre.p(player as int).announcable
        &&& post.p(player as int).possible_trump_swap == pre.p(player as int).possible_trump_swap
        &&& post.p(1 - player as int) == pre.p(1 - player as int)
        &&& post.p(0).points == pre.p(0).points
        &&& post.p(1).points == pre.p(1).points
        &&& post.active == pre.active
        &&& post.deck == pre.deck
        &&& post.trump == pre.trump
        &&& post.taken_trump == pre.taken_trump
        &&& post.closed_talon == pre.closed_talon
        &&& post.stack == pre.stack
    }
}

/// A king/queen pair of one suit, in either order.
pub open spec fn valid_twenty_pair(cards: [Card; 2]) -> bool {
    &&& cards[0].suit == cards[1].suit
    &&& ((cards[0].value == CardVal::King && cards[1].value == CardVal::Queen) || (
    cards[0].value == CardVal::Queen && cards[1].value == CardVal::King))
}

/// Whether a state before and after a finished round are related by
/// the settlement: the winner's bummerl points added, both players'
/// per-round state cleared, and a fresh full talon laid out.
pub open spec fn round_end_state(pre: SchnapsenDuo, post: SchnapsenDuo, rw: int, bp: int) -> bool {
    &&& post.p(rw).points == pre.p(rw).points + bp
    &&& post.p(1 - rw).points == pre.p(1 - rw).points
    &&& post.fresh_round_player(0)
    &&& post.fresh_round_player(1)
    &&& post.p(0).id == pre.p(0).id
    &&& post.p(1).id == pre.p(1).id
    &&& post.active is None
    &&& post.trump is None
    &&& post.taken_trump is None
    &&& post.closed_talon is None
    &&& post.stack@.len() == 0
    &&& post.deck@.len() == 20
    &&& post.deck@.to_multiset() == full_deck().to_multiset()
    &&& no_repeats(post.deck@)
}

/// Finds the first occurrence of a card.
fn find_card(v: &Vec<Card>, c: Card) -> (r: Option<usize>)
    ensures
        match r {
            Some(i) => v@.contains(c) && i == first_index(v@, c) && i < v@.len() && v@[i as int]
                == c,
            None => !v@.contains(c),
        },
{
    let mut i: usize = 0;
    while i < v.len()
        invariant
            i <= v@.len(),
            forall|j: int| 0 <= j < i ==> v@[j] != c,
        decreases v@.len() - i,
    {
        if v[i] == c {
            proof {
                lemma_first_index_found(v@, c, i as int);
            }
            return Some(i);
        }
        i += 1;
    }
    None
}

/// When everything before `i` differs from `c` and `s[i]` is `c`, the
/// first occurrence is at `i`.
proof fn lemma_first_index_found(s: Seq<Card>, c: Card, i: int)
    requires
        0 <= i < s.len(),
        s[i] == c,
        forall|j: int| 0 <= j < i ==> s[j] != c,
    ensures
        first_index(s, c) == i,
        s.contains(c),
    decreases i,
{
    if i > 0 {
        lemma_first_index_found(s.drop_first(), c, i - 1);
    }
}

impl SchnapsenDuo {
    /// The round score of player `i` once the trick `(lead, c)` went
    /// to player `w`.
    pub open spec fn after_trick_score(self, i: int, w: int, c: Card, lead: Card) -> int {
        if i == w {
            pair_sum(self.p(i).tricks@) + val_points(c.value) + val_points(lead.value) + ann_sum(
                self.p(i).announcements@,
            )
        } else {
            self.spec_score(i)
        }
    }

    /// The hand of player `i` after the responder `p` played `c`.
    pub open spec fn hand_after_play(self, i: int, p: int, c: Card) -> Seq<Card> {
        if i == p {
            remove_first(self.p(i).cards@, c)
        } else {
            self.p(i).cards@
        }
    }

    /// Whether the round is over once the responder `p` played `c`
    /// and the trick went to `w`.
    pub open spec fn round_over_after_trick(self, p: int, c: Card, w: int) -> bool {
        let lead = self.stack@[0];
        let s0 = self.after_trick_score(0, w, c, lead);
        let s1 = self.after_trick_score(1, w, c, lead);
        let sw = if leader_of(s0, s1) == 1 {
            s1
        } else {
            s0
        };
        sw >= 66 || self.hand_after_play(0, p, c).len() == 0 || self.hand_after_play(
            1,
            p,
            c,
        ).len() == 0
    }

    /// The whole event stream produced by a successful `play_card`,
    /// appended to the stream `ev` held before it: the card leaves the
    /// hand and hits the stack; a lead passes the turn, while a
    /// response resolves the trick, publishes the scores, and either
    /// continues the round or settles it.
    #[verifier::opaque]
    pub open spec fn play_card_events(self, p: usize, c: Card, ev: Seq<EngineEvent>) -> Seq<
        EngineEvent,
    > {
        let other = (1 - p) as usize;
        let ts = self.trump_suit();
        let pre = ev + play_prefix_evts(p, self.p(p as int).id, c);
        if self.stack@.len() == 0 {
            let hand_o = self.p(other as int).cards@;
            let new_ann = ann_core(true, hand_o, ts, self.p(other as int).announcements@);
            let new_swap = swap_core(
                self.stack@.push(c).len() == 0 && self.closed_talon is None,
                self.trump,
                hand_o,
            );
            let new_play = playable_core(
                hand_o,
                self.stack@.push(c),
                self.taken_trump is Some,
                self.closed_talon is Some,
                ts,
            );
            pre + seq![
                EngineEvent::Public(PublicEvent::Inactive { user_id: self.p(p as int).id }),
                EngineEvent::Public(PublicEvent::Active { user_id: self.p(other as int).id }),
            ] + refresh_evts(
                other,
                self.p(other as int).announcable@,
                new_ann,
                self.p(other as int).possible_trump_swap,
                new_swap,
                self.p(other as int).playable_cards@,
                new_play,
            ) + seq![EngineEvent::Private(other, PrivateEvent::AllowPlayCard)]
        } else {
            let lead = self.stack@[0];
            let w = spec_trick_winner(lead, c, ts, p as int);
            let wu = w as usize;
            let trick_ev = pre + seq![
                EngineEvent::Public(
                    PublicEvent::Trick { user_id: self.p(w).id, cards: [lead, c] },
                ),
            ];
            let s0 = self.after_trick_score(0, w, c, lead);
            let s1 = self.after_trick_score(1, w, c, lead);
            if self.round_over_after_trick(p as int, c, w) {
                round_end_evts_core(
                    s0,
                    s1,
                    self.p(0).points,
                    self.p(1).points,
                    self.p(0).id,
                    self.p(1).id,
                    self.closed_talon,
                    w,
                    trick_ev,
                )
            } else {
                let w0 = leader_of(s0, s1);
                let sw = if w0 == 1 {
                    s1
                } else {
                    s0
                };
                let sl = if w0 == 1 {
                    s0
                } else {
                    s1
                };
                let scored = trick_ev.push(
                    EngineEvent::Public(
                        PublicEvent::Score { user_id: self.p(w0).id, points: sw as u8 },
                    ),
                ).push(
                    EngineEvent::Public(
                        PublicEvent::Score { user_id: self.p(1 - w0).id, points: sl as u8 },
                    ),
                );
                let hand_w = self.hand_after_play(w, p as int, c);
                let new_ann = ann_core(true, hand_w, ts, self.p(w).announcements@);
                let new_swap = swap_core(self.closed_talon is None, self.trump, hand_w);
                let new_play = playable_core(
                    hand_w,
                    Seq::empty(),
                    self.taken_trump is Some,
                    self.closed_talon is Some,
                    ts,
                );
                let old_play_w = if w == p as int {
                    remove_first(self.p(w).playable_cards@, c)
                } else {
                    self.p(w).playable_cards@
                };
                let moved = if w == p as int {
                    scored
                } else {
                    scored + seq![
                        EngineEvent::Public(
                            PublicEvent::Inactive { user_id: self.p(p as int).id },
                        ),
                        EngineEvent::Public(PublicEvent::Active { user_id: self.p(w).id }),
                    ]
                };
                let refreshed = moved + refresh_evts(
                    wu,
                    self.p(w).announcable@,
                    new_ann,
                    self.p(w).possible_trump_swap,
                    new_swap,
                    old_play_w,
                    new_play,
                );
                if (self.deck@.len() > 0 || self.trump is Some) && self.closed_talon is None {
                    refreshed + seq![EngineEvent::Private(wu, PrivateEvent::AllowDrawCard)]
                } else {
                    (if new_ann.len() > 0 {
                        refreshed + seq![EngineEvent::Private(wu, PrivateEvent::AllowAnnounce)]
                    } else {
                        refreshed
                    }) + seq![EngineEvent::Private(wu, PrivateEvent::AllowPlayCard)]
                }
            }
        }
    }

    /// Hands the turn to the trick winner and allows their next step:
    /// a draw while talon cards are available, else an announcement
    /// (when one is possible) and a card play.
    fn continue_after_trick(&mut self, winner: usize)
        requires
            old(self).wf(),
            winner < 2,
            old(self).active is Some,
        ensures
            final(self).wf(),
            ({
                let sets = old(self).sets_when_active(winner as int);
                let refreshed = old(self).swap_to_evts(winner, old(self).events@);
                &&& final(self).events@ == if (old(self).deck@.len() > 0 || old(
                    self,
                ).trump is Some) && old(self).closed_talon is None {
                    refreshed + seq![EngineEvent::Private(winner, PrivateEvent::AllowDrawCard)]
                } else {
                    (if sets.0.len() > 0 {
                        refreshed + seq![
                            EngineEvent::Private(winner, PrivateEvent::AllowAnnounce),
                        ]
                    } else {
                        refreshed
                    }) + seq![EngineEvent::Private(winner, PrivateEvent::AllowPlayCard)]
                }
                &&& final(self).active == Some(winner)
                &&& final(self).p(winner as int).announcable@ == sets.0
                &&& final(self).p(winner as int).possible_trump_swap == sets.1
                &&& final(self).p(winner as int).playable_cards@ == sets.2
                &&& final(self).p(winner as int).id == old(self).p(winner as int).id
                &&& final(self).p(winner as int).cards == old(self).p(winner as int).cards
                &&& final(self).p(winner as int).tricks == old(self).p(winner as int).tricks
                &&& final(self).p(winner as int).announcements == old(self).p(
                    winner as int,
                ).announcements
                &&& final(self).p(winner as int).points == old(self).p(winner as int).points
                &&& final(self).p(1 - winner as int) == old(self).p(1 - winner as int)
                &&& final(self).players@.len() == 2
                &&& final(self).deck == old(self).deck
                &&& final(self).trump == old(self).trump
                &&& final(self).taken_trump == old(self).taken_trump
                &&& final(self).closed_talon == old(self).closed_talon
                &&& final(self).stack == old(self).stack
            }),
    {
        self.swap_to(winner);
        let can_draw = (self.deck.len() > 0 || self.trump.is_some())
            && self.closed_talon.is_none();
        if can_draw {
            self.events.push(EngineEvent::Private(winner, PrivateEvent::AllowDrawCard));
        } else {
            if self.players[winner].announcable.len() > 0 {
                self.events.push(EngineEvent::Private(winner, PrivateEvent::AllowAnnounce));
            }
            self.events.push(EngineEvent::Private(winner, PrivateEvent::AllowPlayCard));
        }
    }

    /// Settles the state after a trick went to `winner`: publishes the
    /// scores and either ends the round or hands the turn to the
    /// winner with their next allowances. Returns whether the round
    /// ended.
    #[verifier::rlimit(100)]
    #[verifier::spinoff_prover]
    fn settle_trick(&mut self, winner: usize) -> (ended: bool)
        requires
            old(self).wf(),
            winner < 2,
            old(self).active is Some,
        ensures
            final(self).wf(),
            ended == old(self).round_over(),
            ended ==> ({
                &&& round_end_state(
                    *old(self),
                    *final(self),
                    old(self).round_winner(winner as int),
                    old(self).round_bummerl(winner as int),
                )
                &&& final(self).events@ == old(self).round_end_events(
                    winner as int,
                    old(self).events@,
                )
            }),
            !ended ==> ({
                let scored = old(self).events@.push(
                    EngineEvent::Public(
                        PublicEvent::Score {
                            user_id: old(self).p(old(self).score_leader()).id,
                            points: old(self).spec_score(old(self).score_leader()) as u8,
                        },
                    ),
                ).push(
                    EngineEvent::Public(
                        PublicEvent::Score {
                            user_id: old(self).p(1 - old(self).score_leader()).id,
                            points: old(self).spec_score(1 - old(self).score_leader()) as u8,
                        },
                    ),
                );
                let sets = old(self).sets_when_active(winner as int);
                let refreshed = old(self).swap_to_evts(winner, scored);
                &&& final(self).events@ == if (old(self).deck@.len() > 0 || old(
                    self,
                ).trump is Some) && old(self).closed_talon is None {
                    refreshed + seq![EngineEvent::Private(winner, PrivateEvent::AllowDrawCard)]
                } else {
                    (if sets.0.len() > 0 {
                        refreshed + seq![
                            EngineEvent::Private(winner, PrivateEvent::AllowAnnounce),
                        ]
                    } else {
                        refreshed
                    }) + seq![EngineEvent::Private(winner, PrivateEvent::AllowPlayCard)]
                }
                &&& final(self).active == Some(winner)
                &&& final(self).p(winner as int).announcable@ == sets.0
                &&& final(self).p(winner as int).possible_trump_swap == sets.1
                &&& final(self).p(winner as int).playable_cards@ == sets.2
                &&& final(self).p(winner as int).id == old(self).p(winner as int).id
                &&& final(self).p(winner as int).cards == old(self).p(winner as int).cards
                &&& final(self).p(winner as int).tricks == old(self).p(winner as int).tricks
                &&& final(self).p(winner as int).announcements == old(self).p(
                    winner as int,
                ).announcements
                &&& final(self).p(winner as int).points == old(self).p(winner as int).points
                &&& final(self).p(1 - winner as int) == old(self).p(1 - winner as int)
                &&& final(self).players@.len() == 2
                &&& final(self).deck == old(self).deck
                &&& final(self).trump == old(self).trump
                &&& final(self).taken_trump == old(self).taken_trump
                &&& final(self).closed_talon == old(self).closed_talon
                &&& final(self).stack == old(self).stack
            }),
    {
        let ended = self.update_finish_round(winner);
        if !ended {
            self.continue_after_trick(winner);
        }
        ended
    }

    /// Plays a card. Allowed only for the active player with a card
    /// from their current playable set; anything else is refused with
    /// the match unchanged. A lead stays on the stack and passes the
    /// turn; a response resolves the trick and continues or settles
    /// the round.
    pub fn play_card(&mut self, player: usize, card: Card) -> (r: Result<(), PlayerError>)
        requires
            old(self).wf(),
            player < 2,
        ensures
            final(self).wf(),
            match r {
                Err(e) => {
                    &&& *final(self) == *old(self)
                    &&& if old(self).active != Some(player) {
                        e == PlayerError::PlayerNotActive
                    } else {
                        e == PlayerError::CantPlayCard(card) && !(old(self).p(
                            player as int,
                        ).playable_cards@.contains(card) && old(self).p(
                            player as int,
                        ).cards@.contains(card))
                    }
                },
                Ok(()) => {
                    &&& old(self).active == Some(player)
                    &&& old(self).p(player as int).playable_cards@.contains(card)
                    &&& old(self).p(player as int).cards@.contains(card)
                    &&& if old(self).stack@.len() == 0 {
                        play_lead_post(*old(self), *final(self), player, card)
                    } else {
                        play_resp_post(*old(self), *final(self), player, card)
                    }
                },
            },
    {
        if !self.is_active(player) {
            return Err(PlayerError::PlayerNotActive);
        }
        if !vec_contains_card(&self.players[player].playable_cards, card) {
            return Err(PlayerError::CantPlayCard(card));
        }
        if !vec_contains_card(&self.players[player].cards, card) {
            return Err(PlayerError::CantPlayCard(card));
        }
        if self.stack.len() == 0 {
            self.play_lead(player, card);
        } else {
            self.play_response(player, card);
        }
        Ok(())
    }

    /// Stages the played card: it leaves the hand and the playable
    /// set and goes onto the stack, with its three events.
    fn stage_card(&mut self, player: usize, card: Card)
        requires
            old(self).wf(),
            player < 2,
            old(self).active == Some(player),
            old(self).p(player as int).playable_cards@.contains(card),
            old(self).p(player as int).cards@.contains(card),
            old(self).stack@.len() <= 1,
        ensures
            final(self).events@ == old(self).events@ + play_prefix_evts(
                player,
                old(self).p(player as int).id,
                card,
            ),
            final(self).p(player as int).cards@ == remove_first(
                old(self).p(player as int).cards@,
                card,
            ),
            final(self).p(player as int).playable_cards@ == remove_first(
                old(self).p(player as int).playable_cards@,
                card,
            ),
            final(self).p(player as int).id == old(self).p(player as int).id,
            final(self).p(player as int).tricks == old(self).p(player as int).tricks,
            final(self).p(player as int).announcements == old(self).p(player as int).announcements,
            final(self).p(player as int).announcable == old(self).p(player as int).announcable,
            final(self).p(player as int).possible_trump_swap == old(self).p(
                player as int,
            ).possible_trump_swap,
            final(self).p(player as int).points == old(self).p(player as int).points,
            final(self).p(1 - player as int) == old(self).p(1 - player as int),
            final(self).players@.len() == 2,
            final(self).stack@ == old(self).stack@.push(card),
            final(self).deck == old(self).deck,
            final(self).active == old(self).active,
            final(self).trump == old(self).trump,
            final(self).taken_trump == old(self).taken_trump,
            final(self).closed_talon == old(self).closed_talon,
            final(self).placed_points() == old(self).placed_points(),
            final(self).placed_count() == old(self).placed_count(),
            final(self).announcements_wf(0) == old(self).announcements_wf(0),
            final(self).announcements_wf(1) == old(self).announcements_wf(1),
    {
        match find_card(&self.players[player].cards, card) {
            Some(i) => {
                self.players[player].cards.remove(i);
            },
            None => {},
        }
        match find_card(&self.players[player].playable_cards, card) {
            Some(i) => {
                self.players[player].playable_cards.remove(i);
            },
            None => {},
        }
        proof {
            lemma_card_sum_remove(
                old(self).p(player as int).cards@,
                first_index(old(self).p(player as int).cards@, card),
            );
        }
        self.stack.push(card);
        self.events.push(EngineEvent::Private(player, PrivateEvent::CardUnavailable(card)));
        self.events.push(EngineEvent::Private(player, PrivateEvent::CardNotPlayable(card)));
        let own_id = self.players[player].id.clone();
        self.events.push(
            EngineEvent::Public(PublicEvent::PlayCard { user_id: own_id, card }),
        );
        proof {
            lemma_card_sum_push(old(self).stack@, card);
            assert(self.events@ =~= old(self).events@ + play_prefix_evts(
                player,
                old(self).p(player as int).id,
                card,
            ));
            assert(card_sum(self.p(player as int).cards@) == card_sum(
                old(self).p(player as int).cards@,
            ) - val_points(card.value));
        }
    }

    /// Takes the completed trick off the stack: announces it and
    /// moves both cards into the winner's tricks, response first.
    fn collect_trick(&mut self, winner: usize, card: Card)
        requires
            old(self).players@.len() == 2,
            winner < 2,
            old(self).stack@.len() == 2,
            old(self).stack@[1] == card,
        ensures
            ({
                let lead = old(self).stack@[0];
                &&& final(self).events@ == old(self).events@.push(
                    EngineEvent::Public(
                        PublicEvent::Trick {
                            user_id: old(self).p(winner as int).id,
                            cards: [lead, card],
                        },
                    ),
                )
                &&& final(self).stack@ == Seq::<Card>::empty()
                &&& final(self).p(winner as int).tricks@ == old(self).p(
                    winner as int,
                ).tricks@.push([card, lead])
                &&& final(self).p(winner as int).id == old(self).p(winner as int).id
                &&& final(self).p(winner as int).cards == old(self).p(winner as int).cards
                &&& final(self).p(winner as int).playable_cards == old(self).p(
                    winner as int,
                ).playable_cards
                &&& final(self).p(winner as int).announcements == old(self).p(
                    winner as int,
                ).announcements
                &&& final(self).p(winner as int).announcable == old(self).p(
                    winner as int,
                ).announcable
                &&& final(self).p(winner as int).possible_trump_swap == old(self).p(
                    winner as int,
                ).possible_trump_swap
                &&& final(self).p(winner as int).points == old(self).p(winner as int).points
                &&& final(self).p(1 - winner as int) == old(self).p(1 - winner as int)
                &&& final(self).players@.len() == 2
                &&& final(self).deck == old(self).deck
                &&& final(self).active == old(self).active
                &&& final(self).trump == old(self).trump
                &&& final(self).taken_trump == old(self).taken_trump
                &&& final(self).closed_talon == old(self).closed_talon
            }),
    {
        let lead = self.stack[0];
        let win_id = self.players[winner].id.clone();
        self.events.push(
            EngineEvent::Public(PublicEvent::Trick { user_id: win_id, cards: [lead, card] }),
        );
        let c2 = self.stack.pop().unwrap();
        let c1 = self.stack.pop().unwrap();
        proof {
            assert(c2 == card);
            assert(c1 == lead);
            assert(self.stack@ =~= Seq::<Card>::empty());
        }
        self.players[winner].tricks.push([c2, c1]);
        proof {
            assert(self.p(winner as int).tricks@ =~= old(self).p(
                winner as int,
            ).tricks@.push([card, lead]));
        }
    }

    /// Leads the trick with `card`: the card waits on the stack and
    /// the turn passes to the other player.
    #[verifier::rlimit(100)]
    #[verifier::spinoff_prover]
    fn play_lead(&mut self, player: usize, card: Card)
        requires
            old(self).wf(),
            player < 2,
            old(self).active == Some(player),
            old(self).p(player as int).playable_cards@.contains(card),
            old(self).p(player as int).cards@.contains(card),
            old(self).stack@.len() == 0,
        ensures
            final(self).wf(),
            play_lead_post(*old(self), *final(self), player, card),
    {
        self.stage_card(player, card);
        let ghost mid = *self;
        self.swap_to(1 - player);
        proof {
            assert(self.events@ == mid.swap_to_evts((1 - player) as usize, mid.events@));
        }
        let ghost e1 = self.events@;
        self.events.push(
            EngineEvent::Private(1 - player, PrivateEvent::AllowPlayCard),
        );
        proof {
            reveal(SchnapsenDuo::play_card_events);
            assert(self.events@ =~= e1 + seq![
                EngineEvent::Private((1 - player) as usize, PrivateEvent::AllowPlayCard),
            ]);
            assert(self.events@ =~= old(self).play_card_events(
                player,
                card,
                old(self).events@,
            ));
        }
    }

    /// Responds to the lead with `card`: the trick resolves to its
    /// winner and the round continues or is settled.
    #[verifier::rlimit(100)]
    #[verifier::spinoff_prover]
    fn play_response(&mut self, player: usize, card: Card)
        requires
            old(self).wf(),
            player < 2,
            old(self).active == Some(player),
            old(self).p(player as int).playable_cards@.contains(card),
            old(self).p(player as int).cards@.contains(card),
            old(self).stack@.len() == 1,
        ensures
            final(self).wf(),
            play_resp_post(*old(self), *final(self), player, card),
    {
        self.stage_card(player, card);
        let lead = self.stack[0];
        let winner: usize = match self.trump_suit_now() {
            Some(t) => if beats(lead, card, t) {
                player
            } else {
                1 - player
            },
            None => if lead.suit == card.suit && card.points() > lead.points() {
                player
            } else {
                1 - player
            },
        };
        self.collect_trick(winner, card);
        proof {
            lemma_pair_sum_push(old(self).p(winner as int).tricks@, [card, lead]);
            lemma_card_sum_push(old(self).stack@, card);
            assert(old(self).stack@.drop_last() =~= Seq::<Card>::empty());
            assert(old(self).stack@.last() == lead);
        }
        let ghost mid = *self;
        let ghost w = spec_trick_winner(lead, card, old(self).trump_suit(), player as int);
        let ghost s0 = old(self).after_trick_score(0, w, card, lead);
        let ghost s1 = old(self).after_trick_score(1, w, card, lead);
        proof {
            assert(w == winner as int);
            assert(mid.spec_score(0) == s0);
            assert(mid.spec_score(1) == s1);
            assert(mid.score_leader() == leader_of(s0, s1));
            assert(mid.round_over() == old(self).round_over_after_trick(
                player as int,
                card,
                w,
            ));
        }
        let ghost trick_ev = old(self).events@ + play_prefix_evts(
            player,
            old(self).p(player as int).id,
            card,
        ) + seq![
            EngineEvent::Public(
                PublicEvent::Trick { user_id: old(self).p(w).id, cards: [lead, card] },
            ),
        ];
        proof {
            assert(mid.events@ =~= trick_ev);
        }
        let ended = self.settle_trick(winner);
        proof {
            lemma_resp_events(
                *old(self),
                mid,
                self.events@,
                player,
                card,
                winner,
                ended,
            );
        }
    }
}

/// The events of drawing the top talon card: the new talon size, the
/// private card, and the public receipt.
pub open spec fn draw_one_evts(player: usize, id: String, new_len: usize, c: Card) -> Seq<
    EngineEvent,
> {
    seq![
        EngineEvent::Public(PublicEvent::DeckCardCount(new_len)),
        EngineEvent::Private(player, PrivateEvent::CardAvailable(c)),
        EngineEvent::Public(PublicEvent::ReceiveCard { user_id: id }),
    ]
}

/// The events of taking the face-up trump as the last draw.
pub open spec fn take_trump_evts(player: usize, id: String, new_len: usize, c: Card) -> Seq<
    EngineEvent,
> {
    seq![
        EngineEvent::Public(PublicEvent::TrumpChange(None)),
        EngineEvent::Public(PublicEvent::DeckCardCount(new_len)),
        EngineEvent::Private(player, PrivateEvent::CardAvailable(c)),
        EngineEvent::Public(PublicEvent::ReceiveCard { user_id: id }),
    ]
}

impl SchnapsenDuo {
    /// Draws the top talon card into the player's hand, with events.
    fn draw_one(&mut self, player: usize)
        requires
            old(self).wf(),
            player < 2,
            old(self).deck@.len() > 0,
        ensures
            final(self).wf(),
            ({
                let c = old(self).deck@.last();
                &&& final(self).deck@ == old(self).deck@.drop_last()
                &&& final(self).p(player as int).cards@ == old(self).p(player as int).cards@.push(
                    c,
                )
                &&& final(self).events@ == old(self).events@ + draw_one_evts(
                    player,
                    old(self).p(player as int).id,
                    (old(self).deck@.len() - 1) as usize,
                    c,
                )
                &&& final(self).p(player as int).id == old(self).p(player as int).id
                &&& final(self).p(player as int).playable_cards == old(self).p(
                    player as int,
                ).playable_cards
                &&& final(self).p(player as int).tricks == old(self).p(player as int).tricks
                &&& final(self).p(player as int).announcements == old(self).p(
                    player as int,
                ).announcements
                &&& final(self).p(player as int).announcable == old(self).p(
                    player as int,
                ).announcable
                &&& final(self).p(player as int).possible_trump_swap == old(self).p(
                    player as int,
                ).possible_trump_swap
                &&& final(self).p(player as int).points == old(self).p(player as int).points
                &&& final(self).p(1 - player as int) == old(self).p(1 - player as int)
                &&& final(self).players@.len() == 2
                &&& final(self).active == old(self).active
                &&& final(self).trump == old(self).trump
                &&& final(self).taken_trump == old(self).taken_trump
                &&& final(self).closed_talon == old(self).closed_talon
                &&& final(self).stack == old(self).stack
            }),
    {
        let card = self.deck.pop().unwrap();
        let n = self.deck.len();
        self.events.push(EngineEvent::Public(PublicEvent::DeckCardCount(n)));
        self.events.push(EngineEvent::Private(player, PrivateEvent::CardAvailable(card)));
        let user_id = self.players[player].id.clone();
        self.events.push(EngineEvent::Public(PublicEvent::ReceiveCard { user_id }));
        self.players[player].cards.push(card);
        proof {
            lemma_card_sum_push(old(self).p(player as int).cards@, card);
            assert(self.events@ =~= old(self).events@ + draw_one_evts(
                player,
                old(self).p(player as int).id,
                (old(self).deck@.len() - 1) as usize,
                card,
            ));
        }
    }

    /// Takes the face-up trump into the player's hand as the last
    /// card of the talon, with events.
    fn take_trump(&mut self, player: usize)
        requires
            old(self).wf(),
            player < 2,
            old(self).trump is Some,
        ensures
            final(self).wf(),
            ({
                let c = old(self).trump.unwrap();
                &&& final(self).trump is None
                &&& final(self).taken_trump == Some((player, c))
                &&& final(self).p(player as int).cards@ == old(self).p(player as int).cards@.push(
                    c,
                )
                &&& final(self).events@ == old(self).events@ + take_trump_evts(
                    player,
                    old(self).p(player as int).id,
                    old(self).deck@.len() as usize,
                    c,
                )
                &&& final(self).p(player as int).id == old(self).p(player as int).id
                &&& final(self).p(player as int).playable_cards == old(self).p(
                    player as int,
                ).playable_cards
                &&& final(self).p(player as int).tricks == old(self).p(player as int).tricks
                &&& final(self).p(player as int).announcements == old(self).p(
                    player as int,
                ).announcements
                &&& final(self).p(player as int).announcable == old(self).p(
                    player as int,
                ).announcable
                &&& final(self).p(player as int).possible_trump_swap == old(self).p(
                    player as int,
                ).possible_trump_swap
                &&& final(self).p(player as int).points == old(self).p(player as int).points
                &&& final(self).p(1 - player as int) == old(self).p(1 - player as int)
                &&& final(self).players@.len() == 2
                &&& final(self).deck == old(self).deck
                &&& final(self).active == old(self).active
                &&& final(self).closed_talon == old(self).closed_talon
                &&& final(self).stack == old(self).stack
            }),
    {
        let card = match &self.trump {
            Some(c) => *c,
            None => {
                proof {
                    assert(false);
                }
                Card { value: CardVal::Ace, suit: CardSuit::Hearts }
            },
        };
        self.trump = None;
        self.taken_trump = Some((player, card));
        self.events.push(EngineEvent::Public(PublicEvent::TrumpChange(None)));
        let n = self.deck.len();
        self.events.push(EngineEvent::Public(PublicEvent::DeckCardCount(n)));
        self.events.push(EngineEvent::Private(player, PrivateEvent::CardAvailable(card)));
        let user_id = self.players[player].id.clone();
        self.events.push(EngineEvent::Public(PublicEvent::ReceiveCard { user_id }));
        self.players[player].cards.push(card);
        proof {
            lemma_card_sum_push(old(self).p(player as int).cards@, card);
            assert(self.events@ =~= old(self).events@ + take_trump_evts(
                player,
                old(self).p(player as int).id,
                old(self).deck@.len() as usize,
                card,
            ));
        }
    }

    /// The card the active player receives from a draw: the talon's
    /// top card, or the face-up trump once the talon is empty.
    pub open spec fn draw_first_card(self) -> Card {
        if self.deck@.len() > 0 {
            self.deck@.last()
        } else {
            self.trump.unwrap()
        }
    }

    /// The face-up trump left after both draws.
    pub open spec fn draw_trump_after(self, player: usize) -> Option<Card> {
        if self.deck@.len() == 0 {
            None
        } else if self.deck@.len() == 1 && self.p(1 - player as int).cards@.len() < 5
            && self.trump is Some {
            None
        } else {
            self.trump
        }
    }

    /// Whether a taken trump sits in some hand after both draws.
    pub open spec fn draw_taken_after(self, player: usize) -> bool {
        self.taken_trump is Some || (self.trump is Some && self.draw_trump_after(
            player,
        ) is None)
    }

    /// The derived sets of the active player after the draws: their
    /// announcable marriages, trump-jack swap and playable cards over
    /// the grown hand.
    pub open spec fn draw_sets(self, player: usize) -> (Seq<Announcement>, Option<Card>, Seq<
        Card,
    >) {
        let hand2 = self.p(player as int).cards@.push(self.draw_first_card());
        (
            ann_core(true, hand2, self.trump_suit(), self.p(player as int).announcements@),
            swap_core(
                self.stack@.len() == 0 && self.closed_talon is None,
                self.draw_trump_after(player),
                hand2,
            ),
            playable_core(
                hand2,
                self.stack@,
                self.draw_taken_after(player),
                self.closed_talon is Some,
                self.trump_suit(),
            ),
        )
    }

    /// The event stream a successful draw appends to `ev`: the active
    /// player's draw, the other player's mirrored draw, the refresh
    /// deltas of the active player's sets, and the allowances. Taking
    /// the face-up trump is always the final draw, and its
    /// `TrumpChange(None)` precedes the closing `AllowPlayCard`.
    pub open spec fn draw_events(self, player: usize, ev: Seq<EngineEvent>) -> Seq<EngineEvent> {
        let other = (1 - player) as usize;
        let d = self.deck@;
        let idp = self.p(player as int).id;
        let ido = self.p(other as int).id;
        let first_part = if d.len() > 0 {
            draw_one_evts(player, idp, (d.len() - 1) as usize, d.last())
        } else {
            take_trump_evts(player, idp, 0, self.trump.unwrap())
        };
        let second_part = if self.p(other as int).cards@.len() < 5 {
            if d.len() >= 2 {
                draw_one_evts(other, ido, (d.len() - 2) as usize, d[d.len() - 2])
            } else if d.len() == 1 && self.trump is Some {
                take_trump_evts(other, ido, 0, self.trump.unwrap())
            } else {
                Seq::empty()
            }
        } else {
            Seq::empty()
        };
        let sets = self.draw_sets(player);
        let refreshed = ev + first_part + second_part + refresh_evts(
            player,
            self.p(player as int).announcable@,
            sets.0,
            self.p(player as int).possible_trump_swap,
            sets.1,
            self.p(player as int).playable_cards@,
            sets.2,
        );
        (if sets.0.len() > 0 {
            refreshed + seq![EngineEvent::Private(player, PrivateEvent::AllowAnnounce)]
        } else {
            refreshed
        }) + seq![
            EngineEvent::Private(player, PrivateEvent::AllowCloseTalon),
            EngineEvent::Private(player, PrivateEvent::AllowPlayCard),
        ]
    }

    /// Performs the two draws of a post-trick replenishment: the
    /// active player first, then the other player, from the talon or
    /// from the face-up trump.
    #[verifier::rlimit(100)]
    #[verifier::spinoff_prover]
    fn draw_both(&mut self, player: usize)
        requires
            old(self).wf(),
            player < 2,
            old(self).active == Some(player),
            old(self).stack@.len() == 0,
            old(self).p(player as int).cards@.len() < 5,
            old(self).closed_talon is None,
            old(self).deck@.len() > 0 || old(self).trump is Some,
        ensures
            final(self).wf(),
            ({
                let d = old(self).deck@;
                let t = old(self).trump;
                let c1 = old(self).draw_first_card();
                let other = 1 - player as int;
                &&& final(self).p(player as int).cards@ == old(self).p(
                    player as int,
                ).cards@.push(c1)
                &&& final(self).trump == old(self).draw_trump_after(player)
                &&& (final(self).taken_trump is Some) == old(self).draw_taken_after(player)
                &&& final(self).trump_suit() == old(self).trump_suit()
                &&& final(self).events@ == old(self).events@ + (if d.len() > 0 {
                    draw_one_evts(
                        player,
                        old(self).p(player as int).id,
                        (d.len() - 1) as usize,
                        d.last(),
                    )
                } else {
                    take_trump_evts(player, old(self).p(player as int).id, 0, t.unwrap())
                }) + (if old(self).p(other).cards@.len() < 5 {
                    if d.len() >= 2 {
                        draw_one_evts(
                            (1 - player) as usize,
                            old(self).p(other).id,
                            (d.len() - 2) as usize,
                            d[d.len() - 2],
                        )
                    } else if d.len() == 1 && t is Some {
                        take_trump_evts((1 - player) as usize, old(self).p(other).id, 0, t.unwrap())
                    } else {
                        Seq::empty()
                    }
                } else {
                    Seq::empty()
                })
                &&& (d.len() == 0 ==> final(self).taken_trump == Some((player, t.unwrap())))
                &&& (d.len() >= 2 && old(self).p(other).cards@.len() < 5 ==> final(self).deck@
                    == d.take(d.len() - 2) && final(self).p(other).cards@ == old(self).p(
                    other,
                ).cards@.push(d[d.len() - 2]))
                &&& (d.len() >= 2 && old(self).p(other).cards@.len() >= 5 ==> final(self).deck@
                    == d.take(d.len() - 1) && final(self).p(other).cards == old(self).p(
                    other,
                ).cards)
                &&& (d.len() == 1 && t is Some && old(self).p(other).cards@.len() < 5
                    ==> final(self).deck@.len() == 0 && final(self).taken_trump == Some(
                    ((1 - player) as usize, t.unwrap()),
                ) && final(self).p(other).cards@ == old(self).p(other).cards@.push(t.unwrap()))
                &&& final(self).p(player as int).id == old(self).p(player as int).id
                &&& final(self).p(player as int).playable_cards == old(self).p(
                    player as int,
                ).playable_cards
                &&& final(self).p(player as int).tricks == old(self).p(player as int).tricks
                &&& final(self).p(player as int).announcements == old(self).p(
                    player as int,
                ).announcements
                &&& final(self).p(player as int).announcable == old(self).p(
                    player as int,
                ).announcable
                &&& final(self).p(player as int).possible_trump_swap == old(self).p(
                    player as int,
                ).possible_trump_swap
                &&& final(self).p(player as int).points == old(self).p(player as int).points
                &&& final(self).p(other).id == old(self).p(other).id
                &&& final(self).p(other).playable_cards == old(self).p(other).playable_cards
                &&& final(self).p(other).tricks == old(self).p(other).tricks
                &&& final(self).p(other).announcements == old(self).p(other).announcements
                &&& final(self).p(other).announcable == old(self).p(other).announcable
                &&& final(self).p(other).possible_trump_swap == old(self).p(
                    other,
                ).possible_trump_swap
                &&& final(self).p(other).points == old(self).p(other).points
                &&& final(self).players@.len() == 2
                &&& final(self).active == old(self).active
                &&& final(self).closed_talon == old(self).closed_talon
                &&& final(self).stack == old(self).stack
            }),
    {
        if self.deck.len() > 0 {
            self.draw_one(player);
        } else {
            self.take_trump(player);
        }
        let other = 1 - player;
        if self.players[other].cards.len() < 5 {
            if self.deck.len() > 0 {
                self.draw_one(other);
            } else if self.trump.is_some() {
                self.take_trump(other);
            }
        }
        proof {
            if old(self).deck@.len() >= 2 {
                assert(old(self).deck@.drop_last().drop_last() =~= old(self).deck@.take(
                    old(self).deck@.len() - 2,
                ));
                assert(old(self).deck@.drop_last() =~= old(self).deck@.take(
                    old(self).deck@.len() - 1,
                ));
                assert(old(self).deck@.drop_last().last() == old(self).deck@[old(
                    self,
                ).deck@.len() - 2]);
            }
        }
    }

    /// Draws after a won trick: the active player takes the top talon
    /// card, or the face-up trump once the talon is empty; then the
    /// other player draws the same way. The active player's action
    /// sets are refreshed and they are allowed to announce (when
    /// possible), close the talon and play. Refused for a non-active
    /// player, a full hand, an exhausted talon or a closed one.
    #[verifier::rlimit(100)]
    #[verifier::spinoff_prover]
    pub fn draw_card_after_trick(&mut self, player: usize) -> (r: Result<Card, PlayerError>)
        requires
            old(self).wf(),
            player < 2,
        ensures
            final(self).wf(),
            match r {
                Err(e) => {
                    &&& *final(self) == *old(self)
                    &&& if old(self).active != Some(player) {
                        e == PlayerError::CantTakeCardPlayerNotActive
                    } else if old(self).stack@.len() != 0 {
                        e == PlayerError::CantTakeCardRoundNotFinished
                    } else if old(self).p(player as int).cards@.len() >= 5 {
                        e == PlayerError::CantTakeCardHaveAlreadyFive
                    } else if old(self).trump is None && old(self).deck@.len() == 0 {
                        e == PlayerError::CantTakeCardDeckEmpty
                    } else {
                        e == PlayerError::TalonAlreadyClosed && old(self).closed_talon is Some
                    }
                },
                Ok(c) => {
                    &&& old(self).active == Some(player)
                    &&& old(self).stack@.len() == 0
                    &&& old(self).p(player as int).cards@.len() < 5
                    &&& old(self).closed_talon is None
                    &&& (old(self).deck@.len() > 0 || old(self).trump is Some)
                    &&& c == old(self).draw_first_card()
                    &&& final(self).events@ == old(self).draw_events(player, old(self).events@)
                    &&& final(self).p(player as int).cards@ == old(self).p(
                        player as int,
                    ).cards@.push(c)
                    &&& final(self).p(player as int).announcable@ == old(self).draw_sets(
                        player,
                    ).0
                    &&& final(self).p(player as int).possible_trump_swap == old(self).draw_sets(
                        player,
                    ).1
                    &&& final(self).p(player as int).playable_cards@ == old(self).draw_sets(
                        player,
                    ).2
                    &&& final(self).p(player as int).cards@.len() == old(self).p(
                        player as int,
                    ).cards@.len() + 1
                    &&& final(self).active == Some(player)
                    &&& final(self).closed_talon is None
                    &&& final(self).p(0).points == old(self).p(0).points
                    &&& final(self).p(1).points == old(self).p(1).points
                    &&& final(self).p(0).id == old(self).p(0).id
                    &&& final(self).p(1).id == old(self).p(1).id
                    &&& final(self).p(0).tricks == old(self).p(0).tricks
                    &&& final(self).p(1).tricks == old(self).p(1).tricks
                    &&& final(self).p(0).announcements == old(self).p(0).announcements
                    &&& final(self).p(1).announcements == old(self).p(1).announcements
                    &&& final(self).stack@.len() == 0
                    &&& (old(self).deck@.len() == 0 ==> final(self).trump is None
                        && final(self).taken_trump == Some((player, old(self).trump.unwrap())))
                    &&& (old(self).deck@.len() >= 2 && old(self).p(1 - player as int).cards@.len()
                        < 5 ==> final(self).deck@ == old(self).deck@.take(
                        old(self).deck@.len() - 2,
                    ) && final(self).trump == old(self).trump && final(self).p(
                        1 - player as int,
                    ).cards@ == old(self).p(1 - player as int).cards@.push(
                        old(self).deck@[old(self).deck@.len() - 2],
                    ))
                    &&& (old(self).deck@.len() >= 2 && old(self).p(1 - player as int).cards@.len()
                        >= 5 ==> final(self).deck@ == old(self).deck@.take(
                        old(self).deck@.len() - 1,
                    ) && final(self).trump == old(self).trump && final(self).p(
                        1 - player as int,
                    ).cards == old(self).p(1 - player as int).cards)
                    &&& (old(self).deck@.len() == 1 && old(self).trump is Some && old(self).p(
                        1 - player as int,
                    ).cards@.len() < 5 ==> final(self).deck@.len() == 0
                        && final(self).trump is None && final(self).taken_trump == Some(
                        ((1 - player) as usize, old(self).trump.unwrap()),
                    ) && final(self).p(1 - player as int).cards@ == old(self).p(
                        1 - player as int,
                    ).cards@.push(old(self).trump.unwrap()))
                },
            },
    {
        if !self.is_active(player) {
            return Err(PlayerError::CantTakeCardPlayerNotActive);
        }
        if self.stack.len() != 0 {
            return Err(PlayerError::CantTakeCardRoundNotFinished);
        }
        if self.players[player].cards.len() >= 5 {
            return Err(PlayerError::CantTakeCardHaveAlreadyFive);
        }
        if self.trump.is_none() && self.deck.len() == 0 {
            return Err(PlayerError::CantTakeCardDeckEmpty);
        }
        if self.closed_talon.is_some() {
            return Err(PlayerError::TalonAlreadyClosed);
        }
        let card = if self.deck.len() > 0 {
            *self.deck.last().unwrap()
        } else {
            match &self.trump {
                Some(c) => *c,
                None => Card { value: CardVal::Ace, suit: CardSuit::Hearts },
            }
        };
        self.draw_both(player);
        let ghost mid = *self;
        self.swap_to(player);
        proof {
            assert(self.events@ == mid.swap_to_evts(player, mid.events@));
            assert(self.p(player as int).announcable@ == old(self).draw_sets(player).0);
            assert(self.p(player as int).possible_trump_swap == old(self).draw_sets(player).1);
            assert(self.p(player as int).playable_cards@ == old(self).draw_sets(player).2);
        }
        let ghost e2 = self.events@;
        if self.players[player].announcable.len() > 0 {
            self.events.push(EngineEvent::Private(player, PrivateEvent::AllowAnnounce));
        }
        let ghost e3 = self.events@;
        proof {
            assert(e3 =~= (if old(self).draw_sets(player).0.len() > 0 {
                e2 + seq![EngineEvent::Private(player, PrivateEvent::AllowAnnounce)]
            } else {
                e2
            }));
        }
        self.events.push(EngineEvent::Private(player, PrivateEvent::AllowCloseTalon));
        self.events.push(EngineEvent::Private(player, PrivateEvent::AllowPlayCard));
        proof {
            assert(self.events@ =~= e3 + seq![
                EngineEvent::Private(player, PrivateEvent::AllowCloseTalon),
                EngineEvent::Private(player, PrivateEvent::AllowPlayCard),
            ]);
            assert(self.events@ =~= old(self).draw_events(player, old(self).events@));
        }
        Ok(card)
    }

    /// The event stream a successful trump swap appends to `ev`: the
    /// old trump privately entering the hand, the jack privately
    /// leaving it, the public trump change, and the delta events of
    /// the player's refreshed derived sets.
    pub open spec fn swap_trump_events(self, player: usize, card: Card, ev: Seq<EngineEvent>)
        -> Seq<EngineEvent> {
        let t = self.trump.unwrap();
        let hand2 = remove_first(self.p(player as int).cards@, card).push(t);
        let ts = Some(card.suit);
        let new_ann = ann_core(true, hand2, ts, self.p(player as int).announcements@);
        let new_swap = swap_core(
            self.stack@.len() == 0 && self.closed_talon is None,
            Some(card),
            hand2,
        );
        let new_play = playable_core(
            hand2,
            self.stack@,
            self.taken_trump is Some,
            self.closed_talon is Some,
            ts,
        );
        ev + seq![
            EngineEvent::Private(player, PrivateEvent::CardAvailable(t)),
            EngineEvent::Private(player, PrivateEvent::CardUnavailable(card)),
            EngineEvent::Public(PublicEvent::TrumpChange(Some(card))),
        ] + refresh_evts(
            player,
            self.p(player as int).announcable@,
            new_ann,
            self.p(player as int).possible_trump_swap,
            new_swap,
            self.p(player as int).playable_cards@,
            new_play,
        )
    }

    /// Swaps the jack of trumps from the player's hand with the
    /// face-up trump card. Allowed only for the active player while
    /// the trump is face up, the stack empty and the talon open, and
    /// only with that jack.
    #[verifier::rlimit(100)]
    #[verifier::spinoff_prover]
    pub fn swap_trump(&mut self, player: usize, card: Card) -> (r: Result<Card, PlayerError>)
        requires
            old(self).wf(),
            player < 2,
        ensures
            final(self).wf(),
            match r {
                Err(e) => {
                    &&& *final(self) == *old(self)
                    &&& e == PlayerError::CantSwapTrump
                    &&& !(old(self).spec_can_swap(player as int) == Some(card))
                },
                Ok(t) => {
                    let hand2 = remove_first(old(self).p(player as int).cards@, card).push(t);
                    &&& old(self).spec_can_swap(player as int) == Some(card)
                    &&& t == old(self).trump.unwrap()
                    &&& final(self).trump == Some(card)
                    &&& final(self).p(player as int).cards@ == hand2
                    &&& final(self).p(player as int).cards@.to_multiset().insert(card) == old(
                        self,
                    ).p(player as int).cards@.to_multiset().insert(t)
                    &&& final(self).events@ == old(self).swap_trump_events(
                        player,
                        card,
                        old(self).events@,
                    )
                    &&& final(self).p(player as int).announcable@ == ann_core(
                        true,
                        hand2,
                        Some(card.suit),
                        old(self).p(player as int).announcements@,
                    )
                    &&& final(self).p(player as int).possible_trump_swap == swap_core(
                        old(self).stack@.len() == 0 && old(self).closed_talon is None,
                        Some(card),
                        hand2,
                    )
                    &&& final(self).p(player as int).playable_cards@ == playable_core(
                        hand2,
                        old(self).stack@,
                        old(self).taken_trump is Some,
                        old(self).closed_talon is Some,
                        Some(card.suit),
                    )
                    &&& final(self).p(player as int).tricks == old(self).p(player as int).tricks
                    &&& final(self).p(player as int).announcements == old(self).p(
                        player as int,
                    ).announcements
                    &&& final(self).p(player as int).points == old(self).p(player as int).points
                    &&& final(self).p(player as int).id == old(self).p(player as int).id
                    &&& final(self).p(1 - player as int) == old(self).p(1 - player as int)
                    &&& final(self).deck == old(self).deck
                    &&& final(self).active == old(self).active
                    &&& final(self).taken_trump == old(self).taken_trump
                    &&& final(self).closed_talon == old(self).closed_talon
                    &&& final(self).stack == old(self).stack
                },
            },
    {
        let swap = self.can_swap_trump(player);
        let ok = match &swap {
            Some(sw) => *sw == card,
            None => false,
        };
        if !ok {
            return Err(PlayerError::CantSwapTrump);
        }
        let trump = match &self.trump {
            Some(t) => *t,
            None => Card { value: CardVal::Ace, suit: CardSuit::Hearts },
        };
        self.trump = Some(card);
        match find_card(&self.players[player].cards, card) {
            Some(i) => {
                self.players[player].cards.remove(i);
            },
            None => {
                proof {
                    assert(false);
                }
            },
        }
        proof {
            lemma_card_sum_remove(
                old(self).p(player as int).cards@,
                first_index(old(self).p(player as int).cards@, card),
            );
        }
        self.players[player].cards.push(trump);
        proof {
            lemma_card_sum_push(
                remove_first(old(self).p(player as int).cards@, card),
                trump,
            );
        }
        self.events.push(EngineEvent::Private(player, PrivateEvent::CardAvailable(trump)));
        self.events.push(EngineEvent::Private(player, PrivateEvent::CardUnavailable(card)));
        self.events.push(EngineEvent::Public(PublicEvent::TrumpChange(Some(card))));
        proof {
            assert(self.events@ =~= old(self).events@ + seq![
                EngineEvent::Private(player, PrivateEvent::CardAvailable(trump)),
                EngineEvent::Private(player, PrivateEvent::CardUnavailable(card)),
                EngineEvent::Public(PublicEvent::TrumpChange(Some(card))),
            ]);
        }
        self.update_announcable_props(player);
        self.update_swap_trump(player);
        self.update_playable_cards(player);
        proof {
            assert(self.events@ =~= old(self).swap_trump_events(
                player,
                card,
                old(self).events@,
            ));
        }
        proof {
            let pre_hand = old(self).p(player as int).cards@;
            let post_hand = remove_first(pre_hand, card).push(trump);
            pre_hand.to_multiset_ensures();
            remove_first(pre_hand, card).to_multiset_ensures();
            lemma_first_index_props(pre_hand, card);
            assert(post_hand.to_multiset() =~= remove_first(pre_hand, card).to_multiset().insert(
                trump,
            ));
            assert(remove_first(pre_hand, card).to_multiset() =~= pre_hand.to_multiset().remove(
                card,
            ));
            assert(post_hand.to_multiset().insert(card) =~= pre_hand.to_multiset().insert(trump));
        }
        Ok(trump)
    }
}

/// When a sequence holds a card, its first index is in range and
/// holds that card.
proof fn lemma_first_index_props(s: Seq<Card>, c: Card)
    requires
        s.contains(c),
    ensures
        0 <= first_index(s, c) < s.len(),
        s[first_index(s, c)] == c,
    decreases s.len(),
{
    if s[0] != c {
        assert(s.drop_first().contains(c)) by {
            let j = choose|j: int| 0 <= j < s.len() && s[j] == c;
            assert(s.drop_first()[j - 1] == c);
        }
        lemma_first_index_props(s.drop_first(), c);
    }
}

impl SchnapsenDuo {
    /// Replaces the player's playable set by `new`, emitting the
    /// delta events.
    fn set_playable(&mut self, player: usize, new: Vec<Card>)
        requires
            old(self).wf(),
            player < 2,
        ensures
            final(self).wf(),
            ({
                let news = new@;
                let olds = old(self).p(player as int).playable_cards@;
                &&& final(self).p(player as int).playable_cards@ == news
                &&& final(self).events@ == old(self).events@ + playable_evts(
                    player,
                    added_cards(news, olds),
                ) + not_playable_evts(player, added_cards(olds, news))
                &&& final(self).p(player as int).id == old(self).p(player as int).id
                &&& final(self).p(player as int).cards == old(self).p(player as int).cards
                &&& final(self).p(player as int).tricks == old(self).p(player as int).tricks
                &&& final(self).p(player as int).announcements == old(self).p(
                    player as int,
                ).announcements
                &&& final(self).p(player as int).announcable == old(self).p(
                    player as int,
                ).announcable
                &&& final(self).p(player as int).possible_trump_swap == old(self).p(
                    player as int,
                ).possible_trump_swap
                &&& final(self).p(player as int).points == old(self).p(player as int).points
                &&& final(self).p(1 - player as int) == old(self).p(1 - player as int)
                &&& final(self).players@.len() == 2
                &&& final(self).deck == old(self).deck
                &&& final(self).active == old(self).active
                &&& final(self).trump == old(self).trump
                &&& final(self).taken_trump == old(self).taken_trump
                &&& final(self).closed_talon == old(self).closed_talon
                &&& final(self).stack == old(self).stack
            }),
    {
        let ghost pre = *self;
        let ghost news = new@;
        let ghost olds = self.players@[player as int].playable_cards@;
        let mut i: usize = 0;
        while i < new.len()
            invariant
                i <= news.len(),
                new@ == news,
                *self == (SchnapsenDuo { events: self.events, ..pre }),
                self.players@.len() == 2,
                olds == self.p(player as int).playable_cards@,
                player < 2,
                self.events@ == pre.events@ + playable_evts(
                    player,
                    added_cards(news.take(i as int), olds),
                ),
            decreases news.len() - i,
        {
            proof {
                assert(news.take(i + 1).drop_last() =~= news.take(i as int));
                assert(news.take(i + 1).last() == news[i as int]);
            }
            if !vec_contains_card(&self.players[player].playable_cards, new[i]) {
                self.events.push(EngineEvent::Private(player, PrivateEvent::CardPlayable(new[i])));
            }
            proof {
                if !olds.contains(news[i as int]) {
                    lemma_playable_evts_push(
                        player,
                        added_cards(news.take(i as int), olds),
                        news[i as int],
                    );
                    assert(added_cards(news.take(i + 1), olds) =~= added_cards(
                        news.take(i as int),
                        olds,
                    ).push(news[i as int]));
                    assert(self.events@ =~= pre.events@ + playable_evts(
                        player,
                        added_cards(news.take(i + 1), olds),
                    ));
                }
            }
            i += 1;
        }
        proof {
            assert(news.take(news.len() as int) =~= news);
        }
        let ghost mid_events = self.events@;
        let mut j: usize = 0;
        while j < self.players[player].playable_cards.len()
            invariant
                j <= olds.len(),
                new@ == news,
                *self == (SchnapsenDuo { events: self.events, ..pre }),
                self.players@.len() == 2,
                olds == self.p(player as int).playable_cards@,
                player < 2,
                self.events@ == mid_events + not_playable_evts(
                    player,
                    added_cards(olds.take(j as int), news),
                ),
            decreases olds.len() - j,
        {
            proof {
                assert(olds.take(j + 1).drop_last() =~= olds.take(j as int));
                assert(olds.take(j + 1).last() == olds[j as int]);
            }
            let c = self.players[player].playable_cards[j];
            if !vec_contains_card(&new, c) {
                self.events.push(EngineEvent::Private(player, PrivateEvent::CardNotPlayable(c)));
            }
            proof {
                if !news.contains(olds[j as int]) {
                    lemma_not_playable_evts_push(
                        player,
                        added_cards(olds.take(j as int), news),
                        olds[j as int],
                    );
                    assert(added_cards(olds.take(j + 1), news) =~= added_cards(
                        olds.take(j as int),
                        news,
                    ).push(olds[j as int]));
                    assert(self.events@ =~= mid_events + not_playable_evts(
                        player,
                        added_cards(olds.take(j + 1), news),
                    ));
                }
            }
            j += 1;
        }
        proof {
            assert(olds.take(olds.len() as int) =~= olds);
        }
        self.players[player].playable_cards = new;
        proof {
            assert(self.events@ =~= pre.events@ + playable_evts(player, added_cards(news, olds))
                + not_playable_evts(player, added_cards(olds, news)));
        }
    }

    /// Records a marriage announcement: the pair is validated, stored,
    /// published, and the next play is constrained to its two cards;
    /// the announcement may settle the round at once. The marriage is
    /// scored only once the player has taken a trick.
    #[verifier::rlimit(100)]
    #[verifier::spinoff_prover]
    fn announce(&mut self, player: usize, ann: Announcement) -> (r: Result<
        Announcement,
        PlayerError,
    >)
        requires
            old(self).wf(),
            player < 2,
            old(self).announcement_wf(ann),
        ensures
            final(self).wf(),
            match r {
                Err(e) => {
                    &&& *final(self) == *old(self)
                    &&& e == (if ann.announce_type == AnnounceType::Forty {
                        PlayerError::CantPlay40
                    } else {
                        PlayerError::CantPlay20
                    })
                    &&& !old(self).may_announce(player as int, ann)
                },
                Ok(a) => {
                    &&& a == ann
                    &&& old(self).may_announce(player as int, ann)
                    &&& announce_post(*old(self), *final(self), player, ann)
                },
            },
    {
        let active_ok = self.is_active(player);
        let hand_ok = vec_contains_card(&self.players[player].cards, ann.cards[0])
            && vec_contains_card(&self.players[player].cards, ann.cards[1]);
        let suit_free = !has_suit_announced(
            &self.players[player].announcements,
            ann.cards[0].suit,
        );
        if !(active_ok && hand_ok && suit_free) {
            if ann.announce_type == AnnounceType::Forty {
                return Err(PlayerError::CantPlay40);
            }
            return Err(PlayerError::CantPlay20);
        }
        self.players[player].announcements.push(ann);
        let user_id = self.players[player].id.clone();
        self.events.push(
            EngineEvent::Public(PublicEvent::Announce { user_id, announcement: ann }),
        );
        let ghost e1 = self.events@;
        proof {
            assert(e1 =~= old(self).events@ + seq![
                EngineEvent::Public(
                    PublicEvent::Announce {
                        user_id: old(self).p(player as int).id,
                        announcement: ann,
                    },
                ),
            ]);
        }
        let mut pair: Vec<Card> = Vec::new();
        pair.push(ann.cards[0]);
        pair.push(ann.cards[1]);
        proof {
            assert(pair@ =~= seq![ann.cards[0], ann.cards[1]]);
        }
        self.set_playable(player, pair);
        let ghost mid = *self;
        let ghost s0 = old(self).score_after_announce(0, player as int, ann);
        let ghost s1 = old(self).score_after_announce(1, player as int, ann);
        proof {
            assert(mid.spec_score(0) == s0);
            assert(mid.spec_score(1) == s1);
            assert(mid.score_leader() == leader_of(s0, s1));
            assert(mid.round_over() == old(self).round_over_after_announce(player as int, ann));
        }
        let ended = self.update_finish_round(player);
        proof {
            if ended {
                assert(mid.round_winner(player as int) == round_winner_core(
                    s0,
                    s1,
                    old(self).closed_talon,
                    player as int,
                ));
                assert(mid.round_bummerl(player as int) == round_bummerl_core(s0, s1));
                assert(self.events@ =~= old(self).announce_events(
                    player,
                    ann,
                    old(self).events@,
                ));
            } else {
                assert(self.events@ =~= old(self).announce_events(
                    player,
                    ann,
                    old(self).events@,
                ));
            }
        }
        Ok(ann)
    }

    /// The event stream a successful announcement appends to `ev`:
    /// the public announcement, the deltas restricting the playable
    /// set to the pair, and then either the two score publications of
    /// a continuing round or the full settlement of a finished one.
    pub open spec fn announce_events(self, player: usize, ann: Announcement, ev: Seq<
        EngineEvent,
    >) -> Seq<EngineEvent> {
        let pair = seq![ann.cards[0], ann.cards[1]];
        let oldp = self.p(player as int).playable_cards@;
        let base = ev + seq![
            EngineEvent::Public(
                PublicEvent::Announce { user_id: self.p(player as int).id, announcement: ann },
            ),
        ] + playable_evts(player, added_cards(pair, oldp)) + not_playable_evts(
            player,
            added_cards(oldp, pair),
        );
        let s0 = self.score_after_announce(0, player as int, ann);
        let s1 = self.score_after_announce(1, player as int, ann);
        if self.round_over_after_announce(player as int, ann) {
            round_end_evts_core(
                s0,
                s1,
                self.p(0).points,
                self.p(1).points,
                self.p(0).id,
                self.p(1).id,
                self.closed_talon,
                player as int,
                base,
            )
        } else {
            let w0 = leader_of(s0, s1);
            let sw = if w0 == 1 {
                s1
            } else {
                s0
            };
            let sl = if w0 == 1 {
                s0
            } else {
                s1
            };
            base.push(
                EngineEvent::Public(
                    PublicEvent::Score { user_id: self.p(w0).id, points: sw as u8 },
                ),
            ).push(
                EngineEvent::Public(
                    PublicEvent::Score { user_id: self.p(1 - w0).id, points: sl as u8 },
                ),
            )
        }
    }

    /// Whether the player may announce this marriage right now: they
    /// are active, hold both cards, and have not announced the suit.
    pub open spec fn may_announce(self, i: int, ann: Announcement) -> bool {
        &&& self.active == Some(i as usize)
        &&& self.p(i).cards@.contains(ann.cards[0])
        &&& self.p(i).cards@.contains(ann.cards[1])
        &&& !suit_announced(self.p(i).announcements@, ann.cards[0].suit)
    }

    /// The round score of player `i` with the announcement recorded.
    pub open spec fn score_after_announce(self, i: int, player: int, ann: Announcement) -> int {
        if i == player {
            pair_sum(self.p(i).tricks@) + if self.p(i).tricks@.len() > 0 {
                ann_sum(self.p(i).announcements@.push(ann))
            } else {
                0
            }
        } else {
            self.spec_score(i)
        }
    }

    /// Whether the announcement settles the round at once.
    pub open spec fn round_over_after_announce(self, player: int, ann: Announcement) -> bool {
        let s0 = self.score_after_announce(0, player, ann);
        let s1 = self.score_after_announce(1, player, ann);
        let sw = if leader_of(s0, s1) == 1 {
            s1
        } else {
            s0
        };
        sw >= 66 || self.exhausted()
    }

    /// The round winner if the announcement settles the round.
    pub open spec fn ann_round_winner(self, player: int, ann: Announcement) -> int {
        round_winner_core(
            self.score_after_announce(0, player, ann),
            self.score_after_announce(1, player, ann),
            self.closed_talon,
            player,
        )
    }

    /// The bummerl points if the announcement settles the round.
    pub open spec fn ann_round_bummerl(self, player: int, ann: Announcement) -> int {
        round_bummerl_core(
            self.score_after_announce(0, player, ann),
            self.score_after_announce(1, player, ann),
        )
    }

    /// Announces a twenty: a king/queen pair of one suit, given in
    /// either order. Succeeds exactly when the pair is such a
    /// marriage that the active player holds with its suit not yet
    /// announced; anything else is refused with the match unchanged.
    pub fn announce_20(&mut self, player: usize, cards: [Card; 2]) -> (r: Result<
        Announcement,
        PlayerError,
    >)
        requires
            old(self).wf(),
            player < 2,
        ensures
            final(self).wf(),
            match r {
                Err(e) => {
                    &&& *final(self) == *old(self)
                    &&& e == PlayerError::CantPlay20
                    &&& !(valid_twenty_pair(cards) && old(self).may_announce(
                        player as int,
                        (Announcement { cards, announce_type: AnnounceType::Twenty }),
                    ))
                },
                Ok(a) => {
                    &&& a == (Announcement { cards, announce_type: AnnounceType::Twenty })
                    &&& valid_twenty_pair(cards)
                    &&& old(self).may_announce(player as int, a)
                    &&& announce_post(*old(self), *final(self), player, a)
                },
            },
    {
        let valid = cards[0].suit == cards[1].suit && ((cards[0].value == CardVal::King
            && cards[1].value == CardVal::Queen) || (cards[0].value == CardVal::Queen
            && cards[1].value == CardVal::King));
        if !valid {
            return Err(PlayerError::CantPlay20);
        }
        let ann = Announcement { cards, announce_type: AnnounceType::Twenty };
        self.announce(player, ann)
    }

    /// Announces the forty: the king/queen marriage of the trump
    /// suit. Succeeds exactly when the active player holds that
    /// marriage with the trump suit not yet announced; anything else
    /// is refused with the match unchanged.
    pub fn announce_40(&mut self, player: usize) -> (r: Result<Announcement, PlayerError>)
        requires
            old(self).wf(),
            player < 2,
        ensures
            final(self).wf(),
            match r {
                Err(e) => {
                    &&& *final(self) == *old(self)
                    &&& e == PlayerError::CantPlay40
                    &&& match old(self).trump_suit() {
                        None => true,
                        Some(ts) => !old(self).may_announce(player as int, forty_of(ts)),
                    }
                },
                Ok(a) => match old(self).trump_suit() {
                    Some(ts) => {
                        &&& a == forty_of(ts)
                        &&& old(self).may_announce(player as int, a)
                        &&& announce_post(*old(self), *final(self), player, a)
                    },
                    None => false,
                },
            },
    {
        let ts = match self.trump_suit_now() {
            Some(t) => t,
            None => {
                return Err(PlayerError::CantPlay40);
            },
        };
        let ann = Announcement {
            cards: [
                Card { value: CardVal::King, suit: ts },
                Card { value: CardVal::Queen, suit: ts },
            ],
            announce_type: AnnounceType::Forty,
        };
        self.announce(player, ann)
    }

    /// Takes the bottom `idx` talon cards into the player's hand, as
    /// the original exposes for table setup; at least one card must
    /// stay behind.
    pub fn take_cards_til(&mut self, player: usize, idx: usize) -> (r: Result<(), PlayerError>)
        requires
            old(self).wf(),
            player < 2,
        ensures
            final(self).wf(),
            match r {
                Err(e) => {
                    &&& *final(self) == *old(self)
                    &&& if old(self).deck@.len() == 0 {
                        e == PlayerError::CantTakeCardDeckEmpty
                    } else {
                        e == PlayerError::CantTakeAllDeckCards && idx + 1 >= old(self).deck@.len()
                    }
                },
                Ok(()) => {
                    &&& idx + 1 < old(self).deck@.len()
                    &&& final(self).deck@ == old(self).deck@.skip(idx as int)
                    &&& final(self).p(player as int).cards@ == old(self).p(player as int).cards@
                        + old(self).deck@.take(idx as int)
                    &&& final(self).events@ == old(self).events@ + taken_evts(
                        player,
                        old(self).p(player as int).id,
                        old(self).deck@.take(idx as int),
                    ) + seq![
                        EngineEvent::Public(
                            PublicEvent::DeckCardCount(
                                (old(self).deck@.len() - idx) as usize,
                            ),
                        ),
                    ]
                    &&& final(self).p(1 - player as int) == old(self).p(1 - player as int)
                    &&& final(self).p(player as int).points == old(self).p(player as int).points
                    &&& final(self).active == old(self).active
                    &&& final(self).trump == old(self).trump
                    &&& final(self).taken_trump == old(self).taken_trump
                    &&& final(self).closed_talon == old(self).closed_talon
                    &&& final(self).stack == old(self).stack
                },
            },
    {
        if self.deck.len() == 0 {
            return Err(PlayerError::CantTakeCardDeckEmpty);
        }
        if idx >= self.deck.len() - 1 {
            return Err(PlayerError::CantTakeAllDeckCards);
        }
        let ghost pre = *self;
        let ghost d = self.deck@;
        let mut k: usize = 0;
        while k < idx
            invariant
                k <= idx,
                idx + 1 < d.len(),
                player < 2,
                self.players@.len() == 2,
                *self == (SchnapsenDuo {
                    players: self.players,
                    deck: self.deck,
                    events: self.events,
                    ..pre
                }),
                self.deck@ == d.skip(k as int),
                self.p(player as int).cards@ == pre.p(player as int).cards@ + d.take(k as int),
                self.events@ == pre.events@ + taken_evts(
                    player,
                    pre.p(player as int).id,
                    d.take(k as int),
                ),
                self.p(player as int) == (Player {
                    cards: self.p(player as int).cards,
                    ..pre.p(player as int)
                }),
                self.p(1 - player as int) == pre.p(1 - player as int),
            decreases idx - k,
        {
            let card = self.deck.remove(0);
            self.events.push(EngineEvent::Private(player, PrivateEvent::CardAvailable(card)));
            let user_id = self.players[player].id.clone();
            self.events.push(EngineEvent::Public(PublicEvent::ReceiveCard { user_id }));
            self.players[player].cards.push(card);
            proof {
                assert(d.skip(k as int).remove(0) =~= d.skip(k + 1));
                assert(d.skip(k as int)[0] == d[k as int]);
                assert(pre.p(player as int).cards@ + d.take(k as int).push(d[k as int]) =~= (
                pre.p(player as int).cards@ + d.take(k as int)).push(d[k as int]));
                assert(d.take(k + 1) =~= d.take(k as int).push(d[k as int]));
                assert(d.take(k + 1).drop_last() =~= d.take(k as int));
                assert(d.take(k + 1).last() == d[k as int]);
                assert(self.events@ =~= pre.events@ + taken_evts(
                    player,
                    pre.p(player as int).id,
                    d.take(k + 1),
                ));
            }
            k += 1;
        }
        let n = self.deck.len();
        self.events.push(EngineEvent::Public(PublicEvent::DeckCardCount(n)));
        proof {
            lemma_card_sum_split(d, idx as int);
            lemma_card_sum_concat(pre.p(player as int).cards@, d.take(idx as int));
            assert(self.events@ =~= pre.events@ + taken_evts(
                player,
                pre.p(player as int).id,
                d.take(idx as int),
            ) + seq![
                EngineEvent::Public(PublicEvent::DeckCardCount((d.len() - idx) as usize)),
            ]);
        }
        Ok(())
    }

    /// The player whose last-drawn card has the higher value; ties go
    /// to the second player. Refused until both players hold cards.
    pub fn get_player_with_greatest_card(&self) -> (r: Result<usize, PlayerError>)
        requires
            self.wf(),
        ensures
            match r {
                Err(e) => {
                    &&& e == PlayerError::NotAllPlayersHaveTakenCards
                    &&& (self.p(0).cards@.len() == 0 || self.p(1).cards@.len() == 0)
                },
                Ok(i) => {
                    &&& self.p(0).cards@.len() > 0 && self.p(1).cards@.len() > 0
                    &&& i == (if val_points(self.p(1).cards@.last().value) >= val_points(
                        self.p(0).cards@.last().value,
                    ) {
                        1int
                    } else {
                        0int
                    })
                },
            },
    {
        if self.players[0].cards.len() == 0 || self.players[1].cards.len() == 0 {
            return Err(PlayerError::NotAllPlayersHaveTakenCards);
        }
        let c0 = self.players[0].cards[self.players[0].cards.len() - 1];
        let c1 = self.players[1].cards[self.players[1].cards.len() - 1];
        if c1.points() >= c0.points() {
            Ok(1)
        } else {
            Ok(0)
        }
    }

    /// Lays out a fresh shuffled talon and clears both players'
    /// per-round state, as between rounds.
    pub fn recreate_deck(&mut self)
        requires
            old(self).wf(),
            old(self).trump is None,
            old(self).taken_trump is None,
            old(self).stack@.len() == 0,
        ensures
            final(self).wf(),
            final(self).deck@.len() == 20,
            final(self).deck@.to_multiset() == full_deck().to_multiset(),
            no_repeats(final(self).deck@),
            final(self).fresh_round_player(0),
            final(self).fresh_round_player(1),
            final(self).p(0).id == old(self).p(0).id,
            final(self).p(1).id == old(self).p(1).id,
            final(self).p(0).points == old(self).p(0).points,
            final(self).p(1).points == old(self).p(1).points,
            final(self).active == old(self).active,
            final(self).trump is None,
            final(self).taken_trump is None,
            final(self).closed_talon == old(self).closed_talon,
            final(self).stack@.len() == 0,
            final(self).events == old(self).events,
    {
        self.deck = Self::populate_deck();
        let mut p0 = self.players.remove(0);
        p0.reset();
        self.players.insert(0, p0);
        let mut p1 = self.players.remove(1);
        p1.reset();
        self.players.insert(1, p1);
        proof {
            assert(self.players@ =~= old(self).players@.update(0, self.players@[0]).update(
                1,
                self.players@[1],
            ));
        }
    }

    /// Starts the next round of a bummerl match: a fresh shuffled
    /// talon is dealt with the previous round's winner leading.
    pub fn next_round(&mut self, winner: usize) -> (r: Result<(), PlayerError>)
        requires
            old(self).wf(),
            winner < 2,
            old(self).active is None,
            old(self).trump is None,
            old(self).taken_trump is None,
            old(self).closed_talon is None,
            old(self).stack@.len() == 0,
            old(self).p(0).points <= 6,
            old(self).p(1).points <= 6,
        ensures
            final(self).wf(),
            r is Ok,
            final(self).active == Some(winner),
            final(self).p(0).cards@.len() == 5,
            final(self).p(1).cards@.len() == 5,
            final(self).trump is Some,
            final(self).deck@.len() == 9,
            final(self).p(0).points == old(self).p(0).points,
            final(self).p(1).points == old(self).p(1).points,
            final(self).p(0).id == old(self).p(0).id,
            final(self).p(1).id == old(self).p(1).id,
            final(self).p(winner as int).playable_cards@ == final(self).p(
                winner as int,
            ).cards@,
            final(self).closed_talon is None,
            final(self).taken_trump is None,
            final(self).stack@.len() == 0,
            exists|d: Seq<Card>|
                {
                    &&& d.len() == 20
                    &&& d.to_multiset() == full_deck().to_multiset()
                    &&& #[trigger] final(self).events@ == distribution_events_core(
                        winner,
                        old(self).p(winner as int).id,
                        old(self).p(1 - winner as int).id,
                        d,
                        old(self).events@ + seq![
                            EngineEvent::Public(
                                PublicEvent::Active { user_id: old(self).p(winner as int).id },
                            ),
                        ],
                    )
                    &&& final(self).deck@ == d.take(9)
                    &&& final(self).trump == Some(d[13])
                },
    {
        self.recreate_deck();
        self.make_active(winner);
        let ghost mid = *self;
        let r = self.distribute_cards();
        proof {
            assert(mid.events@ =~= old(self).events@ + seq![
                EngineEvent::Public(
                    PublicEvent::Active { user_id: old(self).p(winner as int).id },
                ),
            ]);
            let d = mid.deck@;
            assert(final(self).events@ == distribution_events_core(
                winner,
                old(self).p(winner as int).id,
                old(self).p(1 - winner as int).id,
                d,
                mid.events@,
            ));
        }
        match r {
            Ok(()) => Ok(()),
            Err(_) => {
                proof {
                    assert(false);
                }
                Err(PlayerError::NoPlayerActive)
            },
        }
    }
}

/// Every state the engine can reach satisfies the conservation
/// equation: the two hands, the talon, the stack, the face-up trump
/// and twice the collected tricks always account for exactly the
/// twenty cards of the deck.
pub proof fn lemma_conservation(s: &SchnapsenDuo)
    requires
        s.wf(),
    ensures
        s.p(0).cards@.len() + s.p(1).cards@.len() + s.deck@.len() + s.stack@.len()
            + opt_card_count(s.trump) + 2 * s.p(0).tricks@.len() + 2 * s.p(1).tricks@.len()
            == 20,
{
}

/// After a response is staged and its trick collected, what the
/// settlement appended to the stream is exactly what
/// `play_card_events` promises for the response case.
#[verifier::rlimit(100)]
#[verifier::spinoff_prover]
proof fn lemma_resp_events(
    pre: SchnapsenDuo,
    mid: SchnapsenDuo,
    post_events: Seq<EngineEvent>,
    player: usize,
    card: Card,
    winner: usize,
    ended: bool,
)
    requires
        pre.players@.len() == 2,
        mid.players@.len() == 2,
        player < 2,
        winner < 2,
        pre.stack@.len() == 1,
        winner as int == spec_trick_winner(
            pre.stack@[0],
            card,
            pre.trump_suit(),
            player as int,
        ),
        mid.active == Some(player),
        mid.events@ == pre.events@ + play_prefix_evts(player, pre.p(player as int).id, card)
            + seq![
            EngineEvent::Public(
                PublicEvent::Trick {
                    user_id: pre.p(winner as int).id,
                    cards: [pre.stack@[0], card],
                },
            ),
        ],
        mid.p(winner as int).cards@ == pre.hand_after_play(winner as int, player as int, card),
        mid.p(winner as int).announcable == pre.p(winner as int).announcable,
        mid.p(winner as int).possible_trump_swap == pre.p(winner as int).possible_trump_swap,
        mid.p(winner as int).playable_cards@ == (if winner == player {
            remove_first(pre.p(winner as int).playable_cards@, card)
        } else {
            pre.p(winner as int).playable_cards@
        }),
        mid.p(0).announcements == pre.p(0).announcements,
        mid.p(1).announcements == pre.p(1).announcements,
        mid.p(0).points == pre.p(0).points,
        mid.p(1).points == pre.p(1).points,
        mid.p(0).id == pre.p(0).id,
        mid.p(1).id == pre.p(1).id,
        mid.spec_score(0) == pre.after_trick_score(0, winner as int, card, pre.stack@[0]),
        mid.spec_score(1) == pre.after_trick_score(1, winner as int, card, pre.stack@[0]),
        mid.stack@.len() == 0,
        mid.deck == pre.deck,
        mid.trump == pre.trump,
        mid.taken_trump == pre.taken_trump,
        mid.closed_talon == pre.closed_talon,
        mid.trump_suit() == pre.trump_suit(),
        ended == mid.round_over(),
        ended == pre.round_over_after_trick(player as int, card, winner as int),
        ended ==> post_events == mid.round_end_events(winner as int, mid.events@),
        !ended ==> post_events == ({
            let scored = mid.events@.push(
                EngineEvent::Public(
                    PublicEvent::Score {
                        user_id: mid.p(mid.score_leader()).id,
                        points: mid.spec_score(mid.score_leader()) as u8,
                    },
                ),
            ).push(
                EngineEvent::Public(
                    PublicEvent::Score {
                        user_id: mid.p(1 - mid.score_leader()).id,
                        points: mid.spec_score(1 - mid.score_leader()) as u8,
                    },
                ),
            );
            let sets = mid.sets_when_active(winner as int);
            let refreshed = mid.swap_to_evts(winner, scored);
            if (mid.deck@.len() > 0 || mid.trump is Some) && mid.closed_talon is None {
                refreshed + seq![EngineEvent::Private(winner, PrivateEvent::AllowDrawCard)]
            } else {
                (if sets.0.len() > 0 {
                    refreshed + seq![EngineEvent::Private(winner, PrivateEvent::AllowAnnounce)]
                } else {
                    refreshed
                }) + seq![EngineEvent::Private(winner, PrivateEvent::AllowPlayCard)]
            }
        }),
    ensures
        post_events == pre.play_card_events(player, card, pre.events@),
{
    reveal(SchnapsenDuo::play_card_events);
    let lead = pre.stack@[0];
    let w = winner as int;
    let s0 = pre.after_trick_score(0, w, card, lead);
    let s1 = pre.after_trick_score(1, w, card, lead);
    let trick_ev = pre.events@ + play_prefix_evts(player, pre.p(player as int).id, card)
        + seq![
        EngineEvent::Public(
            PublicEvent::Trick { user_id: pre.p(w).id, cards: [lead, card] },
        ),
    ];
    if ended {
        assert(mid.round_winner(w) == round_winner_core(s0, s1, pre.closed_talon, w));
        assert(mid.round_bummerl(w) == round_bummerl_core(s0, s1));
        assert(post_events =~= round_end_evts_core(
            s0,
            s1,
            pre.p(0).points,
            pre.p(1).points,
            pre.p(0).id,
            pre.p(1).id,
            pre.closed_talon,
            w,
            trick_ev,
        ));
    } else {
        let hand_w = pre.hand_after_play(w, player as int, card);
        assert(mid.score_leader() == leader_of(s0, s1));
        assert(mid.stack@ =~= Seq::<Card>::empty());
        assert(mid.sets_when_active(w) == (
            ann_core(true, hand_w, pre.trump_suit(), pre.p(w).announcements@),
            swap_core(pre.closed_talon is None, pre.trump, hand_w),
            playable_core(
                hand_w,
                Seq::empty(),
                pre.taken_trump is Some,
                pre.closed_talon is Some,
                pre.trump_suit(),
            ),
        ));
        assert(post_events =~= pre.play_card_events(player, card, pre.events@));
    }
}

/// How a successful talon closure relates the states around it.
pub open spec fn close_talon_post(pre: SchnapsenDuo, post: SchnapsenDuo, player: usize) -> bool {
    &&& pre.active == Some(player)
    &&& pre.deck@.len() > 0
    &&& pre.stack@.len() == 0
    &&& pre.closed_talon is None
    &&& post.closed_talon == Some(player)
    &&& post.events@ == pre.events@.push(
        EngineEvent::Public(PublicEvent::CloseTalon { user_id: pre.p(player as int).id }),
    )
    &&& post.players == pre.players
    &&& post.deck == pre.deck
    &&& post.active == pre.active
    &&& post.trump == pre.trump
    &&& post.taken_trump == pre.taken_trump
    &&& post.stack == pre.stack
}

/// Which error a refused talon closure carries.
pub open spec fn close_talon_err(pre: SchnapsenDuo, player: usize, e: PlayerError) -> bool {
    if pre.active != Some(player) || pre.deck@.len() == 0 || pre.stack@.len() != 0 {
        e == PlayerError::PlayerNotActive
    } else {
        e == PlayerError::TalonAlreadyClosed && pre.closed_talon is Some
    }
}

/// How a successful cut relates the states around it.
pub open spec fn cutt_deck_post(
    pre: SchnapsenDuo,
    post: SchnapsenDuo,
    player: usize,
    cards_to_take: usize,
) -> bool {
    &&& pre.active != Some(player)
    &&& ({
        let k = if cards_to_take > pre.deck@.len() {
            pre.deck@.len() as int
        } else {
            cards_to_take as int
        };
        post.deck@ == pre.deck@.skip(k) + pre.deck@.take(k)
    })
    &&& post.players == pre.players
    &&& post.active == pre.active
    &&& post.trump == pre.trump
    &&& post.taken_trump == pre.taken_trump
    &&& post.closed_talon == pre.closed_talon
    &&& post.stack == pre.stack
    &&& post.events == pre.events
}

/// How a successful table take relates the states around it.
pub open spec fn take_cards_post(
    pre: SchnapsenDuo,
    post: SchnapsenDuo,
    player: usize,
    idx: usize,
) -> bool {
    &&& idx + 1 < pre.deck@.len()
    &&& post.deck@ == pre.deck@.skip(idx as int)
    &&& post.p(player as int).cards@ == pre.p(player as int).cards@ + pre.deck@.take(idx as int)
    &&& post.p(1 - player as int) == pre.p(1 - player as int)
    &&& post.p(player as int).points == pre.p(player as int).points
    &&& post.active == pre.active
    &&& post.trump == pre.trump
    &&& post.taken_trump == pre.taken_trump
    &&& post.closed_talon == pre.closed_talon
    &&& post.stack == pre.stack
}

/// Which error a refused table take carries.
pub open spec fn take_cards_err(pre: SchnapsenDuo, idx: usize, e: PlayerError) -> bool {
    if pre.deck@.len() == 0 {
        e == PlayerError::CantTakeCardDeckEmpty
    } else {
        e == PlayerError::CantTakeAllDeckCards && idx + 1 >= pre.deck@.len()
    }
}

/// How a successful trump swap relates the states around it.
pub open spec fn swap_trump_post(
    pre: SchnapsenDuo,
    post: SchnapsenDuo,
    player: usize,
    card: Card,
) -> bool {
    let t = pre.trump.unwrap();
    let hand2 = remove_first(pre.p(player as int).cards@, card).push(t);
    &&& pre.spec_can_swap(player as int) == Some(card)
    &&& post.trump == Some(card)
    &&& post.p(player as int).cards@ == hand2
    &&& post.events@ == pre.swap_trump_events(player, card, pre.events@)
    &&& post.p(player as int).announcable@ == ann_core(
        true,
        hand2,
        Some(card.suit),
        pre.p(player as int).announcements@,
    )
    &&& post.p(player as int).possible_trump_swap == swap_core(
        pre.stack@.len() == 0 && pre.closed_talon is None,
        Some(card),
        hand2,
    )
    &&& post.p(player as int).playable_cards@ == playable_core(
        hand2,
        pre.stack@,
        pre.taken_trump is Some,
        pre.closed_talon is Some,
        Some(card.suit),
    )
    &&& post.p(player as int).tricks == pre.p(player as int).tricks
    &&& post.p(player as int).announcements == pre.p(player as int).announcements
    &&& post.p(player as int).points == pre.p(player as int).points
    &&& post.p(player as int).id == pre.p(player as int).id
    &&& post.p(1 - player as int) == pre.p(1 - player as int)
    &&& post.deck == pre.deck
    &&& post.active == pre.active
    &&& post.taken_trump == pre.taken_trump
    &&& post.closed_talon == pre.closed_talon
    &&& post.stack == pre.stack
}

/// How a successful post-trick draw relates the states around it.
pub open spec fn draw_post(pre: SchnapsenDuo, post: SchnapsenDuo, player: usize) -> bool {
    &&& pre.active == Some(player)
    &&& pre.stack@.len() == 0
    &&& pre.p(player as int).cards@.len() < 5
    &&& pre.closed_talon is None
    &&& (pre.deck@.len() > 0 || pre.trump is Some)
    &&& post.events@ == pre.draw_events(player, pre.events@)
    &&& post.p(player as int).cards@ == pre.p(player as int).cards@.push(pre.draw_first_card())
    &&& post.p(player as int).announcable@ == pre.draw_sets(player).0
    &&& post.p(player as int).possible_trump_swap == pre.draw_sets(player).1
    &&& post.p(player as int).playable_cards@ == pre.draw_sets(player).2
    &&& post.active == Some(player)
    &&& post.closed_talon is None
    &&& post.p(0).points == pre.p(0).points
    &&& post.p(1).points == pre.p(1).points
    &&& post.p(0).id == pre.p(0).id
    &&& post.p(1).id == pre.p(1).id
    &&& post.p(0).tricks == pre.p(0).tricks
    &&& post.p(1).tricks == pre.p(1).tricks
    &&& post.p(0).announcements == pre.p(0).announcements
    &&& post.p(1).announcements == pre.p(1).announcements
    &&& post.stack@.len() == 0
}

/// Which error a refused post-trick draw carries.
pub open spec fn draw_err(pre: SchnapsenDuo, player: usize, e: PlayerError) -> bool {
    if pre.active != Some(player) {
        e == PlayerError::CantTakeCardPlayerNotActive
    } else if pre.stack@.len() != 0 {
        e == PlayerError::CantTakeCardRoundNotFinished
    } else if pre.p(player as int).cards@.len() >= 5 {
        e == PlayerError::CantTakeCardHaveAlreadyFive
    } else if pre.trump is None && pre.deck@.len() == 0 {
        e == PlayerError::CantTakeCardDeckEmpty
    } else {
        e == PlayerError::TalonAlreadyClosed && pre.closed_talon is Some
    }
}

/// Which error a refused card play carries.
pub open spec fn play_card_err(pre: SchnapsenDuo, player: usize, card: Card, e: PlayerError)
    -> bool {
    if pre.active != Some(player) {
        e == PlayerError::PlayerNotActive
    } else {
        e == PlayerError::CantPlayCard(card) && !(pre.p(
            player as int,
        ).playable_cards@.contains(card) && pre.p(player as int).cards@.contains(card))
    }
}

/// How a successful lead relates the states before and after it: the
/// card moved from the hand to the stack, the other player holds the
/// turn with refreshed action sets, and the events record all of it.
pub open spec fn play_lead_post(
    pre: SchnapsenDuo,
    post: SchnapsenDuo,
    player: usize,
    card: Card,
) -> bool {
    let other = 1 - player as int;
    let sets = (
        ann_core(
            true,
            pre.p(other).cards@,
            pre.trump_suit(),
            pre.p(other).announcements@,
        ),
        swap_core(
            pre.stack@.push(card).len() == 0 && pre.closed_talon is None,
            pre.trump,
            pre.p(other).cards@,
        ),
        playable_core(
            pre.p(other).cards@,
            pre.stack@.push(card),
            pre.taken_trump is Some,
            pre.closed_talon is Some,
            pre.trump_suit(),
        ),
    );
    &&& post.events@ == pre.play_card_events(player, card, pre.events@)
    &&& post.stack@ == pre.stack@.push(card)
    &&& post.active == Some((1 - player) as usize)
    &&& post.p(player as int).cards@ == remove_first(pre.p(player as int).cards@, card)
    &&& post.p(player as int).playable_cards@ == remove_first(
        pre.p(player as int).playable_cards@,
        card,
    )
    &&& post.p(player as int).tricks == pre.p(player as int).tricks
    &&& post.p(player as int).announcements == pre.p(player as int).announcements
    &&& post.p(player as int).announcable == pre.p(player as int).announcable
    &&& post.p(player as int).possible_trump_swap == pre.p(player as int).possible_trump_swap
    &&& post.p(other).cards == pre.p(other).cards
    &&& post.p(other).tricks == pre.p(other).tricks
    &&& post.p(other).announcements == pre.p(other).announcements
    &&& post.p(other).announcable@ == sets.0
    &&& post.p(other).possible_trump_swap == sets.1
    &&& post.p(other).playable_cards@ == sets.2
    &&& post.p(0).points == pre.p(0).points
    &&& post.p(1).points == pre.p(1).points
    &&& post.p(0).id == pre.p(0).id
    &&& post.p(1).id == pre.p(1).id
    &&& post.deck == pre.deck
    &&& post.trump == pre.trump
    &&& post.taken_trump == pre.taken_trump
    &&& post.closed_talon == pre.closed_talon
}

/// How a successful response relates the states before and after it:
/// the trick went to its winner, and the round either continued with
/// the winner's refreshed sets or was settled.
pub open spec fn play_resp_post(
    pre: SchnapsenDuo,
    post: SchnapsenDuo,
    player: usize,
    card: Card,
) -> bool {
    let lead = pre.stack@[0];
    let w = spec_trick_winner(lead, card, pre.trump_suit(), player as int);
    &&& post.events@ == pre.play_card_events(player, card, pre.events@)
    &&& if pre.round_over_after_trick(player as int, card, w) {
        let s0 = pre.after_trick_score(0, w, card, lead);
        let s1 = pre.after_trick_score(1, w, card, lead);
        round_end_state(
            pre,
            post,
            round_winner_core(s0, s1, pre.closed_talon, w),
            round_bummerl_core(s0, s1),
        )
    } else {
        let hand_w = pre.hand_after_play(w, player as int, card);
        &&& post.stack@.len() == 0
        &&& post.active == Some(w as usize)
        &&& post.p(w).tricks@ == pre.p(w).tricks@.push([card, lead])
        &&& post.p(1 - w).tricks == pre.p(1 - w).tricks
        &&& post.p(player as int).cards@ == remove_first(pre.p(player as int).cards@, card)
        &&& post.p(1 - player as int).cards == pre.p(1 - player as int).cards
        &&& post.p(w).announcable@ == ann_core(
            true,
            hand_w,
            pre.trump_suit(),
            pre.p(w).announcements@,
        )
        &&& post.p(w).possible_trump_swap == swap_core(
            pre.closed_talon is None,
            pre.trump,
            hand_w,
        )
        &&& post.p(w).playable_cards@ == playable_core(
            hand_w,
            Seq::empty(),
            pre.taken_trump is Some,
            pre.closed_talon is Some,
            pre.trump_suit(),
        )
        &&& post.p(0).announcements == pre.p(0).announcements
        &&& post.p(1).announcements == pre.p(1).announcements
        &&& post.p(0).points == pre.p(0).points
        &&& post.p(1).points == pre.p(1).points
        &&& post.p(0).id == pre.p(0).id
        &&& post.p(1).id == pre.p(1).id
        &&& post.deck == pre.deck
        &&& post.trump == pre.trump
        &&& post.taken_trump == pre.taken_trump
        &&& post.closed_talon == pre.closed_talon
    }
}

/// A round score never exceeds 220: the tricks carry at most the 120
/// deck points and the announcements at most 100.
proof fn lemma_score_bound(s: SchnapsenDuo, i: int)
    requires
        s.wf(),
        0 <= i < 2,
    ensures
        0 <= player_score(s.p(i)) <= 220,
        pair_sum(s.p(i).tricks@) <= 120,
        ann_sum(s.p(i).announcements@) <= 100,
{
    lemma_card_sum_nonneg(s.p(0).cards@);
    lemma_card_sum_nonneg(s.p(1).cards@);
    lemma_card_sum_nonneg(s.deck@);
    lemma_card_sum_nonneg(s.stack@);
    lemma_pair_sum_bounds(s.p(0).tricks@);
    lemma_pair_sum_bounds(s.p(1).tricks@);
    assert(opt_card_points(s.trump) >= 0) by {
        match s.trump {
            Some(c) => {
                lemma_val_points_bounds(c.value);
            },
            None => {},
        }
    }
    lemma_ann_sum_nonneg(s.p(i).announcements@);
    match s.trump_suit() {
        Some(ts) => {
            lemma_ann_sum_bound(s.p(i).announcements@, ts);
        },
        None => {
            lemma_ann_sum_bound(s.p(i).announcements@, CardSuit::Hearts);
        },
    }
}

/// Announcement values are never negative.
proof fn lemma_ann_sum_nonneg(anns: Seq<Announcement>)
    ensures
        ann_sum(anns) >= 0,
    decreases anns.len(),
{
    if anns.len() > 0 {
        lemma_ann_sum_nonneg(anns.drop_last());
    }
}

/// Every card value is worth between two and eleven points.
proof fn lemma_val_points_bounds(v: CardVal)
    ensures
        2 <= val_points(v) <= 11,
{
}

/// One more playable card appends exactly one `CardPlayable` event.
proof fn lemma_playable_evts_push(player: usize, s: Seq<Card>, c: Card)
    ensures
        playable_evts(player, s.push(c)) == playable_evts(player, s).push(
            EngineEvent::Private(player, PrivateEvent::CardPlayable(c)),
        ),
{
    assert(s.push(c).drop_last() =~= s);
    assert(s.push(c).last() == c);
}

/// One more dropped card appends exactly one `CardNotPlayable` event.
proof fn lemma_not_playable_evts_push(player: usize, s: Seq<Card>, c: Card)
    ensures
        not_playable_evts(player, s.push(c)) == not_playable_evts(player, s).push(
            EngineEvent::Private(player, PrivateEvent::CardNotPlayable(c)),
        ),
{
    assert(s.push(c).drop_last() =~= s);
    assert(s.push(c).last() == c);
}

/// The full deck holds twenty distinct cards worth 120 points.
pub proof fn lemma_full_deck_facts()
    ensures
        full_deck().len() == 20,
        no_repeats(full_deck()),
        card_sum(full_deck()) == 120,
{
    reveal_with_fuel(card_sum, 21);
}

/// Two sequences with equal multisets carry the same card points.
pub proof fn lemma_card_sum_multiset(a: Seq<Card>, b: Seq<Card>)
    requires
        a.to_multiset() == b.to_multiset(),
    ensures
        card_sum(a) == card_sum(b),
    decreases a.len(),
{
    a.to_multiset_ensures();
    b.to_multiset_ensures();
    if a.len() == 0 {
        assert(b.to_multiset().len() == 0);
        assert(b.len() == 0);
    } else {
        let x = a.last();
        assert(a.to_multiset().count(x) > 0) by {
            assert(a.contains(x));
        }
        assert(b.to_multiset().count(x) > 0);
        assert(b.contains(x));
        let j = choose|j: int| 0 <= j < b.len() && b[j] == x;
        let b2 = b.remove(j);
        let a2 = a.drop_last();
        assert(a.to_multiset() =~= a2.to_multiset().insert(x)) by {
            assert(a =~= a2.push(x));
            a2.to_multiset_ensures();
        }
        assert(b2.to_multiset() =~= b.to_multiset().remove(x)) by {
            b.to_multiset_ensures();
        }
        assert(a2.to_multiset() =~= b2.to_multiset());
        lemma_card_sum_multiset(a2, b2);
        lemma_card_sum_remove(b, j);
    }
}

/// Removing a card takes exactly its points from the sum.
pub proof fn lemma_card_sum_remove(s: Seq<Card>, j: int)
    requires
        0 <= j < s.len(),
    ensures
        card_sum(s) == card_sum(s.remove(j)) + val_points(s[j].value),
    decreases s.len(),
{
    if j == s.len() - 1 {
        assert(s.remove(j) =~= s.drop_last());
    } else {
        assert(s.remove(j).drop_last() =~= s.drop_last().remove(j));
        assert(s.remove(j).last() == s.last());
        lemma_card_sum_remove(s.drop_last(), j);
    }
}

/// The card points of a concatenation split over its parts.
pub proof fn lemma_card_sum_concat(a: Seq<Card>, b: Seq<Card>)
    ensures
        card_sum(a + b) == card_sum(a) + card_sum(b),
    decreases b.len(),
{
    if b.len() == 0 {
        assert(a + b =~= a);
    } else {
        assert((a + b).drop_last() =~= a + b.drop_last());
        assert((a + b).last() == b.last());
        lemma_card_sum_concat(a, b.drop_last());
    }
}

/// Splitting a sequence at `k` splits its card points.
pub proof fn lemma_card_sum_split(s: Seq<Card>, k: int)
    requires
        0 <= k <= s.len(),
    ensures
        card_sum(s) == card_sum(s.take(k)) + card_sum(s.skip(k)),
{
    assert(s.take(k) + s.skip(k) =~= s);
    lemma_card_sum_concat(s.take(k), s.skip(k));
}

} // verus!

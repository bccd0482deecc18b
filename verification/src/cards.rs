//! Cards of the Schnapsen deck: four suits, five values, and marriage
//! announcements built from king/queen pairs.

use vstd::prelude::*;

verus! {

/// One of the four suits of the short Schnapsen deck.
#[derive(Clone, Copy, Debug, PartialEq, Eq, Structural, Hash)]
pub enum CardSuit {
    Hearts,
    Diamonds,
    Clubs,
    Spades,
}

/// One of the five card values of the short deck. The value doubles as
/// the trick-point weight of the card.
#[derive(Clone, Copy, Debug, PartialEq, Eq, Structural, Hash)]
pub enum CardVal {
    Ten,
    Jack,
    Queen,
    King,
    Ace,
}

/// Trick-point weight of a card value.
pub open spec fn val_points(v: CardVal) -> int {
    match v {
        CardVal::Ten => 10,
        CardVal::Jack => 2,
        CardVal::Queen => 3,
        CardVal::King => 4,
        CardVal::Ace => 11,
    }
}

impl CardVal {
    /// Trick-point weight of this value.
    pub fn points(&self) -> (r: u8)
        ensures
            r == val_points(*self),
    {
        match self {
            CardVal::Ten => 10,
            CardVal::Jack => 2,
            CardVal::Queen => 3,
            CardVal::King => 4,
            CardVal::Ace => 11,
        }
    }

    /// The value encoded by its point weight; any unknown number falls
    /// back to the ace, the default value of the wire encoding.
    pub fn from_u8(v: u8) -> (r: CardVal)
        ensures
            r == spec_val_from_u8(v),
    {
        match v {
            10 => CardVal::Ten,
            2 => CardVal::Jack,
            3 => CardVal::Queen,
            4 => CardVal::King,
            _ => CardVal::Ace,
        }
    }
}

/// Wire decoding of a card value: the point weight, unknown numbers
/// falling back to the ace.
pub open spec fn spec_val_from_u8(v: u8) -> CardVal {
    if v == 10 {
        CardVal::Ten
    } else if v == 2 {
        CardVal::Jack
    } else if v == 3 {
        CardVal::Queen
    } else if v == 4 {
        CardVal::King
    } else {
        CardVal::Ace
    }
}

/// Wire decoding of a suit: hearts, diamonds, clubs, spades in that
/// order, unknown numbers falling back to hearts.
pub open spec fn spec_suit_from_u8(s: u8) -> CardSuit {
    if s == 1 {
        CardSuit::Diamonds
    } else if s == 2 {
        CardSuit::Clubs
    } else if s == 3 {
        CardSuit::Spades
    } else {
        CardSuit::Hearts
    }
}

impl CardSuit {
    /// The suit encoded by its wire number; any unknown number falls
    /// back to hearts, the default suit of the wire encoding.
    pub fn from_u8(s: u8) -> (r: CardSuit)
        ensures
            r == spec_suit_from_u8(s),
    {
        match s {
            1 => CardSuit::Diamonds,
            2 => CardSuit::Clubs,
            3 => CardSuit::Spades,
            _ => CardSuit::Hearts,
        }
    }

    /// Wire number of this suit.
    pub fn to_u8(&self) -> (r: u8)
        ensures
            spec_suit_from_u8(r) == *self,
    {
        match self {
            CardSuit::Hearts => 0,
            CardSuit::Diamonds => 1,
            CardSuit::Clubs => 2,
            CardSuit::Spades => 3,
        }
    }
}

/// A playing card; equality is structural.
#[derive(Clone, Copy, Debug, PartialEq, Eq, Structural, Hash)]
pub struct Card {
    pub value: CardVal,
    pub suit: CardSuit,
}

impl Card {
    /// Trick-point weight of this card.
    pub fn points(&self) -> (r: u8)
        ensures
            r == val_points(self.value),
    {
        self.value.points()
    }
}

/// The kind of a marriage announcement, with its score value.
#[derive(Clone, Copy, Debug, PartialEq, Eq, Structural, Hash)]
pub enum AnnounceType {
    Forty,
    Twenty,
}

/// Score value of an announcement kind.
pub open spec fn announce_points(t: AnnounceType) -> int {
    match t {
        AnnounceType::Forty => 40,
        AnnounceType::Twenty => 20,
    }
}

/// A marriage announcement: a king/queen pair of one suit and its kind.
#[derive(Clone, Copy, Debug, PartialEq, Eq, Hash)]
pub struct Announcement {
    pub cards: [Card; 2],
    pub announce_type: AnnounceType,
}

impl AnnounceType {
    /// Score value of this announcement kind.
    pub fn points(&self) -> (r: u8)
        ensures
            r == announce_points(*self),
    {
        match self {
            AnnounceType::Forty => 40,
            AnnounceType::Twenty => 20,
        }
    }
}

/// Two pairs hold the same two cards, in either order.
pub open spec fn same_pair(a: [Card; 2], b: [Card; 2]) -> bool {
    (a[0] == b[0] && a[1] == b[1]) || (a[0] == b[1] && a[1] == b[0])
}

/// Whether `data` holds the unordered pair `check`.
///
/// The original records announced pairs in play order, so membership is
/// decided up to reordering of the two cards.
pub fn contains_card_comb(data: &[[Card; 2]], check: [Card; 2]) -> (r: bool)
    ensures
        r == exists|i: int| 0 <= i < data@.len() && same_pair(data@[i], check),
{
    let mut k: usize = 0;
    while k < data.len()
        invariant
            k <= data@.len(),
            forall|i: int| 0 <= i < k ==> !same_pair(data@[i], check),
        decreases data@.len() - k,
    {
        let pair = data[k];
        if (pair[0] == check[0] && pair[1] == check[1]) || (pair[0] == check[1] && pair[1]
            == check[0]) {
            assert(same_pair(data@[k as int], check));
            return true;
        }
        k += 1;
    }
    false
}

/// Two announcements name the same claim: same kind and same suit of
/// the leading card.
pub open spec fn matches_announcement(proposed: Announcement, check: Announcement) -> bool {
    proposed.announce_type == check.announce_type && proposed.cards[0].suit == check.cards[0].suit
}

/// Whether `data` already holds an announcement of the same kind and
/// suit as `check`.
pub fn has_announcable(data: &[Announcement], check: &Announcement) -> (r: bool)
    ensures
        r == exists|i: int| 0 <= i < data@.len() && matches_announcement(data@[i], *check),
{
    let mut k: usize = 0;
    while k < data.len()
        invariant
            k <= data@.len(),
            forall|i: int| 0 <= i < k ==> !matches_announcement(data@[i], *check),
        decreases data@.len() - k,
    {
        let proposed = data[k];
        if proposed.announce_type == check.announce_type && proposed.cards[0].suit
            == check.cards[0].suit {
            assert(matches_announcement(data@[k as int], *check));
            return true;
        }
        k += 1;
    }
    false
}

/// The full Schnapsen deck in construction order: for each suit the
/// ten, ace, jack, queen and king.
pub open spec fn full_deck() -> Seq<Card> {
    seq![
        Card { value: CardVal::Ten, suit: CardSuit::Hearts },
        Card { value: CardVal::Ace, suit: CardSuit::Hearts },
        Card { value: CardVal::Jack, suit: CardSuit::Hearts },
        Card { value: CardVal::Queen, suit: CardSuit::Hearts },
        Card { value: CardVal::King, suit: CardSuit::Hearts },
        Card { value: CardVal::Ten, suit: CardSuit::Diamonds },
        Card { value: CardVal::Ace, suit: CardSuit::Diamonds },
        Card { value: CardVal::Jack, suit: CardSuit::Diamonds },
        Card { value: CardVal::Queen, suit: CardSuit::Diamonds },
        Card { value: CardVal::King, suit: CardSuit::Diamonds },
        Card { value: CardVal::Ten, suit: CardSuit::Clubs },
        Card { value: CardVal::Ace, suit: CardSuit::Clubs },
        Card { value: CardVal::Jack, suit: CardSuit::Clubs },
        Card { value: CardVal::Queen, suit: CardSuit::Clubs },
        Card { value: CardVal::King, suit: CardSuit::Clubs },
        Card { value: CardVal::Ten, suit: CardSuit::Spades },
        Card { value: CardVal::Ace, suit: CardSuit::Spades },
        Card { value: CardVal::Jack, suit: CardSuit::Spades },
        Card { value: CardVal::Queen, suit: CardSuit::Spades },
        Card { value: CardVal::King, suit: CardSuit::Spades },
    ]
}

/// A sequence holds no card twice.
pub open spec fn no_repeats(s: Seq<Card>) -> bool {
    forall|i: int, j: int| 0 <= i < j < s.len() ==> s[i] != s[j]
}

/// Whether the given cards are pairwise distinct.
pub fn has_no_repeating_elements(cards: &Vec<Card>) -> (r: bool)
    ensures
        r == no_repeats(cards@),
{
    let mut k: usize = 0;
    while k < cards.len()
        invariant
            k <= cards@.len(),
            forall|i: int, j: int| 0 <= i < j < k ==> cards@[i] != cards@[j],
        decreases cards@.len() - k,
    {
        let mut j: usize = 0;
        while j < k
            invariant
                j <= k < cards@.len(),
                forall|i: int| 0 <= i < j ==> cards@[i] != cards@[k as int],
            decreases k - j,
        {
            if cards[j] == cards[k] {
                assert(!no_repeats(cards@));
                return false;
            }
            j += 1;
        }
        k += 1;
    }
    true
}

} // verus!

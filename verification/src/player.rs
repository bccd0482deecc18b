//! Per-player state: the hand, won tricks, announcements, the derived
//! action sets, and the cumulative match score.

use vstd::prelude::*;
use crate::cards::{self, Announcement, Card, same_pair, matches_announcement};

verus! {

/// One player of the match. The per-round fields are cleared by
/// [`Player::reset`]; the cumulative `points` survive round breaks.
#[derive(Clone, Debug)]
pub struct Player {
    pub id: String,
    pub cards: Vec<Card>,
    pub playable_cards: Vec<Card>,
    pub tricks: Vec<[Card; 2]>,
    pub announcements: Vec<Announcement>,
    pub announcable: Vec<Announcement>,
    pub possible_trump_swap: Option<Card>,
    pub points: u8,
}

impl Player {
    /// A fresh player with the given id, an empty hand and no points.
    pub fn new(id: String) -> (p: Player)
        ensures
            p.id == id,
            p.cards@ == Seq::<Card>::empty(),
            p.playable_cards@ == Seq::<Card>::empty(),
            p.tricks@ == Seq::<[Card; 2]>::empty(),
            p.announcements@ == Seq::<Announcement>::empty(),
            p.announcable@ == Seq::<Announcement>::empty(),
            p.possible_trump_swap is None,
            p.points == 0,
    {
        Player {
            id,
            cards: Vec::new(),
            playable_cards: Vec::new(),
            tricks: Vec::new(),
            announcements: Vec::new(),
            announcable: Vec::new(),
            possible_trump_swap: None,
            points: 0,
        }
    }

    /// Clears the per-round state (hand, derived sets, tricks and
    /// announcements) while keeping the id and the cumulative points.
    pub fn reset(&mut self)
        ensures
            final(self).cards@ == Seq::<Card>::empty(),
            final(self).playable_cards@ == Seq::<Card>::empty(),
            final(self).tricks@ == Seq::<[Card; 2]>::empty(),
            final(self).announcements@ == Seq::<Announcement>::empty(),
            final(self).announcable@ == Seq::<Announcement>::empty(),
            final(self).possible_trump_swap is None,
            final(self).id == old(self).id,
            final(self).points == old(self).points,
    {
        self.cards.clear();
        self.playable_cards.clear();
        self.tricks.clear();
        self.announcements.clear();
        self.announcable.clear();
        self.possible_trump_swap = None;
    }

    /// Whether this player has already announced the given pair of
    /// cards, in either order.
    pub fn has_announced(&self, cards: [Card; 2]) -> (r: bool)
        ensures
            r == exists|i: int|
                0 <= i < self.announcements@.len() && same_pair(
                    self.announcements@[i].cards,
                    cards,
                ),
    {
        let mut k: usize = 0;
        while k < self.announcements.len()
            invariant
                k <= self.announcements@.len(),
                forall|i: int| 0 <= i < k ==> !same_pair(self.announcements@[i].cards, cards),
            decreases self.announcements@.len() - k,
        {
            let pair = self.announcements[k].cards;
            if (pair[0] == cards[0] && pair[1] == cards[1]) || (pair[0] == cards[1] && pair[1]
                == cards[0]) {
                assert(same_pair(self.announcements@[k as int].cards, cards));
                return true;
            }
            k += 1;
        }
        false
    }

    /// Whether the currently announcable set already holds an
    /// announcement of the same kind and suit.
    pub fn has_announcable(&self, announcement: &Announcement) -> (r: bool)
        ensures
            r == exists|i: int|
                0 <= i < self.announcable@.len() && matches_announcement(
                    self.announcable@[i],
                    *announcement,
                ),
    {
        cards::has_announcable(self.announcable.as_slice(), announcement)
    }
}

} // verus!

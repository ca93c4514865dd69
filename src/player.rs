//! Players: an identifier, a hand of red cards and a score.

use crate::cards::RedCard;
use vstd::prelude::*;

verus! {

/// A player's identifier.
#[derive(Debug, Clone, Copy, PartialEq, Eq, Hash, PartialOrd, Structural)]
pub struct PlayerId(pub usize);

/// The red cards a player holds, in the order they were dealt.
#[derive(Debug, Clone)]
pub struct PlayerHand {
    cards: Vec<RedCard>,
}

impl View for PlayerHand {
    type V = Seq<RedCard>;

    closed spec fn view(&self) -> Seq<RedCard> {
        self.cards@
    }
}

impl PlayerHand {
    /// An empty hand.
    pub fn new() -> (r: PlayerHand)
        ensures
            r@ == Seq::<RedCard>::empty(),
    {
        PlayerHand { cards: Vec::new() }
    }

    /// Adds a card at the end of the hand.
    pub fn add_card(&mut self, card: RedCard)
        ensures
            final(self)@ == old(self)@.push(card),
    {
        self.cards.push(card);
    }

    /// Removes the card at `index`, or returns `None` if there is none.
    pub fn remove_card(&mut self, index: usize) -> (r: Option<RedCard>)
        ensures
            index < old(self)@.len() ==> r == Some(old(self)@[index as int]) && final(self)@
                == old(self)@.remove(index as int),
            index >= old(self)@.len() ==> r is None && final(self)@ == old(self)@,
    {
        if index < self.cards.len() {
            Some(self.cards.remove(index))
        } else {
            None
        }
    }

    /// The cards in the hand.
    pub fn get_cards(&self) -> (r: &[RedCard])
        ensures
            r@ == self@,
    {
        self.cards.as_slice()
    }

    /// Number of cards in the hand.
    pub fn len(&self) -> (r: usize)
        ensures
            r == self@.len(),
    {
        self.cards.len()
    }
}

/// What every player has: an identifier, a hand and a score.
pub struct BasePlayer {
    pub id: PlayerId,
    pub hand: PlayerHand,
    pub score: usize,
}

impl BasePlayer {
    /// A player with an empty hand and no points.
    pub fn new(id: PlayerId) -> (r: BasePlayer)
        ensures
            r.id == id,
            r.hand@ == Seq::<RedCard>::empty(),
            r.score == 0,
    {
        BasePlayer { id, hand: PlayerHand::new(), score: 0 }
    }
}

} // verus!

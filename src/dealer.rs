//! The host's two decks and the dealing rules.

use crate::cards::{Card, GreenCard, RedCard};
use crate::deck::Deck;
use vstd::prelude::*;

verus! {

/// Why a deal could not be made.
#[derive(Debug, Clone, Copy, PartialEq, Eq, Structural)]
pub enum DealError {
    /// The deck holds fewer cards than requested; the ones it held were drawn.
    OutOfCards { requested: usize, available: usize },
    /// The deck is empty.
    EmptyDeck,
    /// A deal of this many cards is not a deal.
    InvalidAmount { amount: usize },
}

/// A green deck and a red deck.
pub struct DeckHandler {
    red_deck: Deck<RedCard>,
    green_deck: Deck<GreenCard>,
}

impl DeckHandler {
    /// The red deck's cards.
    pub closed spec fn red(&self) -> Seq<RedCard> {
        self.red_deck@
    }

    /// The green deck's cards.
    pub closed spec fn green(&self) -> Seq<GreenCard> {
        self.green_deck@
    }

    /// Two empty decks.
    pub fn new() -> (r: DeckHandler)
        ensures
            r.red() == Seq::<RedCard>::empty(),
            r.green() == Seq::<GreenCard>::empty(),
    {
        DeckHandler { red_deck: Deck::new(), green_deck: Deck::new() }
    }

    /// Puts a red card on top of the red deck.
    pub fn insert_red_card(&mut self, card: RedCard)
        ensures
            final(self).red() == old(self).red().push(card),
            final(self).green() == old(self).green(),
    {
        self.red_deck.add_card(card);
    }

    /// Puts a green card on top of the green deck.
    pub fn insert_green_card(&mut self, card: GreenCard)
        ensures
            final(self).green() == old(self).green().push(card),
            final(self).red() == old(self).red(),
    {
        self.green_deck.add_card(card);
    }

    /// Draws the top green card, if any.
    pub fn get_green_card(&mut self) -> (r: Option<GreenCard>)
        ensures
            old(self).green().len() > 0 ==> r == Some(old(self).green().last())
                && final(self).green() == old(self).green().drop_last(),
            old(self).green().len() == 0 ==> r is None && final(self).green() == old(
                self,
            ).green(),
            final(self).red() == old(self).red(),
    {
        self.green_deck.draw_card()
    }

    /// Draws the top red card, if any.
    pub fn get_red_card(&mut self) -> (r: Option<RedCard>)
        ensures
            old(self).red().len() > 0 ==> r == Some(old(self).red().last()) && final(self).red()
                == old(self).red().drop_last(),
            old(self).red().len() == 0 ==> r is None && final(self).red() == old(self).red(),
            final(self).green() == old(self).green(),
    {
        self.red_deck.draw_card()
    }

    /// Shuffles both decks.
    pub fn shuffle(&mut self)
        ensures
            final(self).red().to_multiset() == old(self).red().to_multiset(),
            final(self).green().to_multiset() == old(self).green().to_multiset(),
    {
        self.red_deck.shuffle();
        self.green_deck.shuffle();
    }

    /// Puts loaded decks on top of the current ones.
    pub fn load_decks(&mut self, red_deck: Deck<RedCard>, green_deck: Deck<GreenCard>)
        ensures
            final(self).red() == old(self).red() + red_deck@,
            final(self).green() == old(self).green() + green_deck@,
    {
        self.red_deck.extend(red_deck);
        self.green_deck.extend(green_deck);
    }

    /// Number of cards in the green deck.
    pub fn green_card_deck_size(&self) -> (r: usize)
        ensures
            r == self.green().len(),
    {
        self.green_deck.deck_size()
    }

    /// Number of cards in the red deck.
    pub fn red_card_deck_size(&self) -> (r: usize)
        ensures
            r == self.red().len(),
    {
        self.red_deck.deck_size()
    }
}

/// The cards a deal of `amount` from the top of `d` hands out, top first.
pub open spec fn top_cards<T>(d: Seq<T>, amount: nat) -> Seq<T> {
    Seq::new(amount, |i: int| d[d.len() - 1 - i])
}

/// `r` and the deck's new contents `e` are what dealing `amount` cards from
/// a deck `d` gives: the top `amount` cards, top first, or `OutOfCards` with
/// the deck drawn empty when it holds fewer.
pub open spec fn dealt<T>(amount: usize, d: Seq<T>, r: Result<Vec<T>, DealError>, e: Seq<T>) -> bool {
    if amount == 0 {
        r == Err::<Vec<T>, DealError>(DealError::InvalidAmount { amount }) && e == d
    } else if d.len() < amount {
        r == Err::<Vec<T>, DealError>(DealError::OutOfCards { requested: amount, available: d.len() as usize })
            && e == Seq::<T>::empty()
    } else {
        r matches Ok(v) && v@ == top_cards(d, amount as nat) && e == d.subrange(
            0,
            d.len() - amount,
        )
    }
}

/// The dealer's state: the decks it deals from.
pub struct DealerState {
    pub deck_handler: DeckHandler,
}

impl DealerState {
    /// Draws up to `amount` cards from the top of `deck`, stopping when it
    /// runs out.
    fn deal_cards<T: Card>(amount: usize, deck: &mut Deck<T>) -> (r: Result<Vec<T>, DealError>)
        ensures
            dealt(amount, old(deck)@, r, final(deck)@),
    {
        if amount == 0 {
            return Err(DealError::InvalidAmount { amount });
        }
        let ghost d = deck@;
        let mut cards: Vec<T> = Vec::new();
        let mut stopped = false;
        while !stopped && cards.len() < amount
            invariant
                cards@.len() <= amount,
                cards@.len() <= d.len(),
                cards@ == top_cards(d, cards@.len()),
                deck@ == d.subrange(0, d.len() - cards@.len()),
                stopped ==> cards@.len() == d.len(),
            decreases amount - cards@.len() + (if stopped { 0int } else { 1int }),
        {
            match deck.draw_card() {
                Some(card) => {
                    cards.push(card);
                    assert(cards@ =~= top_cards(d, cards@.len()));
                    assert(deck@ =~= d.subrange(0, d.len() - cards@.len()));
                },
                None => {
                    stopped = true;
                },
            }
        }
        if cards.len() < amount {
            assert(deck@ =~= Seq::<T>::empty());
            Err(DealError::OutOfCards { requested: amount, available: cards.len() })
        } else {
            Ok(cards)
        }
    }

    /// Deals `amount` green cards.
    pub fn deal_green_cards(&mut self, amount: usize) -> (r: Result<Vec<GreenCard>, DealError>)
        ensures
            dealt(amount, old(self).deck_handler.green(), r, final(self).deck_handler.green()),
            final(self).deck_handler.red() == old(self).deck_handler.red(),
    {
        Self::deal_cards(amount, &mut self.deck_handler.green_deck)
    }

    /// Deals `amount` red cards.
    pub fn deal_red_cards(&mut self, amount: usize) -> (r: Result<Vec<RedCard>, DealError>)
        ensures
            dealt(amount, old(self).deck_handler.red(), r, final(self).deck_handler.red()),
            final(self).deck_handler.green() == old(self).deck_handler.green(),
    {
        Self::deal_cards(amount, &mut self.deck_handler.red_deck)
    }

    /// Sizes of the red and the green deck, in that order.
    pub fn deck_sizes(&self) -> (r: (usize, usize))
        ensures
            r == (self.deck_handler.red().len() as usize, self.deck_handler.green().len() as usize),
    {
        (self.deck_handler.red_card_deck_size(), self.deck_handler.green_card_deck_size())
    }
}

} // verus!

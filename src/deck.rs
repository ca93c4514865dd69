//! A deck: an ordered pile of cards drawn from the top (the end).

use crate::cards::{Card, CardView};
use vstd::multiset::Multiset;
use vstd::prelude::*;
use vstd::seq_lib::{
    lemma_multiset_commutative, to_multiset_build, to_multiset_contains, to_multiset_len,
    to_multiset_remove,
};

verus! {

broadcast use vstd::seq_lib::group_to_multiset_ensures, vstd::multiset::group_multiset_axioms;

/// What each card of `s` is.
pub open spec fn card_views<T: Card>(s: Seq<T>) -> Seq<CardView> {
    s.map_values(|c: T| c@)
}

/// Relies on rand's `SliceRandom::shuffle` with the thread-local generator,
/// which only swaps elements: the order is random, the cards are the same.
#[verifier::external_body]
fn shuffle_in_place<T>(v: &mut Vec<T>)
    ensures
        final(v)@.to_multiset() == old(v)@.to_multiset(),
{
    let mut rng = rand::thread_rng();
    rand::seq::SliceRandom::shuffle(v.as_mut_slice(), &mut rng);
}

/// Whether two cards are the same card.
fn same_card<T: Card>(a: &T, b: &T) -> (r: bool)
    ensures
        r == (a@ == b@),
{
    let same_id = a.id().value() == b.id().value();
    let same_name = a.name().to_owned() == b.name().to_owned();
    let same_description = a.description().to_owned() == b.description().to_owned();
    same_id && same_name && same_description
}

/// An ordered pile of cards; the top is the end of the sequence.
#[derive(Debug)]
pub struct Deck<T: Card> {
    cards: Vec<T>,
}

impl<T: Card> View for Deck<T> {
    type V = Seq<T>;

    closed spec fn view(&self) -> Seq<T> {
        self.cards@
    }
}

impl<T: Card> Default for Deck<T> {
    fn default() -> (r: Deck<T>)
        ensures
            r@ == Seq::<T>::empty(),
    {
        Self::new()
    }
}

impl<T: Card> Deck<T> {
    /// An empty deck.
    pub fn new() -> (r: Deck<T>)
        ensures
            r@ == Seq::<T>::empty(),
    {
        Deck { cards: Vec::new() }
    }

    /// Puts the cards in a random order.
    pub fn shuffle(&mut self)
        ensures
            final(self)@.to_multiset() == old(self)@.to_multiset(),
    {
        shuffle_in_place(&mut self.cards);
    }

    /// Removes the card at `index`, or returns `None` if there is none.
    pub fn draw_index(&mut self, index: usize) -> (r: Option<T>)
        ensures
            index < old(self)@.len() ==> r == Some(old(self)@[index as int]) && final(self)@
                == old(self)@.remove(index as int),
            index >= old(self)@.len() ==> r is None && final(self)@ == old(self)@,
    {
        if index < self.cards.len() {
            Some(self.cards.remove(index))
        } else {
            None
        }
    }

    /// Draws the top card, if any.
    pub fn draw_card(&mut self) -> (r: Option<T>)
        ensures
            old(self)@.len() > 0 ==> r == Some(old(self)@.last()) && final(self)@ == old(
                self,
            )@.drop_last(),
            old(self)@.len() == 0 ==> r is None && final(self)@ == old(self)@,
    {
        self.cards.pop()
    }

    /// Puts a card on top.
    pub fn add_card(&mut self, card: T)
        ensures
            final(self)@ == old(self)@.push(card),
    {
        self.cards.push(card)
    }

    /// Number of cards left.
    pub fn deck_size(&self) -> (r: usize)
        ensures
            r == self@.len(),
    {
        self.cards.len()
    }

    /// Whether `other` holds the same cards as this deck, each as often, but
    /// in another order.
    pub fn is_permutation(&self, other: &Deck<T>) -> (r: bool)
        ensures
            r == (card_views(self@).to_multiset() == card_views(other@).to_multiset()
                && card_views(self@) != card_views(other@)),
    {
        let ghost a = card_views(self.cards@);
        let ghost b = card_views(other.cards@);
        let n = self.cards.len();
        if n != other.cards.len() {
            proof {
                to_multiset_len(a);
                to_multiset_len(b);
            }
            return false;
        }
        let mut rem: Vec<usize> = Vec::new();
        let mut k: usize = 0;
        while k < n
            invariant
                k <= n,
                rem@ == Seq::new(k as nat, |q: int| q as usize),
            decreases n - k,
        {
            rem.push(k);
            k += 1;
            assert(rem@ =~= Seq::new(k as nat, |q: int| q as usize));
        }
        assert(rem@.map_values(|q: usize| b[q as int]) =~= b);
        assert(a.subrange(0, 0) =~= Seq::<CardView>::empty());
        assert(a.subrange(0, 0).to_multiset() =~= Multiset::<CardView>::empty());
        let mut i: usize = 0;
        while i < n
            invariant
                n == self.cards@.len(),
                n == other.cards@.len(),
                a == card_views(self.cards@),
                b == card_views(other.cards@),
                i <= n,
                rem@.len() == n - i,
                forall|q: int| 0 <= q < rem@.len() ==> rem@[q] < n,
                a.subrange(0, i as int).to_multiset().add(
                    rem@.map_values(|q: usize| b[q as int]).to_multiset(),
                ) == b.to_multiset(),
            decreases n - i,
        {
            let ghost rv = rem@.map_values(|q: usize| b[q as int]);
            let mut j: usize = 0;
            let mut found: bool = false;
            while !found && j < rem.len()
                invariant
                    n == self.cards@.len(),
                    n == other.cards@.len(),
                    a == card_views(self.cards@),
                    b == card_views(other.cards@),
                    i < n,
                    forall|q: int| 0 <= q < rem@.len() ==> rem@[q] < n,
                    j <= rem@.len(),
                    found ==> j < rem@.len() && b[rem@[j as int] as int] == a[i as int],
                    !found ==> forall|q: int| 0 <= q < j ==> b[rem@[q] as int] != a[i as int],
                decreases rem@.len() - j + (if found { 0int } else { 1int }),
            {
                if same_card(&self.cards[i], &other.cards[rem[j]]) {
                    found = true;
                } else {
                    j += 1;
                }
            }
            let ghost x = a[i as int];
            let ghost pre = a.subrange(0, i as int);
            proof {
                assert(a.subrange(0, i as int + 1) =~= pre.push(x));
                to_multiset_build(pre, x);
            }
            if !found {
                proof {
                    assert(!rv.contains(x));
                    to_multiset_contains(rv, x);
                    let post = a.subrange(i as int + 1, n as int);
                    assert(a =~= pre.push(x) + post);
                    lemma_multiset_commutative(pre.push(x), post);
                    assert(a.to_multiset().count(x) > b.to_multiset().count(x));
                }
                return false;
            }
            proof {
                assert(rem@.remove(j as int).map_values(|q: usize| b[q as int]) =~= rv.remove(
                    j as int,
                ));
                to_multiset_remove(rv, j as int);
                to_multiset_contains(rv, x);
                assert(rv[j as int] == x);
                assert(pre.to_multiset().insert(x).add(rv.to_multiset().remove(x)) =~= pre.to_multiset().add(rv.to_multiset()));
            }
            rem.remove(j);
            i += 1;
        }
        assert(a.subrange(0, n as int) =~= a);
        assert(rem@.map_values(|q: usize| b[q as int]) =~= Seq::<CardView>::empty());
        assert(Seq::<CardView>::empty().to_multiset() =~= Multiset::<CardView>::empty());
        assert(a.to_multiset() =~= b.to_multiset());
        let mut d: usize = 0;
        let mut differ: bool = false;
        while !differ && d < n
            invariant
                n == self.cards@.len(),
                n == other.cards@.len(),
                a == card_views(self.cards@),
                b == card_views(other.cards@),
                d <= n,
                !differ ==> forall|q: int| 0 <= q < d ==> a[q] == b[q],
                differ ==> d < n && a[d as int] != b[d as int],
            decreases n - d + (if differ { 0int } else { 1int }),
        {
            if same_card(&self.cards[d], &other.cards[d]) {
                d += 1;
            } else {
                differ = true;
            }
        }
        if !differ {
            assert(a =~= b);
        }
        differ
    }

    /// A copy of the cards, in order.
    pub fn get_cards(&self) -> (r: Vec<T>)
        ensures
            card_views(r@) == card_views(self@),
    {
        let r = self.cards.clone();
        proof {
            assert forall|q: int| 0 <= q < r@.len() implies r@[q]@ == self.cards@[q]@ by {
                T::lemma_clone_same(self.cards@[q], r@[q]);
            }
            assert(card_views(r@) =~= card_views(self.cards@));
        }
        r
    }

    /// Puts all cards of `deck` on top, keeping their order.
    pub fn extend(&mut self, deck: Deck<T>)
        ensures
            final(self)@ == old(self)@ + deck@,
    {
        let mut more = deck.cards;
        self.cards.append(&mut more);
    }
}

} // verus!

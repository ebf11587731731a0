use vstd::prelude::*;

use crate::card::Card;
use crate::card::Suit;

verus! {

/// One foundation: the ascending per-suit stack, Ace at the bottom.
pub struct Foundation {
    pub suit: Suit,
    pub cards: Vec<Card>,
}

impl View for Foundation {
    type V = Seq<Card>;

    open spec fn view(&self) -> Seq<Card> {
        self.cards@
    }
}

/// The foundation invariant: the cards are exactly Ace up to the current
/// top, all of the foundation's own suit, all face-up.
pub open spec fn foundation_ok(f: Foundation) -> bool {
    forall|i: int|
        0 <= i < f@.len() ==> (#[trigger] f@[i]).suit == f.suit && f@[i].value.rank_spec() == i + 1
            && f@[i].face_up
}

impl Foundation {
    pub fn new(suit: Suit) -> (f: Foundation)
        ensures
            f.suit == suit,
            f@ == Seq::<Card>::empty(),
    {
        Foundation { suit, cards: Vec::new() }
    }

    pub fn size(&self) -> (n: usize)
        ensures
            n == self@.len(),
    {
        self.cards.len()
    }

    pub fn get_top(&self) -> (r: Option<Card>)
        ensures
            r == (if self@.len() == 0 {
                Option::<Card>::None
            } else {
                Option::Some(self@.last())
            }),
    {
        if self.cards.len() == 0 {
            None
        } else {
            Some(self.cards[self.cards.len() - 1])
        }
    }

    /// The acceptance rule: the card's suit must be the foundation's, and
    /// its rank one above the current top (an Ace on an empty foundation).
    pub open spec fn can_add_spec(self, c: Card) -> bool {
        &&& c.suit == self.suit
        &&& if self@.len() == 0 {
            c.value.rank_spec() == 1
        } else {
            c.value.rank_spec() == self@.last().value.rank_spec() + 1
        }
    }

    pub fn can_add(&self, c: &Card) -> (r: bool)
        ensures
            r == self.can_add_spec(*c),
    {
        if !(c.suit == self.suit) {
            false
        } else if self.cards.len() == 0 {
            c.value.rank() == 1
        } else {
            c.value.rank() == self.cards[self.cards.len() - 1].value.rank() + 1
        }
    }

    /// Pushes a card; the caller must have validated acceptance.
    pub fn add(&mut self, c: Card)
        requires
            old(self).can_add_spec(c),
        ensures
            final(self)@ == old(self)@.push(c),
            final(self).suit == old(self).suit,
    {
        self.cards.push(c);
    }

    /// Pops the top card to return it to play; fails on an empty foundation.
    pub fn take(&mut self) -> (r: Option<Card>)
        ensures
            final(self).suit == old(self).suit,
            old(self)@.len() == 0 ==> r is None && final(self)@ == old(self)@,
            old(self)@.len() > 0 ==> r == Some(old(self)@.last()) && final(self)@ == old(
                self,
            )@.drop_last(),
    {
        self.cards.pop()
    }

    /// A foundation is full once it holds all thirteen cards of its suit.
    pub fn is_full(&self) -> (r: bool)
        ensures
            r == (self@.len() == 13),
    {
        self.cards.len() == 13
    }
}

} // verus!

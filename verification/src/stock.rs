use vstd::prelude::*;

use crate::card::Card;

verus! {

/// The stock: the undealt cards, drawn from the top one at a time. The top
/// of the stock is the last element of the sequence.
pub struct Stock {
    pub cards: Vec<Card>,
}

impl View for Stock {
    type V = Seq<Card>;

    open spec fn view(&self) -> Seq<Card> {
        self.cards@
    }
}

impl Stock {
    pub fn new(cards: Vec<Card>) -> (s: Stock)
        ensures
            s@ == cards@,
    {
        Stock { cards }
    }

    pub fn is_empty(&self) -> (r: bool)
        ensures
            r == (self@.len() == 0),
    {
        self.cards.len() == 0
    }

    pub fn size(&self) -> (n: usize)
        ensures
            n == self@.len(),
    {
        self.cards.len()
    }

    /// Removes up to `n` cards from the top, topmost first in the result;
    /// yields nothing when the stock is already empty.
    pub fn take(&mut self, n: usize) -> (r: Option<Vec<Card>>)
        ensures
            old(self)@.len() == 0 ==> r is None && final(self)@ == old(self)@,
            old(self)@.len() > 0 ==> {
                let k = if n <= old(self)@.len() {
                    n as int
                } else {
                    old(self)@.len() as int
                };
                &&& r matches Some(taken) && taken@ == old(self)@.subrange(
                    old(self)@.len() - k,
                    old(self)@.len() as int,
                ).reverse()
                &&& final(self)@ == old(self)@.subrange(0, old(self)@.len() - k)
            },
    {
        if self.cards.len() == 0 {
            return None;
        }
        let ghost orig = self@;
        let mut out: Vec<Card> = Vec::new();
        let mut i: usize = 0;
        while i < n && self.cards.len() > 0
            invariant
                i <= n,
                i <= orig.len(),
                self.cards@ == orig.subrange(0, orig.len() - i),
                out@ == orig.subrange(orig.len() - i, orig.len() as int).reverse(),
            decreases n - i,
        {
            let c = self.cards.pop().unwrap();
            out.push(c);
            i = i + 1;
            proof {
                assert(self.cards@ =~= orig.subrange(0, orig.len() - i));
                assert(out@ =~= orig.subrange(orig.len() - i, orig.len() as int).reverse());
            }
        }
        Some(out)
    }

    /// Replaces the stock with the given cards in reverse order, so that the
    /// first of them becomes the new top: recycling the waste preserves the
    /// draw cycle.
    pub fn refresh(&mut self, cards: Vec<Card>)
        ensures
            final(self)@ == cards@.reverse(),
    {
        let ghost orig = cards@;
        let mut rest = cards;
        let mut out: Vec<Card> = Vec::new();
        while rest.len() > 0
            invariant
                rest@.len() <= orig.len(),
                rest@ == orig.subrange(0, rest@.len() as int),
                out@ == orig.subrange(rest@.len() as int, orig.len() as int).reverse(),
            decreases rest@.len(),
        {
            let c = rest.pop().unwrap();
            out.push(c);
            proof {
                assert(rest@ =~= orig.subrange(0, rest@.len() as int));
                assert(out@ =~= orig.subrange(rest@.len() as int, orig.len() as int).reverse());
            }
        }
        proof {
            assert(out@ =~= orig.reverse());
        }
        self.cards = out;
    }
}

} // verus!

use vstd::prelude::*;

use crate::card::Card;

verus! {

/// The waste: cards drawn from the stock, most recent on top. The top of
/// the waste is the last element of the sequence. Every card put here is
/// turned face-up, and only the top card is playable.
pub struct Waste {
    pub cards: Vec<Card>,
}

impl View for Waste {
    type V = Seq<Card>;

    open spec fn view(&self) -> Seq<Card> {
        self.cards@
    }
}

impl Waste {
    pub fn new() -> (w: Waste)
        ensures
            w@ == Seq::<Card>::empty(),
    {
        Waste { cards: Vec::new() }
    }

    pub fn size(&self) -> (n: usize)
        ensures
            n == self@.len(),
    {
        self.cards.len()
    }

    pub fn is_empty(&self) -> (r: bool)
        ensures
            r == (self@.len() == 0),
    {
        self.cards.len() == 0
    }

    /// Pushes the drawn cards on top in the order given, each face-up.
    pub fn put(&mut self, cards: Vec<Card>)
        ensures
            final(self)@ == old(self)@ + cards@.map_values(|c: Card| c.faced_up_spec()),
    {
        let ghost orig = self@;
        let mut i: usize = 0;
        while i < cards.len()
            invariant
                i <= cards@.len(),
                self.cards@ == orig + cards@.subrange(0, i as int).map_values(
                    |c: Card| c.faced_up_spec(),
                ),
            decreases cards@.len() - i,
        {
            self.cards.push(cards[i].faced_up());
            i = i + 1;
            proof {
                assert(self.cards@ =~= orig + cards@.subrange(0, i as int).map_values(
                    |c: Card| c.faced_up_spec(),
                ));
            }
        }
        proof {
            assert(cards@.subrange(0, cards@.len() as int) =~= cards@);
        }
    }

    /// Pops the top card, the only playable one; fails on an empty waste.
    pub fn take(&mut self) -> (r: Option<Card>)
        ensures
            old(self)@.len() == 0 ==> r is None && final(self)@ == old(self)@,
            old(self)@.len() > 0 ==> r == Some(old(self)@.last()) && final(self)@ == old(
                self,
            )@.drop_last(),
    {
        self.cards.pop()
    }

    pub fn get_top(&self) -> (r: Option<Card>)
        ensures
            r == (if self@.len() == 0 {
                Option::<Card>::None
            } else {
                Option::Some(self@.last())
            }),
    {
        if self.cards.len() == 0 {
            None
        } else {
            Some(self.cards[self.cards.len() - 1])
        }
    }

    /// A copy of the whole waste, bottom first; used by the recycle step.
    pub fn get_all(&self) -> (r: Vec<Card>)
        ensures
            r@ == self@,
    {
        let mut out: Vec<Card> = Vec::new();
        let mut i: usize = 0;
        while i < self.cards.len()
            invariant
                i <= self@.len(),
                out@ == self@.subrange(0, i as int),
            decreases self@.len() - i,
        {
            out.push(self.cards[i]);
            i = i + 1;
            proof {
                assert(out@ =~= self@.subrange(0, i as int));
            }
        }
        proof {
            assert(self@.subrange(0, self@.len() as int) =~= self@);
        }
        out
    }

    /// Empties the waste; used by the recycle step after `get_all`.
    pub fn clear(&mut self)
        ensures
            final(self)@ == Seq::<Card>::empty(),
    {
        self.cards.clear();
    }
}

} // verus!

use vstd::prelude::*;

use crate::card::Card;
use crate::pile::reveal_top;
use crate::pile::Pile;

verus! {

/// The tableau: the seven piles of the layout.
pub struct Tableau {
    pub piles: Vec<Pile>,
}

impl Tableau {
    /// The cards of one pile, bottom first.
    pub open spec fn pile_at(self, i: int) -> Seq<Card> {
        self.piles@[i]@
    }

    pub open spec fn wf_len(self) -> bool {
        self.piles@.len() == 7
    }

    pub fn new() -> (t: Tableau)
        ensures
            t.wf_len(),
            forall|i: int| 0 <= i < 7 ==> #[trigger] t.pile_at(i) == Seq::<Card>::empty(),
    {
        let mut piles: Vec<Pile> = Vec::new();
        let mut i: usize = 0;
        while i < 7
            invariant
                i <= 7,
                piles@.len() == i,
                forall|j: int| 0 <= j < i ==> #[trigger] piles@[j]@ == Seq::<Card>::empty(),
            decreases 7 - i,
        {
            piles.push(Pile::new());
            i = i + 1;
        }
        Tableau { piles }
    }

    /// Appends a card on top of the given pile, exactly as given.
    pub fn add_card(&mut self, i: usize, c: Card)
        requires
            old(self).wf_len(),
            i < 7,
        ensures
            final(self).wf_len(),
            final(self).pile_at(i as int) == old(self).pile_at(i as int).push(c),
            forall|j: int|
                0 <= j < 7 && j != i ==> #[trigger] final(self).pile_at(j) == old(self).pile_at(j),
    {
        self.piles[i].add_card(c);
    }

    /// Turns the top card of every pile face-up; the dealing routine calls
    /// this once the deal is complete.
    pub fn flip_all(&mut self)
        requires
            old(self).wf_len(),
        ensures
            final(self).wf_len(),
            forall|j: int|
                0 <= j < 7 ==> #[trigger] final(self).pile_at(j) == reveal_top(
                    old(self).pile_at(j),
                ),
    {
        let mut i: usize = 0;
        while i < 7
            invariant
                i <= 7,
                self.wf_len(),
                forall|j: int|
                    0 <= j < i ==> #[trigger] self.pile_at(j) == reveal_top(old(self).pile_at(j)),
                forall|j: int| i <= j < 7 ==> #[trigger] self.pile_at(j) == old(self).pile_at(j),
            decreases 7 - i,
        {
            let ghost prev = *self;
            self.piles[i].flip_top();
            i = i + 1;
            proof {
                assert(forall|j: int|
                    0 <= j < 7 && j != i - 1 ==> #[trigger] self.pile_at(j) == prev.pile_at(j));
                assert(self.pile_at(i - 1) == reveal_top(prev.pile_at(i - 1)));
            }
        }
    }

    /// The top card of the given pile, if any.
    pub fn get_top(&self, i: usize) -> (r: Option<Card>)
        requires
            self.wf_len(),
            i < 7,
        ensures
            r == (if self.pile_at(i as int).len() == 0 {
                Option::<Card>::None
            } else {
                Option::Some(self.pile_at(i as int).last())
            }),
    {
        self.piles[i].get_top()
    }

    /// Whether the given pile accepts the card under the tableau rule.
    pub fn can_add(&self, i: usize, c: &Card) -> (r: bool)
        requires
            self.wf_len(),
            i < 7,
        ensures
            r == self.piles@[i as int].can_add_spec(*c),
    {
        self.piles[i].can_add(c)
    }

    /// Pops the top card of the given pile without revealing the card
    /// underneath; an empty pile is left unchanged and yields nothing.
    pub fn take_raw(&mut self, i: usize) -> (r: Option<Card>)
        requires
            old(self).wf_len(),
            i < 7,
        ensures
            final(self).wf_len(),
            forall|j: int|
                0 <= j < 7 && j != i ==> #[trigger] final(self).pile_at(j) == old(self).pile_at(j),
            old(self).pile_at(i as int).len() == 0 ==> r is None && final(self).pile_at(i as int)
                == old(self).pile_at(i as int),
            old(self).pile_at(i as int).len() > 0 ==> r == Some(old(self).pile_at(i as int).last())
                && final(self).pile_at(i as int) == old(self).pile_at(i as int).drop_last(),
    {
        self.piles[i].pop_top()
    }

    /// Turns the top card of the given pile face-up.
    pub fn flip_top_of(&mut self, i: usize)
        requires
            old(self).wf_len(),
            i < 7,
        ensures
            final(self).wf_len(),
            forall|j: int|
                0 <= j < 7 && j != i ==> #[trigger] final(self).pile_at(j) == old(self).pile_at(j),
            final(self).pile_at(i as int) == reveal_top(old(self).pile_at(i as int)),
    {
        self.piles[i].flip_top();
    }

    /// Pops the top card of the given pile, revealing the card underneath;
    /// an empty pile is left unchanged and yields nothing.
    pub fn take(&mut self, i: usize) -> (r: Option<Card>)
        requires
            old(self).wf_len(),
            i < 7,
        ensures
            final(self).wf_len(),
            forall|j: int|
                0 <= j < 7 && j != i ==> #[trigger] final(self).pile_at(j) == old(self).pile_at(j),
            old(self).pile_at(i as int).len() == 0 ==> r is None && final(self).pile_at(i as int)
                == old(self).pile_at(i as int),
            old(self).pile_at(i as int).len() > 0 ==> r == Some(old(self).pile_at(i as int).last())
                && final(self).pile_at(i as int) == reveal_top(
                old(self).pile_at(i as int).drop_last(),
            ),
    {
        self.piles[i].take()
    }

    /// Moves the single top card of `src` onto `dest` when `dest` accepts
    /// it, revealing the uncovered card of `src`; fails otherwise, leaving
    /// every pile unchanged.
    pub fn do_move(&mut self, src: usize, dest: usize) -> (r: Result<(), ()>)
        requires
            old(self).wf_len(),
            src < 7,
            dest < 7,
        ensures
            final(self).wf_len(),
            r is Ok <==> old(self).pile_at(src as int).len() > 0 && old(
                self,
            ).piles@[dest as int].can_add_spec(old(self).pile_at(src as int).last()),
            r is Err ==> forall|j: int|
                0 <= j < 7 ==> #[trigger] final(self).pile_at(j) == old(self).pile_at(j),
            r is Ok ==> {
                &&& src != dest
                &&& final(self).pile_at(src as int) == reveal_top(
                    old(self).pile_at(src as int).drop_last(),
                )
                &&& final(self).pile_at(dest as int) == old(self).pile_at(dest as int).push(
                    old(self).pile_at(src as int).last(),
                )
                &&& forall|j: int|
                    0 <= j < 7 && j != src && j != dest ==> #[trigger] final(self).pile_at(j) == old(
                        self,
                    ).pile_at(j)
            },
    {
        let top = match self.piles[src].get_top() {
            None => {
                return Err(());
            },
            Some(c) => c,
        };
        if !self.piles[dest].can_add(&top) {
            return Err(());
        }
        proof {
            if src == dest {
                assert(!self.piles@[dest as int].can_add_spec(top));
            }
        }
        let taken = self.take(src).unwrap();
        self.add_card(dest, taken);
        Ok(())
    }
}

} // verus!

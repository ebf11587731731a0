use vstd::prelude::*;

use crate::card::Card;

verus! {

/// Turns the top card of a sequence face-up; the empty sequence is unchanged.
pub open spec fn reveal_top(s: Seq<Card>) -> Seq<Card> {
    if s.len() == 0 {
        s
    } else {
        s.update(s.len() - 1, s.last().faced_up_spec())
    }
}

/// The face invariant of a tableau pile: the face-up cards form one suffix
/// at the top, and a non-empty pile shows its top card face-up.
pub open spec fn faces_ok(s: Seq<Card>) -> bool {
    &&& forall|i: int, j: int|
        #![trigger s[i].face_up, s[j].face_up]
        0 <= i <= j < s.len() && s[i].face_up ==> s[j].face_up
    &&& s.len() > 0 ==> s.last().face_up
}

/// Putting a face-up card on a pile that satisfies the face invariant
/// preserves it.
pub proof fn lemma_faces_push(s: Seq<Card>, c: Card)
    requires
        faces_ok(s),
        c.face_up,
    ensures
        faces_ok(s.push(c)),
{
}

/// Taking the top card and revealing the one beneath preserves the face
/// invariant.
pub proof fn lemma_faces_take(s: Seq<Card>)
    requires
        faces_ok(s),
        s.len() > 0,
    ensures
        faces_ok(reveal_top(s.drop_last())),
{
    let t = s.drop_last();
    if t.len() > 0 {
        let u = reveal_top(t);
        assert(u.last().face_up);
        assert forall|i: int, j: int|
            #![trigger u[i].face_up, u[j].face_up]
            0 <= i <= j < u.len() && u[i].face_up implies u[j].face_up by {
            if j < u.len() - 1 {
                assert(u[i] == s[i] && u[j] == s[j]);
            }
        }
    }
}

/// One tableau pile: an ordered stack of cards, bottom first.
pub struct Pile {
    pub cards: Vec<Card>,
}

impl View for Pile {
    type V = Seq<Card>;

    open spec fn view(&self) -> Seq<Card> {
        self.cards@
    }
}

impl Pile {
    pub fn new() -> (p: Pile)
        ensures
            p@ == Seq::<Card>::empty(),
    {
        Pile { cards: Vec::new() }
    }

    pub fn size(&self) -> (n: usize)
        ensures
            n == self@.len(),
    {
        self.cards.len()
    }

    /// The top card, if the pile has one.
    pub fn get_top(&self) -> (r: Option<Card>)
        ensures
            r == (if self@.len() == 0 {
                Option::<Card>::None
            } else {
                Option::Some(self@.last())
            }),
    {
        if self.cards.len() == 0 {
            None
        } else {
            Some(self.cards[self.cards.len() - 1])
        }
    }

    /// The rule of tableau acceptance: an empty pile takes any card; a
    /// non-empty pile takes a card one rank below its face-up top, of the
    /// opposite color.
    pub open spec fn can_add_spec(self, c: Card) -> bool {
        ||| self@.len() == 0
        ||| {
            &&& self@.last().face_up
            &&& self@.last().value.rank_spec() == c.value.rank_spec() + 1
            &&& c.opposite_color_spec(self@.last())
        }
    }

    pub fn can_add(&self, c: &Card) -> (r: bool)
        ensures
            r == self.can_add_spec(*c),
    {
        if self.cards.len() == 0 {
            true
        } else {
            let top = self.cards[self.cards.len() - 1];
            top.face_up && top.value.rank() == c.value.rank() + 1 && (c.suit.is_red()
                != top.suit.is_red())
        }
    }

    /// Appends a card on top, exactly as given.
    pub fn add_card(&mut self, c: Card)
        ensures
            final(self)@ == old(self)@.push(c),
    {
        self.cards.push(c);
    }

    /// Pops the top card without revealing the one beneath; an empty pile
    /// is left unchanged and yields nothing.
    pub fn pop_top(&mut self) -> (r: Option<Card>)
        ensures
            old(self)@.len() == 0 ==> r is None && final(self)@ == old(self)@,
            old(self)@.len() > 0 ==> r == Some(old(self)@.last()) && final(self)@ == old(
                self,
            )@.drop_last(),
    {
        self.cards.pop()
    }

    /// Pops the top card; if a card is uncovered and lies face-down, it is
    /// turned face-up. An empty pile is left unchanged and yields nothing.
    pub fn take(&mut self) -> (r: Option<Card>)
        ensures
            old(self)@.len() == 0 ==> r is None && final(self)@ == old(self)@,
            old(self)@.len() > 0 ==> r == Some(old(self)@.last()) && final(self)@ == reveal_top(
                old(self)@.drop_last(),
            ),
    {
        match self.cards.pop() {
            None => None,
            Some(c) => {
                self.flip_top();
                Some(c)
            },
        }
    }

    /// Turns the top card face-up; does nothing to an empty pile.
    pub fn flip_top(&mut self)
        ensures
            final(self)@ == reveal_top(old(self)@),
    {
        match self.cards.pop() {
            None => {
                assert(self@ =~= reveal_top(old(self)@));
            },
            Some(t) => {
                self.cards.push(t.faced_up());
                assert(self@ =~= reveal_top(old(self)@));
            },
        }
    }
}

} // verus!

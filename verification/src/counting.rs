use vstd::prelude::*;

use crate::card::Card;
use crate::deck::deck_complete;
use crate::game::lemma_complete_same_key;
use crate::game::lemma_drop_last_multiset;
use crate::game::lemma_reveal_top_multiset;
use crate::game::Game;
use crate::pile::reveal_top;

verus! {

broadcast use {vstd::seq_lib::group_to_multiset_ensures, vstd::multiset::group_multiset_axioms};

/// Moving the top of one tableau pile onto another, as it lies, keeps the
/// deck complete.
pub proof fn lemma_t2t_complete(a: Game, b: Game, si: int, di: int)
    requires
        deck_complete(a.cards_of()),
        0 <= si < 7,
        0 <= di < 7,
        si != di,
        a.tableau.pile_at(si).len() > 0,
        b.stock@ == a.stock@,
        b.waste@ == a.waste@,
        b.foundations@ == a.foundations@,
        b.tableau.pile_at(si) == a.tableau.pile_at(si).drop_last(),
        b.tableau.pile_at(di) == a.tableau.pile_at(di).push(a.tableau.pile_at(si).last()),
        forall|j: int|
            0 <= j < 7 && j != si && j != di ==> #[trigger] b.tableau.pile_at(j)
                == a.tableau.pile_at(j),
    ensures
        deck_complete(b.cards_of()),
{
    let c = a.tableau.pile_at(si).last();
    lemma_drop_last_multiset(a.tableau.pile_at(si));
    assert(b.cards_of() =~= a.cards_of().remove(c).insert(c));
    lemma_complete_same_key(a.cards_of(), b.cards_of(), c, c);
}

/// Moving the top of a tableau pile to a foundation, as it lies, keeps the
/// deck complete.
pub proof fn lemma_t2f_complete(a: Game, b: Game, pi: int, fi: int)
    requires
        deck_complete(a.cards_of()),
        0 <= pi < 7,
        0 <= fi < 4,
        a.tableau.pile_at(pi).len() > 0,
        b.stock@ == a.stock@,
        b.waste@ == a.waste@,
        b.foundations@.len() == a.foundations@.len() == 4,
        b.foundations@[fi]@ == a.foundations@[fi]@.push(a.tableau.pile_at(pi).last()),
        forall|j: int| 0 <= j < 4 && j != fi ==> #[trigger] b.foundations@[j] == a.foundations@[j],
        b.tableau.pile_at(pi) == a.tableau.pile_at(pi).drop_last(),
        forall|j: int|
            0 <= j < 7 && j != pi ==> #[trigger] b.tableau.pile_at(j) == a.tableau.pile_at(j),
    ensures
        deck_complete(b.cards_of()),
{
    let c = a.tableau.pile_at(pi).last();
    lemma_drop_last_multiset(a.tableau.pile_at(pi));
    assert(b.cards_of() =~= a.cards_of().remove(c).insert(c));
    lemma_complete_same_key(a.cards_of(), b.cards_of(), c, c);
}

/// Turning the top card of a pile face-up keeps the deck complete.
pub proof fn lemma_reveal_complete(a: Game, b: Game, pi: int)
    requires
        deck_complete(a.cards_of()),
        0 <= pi < 7,
        b.stock@ == a.stock@,
        b.waste@ == a.waste@,
        b.foundations@ == a.foundations@,
        b.tableau.pile_at(pi) == reveal_top(a.tableau.pile_at(pi)),
        forall|j: int|
            0 <= j < 7 && j != pi ==> #[trigger] b.tableau.pile_at(j) == a.tableau.pile_at(j),
    ensures
        deck_complete(b.cards_of()),
{
    let pp = a.tableau.pile_at(pi);
    lemma_reveal_top_multiset(pp);
    if pp.len() == 0 {
        assert(b.cards_of() =~= a.cards_of());
    } else {
        let d = pp.last();
        let d2 = d.faced_up_spec();
        lemma_drop_last_multiset(pp);
        assert(a.cards_of().count(d) > 0);
        assert(b.cards_of() =~= a.cards_of().remove(d).insert(d2));
        lemma_complete_same_key(a.cards_of(), b.cards_of(), d, d2);
    }
}

} // verus!

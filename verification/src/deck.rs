use vstd::multiset::Multiset;
use vstd::prelude::*;

use rand::seq::SliceRandom;

use crate::card::down;
use crate::card::suit_of_index_spec;
use crate::card::value_of_rank;
use crate::card::up;
use crate::card::Card;
use crate::card::Suit;
use crate::card::Value;

verus! {

broadcast use {vstd::seq_lib::group_to_multiset_ensures, vstd::multiset::group_multiset_axioms};

/// How many cards of the given rank and suit a multiset holds, counting a
/// face-up and a face-down copy alike.
pub open spec fn pair_count(m: Multiset<Card>, v: Value, s: Suit) -> nat {
    (m.count(up(v, s)) + m.count(down(v, s))) as nat
}

/// A complete deck: exactly one card of each of the 52 rank-suit pairs,
/// whatever way each lies.
pub open spec fn deck_complete(m: Multiset<Card>) -> bool {
    forall|v: Value, s: Suit| #[trigger] pair_count(m, v, s) == 1
}

/// The card at a given position of the canonical deck order: suit by
/// suit in the fixed scan order, ascending rank within each suit, all
/// face-down.
pub open spec fn canonical_card(k: int) -> Card {
    Card { value: value_of_rank(k % 13 + 1), suit: suit_of_index_spec(k / 13), face_up: false }
}

/// The suit at a given position of the fixed scan order.
pub fn suit_of_index(i: usize) -> (s: Suit)
    requires
        i < 4,
    ensures
        s.index_spec() == i,
{
    if i == 0 {
        Suit::Heart
    } else if i == 1 {
        Suit::Diamond
    } else if i == 2 {
        Suit::Spade
    } else {
        Suit::Club
    }
}

/// The 52 canonical cards, each once and face-down, suit by suit in
/// ascending rank.
pub fn full_deck() -> (deck: Vec<Card>)
    ensures
        deck@.len() == 52,
        deck_complete(deck@.to_multiset()),
        forall|i: int| 0 <= i < deck@.len() ==> !(#[trigger] deck@[i]).face_up,
        forall|k: int| 0 <= k < deck@.len() ==> #[trigger] deck@[k] == canonical_card(k),
{
    let mut deck: Vec<Card> = Vec::new();
    let mut si: usize = 0;
    while si < 4
        invariant
            si <= 4,
            deck@.len() == 13 * si,
            forall|v: Value, s: Suit| #[trigger]
                pair_count(deck@.to_multiset(), v, s) == if s.index_spec() < si {
                    1int
                } else {
                    0int
                },
            forall|i: int| 0 <= i < deck@.len() ==> !(#[trigger] deck@[i]).face_up,
            forall|k: int| 0 <= k < deck@.len() ==> #[trigger] deck@[k] == canonical_card(k),
        decreases 4 - si,
    {
        let suit = suit_of_index(si);
        let mut r: u8 = 1;
        while r <= 13
            invariant
                1 <= r <= 14,
                si < 4,
                suit.index_spec() == si,
                deck@.len() == 13 * si + (r - 1),
                forall|v: Value, s: Suit| #[trigger]
                    pair_count(deck@.to_multiset(), v, s) == if s.index_spec() < si || (s == suit
                        && v.rank_spec() < r) {
                        1int
                    } else {
                        0int
                    },
                forall|i: int| 0 <= i < deck@.len() ==> !(#[trigger] deck@[i]).face_up,
                forall|k: int| 0 <= k < deck@.len() ==> #[trigger] deck@[k] == canonical_card(k),
            decreases 14 - r,
        {
            let value = Value::of_rank(r);
            let c = Card { value, suit, face_up: false };
            let ghost pre = deck@;
            deck.push(c);
            proof {
                let n: int = 13 * si + (r - 1);
                assert(n / 13 == si && n % 13 == r - 1) by (nonlinear_arith)
                    requires
                        0 <= si < 4,
                        1 <= r <= 13,
                        n == 13 * si + (r - 1),
                ;
                assert(value_of_rank(r as int).rank_spec() == r);
                crate::card::lemma_rank_injective(value, value_of_rank(r as int));
                assert(suit == suit_of_index_spec(si as int));
                assert(deck@[n] == canonical_card(n));
            }
            r = r + 1;
            proof {
                assert(deck@.to_multiset() =~= pre.to_multiset().insert(c));
                assert forall|v: Value, s: Suit| #[trigger]
                    pair_count(deck@.to_multiset(), v, s) == if s.index_spec() < si || (s == suit
                        && v.rank_spec() < r) {
                        1int
                    } else {
                        0int
                    } by {
                    let m0 = pre.to_multiset();
                    let m1 = deck@.to_multiset();
                    assert(pair_count(m0, v, s) == if s.index_spec() < si || (s == suit
                        && v.rank_spec() < r - 1) {
                        1int
                    } else {
                        0int
                    });
                    assert(m1 == m0.insert(c));
                    if s == suit && v.rank_spec() == r - 1 {
                        crate::card::lemma_rank_injective(v, value);
                        assert(down(v, s) == c);
                        assert(m1.count(down(v, s)) == m0.count(down(v, s)) + 1);
                    } else {
                        assert(down(v, s) != c);
                        assert(m1.count(down(v, s)) == m0.count(down(v, s)));
                    }
                    assert(up(v, s) != c);
                    assert(m1.count(up(v, s)) == m0.count(up(v, s)));
                }
            }
        }
        si = si + 1;
        proof {
            assert forall|v: Value, s: Suit| #[trigger]
                pair_count(deck@.to_multiset(), v, s) == if s.index_spec() < si {
                    1int
                } else {
                    0int
                } by {
                assert(v.rank_spec() < 14);
                assert(s == suit ==> s.index_spec() == si - 1);
                assert(s.index_spec() == si - 1 ==> s == suit);
            }
        }
    }
    deck
}

/// Relies on `rand::seq::SliceRandom::shuffle` with `rand::thread_rng`: a
/// Fisher-Yates pass that only swaps elements of the slice in place, so the
/// result holds exactly the cards that were there, as a multiset.
#[verifier::external_body]
pub(crate) fn shuffle(cards: &mut Vec<Card>)
    ensures
        final(cards)@.to_multiset() == old(cards)@.to_multiset(),
{
    cards.as_mut_slice().shuffle(&mut rand::thread_rng());
}

} // verus!

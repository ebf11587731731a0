use vstd::multiset::Multiset;
use vstd::prelude::*;
use vstd::string::StringExecFns;

use crate::card::Card;
use crate::card::Suit;
use crate::card::Value;
use crate::command::Command;
use crate::deck::deck_complete;
use crate::deck::full_deck;
use crate::deck::pair_count;
use crate::deck::shuffle;
use crate::foundation::foundation_ok;
use crate::foundation::Foundation;
use crate::pile::faces_ok;
use crate::pile::reveal_top;
use crate::render::back_str;
use crate::render::back_str_spec;
use crate::render::blank_str;
use crate::render::blank_str_spec;
use crate::render::dec_of;
use crate::render::dec_spec;
use crate::render::row_spec;
use crate::render::row_str;
use crate::render::top_slot_spec;
use crate::render::top_slot_str;
use crate::results::Failure;
use crate::results::Success;
use crate::stock::Stock;
use crate::tableau::Tableau;
use crate::waste::Waste;

verus! {

broadcast use {vstd::seq_lib::group_to_multiset_ensures, vstd::multiset::group_multiset_axioms};

/// Replacing one card of a complete deck by a card of the same rank and
/// suit (however either lies) leaves the deck complete.
pub proof fn lemma_complete_same_key(m0: Multiset<Card>, m1: Multiset<Card>, a: Card, b: Card)
    requires
        deck_complete(m0),
        m0.count(a) > 0,
        a.value == b.value,
        a.suit == b.suit,
        m1 == m0.remove(a).insert(b),
    ensures
        deck_complete(m1),
{
    assert forall|v: Value, s: Suit| #[trigger] pair_count(m1, v, s) == 1 by {
        assert(pair_count(m0, v, s) == 1);
    }
}

/// Turning the top card of a pile face-up replaces it by a card of the
/// same rank and suit, as a multiset.
pub proof fn lemma_reveal_top_multiset(s: Seq<Card>)
    ensures
        s.len() == 0 ==> reveal_top(s).to_multiset() == s.to_multiset(),
        s.len() > 0 ==> reveal_top(s).to_multiset() == s.to_multiset().remove(s.last()).insert(
            s.last().faced_up_spec(),
        ),
{
    if s.len() > 0 {
        assert(reveal_top(s) =~= s.drop_last().push(s.last().faced_up_spec()));
        assert(s.drop_last() =~= s.remove(s.len() - 1));
        assert(s.drop_last().to_multiset() == s.to_multiset().remove(s.last()));
        assert(reveal_top(s).to_multiset() =~= s.to_multiset().remove(s.last()).insert(
            s.last().faced_up_spec(),
        ));
    }
}

/// Turning the top card of a pile face-up changes no rank-and-suit count.
pub proof fn lemma_reveal_top_pairs(s: Seq<Card>)
    ensures
        forall|v: Value, su: Suit| #[trigger]
            pair_count(reveal_top(s).to_multiset(), v, su) == pair_count(s.to_multiset(), v, su),
{
    lemma_reveal_top_multiset(s);
    if s.len() > 0 {
        assert(s.contains(s.last()));
    }
}

/// Dropping the top card of a pile removes it from the multiset.
pub proof fn lemma_drop_last_multiset(s: Seq<Card>)
    requires
        s.len() > 0,
    ensures
        s.drop_last().to_multiset() == s.to_multiset().remove(s.last()),
        s.to_multiset().count(s.last()) > 0,
{
    assert(s.drop_last() =~= s.remove(s.len() - 1));
    assert(s.contains(s.last()));
}

/// A prefix stays a prefix when the longer sequence grows on top.
pub proof fn lemma_prefix_push(a: Seq<Card>, b: Seq<Card>, c: Card)
    requires
        a.is_prefix_of(b),
    ensures
        a.is_prefix_of(b.push(c)),
{
    assert(b.push(c).subrange(0, a.len() as int) =~= b.subrange(0, a.len() as int));
}

/// Moving the top of the waste onto a tableau pile keeps the deck complete.
pub proof fn lemma_w2p_complete(a: Game, b: Game, pi: int)
    requires
        deck_complete(a.cards_of()),
        0 <= pi < 7,
        a.waste@.len() > 0,
        b.stock@ == a.stock@,
        b.waste@ == a.waste@.drop_last(),
        b.foundations@ == a.foundations@,
        b.tableau.pile_at(pi) == a.tableau.pile_at(pi).push(a.waste@.last()),
        forall|j: int|
            0 <= j < 7 && j != pi ==> #[trigger] b.tableau.pile_at(j) == a.tableau.pile_at(j),
    ensures
        deck_complete(b.cards_of()),
{
    let c = a.waste@.last();
    lemma_drop_last_multiset(a.waste@);
    assert(b.cards_of() =~= a.cards_of().remove(c).insert(c));
    lemma_complete_same_key(a.cards_of(), b.cards_of(), c, c);
}

/// Returning the top of a foundation to a tableau pile keeps the deck
/// complete.
pub proof fn lemma_f2p_complete(a: Game, b: Game, fi: int, pi: int)
    requires
        deck_complete(a.cards_of()),
        0 <= fi < 4,
        0 <= pi < 7,
        a.foundations@[fi]@.len() > 0,
        b.stock@ == a.stock@,
        b.waste@ == a.waste@,
        b.foundations@.len() == a.foundations@.len() == 4,
        b.foundations@[fi]@ == a.foundations@[fi]@.drop_last(),
        forall|j: int| 0 <= j < 4 && j != fi ==> #[trigger] b.foundations@[j] == a.foundations@[j],
        b.tableau.pile_at(pi) == a.tableau.pile_at(pi).push(a.foundations@[fi]@.last()),
        forall|j: int|
            0 <= j < 7 && j != pi ==> #[trigger] b.tableau.pile_at(j) == a.tableau.pile_at(j),
    ensures
        deck_complete(b.cards_of()),
{
    let c = a.foundations@[fi]@.last();
    lemma_drop_last_multiset(a.foundations@[fi]@);
    assert(b.cards_of() =~= a.cards_of().remove(c).insert(c));
    lemma_complete_same_key(a.cards_of(), b.cards_of(), c, c);
}

/// Dealing one card off the deck's top onto a tableau pile, face-down,
/// keeps the pool of undealt and dealt cards a complete deck.
pub proof fn lemma_deal_step(
    pre_cards: Seq<Card>,
    post_cards: Seq<Card>,
    pre_t: Tableau,
    post_t: Tableau,
    i: int,
    c: Card,
    c2: Card,
)
    requires
        deck_complete(pre_cards.to_multiset().add(tab_cards_of(pre_t))),
        pre_cards.len() > 0,
        c == pre_cards.last(),
        post_cards == pre_cards.drop_last(),
        c2.value == c.value,
        c2.suit == c.suit,
        0 <= i < 7,
        post_t.pile_at(i) == pre_t.pile_at(i).push(c2),
        forall|k: int| 0 <= k < 7 && k != i ==> #[trigger] post_t.pile_at(k) == pre_t.pile_at(k),
    ensures
        deck_complete(post_cards.to_multiset().add(tab_cards_of(post_t))),
{
    let m0 = pre_cards.to_multiset().add(tab_cards_of(pre_t));
    let m1 = post_cards.to_multiset().add(tab_cards_of(post_t));
    lemma_drop_last_multiset(pre_cards);
    assert(post_t.pile_at(i).to_multiset() == pre_t.pile_at(i).to_multiset().insert(c2));
    assert(m0.count(c) > 0);
    assert(m1 =~= m0.remove(c).insert(c2));
    lemma_complete_same_key(m0, m1, c, c2);
}

/// Every card on the tableau, as one multiset.
pub open spec fn tab_cards_of(t: Tableau) -> Multiset<Card> {
    t.pile_at(0).to_multiset().add(t.pile_at(1).to_multiset()).add(t.pile_at(2).to_multiset()).add(
        t.pile_at(3).to_multiset(),
    ).add(t.pile_at(4).to_multiset()).add(t.pile_at(5).to_multiset()).add(
        t.pile_at(6).to_multiset(),
    )
}

/// How many cards lie on the tableau in all.
pub open spec fn tab_count_of(t: Tableau) -> nat {
    t.pile_at(0).len() + t.pile_at(1).len() + t.pile_at(2).len() + t.pile_at(3).len() + t.pile_at(
        4,
    ).len() + t.pile_at(5).len() + t.pile_at(6).len()
}

/// The whole game: the four foundations in the fixed suit order, the
/// stock, the waste, the seven tableau piles, and the turn counter.
pub struct Game {
    pub foundations: Vec<Foundation>,
    pub stock: Stock,
    pub waste: Waste,
    pub tableau: Tableau,
    pub turn: u16,
}

impl Game {
    /// Every card currently in play, over all the piles, as one multiset.
    pub open spec fn cards_of(self) -> Multiset<Card> {
        self.stock@.to_multiset().add(self.waste@.to_multiset()).add(
            self.foundations@[0]@.to_multiset(),
        ).add(self.foundations@[1]@.to_multiset()).add(self.foundations@[2]@.to_multiset()).add(
            self.foundations@[3]@.to_multiset(),
        ).add(tab_cards_of(self.tableau))
    }

    /// How many cards lie on the tableau in all.
    pub open spec fn tableau_count(self) -> nat {
        tab_count_of(self.tableau)
    }

    /// How many cards lie on the foundations in all.
    pub open spec fn foundation_count(self) -> nat {
        self.foundations@[0]@.len() + self.foundations@[1]@.len() + self.foundations@[2]@.len()
            + self.foundations@[3]@.len()
    }

    /// The game invariant: four foundations in the fixed suit order, each
    /// well-formed; seven tableau piles, each with its face-up cards in one
    /// suffix at the top; every waste card face-up; and the 52 cards of the
    /// deck present exactly once over all the piles.
    pub open spec fn wf(self) -> bool {
        &&& self.foundations@.len() == 4
        &&& forall|i: int|
            0 <= i < 4 ==> (#[trigger] self.foundations@[i]).suit.index_spec() == i
        &&& forall|i: int| 0 <= i < 4 ==> foundation_ok(#[trigger] self.foundations@[i])
        &&& self.tableau.wf_len()
        &&& forall|i: int| 0 <= i < 7 ==> faces_ok(#[trigger] self.tableau.pile_at(i))
        &&& forall|i: int| 0 <= i < self.waste@.len() ==> (#[trigger] self.waste@[i]).face_up
        &&& deck_complete(self.cards_of())
    }

    /// Two game states that hold the very same cards everywhere, in the
    /// same order and face state, at the same turn.
    pub open spec fn state_eq(a: Game, b: Game) -> bool {
        &&& b.stock@ == a.stock@
        &&& b.waste@ == a.waste@
        &&& b.foundations@.len() == a.foundations@.len()
        &&& forall|i: int|
            0 <= i < a.foundations@.len() ==> #[trigger] b.foundations@[i]@ == a.foundations@[i]@
                && b.foundations@[i].suit == a.foundations@[i].suit
        &&& b.tableau.piles@.len() == a.tableau.piles@.len()
        &&& forall|i: int| 0 <= i < 7 ==> #[trigger] b.tableau.pile_at(i) == a.tableau.pile_at(i)
        &&& b.turn == a.turn
    }

    /// Victory: all four foundations are full.
    pub open spec fn victory_spec(self) -> bool {
        forall|i: int| 0 <= i < 4 ==> (#[trigger] self.foundations@[i])@.len() == 13
    }

    pub fn victory(&self) -> (r: bool)
        requires
            self.foundations@.len() == 4,
        ensures
            r == self.victory_spec(),
    {
        let r = self.foundations[0].is_full() && self.foundations[1].is_full()
            && self.foundations[2].is_full() && self.foundations[3].is_full();
        proof {
            if r {
                assert forall|i: int| 0 <= i < 4 implies (#[trigger] self.foundations@[i])@.len()
                    == 13 by {
                    if i == 0 {
                    } else if i == 1 {
                    } else if i == 2 {
                    } else {
                        assert(i == 3);
                    }
                }
            }
        }
        r
    }

    /// One line of the rendered tableau: the pile number, then its cards
    /// bottom first.
    pub open spec fn pile_line_spec(t: Tableau, i: int) -> Seq<char> {
        dec_spec(i + 1) + ": "@ + row_spec(t.pile_at(i)) + "\n"@
    }

    /// The rendered snapshot: a rule, the turn and pile counts, the slot
    /// header, the top of the stock, the waste and each foundation, then
    /// the seven tableau piles line by line.
    #[verifier::opaque]
    pub open spec fn display_spec(g: Game) -> Seq<char> {
        "-----------------------------------------------------\n"@ + "Turn: "@ + dec_spec(
            g.turn as int,
        ) + "   Stock: "@ + dec_spec(g.stock@.len() as int) + "   Waste: "@ + dec_spec(
            g.waste@.len() as int,
        ) + "\n"@ + "    n      k            h      d      s      c\n"@ + "  "@ + (if g.stock@.len()
            == 0 {
            blank_str_spec()
        } else {
            back_str_spec()
        }) + "  "@ + top_slot_spec(g.waste@) + "        "@ + top_slot_spec(g.foundations@[0]@)
            + "  "@ + top_slot_spec(g.foundations@[1]@) + "  "@ + top_slot_spec(g.foundations@[2]@)
            + "  "@ + top_slot_spec(g.foundations@[3]@) + "\n\n"@ + Self::pile_line_spec(
            g.tableau,
            0,
        ) + Self::pile_line_spec(g.tableau, 1) + Self::pile_line_spec(g.tableau, 2)
            + Self::pile_line_spec(g.tableau, 3) + Self::pile_line_spec(g.tableau, 4)
            + Self::pile_line_spec(g.tableau, 5) + Self::pile_line_spec(g.tableau, 6)
    }

    /// Renders the whole state as text: the turn count, the size of stock
    /// and waste, the top card of the waste and of each foundation, and
    /// every tableau card with its face state are all recoverable from it.
    pub fn display(&self) -> (r: String)
        requires
            self.foundations@.len() == 4,
            self.tableau.wf_len(),
        ensures
            r@ == Self::display_spec(*self),
    {
        let mut out = String::new();
        out.append("-----------------------------------------------------\n");
        out.append("Turn: ");
        let t = dec_of(self.turn as usize);
        out.append(t.as_str());
        out.append("   Stock: ");
        let sn = dec_of(self.stock.size());
        out.append(sn.as_str());
        out.append("   Waste: ");
        let wn = dec_of(self.waste.size());
        out.append(wn.as_str());
        out.append("\n");
        out.append("    n      k            h      d      s      c\n");
        out.append("  ");
        if self.stock.is_empty() {
            out.append(blank_str());
        } else {
            out.append(back_str());
        }
        out.append("  ");
        let ws = top_slot_str(&self.waste.cards);
        out.append(ws.as_str());
        out.append("        ");
        let f0 = top_slot_str(&self.foundations[0].cards);
        out.append(f0.as_str());
        out.append("  ");
        let f1 = top_slot_str(&self.foundations[1].cards);
        out.append(f1.as_str());
        out.append("  ");
        let f2 = top_slot_str(&self.foundations[2].cards);
        out.append(f2.as_str());
        out.append("  ");
        let f3 = top_slot_str(&self.foundations[3].cards);
        out.append(f3.as_str());
        out.append("\n\n");
        proof {
            reveal(Game::display_head_spec);
            assert(out@ =~= Self::display_head_spec(*self) + Self::pile_lines_upto(
                self.tableau,
                0,
            ));
        }
        let mut i: usize = 0;
        while i < 7
            invariant
                i <= 7,
                self.tableau.wf_len(),
                out@ == Self::display_head_spec(*self) + Self::pile_lines_upto(
                    self.tableau,
                    i as int,
                ),
            decreases 7 - i,
        {
            let n = dec_of(i + 1);
            out.append(n.as_str());
            out.append(": ");
            let row = row_str(&self.tableau.piles[i].cards);
            out.append(row.as_str());
            out.append("\n");
            i = i + 1;
            proof {
                assert(out@ =~= Self::display_head_spec(*self) + Self::pile_lines_upto(
                    self.tableau,
                    i as int,
                ));
            }
        }
        proof {
            reveal(Game::display_head_spec);
            reveal(Game::display_spec);
            reveal_with_fuel(Game::pile_lines_upto, 8);
            assert(out@ =~= Self::display_spec(*self));
        }
        out
    }

    /// Everything of the snapshot above the tableau lines.
    #[verifier::opaque]
    pub open spec fn display_head_spec(g: Game) -> Seq<char> {
        "-----------------------------------------------------\n"@ + "Turn: "@ + dec_spec(
            g.turn as int,
        ) + "   Stock: "@ + dec_spec(g.stock@.len() as int) + "   Waste: "@ + dec_spec(
            g.waste@.len() as int,
        ) + "\n"@ + "    n      k            h      d      s      c\n"@ + "  "@ + (if g.stock@.len()
            == 0 {
            blank_str_spec()
        } else {
            back_str_spec()
        }) + "  "@ + top_slot_spec(g.waste@) + "        "@ + top_slot_spec(g.foundations@[0]@)
            + "  "@ + top_slot_spec(g.foundations@[1]@) + "  "@ + top_slot_spec(g.foundations@[2]@)
            + "  "@ + top_slot_spec(g.foundations@[3]@) + "\n\n"@
    }

    /// The first `n` tableau lines of the snapshot.
    pub open spec fn pile_lines_upto(t: Tableau, n: int) -> Seq<char>
        decreases n,
    {
        if n <= 0 {
            Seq::<char>::empty()
        } else {
            Self::pile_lines_upto(t, n - 1) + Self::pile_line_spec(t, n - 1)
        }
    }

    /// The outcome of a successful command: the snapshot of the state it
    /// produced, tagged according to victory.
    pub open spec fn success_matches(g: Game, r: Success) -> bool {
        match r {
            Success::Victory(d) => g.victory_spec() && d@ == Self::display_spec(g),
            Success::ValidMove(d) => !g.victory_spec() && d@ == Self::display_spec(g),
            _ => false,
        }
    }

    /// How many cards the deal hands out before it reaches the given pile:
    /// pile k takes k + 1 cards.
    pub open spec fn dealt_before(i: int) -> int {
        if i <= 0 {
            0
        } else if i == 1 {
            1
        } else if i == 2 {
            3
        } else if i == 3 {
            6
        } else if i == 4 {
            10
        } else if i == 5 {
            15
        } else if i == 6 {
            21
        } else {
            28
        }
    }

    /// The deal as a function of the deck: cards are dealt off the deck's
    /// top (its last element first), so position j of pile i holds the deck
    /// card at index 51 - dealt_before(i) - j, face-up only at the pile's
    /// top, and the deck's first 24 cards are left as the stock, in order.
    pub open spec fn deal_layout(deck: Seq<Card>, g: Game) -> bool {
        &&& g.stock@ == deck.subrange(0, 24)
        &&& forall|i: int, j: int|
            #![trigger g.tableau.pile_at(i)[j]]
            0 <= i < 7 && 0 <= j <= i ==> g.tableau.pile_at(i)[j] == (Card {
                value: deck[51 - Self::dealt_before(i) - j].value,
                suit: deck[51 - Self::dealt_before(i) - j].suit,
                face_up: j == i,
            })
    }

    /// What a fresh deal looks like: piles of one to seven cards with only
    /// each pile's top face-up, 24 cards in the stock, nothing anywhere
    /// else, at turn zero.
    pub open spec fn fresh_deal(g: Game) -> bool {
        &&& g.wf()
        &&& g.turn == 0
        &&& g.stock@.len() == 24
        &&& g.waste@.len() == 0
        &&& forall|i: int| 0 <= i < 4 ==> (#[trigger] g.foundations@[i])@.len() == 0
        &&& forall|i: int| 0 <= i < 7 ==> (#[trigger] g.tableau.pile_at(i)).len() == i + 1
        &&& forall|i: int, j: int|
            #![trigger g.tableau.pile_at(i)[j]]
            0 <= i < 7 && 0 <= j < i + 1 ==> (g.tableau.pile_at(i)[j].face_up <==> j == i)
    }

    /// Deals a game from the given deck: one to seven cards dealt face-down
    /// off the top of the deck into the seven piles, each pile's top then
    /// turned face-up; the 24 cards left form the stock. This is the
    /// randomness seam: a test may deal a permutation of its choosing.
    #[verifier::rlimit(100)]
    pub fn new_with_deck(deck: Vec<Card>) -> (g: Game)
        requires
            deck@.len() == 52,
            deck_complete(deck@.to_multiset()),
        ensures
            Self::fresh_deal(g),
            Self::deal_layout(deck@, g),
    {
        let ghost d = deck@;
        let mut cards = deck;
        let mut tableau = Tableau::new();
        proof {
                assert forall|v: Value, s: Suit| #[trigger]
                pair_count(cards@.to_multiset().add(tab_cards_of(tableau)), v, s) == 1 by {
                assert(!Seq::<Card>::empty().contains(crate::card::up(v, s)));
                assert(!Seq::<Card>::empty().contains(crate::card::down(v, s)));
                assert(tableau.pile_at(0) == Seq::<Card>::empty());
                assert(tableau.pile_at(1) == Seq::<Card>::empty());
                assert(tableau.pile_at(2) == Seq::<Card>::empty());
                assert(tableau.pile_at(3) == Seq::<Card>::empty());
                assert(tableau.pile_at(4) == Seq::<Card>::empty());
                assert(tableau.pile_at(5) == Seq::<Card>::empty());
                assert(tableau.pile_at(6) == Seq::<Card>::empty());
                assert(pair_count(cards@.to_multiset(), v, s) == 1);
            }
            assert(cards@ =~= d.subrange(0, 52));
        }
        let mut i: usize = 0;
        while i < 7
            invariant
                i <= 7,
                d.len() == 52,
                tableau.wf_len(),
                forall|k: int| 0 <= k < i ==> (#[trigger] tableau.pile_at(k)).len() == k + 1,
                forall|k: int| i <= k < 7 ==> (#[trigger] tableau.pile_at(k)).len() == 0,
                forall|k: int, j: int|
                    #![trigger tableau.pile_at(k)[j]]
                    0 <= k < 7 && 0 <= j < tableau.pile_at(k).len() ==> !tableau.pile_at(
                        k,
                    )[j].face_up,
                cards@.len() + tab_count_of(tableau) == 52,
                cards@ == d.subrange(0, 52 - Self::dealt_before(i as int)),
                forall|k: int, jj: int|
                    #![trigger tableau.pile_at(k)[jj]]
                    0 <= k < i && 0 <= jj <= k ==> tableau.pile_at(k)[jj] == (Card {
                        value: d[51 - Self::dealt_before(k) - jj].value,
                        suit: d[51 - Self::dealt_before(k) - jj].suit,
                        face_up: false,
                    }),
                deck_complete(cards@.to_multiset().add(tab_cards_of(tableau))),
            decreases 7 - i,
        {
            let mut j: usize = 0;
            while j < i + 1
                invariant
                    i < 7,
                    j <= i + 1,
                    d.len() == 52,
                    tableau.wf_len(),
                    forall|k: int| 0 <= k < i ==> (#[trigger] tableau.pile_at(k)).len() == k + 1,
                    tableau.pile_at(i as int).len() == j,
                    forall|k: int| i < k < 7 ==> (#[trigger] tableau.pile_at(k)).len() == 0,
                    forall|k: int, jj: int|
                        #![trigger tableau.pile_at(k)[jj]]
                        0 <= k < 7 && 0 <= jj < tableau.pile_at(k).len() ==> !tableau.pile_at(
                            k,
                        )[jj].face_up,
                    cards@.len() + tab_count_of(tableau) == 52,
                    cards@ == d.subrange(0, 52 - Self::dealt_before(i as int) - j),
                    forall|k: int, jj: int|
                        #![trigger tableau.pile_at(k)[jj]]
                        0 <= k < i && 0 <= jj <= k ==> tableau.pile_at(k)[jj] == (Card {
                            value: d[51 - Self::dealt_before(k) - jj].value,
                            suit: d[51 - Self::dealt_before(k) - jj].suit,
                            face_up: false,
                        }),
                    forall|jj: int|
                        0 <= jj < j ==> #[trigger] tableau.pile_at(i as int)[jj] == (Card {
                            value: d[51 - Self::dealt_before(i as int) - jj].value,
                            suit: d[51 - Self::dealt_before(i as int) - jj].suit,
                            face_up: false,
                        }),
                    deck_complete(cards@.to_multiset().add(tab_cards_of(tableau))),
                decreases i + 1 - j,
            {
                proof {
                    assert(tab_count_of(tableau) <= 28);
                    assert(cards@.len() > 0);
                }
                let ghost pre_cards = cards@;
                let ghost pre_tab = tableau;
                let c = cards.pop().unwrap();
                let c2 = Card { value: c.value, suit: c.suit, face_up: false };
                proof {
                    let db: int = Self::dealt_before(i as int);
                    let m: int = 52 - db - j;
                    assert(pre_cards == d.subrange(0, m));
                    assert(d.subrange(0, m)[m - 1] == d[m - 1]);
                    assert(c == d[51 - Self::dealt_before(i as int) - j]);
                    assert forall|k: int| 0 <= k < m - 1 implies cards@[k] == d[k] by {
                        assert(pre_cards[k] == d.subrange(0, m)[k]);
                    }
                    assert(cards@ =~= d.subrange(0, 52 - Self::dealt_before(i as int) - (j + 1)));
                }
                tableau.add_card(i, c2);
                j = j + 1;
                proof {
                    lemma_deal_step(pre_cards, cards@, pre_tab, tableau, i as int, c, c2);
                }
            }
            proof {
                assert(Self::dealt_before(i as int + 1) == Self::dealt_before(i as int) + i + 1);
            }
            i = i + 1;
        }
        let ghost dealt_tab = tableau;
        let ghost m_dealt = cards@.to_multiset().add(tab_cards_of(dealt_tab));
        tableau.flip_all();
        proof {
                lemma_reveal_top_pairs(dealt_tab.pile_at(0));
            lemma_reveal_top_pairs(dealt_tab.pile_at(1));
            lemma_reveal_top_pairs(dealt_tab.pile_at(2));
            lemma_reveal_top_pairs(dealt_tab.pile_at(3));
            lemma_reveal_top_pairs(dealt_tab.pile_at(4));
            lemma_reveal_top_pairs(dealt_tab.pile_at(5));
            lemma_reveal_top_pairs(dealt_tab.pile_at(6));
            assert forall|v: Value, s: Suit| #[trigger]
                pair_count(cards@.to_multiset().add(tab_cards_of(tableau)), v, s) == pair_count(
                    m_dealt,
                    v,
                    s,
                ) by {
                assert(pair_count(reveal_top(dealt_tab.pile_at(0)).to_multiset(), v, s)
                    == pair_count(dealt_tab.pile_at(0).to_multiset(), v, s));
                assert(pair_count(reveal_top(dealt_tab.pile_at(1)).to_multiset(), v, s)
                    == pair_count(dealt_tab.pile_at(1).to_multiset(), v, s));
                assert(pair_count(reveal_top(dealt_tab.pile_at(2)).to_multiset(), v, s)
                    == pair_count(dealt_tab.pile_at(2).to_multiset(), v, s));
                assert(pair_count(reveal_top(dealt_tab.pile_at(3)).to_multiset(), v, s)
                    == pair_count(dealt_tab.pile_at(3).to_multiset(), v, s));
                assert(pair_count(reveal_top(dealt_tab.pile_at(4)).to_multiset(), v, s)
                    == pair_count(dealt_tab.pile_at(4).to_multiset(), v, s));
                assert(pair_count(reveal_top(dealt_tab.pile_at(5)).to_multiset(), v, s)
                    == pair_count(dealt_tab.pile_at(5).to_multiset(), v, s));
                assert(pair_count(reveal_top(dealt_tab.pile_at(6)).to_multiset(), v, s)
                    == pair_count(dealt_tab.pile_at(6).to_multiset(), v, s));
            }
        }
        let stock = Stock::new(cards);
        let waste = Waste::new();
        let mut foundations: Vec<Foundation> = Vec::new();
        foundations.push(Foundation::new(Suit::Heart));
        foundations.push(Foundation::new(Suit::Diamond));
        foundations.push(Foundation::new(Suit::Spade));
        foundations.push(Foundation::new(Suit::Club));
        let g = Game { foundations, stock, waste, tableau, turn: 0 };
        proof {
                assert(g.foundations@[0].suit == Suit::Heart);
            assert(g.foundations@[1].suit == Suit::Diamond);
            assert(g.foundations@[2].suit == Suit::Spade);
            assert(g.foundations@[3].suit == Suit::Club);
            assert forall|v: Value, s: Suit| #[trigger] pair_count(g.cards_of(), v, s) == 1 by {
                assert(!Seq::<Card>::empty().contains(crate::card::up(v, s)));
                assert(!Seq::<Card>::empty().contains(crate::card::down(v, s)));
                assert(pair_count(g.stock@.to_multiset().add(tab_cards_of(g.tableau)), v, s) == 1);
            }
            assert forall|i: int| 0 <= i < 7 implies faces_ok(#[trigger] g.tableau.pile_at(i)) by {
                assert(g.tableau.pile_at(i) == reveal_top(dealt_tab.pile_at(i)));
                assert(dealt_tab.pile_at(i).len() == i + 1);
            }
            assert(g.stock@ =~= d.subrange(0, 24));
            assert forall|i: int, j: int|
                0 <= i < 7 && 0 <= j <= i implies #[trigger] g.tableau.pile_at(i)[j] == (Card {
                value: d[51 - Self::dealt_before(i) - j].value,
                suit: d[51 - Self::dealt_before(i) - j].suit,
                face_up: j == i,
            }) by {
                assert(g.tableau.pile_at(i) == reveal_top(dealt_tab.pile_at(i)));
                assert(dealt_tab.pile_at(i)[j] == (Card {
                    value: d[51 - Self::dealt_before(i) - j].value,
                    suit: d[51 - Self::dealt_before(i) - j].suit,
                    face_up: false,
                }));
            }
        }
        g
    }

    /// A new game: the 52 cards shuffled, then dealt.
    pub fn new() -> (g: Game)
        ensures
            Self::fresh_deal(g),
    {
        let mut cards = full_deck();
        let ghost pre = cards@;
        shuffle(&mut cards);
        proof {
                assert(pre.to_multiset().len() == pre.len());
            assert(cards@.to_multiset().len() == cards@.len());
        }
        Self::new_with_deck(cards)
    }

    pub fn success(&self) -> (r: Success)
        requires
            self.foundations@.len() == 4,
            self.tableau.wf_len(),
        ensures
            Self::success_matches(*self, r),
    {
        if self.victory() {
            Success::Victory(self.display())
        } else {
            Success::ValidMove(self.display())
        }
    }

    /// When a draw can succeed: there is a card to draw, in the stock or,
    /// after a recycle, in the waste.
    pub open spec fn draw_ok(g: Game) -> bool {
        g.stock@.len() > 0 || g.waste@.len() > 0
    }

    /// What a successful draw does: one card leaves the top of the stock
    /// and lands face-up on the waste; an empty stock is first refilled
    /// with the whole waste in reverse order.
    pub open spec fn draw_next(a: Game, b: Game) -> bool {
        &&& b.foundations@ == a.foundations@
        &&& b.tableau.piles@ == a.tableau.piles@
        &&& b.turn == a.turn + 1
        &&& if a.stock@.len() > 0 {
            b.stock@ == a.stock@.drop_last() && b.waste@ == a.waste@.push(
                a.stock@.last().faced_up_spec(),
            )
        } else {
            b.stock@ == a.waste@.reverse().drop_last() && b.waste@ == seq![
                a.waste@[0].faced_up_spec(),
            ]
        }
    }

    /// Draws one card from the stock to the waste, recycling the waste
    /// into the stock first when the stock is out; fails only when both
    /// are empty.
    pub fn draw_from_stock(&mut self) -> (r: Result<Success, Failure>)
        requires
            old(self).wf(),
            old(self).turn < u16::MAX,
        ensures
            final(self).wf(),
            r is Err <==> !Self::draw_ok(*old(self)),
            r is Err ==> r == Err::<Success, Failure>(Failure::InvalidMove) && Self::state_eq(
                *old(self),
                *final(self),
            ),
            r is Ok ==> Self::draw_next(*old(self), *final(self)),
            r matches Ok(s) ==> Self::success_matches(*final(self), s),
    {
        let ghost g0 = *self;
        if self.stock.is_empty() {
            let all = self.waste.get_all();
            self.stock.refresh(all);
            self.waste.clear();
            proof {
                        g0.waste@.lemma_reverse_to_multiset();
                assert(self.cards_of() =~= g0.cards_of());
            }
        }
        let ghost g1 = *self;
        let opt = self.stock.take(1);
        match opt {
            Some(taken) => {
                proof {
                    assert(taken@ =~= seq![g1.stock@.last()]);
                    assert(self.stock@ == g1.stock@.drop_last());
                }
                self.waste.put(taken);
                self.turn = self.turn + 1;
                proof {
                                let c = g1.stock@.last();
                    assert(self.waste@ =~= g1.waste@.push(c.faced_up_spec()));
                    lemma_drop_last_multiset(g1.stock@);
                    assert(self.cards_of() =~= g1.cards_of().remove(c).insert(c.faced_up_spec()));
                    lemma_complete_same_key(
                        g1.cards_of(),
                        self.cards_of(),
                        c,
                        c.faced_up_spec(),
                    );
                    if g0.stock@.len() == 0 {
                        assert(g1.stock@ == g0.waste@.reverse());
                        assert(c == g0.waste@[0]);
                        assert(self.waste@ =~= seq![g0.waste@[0].faced_up_spec()]);
                    }
                }
                Ok(self.success())
            },
            None => {
                proof {
                    assert(g1.stock@.len() == 0);
                    assert(g0.stock@.len() == 0 && g0.waste@.len() == 0);
                    assert(self.stock@ =~= g0.stock@);
                    assert(self.waste@ =~= g0.waste@);
                }
                Err(Failure::InvalidMove)
            },
        }
    }

    /// Whether some foundation accepts the card.
    pub open spec fn fd_accepts(g: Game, c: Card) -> bool {
        exists|i: int| 0 <= i < 4 && (#[trigger] g.foundations@[i]).can_add_spec(c)
    }

    /// When a waste-to-foundation move can succeed.
    pub open spec fn w2f_ok(g: Game) -> bool {
        g.waste@.len() > 0 && Self::fd_accepts(g, g.waste@.last())
    }

    /// What a successful waste-to-foundation move does: the top of the
    /// waste lands on the foundation of its suit.
    pub open spec fn w2f_next(a: Game, b: Game) -> bool {
        let c = a.waste@.last();
        let fi = c.suit.index_spec();
        &&& b.stock@ == a.stock@
        &&& b.tableau.piles@ == a.tableau.piles@
        &&& b.waste@ == a.waste@.drop_last()
        &&& b.foundations@.len() == 4
        &&& b.foundations@[fi]@ == a.foundations@[fi]@.push(c)
        &&& b.foundations@[fi].suit == a.foundations@[fi].suit
        &&& forall|j: int| 0 <= j < 4 && j != fi ==> #[trigger] b.foundations@[j] == a.foundations@[j]
        &&& b.turn == a.turn + 1
    }

    /// Moves the top of the waste to the first foundation that accepts it,
    /// scanning Heart, Diamond, Spade, Club; fails when the waste is empty
    /// or no foundation accepts the card.
    pub fn waste_to_foundation(&mut self) -> (r: Result<Success, Failure>)
        requires
            old(self).wf(),
            old(self).turn < u16::MAX,
        ensures
            final(self).wf(),
            r is Err <==> !Self::w2f_ok(*old(self)),
            r is Err ==> r == Err::<Success, Failure>(Failure::InvalidMove) && Self::state_eq(
                *old(self),
                *final(self),
            ),
            r is Err ==> *final(self) == *old(self),
            r is Ok ==> Self::w2f_next(*old(self), *final(self)),
            r matches Ok(s) ==> Self::success_matches(*final(self), s),
    {
        let top = match self.waste.get_top() {
            None => {
                return Err(Failure::InvalidMove);
            },
            Some(c) => c,
        };
        let mut fi: usize = 0;
        while fi < 4
            invariant
                fi <= 4,
                *self == *old(self),
                old(self).wf(),
                old(self).turn < u16::MAX,
                old(self).waste@.len() > 0,
                top == old(self).waste@.last(),
                forall|j: int|
                    0 <= j < fi ==> !(#[trigger] old(self).foundations@[j]).can_add_spec(top),
            decreases 4 - fi,
        {
            if self.foundations[fi].can_add(&top) {
                let ghost g0 = *self;
                let c = self.waste.take().unwrap();
                self.foundations[fi].add(c);
                self.turn = self.turn + 1;
                proof {
                                assert(g0.foundations@[fi as int].suit.index_spec() == fi);
                    assert(top.suit == g0.foundations@[fi as int].suit);
                    assert(fi == top.suit.index_spec());
                    lemma_drop_last_multiset(g0.waste@);
                    assert(self.cards_of() =~= g0.cards_of());
                    assert(foundation_ok(self.foundations@[fi as int]));
                    assert(Self::w2f_next(g0, *self));
                }
                return Ok(self.success());
            }
            fi = fi + 1;
        }
        Err(Failure::InvalidMove)
    }

    /// When a waste-to-pile move can succeed.
    pub open spec fn w2p_ok(g: Game, pile_num: u8) -> bool {
        &&& 1 <= pile_num <= 7
        &&& g.waste@.len() > 0
        &&& g.tableau.piles@[pile_num - 1].can_add_spec(g.waste@.last())
    }

    /// What a successful waste-to-pile move does: the top of the waste
    /// lands on top of the named pile.
    pub open spec fn w2p_next(a: Game, b: Game, pile_num: u8) -> bool {
        let c = a.waste@.last();
        let pi = pile_num - 1;
        &&& b.stock@ == a.stock@
        &&& b.foundations@ == a.foundations@
        &&& b.waste@ == a.waste@.drop_last()
        &&& b.tableau.wf_len()
        &&& b.tableau.pile_at(pi as int) == a.tableau.pile_at(pi as int).push(c)
        &&& forall|j: int|
            0 <= j < 7 && j != pi ==> #[trigger] b.tableau.pile_at(j) == a.tableau.pile_at(j)
        &&& b.turn == a.turn + 1
    }

    /// Moves the top of the waste onto the named tableau pile when the
    /// pile accepts it; fails otherwise.
    #[verifier::rlimit(90)]
    pub fn waste_to_pile(&mut self, pile_num: u8) -> (r: Result<Success, Failure>)
        requires
            old(self).wf(),
            old(self).turn < u16::MAX,
        ensures
            final(self).wf(),
            r is Err <==> !Self::w2p_ok(*old(self), pile_num),
            r is Err ==> r == Err::<Success, Failure>(Failure::InvalidMove) && Self::state_eq(
                *old(self),
                *final(self),
            ),
            r is Err ==> *final(self) == *old(self),
            r is Ok ==> Self::w2p_next(*old(self), *final(self), pile_num),
            r matches Ok(s) ==> Self::success_matches(*final(self), s),
    {
        if pile_num < 1 || pile_num > 7 {
            return Err(Failure::InvalidMove);
        }
        let idx = (pile_num - 1) as usize;
        let top = match self.waste.get_top() {
            None => {
                return Err(Failure::InvalidMove);
            },
            Some(c) => c,
        };
        if !self.tableau.can_add(idx, &top) {
            return Err(Failure::InvalidMove);
        }
        let ghost g0 = *self;
        let c = self.waste.take().unwrap();
        self.tableau.add_card(idx, c);
        self.turn = self.turn + 1;
        proof {
            lemma_w2p_complete(g0, *self, idx as int);
            crate::pile::lemma_faces_push(g0.tableau.pile_at(idx as int), top);
        }
        Ok(self.success())
    }

    /// When a foundation-to-pile move can succeed.
    pub open spec fn f2p_ok(g: Game, foundation_index: u8, pile_index: u8) -> bool {
        &&& foundation_index < 4
        &&& 1 <= pile_index <= 7
        &&& g.foundations@[foundation_index as int]@.len() > 0
        &&& g.tableau.piles@[pile_index - 1].can_add_spec(
            g.foundations@[foundation_index as int]@.last(),
        )
    }

    /// What a successful foundation-to-pile move does: the top of the
    /// named foundation returns to the named pile.
    pub open spec fn f2p_next(a: Game, b: Game, foundation_index: u8, pile_index: u8) -> bool {
        let c = a.foundations@[foundation_index as int]@.last();
        let pi = pile_index - 1;
        &&& b.stock@ == a.stock@
        &&& b.waste@ == a.waste@
        &&& b.foundations@.len() == 4
        &&& b.foundations@[foundation_index as int]@ == a.foundations@[foundation_index as int]@.drop_last()
        &&& b.foundations@[foundation_index as int].suit == a.foundations@[foundation_index as int].suit
        &&& forall|j: int|
            0 <= j < 4 && j != foundation_index ==> #[trigger] b.foundations@[j]
                == a.foundations@[j]
        &&& b.tableau.wf_len()
        &&& b.tableau.pile_at(pi as int) == a.tableau.pile_at(pi as int).push(c)
        &&& forall|j: int|
            0 <= j < 7 && j != pi ==> #[trigger] b.tableau.pile_at(j) == a.tableau.pile_at(j)
        &&& b.turn == a.turn + 1
    }

    /// Moves the top of the named foundation back onto the named tableau
    /// pile when the pile accepts it; fails otherwise.
    #[verifier::rlimit(90)]
    pub fn foundation_to_pile(&mut self, foundation_index: u8, pile_index: u8) -> (r: Result<
        Success,
        Failure,
    >)
        requires
            old(self).wf(),
            old(self).turn < u16::MAX,
        ensures
            final(self).wf(),
            r is Err <==> !Self::f2p_ok(*old(self), foundation_index, pile_index),
            r is Err ==> r == Err::<Success, Failure>(Failure::InvalidMove) && Self::state_eq(
                *old(self),
                *final(self),
            ),
            r is Err ==> *final(self) == *old(self),
            r is Ok ==> Self::f2p_next(*old(self), *final(self), foundation_index, pile_index),
            r matches Ok(s) ==> Self::success_matches(*final(self), s),
    {
        if foundation_index >= 4 || pile_index < 1 || pile_index > 7 {
            return Err(Failure::InvalidMove);
        }
        let fi = foundation_index as usize;
        let idx = (pile_index - 1) as usize;
        let top = match self.foundations[fi].get_top() {
            None => {
                return Err(Failure::InvalidMove);
            },
            Some(c) => c,
        };
        if !self.tableau.can_add(idx, &top) {
            return Err(Failure::InvalidMove);
        }
        let ghost g0 = *self;
        let c = self.foundations[fi].take().unwrap();
        self.tableau.add_card(idx, c);
        self.turn = self.turn + 1;
        proof {
            let f = g0.foundations@[fi as int];
            lemma_f2p_complete(g0, *self, fi as int, idx as int);
            assert(top.face_up);
            crate::pile::lemma_faces_push(g0.tableau.pile_at(idx as int), top);
            assert forall|j: int| 0 <= j < 4 implies foundation_ok(
                #[trigger] self.foundations@[j],
            ) by {
                if j == fi {
                    assert(forall|k: int|
                        0 <= k < self.foundations@[j]@.len() ==> self.foundations@[j]@[k]
                            == f@[k]);
                }
            }
        }
        Ok(self.success())
    }

    /// When a pile-to-foundation move can succeed.
    pub open spec fn p2f_ok(g: Game, pile_num: u8) -> bool {
        &&& 1 <= pile_num <= 7
        &&& g.tableau.pile_at(pile_num - 1).len() > 0
        &&& Self::fd_accepts(g, g.tableau.pile_at(pile_num - 1).last())
    }

    /// What a successful pile-to-foundation move does: the top of the
    /// named pile lands on the foundation of its suit, and the card it
    /// uncovers is turned face-up.
    pub open spec fn p2f_next(a: Game, b: Game, pile_num: u8) -> bool {
        let pi = pile_num - 1;
        let c = a.tableau.pile_at(pi as int).last();
        let fi = c.suit.index_spec();
        &&& b.stock@ == a.stock@
        &&& b.waste@ == a.waste@
        &&& b.foundations@.len() == 4
        &&& b.foundations@[fi]@ == a.foundations@[fi]@.push(c)
        &&& b.foundations@[fi].suit == a.foundations@[fi].suit
        &&& forall|j: int| 0 <= j < 4 && j != fi ==> #[trigger] b.foundations@[j] == a.foundations@[j]
        &&& b.tableau.wf_len()
        &&& b.tableau.pile_at(pi as int) == reveal_top(a.tableau.pile_at(pi as int).drop_last())
        &&& forall|j: int|
            0 <= j < 7 && j != pi ==> #[trigger] b.tableau.pile_at(j) == a.tableau.pile_at(j)
        &&& b.turn == a.turn + 1
    }

    /// Moves the top of the named pile to the first foundation that
    /// accepts it, scanning Heart, Diamond, Spade, Club, and reveals the
    /// card it uncovers; fails when the pile is empty or no foundation
    /// accepts its top.
    #[verifier::rlimit(90)]
    pub fn pile_to_foundation(&mut self, pile_num: u8) -> (r: Result<Success, Failure>)
        requires
            old(self).wf(),
            old(self).turn < u16::MAX,
        ensures
            final(self).wf(),
            r is Err <==> !Self::p2f_ok(*old(self), pile_num),
            r is Err ==> r == Err::<Success, Failure>(Failure::InvalidMove) && Self::state_eq(
                *old(self),
                *final(self),
            ),
            r is Err ==> *final(self) == *old(self),
            r is Ok ==> Self::p2f_next(*old(self), *final(self), pile_num),
            r matches Ok(s) ==> Self::success_matches(*final(self), s),
    {
        if pile_num < 1 || pile_num > 7 {
            return Err(Failure::InvalidMove);
        }
        let idx = (pile_num - 1) as usize;
        let top = match self.tableau.get_top(idx) {
            None => {
                return Err(Failure::InvalidMove);
            },
            Some(c) => c,
        };
        let mut fi: usize = 0;
        while fi < 4
            invariant
                fi <= 4,
                *self == *old(self),
                old(self).wf(),
                old(self).turn < u16::MAX,
                1 <= pile_num <= 7,
                idx == pile_num - 1,
                old(self).tableau.pile_at(idx as int).len() > 0,
                top == old(self).tableau.pile_at(idx as int).last(),
                forall|j: int|
                    0 <= j < fi ==> !(#[trigger] old(self).foundations@[j]).can_add_spec(top),
            decreases 4 - fi,
        {
            if self.foundations[fi].can_add(&top) {
                let ghost g0 = *self;
                let ghost pp = g0.tableau.pile_at(idx as int);
                let c = self.tableau.take_raw(idx).unwrap();
                self.foundations[fi].add(c);
                proof {
                    assert(g0.foundations@[fi as int].suit.index_spec() == fi);
                    assert(fi == top.suit.index_spec());
                    crate::counting::lemma_t2f_complete(g0, *self, idx as int, fi as int);
                }
                let ghost g1 = *self;
                self.tableau.flip_top_of(idx);
                self.turn = self.turn + 1;
                proof {
                    crate::counting::lemma_reveal_complete(g1, *self, idx as int);
                    crate::pile::lemma_faces_take(pp);
                    assert(foundation_ok(self.foundations@[fi as int]));
                    assert(Self::p2f_next(g0, *self, pile_num));
                }
                return Ok(self.success());
            }
            fi = fi + 1;
        }
        Err(Failure::InvalidMove)
    }

    /// When a pile-to-pile move can succeed.
    pub open spec fn p2p_ok(g: Game, src_num: u8, dest_num: u8) -> bool {
        &&& 1 <= src_num <= 7
        &&& 1 <= dest_num <= 7
        &&& g.tableau.pile_at(src_num - 1).len() > 0
        &&& g.tableau.piles@[dest_num - 1].can_add_spec(g.tableau.pile_at(src_num - 1).last())
    }

    /// What a successful pile-to-pile move does: the single top card of
    /// the source pile lands on the destination pile, and the card it
    /// uncovers is turned face-up.
    pub open spec fn p2p_next(a: Game, b: Game, src_num: u8, dest_num: u8) -> bool {
        let si = src_num - 1;
        let di = dest_num - 1;
        let c = a.tableau.pile_at(si as int).last();
        &&& b.stock@ == a.stock@
        &&& b.waste@ == a.waste@
        &&& b.foundations@ == a.foundations@
        &&& b.tableau.wf_len()
        &&& b.tableau.pile_at(si as int) == reveal_top(a.tableau.pile_at(si as int).drop_last())
        &&& b.tableau.pile_at(di as int) == a.tableau.pile_at(di as int).push(c)
        &&& forall|j: int|
            0 <= j < 7 && j != si && j != di ==> #[trigger] b.tableau.pile_at(j)
                == a.tableau.pile_at(j)
        &&& b.turn == a.turn + 1
    }

    /// Moves the single top card of one pile onto another when the
    /// destination accepts it, revealing the card it uncovers; fails
    /// otherwise.
    #[verifier::rlimit(90)]
    pub fn pile_to_pile(&mut self, src_pile_num: u8, dest_pile_num: u8) -> (r: Result<
        Success,
        Failure,
    >)
        requires
            old(self).wf(),
            old(self).turn < u16::MAX,
        ensures
            final(self).wf(),
            r is Err <==> !Self::p2p_ok(*old(self), src_pile_num, dest_pile_num),
            r is Err ==> r == Err::<Success, Failure>(Failure::InvalidMove) && Self::state_eq(
                *old(self),
                *final(self),
            ),
            r is Err ==> *final(self) == *old(self),
            r is Ok ==> Self::p2p_next(*old(self), *final(self), src_pile_num, dest_pile_num),
            r matches Ok(s) ==> Self::success_matches(*final(self), s),
    {
        if src_pile_num < 1 || src_pile_num > 7 || dest_pile_num < 1 || dest_pile_num > 7 {
            return Err(Failure::InvalidMove);
        }
        let src = (src_pile_num - 1) as usize;
        let dest = (dest_pile_num - 1) as usize;
        let top = match self.tableau.get_top(src) {
            None => {
                return Err(Failure::InvalidMove);
            },
            Some(c) => c,
        };
        if !self.tableau.can_add(dest, &top) {
            return Err(Failure::InvalidMove);
        }
        proof {
            if src == dest {
                assert(!self.tableau.piles@[dest as int].can_add_spec(top));
            }
        }
        let ghost g0 = *self;
        let ghost pp = g0.tableau.pile_at(src as int);
        let c = self.tableau.take_raw(src).unwrap();
        self.tableau.add_card(dest, c);
        proof {
            crate::counting::lemma_t2t_complete(g0, *self, src as int, dest as int);
        }
        let ghost g1 = *self;
        self.tableau.flip_top_of(src);
        self.turn = self.turn + 1;
        proof {
            crate::counting::lemma_reveal_complete(g1, *self, src as int);
            crate::pile::lemma_faces_take(pp);
            crate::pile::lemma_faces_push(g0.tableau.pile_at(dest as int), top);
        }
        Ok(self.success())
    }

    /// What the auto-finish scan of the first `n` piles yields: the
    /// 1-based index of the leftmost pile whose top card has the strictly
    /// lowest rank so far, and that rank; 0 and 14 while every pile seen
    /// is empty. Ties keep the earlier pile, since only a strictly lower
    /// rank displaces the pick.
    pub open spec fn low_scan(g: Game, n: int) -> (int, int)
        decreases n,
    {
        if n <= 0 {
            (0int, 14int)
        } else {
            let prev = Self::low_scan(g, n - 1);
            if g.tableau.pile_at(n - 1).len() > 0 && g.tableau.pile_at(n - 1).last().value.rank_spec()
                < prev.1 {
                (n, g.tableau.pile_at(n - 1).last().value.rank_spec())
            } else {
                prev
            }
        }
    }

    /// The pile the auto-finish pass would try next: the leftmost pile
    /// whose top card has the lowest rank, as a 1-based index, or 0 when
    /// every pile is empty.
    pub open spec fn low_pile_spec(g: Game) -> int {
        Self::low_scan(g, 7).0
    }

    /// The auto-finish stopping condition: either no pile has a card to
    /// offer, or the scan's pick is not accepted by the foundation of its
    /// suit.
    pub open spec fn auto_stuck(g: Game) -> bool {
        let lp = Self::low_pile_spec(g);
        lp == 0 || !Self::fd_accepts(g, g.tableau.pile_at(lp - 1).last())
    }

    /// Plays every tableau top it can to the foundations: repeatedly picks
    /// the pile whose top card has the lowest rank, scanning left to right
    /// (ties keep the leftmost), and tries to move it to its foundation;
    /// stops at the first refused move or when the tableau is bare. It
    /// always returns a success snapshot, possibly of an unchanged state;
    /// every foundation only grows, and a state that is already stuck is
    /// returned untouched, so a second call changes nothing.
    pub fn auto_finish(&mut self) -> (r: Result<Success, Failure>)
        requires
            old(self).wf(),
            old(self).turn + old(self).tableau_count() <= u16::MAX,
        ensures
            final(self).wf(),
            r is Ok,
            final(self).stock@ == old(self).stock@,
            final(self).waste@ == old(self).waste@,
            final(self).foundations@.len() == 4,
            forall|i: int|
                0 <= i < 4 ==> (#[trigger] old(self).foundations@[i]@).is_prefix_of(
                    final(self).foundations@[i]@,
                ) && final(self).foundations@[i].suit == old(self).foundations@[i].suit,
            final(self).foundation_count() >= old(self).foundation_count(),
            final(self).turn + final(self).tableau_count() == old(self).turn + old(
                self,
            ).tableau_count(),
            final(self).turn >= old(self).turn,
            Self::auto_stuck(*final(self)),
            Self::auto_stuck(*old(self)) ==> *final(self) == *old(self),
            r matches Ok(s) ==> Self::success_matches(*final(self), s),
    {
        loop
            invariant
                self.wf(),
                self.stock@ == old(self).stock@,
                self.waste@ == old(self).waste@,
                self.foundations@.len() == 4,
                forall|i: int|
                    0 <= i < 4 ==> (#[trigger] old(self).foundations@[i]@).is_prefix_of(
                        self.foundations@[i]@,
                    ) && self.foundations@[i].suit == old(self).foundations@[i].suit,
                self.foundation_count() >= old(self).foundation_count(),
                self.turn + self.tableau_count() == old(self).turn + old(self).tableau_count(),
                self.turn >= old(self).turn,
                self.turn + self.tableau_count() <= u16::MAX,
                Self::auto_stuck(*old(self)) ==> *self == *old(self),
            ensures
                self.wf(),
                self.stock@ == old(self).stock@,
                self.waste@ == old(self).waste@,
                self.foundations@.len() == 4,
                forall|i: int|
                    0 <= i < 4 ==> (#[trigger] old(self).foundations@[i]@).is_prefix_of(
                        self.foundations@[i]@,
                    ) && self.foundations@[i].suit == old(self).foundations@[i].suit,
                self.foundation_count() >= old(self).foundation_count(),
                self.turn + self.tableau_count() == old(self).turn + old(self).tableau_count(),
                self.turn >= old(self).turn,
                Self::auto_stuck(*self),
                Self::auto_stuck(*old(self)) ==> *self == *old(self),
            decreases self.tableau_count(),
        {
            let ghost pre = *self;
            let mut low_pile: u8 = 0;
            let mut low_value: u8 = 14;
            let mut i: usize = 0;
            while i < 7
                invariant
                    i <= 7,
                    self.wf(),
                    *self == pre,
                    low_pile <= 7,
                    low_pile > 0 ==> 1 <= low_pile <= 7 && self.tableau.pile_at(
                        low_pile - 1,
                    ).len() > 0,
                    (low_pile as int, low_value as int) == Self::low_scan(*self, i as int),
                decreases 7 - i,
            {
                let card_opt = self.tableau.get_top(i);
                if let Some(card) = card_opt {
                    if card.value.rank() < low_value {
                        low_value = card.value.rank();
                        low_pile = (i + 1) as u8;
                    }
                }
                i = i + 1;
            }
            proof {
                assert((low_pile as int, low_value as int) == Self::low_scan(pre, 7));
            }
            if low_pile > 0 {
                proof {
                    assert(self.tableau_count() >= self.tableau.pile_at(low_pile - 1).len());
                }
                let result = self.pile_to_foundation(low_pile);
                match result {
                    Err(_) => {
                        proof {
                            assert(*self == pre);
                            assert(Self::low_pile_spec(*self) == low_pile);
                            assert(!Self::fd_accepts(
                                *self,
                                self.tableau.pile_at(low_pile - 1).last(),
                            ));
                        }
                        break;
                    },
                    Ok(_) => {
                        proof {
                            let fi = pre.tableau.pile_at(low_pile - 1).last().suit.index_spec();
                            assert forall|k: int|
                                0 <= k < 4 implies (#[trigger] old(
                                self,
                            ).foundations@[k]@).is_prefix_of(self.foundations@[k]@) by {
                                if k == fi {
                                    lemma_prefix_push(
                                        old(self).foundations@[k]@,
                                        pre.foundations@[k]@,
                                        pre.tableau.pile_at(low_pile - 1).last(),
                                    );
                                }
                            }
                            if Self::auto_stuck(*old(self)) {
                                assert(pre == *old(self));
                                assert(Self::low_pile_spec(pre) == low_pile);
                                assert(Self::fd_accepts(
                                    pre,
                                    pre.tableau.pile_at(low_pile - 1).last(),
                                ));
                                assert(false);
                            }
                        }
                    },
                }
            } else {
                proof {
                    assert(Self::low_pile_spec(*self) == 0);
                }
                break;
            }
        }
        Ok(self.success())
    }

    /// Routes a parsed command to the move it names. `Quit`, `ShowHelp`
    /// and `Retire` are not the engine's to carry out and are refused as
    /// unknown commands.
    pub fn exec_command(&mut self, cmd: Command) -> (r: Result<Success, Failure>)
        requires
            old(self).wf(),
            old(self).turn < u16::MAX,
            old(self).turn + old(self).tableau_count() <= u16::MAX,
        ensures
            final(self).wf(),
            match cmd {
                Command::DrawFromStock => {
                    &&& (r is Err <==> !Self::draw_ok(*old(self)))
                    &&& (r is Ok ==> Self::draw_next(*old(self), *final(self)))
                },
                Command::WasteToFoundation => {
                    &&& (r is Err <==> !Self::w2f_ok(*old(self)))
                    &&& (r is Ok ==> Self::w2f_next(*old(self), *final(self)))
                },
                Command::AutoFinish => {
                    &&& r is Ok
                    &&& final(self).foundations@.len() == 4
                    &&& forall|i: int|
                        0 <= i < 4 ==> (#[trigger] old(self).foundations@[i]@).is_prefix_of(
                            final(self).foundations@[i]@,
                        ) && final(self).foundations@[i].suit == old(self).foundations@[i].suit
                    &&& final(self).foundation_count() >= old(self).foundation_count()
                    &&& final(self).stock@ == old(self).stock@
                    &&& final(self).waste@ == old(self).waste@
                    &&& final(self).turn + final(self).tableau_count() == old(self).turn + old(
                        self,
                    ).tableau_count()
                    &&& final(self).turn >= old(self).turn
                    &&& Self::auto_stuck(*final(self))
                    &&& (Self::auto_stuck(*old(self)) ==> *final(self) == *old(self))
                },
                Command::WasteToPile { pile_index } => {
                    &&& (r is Err <==> !Self::w2p_ok(*old(self), pile_index))
                    &&& (r is Ok ==> Self::w2p_next(*old(self), *final(self), pile_index))
                },
                Command::PileToFoundation { pile_index } => {
                    &&& (r is Err <==> !Self::p2f_ok(*old(self), pile_index))
                    &&& (r is Ok ==> Self::p2f_next(*old(self), *final(self), pile_index))
                },
                Command::PileToPile { src_pile, dest_pile } => {
                    &&& (r is Err <==> !Self::p2p_ok(*old(self), src_pile, dest_pile))
                    &&& (r is Ok ==> Self::p2p_next(*old(self), *final(self), src_pile, dest_pile))
                },
                Command::FoundationToPile { foundation_index, pile_index } => {
                    &&& (r is Err <==> !Self::f2p_ok(*old(self), foundation_index, pile_index))
                    &&& (r is Ok ==> Self::f2p_next(
                        *old(self),
                        *final(self),
                        foundation_index,
                        pile_index,
                    ))
                },
                _ => r == Err::<Success, Failure>(Failure::InvalidCommand) && Self::state_eq(
                    *old(self),
                    *final(self),
                ),
            },
            r is Err && !(cmd is AutoFinish) && !(cmd is Quit) && !(cmd is ShowHelp) && !(cmd
                is Retire) ==> r == Err::<Success, Failure>(Failure::InvalidMove) && Self::state_eq(
                *old(self),
                *final(self),
            ),
            r matches Ok(s) ==> Self::success_matches(*final(self), s),
    {
        match cmd {
            Command::DrawFromStock => self.draw_from_stock(),
            Command::WasteToFoundation => self.waste_to_foundation(),
            Command::AutoFinish => self.auto_finish(),
            Command::WasteToPile { pile_index } => self.waste_to_pile(pile_index),
            Command::PileToFoundation { pile_index } => self.pile_to_foundation(pile_index),
            Command::PileToPile { src_pile, dest_pile } => self.pile_to_pile(src_pile, dest_pile),
            Command::FoundationToPile { foundation_index, pile_index } => self.foundation_to_pile(
                foundation_index,
                pile_index,
            ),
            _ => Err(Failure::InvalidCommand),
        }
    }
}

} // verus!


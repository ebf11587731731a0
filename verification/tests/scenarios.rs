use solitaire::card::Card;
use solitaire::card::Suit;
use solitaire::card::Value;
use solitaire::deck::full_deck;
use solitaire::game::Game;
use solitaire::results::Failure;
use solitaire::results::Success;

fn canonical_deck() -> Vec<Card> {
    full_deck()
}

fn find_card(deck: &Vec<Card>, v: Value, s: Suit) -> usize {
    for i in 0..deck.len() {
        if deck[i].value == v && deck[i].suit == s {
            return i;
        }
    }
    panic!("card not in deck");
}

#[test]
fn new_game_deal_shape() {
    let g = Game::new();
    assert_eq!(g.turn, 0);
    assert_eq!(g.stock.size(), 24);
    assert_eq!(g.waste.size(), 0);
    for f in 0..4 {
        assert_eq!(g.foundations[f].size(), 0);
    }
    for i in 0..7 {
        assert_eq!(g.tableau.piles[i].size(), i + 1);
        let cards = &g.tableau.piles[i].cards;
        for j in 0..cards.len() {
            if j == cards.len() - 1 {
                assert!(cards[j].face_up);
            } else {
                assert!(!cards[j].face_up);
            }
        }
    }
}

#[test]
fn new_game_deck_integrity() {
    let g = Game::new();
    let mut seen = vec![false; 52];
    let mut count = 0;
    let mut note = |c: &Card| {
        let suit_index = match c.suit {
            Suit::Heart => 0,
            Suit::Diamond => 1,
            Suit::Spade => 2,
            Suit::Club => 3,
        };
        let key = suit_index * 13 + (c.value.rank() as usize - 1);
        assert!(!seen[key], "duplicate card after the deal");
        seen[key] = true;
        count += 1;
    };
    for c in g.stock.cards.iter() {
        note(c);
    }
    for i in 0..7 {
        for c in g.tableau.piles[i].cards.iter() {
            note(c);
        }
    }
    assert_eq!(count, 52);
}

#[test]
fn draw_from_full_stock() {
    let mut g = Game::new();
    let r = g.draw_from_stock();
    assert!(matches!(r, Ok(Success::ValidMove(_))));
    assert_eq!(g.stock.size(), 23);
    assert_eq!(g.waste.size(), 1);
    assert_eq!(g.turn, 1);
    let top = g.waste.get_top().unwrap();
    assert!(top.face_up);
}

#[test]
fn draw_recycles_exhausted_stock() {
    let deck = canonical_deck();
    let first_drawn = deck[23];
    let mut g = Game::new_with_deck(deck);
    for _ in 0..24 {
        assert!(g.draw_from_stock().is_ok());
    }
    assert_eq!(g.stock.size(), 0);
    assert_eq!(g.waste.size(), 24);
    let r = g.draw_from_stock();
    assert!(r.is_ok());
    assert_eq!(g.stock.size(), 23);
    assert_eq!(g.waste.size(), 1);
    assert_eq!(g.turn, 25);
    let top = g.waste.get_top().unwrap();
    assert_eq!(top.value, first_drawn.value);
    assert_eq!(top.suit, first_drawn.suit);
}

#[test]
fn waste_ace_goes_to_heart_foundation() {
    let mut deck = canonical_deck();
    let ah = find_card(&deck, Value::Ace, Suit::Heart);
    deck.swap(ah, 23);
    let mut g = Game::new_with_deck(deck);
    assert!(g.draw_from_stock().is_ok());
    let top = g.waste.get_top().unwrap();
    assert_eq!(top.value, Value::Ace);
    assert_eq!(top.suit, Suit::Heart);
    let before_waste = g.waste.size();
    let r = g.waste_to_foundation();
    assert!(r.is_ok());
    assert_eq!(g.foundations[0].size(), 1);
    let fd_top = g.foundations[0].get_top().unwrap();
    assert_eq!(fd_top.value, Value::Ace);
    assert_eq!(fd_top.suit, Suit::Heart);
    assert_eq!(g.waste.size(), before_waste - 1);
    assert_eq!(g.turn, 2);
}

#[test]
fn king_moves_to_empty_pile_and_reveals() {
    let mut deck = canonical_deck();
    let ah = find_card(&deck, Value::Ace, Suit::Heart);
    deck.swap(ah, 51);
    let ks = find_card(&deck, Value::King, Suit::Spade);
    deck.swap(ks, 49);
    let mut g = Game::new_with_deck(deck);
    // the single card of the first pile goes to its foundation, leaving
    // that pile empty
    assert!(g.pile_to_foundation(1).is_ok());
    assert_eq!(g.tableau.piles[0].size(), 0);
    let under = g.tableau.piles[1].cards[0];
    assert!(!under.face_up);
    // an empty pile accepts any card, a king included
    let r = g.pile_to_pile(2, 1);
    assert!(r.is_ok());
    let moved = g.tableau.piles[0].get_top().unwrap();
    assert_eq!(moved.value, Value::King);
    assert_eq!(moved.suit, Suit::Spade);
    // the uncovered card of the source pile is now face-up
    let revealed = g.tableau.piles[1].get_top().unwrap();
    assert!(revealed.face_up);
    assert_eq!(revealed.value, under.value);
    assert_eq!(revealed.suit, under.suit);
}

#[test]
fn failed_moves_change_nothing() {
    let g0 = Game::new();
    let stock0 = g0.stock.size();
    let mut g = g0;
    // the waste is empty after the deal, so these must fail
    assert!(matches!(g.waste_to_foundation(), Err(Failure::InvalidMove)));
    assert!(matches!(g.waste_to_pile(3), Err(Failure::InvalidMove)));
    // out-of-range indices fail instead of panicking
    assert!(matches!(g.waste_to_pile(0), Err(Failure::InvalidMove)));
    assert!(matches!(g.waste_to_pile(8), Err(Failure::InvalidMove)));
    assert!(matches!(g.pile_to_foundation(0), Err(Failure::InvalidMove)));
    assert!(matches!(g.pile_to_pile(1, 9), Err(Failure::InvalidMove)));
    assert!(matches!(g.foundation_to_pile(4, 1), Err(Failure::InvalidMove)));
    // an empty foundation has nothing to give back
    assert!(matches!(g.foundation_to_pile(0, 1), Err(Failure::InvalidMove)));
    assert_eq!(g.turn, 0);
    assert_eq!(g.stock.size(), stock0);
    assert_eq!(g.waste.size(), 0);
}

#[test]
fn foundation_ranks_have_no_gaps() {
    let mut deck = canonical_deck();
    let ah = find_card(&deck, Value::Ace, Suit::Heart);
    deck.swap(ah, 23);
    let twoh = find_card(&deck, Value::Two, Suit::Heart);
    deck.swap(twoh, 22);
    let mut g = Game::new_with_deck(deck);
    assert!(g.draw_from_stock().is_ok());
    assert!(g.waste_to_foundation().is_ok());
    assert!(g.draw_from_stock().is_ok());
    assert!(g.waste_to_foundation().is_ok());
    assert_eq!(g.foundations[0].size(), 2);
    for i in 0..g.foundations[0].cards.len() {
        assert_eq!(g.foundations[0].cards[i].value.rank() as usize, i + 1);
        assert_eq!(g.foundations[0].cards[i].suit, Suit::Heart);
    }
    // a foundation card can come back to a matching pile top or an empty
    // pile only; here pile tops cannot take the two of hearts unless the
    // rule holds, so check the failure is clean when nothing accepts it
    let turn_before = g.turn;
    for p in 1..=7u8 {
        let top = g.tableau.piles[(p - 1) as usize].get_top().unwrap();
        let accepts = top.face_up
            && top.value.rank() == Value::Two.rank() + 1
            && (top.suit == Suit::Spade || top.suit == Suit::Club);
        if !accepts {
            assert!(matches!(g.foundation_to_pile(0, p), Err(Failure::InvalidMove)));
        }
    }
    assert_eq!(
        g.foundations[0].size(),
        2,
        "failed moves must not shrink the foundation"
    );
    assert_eq!(g.turn, turn_before);
}

#[test]
fn display_shows_counts_and_piles() {
    let g = Game::new();
    let text = g.display();
    assert!(text.contains("Turn: 0"));
    assert!(text.contains("Stock: 24"));
    assert!(text.contains("Waste: 0"));
    // one line per pile, numbered
    for i in 1..=7 {
        assert!(text.contains(&format!("{}: ", i)));
    }
    // 28 dealt cards, 21 of them face-down
    assert_eq!(text.matches("[##]").count(), 21 + 1); // the stock shows a back too
}

#[test]
fn auto_finish_never_fails_and_keeps_foundations() {
    let mut g = Game::new();
    let before: usize = (0..4).map(|i| g.foundations[i].size()).sum();
    let r = g.auto_finish();
    assert!(r.is_ok());
    let after: usize = (0..4).map(|i| g.foundations[i].size()).sum();
    assert!(after >= before);
}

#[test]
fn tableau_single_card_move_rule() {
    let mut t = solitaire::tableau::Tableau::new();
    t.add_card(0, Card { value: Value::Eight, suit: Suit::Spade, face_up: true });
    t.add_card(1, Card { value: Value::Seven, suit: Suit::Heart, face_up: true });
    // a red seven goes onto a black eight
    assert!(t.do_move(1, 0).is_ok());
    assert_eq!(t.piles[0].size(), 2);
    assert_eq!(t.piles[1].size(), 0);
    // an empty source has nothing to move
    assert!(t.do_move(1, 0).is_err());
    // a pile cannot take its own top card
    assert!(t.do_move(0, 0).is_err());
    // a black seven is refused: same color
    t.add_card(2, Card { value: Value::Seven, suit: Suit::Club, face_up: true });
    assert!(t.do_move(2, 0).is_err());
}

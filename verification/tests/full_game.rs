use solitaire::card::Card;
use solitaire::card::Suit;
use solitaire::card::Value;
use solitaire::game::Game;
use solitaire::results::Success;

fn card(rank: u8, suit: Suit) -> Card {
    Card { value: Value::of_rank(rank), suit, face_up: false }
}

/// A deck laid out so the whole game can be played out: the stock yields
/// all hearts then diamonds ace to jack in order, and the tableau piles
/// are stacked so every top is playable in turn.
fn winnable_deck() -> Vec<Card> {
    let mut deck = vec![card(1, Suit::Heart); 52];
    // the stock: drawn from index 23 downward
    for r in 1..=13u8 {
        deck[(24 - r) as usize] = card(r, Suit::Heart);
    }
    for r in 1..=11u8 {
        deck[(11 - r) as usize] = card(r, Suit::Diamond);
    }
    // pile 1: the king of diamonds alone
    deck[51] = card(13, Suit::Diamond);
    // pile 2: queen of diamonds under the king of clubs
    deck[50] = card(12, Suit::Diamond);
    deck[49] = card(13, Suit::Club);
    // pile 3: queen, jack, ten of clubs, ten on top
    deck[48] = card(12, Suit::Club);
    deck[47] = card(11, Suit::Club);
    deck[46] = card(10, Suit::Club);
    // pile 4: nine down to six of clubs
    deck[45] = card(9, Suit::Club);
    deck[44] = card(8, Suit::Club);
    deck[43] = card(7, Suit::Club);
    deck[42] = card(6, Suit::Club);
    // pile 5: five down to ace of clubs
    deck[41] = card(5, Suit::Club);
    deck[40] = card(4, Suit::Club);
    deck[39] = card(3, Suit::Club);
    deck[38] = card(2, Suit::Club);
    deck[37] = card(1, Suit::Club);
    // pile 6: king down to eight of spades
    deck[36] = card(13, Suit::Spade);
    deck[35] = card(12, Suit::Spade);
    deck[34] = card(11, Suit::Spade);
    deck[33] = card(10, Suit::Spade);
    deck[32] = card(9, Suit::Spade);
    deck[31] = card(8, Suit::Spade);
    // pile 7: seven down to ace of spades
    deck[30] = card(7, Suit::Spade);
    deck[29] = card(6, Suit::Spade);
    deck[28] = card(5, Suit::Spade);
    deck[27] = card(4, Suit::Spade);
    deck[26] = card(3, Suit::Spade);
    deck[25] = card(2, Suit::Spade);
    deck[24] = card(1, Suit::Spade);
    deck
}

#[test]
fn full_game_reaches_victory() {
    let mut g = Game::new_with_deck(winnable_deck());
    // all hearts, then diamonds up to the jack, through the waste
    for _ in 0..24 {
        assert!(g.draw_from_stock().is_ok());
        assert!(g.waste_to_foundation().is_ok());
    }
    assert_eq!(g.foundations[0].size(), 13);
    assert_eq!(g.foundations[1].size(), 11);
    // spades off the tableau
    for _ in 0..7 {
        assert!(g.pile_to_foundation(7).is_ok());
    }
    for _ in 0..6 {
        assert!(g.pile_to_foundation(6).is_ok());
    }
    // clubs off the tableau
    for _ in 0..5 {
        assert!(g.pile_to_foundation(5).is_ok());
    }
    for _ in 0..4 {
        assert!(g.pile_to_foundation(4).is_ok());
    }
    for _ in 0..3 {
        assert!(g.pile_to_foundation(3).is_ok());
    }
    assert!(!g.victory());
    assert!(g.pile_to_foundation(2).is_ok()); // king of clubs
    assert!(g.pile_to_foundation(2).is_ok()); // queen of diamonds
    let last = g.pile_to_foundation(1); // king of diamonds
    assert!(matches!(last, Ok(Success::Victory(_))));
    assert!(g.victory());
    assert_eq!(g.turn, 24 * 2 + 28);
    for i in 0..4 {
        assert_eq!(g.foundations[i].size(), 13);
    }
    // after victory, the next successful command reports victory too
    let again = g.auto_finish();
    assert!(matches!(again, Ok(Success::Victory(_))));
}

#[test]
fn auto_finish_plays_out_bare_aces() {
    // a tableau whose tops are climbing spades lets the auto finisher work:
    // after the spade ace and two reach their foundation by hand, the
    // finisher should keep going on its own
    let mut g = Game::new_with_deck(winnable_deck());
    for _ in 0..24 {
        assert!(g.draw_from_stock().is_ok());
        assert!(g.waste_to_foundation().is_ok());
    }
    let turn_before = g.turn;
    let tableau_before: usize = (0..7).map(|i| g.tableau.piles[i].size()).sum();
    let r = g.auto_finish();
    assert!(r.is_ok());
    let tableau_after: usize = (0..7).map(|i| g.tableau.piles[i].size()).sum();
    // every move it made took one card off the tableau and one turn
    assert_eq!(
        (g.turn - turn_before) as usize,
        tableau_before - tableau_after
    );
    // the lowest-rank scan finds the spade ace first, so it moves at least
    // the whole spade run
    assert!(g.foundations[2].size() >= 1);
}

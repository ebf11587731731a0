use vstd::prelude::*;
use vstd::string::StringExecFns;

use crate::card::Card;
use crate::card::Suit;
use crate::card::Value;

verus! {

/// The glyph of one decimal digit.
pub open spec fn digit_char(d: int) -> char {
    if d == 0 {
        '0'
    } else if d == 1 {
        '1'
    } else if d == 2 {
        '2'
    } else if d == 3 {
        '3'
    } else if d == 4 {
        '4'
    } else if d == 5 {
        '5'
    } else if d == 6 {
        '6'
    } else if d == 7 {
        '7'
    } else if d == 8 {
        '8'
    } else {
        '9'
    }
}

/// The decimal writing of a number, most significant digit first.
pub open spec fn dec_spec(n: int) -> Seq<char>
    decreases n,
{
    if n < 10 {
        seq![digit_char(n)]
    } else {
        dec_spec(n / 10).push(digit_char(n % 10))
    }
}

fn digit_str(d: usize) -> (r: String)
    requires
        d < 10,
    ensures
        r@ == seq![digit_char(d as int)],
{
    let s = if d == 0 {
        "0"
    } else if d == 1 {
        "1"
    } else if d == 2 {
        "2"
    } else if d == 3 {
        "3"
    } else if d == 4 {
        "4"
    } else if d == 5 {
        "5"
    } else if d == 6 {
        "6"
    } else if d == 7 {
        "7"
    } else if d == 8 {
        "8"
    } else {
        "9"
    };
    proof {
        reveal_strlit("0");
        reveal_strlit("1");
        reveal_strlit("2");
        reveal_strlit("3");
        reveal_strlit("4");
        reveal_strlit("5");
        reveal_strlit("6");
        reveal_strlit("7");
        reveal_strlit("8");
        reveal_strlit("9");
        assert(s@ =~= seq![digit_char(d as int)]);
    }
    s.to_owned()
}

/// Writes a count in decimal.
pub fn dec_of(n: usize) -> (r: String)
    ensures
        r@ == dec_spec(n as int),
    decreases n,
{
    if n < 10 {
        digit_str(n)
    } else {
        let mut s = dec_of(n / 10);
        let d = digit_str(n % 10);
        s.append(d.as_str());
        s
    }
}

/// The glyphs of a rank: A, 2 through 10, J, Q, K.
pub open spec fn rank_str_spec(v: Value) -> Seq<char> {
    match v {
        Value::Ace => seq!['A'],
        Value::Two => seq!['2'],
        Value::Three => seq!['3'],
        Value::Four => seq!['4'],
        Value::Five => seq!['5'],
        Value::Six => seq!['6'],
        Value::Seven => seq!['7'],
        Value::Eight => seq!['8'],
        Value::Nine => seq!['9'],
        Value::Ten => seq!['1', '0'],
        Value::Jack => seq!['J'],
        Value::Queen => seq!['Q'],
        Value::King => seq!['K'],
    }
}

fn rank_str(v: Value) -> (r: &'static str)
    ensures
        r@ == rank_str_spec(v),
{
    let s = match v {
        Value::Ace => "A",
        Value::Two => "2",
        Value::Three => "3",
        Value::Four => "4",
        Value::Five => "5",
        Value::Six => "6",
        Value::Seven => "7",
        Value::Eight => "8",
        Value::Nine => "9",
        Value::Ten => "10",
        Value::Jack => "J",
        Value::Queen => "Q",
        Value::King => "K",
    };
    proof {
        reveal_strlit("A");
        reveal_strlit("2");
        reveal_strlit("3");
        reveal_strlit("4");
        reveal_strlit("5");
        reveal_strlit("6");
        reveal_strlit("7");
        reveal_strlit("8");
        reveal_strlit("9");
        reveal_strlit("10");
        reveal_strlit("J");
        reveal_strlit("Q");
        reveal_strlit("K");
        assert(s@ =~= rank_str_spec(v));
    }
    s
}

/// The initial of a suit.
pub open spec fn suit_str_spec(s: Suit) -> Seq<char> {
    match s {
        Suit::Heart => seq!['H'],
        Suit::Diamond => seq!['D'],
        Suit::Spade => seq!['S'],
        Suit::Club => seq!['C'],
    }
}

fn suit_str(s: Suit) -> (r: &'static str)
    ensures
        r@ == suit_str_spec(s),
{
    let t = match s {
        Suit::Heart => "H",
        Suit::Diamond => "D",
        Suit::Spade => "S",
        Suit::Club => "C",
    };
    proof {
        reveal_strlit("H");
        reveal_strlit("D");
        reveal_strlit("S");
        reveal_strlit("C");
        assert(t@ =~= suit_str_spec(s));
    }
    t
}

/// How one card is shown: its rank and suit in brackets when face-up, a
/// hidden back when face-down.
pub open spec fn card_str_spec(c: Card) -> Seq<char> {
    if c.face_up {
        seq!['['] + rank_str_spec(c.value) + suit_str_spec(c.suit) + seq![']']
    } else {
        seq!['[', '#', '#', ']']
    }
}

/// The back of a face-down card.
pub open spec fn back_str_spec() -> Seq<char> {
    seq!['[', '#', '#', ']']
}

/// An empty slot.
pub open spec fn blank_str_spec() -> Seq<char> {
    seq!['[', ' ', ' ', ']']
}

pub fn back_str() -> (r: &'static str)
    ensures
        r@ == back_str_spec(),
{
    proof {
        reveal_strlit("[##]");
        assert("[##]"@ =~= back_str_spec());
    }
    "[##]"
}

pub fn blank_str() -> (r: &'static str)
    ensures
        r@ == blank_str_spec(),
{
    proof {
        reveal_strlit("[  ]");
        assert("[  ]"@ =~= blank_str_spec());
    }
    "[  ]"
}

pub fn card_str(c: &Card) -> (r: String)
    ensures
        r@ == card_str_spec(*c),
{
    if c.face_up {
        proof {
            reveal_strlit("[");
            reveal_strlit("]");
            assert("["@ =~= seq!['[']);
            assert("]"@ =~= seq![']']);
        }
        let mut s = "[".to_owned();
        s.append(rank_str(c.value));
        s.append(suit_str(c.suit));
        s.append("]");
        s
    } else {
        back_str().to_owned()
    }
}

/// What stands in a top-card slot: the top card of the sequence, or an
/// empty slot.
pub open spec fn top_slot_spec(s: Seq<Card>) -> Seq<char> {
    if s.len() == 0 {
        blank_str_spec()
    } else {
        card_str_spec(s.last())
    }
}

/// Writes a top-card slot.
pub fn top_slot_str(cards: &Vec<Card>) -> (r: String)
    ensures
        r@ == top_slot_spec(cards@),
{
    if cards.len() == 0 {
        blank_str().to_owned()
    } else {
        card_str(&cards[cards.len() - 1])
    }
}

/// One whole pile written card by card, bottom first.
pub open spec fn row_spec(s: Seq<Card>) -> Seq<char>
    decreases s.len(),
{
    if s.len() == 0 {
        Seq::<char>::empty()
    } else {
        row_spec(s.drop_last()) + card_str_spec(s.last())
    }
}

/// Writes a whole pile of cards, bottom first.
pub fn row_str(cards: &Vec<Card>) -> (r: String)
    ensures
        r@ == row_spec(cards@),
{
    let mut out = String::new();
    let mut i: usize = 0;
    while i < cards.len()
        invariant
            i <= cards@.len(),
            out@ == row_spec(cards@.subrange(0, i as int)),
        decreases cards@.len() - i,
    {
        let c = card_str(&cards[i]);
        out.append(c.as_str());
        i = i + 1;
        proof {
            let pre = cards@.subrange(0, i - 1);
            let cur = cards@.subrange(0, i as int);
            assert(cur.drop_last() =~= pre);
            assert(cur.last() == cards@[i - 1]);
        }
    }
    proof {
        assert(cards@.subrange(0, cards@.len() as int) =~= cards@);
    }
    out
}

} // verus!

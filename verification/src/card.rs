use vstd::prelude::*;

verus! {

/// One of the four French suits. Hearts and diamonds are red,
/// spades and clubs are black.
#[derive(Clone, Copy, PartialEq, Eq, Structural, Debug)]
pub enum Suit {
    Heart,
    Diamond,
    Spade,
    Club,
}

impl Suit {
    /// True of the two red suits.
    pub open spec fn is_red_spec(self) -> bool {
        self == Suit::Heart || self == Suit::Diamond
    }

    pub fn is_red(self) -> (r: bool)
        ensures
            r == self.is_red_spec(),
    {
        match self {
            Suit::Heart => true,
            Suit::Diamond => true,
            Suit::Spade => false,
            Suit::Club => false,
        }
    }

    /// The fixed scan order of the four foundations: Heart, Diamond, Spade, Club.
    pub open spec fn index_spec(self) -> int {
        match self {
            Suit::Heart => 0,
            Suit::Diamond => 1,
            Suit::Spade => 2,
            Suit::Club => 3,
        }
    }

    pub fn index(self) -> (r: usize)
        ensures
            r == self.index_spec(),
    {
        match self {
            Suit::Heart => 0,
            Suit::Diamond => 1,
            Suit::Spade => 2,
            Suit::Club => 3,
        }
    }
}

/// A card's rank, ordered Ace = 1 up to King = 13.
#[derive(Clone, Copy, PartialEq, Eq, Structural, Debug)]
pub enum Value {
    Ace,
    Two,
    Three,
    Four,
    Five,
    Six,
    Seven,
    Eight,
    Nine,
    Ten,
    Jack,
    Queen,
    King,
}

impl Value {
    /// The numeric rank: Ace = 1, ..., King = 13.
    pub open spec fn rank_spec(self) -> int {
        match self {
            Value::Ace => 1,
            Value::Two => 2,
            Value::Three => 3,
            Value::Four => 4,
            Value::Five => 5,
            Value::Six => 6,
            Value::Seven => 7,
            Value::Eight => 8,
            Value::Nine => 9,
            Value::Ten => 10,
            Value::Jack => 11,
            Value::Queen => 12,
            Value::King => 13,
        }
    }

    pub fn rank(self) -> (r: u8)
        ensures
            r == self.rank_spec(),
            1 <= r <= 13,
    {
        match self {
            Value::Ace => 1,
            Value::Two => 2,
            Value::Three => 3,
            Value::Four => 4,
            Value::Five => 5,
            Value::Six => 6,
            Value::Seven => 7,
            Value::Eight => 8,
            Value::Nine => 9,
            Value::Ten => 10,
            Value::Jack => 11,
            Value::Queen => 12,
            Value::King => 13,
        }
    }

    /// The value of a given rank, inverse of `rank`.
    pub fn of_rank(r: u8) -> (v: Value)
        requires
            1 <= r <= 13,
        ensures
            v.rank_spec() == r,
    {
        if r == 1 {
            Value::Ace
        } else if r == 2 {
            Value::Two
        } else if r == 3 {
            Value::Three
        } else if r == 4 {
            Value::Four
        } else if r == 5 {
            Value::Five
        } else if r == 6 {
            Value::Six
        } else if r == 7 {
            Value::Seven
        } else if r == 8 {
            Value::Eight
        } else if r == 9 {
            Value::Nine
        } else if r == 10 {
            Value::Ten
        } else if r == 11 {
            Value::Jack
        } else if r == 12 {
            Value::Queen
        } else {
            Value::King
        }
    }
}

/// The value of a given rank, the specification-level inverse of
/// `rank_spec`.
pub open spec fn value_of_rank(r: int) -> Value {
    if r == 1 {
        Value::Ace
    } else if r == 2 {
        Value::Two
    } else if r == 3 {
        Value::Three
    } else if r == 4 {
        Value::Four
    } else if r == 5 {
        Value::Five
    } else if r == 6 {
        Value::Six
    } else if r == 7 {
        Value::Seven
    } else if r == 8 {
        Value::Eight
    } else if r == 9 {
        Value::Nine
    } else if r == 10 {
        Value::Ten
    } else if r == 11 {
        Value::Jack
    } else if r == 12 {
        Value::Queen
    } else {
        Value::King
    }
}

/// The suit at a given position of the fixed scan order, the
/// specification-level inverse of `Suit::index_spec`.
pub open spec fn suit_of_index_spec(i: int) -> Suit {
    if i == 0 {
        Suit::Heart
    } else if i == 1 {
        Suit::Diamond
    } else if i == 2 {
        Suit::Spade
    } else {
        Suit::Club
    }
}

/// Distinct values have distinct ranks: `rank_spec` is injective.
pub proof fn lemma_rank_injective(a: Value, b: Value)
    requires
        a.rank_spec() == b.rank_spec(),
    ensures
        a == b,
{
}

/// A playing card: a rank, a suit, and whether it lies face-up.
#[derive(Clone, Copy, PartialEq, Eq, Structural, Debug)]
pub struct Card {
    pub value: Value,
    pub suit: Suit,
    pub face_up: bool,
}

impl Card {
    pub fn new(value: Value, suit: Suit, face_up: bool) -> (c: Card)
        ensures
            c == (Card { value, suit, face_up }),
    {
        Card { value, suit, face_up }
    }

    /// The same card turned face-up.
    pub open spec fn faced_up_spec(self) -> Card {
        Card { face_up: true, ..self }
    }

    pub fn faced_up(self) -> (c: Card)
        ensures
            c == self.faced_up_spec(),
    {
        Card { face_up: true, ..self }
    }

    /// True when the two cards alternate colors (one red, one black).
    pub open spec fn opposite_color_spec(self, other: Card) -> bool {
        self.suit.is_red_spec() != other.suit.is_red_spec()
    }
}

/// The face-up card of a given rank and suit.
pub open spec fn up(v: Value, s: Suit) -> Card {
    Card { value: v, suit: s, face_up: true }
}

/// The face-down card of a given rank and suit.
pub open spec fn down(v: Value, s: Suit) -> Card {
    Card { value: v, suit: s, face_up: false }
}

} // verus!

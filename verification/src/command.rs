use vstd::prelude::*;
use vstd::string::StrSliceExecFns;

verus! {

/// A parsed player command. Pile numbers run 1 to 7, foundation indices 0
/// to 3 in the fixed suit order Heart, Diamond, Spade, Club.
#[derive(Clone, Copy, PartialEq, Eq, Structural, Debug)]
pub enum Command {
    Quit,
    ShowHelp,
    Retire,
    DrawFromStock,
    WasteToFoundation,
    AutoFinish,
    WasteToPile { pile_index: u8 },
    PileToFoundation { pile_index: u8 },
    PileToPile { src_pile: u8, dest_pile: u8 },
    FoundationToPile { foundation_index: u8, pile_index: u8 },
}

/// A pile digit: '1' through '7'.
pub open spec fn pile_digit_spec(c: char) -> Option<u8> {
    if c == '1' {
        Some(1u8)
    } else if c == '2' {
        Some(2u8)
    } else if c == '3' {
        Some(3u8)
    } else if c == '4' {
        Some(4u8)
    } else if c == '5' {
        Some(5u8)
    } else if c == '6' {
        Some(6u8)
    } else if c == '7' {
        Some(7u8)
    } else {
        None
    }
}

fn pile_digit(c: char) -> (r: Option<u8>)
    ensures
        r == pile_digit_spec(c),
{
    if c == '1' {
        Some(1)
    } else if c == '2' {
        Some(2)
    } else if c == '3' {
        Some(3)
    } else if c == '4' {
        Some(4)
    } else if c == '5' {
        Some(5)
    } else if c == '6' {
        Some(6)
    } else if c == '7' {
        Some(7)
    } else {
        None
    }
}

/// A foundation letter: the initial of its suit.
pub open spec fn foundation_letter_spec(c: char) -> Option<u8> {
    if c == 'h' {
        Some(0u8)
    } else if c == 'd' {
        Some(1u8)
    } else if c == 's' {
        Some(2u8)
    } else if c == 'c' {
        Some(3u8)
    } else {
        None
    }
}

fn foundation_letter(c: char) -> (r: Option<u8>)
    ensures
        r == foundation_letter_spec(c),
{
    if c == 'h' {
        Some(0)
    } else if c == 'd' {
        Some(1)
    } else if c == 's' {
        Some(2)
    } else if c == 'c' {
        Some(3)
    } else {
        None
    }
}

/// What each command string means: one letter for the simple commands, a
/// pile digit for a move to a foundation, and two characters for the moves
/// that name a destination pile. Anything else is unrecognized.
pub open spec fn parse_spec(s: Seq<char>) -> Option<Command> {
    if s.len() == 1 {
        let c = s[0];
        if c == '?' {
            Some(Command::ShowHelp)
        } else if c == 'r' {
            Some(Command::Retire)
        } else if c == 'q' {
            Some(Command::Quit)
        } else if c == 'n' {
            Some(Command::DrawFromStock)
        } else if c == 'a' {
            Some(Command::AutoFinish)
        } else if c == 'k' {
            Some(Command::WasteToFoundation)
        } else {
            match pile_digit_spec(c) {
                Some(p) => Some(Command::PileToFoundation { pile_index: p }),
                None => None,
            }
        }
    } else if s.len() == 2 {
        match pile_digit_spec(s[1]) {
            None => None,
            Some(p) => if s[0] == 'k' {
                Some(Command::WasteToPile { pile_index: p })
            } else {
                match foundation_letter_spec(s[0]) {
                    Some(f) => Some(Command::FoundationToPile { foundation_index: f, pile_index: p }),
                    None => match pile_digit_spec(s[0]) {
                        Some(src) => Some(Command::PileToPile { src_pile: src, dest_pile: p }),
                        None => None,
                    },
                }
            },
        }
    } else {
        None
    }
}

impl Command {
    /// Reads a command string, as the help text lists them.
    pub fn from_string(s: &str) -> (r: Option<Command>)
        ensures
            r == parse_spec(s@),
    {
        let n = s.unicode_len();
        if n == 1 {
            let c = s.get_char(0);
            if c == '?' {
                Some(Command::ShowHelp)
            } else if c == 'r' {
                Some(Command::Retire)
            } else if c == 'q' {
                Some(Command::Quit)
            } else if c == 'n' {
                Some(Command::DrawFromStock)
            } else if c == 'a' {
                Some(Command::AutoFinish)
            } else if c == 'k' {
                Some(Command::WasteToFoundation)
            } else {
                match pile_digit(c) {
                    Some(p) => Some(Command::PileToFoundation { pile_index: p }),
                    None => None,
                }
            }
        } else if n == 2 {
            let c0 = s.get_char(0);
            let c1 = s.get_char(1);
            match pile_digit(c1) {
                None => None,
                Some(p) => if c0 == 'k' {
                    Some(Command::WasteToPile { pile_index: p })
                } else {
                    match foundation_letter(c0) {
                        Some(f) => Some(
                            Command::FoundationToPile { foundation_index: f, pile_index: p },
                        ),
                        None => match pile_digit(c0) {
                            Some(src) => Some(Command::PileToPile { src_pile: src, dest_pile: p }),
                            None => None,
                        },
                    }
                },
            }
        } else {
            None
        }
    }
}

} // verus!

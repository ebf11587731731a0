use vstd::prelude::*;

verus! {

/// The outcome of a command that was carried out. A move through the
/// engine carries the rendered snapshot of the state it produced, tagged
/// `Victory` once all four foundations are full.
pub enum Success {
    Quit,
    Retire,
    Help(String),
    Victory(String),
    ValidMove(String),
}

/// The two ways a command can be refused: it asks for a move the rules
/// forbid, or it is not a command the engine knows.
#[derive(Clone, Copy, PartialEq, Eq, Structural, Debug)]
pub enum Failure {
    InvalidMove,
    InvalidCommand,
}

} // verus!

//! A verified single-player Klondike Solitaire engine: one deck, draw-1.
//!
//! The engine keeps the stock, the waste, the seven tableau piles and the
//! four foundations, validates each command against the rules of the game,
//! applies it, counts turns, and renders a textual snapshot of the state.

use vstd::prelude::*;
use vstd::string::StrSliceExecFns;

pub mod card;
pub mod command;
pub mod counting;
pub mod deck;
pub mod foundation;
pub mod game;
pub mod pile;
pub mod render;
pub mod results;
pub mod stock;
pub mod tableau;
pub mod waste;

use crate::command::parse_spec;
use crate::command::Command;
use crate::game::Game;
use crate::results::Failure;
use crate::results::Success;

verus! {

pub const HELP_TEXT: &'static str =
    "-----------------------------------------------------\n? . . . . .: Display Help\nr          : Retire Current Game\nq . . . . .: Quit\nn          : Draw Cards from Stock\na . . . . .: Try to Automatically Finish Game\nk          : Move Card from Waste to Foundation\nk[1-7] . . : Move Card from Waste to Pile by Number\n[1-7]      : Move Card from Pile by Number to Foundation\n[1-7][1-7].: Move Card from Pile to Pile by Number\nh[1-7]     : Move Card from Hearts Foundation to Pile by Number\nd[1-7] . . : Move Card from Diamonds Foundation to Pile by Number\ns[1-7]     : Move Card from Spades Foundation to Pile by Number\nc[1-7] . . : Move Card from Clubs Foundation to Pile by Number\n";

/// The game behind a command-string front: it parses each command, handles
/// help, quit and retire itself, and hands the rest to the engine.
pub struct Solitaire {
    pub game: Game,
}

impl Solitaire {
    pub fn new() -> (s: Solitaire)
        ensures
            Game::fresh_deal(s.game),
    {
        Solitaire { game: Game::new() }
    }

    /// Discards the current game and deals a fresh one.
    pub fn new_game(&mut self)
        ensures
            Game::fresh_deal(final(self).game),
    {
        self.game = Game::new();
    }

    pub fn get_help() -> (r: &'static str)
        ensures
            r@ == HELP_TEXT@,
    {
        HELP_TEXT
    }

    pub fn display(&self) -> (r: String)
        requires
            self.game.foundations@.len() == 4,
            self.game.tableau.wf_len(),
        ensures
            r@ == Game::display_spec(self.game),
    {
        self.game.display()
    }

    /// Reads one command string and carries it out: `q`, `?` and `r` are
    /// answered here, everything else goes to the engine, and a string the
    /// parser does not know is refused as an unknown command.
    pub fn command(&mut self, cmd_str: &str) -> (r: Result<Success, Failure>)
        requires
            old(self).game.wf(),
            old(self).game.turn < u16::MAX,
            old(self).game.turn + old(self).game.tableau_count() <= u16::MAX,
        ensures
            final(self).game.wf(),
            match parse_spec(cmd_str@) {
                None => r == Err::<Success, Failure>(Failure::InvalidCommand) && Game::state_eq(
                    old(self).game,
                    final(self).game,
                ),
                Some(cmd) => match cmd {
                    Command::Quit => (r matches Ok(s) && s is Quit) && Game::state_eq(
                        old(self).game,
                        final(self).game,
                    ),
                    Command::ShowHelp => (r matches Ok(s) && s matches Success::Help(h) && h@
                        == HELP_TEXT@) && Game::state_eq(old(self).game, final(self).game),
                    Command::Retire => (r matches Ok(s) && s is Retire) && Game::fresh_deal(
                        final(self).game,
                    ),
                    Command::DrawFromStock => {
                        &&& (r is Err <==> !Game::draw_ok(old(self).game))
                        &&& (r is Ok ==> Game::draw_next(old(self).game, final(self).game))
                        &&& (r is Err ==> r == Err::<Success, Failure>(Failure::InvalidMove)
                            && Game::state_eq(old(self).game, final(self).game))
                        &&& (r matches Ok(s) ==> Game::success_matches(final(self).game, s))
                    },
                    Command::WasteToFoundation => {
                        &&& (r is Err <==> !Game::w2f_ok(old(self).game))
                        &&& (r is Ok ==> Game::w2f_next(old(self).game, final(self).game))
                        &&& (r is Err ==> r == Err::<Success, Failure>(Failure::InvalidMove)
                            && Game::state_eq(old(self).game, final(self).game))
                        &&& (r matches Ok(s) ==> Game::success_matches(final(self).game, s))
                    },
                    Command::AutoFinish => {
                        &&& r is Ok
                        &&& final(self).game.foundations@.len() == 4
                        &&& forall|i: int|
                            0 <= i < 4 ==> (#[trigger] old(self).game.foundations@[i]@).is_prefix_of(
                                final(self).game.foundations@[i]@,
                            ) && final(self).game.foundations@[i].suit == old(
                                self,
                            ).game.foundations@[i].suit
                        &&& final(self).game.foundation_count() >= old(
                            self,
                        ).game.foundation_count()
                        &&& final(self).game.stock@ == old(self).game.stock@
                        &&& final(self).game.waste@ == old(self).game.waste@
                        &&& final(self).game.turn + final(self).game.tableau_count() == old(
                            self,
                        ).game.turn + old(self).game.tableau_count()
                        &&& final(self).game.turn >= old(self).game.turn
                        &&& Game::auto_stuck(final(self).game)
                        &&& (Game::auto_stuck(old(self).game) ==> final(self).game == old(
                            self,
                        ).game)
                        &&& (r matches Ok(s) ==> Game::success_matches(final(self).game, s))
                    },
                    Command::WasteToPile { pile_index } => {
                        &&& (r is Err <==> !Game::w2p_ok(old(self).game, pile_index))
                        &&& (r is Ok ==> Game::w2p_next(
                            old(self).game,
                            final(self).game,
                            pile_index,
                        ))
                        &&& (r is Err ==> r == Err::<Success, Failure>(Failure::InvalidMove)
                            && Game::state_eq(old(self).game, final(self).game))
                        &&& (r matches Ok(s) ==> Game::success_matches(final(self).game, s))
                    },
                    Command::PileToFoundation { pile_index } => {
                        &&& (r is Err <==> !Game::p2f_ok(old(self).game, pile_index))
                        &&& (r is Ok ==> Game::p2f_next(
                            old(self).game,
                            final(self).game,
                            pile_index,
                        ))
                        &&& (r is Err ==> r == Err::<Success, Failure>(Failure::InvalidMove)
                            && Game::state_eq(old(self).game, final(self).game))
                        &&& (r matches Ok(s) ==> Game::success_matches(final(self).game, s))
                    },
                    Command::PileToPile { src_pile, dest_pile } => {
                        &&& (r is Err <==> !Game::p2p_ok(old(self).game, src_pile, dest_pile))
                        &&& (r is Ok ==> Game::p2p_next(
                            old(self).game,
                            final(self).game,
                            src_pile,
                            dest_pile,
                        ))
                        &&& (r is Err ==> r == Err::<Success, Failure>(Failure::InvalidMove)
                            && Game::state_eq(old(self).game, final(self).game))
                        &&& (r matches Ok(s) ==> Game::success_matches(final(self).game, s))
                    },
                    Command::FoundationToPile { foundation_index, pile_index } => {
                        &&& (r is Err <==> !Game::f2p_ok(
                            old(self).game,
                            foundation_index,
                            pile_index,
                        ))
                        &&& (r is Ok ==> Game::f2p_next(
                            old(self).game,
                            final(self).game,
                            foundation_index,
                            pile_index,
                        ))
                        &&& (r is Err ==> r == Err::<Success, Failure>(Failure::InvalidMove)
                            && Game::state_eq(old(self).game, final(self).game))
                        &&& (r matches Ok(s) ==> Game::success_matches(final(self).game, s))
                    },
                },
            },
    {
        match Command::from_string(cmd_str) {
            Some(cmd) => match cmd {
                Command::Quit => Ok(Success::Quit),
                Command::ShowHelp => Ok(Success::Help(HELP_TEXT.to_owned())),
                Command::Retire => {
                    self.new_game();
                    Ok(Success::Retire)
                },
                _ => self.game.exec_command(cmd),
            },
            None => Err(Failure::InvalidCommand),
        }
    }
}

} // verus!

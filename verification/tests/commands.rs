use solitaire::command::Command;
use solitaire::results::Failure;
use solitaire::results::Success;
use solitaire::Solitaire;
use solitaire::HELP_TEXT;

#[test]
fn parses_single_letter_commands() {
    assert_eq!(Command::from_string("q"), Some(Command::Quit));
    assert_eq!(Command::from_string("?"), Some(Command::ShowHelp));
    assert_eq!(Command::from_string("r"), Some(Command::Retire));
    assert_eq!(Command::from_string("n"), Some(Command::DrawFromStock));
    assert_eq!(Command::from_string("a"), Some(Command::AutoFinish));
    assert_eq!(Command::from_string("k"), Some(Command::WasteToFoundation));
}

#[test]
fn parses_pile_commands() {
    assert_eq!(
        Command::from_string("3"),
        Some(Command::PileToFoundation { pile_index: 3 })
    );
    assert_eq!(
        Command::from_string("k5"),
        Some(Command::WasteToPile { pile_index: 5 })
    );
    assert_eq!(
        Command::from_string("46"),
        Some(Command::PileToPile { src_pile: 4, dest_pile: 6 })
    );
    assert_eq!(
        Command::from_string("h7"),
        Some(Command::FoundationToPile { foundation_index: 0, pile_index: 7 })
    );
    assert_eq!(
        Command::from_string("d1"),
        Some(Command::FoundationToPile { foundation_index: 1, pile_index: 1 })
    );
    assert_eq!(
        Command::from_string("s2"),
        Some(Command::FoundationToPile { foundation_index: 2, pile_index: 2 })
    );
    assert_eq!(
        Command::from_string("c4"),
        Some(Command::FoundationToPile { foundation_index: 3, pile_index: 4 })
    );
}

#[test]
fn rejects_unknown_strings() {
    assert_eq!(Command::from_string(""), None);
    assert_eq!(Command::from_string("x"), None);
    assert_eq!(Command::from_string("8"), None);
    assert_eq!(Command::from_string("0"), None);
    assert_eq!(Command::from_string("k8"), None);
    assert_eq!(Command::from_string("k0"), None);
    assert_eq!(Command::from_string("h8"), None);
    assert_eq!(Command::from_string("123"), None);
    assert_eq!(Command::from_string("nn"), None);
    assert_eq!(Command::from_string("é"), None);
}

#[test]
fn solitaire_answers_meta_commands() {
    let mut s = Solitaire::new();
    assert!(matches!(s.command("q"), Ok(Success::Quit)));
    match s.command("?") {
        Ok(Success::Help(h)) => assert_eq!(h, HELP_TEXT),
        _ => panic!("help expected"),
    }
    assert!(matches!(s.command("r"), Ok(Success::Retire)));
    assert_eq!(s.game.turn, 0);
    assert_eq!(s.game.stock.size(), 24);
}

#[test]
fn solitaire_refuses_unknown_command() {
    let mut s = Solitaire::new();
    let turn = s.game.turn;
    assert!(matches!(s.command("xyz"), Err(Failure::InvalidCommand)));
    assert_eq!(s.game.turn, turn);
}

#[test]
fn solitaire_draw_via_string() {
    let mut s = Solitaire::new();
    let r = s.command("n");
    assert!(matches!(r, Ok(Success::ValidMove(_))));
    assert_eq!(s.game.turn, 1);
    assert_eq!(s.game.stock.size(), 23);
    assert_eq!(s.game.waste.size(), 1);
    let shown = s.display();
    assert!(shown.contains("Turn: 1"));
    assert!(shown.contains("Stock: 23"));
    assert!(shown.contains("Waste: 1"));
}

#[test]
fn help_text_lists_every_command() {
    let h = Solitaire::get_help();
    assert!(h.contains("Display Help"));
    assert!(h.contains("Retire Current Game"));
    assert!(h.contains("Quit"));
    assert!(h.contains("Draw Cards from Stock"));
}

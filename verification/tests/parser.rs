use unend::interagibles::Interaction;
use unend::parser::{parse_command, parse_interaction, Command, MetaCommand};
use unend::visitables::ExitDir;

#[test]
fn single_letters_are_moves() {
    assert!(matches!(parse_command("n"), Command::Move(ExitDir::North)));
    assert!(matches!(parse_command("s"), Command::Move(ExitDir::South)));
    assert!(matches!(parse_command("w"), Command::Move(ExitDir::West)));
    assert!(matches!(parse_command("e"), Command::Move(ExitDir::East)));
}

#[test]
fn known_verb_with_target_is_an_interaction() {
    match parse_command("look book") {
        Command::Interact(verb, tag) => {
            assert_eq!(verb, Interaction::Look);
            assert_eq!(tag, "book");
        },
        other => panic!("expected an interaction, got {:?}", other),
    }
}

#[test]
fn unknown_verb_with_target_is_unrecognized() {
    assert!(matches!(parse_command("frobnicate book"), Command::Unrecognized));
}

#[test]
fn extra_separators_still_match_the_two_token_pattern() {
    match parse_command("take   lamp") {
        Command::Interact(verb, tag) => {
            assert_eq!(verb, Interaction::Take);
            assert_eq!(tag, "lamp");
        },
        other => panic!("expected an interaction, got {:?}", other),
    }
}

#[test]
fn verb_without_target_is_unrecognized() {
    assert!(matches!(parse_command("take"), Command::Unrecognized));
    assert!(matches!(parse_command("take "), Command::Unrecognized));
}

#[test]
fn empty_line_is_unrecognized() {
    assert!(matches!(parse_command(""), Command::Unrecognized));
}

#[test]
fn three_tokens_are_unrecognized() {
    assert!(matches!(parse_command("take the lamp"), Command::Unrecognized));
}

#[test]
fn meta_keywords_parse() {
    assert!(matches!(parse_command("pos"), Command::Meta(MetaCommand::ShowPosition)));
    assert!(matches!(parse_command("p"), Command::Meta(MetaCommand::ShowPosition)));
    assert!(matches!(parse_command("i"), Command::Meta(MetaCommand::ShowInventory)));
    assert!(matches!(parse_command("h"), Command::Meta(MetaCommand::ShowHelp)));
    assert!(matches!(parse_command("q"), Command::Meta(MetaCommand::Quit)));
}

#[test]
fn every_verb_is_in_the_table() {
    assert_eq!(parse_interaction("open"), Some(Interaction::Open));
    assert_eq!(parse_interaction("close"), Some(Interaction::Close));
    assert_eq!(parse_interaction("give"), Some(Interaction::Give));
    assert_eq!(parse_interaction("take"), Some(Interaction::Take));
    assert_eq!(parse_interaction("look"), Some(Interaction::Look));
    assert_eq!(parse_interaction("talk"), Some(Interaction::Talk));
    assert_eq!(parse_interaction("push"), Some(Interaction::Push));
    assert_eq!(parse_interaction("pull"), Some(Interaction::Pull));
    assert_eq!(parse_interaction("use"), Some(Interaction::Use));
    assert_eq!(parse_interaction("dance"), None);
}

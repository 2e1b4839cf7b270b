use unend::game::{Game, GameError};
use unend::interagibles::{Interaction, ObjectMap, ResponseTable, RollingObject, UnendObject};
use unend::visitables::{BasicSection, Exit, ExitDir, ExitMap, SectionMap, UnendSection};
use unend::world::{create_sections, initial_inventory};

fn sample_game() -> Game {
    let mut game = Game::new(create_sections(), "hallway".to_owned(), initial_inventory());
    game.start();
    game
}

fn lines(v: &[&str]) -> Vec<String> {
    v.iter().map(|s| s.to_string()).collect()
}

#[test]
fn first_render_announces_the_start_section() {
    let mut game = sample_game();
    let out = game.render_if_moved().unwrap();
    assert_eq!(
        out,
        lines(&[
            "You are in the Main hallway",
            "You can go north to the kitchen, south to the sitting room. There's a *fireplace* in the middle.",
        ])
    );
    let again = game.render_if_moved().unwrap();
    assert!(again.is_empty());
}

#[test]
fn moving_north_and_back() {
    let mut game = sample_game();
    game.render_if_moved().unwrap();

    let out = game.step("n").unwrap();
    assert!(out.lines.is_empty());
    assert!(!out.quit);
    let rendered = game.render_if_moved().unwrap();
    assert_eq!(rendered[0], "You are in the The grand kitchen");

    let out = game.step("s").unwrap();
    assert!(out.lines.is_empty());
    let rendered = game.render_if_moved().unwrap();
    assert_eq!(rendered[0], "You are in the Main hallway");
}

#[test]
fn blocked_exit_reports_and_stays() {
    let mut game = sample_game();
    game.render_if_moved().unwrap();
    let out = game.step("e").unwrap();
    assert_eq!(out.lines, lines(&["This is no time for gardening."]));
    let rendered = game.render_if_moved().unwrap();
    assert!(rendered.is_empty(), "the player must still be in the hallway");
}

#[test]
fn absent_exit_reports_and_stays() {
    let mut game = sample_game();
    game.render_if_moved().unwrap();
    let out = game.step("w").unwrap();
    assert_eq!(out.lines, lines(&["No exit this way."]));
    let rendered = game.render_if_moved().unwrap();
    assert!(rendered.is_empty());
}

#[test]
fn looking_at_the_book_in_the_kitchen() {
    let mut game = sample_game();
    game.render_if_moved().unwrap();
    game.step("n").unwrap();
    game.render_if_moved().unwrap();
    let out = game.step("look book").unwrap();
    assert_eq!(
        out.lines,
        lines(&["It is a strange pink book with a black sheep on the cover."])
    );
    let rendered = game.render_if_moved().unwrap();
    assert!(rendered.is_empty(), "looking must not move the player");
}

#[test]
fn unknown_verb_on_the_book_is_refused() {
    let mut game = sample_game();
    game.render_if_moved().unwrap();
    game.step("n").unwrap();
    let out = game.step("push book").unwrap();
    assert_eq!(out.lines, lines(&["That won't work"]));
}

#[test]
fn using_the_fireplace_reveals_the_secret_room() {
    let mut game = sample_game();
    game.render_if_moved().unwrap();
    let out = game.step("use fireplace").unwrap();
    assert!(out.lines.is_empty(), "a transition emits no text");
    let rendered = game.render_if_moved().unwrap();
    assert_eq!(
        rendered,
        lines(&[
            "You are in the Secret Room",
            "A very strange and dark secret room. You see a light east, maybe an exit",
        ])
    );
}

#[test]
fn interaction_with_a_missing_target_is_reported() {
    let mut game = sample_game();
    game.render_if_moved().unwrap();
    let out = game.step("look book").unwrap();
    assert_eq!(out.lines, lines(&["Invalid target for action."]));
}

#[test]
fn show_position_repeats_the_description() {
    let mut game = sample_game();
    game.render_if_moved().unwrap();
    let out = game.step("pos").unwrap();
    assert_eq!(out.lines[0], "You are in the Main hallway");
    let out = game.step("p").unwrap();
    assert_eq!(out.lines.len(), 2);
}

#[test]
fn show_help_lists_the_commands() {
    let mut game = sample_game();
    let out = game.step("h").unwrap();
    assert_eq!(
        out.lines,
        lines(&[
            "Available commands:",
            "  n/s/w/e - Go north/south/west/east",
            "  i - Show inventory",
            "  p - Show where I am",
            "  q - Quit",
            "  h - Print this help",
        ])
    );
}

#[test]
fn show_inventory_lists_the_starting_ticket() {
    let mut game = sample_game();
    let out = game.step("i").unwrap();
    assert_eq!(
        out.lines,
        lines(&["Your inventory:", "busticket: Used bus ticket"])
    );
}

#[test]
fn quit_says_goodbye_and_ends() {
    let mut game = sample_game();
    let out = game.step("q").unwrap();
    assert_eq!(out.lines, lines(&["See you!"]));
    assert!(out.quit);
}

#[test]
fn unknown_command_is_reported() {
    let mut game = sample_game();
    let out = game.step("dance").unwrap();
    assert_eq!(out.lines, lines(&["Unknown command."]));
    assert!(!out.quit);
}

#[test]
fn a_start_tag_outside_the_world_is_fatal() {
    let mut game = Game::new(create_sections(), "nowhere".to_owned(), ObjectMap::new());
    game.start();
    match game.step("n") {
        Err(GameError::UnknownSection(tag)) => assert_eq!(tag, "nowhere"),
        _ => panic!("a missing section must be reported as fatal"),
    }
    match game.render_if_moved() {
        Err(GameError::UnknownSection(tag)) => assert_eq!(tag, "nowhere"),
        _ => panic!("a missing section must be reported as fatal"),
    }
}

fn world_with_a_ball() -> SectionMap {
    let mut responses = ResponseTable::new();
    responses.insert(Interaction::Take, "You pick up the red ball.".to_owned());
    responses.insert(Interaction::Look, "A small red ball.".to_owned());
    let mut objects = ObjectMap::new();
    objects.insert(
        "ball".to_owned(),
        UnendObject::Rolling(RollingObject::new(
            "ball".to_owned(),
            "Red ball".to_owned(),
            true,
            responses,
        )),
    );
    let mut sections = SectionMap::new();
    sections.insert(
        "yard".to_owned(),
        UnendSection::Basic(BasicSection::new(
            "yard".to_owned(),
            "Back yard".to_owned(),
            "A small back yard.".to_owned(),
            ExitMap::new(),
            objects,
        )),
    );
    sections
}

#[test]
fn taking_moves_the_entity_into_the_inventory() {
    let mut game = Game::new(world_with_a_ball(), "yard".to_owned(), ObjectMap::new());
    game.start();
    let out = game.step("take ball").unwrap();
    assert_eq!(out.lines, lines(&["Taking!", "You pick up the red ball."]));
    let out = game.step("i").unwrap();
    assert_eq!(out.lines, lines(&["Your inventory:", "ball: Red ball"]));
}

#[test]
fn taking_twice_is_impossible() {
    let mut game = Game::new(world_with_a_ball(), "yard".to_owned(), ObjectMap::new());
    game.start();
    game.step("take ball").unwrap();
    let out = game.step("take ball").unwrap();
    assert_eq!(out.lines, lines(&["Invalid target for action."]));
    let out = game.step("i").unwrap();
    assert_eq!(out.lines.len(), 2, "the ball must be in the inventory exactly once");
}

#[test]
fn a_not_takeable_object_stays_in_the_section() {
    let mut responses = ResponseTable::new();
    responses.insert(Interaction::Take, "Far too heavy.".to_owned());
    let mut objects = ObjectMap::new();
    objects.insert(
        "anvil".to_owned(),
        UnendObject::Rolling(RollingObject::new(
            "anvil".to_owned(),
            "Iron anvil".to_owned(),
            false,
            responses,
        )),
    );
    let mut sections = SectionMap::new();
    sections.insert(
        "forge".to_owned(),
        UnendSection::Basic(BasicSection::new(
            "forge".to_owned(),
            "Forge".to_owned(),
            "A hot forge.".to_owned(),
            ExitMap::new(),
            objects,
        )),
    );
    let mut game = Game::new(sections, "forge".to_owned(), ObjectMap::new());
    game.start();
    let out = game.step("take anvil").unwrap();
    assert_eq!(out.lines, lines(&["Far too heavy."]));
    let out = game.step("i").unwrap();
    assert_eq!(out.lines, lines(&["Your inventory:"]));
    let out = game.step("look anvil").unwrap();
    assert_eq!(out.lines, lines(&["That won't work"]));
}

use unend::interagibles::{resolve, InfoObject, Interaction, InteractionRes, Interagible,
    ObjectMap, PortalObject, ResponseTable, RollingObject, UnendObject};
use unend::visitables::{BasicSection, Exit, ExitDir, ExitMap, Visitable};

fn book_responses() -> ResponseTable {
    let mut t = ResponseTable::new();
    t.insert(
        Interaction::Look,
        "It is a strange pink book with a black sheep on the cover.".to_owned(),
    );
    t.insert(Interaction::Take, "I don't need this book.".to_owned());
    t
}

#[test]
fn info_object_answers_from_its_table() {
    let book = InfoObject::new("book".to_owned(), "Pink Book".to_owned(), book_responses());
    match book.interact(Interaction::Look) {
        InteractionRes::Info(s) => {
            assert_eq!(s, "It is a strange pink book with a black sheep on the cover.");
        },
        _ => panic!("an info object must answer with text"),
    }
}

#[test]
fn info_object_refuses_unknown_verbs() {
    let book = InfoObject::new("book".to_owned(), "Pink Book".to_owned(), book_responses());
    match book.interact(Interaction::Push) {
        InteractionRes::Info(s) => assert_eq!(s, "That won't work"),
        _ => panic!("an info object must answer with text"),
    }
}

#[test]
fn info_object_getters() {
    let book = InfoObject::new("book".to_owned(), "Pink Book".to_owned(), book_responses());
    assert_eq!(book.get_tag(), "book");
    assert_eq!(book.get_name(), "Pink Book");
    assert!(!book.is_takeable());
}

fn fireplace() -> PortalObject {
    PortalObject::new(
        "fireplace".to_owned(),
        "A strange fireplace".to_owned(),
        "This fireplace glows like it's enchanted.".to_owned(),
        "secretroom".to_owned(),
    )
}

#[test]
fn portal_use_yields_its_destination() {
    match fireplace().interact(Interaction::Use) {
        InteractionRes::GotoSection(s) => assert_eq!(s, "secretroom"),
        _ => panic!("a portal's use verb must yield a transition"),
    }
}

#[test]
fn portal_look_yields_its_description() {
    match fireplace().interact(Interaction::Look) {
        InteractionRes::Info(s) => assert_eq!(s, "This fireplace glows like it's enchanted."),
        _ => panic!("a portal's look verb must yield text"),
    }
}

#[test]
fn portal_other_verbs_are_refused() {
    match fireplace().interact(Interaction::Pull) {
        InteractionRes::Info(s) => assert_eq!(s, "That won't work"),
        _ => panic!("a portal must refuse other verbs with text"),
    }
}

fn ball_responses() -> ResponseTable {
    let mut t = ResponseTable::new();
    t.insert(Interaction::Take, "You pick up the red ball.".to_owned());
    t.insert(Interaction::Look, "A small red ball.".to_owned());
    t
}

#[test]
fn takeable_rolling_object_is_taken() {
    let ball = RollingObject::new(
        "ball".to_owned(),
        "Red ball".to_owned(),
        true,
        ball_responses(),
    );
    assert!(ball.is_takeable());
    match ball.interact(Interaction::Take) {
        InteractionRes::Take(s) => assert_eq!(s, "You pick up the red ball."),
        _ => panic!("a takeable object's take verb must yield a take"),
    }
}

#[test]
fn not_takeable_rolling_object_refuses_with_its_text() {
    let anvil = RollingObject::new(
        "anvil".to_owned(),
        "Iron anvil".to_owned(),
        false,
        {
            let mut t = ResponseTable::new();
            t.insert(Interaction::Take, "Far too heavy.".to_owned());
            t
        },
    );
    match anvil.interact(Interaction::Take) {
        InteractionRes::Info(s) => assert_eq!(s, "Far too heavy."),
        _ => panic!("a not-takeable object's take verb must yield text"),
    }
}

#[test]
fn resolve_dispatches_over_the_variants() {
    let obj = UnendObject::Portal(fireplace());
    match resolve(&obj, Interaction::Use) {
        InteractionRes::GotoSection(s) => assert_eq!(s, "secretroom"),
        _ => panic!("resolve must follow the portal's behaviour"),
    }
    let info = UnendObject::Info(InfoObject::new(
        "book".to_owned(),
        "Pink Book".to_owned(),
        book_responses(),
    ));
    match resolve(&info, Interaction::Talk) {
        InteractionRes::Info(s) => assert_eq!(s, "That won't work"),
        _ => panic!("resolve must follow the info object's behaviour"),
    }
}

#[test]
fn absent_direction_has_no_exit() {
    let mut exits = ExitMap::new();
    exits.insert(ExitDir::North, Exit::Open("kitchen".to_owned()));
    let sec = BasicSection::new(
        "hallway".to_owned(),
        "Main hallway".to_owned(),
        "A hallway.".to_owned(),
        exits,
        ObjectMap::new(),
    );
    assert!(matches!(sec.exit(&ExitDir::West), Exit::Absent));
    assert!(matches!(sec.exit(&ExitDir::South), Exit::Absent));
    match sec.exit(&ExitDir::North) {
        Exit::Open(t) => assert_eq!(t, "kitchen"),
        _ => panic!("the authored exit must be returned"),
    }
}

#[test]
fn section_getters() {
    let sec = BasicSection::new(
        "hallway".to_owned(),
        "Main hallway".to_owned(),
        "A hallway.".to_owned(),
        ExitMap::new(),
        ObjectMap::new(),
    );
    assert_eq!(sec.get_tag(), "hallway");
    assert_eq!(sec.get_name(), "Main hallway");
    assert_eq!(sec.get_dsc(), "A hallway.");
}

#[test]
fn response_table_insert_replaces() {
    let mut t = ResponseTable::new();
    t.insert(Interaction::Look, "First.".to_owned());
    t.insert(Interaction::Look, "Second.".to_owned());
    assert_eq!(t.get(Interaction::Look), Some(&"Second.".to_owned()));
    assert_eq!(t.get(Interaction::Push), None);
}

//! The authored world: three sections and the player's starting
//! belongings, assembled as pure data before the loop starts.

use vstd::prelude::*;

use crate::interagibles::{InfoObject, InfoView, Interaction, ObjectMap, ObjectView, PortalObject,
    PortalView, ResponseTable, UnendObject};
use crate::visitables::{BasicSection, Exit, ExitDir, ExitMap, ExitView, SectionMap, SectionView,
    UnendSection};

verus! {

/// The main hallway: north to the kitchen, a blocked way east, and the
/// enchanted fireplace.
pub open spec fn hallway_view() -> SectionView {
    SectionView {
        tag: "hallway"@,
        name: "Main hallway"@,
        dsc: "You can go north to the kitchen, south to the sitting room. There's a *fireplace* in the middle."@,
        exits: map![
            ExitDir::North => ExitView::Open("kitchen"@),
            ExitDir::East => ExitView::Blocked("This is no time for gardening."@),
        ],
        objects: map![
            "fireplace"@ => ObjectView::Portal(PortalView {
                tag: "fireplace"@,
                name: "A strange fireplace"@,
                dsc: "This fireplace glows like it's enchanted."@,
                destination: "secretroom"@,
            }),
        ],
    }
}

/// The grand kitchen: south back to the hallway, a blocked window east,
/// and the pink book.
pub open spec fn kitchen_view() -> SectionView {
    SectionView {
        tag: "kitchen"@,
        name: "The grand kitchen"@,
        dsc: "You are at the center of the kitchen and dining room. The only exit is south. There's a *book* on the table."@,
        exits: map![
            ExitDir::South => ExitView::Open("hallway"@),
            ExitDir::East => ExitView::Blocked("You can't exit through the window."@),
        ],
        objects: map![
            "book"@ => ObjectView::Info(InfoView {
                tag: "book"@,
                name: "Pink Book"@,
                av_interactions: map![
                    Interaction::Look => "It is a strange pink book with a black sheep on the cover."@,
                    Interaction::Take => "I don't need this book."@,
                    Interaction::Use => "Hmmm, I prefer to watch movies rather than read."@,
                ],
            }),
        ],
    }
}

/// The secret room behind the fireplace: east back to the hallway.
pub open spec fn secretroom_view() -> SectionView {
    SectionView {
        tag: "secretroom"@,
        name: "Secret Room"@,
        dsc: "A very strange and dark secret room. You see a light east, maybe an exit"@,
        exits: map![ExitDir::East => ExitView::Open("hallway"@)],
        objects: Map::empty(),
    }
}

/// The whole authored world by section tag.
pub open spec fn world_view() -> Map<Seq<char>, SectionView> {
    map![
        "hallway"@ => hallway_view(),
        "kitchen"@ => kitchen_view(),
        "secretroom"@ => secretroom_view(),
    ]
}

/// The used bus ticket the player starts out holding.
pub open spec fn busticket_view() -> ObjectView {
    ObjectView::Info(InfoView {
        tag: "busticket"@,
        name: "Used bus ticket"@,
        av_interactions: map![
            Interaction::Look => "It's the ticket I used to come here. I can't use it anymore, at least not legally."@,
        ],
    })
}

/// Create the sections and return the collection containing them.
pub fn create_sections() -> (r: SectionMap)
    ensures
        r.wf(),
        r@ == world_view(),
{
    let mut hallway_exits = ExitMap::new();
    hallway_exits.insert(ExitDir::North, Exit::Open("kitchen".to_owned()));
    hallway_exits.insert(ExitDir::East, Exit::Blocked("This is no time for gardening.".to_owned()));
    let mut hallway_objects = ObjectMap::new();
    hallway_objects.insert(
        "fireplace".to_owned(),
        UnendObject::Portal(PortalObject::new(
            "fireplace".to_owned(),
            "A strange fireplace".to_owned(),
            "This fireplace glows like it's enchanted.".to_owned(),
            "secretroom".to_owned(),
        )),
    );
    let hallway = UnendSection::Basic(BasicSection::new(
        "hallway".to_owned(),
        "Main hallway".to_owned(),
        "You can go north to the kitchen, south to the sitting room. There's a *fireplace* in the middle.".to_owned(),
        hallway_exits,
        hallway_objects,
    ));
    proof {
        assert(hallway@ =~= hallway_view());
    }

    let mut kitchen_exits = ExitMap::new();
    kitchen_exits.insert(ExitDir::South, Exit::Open("hallway".to_owned()));
    kitchen_exits.insert(ExitDir::East, Exit::Blocked("You can't exit through the window.".to_owned()));
    let mut book_responses = ResponseTable::new();
    book_responses.insert(
        Interaction::Look,
        "It is a strange pink book with a black sheep on the cover.".to_owned(),
    );
    book_responses.insert(Interaction::Take, "I don't need this book.".to_owned());
    book_responses.insert(
        Interaction::Use,
        "Hmmm, I prefer to watch movies rather than read.".to_owned(),
    );
    let mut kitchen_objects = ObjectMap::new();
    kitchen_objects.insert(
        "book".to_owned(),
        UnendObject::Info(InfoObject::new(
            "book".to_owned(),
            "Pink Book".to_owned(),
            book_responses,
        )),
    );
    let kitchen = UnendSection::Basic(BasicSection::new(
        "kitchen".to_owned(),
        "The grand kitchen".to_owned(),
        "You are at the center of the kitchen and dining room. The only exit is south. There's a *book* on the table.".to_owned(),
        kitchen_exits,
        kitchen_objects,
    ));
    proof {
        assert(kitchen@ =~= kitchen_view());
    }

    let mut secretroom_exits = ExitMap::new();
    secretroom_exits.insert(ExitDir::East, Exit::Open("hallway".to_owned()));
    let secretroom = UnendSection::Basic(BasicSection::new(
        "secretroom".to_owned(),
        "Secret Room".to_owned(),
        "A very strange and dark secret room. You see a light east, maybe an exit".to_owned(),
        secretroom_exits,
        ObjectMap::new(),
    ));
    proof {
        assert(secretroom@ =~= secretroom_view());
    }

    let mut sections = SectionMap::new();
    sections.insert("hallway".to_owned(), hallway);
    sections.insert("kitchen".to_owned(), kitchen);
    sections.insert("secretroom".to_owned(), secretroom);
    proof {
        reveal_strlit("hallway");
        reveal_strlit("kitchen");
        reveal_strlit("secretroom");
        assert(sections@ =~= world_view());
    }
    sections
}

/// The player's starting inventory: the used bus ticket.
pub fn initial_inventory() -> (r: ObjectMap)
    ensures
        r.wf(),
        r@ == map!["busticket"@ => busticket_view()],
{
    let mut ticket_responses = ResponseTable::new();
    ticket_responses.insert(
        Interaction::Look,
        "It's the ticket I used to come here. I can't use it anymore, at least not legally.".to_owned(),
    );
    let mut inventory = ObjectMap::new();
    inventory.insert(
        "busticket".to_owned(),
        UnendObject::Info(InfoObject::new(
            "busticket".to_owned(),
            "Used bus ticket".to_owned(),
            ticket_responses,
        )),
    );
    proof {
        assert(inventory@ =~= map!["busticket"@ => busticket_view()]);
    }
    inventory
}

} // verus!

//! The game loop's state machine.
//!
//! A `Game` owns the world, the player's current position and the
//! inventory. One turn is one call of `step`: the line is parsed, the
//! command is dispatched against the current section, and the step yields
//! the lines to show and whether the game ends. Rendering of the current
//! section's description is tracked so that it is shown exactly when the
//! player arrives somewhere new, or asks for it.

use vstd::prelude::*;

use crate::interagibles::{Interaction, ObjectMap, ObjectView, InteractionRes, resolve,
    resolve_spec, ResView};
use crate::parser::{parse_command, spec_parse_command, Command, CommandView, MetaCommand};
use crate::visitables::{Exit, ExitView, exit_spec, sec_without_object, SectionMap, SectionView,
    UnendSection, Visitable};

verus! {

/// The fatal conditions: a section tag that the world does not hold. This
/// marks a construction-time bug in the world data, never a user error.
#[derive(Debug)]
pub enum GameError {
    UnknownSection(String),
}

impl View for GameError {
    type V = Seq<char>;

    open spec fn view(&self) -> Seq<char> {
        match self {
            GameError::UnknownSection(tag) => tag@,
        }
    }
}

/// What one turn produced: the lines to show, and whether the player quit.
#[derive(Debug)]
pub struct StepOutput {
    pub lines: Vec<String>,
    pub quit: bool,
}

/// The mathematical reading of a game state.
#[verifier::ext_equal]
pub struct GameView {
    pub sections: Map<Seq<char>, SectionView>,
    pub start: Seq<char>,
    pub cur: Seq<char>,
    pub inventory: Map<Seq<char>, ObjectView>,
    pub rendered: Option<Seq<char>>,
}

/// What one turn does to the state: the state after, the lines shown, and
/// whether the game ends.
#[verifier::ext_equal]
pub struct StepRes {
    pub post: GameView,
    pub lines: Seq<Seq<char>>,
    pub quit: bool,
}

/// The two lines that announce the current section.
pub open spec fn position_lines(sec: SectionView) -> Seq<Seq<char>> {
    seq!["You are in the "@ + sec.name, sec.dsc]
}

/// The fixed command summary.
pub open spec fn help_lines() -> Seq<Seq<char>> {
    seq![
        "Available commands:"@,
        "  n/s/w/e - Go north/south/west/east"@,
        "  i - Show inventory"@,
        "  p - Show where I am"@,
        "  q - Quit"@,
        "  h - Print this help"@,
    ]
}

/// One inventory listing line: the entity's tag, then its display name.
pub open spec fn inventory_line(tag: Seq<char>, name: Seq<char>) -> Seq<char> {
    tag + ": "@ + name
}

/// `lines` lists the inventory under the given tag order: a header, then
/// one line per held entity.
pub open spec fn lines_list_inventory(
    inv: Map<Seq<char>, ObjectView>,
    tags: Seq<Seq<char>>,
    lines: Seq<Seq<char>>,
) -> bool {
    &&& tags.len() == inv.dom().len()
    &&& (forall|i: int, j: int| 0 <= i < j < tags.len() ==> tags[i] != tags[j])
    &&& lines.len() == 1 + tags.len()
    &&& lines[0] == "Your inventory:"@
    &&& forall|i: int| 0 <= i < tags.len() ==> {
        &&& inv.contains_key(#[trigger] tags[i])
        &&& lines[i + 1] == inventory_line(tags[i], inv[tags[i]].name())
    }
}

/// `lines` lists the inventory in some order that covers each held entity
/// exactly once.
pub open spec fn inv_listing(inv: Map<Seq<char>, ObjectView>, lines: Seq<Seq<char>>) -> bool {
    exists|tags: Seq<Seq<char>>| lines_list_inventory(inv, tags, lines)
}

/// What one turn does, by command class. The inventory listing's lines
/// depend on an entry order the map does not fix, so this function leaves
/// them empty there; `inv_listing` states them.
pub open spec fn step_spec(pre: GameView, line: Seq<char>) -> StepRes
    recommends
        pre.sections.contains_key(pre.cur),
{
    let sec = pre.sections[pre.cur];
    match spec_parse_command(line) {
        CommandView::Move(dir) => match exit_spec(sec, dir) {
            ExitView::Open(target) => StepRes {
                post: GameView { cur: target, ..pre },
                lines: Seq::empty(),
                quit: false,
            },
            ExitView::Blocked(msg) => StepRes { post: pre, lines: seq![msg], quit: false },
            ExitView::Absent => StepRes {
                post: pre,
                lines: seq!["No exit this way."@],
                quit: false,
            },
        },
        CommandView::Interact(verb, tag) => if !sec.objects.contains_key(tag) {
            StepRes { post: pre, lines: seq!["Invalid target for action."@], quit: false }
        } else {
            let obj = sec.objects[tag];
            match resolve_spec(obj, verb) {
                ResView::Info(s) => StepRes { post: pre, lines: seq![s], quit: false },
                ResView::GotoSection(target) => StepRes {
                    post: GameView { cur: target, ..pre },
                    lines: Seq::empty(),
                    quit: false,
                },
                ResView::Take(s) => StepRes {
                    post: GameView {
                        sections: pre.sections.insert(pre.cur, sec_without_object(sec, tag)),
                        inventory: pre.inventory.insert(tag, obj),
                        ..pre
                    },
                    lines: seq!["Taking!"@, s],
                    quit: false,
                },
            }
        },
        CommandView::Meta(m) => match m {
            MetaCommand::ShowPosition => StepRes {
                post: pre,
                lines: position_lines(sec),
                quit: false,
            },
            MetaCommand::ShowInventory => StepRes { post: pre, lines: Seq::empty(), quit: false },
            MetaCommand::ShowHelp => StepRes { post: pre, lines: help_lines(), quit: false },
            MetaCommand::Quit => StepRes { post: pre, lines: seq!["See you!"@], quit: true },
        },
        CommandView::Unrecognized => StepRes {
            post: pre,
            lines: seq!["Unknown command."@],
            quit: false,
        },
    }
}

/// The game: this governs it all.
#[derive(Debug)]
pub struct Game {
    sections: SectionMap,
    start_section_tag: String,
    current_section_tag: String,
    inventory: ObjectMap,
    rendered_section_tag: Option<String>,
}

impl View for Game {
    type V = GameView;

    closed spec fn view(&self) -> GameView {
        GameView {
            sections: self.sections@,
            start: self.start_section_tag@,
            cur: self.current_section_tag@,
            inventory: self.inventory@,
            rendered: match &self.rendered_section_tag {
                Some(t) => Some(t@),
                None => None,
            },
        }
    }
}

impl Game {
    /// The world's tables and the inventory are consistent.
    pub closed spec fn wf(&self) -> bool {
        self.sections.wf() && self.inventory.wf()
    }

    pub fn new(
        i_sections: SectionMap,
        i_start_section_tag: String,
        initial_inventory: ObjectMap,
    ) -> (r: Self)
        requires
            i_sections.wf(),
            initial_inventory.wf(),
        ensures
            r.wf(),
            r@ == (GameView {
                sections: i_sections@,
                start: i_start_section_tag@,
                cur: Seq::<char>::empty(),
                inventory: initial_inventory@,
                rendered: None,
            }),
    {
        Game {
            sections: i_sections,
            start_section_tag: i_start_section_tag,
            current_section_tag: String::new(),
            inventory: initial_inventory,
            rendered_section_tag: None,
        }
    }

    /// Put the player at the configured start, with nothing rendered yet.
    pub fn start(&mut self)
        requires
            old(self).wf(),
        ensures
            final(self).wf(),
            final(self)@ == (GameView {
                cur: old(self)@.start,
                rendered: None,
                ..old(self)@
            }),
    {
        self.current_section_tag = self.start_section_tag.clone();
        self.rendered_section_tag = None;
    }

    /// Append the current section's name and description.
    pub fn write_position(&self, out: &mut Vec<String>)
        requires
            self.wf(),
            self@.sections.contains_key(self@.cur),
        ensures
            final(out).deep_view() == old(out).deep_view()
                + position_lines(self@.sections[self@.cur]),
    {
        let sec = match self.sections.get(&self.current_section_tag) {
            Some(s) => s,
            None => vstd::pervasive::unreached(),
        };
        match sec {
            UnendSection::Basic(cs) => {
                let mut l1 = "You are in the ".to_owned();
                l1.append(cs.get_name().as_str());
                out.push(l1);
                out.push(cs.get_dsc());
            },
        }
        proof {
            assert(final(out).deep_view() =~= old(out).deep_view()
                + position_lines(self@.sections[self@.cur]));
        }
    }

    /// Append the fixed command summary.
    pub fn write_help(&self, out: &mut Vec<String>)
        ensures
            final(out).deep_view() == old(out).deep_view() + help_lines(),
    {
        out.push("Available commands:".to_owned());
        out.push("  n/s/w/e - Go north/south/west/east".to_owned());
        out.push("  i - Show inventory".to_owned());
        out.push("  p - Show where I am".to_owned());
        out.push("  q - Quit".to_owned());
        out.push("  h - Print this help".to_owned());
        proof {
            assert(final(out).deep_view() =~= old(out).deep_view() + help_lines());
        }
    }

    /// Append the inventory listing: a header, then tag and name of each
    /// held entity.
    fn write_inventory(&self, out: &mut Vec<String>)
        requires
            self.wf(),
            old(out)@.len() == 0,
        ensures
            inv_listing(self@.inventory, final(out).deep_view()),
    {
        out.push("Your inventory:".to_owned());
        let pairs = self.inventory.tags_and_names();
        let n = pairs.len();
        let mut i: usize = 0;
        while i < n
            invariant
                0 <= i <= n,
                n == pairs@.len(),
                out.deep_view().len() == 1 + i,
                out.deep_view()[0] == "Your inventory:"@,
                forall|j: int| 0 <= j < i ==> out.deep_view()[j + 1]
                    == inventory_line((#[trigger] pairs@[j]).0@, pairs@[j].1@),
            decreases n - i,
        {
            let mut line = pairs[i].0.clone();
            line.append(": ");
            line.append(pairs[i].1.as_str());
            let ghost pre_out = out.deep_view();
            out.push(line);
            proof {
                assert(out.deep_view() =~= pre_out.push(line@));
            }
            i += 1;
        }
        proof {
            let tags = pairs@.map_values(|p: (String, String)| p.0@);
            assert(lines_list_inventory(self@.inventory, tags, out.deep_view())) by {
                assert(forall|j: int| 0 <= j < tags.len()
                    ==> (#[trigger] tags[j]) == pairs@[j].0@);
            }
        }
    }

    /// Announce the current section when the player has just arrived in
    /// it; remember what was announced.
    pub fn render_if_moved(&mut self) -> (r: Result<Vec<String>, GameError>)
        requires
            old(self).wf(),
        ensures
            final(self).wf(),
            r is Err <==> !old(self)@.sections.contains_key(old(self)@.cur),
            match r {
                Err(e) => *final(self) == *old(self) && e@ == old(self)@.cur,
                Ok(lines) => {
                    &&& final(self)@ == (GameView {
                        rendered: Some(old(self)@.cur),
                        ..old(self)@
                    })
                    &&& (old(self)@.rendered == Some(old(self)@.cur)
                        ==> lines.deep_view() == Seq::<Seq<char>>::empty())
                    &&& (old(self)@.rendered != Some(old(self)@.cur)
                        ==> lines.deep_view()
                            == position_lines(old(self)@.sections[old(self)@.cur]))
                },
            },
    {
        match self.sections.get(&self.current_section_tag) {
            Some(_) => {},
            None => {
                return Err(GameError::UnknownSection(self.current_section_tag.clone()));
            },
        }
        let mut lines: Vec<String> = Vec::new();
        let moved = match &self.rendered_section_tag {
            Some(t) => !(*t == self.current_section_tag),
            None => true,
        };
        if moved {
            self.write_position(&mut lines);
        }
        self.rendered_section_tag = Some(self.current_section_tag.clone());
        proof {
            if !moved {
                assert(lines.deep_view() =~= Seq::<Seq<char>>::empty());
            }
            assert(final(self)@ =~= (GameView { rendered: Some(old(self)@.cur), ..old(self)@ }));
        }
        Ok(lines)
    }

    /// One turn: parse the line, dispatch it, and say what to show and
    /// whether the game ends. Fails exactly when the current section tag
    /// is absent from the world.
    pub fn step(&mut self, line: &str) -> (r: Result<StepOutput, GameError>)
        requires
            old(self).wf(),
        ensures
            final(self).wf(),
            r is Err <==> !old(self)@.sections.contains_key(old(self)@.cur),
            match r {
                Err(e) => *final(self) == *old(self) && e@ == old(self)@.cur,
                Ok(out) => {
                    &&& final(self)@ == step_spec(old(self)@, line@).post
                    &&& out.quit == step_spec(old(self)@, line@).quit
                    &&& if spec_parse_command(line@)
                        == CommandView::Meta(MetaCommand::ShowInventory) {
                        inv_listing(old(self)@.inventory, out.lines.deep_view())
                    } else {
                        out.lines.deep_view() == step_spec(old(self)@, line@).lines
                    }
                },
            },
    {
        let ghost pre = self@;
        let ghost sr = step_spec(self@, line@);
        let mut lines: Vec<String> = Vec::new();
        let cur_tag = self.current_section_tag.clone();
        let sec = match self.sections.get(&cur_tag) {
            Some(s) => s,
            None => {
                return Err(GameError::UnknownSection(cur_tag));
            },
        };
        let ghost sec_v = sec@;
        let cmd = parse_command(line);
        match cmd {
            Command::Move(dir) => {
                let ex = match sec {
                    UnendSection::Basic(cs) => cs.exit(&dir),
                };
                match ex {
                    Exit::Open(target) => {
                        self.current_section_tag = target;
                        proof {
                            assert(self@ =~= sr.post);
                            assert(lines.deep_view() =~= sr.lines);
                        }
                        Ok(StepOutput { lines, quit: false })
                    },
                    Exit::Blocked(msg) => {
                        lines.push(msg);
                        proof {
                            assert(self@ =~= sr.post);
                            assert(lines.deep_view() =~= sr.lines);
                        }
                        Ok(StepOutput { lines, quit: false })
                    },
                    Exit::Absent => {
                        lines.push("No exit this way.".to_owned());
                        proof {
                            assert(self@ =~= sr.post);
                            assert(lines.deep_view() =~= sr.lines);
                        }
                        Ok(StepOutput { lines, quit: false })
                    },
                }
            },
            Command::Interact(verb, tag) => {
                let objs = match sec {
                    UnendSection::Basic(cs) => cs.get_objects(),
                };
                let found = objs.get(&tag);
                match found {
                    None => {
                        lines.push("Invalid target for action.".to_owned());
                        proof {
                            assert(self@ =~= sr.post);
                            assert(lines.deep_view() =~= sr.lines);
                        }
                        Ok(StepOutput { lines, quit: false })
                    },
                    Some(obj) => {
                        let ghost obj_v = obj@;
                        let res = resolve(obj, verb);
                        match res {
                            InteractionRes::Info(s) => {
                                lines.push(s);
                                proof {
                                    assert(self@ =~= sr.post);
                                    assert(lines.deep_view() =~= sr.lines);
                                }
                                Ok(StepOutput { lines, quit: false })
                            },
                            InteractionRes::GotoSection(target) => {
                                self.current_section_tag = target;
                                proof {
                                    assert(self@ =~= sr.post);
                                    assert(lines.deep_view() =~= sr.lines);
                                }
                                Ok(StepOutput { lines, quit: false })
                            },
                            InteractionRes::Take(s) => {
                                let taken = self.sections.take_object(&cur_tag, &tag);
                                match taken {
                                    Some(o) => {
                                        self.inventory.insert(tag, o);
                                        lines.push("Taking!".to_owned());
                                        lines.push(s);
                                        proof {
                                            assert(self@ =~= sr.post);
                                            assert(lines.deep_view() =~= sr.lines);
                                        }
                                        Ok(StepOutput { lines, quit: false })
                                    },
                                    None => vstd::pervasive::unreached(),
                                }
                            },
                        }
                    },
                }
            },
            Command::Meta(m) => match m {
                MetaCommand::ShowPosition => {
                    self.write_position(&mut lines);
                    proof {
                        assert(self@ =~= sr.post);
                        assert(lines.deep_view() =~= sr.lines);
                    }
                    Ok(StepOutput { lines, quit: false })
                },
                MetaCommand::ShowInventory => {
                    self.write_inventory(&mut lines);
                    proof {
                        assert(self@ =~= sr.post);
                    }
                    Ok(StepOutput { lines, quit: false })
                },
                MetaCommand::ShowHelp => {
                    self.write_help(&mut lines);
                    proof {
                        assert(self@ =~= sr.post);
                        assert(lines.deep_view() =~= sr.lines);
                    }
                    Ok(StepOutput { lines, quit: false })
                },
                MetaCommand::Quit => {
                    lines.push("See you!".to_owned());
                    proof {
                        assert(self@ =~= sr.post);
                        assert(lines.deep_view() =~= sr.lines);
                    }
                    Ok(StepOutput { lines, quit: true })
                },
            },
            Command::Unrecognized => {
                lines.push("Unknown command.".to_owned());
                proof {
                    assert(self@ =~= sr.post);
                    assert(lines.deep_view() =~= sr.lines);
                }
                Ok(StepOutput { lines, quit: false })
            },
        }
    }
}

/// A trait which allows the game to perform input and output on a
/// console. Any implementation can be provided, so other front ends are
/// possible.
pub trait ConsoleIO {
    /// Read one command line, with no trailing newline or space around,
    /// folded to lower case.
    fn read_command(&self) -> String;

    /// Write the passed string, adding a newline.
    fn write_line(&self, line: &str);
}

/// Law: a take of a takeable entity moves it, under its own tag, from the
/// current section's entity map into the inventory; a second take of the
/// same tag then reports an invalid target and changes nothing, since the
/// entity is no longer present in the section.
pub proof fn lemma_take_moves_entity_once(pre: GameView, line: Seq<char>, tag: Seq<char>)
    requires
        pre.sections.contains_key(pre.cur),
        spec_parse_command(line) == CommandView::Interact(Interaction::Take, tag),
        pre.sections[pre.cur].objects.contains_key(tag),
        pre.sections[pre.cur].objects[tag].takeable(),
        pre.sections[pre.cur].objects[tag].wf(),
    ensures
        !step_spec(pre, line).post.sections[pre.cur].objects.contains_key(tag),
        step_spec(pre, line).post.inventory.contains_key(tag),
        step_spec(pre, line).post.inventory[tag] == pre.sections[pre.cur].objects[tag],
        step_spec(pre, line).post.cur == pre.cur,
        step_spec(step_spec(pre, line).post, line).post == step_spec(pre, line).post,
        step_spec(step_spec(pre, line).post, line).lines
            == seq!["Invalid target for action."@],
{
    let obj = pre.sections[pre.cur].objects[tag];
    assert(resolve_spec(obj, Interaction::Take) is Take);
    let post = step_spec(pre, line).post;
    assert(post.sections[pre.cur] == sec_without_object(pre.sections[pre.cur], tag));
    assert(step_spec(post, line).post =~= post);
}

} // verus!

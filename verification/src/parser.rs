//! The command parser.
//!
//! One trimmed, lower-cased input line is classified into exactly one
//! command: a single-letter move, a two-word interaction, a meta command,
//! or unrecognized. Matching order is fixed: the single-token direction
//! check comes first, then the two-token interaction pattern, then the
//! meta keywords; everything else is unrecognized.

use vstd::prelude::*;

use crate::interagibles::Interaction;
use crate::visitables::ExitDir;

verus! {

/// Meta commands: queries about the game rather than actions in it.
#[derive(Debug, Clone, Copy, PartialEq, Eq, Structural)]
pub enum MetaCommand {
    ShowPosition,
    ShowInventory,
    ShowHelp,
    Quit,
}

/// What one input line means.
#[derive(Debug, Clone)]
pub enum Command {
    Move(ExitDir),
    Interact(Interaction, String),
    Meta(MetaCommand),
    Unrecognized,
}

/// The mathematical reading of a `Command`.
#[verifier::ext_equal]
pub enum CommandView {
    Move(ExitDir),
    Interact(Interaction, Seq<char>),
    Meta(MetaCommand),
    Unrecognized,
}

impl View for Command {
    type V = CommandView;

    open spec fn view(&self) -> CommandView {
        match self {
            Command::Move(d) => CommandView::Move(*d),
            Command::Interact(v, t) => CommandView::Interact(*v, t@),
            Command::Meta(m) => CommandView::Meta(*m),
            Command::Unrecognized => CommandView::Unrecognized,
        }
    }
}

/// A character that can stand in a word token: a letter, a digit, or an
/// underscore.
pub open spec fn is_word_char(c: char) -> bool {
    ||| ('a' <= c && c <= 'z')
    ||| ('A' <= c && c <= 'Z')
    ||| ('0' <= c && c <= '9')
    ||| c == '_'
}

/// A character that separates the two tokens: a space or a tab.
pub open spec fn is_space_char(c: char) -> bool {
    c == ' ' || c == '\t'
}

/// The first index at or after `i` holding no word character (the
/// sequence's length if word characters run to the end).
pub open spec fn word_end(s: Seq<char>, i: int) -> int
    decreases s.len() - i,
{
    if i < 0 || i >= s.len() {
        s.len() as int
    } else if is_word_char(s[i]) {
        word_end(s, i + 1)
    } else {
        i
    }
}

/// The first index at or after `i` holding no separator character.
pub open spec fn space_end(s: Seq<char>, i: int) -> int
    decreases s.len() - i,
{
    if i < 0 || i >= s.len() {
        s.len() as int
    } else if is_space_char(s[i]) {
        space_end(s, i + 1)
    } else {
        i
    }
}

/// The two word tokens of a line shaped word, separator run, word — and
/// nothing else; `None` for any other shape.
pub open spec fn spec_two_tokens(s: Seq<char>) -> Option<(Seq<char>, Seq<char>)> {
    let e1 = word_end(s, 0);
    let e2 = space_end(s, e1);
    let e3 = word_end(s, e2);
    if 0 < e1 && e1 < e2 && e2 < e3 && e3 == s.len() {
        Some((s.subrange(0, e1), s.subrange(e2, e3)))
    } else {
        None
    }
}

/// The verb table: the word each interaction answers to.
pub open spec fn spec_verb_of(w: Seq<char>) -> Option<Interaction> {
    if w == "open"@ {
        Some(Interaction::Open)
    } else if w == "close"@ {
        Some(Interaction::Close)
    } else if w == "give"@ {
        Some(Interaction::Give)
    } else if w == "take"@ {
        Some(Interaction::Take)
    } else if w == "look"@ {
        Some(Interaction::Look)
    } else if w == "talk"@ {
        Some(Interaction::Talk)
    } else if w == "push"@ {
        Some(Interaction::Push)
    } else if w == "pull"@ {
        Some(Interaction::Pull)
    } else if w == "use"@ {
        Some(Interaction::Use)
    } else {
        None
    }
}

/// The direction table: the letter each direction answers to.
pub open spec fn spec_dir_of(s: Seq<char>) -> Option<ExitDir> {
    if s.len() == 1 && s[0] == 'n' {
        Some(ExitDir::North)
    } else if s.len() == 1 && s[0] == 's' {
        Some(ExitDir::South)
    } else if s.len() == 1 && s[0] == 'w' {
        Some(ExitDir::West)
    } else if s.len() == 1 && s[0] == 'e' {
        Some(ExitDir::East)
    } else {
        None
    }
}

/// The meta table: the keyword each meta command answers to.
pub open spec fn spec_meta_of(s: Seq<char>) -> Option<MetaCommand> {
    if s == "pos"@ || (s.len() == 1 && s[0] == 'p') {
        Some(MetaCommand::ShowPosition)
    } else if s.len() == 1 && s[0] == 'i' {
        Some(MetaCommand::ShowInventory)
    } else if s.len() == 1 && s[0] == 'h' {
        Some(MetaCommand::ShowHelp)
    } else if s.len() == 1 && s[0] == 'q' {
        Some(MetaCommand::Quit)
    } else {
        None
    }
}

/// What one line means: direction first, then the two-token interaction
/// pattern (with an unknown first word unrecognized), then meta keywords.
pub open spec fn spec_parse_command(s: Seq<char>) -> CommandView {
    match spec_dir_of(s) {
        Some(d) => CommandView::Move(d),
        None => match spec_two_tokens(s) {
            Some(wt) => match spec_verb_of(wt.0) {
                Some(v) => CommandView::Interact(v, wt.1),
                None => CommandView::Unrecognized,
            },
            None => match spec_meta_of(s) {
                Some(m) => CommandView::Meta(m),
                None => CommandView::Unrecognized,
            },
        },
    }
}

/// Whether two string slices hold the same characters.
fn str_eq(a: &str, b: &str) -> (r: bool)
    ensures
        r == (a@ == b@),
{
    let n = a.unicode_len();
    let m = b.unicode_len();
    if n != m {
        return false;
    }
    let mut i: usize = 0;
    while i < n
        invariant
            0 <= i <= n,
            n == a@.len(),
            n == b@.len(),
            forall|j: int| 0 <= j < i ==> a@[j] == b@[j],
        decreases n - i,
    {
        if a.get_char(i) != b.get_char(i) {
            return false;
        }
        i += 1;
    }
    proof {
        assert(a@ =~= b@);
    }
    true
}

/// Whether a character can stand in a word token.
fn check_word_char(c: char) -> (r: bool)
    ensures
        r == is_word_char(c),
{
    ('a' <= c && c <= 'z') || ('A' <= c && c <= 'Z') || ('0' <= c && c <= '9') || c == '_'
}

/// Whether a character separates the two tokens.
fn check_space_char(c: char) -> (r: bool)
    ensures
        r == is_space_char(c),
{
    c == ' ' || c == '\t'
}

/// Scan the word-character run starting at `start`.
fn scan_word(s: &str, start: usize) -> (e: usize)
    requires
        start <= s@.len(),
    ensures
        e == word_end(s@, start as int),
        start <= e <= s@.len(),
{
    let n = s.unicode_len();
    let mut i = start;
    while i < n && check_word_char(s.get_char(i))
        invariant
            start <= i <= n,
            n == s@.len(),
            word_end(s@, start as int) == word_end(s@, i as int),
        decreases n - i,
    {
        i += 1;
    }
    i
}

/// Scan the separator run starting at `start`.
fn scan_space(s: &str, start: usize) -> (e: usize)
    requires
        start <= s@.len(),
    ensures
        e == space_end(s@, start as int),
        start <= e <= s@.len(),
{
    let n = s.unicode_len();
    let mut i = start;
    while i < n && check_space_char(s.get_char(i))
        invariant
            start <= i <= n,
            n == s@.len(),
            space_end(s@, start as int) == space_end(s@, i as int),
        decreases n - i,
    {
        i += 1;
    }
    i
}

/// Look a word up in the verb table.
pub fn parse_interaction(w: &str) -> (r: Option<Interaction>)
    ensures
        r == spec_verb_of(w@),
{
    if str_eq(w, "open") {
        Some(Interaction::Open)
    } else if str_eq(w, "close") {
        Some(Interaction::Close)
    } else if str_eq(w, "give") {
        Some(Interaction::Give)
    } else if str_eq(w, "take") {
        Some(Interaction::Take)
    } else if str_eq(w, "look") {
        Some(Interaction::Look)
    } else if str_eq(w, "talk") {
        Some(Interaction::Talk)
    } else if str_eq(w, "push") {
        Some(Interaction::Push)
    } else if str_eq(w, "pull") {
        Some(Interaction::Pull)
    } else if str_eq(w, "use") {
        Some(Interaction::Use)
    } else {
        None
    }
}

/// Classify one trimmed, lower-cased input line.
pub fn parse_command(line: &str) -> (c: Command)
    ensures
        c@ == spec_parse_command(line@),
{
    let n = line.unicode_len();
    if n == 1 {
        let c0 = line.get_char(0);
        if c0 == 'n' {
            return Command::Move(ExitDir::North);
        }
        if c0 == 's' {
            return Command::Move(ExitDir::South);
        }
        if c0 == 'w' {
            return Command::Move(ExitDir::West);
        }
        if c0 == 'e' {
            return Command::Move(ExitDir::East);
        }
    }
    let e1 = scan_word(line, 0);
    if 0 < e1 && e1 < n {
        let e2 = scan_space(line, e1);
        if e1 < e2 {
            let e3 = scan_word(line, e2);
            if e2 < e3 && e3 == n {
                let w = line.substring_char(0, e1);
                match parse_interaction(w) {
                    Some(v) => {
                        let t = line.substring_char(e2, e3).to_owned();
                        return Command::Interact(v, t);
                    },
                    None => {
                        return Command::Unrecognized;
                    },
                }
            }
        }
    }
    proof {
        assert(spec_two_tokens(line@) is None);
    }
    if str_eq(line, "pos") {
        return Command::Meta(MetaCommand::ShowPosition);
    }
    if n == 1 {
        let c0 = line.get_char(0);
        if c0 == 'p' {
            return Command::Meta(MetaCommand::ShowPosition);
        }
        if c0 == 'i' {
            return Command::Meta(MetaCommand::ShowInventory);
        }
        if c0 == 'h' {
            return Command::Meta(MetaCommand::ShowHelp);
        }
        if c0 == 'q' {
            return Command::Meta(MetaCommand::Quit);
        }
    }
    Command::Unrecognized
}

} // verus!


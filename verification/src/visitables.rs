//! Visitables are the sections (rooms) of the game world.
//!
//! A section has a tag, a display name, a description, a table of exits by
//! direction, and the entities that stand in it. Exits are directed and
//! need not be symmetric; a direction missing from the table means there
//! is no exit that way.

use vstd::prelude::*;

use crate::assoc::{assoc_map, unique_keys, lemma_assoc_map_contains, lemma_assoc_map_index,
    lemma_assoc_map_push, lemma_assoc_map_remove, lemma_assoc_map_update};
use crate::interagibles::{ObjectMap, ObjectView, UnendObject};

verus! {

/// The four directions a player can move in.
#[derive(Debug, Clone, Copy, PartialEq, Eq, Hash, Structural)]
pub enum ExitDir {
    North,
    South,
    West,
    East,
}

/// Exit from a section: open towards the tag of another section, closed
/// with a reason to show, or absent.
#[derive(Debug)]
pub enum Exit {
    Open(String),
    Blocked(String),
    Absent,
}

/// The mathematical reading of an `Exit`.
#[verifier::ext_equal]
pub enum ExitView {
    Open(Seq<char>),
    Blocked(Seq<char>),
    Absent,
}

impl View for Exit {
    type V = ExitView;

    open spec fn view(&self) -> ExitView {
        match self {
            Exit::Open(s) => ExitView::Open(s@),
            Exit::Blocked(s) => ExitView::Blocked(s@),
            Exit::Absent => ExitView::Absent,
        }
    }
}

impl Clone for Exit {
    fn clone(&self) -> (r: Self)
        ensures
            r@ == self@,
    {
        match self {
            Exit::Open(s) => Exit::Open(s.clone()),
            Exit::Blocked(s) => Exit::Blocked(s.clone()),
            Exit::Absent => Exit::Absent,
        }
    }
}

/// A direction-to-exit table, stored as an association list with unique
/// directions and read as a finite map.
#[derive(Debug)]
pub struct ExitMap {
    entries: Vec<(ExitDir, Exit)>,
}

impl ExitMap {
    /// The table's entries with each exit read mathematically.
    pub closed spec fn entry_seq(&self) -> Seq<(ExitDir, ExitView)> {
        self.entries@.map_values(|p: (ExitDir, Exit)| (p.0, p.1@))
    }

    /// Each direction appears at most once.
    pub open spec fn wf(&self) -> bool {
        unique_keys(self.entry_seq())
    }

    pub fn new() -> (r: Self)
        ensures
            r.wf(),
            r@ == Map::<ExitDir, ExitView>::empty(),
    {
        let r = ExitMap { entries: Vec::new() };
        proof {
            assert(r.entry_seq() =~= Seq::<(ExitDir, ExitView)>::empty());
        }
        r
    }

    /// Add or replace the exit for a direction.
    pub fn insert(&mut self, dir: ExitDir, exit: Exit)
        requires
            old(self).wf(),
        ensures
            final(self).wf(),
            final(self)@ == old(self)@.insert(dir, exit@),
    {
        let ghost pre = self.entry_seq();
        let mut i: usize = 0;
        let n = self.entries.len();
        while i < n
            invariant
                0 <= i <= n,
                n == self.entries.len(),
                self.entry_seq() == pre,
                unique_keys(pre),
                self == old(self),
                forall|j: int| 0 <= j < i ==> (#[trigger] pre[j]).0 != dir,
            decreases n - i,
        {
            if self.entries[i].0 == dir {
                proof {
                    assert(pre[i as int].0 == dir);
                    lemma_assoc_map_remove(pre, i as int);
                    lemma_assoc_map_push(pre.remove(i as int), dir, exit@);
                    assert(unique_keys(pre.remove(i as int))) by {
                        assert(forall|p: int| 0 <= p < i
                            ==> (#[trigger] pre.remove(i as int)[p]) == pre[p]);
                        assert(forall|p: int| i <= p < pre.len() - 1
                            ==> (#[trigger] pre.remove(i as int)[p]) == pre[p + 1]);
                    }
                }
                self.entries.remove(i);
                let ghost mid = self.entry_seq();
                proof {
                    assert(mid =~= pre.remove(i as int));
                }
                self.entries.push((dir, exit));
                proof {
                    assert(self.entry_seq() =~= mid.push((dir, exit@)));
                    assert(unique_keys(self.entry_seq())) by {
                        assert(forall|p: int| 0 <= p < mid.len()
                            ==> (#[trigger] self.entry_seq()[p]) == mid[p]);
                        assert(forall|p: int| 0 <= p < mid.len() ==> mid[p].0 != dir) by {
                            assert(forall|p: int| 0 <= p < i
                                ==> (#[trigger] mid[p]) == pre[p]);
                            assert(forall|p: int| i <= p < pre.len() - 1
                                ==> (#[trigger] mid[p]) == pre[p + 1]);
                        }
                    }
                    assert(assoc_map(mid) == assoc_map(pre).remove(dir));
                    assert(self@ == assoc_map(mid).insert(dir, exit@));
                    assert(assoc_map(pre).remove(dir).insert(dir, exit@)
                        =~= assoc_map(pre).insert(dir, exit@));
                    assert(old(self)@ == assoc_map(pre));
                }
                return ;
            }
            i += 1;
        }
        proof {
            lemma_assoc_map_push(pre, dir, exit@);
        }
        self.entries.push((dir, exit));
        proof {
            assert(self.entry_seq() =~= pre.push((dir, exit@)));
            assert(unique_keys(self.entry_seq())) by {
                assert(forall|p: int| 0 <= p < pre.len()
                    ==> (#[trigger] self.entry_seq()[p]) == pre[p]);
            }
        }
    }

    /// Look a direction up; `None` exactly when no exit is authored there.
    pub fn get(&self, dir: ExitDir) -> (r: Option<&Exit>)
        requires
            self.wf(),
        ensures
            match r {
                Some(e) => self@.contains_key(dir) && e@ == self@[dir],
                None => !self@.contains_key(dir),
            },
    {
        let n = self.entries.len();
        let mut i: usize = 0;
        while i < n
            invariant
                0 <= i <= n,
                n == self.entries.len(),
                unique_keys(self.entry_seq()),
                forall|j: int| 0 <= j < i ==> (#[trigger] self.entry_seq()[j]).0 != dir,
            decreases n - i,
        {
            if self.entries[i].0 == dir {
                proof {
                    lemma_assoc_map_index(self.entry_seq(), i as int);
                }
                return Some(&self.entries[i].1);
            }
            i += 1;
        }
        proof {
            lemma_assoc_map_contains(self.entry_seq(), dir);
        }
        None
    }
}

impl View for ExitMap {
    type V = Map<ExitDir, ExitView>;

    closed spec fn view(&self) -> Map<ExitDir, ExitView> {
        assoc_map(self.entry_seq())
    }
}

/// The mathematical reading of a section.
#[verifier::ext_equal]
pub struct SectionView {
    pub tag: Seq<char>,
    pub name: Seq<char>,
    pub dsc: Seq<char>,
    pub exits: Map<ExitDir, ExitView>,
    pub objects: Map<Seq<char>, ObjectView>,
}

/// The exit a section offers in a direction: the authored exit, or absent
/// when the direction is missing from the exit table.
pub open spec fn exit_spec(s: SectionView, dir: ExitDir) -> ExitView {
    if s.exits.contains_key(dir) {
        s.exits[dir]
    } else {
        ExitView::Absent
    }
}

/// Law: for every section and every direction not present in its exit
/// table, the exit lookup yields `Absent`.
pub proof fn lemma_absent_direction_has_no_exit(s: SectionView, dir: ExitDir)
    requires
        !s.exits.contains_key(dir),
    ensures
        exit_spec(s, dir) == ExitView::Absent,
{
}

/// Anything that is `Visitable` can be a section in the game.
pub trait Visitable {
    /// The section's mathematical reading.
    spec fn sec(&self) -> SectionView;

    /// The stored tables have unique keys and hold consistent entities.
    spec fn inv(&self) -> bool;

    fn get_tag(&self) -> (t: String)
        ensures
            t@ == self.sec().tag,
    ;

    fn get_name(&self) -> (n: String)
        ensures
            n@ == self.sec().name,
    ;

    fn get_dsc(&self) -> (d: String)
        ensures
            d@ == self.sec().dsc,
    ;

    fn get_objects(&self) -> (o: &ObjectMap)
        requires
            self.inv(),
        ensures
            o@ == self.sec().objects,
            o.wf(),
    ;

    fn exit(&self, dir: &ExitDir) -> (e: Exit)
        requires
            self.inv(),
        ensures
            e@ == exit_spec(self.sec(), *dir),
    ;
}

/// A basic section, instantiated by passing all descriptions, exits and
/// entities as values.
#[derive(Debug)]
pub struct BasicSection {
    tag: String,
    name: String,
    dsc: String,
    exits: ExitMap,
    objects: ObjectMap,
}

impl View for BasicSection {
    type V = SectionView;

    closed spec fn view(&self) -> SectionView {
        SectionView {
            tag: self.tag@,
            name: self.name@,
            dsc: self.dsc@,
            exits: self.exits@,
            objects: self.objects@,
        }
    }
}

impl BasicSection {
    pub fn new(
        i_tag: String,
        i_name: String,
        i_dsc: String,
        i_exits: ExitMap,
        i_objects: ObjectMap,
    ) -> (r: Self)
        requires
            i_exits.wf(),
            i_objects.wf(),
        ensures
            r@ == (SectionView {
                tag: i_tag@,
                name: i_name@,
                dsc: i_dsc@,
                exits: i_exits@,
                objects: i_objects@,
            }),
            r.inv(),
    {
        BasicSection {
            tag: i_tag,
            name: i_name,
            dsc: i_dsc,
            exits: i_exits,
            objects: i_objects,
        }
    }

    /// Move the entity stored under a tag out of the section, if present.
    pub fn remove_object(&mut self, obj_tag: &String) -> (r: Option<UnendObject>)
        requires
            old(self).inv(),
        ensures
            final(self).inv(),
            final(self)@.tag == old(self)@.tag,
            final(self)@.name == old(self)@.name,
            final(self)@.dsc == old(self)@.dsc,
            final(self)@.exits == old(self)@.exits,
            match r {
                Some(o) => {
                    &&& old(self)@.objects.contains_key(obj_tag@)
                    &&& o@ == old(self)@.objects[obj_tag@]
                    &&& o.inv()
                    &&& o@.wf()
                    &&& final(self)@.objects == old(self)@.objects.remove(obj_tag@)
                },
                None => !old(self)@.objects.contains_key(obj_tag@)
                    && final(self)@.objects == old(self)@.objects,
            },
    {
        self.objects.remove(obj_tag)
    }
}

impl Visitable for BasicSection {
    open spec fn sec(&self) -> SectionView {
        self@
    }

    closed spec fn inv(&self) -> bool {
        self.exits.wf() && self.objects.wf()
    }

    fn get_tag(&self) -> (t: String) {
        self.tag.clone()
    }

    fn get_name(&self) -> (n: String) {
        self.name.clone()
    }

    fn get_dsc(&self) -> (d: String) {
        self.dsc.clone()
    }

    fn get_objects(&self) -> (o: &ObjectMap) {
        &self.objects
    }

    fn exit(&self, dir: &ExitDir) -> (e: Exit) {
        match self.exits.get(*dir) {
            Some(ex) => ex.clone(),
            None => Exit::Absent,
        }
    }
}

/// The closed set of section variants.
#[derive(Debug)]
pub enum UnendSection {
    Basic(BasicSection),
}

impl View for UnendSection {
    type V = SectionView;

    open spec fn view(&self) -> SectionView {
        match self {
            UnendSection::Basic(s) => s@,
        }
    }
}

impl UnendSection {
    /// The stored tables have unique keys and hold consistent entities.
    pub open spec fn inv(&self) -> bool {
        match self {
            UnendSection::Basic(s) => s.inv(),
        }
    }
}

/// A section after an entity was taken out of it: everything else stays.
pub open spec fn sec_without_object(s: SectionView, obj_tag: Seq<char>) -> SectionView {
    SectionView { objects: s.objects.remove(obj_tag), ..s }
}

/// The world: a tag-to-section collection, immutable after construction
/// but for entities moving out of sections. Stored as an association list
/// with unique tags and read as a finite map from tag to section.
#[derive(Debug)]
pub struct SectionMap {
    entries: Vec<(String, UnendSection)>,
}

impl SectionMap {
    /// The entries with tags and sections read mathematically.
    pub closed spec fn entry_seq(&self) -> Seq<(Seq<char>, SectionView)> {
        self.entries@.map_values(|p: (String, UnendSection)| (p.0@, p.1@))
    }

    /// Every stored section's own tables are consistent.
    pub closed spec fn sections_inv(&self) -> bool {
        forall|i: int| 0 <= i < self.entries@.len() ==> (#[trigger] self.entries@[i]).1.inv()
    }

    /// Tags are unique and stored sections are internally consistent.
    pub open spec fn wf(&self) -> bool {
        unique_keys(self.entry_seq()) && self.sections_inv()
    }

    pub fn new() -> (r: Self)
        ensures
            r.wf(),
            r@ == Map::<Seq<char>, SectionView>::empty(),
    {
        let r = SectionMap { entries: Vec::new() };
        proof {
            assert(r.entry_seq() =~= Seq::<(Seq<char>, SectionView)>::empty());
        }
        r
    }

    /// Add or replace the section stored under a tag.
    pub fn insert(&mut self, tag: String, sec: UnendSection)
        requires
            old(self).wf(),
            sec.inv(),
        ensures
            final(self).wf(),
            final(self)@ == old(self)@.insert(tag@, sec@),
    {
        let ghost pre = self.entry_seq();
        let mut i: usize = 0;
        let n = self.entries.len();
        while i < n
            invariant
                0 <= i <= n,
                n == self.entries.len(),
                self.entry_seq() == pre,
                self.wf(),
                self == old(self),
                sec.inv(),
                forall|j: int| 0 <= j < i ==> (#[trigger] pre[j]).0 != tag@,
            decreases n - i,
        {
            if self.entries[i].0 == tag {
                proof {
                    assert(pre[i as int].0 == tag@);
                    lemma_assoc_map_remove(pre, i as int);
                    lemma_assoc_map_push(pre.remove(i as int), tag@, sec@);
                    assert(unique_keys(pre.remove(i as int))) by {
                        assert(forall|p: int| 0 <= p < i
                            ==> (#[trigger] pre.remove(i as int)[p]) == pre[p]);
                        assert(forall|p: int| i <= p < pre.len() - 1
                            ==> (#[trigger] pre.remove(i as int)[p]) == pre[p + 1]);
                    }
                }
                let ghost pre_entries = self.entries@;
                self.entries.remove(i);
                let ghost mid = self.entry_seq();
                proof {
                    assert(mid =~= pre.remove(i as int));
                }
                self.entries.push((tag, sec));
                proof {
                    assert(self.entry_seq() =~= mid.push((tag@, sec@)));
                    assert(unique_keys(self.entry_seq())) by {
                        assert(forall|p: int| 0 <= p < mid.len()
                            ==> (#[trigger] self.entry_seq()[p]) == mid[p]);
                        assert(forall|p: int| 0 <= p < mid.len() ==> mid[p].0 != tag@) by {
                            assert(forall|p: int| 0 <= p < i
                                ==> (#[trigger] mid[p]) == pre[p]);
                            assert(forall|p: int| i <= p < pre.len() - 1
                                ==> (#[trigger] mid[p]) == pre[p + 1]);
                        }
                    }
                    assert(assoc_map(mid) == assoc_map(pre).remove(tag@));
                    assert(self@ == assoc_map(mid).insert(tag@, sec@));
                    assert(assoc_map(pre).remove(tag@).insert(tag@, sec@)
                        =~= assoc_map(pre).insert(tag@, sec@));
                    assert(old(self)@ == assoc_map(pre));
                    assert(self.sections_inv()) by {
                        assert(forall|p: int| 0 <= p < i
                            ==> (#[trigger] self.entries@[p]) == pre_entries[p]);
                        assert(forall|p: int| i <= p < pre_entries.len() - 1
                            ==> (#[trigger] self.entries@[p]) == pre_entries[p + 1]);
                        assert(self.entries@.last() == (tag, sec));
                    }
                }
                return ;
            }
            i += 1;
        }
        proof {
            lemma_assoc_map_push(pre, tag@, sec@);
        }
        let ghost pre_entries = self.entries@;
        self.entries.push((tag, sec));
        proof {
            assert(self.entry_seq() =~= pre.push((tag@, sec@)));
            assert(unique_keys(self.entry_seq())) by {
                assert(forall|p: int| 0 <= p < pre.len()
                    ==> (#[trigger] self.entry_seq()[p]) == pre[p]);
            }
            assert(self.sections_inv()) by {
                assert(forall|p: int| 0 <= p < pre_entries.len()
                    ==> (#[trigger] self.entries@[p]) == pre_entries[p]);
                assert(self.entries@.last() == (tag, sec));
            }
        }
    }

    /// Look a tag up; `None` exactly when no section carries the tag.
    pub fn get(&self, tag: &String) -> (r: Option<&UnendSection>)
        requires
            self.wf(),
        ensures
            match r {
                Some(s) => self@.contains_key(tag@) && s@ == self@[tag@] && s.inv(),
                None => !self@.contains_key(tag@),
            },
    {
        let n = self.entries.len();
        let mut i: usize = 0;
        while i < n
            invariant
                0 <= i <= n,
                n == self.entries.len(),
                self.wf(),
                forall|j: int| 0 <= j < i ==> (#[trigger] self.entry_seq()[j]).0 != tag@,
            decreases n - i,
        {
            if self.entries[i].0 == *tag {
                proof {
                    lemma_assoc_map_index(self.entry_seq(), i as int);
                }
                return Some(&self.entries[i].1);
            }
            i += 1;
        }
        proof {
            lemma_assoc_map_contains(self.entry_seq(), tag@);
        }
        None
    }

    /// Move an entity out of a section: the single mutation the world
    /// permits, scoped to entity content so the graph's structure stays
    /// intact. `None`, with nothing changed, when the section or the
    /// entity is absent.
    pub fn take_object(&mut self, sec_tag: &String, obj_tag: &String) -> (r: Option<UnendObject>)
        requires
            old(self).wf(),
        ensures
            final(self).wf(),
            match r {
                Some(o) => {
                    &&& old(self)@.contains_key(sec_tag@)
                    &&& old(self)@[sec_tag@].objects.contains_key(obj_tag@)
                    &&& o@ == old(self)@[sec_tag@].objects[obj_tag@]
                    &&& o.inv()
                    &&& o@.wf()
                    &&& final(self)@ == old(self)@.insert(
                        sec_tag@,
                        sec_without_object(old(self)@[sec_tag@], obj_tag@),
                    )
                },
                None => {
                    &&& final(self)@ == old(self)@
                    &&& (old(self)@.contains_key(sec_tag@)
                        ==> !old(self)@[sec_tag@].objects.contains_key(obj_tag@))
                },
            },
    {
        let ghost pre = self.entry_seq();
        let mut i: usize = 0;
        let n = self.entries.len();
        while i < n
            invariant
                0 <= i <= n,
                n == self.entries.len(),
                self.entry_seq() == pre,
                self.wf(),
                self == old(self),
                forall|j: int| 0 <= j < i ==> (#[trigger] pre[j]).0 != sec_tag@,
            decreases n - i,
        {
            if self.entries[i].0 == *sec_tag {
                proof {
                    assert(pre[i as int].0 == sec_tag@);
                    lemma_assoc_map_index(pre, i as int);
                }
                let ghost pre_entries = self.entries@;
                let pair = self.entries.remove(i);
                let key = pair.0;
                let r: Option<UnendObject>;
                let sec_back: UnendSection;
                match pair.1 {
                    UnendSection::Basic(mut bs) => {
                        proof {
                            assert(pre_entries[i as int].1 == pair.1);
                        }
                        r = bs.remove_object(obj_tag);
                        sec_back = UnendSection::Basic(bs);
                    }
                }
                self.entries.insert(i, (key, sec_back));
                proof {
                    let ghost old_sec = pre[i as int].1;
                    assert(self.entries@ =~= pre_entries.update(i as int, (key, sec_back)));
                    assert(self.entry_seq() =~= pre.update(i as int, (sec_tag@, sec_back@)));
                    lemma_assoc_map_update(pre, i as int, sec_back@);
                    assert(unique_keys(self.entry_seq())) by {
                        assert(forall|p: int| 0 <= p < pre.len() ==> p != i
                            ==> (#[trigger] self.entry_seq()[p]) == pre[p]);
                        assert(self.entry_seq()[i as int].0 == sec_tag@);
                    }
                    assert(self.sections_inv()) by {
                        assert(forall|p: int| 0 <= p < pre_entries.len() ==> p != i
                            ==> (#[trigger] self.entries@[p]) == pre_entries[p]);
                        assert(self.entries@[i as int] == (key, sec_back));
                    }
                    if r is Some {
                        assert(sec_back@ == sec_without_object(old_sec, obj_tag@));
                        assert(old(self)@ == assoc_map(pre));
                    } else {
                        assert(sec_back@ == old_sec);
                        assert(pre.update(i as int, (sec_tag@, sec_back@)) =~= pre);
                        assert(assoc_map(pre).insert(sec_tag@, old_sec) =~= assoc_map(pre));
                    }
                }
                return r;
            }
            i += 1;
        }
        proof {
            lemma_assoc_map_contains(self.entry_seq(), sec_tag@);
        }
        None
    }
}

impl View for SectionMap {
    type V = Map<Seq<char>, SectionView>;

    closed spec fn view(&self) -> Map<Seq<char>, SectionView> {
        assoc_map(self.entry_seq())
    }
}

} // verus!

//! Interagibles are the objects and people a player can act on.
//!
//! Each entity carries a table from verbs to canned responses. The three
//! variants differ in the special effects they can produce: `Info` entities
//! only ever answer with text, `Portal` entities answer the use verb with a
//! section transition, and `Rolling` entities answer the take verb, when
//! they are marked takeable, with a move into the player's inventory.

use vstd::prelude::*;

use crate::assoc::{assoc_map, unique_keys, lemma_assoc_map_contains, lemma_assoc_map_index,
    lemma_assoc_map_push, lemma_assoc_map_remove, lemma_assoc_map_dom_len};

verus! {

/// A complete set of interactions, each one word long.
#[derive(Debug, Clone, Copy, PartialEq, Eq, Hash, Structural)]
pub enum Interaction {
    Open,
    Close,
    Give,
    Take,
    Look,
    Talk,
    Push,
    Pull,
    Use,
}

/// Possible results for an interaction: plain text, a move to another
/// section, or a move of the entity into the inventory.
#[derive(Debug, Clone)]
pub enum InteractionRes {
    Info(String),
    GotoSection(String),
    Take(String),
}

/// The mathematical reading of an `InteractionRes`.
#[verifier::ext_equal]
pub enum ResView {
    Info(Seq<char>),
    GotoSection(Seq<char>),
    Take(Seq<char>),
}

impl View for InteractionRes {
    type V = ResView;

    open spec fn view(&self) -> ResView {
        match self {
            InteractionRes::Info(s) => ResView::Info(s@),
            InteractionRes::GotoSection(s) => ResView::GotoSection(s@),
            InteractionRes::Take(s) => ResView::Take(s@),
        }
    }
}

/// A verb-to-response table, stored as an association list with unique
/// verbs and read as a finite map.
#[derive(Debug, Clone)]
pub struct ResponseTable {
    entries: Vec<(Interaction, String)>,
}

impl ResponseTable {
    /// The table's entries with each response read as its character sequence.
    pub closed spec fn entry_seq(&self) -> Seq<(Interaction, Seq<char>)> {
        self.entries@.map_values(|p: (Interaction, String)| (p.0, p.1@))
    }

    /// Each verb appears at most once.
    pub open spec fn wf(&self) -> bool {
        unique_keys(self.entry_seq())
    }

    pub fn new() -> (r: Self)
        ensures
            r.wf(),
            r@ == Map::<Interaction, Seq<char>>::empty(),
    {
        let r = ResponseTable { entries: Vec::new() };
        proof {
            assert(r.entry_seq() =~= Seq::<(Interaction, Seq<char>)>::empty());
        }
        r
    }

    /// Add or replace the response for a verb.
    pub fn insert(&mut self, verb: Interaction, response: String)
        requires
            old(self).wf(),
        ensures
            final(self).wf(),
            final(self)@ == old(self)@.insert(verb, response@),
    {
        let ghost pre = self.entry_seq();
        let mut i: usize = 0;
        let n = self.entries.len();
        while i < n
            invariant
                0 <= i <= n,
                n == self.entries.len(),
                self.entry_seq() == pre,
                unique_keys(pre),
                self@ == assoc_map(pre),
                old(self)@ == assoc_map(pre),
                forall|j: int| 0 <= j < i ==> (#[trigger] pre[j]).0 != verb,
            decreases n - i,
        {
            if self.entries[i].0 == verb {
                proof {
                    assert(pre[i as int].0 == verb);
                    lemma_assoc_map_remove(pre, i as int);
                    lemma_assoc_map_push(pre.remove(i as int), verb, response@);
                    assert(unique_keys(pre.remove(i as int))) by {
                        assert(forall|p: int| 0 <= p < i
                            ==> (#[trigger] pre.remove(i as int)[p]) == pre[p]);
                        assert(forall|p: int| i <= p < pre.len() - 1
                            ==> (#[trigger] pre.remove(i as int)[p]) == pre[p + 1]);
                    }
                }
                self.entries.remove(i);
                let ghost mid = self.entry_seq();
                proof {
                    assert(mid =~= pre.remove(i as int));
                }
                self.entries.push((verb, response));
                proof {
                    assert(self.entry_seq() =~= mid.push((verb, response@)));
                    assert(unique_keys(self.entry_seq())) by {
                        assert(forall|p: int| 0 <= p < mid.len()
                            ==> (#[trigger] self.entry_seq()[p]) == mid[p]);
                        assert(forall|p: int| 0 <= p < mid.len() ==> mid[p].0 != verb) by {
                            assert(forall|p: int| 0 <= p < i
                                ==> (#[trigger] mid[p]) == pre[p]);
                            assert(forall|p: int| i <= p < pre.len() - 1
                                ==> (#[trigger] mid[p]) == pre[p + 1]);
                        }
                    }
                    assert(assoc_map(mid) == assoc_map(pre).remove(verb));
                    assert(self@ == assoc_map(mid).insert(verb, response@));
                    assert(assoc_map(pre).remove(verb).insert(verb, response@)
                        =~= assoc_map(pre).insert(verb, response@));
                    assert(old(self)@ == assoc_map(pre));
                }
                return ;
            }
            i += 1;
        }
        proof {
            lemma_assoc_map_push(pre, verb, response@);
        }
        self.entries.push((verb, response));
        proof {
            assert(self.entry_seq() =~= pre.push((verb, response@)));
            assert(unique_keys(self.entry_seq())) by {
                assert(forall|p: int| 0 <= p < pre.len()
                    ==> (#[trigger] self.entry_seq()[p]) == pre[p]);
            }
        }
    }

    /// Look a verb up; `None` exactly when the verb has no response.
    pub fn get(&self, verb: Interaction) -> (r: Option<&String>)
        requires
            self.wf(),
        ensures
            match r {
                Some(s) => self@.contains_key(verb) && s@ == self@[verb],
                None => !self@.contains_key(verb),
            },
    {
        let n = self.entries.len();
        let mut i: usize = 0;
        while i < n
            invariant
                0 <= i <= n,
                n == self.entries.len(),
                unique_keys(self.entry_seq()),
                forall|j: int| 0 <= j < i ==> (#[trigger] self.entry_seq()[j]).0 != verb,
            decreases n - i,
        {
            if self.entries[i].0 == verb {
                proof {
                    lemma_assoc_map_index(self.entry_seq(), i as int);
                }
                return Some(&self.entries[i].1);
            }
            i += 1;
        }
        proof {
            lemma_assoc_map_contains(self.entry_seq(), verb);
        }
        None
    }
}

impl View for ResponseTable {
    type V = Map<Interaction, Seq<char>>;

    closed spec fn view(&self) -> Map<Interaction, Seq<char>> {
        assoc_map(self.entry_seq())
    }
}

/// An object which can only give information (return text) when
/// interacted with.
#[derive(Debug, Clone)]
pub struct InfoObject {
    tag: String,
    name: String,
    av_interactions: ResponseTable,
}

/// The mathematical reading of an `InfoObject`.
#[verifier::ext_equal]
pub struct InfoView {
    pub tag: Seq<char>,
    pub name: Seq<char>,
    pub av_interactions: Map<Interaction, Seq<char>>,
}

impl View for InfoObject {
    type V = InfoView;

    closed spec fn view(&self) -> InfoView {
        InfoView {
            tag: self.tag@,
            name: self.name@,
            av_interactions: self.av_interactions@,
        }
    }
}

/// An object whose one special verb is use: it sends the player to the
/// portal's configured destination section.
#[derive(Debug, Clone)]
pub struct PortalObject {
    tag: String,
    name: String,
    dsc: String,
    destination: String,
}

/// The mathematical reading of a `PortalObject`.
#[verifier::ext_equal]
pub struct PortalView {
    pub tag: Seq<char>,
    pub name: Seq<char>,
    pub dsc: Seq<char>,
    pub destination: Seq<char>,
}

impl View for PortalObject {
    type V = PortalView;

    closed spec fn view(&self) -> PortalView {
        PortalView {
            tag: self.tag@,
            name: self.name@,
            dsc: self.dsc@,
            destination: self.destination@,
        }
    }
}

/// A generic object: everything common lives here, including the take
/// verb, which moves the object into the inventory when it is takeable.
#[derive(Debug, Clone)]
pub struct RollingObject {
    tag: String,
    name: String,
    takeable: bool,
    av_interactions: ResponseTable,
}

/// The mathematical reading of a `RollingObject`.
#[verifier::ext_equal]
pub struct RollingView {
    pub tag: Seq<char>,
    pub name: Seq<char>,
    pub takeable: bool,
    pub av_interactions: Map<Interaction, Seq<char>>,
}

impl View for RollingObject {
    type V = RollingView;

    closed spec fn view(&self) -> RollingView {
        RollingView {
            tag: self.tag@,
            name: self.name@,
            takeable: self.takeable,
            av_interactions: self.av_interactions@,
        }
    }
}

/// The closed set of entity variants.
#[derive(Debug, Clone)]
pub enum UnendObject {
    Info(InfoObject),
    Portal(PortalObject),
    Rolling(RollingObject),
}

/// The mathematical reading of an entity.
#[verifier::ext_equal]
pub enum ObjectView {
    Info(InfoView),
    Portal(PortalView),
    Rolling(RollingView),
}

impl View for UnendObject {
    type V = ObjectView;

    open spec fn view(&self) -> ObjectView {
        match self {
            UnendObject::Info(o) => ObjectView::Info(o@),
            UnendObject::Portal(o) => ObjectView::Portal(o@),
            UnendObject::Rolling(o) => ObjectView::Rolling(o@),
        }
    }
}

impl ObjectView {
    /// The entity's tag.
    pub open spec fn tag(self) -> Seq<char> {
        match self {
            ObjectView::Info(o) => o.tag,
            ObjectView::Portal(o) => o.tag,
            ObjectView::Rolling(o) => o.tag,
        }
    }

    /// The entity's display name.
    pub open spec fn name(self) -> Seq<char> {
        match self {
            ObjectView::Info(o) => o.name,
            ObjectView::Portal(o) => o.name,
            ObjectView::Rolling(o) => o.name,
        }
    }

    /// Whether a take moves the entity into the inventory.
    pub open spec fn takeable(self) -> bool {
        match self {
            ObjectView::Info(_) => false,
            ObjectView::Portal(_) => false,
            ObjectView::Rolling(o) => o.takeable,
        }
    }

    /// A takeable entity must supply its confirmation text for take;
    /// authored worlds establish this at construction.
    pub open spec fn wf(self) -> bool {
        match self {
            ObjectView::Rolling(o) => o.takeable
                ==> o.av_interactions.contains_key(Interaction::Take),
            _ => true,
        }
    }
}

/// The generic refusal shown for a verb with no authored response.
pub open spec fn wont_work() -> Seq<char> {
    "That won't work"@
}

/// Lookup in a response table, falling back to the generic refusal.
pub open spec fn response_or_refusal(table: Map<Interaction, Seq<char>>, verb: Interaction)
    -> Seq<char> {
    if table.contains_key(verb) {
        table[verb]
    } else {
        wont_work()
    }
}

/// What an interaction yields, by entity variant:
/// `Info` entities answer from their table; portals answer look with their
/// description and use with a transition; rolling entities answer take
/// with an inventory move when takeable, and from their table otherwise.
pub open spec fn resolve_spec(obj: ObjectView, verb: Interaction) -> ResView {
    match obj {
        ObjectView::Info(o) => ResView::Info(response_or_refusal(o.av_interactions, verb)),
        ObjectView::Portal(o) => match verb {
            Interaction::Look => ResView::Info(o.dsc),
            Interaction::Use => ResView::GotoSection(o.destination),
            _ => ResView::Info(wont_work()),
        },
        ObjectView::Rolling(o) => if verb == Interaction::Take && o.takeable {
            ResView::Take(response_or_refusal(o.av_interactions, verb))
        } else {
            ResView::Info(response_or_refusal(o.av_interactions, verb))
        },
    }
}

/// Law: an `Info` entity answers every verb outside its response table
/// with the generic refusal, and never anything but text.
pub proof fn lemma_info_unknown_verb_refusal(o: InfoView, verb: Interaction)
    requires
        !o.av_interactions.contains_key(verb),
    ensures
        resolve_spec(ObjectView::Info(o), verb) == ResView::Info(wont_work()),
{
}

/// Law: a portal's use verb always yields a transition whose target is
/// the portal's configured destination, whatever the rest of the state.
pub proof fn lemma_portal_use_transition(o: PortalView)
    ensures
        resolve_spec(ObjectView::Portal(o), Interaction::Use)
            == ResView::GotoSection(o.destination),
{
}

/// Interagibles are objects and people.
pub trait Interagible {
    /// The entity's mathematical reading.
    spec fn obj(&self) -> ObjectView;

    /// The stored response table has unique verbs.
    spec fn inv(&self) -> bool;

    fn get_tag(&self) -> (t: String)
        ensures
            t@ == self.obj().tag(),
    ;

    fn get_name(&self) -> (n: String)
        ensures
            n@ == self.obj().name(),
    ;

    fn is_takeable(&self) -> (b: bool)
        ensures
            b == self.obj().takeable(),
    ;

    fn interact(&self, iact: Interaction) -> (r: InteractionRes)
        requires
            self.inv(),
            self.obj().wf(),
        ensures
            r@ == resolve_spec(self.obj(), iact),
    ;
}

impl InfoObject {
    pub fn new(i_tag: String, i_name: String, i_av_interactions: ResponseTable) -> (r: Self)
        requires
            i_av_interactions.wf(),
        ensures
            r@ == (InfoView {
                tag: i_tag@,
                name: i_name@,
                av_interactions: i_av_interactions@,
            }),
            r.inv(),
    {
        InfoObject { tag: i_tag, name: i_name, av_interactions: i_av_interactions }
    }
}

impl Interagible for InfoObject {
    open spec fn obj(&self) -> ObjectView {
        ObjectView::Info(self@)
    }

    closed spec fn inv(&self) -> bool {
        self.av_interactions.wf()
    }

    fn get_tag(&self) -> (t: String) {
        self.tag.clone()
    }

    fn get_name(&self) -> (n: String) {
        self.name.clone()
    }

    fn is_takeable(&self) -> (b: bool) {
        false
    }

    fn interact(&self, iact: Interaction) -> (r: InteractionRes) {
        match self.av_interactions.get(iact) {
            Some(s) => InteractionRes::Info(s.clone()),
            None => InteractionRes::Info("That won't work".to_owned()),
        }
    }
}

impl PortalObject {
    pub fn new(i_tag: String, i_name: String, i_dsc: String, i_destination: String) -> (r: Self)
        ensures
            r@ == (PortalView {
                tag: i_tag@,
                name: i_name@,
                dsc: i_dsc@,
                destination: i_destination@,
            }),
            r.inv(),
    {
        PortalObject { tag: i_tag, name: i_name, dsc: i_dsc, destination: i_destination }
    }
}

impl Interagible for PortalObject {
    open spec fn obj(&self) -> ObjectView {
        ObjectView::Portal(self@)
    }

    open spec fn inv(&self) -> bool {
        true
    }

    fn get_tag(&self) -> (t: String) {
        self.tag.clone()
    }

    fn get_name(&self) -> (n: String) {
        self.name.clone()
    }

    fn is_takeable(&self) -> (b: bool) {
        false
    }

    fn interact(&self, iact: Interaction) -> (r: InteractionRes) {
        match iact {
            Interaction::Look => InteractionRes::Info(self.dsc.clone()),
            Interaction::Use => InteractionRes::GotoSection(self.destination.clone()),
            _ => InteractionRes::Info("That won't work".to_owned()),
        }
    }
}

impl RollingObject {
    pub fn new(
        i_tag: String,
        i_name: String,
        i_takeable: bool,
        i_av_interactions: ResponseTable,
    ) -> (r: Self)
        requires
            i_av_interactions.wf(),
        ensures
            r@ == (RollingView {
                tag: i_tag@,
                name: i_name@,
                takeable: i_takeable,
                av_interactions: i_av_interactions@,
            }),
            r.inv(),
    {
        RollingObject {
            tag: i_tag,
            name: i_name,
            takeable: i_takeable,
            av_interactions: i_av_interactions,
        }
    }
}

impl Interagible for RollingObject {
    open spec fn obj(&self) -> ObjectView {
        ObjectView::Rolling(self@)
    }

    closed spec fn inv(&self) -> bool {
        self.av_interactions.wf()
    }

    fn get_tag(&self) -> (t: String) {
        self.tag.clone()
    }

    fn get_name(&self) -> (n: String) {
        self.name.clone()
    }

    fn is_takeable(&self) -> (b: bool) {
        self.takeable
    }

    fn interact(&self, iact: Interaction) -> (r: InteractionRes) {
        if iact == Interaction::Take && self.is_takeable() {
            match self.av_interactions.get(iact) {
                Some(s) => InteractionRes::Take(s.clone()),
                None => vstd::pervasive::unreached(),
            }
        } else {
            match self.av_interactions.get(iact) {
                Some(s) => InteractionRes::Info(s.clone()),
                None => InteractionRes::Info("That won't work".to_owned()),
            }
        }
    }
}

impl UnendObject {
    /// The stored response table, if any, has unique verbs.
    pub open spec fn inv(&self) -> bool {
        match self {
            UnendObject::Info(o) => o.inv(),
            UnendObject::Portal(o) => o.inv(),
            UnendObject::Rolling(o) => o.inv(),
        }
    }

    /// The entity's display name.
    pub fn get_name(&self) -> (n: String)
        ensures
            n@ == self@.name(),
    {
        match self {
            UnendObject::Info(o) => o.get_name(),
            UnendObject::Portal(o) => o.get_name(),
            UnendObject::Rolling(o) => o.get_name(),
        }
    }
}

/// A tag-to-entity collection: the entities of one section, or the
/// player's inventory. Stored as an association list with unique tags and
/// read as a finite map from tag to entity.
#[derive(Debug)]
pub struct ObjectMap {
    entries: Vec<(String, UnendObject)>,
}

impl ObjectMap {
    /// The entries with tags and entities read mathematically.
    pub closed spec fn entry_seq(&self) -> Seq<(Seq<char>, ObjectView)> {
        self.entries@.map_values(|p: (String, UnendObject)| (p.0@, p.1@))
    }

    /// Every stored entity's own table has unique verbs.
    pub closed spec fn objects_inv(&self) -> bool {
        forall|i: int| 0 <= i < self.entries@.len() ==> (#[trigger] self.entries@[i]).1.inv()
    }

    /// Tags are unique, stored entities are internally consistent, and
    /// every takeable entity supplies its take response.
    pub open spec fn wf(&self) -> bool {
        &&& unique_keys(self.entry_seq())
        &&& self.objects_inv()
        &&& forall|k: Seq<char>| self@.contains_key(k) ==> (#[trigger] self@[k]).wf()
    }

    pub fn new() -> (r: Self)
        ensures
            r.wf(),
            r@ == Map::<Seq<char>, ObjectView>::empty(),
    {
        let r = ObjectMap { entries: Vec::new() };
        proof {
            assert(r.entry_seq() =~= Seq::<(Seq<char>, ObjectView)>::empty());
            assert(r@.dom() =~= Set::<Seq<char>>::empty());
        }
        r
    }

    /// Add or replace the entity stored under a tag.
    pub fn insert(&mut self, tag: String, obj: UnendObject)
        requires
            old(self).wf(),
            obj.inv(),
            obj@.wf(),
        ensures
            final(self).wf(),
            final(self)@ == old(self)@.insert(tag@, obj@),
    {
        let ghost pre = self.entry_seq();
        let mut i: usize = 0;
        let n = self.entries.len();
        while i < n
            invariant
                0 <= i <= n,
                n == self.entries.len(),
                self.entry_seq() == pre,
                unique_keys(pre),
                self.wf(),
                self == old(self),
                forall|j: int| 0 <= j < i ==> (#[trigger] pre[j]).0 != tag@,
                obj.inv(),
                obj@.wf(),
            decreases n - i,
        {
            if self.entries[i].0 == tag {
                proof {
                    assert(pre[i as int].0 == tag@);
                    lemma_assoc_map_remove(pre, i as int);
                    lemma_assoc_map_push(pre.remove(i as int), tag@, obj@);
                    assert(unique_keys(pre.remove(i as int))) by {
                        assert(forall|p: int| 0 <= p < i
                            ==> (#[trigger] pre.remove(i as int)[p]) == pre[p]);
                        assert(forall|p: int| i <= p < pre.len() - 1
                            ==> (#[trigger] pre.remove(i as int)[p]) == pre[p + 1]);
                    }
                }
                let ghost pre_entries = self.entries@;
                self.entries.remove(i);
                let ghost mid = self.entry_seq();
                proof {
                    assert(mid =~= pre.remove(i as int));
                }
                self.entries.push((tag, obj));
                proof {
                    assert(self.entry_seq() =~= mid.push((tag@, obj@)));
                    assert(unique_keys(self.entry_seq())) by {
                        assert(forall|p: int| 0 <= p < mid.len()
                            ==> (#[trigger] self.entry_seq()[p]) == mid[p]);
                        assert(forall|p: int| 0 <= p < mid.len() ==> mid[p].0 != tag@) by {
                            assert(forall|p: int| 0 <= p < i
                                ==> (#[trigger] mid[p]) == pre[p]);
                            assert(forall|p: int| i <= p < pre.len() - 1
                                ==> (#[trigger] mid[p]) == pre[p + 1]);
                        }
                    }
                    assert(assoc_map(mid) == assoc_map(pre).remove(tag@));
                    assert(self@ == assoc_map(mid).insert(tag@, obj@));
                    assert(assoc_map(pre).remove(tag@).insert(tag@, obj@)
                        =~= assoc_map(pre).insert(tag@, obj@));
                    assert(old(self)@ == assoc_map(pre));
                    assert(self.objects_inv()) by {
                        assert(forall|p: int| 0 <= p < i
                            ==> (#[trigger] self.entries@[p]) == pre_entries[p]);
                        assert(forall|p: int| i <= p < pre_entries.len() - 1
                            ==> (#[trigger] self.entries@[p]) == pre_entries[p + 1]);
                        assert(self.entries@.last() == (tag, obj));
                    }
                    assert forall|k: Seq<char>| self@.contains_key(k)
                        implies (#[trigger] self@[k]).wf() by {
                        if k != tag@ {
                            assert(old(self)@.contains_key(k));
                        }
                    }
                }
                return ;
            }
            i += 1;
        }
        proof {
            lemma_assoc_map_push(pre, tag@, obj@);
        }
        let ghost pre_entries = self.entries@;
        self.entries.push((tag, obj));
        proof {
            assert(self.entry_seq() =~= pre.push((tag@, obj@)));
            assert(unique_keys(self.entry_seq())) by {
                assert(forall|p: int| 0 <= p < pre.len()
                    ==> (#[trigger] self.entry_seq()[p]) == pre[p]);
            }
            assert(self.objects_inv()) by {
                assert(forall|p: int| 0 <= p < pre_entries.len()
                    ==> (#[trigger] self.entries@[p]) == pre_entries[p]);
                assert(self.entries@.last() == (tag, obj));
            }
            assert forall|k: Seq<char>| self@.contains_key(k)
                implies (#[trigger] self@[k]).wf() by {
                if k != tag@ {
                    assert(old(self)@.contains_key(k));
                }
            }
        }
    }

    /// Look a tag up; `None` exactly when no entity carries the tag.
    pub fn get(&self, tag: &String) -> (r: Option<&UnendObject>)
        requires
            self.wf(),
        ensures
            match r {
                Some(o) => self@.contains_key(tag@) && o@ == self@[tag@] && o.inv(),
                None => !self@.contains_key(tag@),
            },
    {
        let n = self.entries.len();
        let mut i: usize = 0;
        while i < n
            invariant
                0 <= i <= n,
                n == self.entries.len(),
                self.wf(),
                forall|j: int| 0 <= j < i ==> (#[trigger] self.entry_seq()[j]).0 != tag@,
            decreases n - i,
        {
            if self.entries[i].0 == *tag {
                proof {
                    lemma_assoc_map_index(self.entry_seq(), i as int);
                }
                return Some(&self.entries[i].1);
            }
            i += 1;
        }
        proof {
            lemma_assoc_map_contains(self.entry_seq(), tag@);
        }
        None
    }

    /// Take the entity stored under a tag out of the collection;
    /// `None`, with nothing changed, exactly when the tag is absent.
    pub fn remove(&mut self, tag: &String) -> (r: Option<UnendObject>)
        requires
            old(self).wf(),
        ensures
            final(self).wf(),
            match r {
                Some(o) => {
                    &&& old(self)@.contains_key(tag@)
                    &&& o@ == old(self)@[tag@]
                    &&& o.inv()
                    &&& o@.wf()
                    &&& final(self)@ == old(self)@.remove(tag@)
                },
                None => !old(self)@.contains_key(tag@) && final(self)@ == old(self)@,
            },
    {
        let ghost pre = self.entry_seq();
        let mut i: usize = 0;
        let n = self.entries.len();
        while i < n
            invariant
                0 <= i <= n,
                n == self.entries.len(),
                self.entry_seq() == pre,
                self.wf(),
                self == old(self),
                forall|j: int| 0 <= j < i ==> (#[trigger] pre[j]).0 != tag@,
            decreases n - i,
        {
            if self.entries[i].0 == *tag {
                proof {
                    assert(pre[i as int].0 == tag@);
                    lemma_assoc_map_index(pre, i as int);
                    lemma_assoc_map_remove(pre, i as int);
                    assert(unique_keys(pre.remove(i as int))) by {
                        assert(forall|p: int| 0 <= p < i
                            ==> (#[trigger] pre.remove(i as int)[p]) == pre[p]);
                        assert(forall|p: int| i <= p < pre.len() - 1
                            ==> (#[trigger] pre.remove(i as int)[p]) == pre[p + 1]);
                    }
                }
                let ghost pre_entries = self.entries@;
                let p = self.entries.remove(i);
                proof {
                    assert(self.entry_seq() =~= pre.remove(i as int));
                    assert(self.objects_inv()) by {
                        assert(forall|q: int| 0 <= q < i
                            ==> (#[trigger] self.entries@[q]) == pre_entries[q]);
                        assert(forall|q: int| i <= q < pre_entries.len() - 1
                            ==> (#[trigger] self.entries@[q]) == pre_entries[q + 1]);
                    }
                    assert(p.1@ == old(self)@[tag@]);
                    assert(p.1.inv()) by {
                        assert(pre_entries[i as int] == p);
                    }
                }
                return Some(p.1);
            }
            i += 1;
        }
        proof {
            lemma_assoc_map_contains(self.entry_seq(), tag@);
        }
        None
    }

    /// How many entities the collection holds.
    pub fn len(&self) -> (n: usize)
        requires
            self.wf(),
        ensures
            n == self@.dom().len(),
    {
        proof {
            lemma_assoc_map_dom_len(self.entry_seq());
        }
        self.entries.len()
    }

    /// The tag and display name of every entity, each tag once.
    pub fn tags_and_names(&self) -> (v: Vec<(String, String)>)
        requires
            self.wf(),
        ensures
            v@.len() == self@.dom().len(),
            forall|i: int| 0 <= i < v@.len() ==> {
                &&& self@.contains_key((#[trigger] v@[i]).0@)
                &&& v@[i].1@ == self@[v@[i].0@].name()
            },
            forall|i: int, j: int| 0 <= i < j < v@.len()
                ==> (#[trigger] v@[i]).0@ != (#[trigger] v@[j]).0@,
    {
        proof {
            lemma_assoc_map_dom_len(self.entry_seq());
        }
        let mut v: Vec<(String, String)> = Vec::new();
        let n = self.entries.len();
        let mut i: usize = 0;
        while i < n
            invariant
                0 <= i <= n,
                n == self.entries.len(),
                self.wf(),
                v@.len() == i,
                forall|j: int| 0 <= j < i ==> {
                    &&& (#[trigger] v@[j]).0@ == self.entry_seq()[j].0
                    &&& v@[j].1@ == self.entry_seq()[j].1.name()
                },
            decreases n - i,
        {
            let tag = self.entries[i].0.clone();
            let name = self.entries[i].1.get_name();
            v.push((tag, name));
            i += 1;
        }
        proof {
            assert forall|i: int| 0 <= i < v@.len() implies {
                &&& self@.contains_key((#[trigger] v@[i]).0@)
                &&& v@[i].1@ == self@[v@[i].0@].name()
            } by {
                lemma_assoc_map_index(self.entry_seq(), i);
            }
        }
        v
    }
}

impl View for ObjectMap {
    type V = Map<Seq<char>, ObjectView>;

    closed spec fn view(&self) -> Map<Seq<char>, ObjectView> {
        assoc_map(self.entry_seq())
    }
}

/// Resolve one interaction against one entity: the closed polymorphic
/// dispatch over the three variants.
pub fn resolve(obj: &UnendObject, iact: Interaction) -> (r: InteractionRes)
    requires
        obj.inv(),
        obj@.wf(),
    ensures
        r@ == resolve_spec(obj@, iact),
{
    match obj {
        UnendObject::Info(o) => o.interact(iact),
        UnendObject::Portal(o) => o.interact(iact),
        UnendObject::Rolling(o) => o.interact(iact),
    }
}

} // verus!

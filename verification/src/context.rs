//! The application as the pane sees it: items, their facts, and the settings.

use std::collections::HashMap;
use vstd::prelude::*;

verus! {

/// Identifies the view of an item.
pub type ItemId = usize;

/// Identifies any view of the window.
pub type ViewId = usize;

/// Identifies the view of a pane.
pub type PaneId = usize;

/// Identifies an entry of a project, such as a file.
#[derive(Clone, Copy, PartialEq, Eq, Structural, Debug)]
pub struct ProjectEntryId(pub usize);

/// The place of a file in a project.
#[derive(PartialEq, Eq, Debug)]
pub struct ProjectPath {
    pub worktree_id: usize,
    pub path: String,
}

impl Clone for ProjectPath {
    fn clone(&self) -> (copy: Self)
        ensures
            copy == *self,
    {
        ProjectPath { worktree_id: self.worktree_id, path: self.path.clone() }
    }
}

/// When edited items are saved without being asked about.
#[derive(Clone, Copy, PartialEq, Eq, Structural, Debug)]
pub enum Autosave {
    Off,
    AfterDelay { milliseconds: u64 },
    OnFocusChange,
    OnWindowChange,
}

/// What the pane reads of an item.
pub struct ItemFacts {
    /// Tells the types of item views apart.
    pub view_type: u64,
    /// Whether the item shows one project entry alone.
    pub is_singleton: bool,
    pub project_entry_ids: Vec<ProjectEntryId>,
    /// The models (such as buffers) that the item shows.
    pub project_item_model_ids: Vec<usize>,
    pub is_dirty: bool,
    pub has_conflict: bool,
    pub can_save: bool,
    pub project_path: Option<ProjectPath>,
    /// What the tab says at each level of detail. Past the end the last entry is repeated.
    pub tab_descriptions: Vec<Option<String>>,
}

/// The application as the pane sees it: the facts of every item, and the settings.
pub struct AppContext {
    items: HashMap<ItemId, ItemFacts>,
    autosave: Autosave,
}

/// The mathematical value of an [`AppContext`].
pub struct AppModel {
    pub items: Map<ItemId, ItemFacts>,
    pub autosave: Autosave,
}

/// An item that the context does not know shows nothing: it is no singleton, has no project
/// entries, models, path or description, and is neither dirty, in conflict nor savable.
impl AppModel {
    pub open spec fn is_view_type(self, id: ItemId, view_type: u64) -> bool {
        self.items.contains_key(id) && self.items[id].view_type == view_type
    }

    pub open spec fn is_singleton(self, id: ItemId) -> bool {
        self.items.contains_key(id) && self.items[id].is_singleton
    }

    pub open spec fn entries(self, id: ItemId) -> Seq<ProjectEntryId> {
        if self.items.contains_key(id) {
            self.items[id].project_entry_ids@
        } else {
            Seq::empty()
        }
    }

    pub open spec fn models(self, id: ItemId) -> Seq<usize> {
        if self.items.contains_key(id) {
            self.items[id].project_item_model_ids@
        } else {
            Seq::empty()
        }
    }

    pub open spec fn is_dirty(self, id: ItemId) -> bool {
        self.items.contains_key(id) && self.items[id].is_dirty
    }

    pub open spec fn has_conflict(self, id: ItemId) -> bool {
        self.items.contains_key(id) && self.items[id].has_conflict
    }

    pub open spec fn can_save(self, id: ItemId) -> bool {
        self.items.contains_key(id) && self.items[id].can_save
    }

    pub open spec fn project_path(self, id: ItemId) -> Option<ProjectPath> {
        if self.items.contains_key(id) {
            self.items[id].project_path
        } else {
            None
        }
    }

    /// The number of levels of detail at which the item's description is listed.
    pub open spec fn description_levels(self, id: ItemId) -> nat {
        if self.items.contains_key(id) {
            self.items[id].tab_descriptions@.len()
        } else {
            0
        }
    }

    pub open spec fn tab_description(self, id: ItemId, detail: int) -> Option<Seq<char>> {
        let levels = self.description_levels(id);
        if levels == 0 {
            None
        } else {
            let level = if detail < levels { detail } else { levels - 1 };
            match self.items[id].tab_descriptions@[level] {
                Some(text) => Some(text@),
                None => None,
            }
        }
    }

    /// The singleton's project entry, by which a second view of it is recognised.
    pub open spec fn singleton_entry(self, id: ItemId) -> Option<ProjectEntryId> {
        if self.is_singleton(id) && self.entries(id).len() > 0 {
            Some(self.entries(id)[0])
        } else {
            None
        }
    }

    /// Whether the item is the view of exactly this project entry.
    pub open spec fn is_view_of(self, id: ItemId, entry_id: ProjectEntryId) -> bool {
        self.is_singleton(id) && self.entries(id) == seq![entry_id]
    }

    /// Whether an item in a pane counts as the one being added: it is the same view, or a
    /// singleton of the same project entry.
    pub open spec fn is_same_item(self, existing: ItemId, added: ItemId) -> bool {
        ||| existing == added
        ||| self.singleton_entry(existing) is Some && self.singleton_entry(existing)
            == self.singleton_entry(added)
    }

    /// Whether the item would be saved without asking: it has edits, no conflict, can be
    /// saved, and its file has not been deleted.
    pub open spec fn can_autosave(self, id: ItemId) -> bool {
        self.is_dirty(id) && !self.has_conflict(id) && self.can_save(id) && self.entries(id).len()
            > 0
    }
}

impl View for AppContext {
    type V = AppModel;

    closed spec fn view(&self) -> AppModel {
        AppModel { items: self.items@, autosave: self.autosave }
    }
}

impl AppContext {
    pub fn new(autosave: Autosave) -> (app: Self)
        ensures
            app@ == (AppModel { items: Map::empty(), autosave }),
    {
        AppContext { items: HashMap::new(), autosave }
    }

    pub fn autosave(&self) -> (autosave: Autosave)
        ensures
            autosave == self@.autosave,
    {
        self.autosave
    }

    pub fn set_autosave(&mut self, autosave: Autosave)
        ensures
            final(self)@ == (AppModel { autosave, ..old(self)@ }),
    {
        self.autosave = autosave;
    }

    /// Records what is true of an item now.
    pub fn set_item(&mut self, id: ItemId, facts: ItemFacts)
        ensures
            final(self)@ == (AppModel { items: old(self)@.items.insert(id, facts), ..old(self)@ }),
    {
        self.items.insert(id, facts);
    }

    /// Forgets an item.
    pub fn remove_item(&mut self, id: ItemId)
        ensures
            final(self)@ == (AppModel { items: old(self)@.items.remove(id), ..old(self)@ }),
    {
        self.items.remove(&id);
    }

    pub fn facts(&self, id: ItemId) -> (facts: Option<&ItemFacts>)
        ensures
            facts matches Some(f) ==> self@.items.contains_key(id) && *f == self@.items[id],
            facts is None ==> !self@.items.contains_key(id),
    {
        self.items.get(&id)
    }

    pub fn is_view_type(&self, id: ItemId, view_type: u64) -> (result: bool)
        ensures
            result == self@.is_view_type(id, view_type),
    {
        match self.facts(id) {
            Some(facts) => facts.view_type == view_type,
            None => false,
        }
    }

    pub fn is_singleton(&self, id: ItemId) -> (result: bool)
        ensures
            result == self@.is_singleton(id),
    {
        match self.facts(id) {
            Some(facts) => facts.is_singleton,
            None => false,
        }
    }

    pub fn has_entries(&self, id: ItemId) -> (result: bool)
        ensures
            result == (self@.entries(id).len() > 0),
    {
        match self.facts(id) {
            Some(facts) => facts.project_entry_ids.len() > 0,
            None => false,
        }
    }

    pub fn is_dirty(&self, id: ItemId) -> (result: bool)
        ensures
            result == self@.is_dirty(id),
    {
        match self.facts(id) {
            Some(facts) => facts.is_dirty,
            None => false,
        }
    }

    pub fn has_conflict(&self, id: ItemId) -> (result: bool)
        ensures
            result == self@.has_conflict(id),
    {
        match self.facts(id) {
            Some(facts) => facts.has_conflict,
            None => false,
        }
    }

    pub fn can_save(&self, id: ItemId) -> (result: bool)
        ensures
            result == self@.can_save(id),
    {
        match self.facts(id) {
            Some(facts) => facts.can_save,
            None => false,
        }
    }

    pub fn project_path(&self, id: ItemId) -> (path: Option<ProjectPath>)
        ensures
            path == self@.project_path(id),
    {
        match self.facts(id) {
            Some(facts) => match &facts.project_path {
                Some(path) => Some(path.clone()),
                None => None,
            },
            None => None,
        }
    }

    pub fn description_levels(&self, id: ItemId) -> (levels: usize)
        ensures
            levels == self@.description_levels(id),
    {
        match self.facts(id) {
            Some(facts) => facts.tab_descriptions.len(),
            None => 0,
        }
    }

    pub fn tab_description(&self, id: ItemId, detail: usize) -> (description: Option<&String>)
        ensures
            match description {
                Some(text) => self@.tab_description(id, detail as int) == Some(text@),
                None => self@.tab_description(id, detail as int) is None,
            },
    {
        match self.facts(id) {
            Some(facts) => {
                let levels: usize = facts.tab_descriptions.len();
                if levels == 0 {
                    None
                } else {
                    let level: usize = if detail < levels {
                        detail
                    } else {
                        levels - 1
                    };
                    facts.tab_descriptions[level].as_ref()
                }
            },
            None => None,
        }
    }

    /// The levels of detail are a list in memory.
    pub proof fn lemma_levels_fit(&self, id: ItemId)
        ensures
            self@.description_levels(id) <= usize::MAX,
    {
        if self@.items.contains_key(id) {
            assert(self@.items[id].tab_descriptions.len() <= usize::MAX);
        }
    }

    pub fn singleton_entry(&self, id: ItemId) -> (entry: Option<ProjectEntryId>)
        ensures
            entry == self@.singleton_entry(id),
    {
        match self.facts(id) {
            Some(facts) => if facts.is_singleton && facts.project_entry_ids.len() > 0 {
                Some(facts.project_entry_ids[0])
            } else {
                None
            },
            None => None,
        }
    }

    pub fn is_view_of(&self, id: ItemId, entry_id: ProjectEntryId) -> (result: bool)
        ensures
            result == self@.is_view_of(id, entry_id),
    {
        match self.facts(id) {
            Some(facts) => {
                assert(facts.project_entry_ids@.len() == 1 && facts.project_entry_ids@[0]
                    == entry_id ==> facts.project_entry_ids@ =~= seq![entry_id]);
                facts.is_singleton && facts.project_entry_ids.len() == 1
                    && facts.project_entry_ids[0] == entry_id
            },
            None => false,
        }
    }

    pub fn is_same_item(&self, existing: ItemId, added: ItemId) -> (result: bool)
        ensures
            result == self@.is_same_item(existing, added),
    {
        if existing == added {
            return true;
        }
        match (self.singleton_entry(existing), self.singleton_entry(added)) {
            (Some(first), Some(second)) => first == second,
            _ => false,
        }
    }
}

} // verus!

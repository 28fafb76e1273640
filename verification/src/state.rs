//! What is kept of a pane between runs of the application.

use vstd::prelude::*;

verus! {

/// What is kept of an item: where its record is, and whether the item was active.
#[derive(Debug, PartialEq, Eq)]
pub struct ItemState {
    pub record_namespace: String,
    pub record_id: u64,
    pub active: bool,
}

/// What is kept of a pane.
#[derive(Debug, PartialEq, Eq)]
pub struct PaneState {
    pub active: bool,
    pub items: Vec<ItemState>,
}

impl Clone for ItemState {
    fn clone(&self) -> (copy: Self)
        ensures
            copy == *self,
    {
        ItemState {
            record_namespace: self.record_namespace.clone(),
            record_id: self.record_id,
            active: self.active,
        }
    }
}

impl Clone for PaneState {
    fn clone(&self) -> (copy: Self)
        ensures
            copy@ == self@,
    {
        let copy = PaneState { active: self.active, items: self.items.clone() };
        assert(copy.items@ =~= self.items@);
        copy
    }
}

/// The key of a record: its namespace, and its number in the namespace.
pub type RecordKey = (Seq<char>, u64);

/// The mathematical value of an [`ItemState`].
pub struct ItemStateModel {
    pub record_namespace: Seq<char>,
    pub record_id: u64,
    pub active: bool,
}

/// The mathematical value of a [`PaneState`].
#[verifier::ext_equal]
pub struct PaneStateModel {
    pub active: bool,
    pub items: Seq<ItemStateModel>,
}

impl ItemStateModel {
    pub open spec fn key(self) -> RecordKey {
        (self.record_namespace, self.record_id)
    }
}

impl View for ItemState {
    type V = ItemStateModel;

    open spec fn view(&self) -> ItemStateModel {
        ItemStateModel {
            record_namespace: self.record_namespace@,
            record_id: self.record_id,
            active: self.active,
        }
    }
}

impl View for PaneState {
    type V = PaneStateModel;

    open spec fn view(&self) -> PaneStateModel {
        PaneStateModel {
            active: self.active,
            items: Seq::new(self.items@.len(), |i: int| self.items@[i]@),
        }
    }
}

impl ItemState {
    pub fn new(kind: &str, item_id: u64, active: bool) -> (state: Self)
        ensures
            state@ == (ItemStateModel { record_namespace: kind@, record_id: item_id, active }),
    {
        ItemState { record_namespace: kind.to_owned(), record_id: item_id, active }
    }
}

impl Default for ItemState {
    fn default() -> (state: Self)
        ensures
            state@ == (ItemStateModel {
                record_namespace: "Terminal"@,
                record_id: 100000,
                active: false,
            }),
    {
        ItemState::new("Terminal", 100000, false)
    }
}

impl Default for PaneState {
    fn default() -> (state: Self)
        ensures
            state@ == (PaneStateModel { active: false, items: Seq::empty() }),
    {
        let state = PaneState { active: false, items: Vec::new() };
        assert(state@.items =~= Seq::empty());
        state
    }
}

struct StoredState<T> {
    record_namespace: String,
    record_id: u64,
    state: T,
}

/// The states that were read for items that are to be restored, by the key of their record.
pub struct ItemStates<T> {
    stored: Vec<StoredState<T>>,
}

spec fn key_of<T>(stored: StoredState<T>) -> RecordKey {
    (stored.record_namespace@, stored.record_id)
}

spec fn has_key<T>(stored: Seq<StoredState<T>>, key: RecordKey, i: int) -> bool {
    0 <= i < stored.len() && key_of(stored[i]) == key
}

spec fn keys_distinct<T>(stored: Seq<StoredState<T>>) -> bool {
    forall|i: int, j: int|
        0 <= i < j < stored.len() ==> key_of(#[trigger] stored[i]) != key_of(#[trigger] stored[j])
}

spec fn as_map<T>(stored: Seq<StoredState<T>>) -> Map<RecordKey, T> {
    Map::new(
        |key: RecordKey| exists|i: int| has_key(stored, key, i),
        |key: RecordKey| stored[choose|i: int| has_key(stored, key, i)].state,
    )
}

proof fn lemma_as_map_index<T>(stored: Seq<StoredState<T>>, i: int)
    requires
        keys_distinct(stored),
        0 <= i < stored.len(),
    ensures
        as_map(stored).contains_key(key_of(stored[i])),
        as_map(stored)[key_of(stored[i])] == stored[i].state,
{
    let key = key_of(stored[i]);
    assert(has_key(stored, key, i));
    let j = choose|j: int| has_key(stored, key, j);
    assert(has_key(stored, key, j));
    if j < i {
        assert(key_of(stored[j]) != key_of(stored[i]));
    } else if i < j {
        assert(key_of(stored[i]) != key_of(stored[j]));
    }
}

proof fn lemma_as_map_push<T>(stored: Seq<StoredState<T>>, added: StoredState<T>)
    requires
        keys_distinct(stored),
        !as_map(stored).contains_key(key_of(added)),
    ensures
        keys_distinct(stored.push(added)),
        as_map(stored.push(added)) == as_map(stored).insert(key_of(added), added.state),
{
    let longer = stored.push(added);
    assert forall|i: int, j: int| 0 <= i < j < longer.len() implies key_of(#[trigger] longer[i])
        != key_of(#[trigger] longer[j]) by {
        if j == stored.len() {
            lemma_as_map_index(stored, i);
        }
    }
    assert forall|key: RecordKey| as_map(longer).contains_key(key) == as_map(stored).insert(
        key_of(added),
        added.state,
    ).contains_key(key) by {
        if as_map(stored).contains_key(key) {
            let i = choose|i: int| has_key(stored, key, i);
            assert(has_key(longer, key, i));
        }
        if key == key_of(added) {
            assert(has_key(longer, key, stored.len() as int));
        }
        if as_map(longer).contains_key(key) && key != key_of(added) {
            let i = choose|i: int| has_key(longer, key, i);
            assert(has_key(stored, key, i));
        }
    }
    assert forall|key: RecordKey| as_map(longer).contains_key(key) implies as_map(longer)[key]
        == as_map(stored).insert(key_of(added), added.state)[key] by {
        let i = choose|i: int| has_key(longer, key, i);
        assert(has_key(longer, key, i));
        lemma_as_map_index(longer, i);
        if i < stored.len() {
            lemma_as_map_index(stored, i);
        }
    }
    assert(as_map(longer) =~= as_map(stored).insert(key_of(added), added.state));
}

proof fn lemma_as_map_remove<T>(stored: Seq<StoredState<T>>, at: int)
    requires
        keys_distinct(stored),
        0 <= at < stored.len(),
    ensures
        keys_distinct(stored.remove(at)),
        as_map(stored.remove(at)) == as_map(stored).remove(key_of(stored[at])),
{
    let fewer = stored.remove(at);
    let gone = key_of(stored[at]);
    assert forall|i: int, j: int| 0 <= i < j < fewer.len() implies key_of(#[trigger] fewer[i])
        != key_of(#[trigger] fewer[j]) by {
        let i0 = if i < at {
            i
        } else {
            i + 1
        };
        let j0 = if j < at {
            j
        } else {
            j + 1
        };
        assert(fewer[i] == stored[i0] && fewer[j] == stored[j0]);
    }
    assert forall|key: RecordKey| as_map(fewer).contains_key(key) == as_map(stored).remove(
        gone,
    ).contains_key(key) by {
        if as_map(fewer).contains_key(key) {
            let i = choose|i: int| has_key(fewer, key, i);
            let i0 = if i < at {
                i
            } else {
                i + 1
            };
            assert(fewer[i] == stored[i0]);
            assert(has_key(stored, key, i0));
            if i0 < at {
                assert(key_of(stored[i0]) != key_of(stored[at]));
            } else {
                assert(key_of(stored[at]) != key_of(stored[i0]));
            }
        }
        if as_map(stored).contains_key(key) && key != gone {
            let i = choose|i: int| has_key(stored, key, i);
            if i < at {
                assert(fewer[i] == stored[i]);
                assert(has_key(fewer, key, i));
            } else {
                assert(fewer[i - 1] == stored[i]);
                assert(has_key(fewer, key, i - 1));
            }
        }
    }
    assert forall|key: RecordKey| as_map(fewer).contains_key(key) implies as_map(fewer)[key]
        == as_map(stored).remove(gone)[key] by {
        let i = choose|i: int| has_key(fewer, key, i);
        let i0 = if i < at {
            i
        } else {
            i + 1
        };
        assert(fewer[i] == stored[i0]);
        lemma_as_map_index(fewer, i);
        lemma_as_map_index(stored, i0);
        assert(as_map(stored).remove(gone).contains_key(key));
    }
    assert(as_map(fewer) =~= as_map(stored).remove(gone));
}

impl<T> View for ItemStates<T> {
    type V = Map<RecordKey, T>;

    closed spec fn view(&self) -> Map<RecordKey, T> {
        as_map(self.stored@)
    }
}

impl<T> ItemStates<T> {
    /// No key is stored twice.
    pub closed spec fn wf(&self) -> bool {
        keys_distinct(self.stored@)
    }

    pub fn new() -> (states: Self)
        ensures
            states@ == Map::<RecordKey, T>::empty(),
            states.wf(),
    {
        let states = ItemStates { stored: Vec::new() };
        assert forall|key: RecordKey| !states@.contains_key(key) by {
            if states@.contains_key(key) {
                let i = choose|i: int| has_key(states.stored@, key, i);
                assert(has_key(states.stored@, key, i));
            }
        }
        assert(states@ =~= Map::empty());
        states
    }

    fn position(&self, record_namespace: &String, record_id: u64) -> (index: Option<usize>)
        requires
            self.wf(),
        ensures
            match index {
                Some(i) => i < self.stored.len() && key_of(self.stored@[i as int]) == (
                    record_namespace@,
                    record_id,
                ),
                None => !self@.contains_key((record_namespace@, record_id)),
            },
    {
        let mut i: usize = 0;
        while i < self.stored.len()
            invariant
                i <= self.stored.len(),
                forall|j: int|
                    0 <= j < i ==> key_of(#[trigger] self.stored@[j]) != (
                        record_namespace@,
                        record_id,
                    ),
            decreases self.stored.len() - i,
        {
            if self.stored[i].record_id == record_id && self.stored[i].record_namespace
                == *record_namespace {
                return Some(i);
            }
            i += 1;
        }
        None
    }

    /// Stores a state in place of an earlier one with this key.
    pub fn insert(&mut self, record_namespace: &String, record_id: u64, state: T)
        requires
            old(self).wf(),
        ensures
            final(self)@ == old(self)@.insert((record_namespace@, record_id), state),
            final(self).wf(),
    {
        let ghost before = self@;
        if let Some(i) = self.position(record_namespace, record_id) {
            proof {
                lemma_as_map_remove(self.stored@, i as int);
            }
            self.stored.remove(i);
        }
        let added = StoredState {
            record_namespace: record_namespace.clone(),
            record_id,
            state,
        };
        proof {
            lemma_as_map_push(self.stored@, added);
        }
        self.stored.push(added);
        assert(self@ =~= before.insert((record_namespace@, record_id), state));
    }

    /// Takes the state with this key out.
    pub fn remove(&mut self, record_namespace: &String, record_id: u64) -> (state: Option<T>)
        requires
            old(self).wf(),
        ensures
            final(self)@ == old(self)@.remove((record_namespace@, record_id)),
            state == (if old(self)@.contains_key((record_namespace@, record_id)) {
                Some(old(self)@[(record_namespace@, record_id)])
            } else {
                None
            }),
            final(self).wf(),
    {
        match self.position(record_namespace, record_id) {
            Some(i) => {
                proof {
                    lemma_as_map_remove(self.stored@, i as int);
                    lemma_as_map_index(self.stored@, i as int);
                }
                Some(self.stored.remove(i).state)
            },
            None => {
                assert(self@.remove((record_namespace@, record_id)) =~= self@);
                None
            },
        }
    }
}

/// The stored states once those that could be read are stored, in order.
pub open spec fn states_loaded<T>(
    states: Map<RecordKey, T>,
    items: Seq<ItemStateModel>,
    loaded: Seq<Option<T>>,
) -> Map<RecordKey, T>
    decreases items.len(),
{
    if items.len() == 0 || loaded.len() != items.len() {
        states
    } else {
        let earlier = states_loaded(states, items.drop_last(), loaded.drop_last());
        match loaded.last() {
            Some(state) => earlier.insert(items.last().key(), state),
            None => earlier,
        }
    }
}

/// The stored states once those of the items are taken out, in order.
pub open spec fn states_left<T>(
    states: Map<RecordKey, T>,
    items: Seq<ItemStateModel>,
) -> Map<RecordKey, T>
    decreases items.len(),
{
    if items.len() == 0 {
        states
    } else {
        states_left(states, items.drop_last()).remove(items.last().key())
    }
}

/// What taking the items' states out hands out for each of them.
pub open spec fn states_taken<T>(
    states: Map<RecordKey, T>,
    items: Seq<ItemStateModel>,
) -> Seq<Option<T>>
    decreases items.len(),
{
    if items.len() == 0 {
        Seq::empty()
    } else {
        let left = states_left(states, items.drop_last());
        states_taken(states, items.drop_last()).push(
            if left.contains_key(items.last().key()) {
                Some(left[items.last().key()])
            } else {
                None
            },
        )
    }
}

impl PaneState {
    /// Stores what was read for each of the pane's items. `None` stands for an item whose
    /// record could not be read.
    pub fn load_items<T>(&self, loaded: Vec<Option<T>>, item_states: &mut ItemStates<T>)
        requires
            loaded.len() == self.items.len(),
            old(item_states).wf(),
        ensures
            final(item_states)@ == states_loaded(old(item_states)@, self@.items, loaded@),
            final(item_states).wf(),
    {
        let ghost items = self@.items;
        let mut i: usize = 0;
        for state in iter: loaded
            invariant
                iter.seq() == loaded@,
                loaded@.len() == self.items@.len(),
                items == self@.items,
                i == iter.index(),
                item_states@ == states_loaded(
                    old(item_states)@,
                    items.take(i as int),
                    loaded@.take(i as int),
                ),
                item_states.wf(),
        {
            proof {
                assert(items.take(i + 1).drop_last() =~= items.take(i as int));
                assert(loaded@.take(i + 1).drop_last() =~= loaded@.take(i as int));
                assert(loaded@.take(i + 1).last() == state);
                assert(items.take(i + 1).last() == items[i as int]);
            }
            assert(i < self.items.len());
            if let Some(state) = state {
                let item = &self.items[i];
                item_states.insert(&item.record_namespace, item.record_id, state);
            }
            i += 1;
        }
        assert(items.take(items.len() as int) =~= items);
        assert(loaded@.take(items.len() as int) =~= loaded@);
    }
}

} // verus!

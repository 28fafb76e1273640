//! Keeping the pane between runs of the application.

use super::{Pane, PaneModel};
use crate::state::{states_left, states_taken, ItemState, ItemStateModel, ItemStates, PaneState, PaneStateModel};
use vstd::prelude::*;

verus! {

struct PendingItem {
    record_namespace: String,
    active: bool,
}

/// What is to be kept of a pane whose items are still being saved.
pub struct PendingPaneState {
    active: bool,
    items: Vec<PendingItem>,
}

/// The mathematical value of a [`PendingPaneState`].
#[verifier::ext_equal]
pub struct PendingPaneModel {
    pub active: bool,
    /// The namespace of each item that is being saved, and whether the item was active.
    pub items: Seq<(Seq<char>, bool)>,
}

/// The items with a namespace, in order, each with whether it is the one at `active`.
pub open spec fn pending_items(namespaces: Seq<Option<String>>, active: int) -> Seq<
    (Seq<char>, bool),
>
    decreases namespaces.len(),
{
    if namespaces.len() == 0 {
        Seq::empty()
    } else {
        let earlier = pending_items(namespaces.drop_last(), active);
        match namespaces.last() {
            Some(namespace) => earlier.push((namespace@, namespaces.len() - 1 == active)),
            None => earlier,
        }
    }
}

/// The items that got a record, in order.
pub open spec fn recorded_items(
    items: Seq<(Seq<char>, bool)>,
    record_ids: Seq<Option<u64>>,
) -> Seq<ItemStateModel>
    decreases items.len(),
{
    if items.len() == 0 || record_ids.len() != items.len() {
        Seq::empty()
    } else {
        let earlier = recorded_items(items.drop_last(), record_ids.drop_last());
        match record_ids.last() {
            Some(record_id) => earlier.push(
                ItemStateModel {
                    record_namespace: items.last().0,
                    record_id,
                    active: items.last().1,
                },
            ),
            None => earlier,
        }
    }
}

impl PendingPaneModel {
    /// What is kept once it is known under what record each item was saved.
    pub open spec fn finished(self, record_ids: Seq<Option<u64>>) -> PaneStateModel {
        PaneStateModel { active: self.active, items: recorded_items(self.items, record_ids) }
    }
}

impl View for PendingPaneState {
    type V = PendingPaneModel;

    closed spec fn view(&self) -> PendingPaneModel {
        PendingPaneModel {
            active: self.active,
            items: Seq::new(
                self.items@.len(),
                |i: int| (self.items@[i].record_namespace@, self.items@[i].active),
            ),
        }
    }
}

impl PendingPaneState {
    /// The number of items that are being saved.
    pub fn items_len(&self) -> (len: usize)
        ensures
            len == self@.items.len(),
    {
        self.items.len()
    }

    /// The state to keep, once it is known under what record each item was saved. `None`
    /// stands for an item that could not be saved.
    pub fn finish(self, record_ids: Vec<Option<u64>>) -> (state: PaneState)
        requires
            record_ids.len() == self@.items.len(),
        ensures
            state@ == self@.finished(record_ids@),
    {
        let ghost pending = self@.items;
        let mut state = PaneState { active: self.active, items: Vec::new() };
        let mut i: usize = 0;
        assert(state@.items =~= Seq::empty());
        while i < self.items.len()
            invariant
                i <= self.items.len(),
                pending == self@.items,
                record_ids.len() == self.items.len(),
                state.active == self.active,
                state@.items == recorded_items(
                    pending.take(i as int),
                    record_ids@.take(i as int),
                ),
            decreases self.items.len() - i,
        {
            proof {
                assert(pending.take(i + 1).drop_last() =~= pending.take(i as int));
                assert(record_ids@.take(i + 1).drop_last() =~= record_ids@.take(i as int));
                assert(pending.take(i + 1).last() == pending[i as int]);
                assert(record_ids@.take(i + 1).last() == record_ids@[i as int]);
            }
            if let Some(record_id) = record_ids[i] {
                let ghost before = state@.items;
                let item = ItemState {
                    record_namespace: self.items[i].record_namespace.clone(),
                    record_id,
                    active: self.items[i].active,
                };
                state.items.push(item);
                assert(state@.items =~= before.push(item@));
            }
            i += 1;
        }
        assert(pending.take(i as int) =~= pending);
        assert(record_ids@.take(i as int) =~= record_ids@);
        state
    }
}

impl<D> PaneModel<D> {
    /// What is to be kept of the pane. `namespaces` holds, for each item, the namespace under
    /// which it is saved, if it is saved at all.
    pub open spec fn pending_state(self, namespaces: Seq<Option<String>>) -> PendingPaneModel {
        PendingPaneModel {
            active: self.is_active,
            items: pending_items(namespaces, self.active_item_index),
        }
    }
}

impl<D> Pane<D> {
    /// Notes which items are to be kept and which of them is active. `namespaces` holds, for
    /// each item, the namespace under which it is saved, or `None` where the item is not kept.
    pub fn build_state(&self, namespaces: Vec<Option<String>>) -> (state: PendingPaneState)
        requires
            namespaces.len() == self@.items.len(),
        ensures
            state@ == self@.pending_state(namespaces@),
    {
        let mut state = PendingPaneState { active: self.is_active, items: Vec::new() };
        let mut ix: usize = 0;
        assert(state@.items =~= Seq::empty());
        for namespace in iter: namespaces
            invariant
                iter.seq() == namespaces@,
                ix == iter.index(),
                namespaces.len() == self.items.len(),
                state.active == self.is_active,
                state@.items == pending_items(
                    namespaces@.take(ix as int),
                    self.active_item_index as int,
                ),
        {
            proof {
                assert(namespaces@.take(ix + 1).drop_last() =~= namespaces@.take(ix as int));
                assert(namespaces@.take(ix + 1).last() == namespace);
            }
            assert(ix < self.items.len());
            if let Some(namespace) = namespace {
                let ghost before = state@.items;
                let item = PendingItem {
                    record_namespace: namespace,
                    active: ix == self.active_item_index,
                };
                state.items.push(item);
                assert(state@.items =~= before.push((item.record_namespace@, item.active)));
            }
            ix += 1;
        }
        assert(namespaces@.take(ix as int) =~= namespaces@);
        state
    }

    /// Takes the states that were read for the items of a kept pane, in order. `None` stands
    /// for an item whose state is missing.
    pub fn restore<T>(&self, saved_state: PaneState, item_states: &mut ItemStates<T>) -> (states:
        Vec<Option<T>>)
        requires
            old(item_states).wf(),
        ensures
            final(item_states)@ == states_left(old(item_states)@, saved_state@.items),
            states@ == states_taken(old(item_states)@, saved_state@.items),
            final(item_states).wf(),
    {
        let mut states: Vec<Option<T>> = Vec::new();
        let mut i: usize = 0;
        let ghost items = saved_state@.items;
        while i < saved_state.items.len()
            invariant
                i <= saved_state.items.len(),
                items == saved_state@.items,
                item_states@ == states_left(old(item_states)@, items.take(i as int)),
                states@ == states_taken(old(item_states)@, items.take(i as int)),
                item_states.wf(),
            decreases saved_state.items.len() - i,
        {
            proof {
                assert(items.take(i + 1).drop_last() =~= items.take(i as int));
                assert(items.take(i + 1).last() == items[i as int]);
            }
            let item = &saved_state.items[i];
            let state = item_states.remove(&item.record_namespace, item.record_id);
            states.push(state);
            i += 1;
        }
        assert(items.take(items.len() as int) =~= items);
        states
    }
}

} // verus!

//! Activating, adding, removing and finding items.

use super::{Pane, PaneModel};
use crate::context::{AppContext, AppModel, ItemId, ProjectEntryId};
use crate::effect::{Effect, Event, ViewContext};
use crate::ids::{
    differs, equals, find_id, first_index, is_first, lemma_filter_contains, lemma_filter_no_duplicates, lemma_first_index,
    lemma_first_index_is, lemma_first_index_none, lemma_moved_to_end_no_duplicates, moved_to_end, retain_others, without,
};
use crate::nav_history::NavigationMode;
use vstd::prelude::*;

verus! {

/// The condition that an item counts as the one being added.
pub open spec fn same_item(app: AppModel, added: ItemId) -> spec_fn(ItemId) -> bool {
    |existing: ItemId| app.is_same_item(existing, added)
}

/// The condition that an item is the view of exactly this project entry.
pub open spec fn view_of(app: AppModel, entry_id: ProjectEntryId) -> spec_fn(ItemId) -> bool {
    |item: ItemId| app.is_view_of(item, entry_id)
}

pub open spec fn smaller(a: int, b: int) -> int {
    if a <= b {
        a
    } else {
        b
    }
}

impl<D> PaneModel<D> {
    /// The pane once the item at `index` is active. An index past the end changes nothing.
    pub open spec fn activated(self, index: int) -> Self {
        if 0 <= index < self.items.len() {
            PaneModel {
                active_item_index: index,
                activation_history: moved_to_end(self.activation_history, self.items[index]),
                autoscroll: true,
                ..self
            }
        } else {
            self
        }
    }

    /// Whether activating the item at `index` counts as a switch: another item was active, or
    /// the history is being walked.
    pub open spec fn switches_to(self, index: int) -> bool {
        ||| self.active_item_index != index
        ||| self.nav.mode is GoingBack
        ||| self.nav.mode is GoingForward
    }

    /// What activating the item at `index` has the application do.
    pub open spec fn activate_effects(
        self,
        index: int,
        activate_pane: bool,
        focus_item: bool,
    ) -> Seq<Effect> {
        if 0 <= index < self.items.len() {
            let item_id = self.items[index];
            let left = match self.active_item() {
                Some(left) => seq![Effect::Deactivated { item_id: left, mode: self.nav.mode }],
                None => seq![],
            };
            let switched = if self.switches_to(index) {
                left.push(Effect::Emit(Event::ActivateItem { local: activate_pane }))
            } else {
                seq![]
            };
            let shown = switched.push(Effect::UpdateToolbar { active_item: Some(item_id) });
            let focused = if focus_item {
                shown.push(Effect::FocusItem { item_id })
            } else {
                shown
            };
            focused.push(Effect::Notify)
        } else {
            seq![]
        }
    }

    /// The index of the item to the left of the active one, around the end.
    pub open spec fn prev_index(self) -> int {
        if self.active_item_index > 0 {
            self.active_item_index - 1
        } else if self.items.len() > 0 {
            self.items.len() - 1
        } else {
            0
        }
    }

    /// The index of the item to the right of the active one, around the end.
    pub open spec fn next_index(self) -> int {
        if self.active_item_index + 1 < self.items.len() {
            self.active_item_index + 1
        } else {
            0
        }
    }

    /// Where an item goes that is asked for at `destination`, or else after the active item.
    pub open spec fn insertion_index(self, destination: Option<usize>) -> int {
        smaller(
            match destination {
                Some(index) => index as int,
                None => self.active_item_index + 1,
            },
            self.items.len() as int,
        )
    }

    /// The first item of the pane that counts as the one being added.
    pub open spec fn existing_index(self, app: AppModel, item: ItemId) -> Option<int> {
        first_index(self.items, same_item(app, item))
    }

    /// Whether an item that the pane has already stays where it is when it is added again: it
    /// stands there, or it is active and no destination was given.
    pub open spec fn stays(self, existing: int, destination: Option<usize>) -> bool {
        ||| existing == self.insertion_index(destination)
        ||| existing == self.active_item_index && destination is None
    }

    /// Where the item stands once it is added.
    pub open spec fn added_index(
        self,
        app: AppModel,
        item: ItemId,
        destination: Option<usize>,
    ) -> int {
        match self.existing_index(app, item) {
            Some(existing) => if self.stays(existing, destination) {
                existing
            } else if destination is None && existing < self.active_item_index {
                // The active item moves one place to the left to fill the gap.
                self.active_item_index
            } else {
                smaller(self.insertion_index(destination), self.items.len() - 1)
            },
            None => self.insertion_index(destination),
        }
    }

    /// The items once one is added.
    pub open spec fn added_items(
        self,
        app: AppModel,
        item: ItemId,
        destination: Option<usize>,
    ) -> Seq<ItemId> {
        let index = self.added_index(app, item, destination);
        match self.existing_index(app, item) {
            Some(existing) => if self.stays(existing, destination) {
                self.items
            } else {
                self.items.remove(existing).insert(index, item)
            },
            None => self.items.insert(index, item),
        }
    }

    /// The pane once an item is added: the item is active.
    pub open spec fn added(
        self,
        app: AppModel,
        item: ItemId,
        destination: Option<usize>,
    ) -> Self {
        PaneModel { items: self.added_items(app, item, destination), ..self }.activated(
            self.added_index(app, item, destination),
        )
    }

    /// Where the active item stands once the items are rearranged for one to be added.
    pub open spec fn carried_active_index(
        self,
        app: AppModel,
        item: ItemId,
        destination: Option<usize>,
    ) -> int {
        let index = self.added_index(app, item, destination);
        let active = self.active_item_index;
        match self.existing_index(app, item) {
            Some(existing) => if self.stays(existing, destination) {
                active
            } else if existing == active {
                index
            } else {
                let active = if existing < active {
                    active - 1
                } else {
                    active
                };
                if index <= active {
                    active + 1
                } else {
                    active
                }
            },
            None => if index <= active {
                active + 1
            } else {
                active
            },
        }
    }

    /// The pane with its items arranged for one to be added, before that one is activated.
    pub open spec fn rearranged(
        self,
        app: AppModel,
        item: ItemId,
        destination: Option<usize>,
    ) -> Self {
        PaneModel {
            items: self.added_items(app, item, destination),
            active_item_index: self.carried_active_index(app, item, destination),
            ..self
        }
    }

    /// What adding an item has the application do.
    pub open spec fn add_effects(
        self,
        app: AppModel,
        item: ItemId,
        activate_pane: bool,
        focus_item: bool,
        destination: Option<usize>,
    ) -> Seq<Effect> {
        let index = self.added_index(app, item, destination);
        let activation = self.rearranged(app, item, destination).activate_effects(
            index,
            activate_pane,
            focus_item,
        );
        let told = seq![Effect::AddedToPane { item_id: item }];
        match self.existing_index(app, item) {
            Some(existing) => if existing == self.insertion_index(destination) {
                told + activation
            } else {
                told.push(Effect::Reparent { item_id: item }).push(Effect::Notify) + activation
            },
            None => (told.push(Effect::Reparent { item_id: item }) + activation).push(
                Effect::Notify,
            ),
        }
    }

    /// The first item that is the view of exactly this project entry.
    pub open spec fn item_for_entry(
        self,
        app: AppModel,
        entry_id: ProjectEntryId,
    ) -> Option<ItemId> {
        match first_index(self.items, view_of(app, entry_id)) {
            Some(index) => Some(self.items[index]),
            None => None,
        }
    }

    /// The item to activate when the active one, at `index`, is removed: the one that was
    /// activated most recently before it or, where that one is gone, the one to the left.
    pub open spec fn successor_index(self, index: int) -> int {
        let others = without(self.activation_history, self.items[index]);
        let fallback = if index > 0 {
            index - 1
        } else {
            0
        };
        if others.len() > 0 {
            match self.index_for_item(others.last()) {
                Some(successor) => successor,
                None => fallback,
            }
        } else {
            fallback
        }
    }

    /// The pane once another item has taken over, where needed, from the one at `index`,
    /// which is still there.
    pub open spec fn handed_over(self, index: int) -> Self {
        let others = without(self.activation_history, self.items[index]);
        if index == self.active_item_index {
            let rest = if others.len() > 0 {
                others.drop_last()
            } else {
                others
            };
            PaneModel { activation_history: rest, ..self }.activated(self.successor_index(index))
        } else {
            PaneModel { activation_history: others, ..self }
        }
    }

    /// The pane once the item at `index` is removed.
    pub open spec fn removed(self, app: AppModel, index: int) -> Self {
        let item = self.items[index];
        let handed = self.handed_over(index);
        PaneModel {
            items: self.items.remove(index),
            active_item_index: if index < handed.active_item_index {
                handed.active_item_index - 1
            } else {
                handed.active_item_index
            },
            nav: self.nav.with_mode(NavigationMode::Normal).with_path(item, app.project_path(item)),
            ..handed
        }
    }

    /// What removing the item at `index` has the application do.
    pub open spec fn remove_effects(self, index: int, activate_pane: bool) -> Seq<Effect> {
        let item_id = self.items[index];
        let activation = if index == self.active_item_index {
            self.activate_effects(self.successor_index(index), activate_pane, activate_pane)
        } else {
            seq![]
        };
        let announced = activation.push(Effect::Emit(Event::RemoveItem { item_id }));
        let emptied = if self.items.len() == 1 {
            announced.push(Effect::Deactivated { item_id, mode: self.nav.mode }).push(
                Effect::UpdateToolbar { active_item: None },
            ).push(Effect::Emit(Event::Remove))
        } else {
            announced
        };
        emptied.push(
            Effect::Deactivated { item_id, mode: NavigationMode::ClosingItem },
        ).push(Effect::Notify)
    }
}

/// Recording an addition step by step comes to recording it as a whole.
proof fn lemma_effects(before: Seq<Effect>, item_id: ItemId, activation: Seq<Effect>)
    ensures
        before.push(Effect::AddedToPane { item_id }) + activation == before + (seq![
            Effect::AddedToPane { item_id },
        ] + activation),
        before.push(Effect::AddedToPane { item_id }).push(Effect::Reparent { item_id }).push(
            Effect::Notify,
        ) + activation == before + (seq![Effect::AddedToPane { item_id }].push(
            Effect::Reparent { item_id },
        ).push(Effect::Notify) + activation),
        (before.push(Effect::AddedToPane { item_id }).push(Effect::Reparent { item_id })
            + activation).push(Effect::Notify) == before + (seq![
            Effect::AddedToPane { item_id },
        ].push(Effect::Reparent { item_id }) + activation).push(Effect::Notify),
{
}

impl<D> Pane<D> {
    /// Makes the item at `index` the active one. An index past the end changes nothing.
    pub fn activate_item(
        &mut self,
        index: usize,
        activate_pane: bool,
        focus_item: bool,
        cx: &mut ViewContext,
    )
        ensures
            final(self)@ == old(self)@.activated(index as int),
            final(cx)@ == old(cx)@ + old(self)@.activate_effects(
                index as int,
                activate_pane,
                focus_item,
            ),
            old(self)@.wf() ==> final(self)@.wf(),
    {
        if index < self.items.len() {
            let prev_active_item_ix: usize = self.active_item_index;
            let prev_item = self.active_item();
            let mode = self.nav_history.mode();
            self.active_item_index = index;
            if prev_active_item_ix != index || matches!(
                mode,
                NavigationMode::GoingBack | NavigationMode::GoingForward
            ) {
                if let Some(item_id) = prev_item {
                    cx.push(Effect::Deactivated { item_id, mode });
                }
                cx.emit(Event::ActivateItem { local: activate_pane });
            }
            let item_id = self.items[index];
            self.activation_history = retain_others(&self.activation_history, item_id);
            self.activation_history.push(item_id);
            self.update_toolbar(cx);
            if focus_item {
                self.focus_active_item(cx);
            }
            self.autoscroll = true;
            cx.notify();
            proof {
                if old(self)@.wf() {
                    lemma_moved_to_end_no_duplicates(old(self)@.activation_history, item_id);
                }
            }
        }
    }

    /// Activates the item to the left, around the end.
    pub fn activate_prev_item(&mut self, activate_pane: bool, cx: &mut ViewContext)
        ensures
            final(self)@ == old(self)@.activated(old(self)@.prev_index()),
            final(cx)@ == old(cx)@ + old(self)@.activate_effects(
                old(self)@.prev_index(),
                activate_pane,
                activate_pane,
            ),
            old(self)@.wf() ==> final(self)@.wf(),
    {
        let mut index: usize = self.active_item_index;
        if index > 0 {
            index -= 1;
        } else if self.items.len() > 0 {
            index = self.items.len() - 1;
        }
        self.activate_item(index, activate_pane, activate_pane, cx);
    }

    /// Activates the item to the right, around the end.
    pub fn activate_next_item(&mut self, activate_pane: bool, cx: &mut ViewContext)
        ensures
            final(self)@ == old(self)@.activated(old(self)@.next_index()),
            final(cx)@ == old(cx)@ + old(self)@.activate_effects(
                old(self)@.next_index(),
                activate_pane,
                activate_pane,
            ),
            old(self)@.wf() ==> final(self)@.wf(),
    {
        let mut index: usize = self.active_item_index;
        if index < self.items.len() && index + 1 < self.items.len() {
            index += 1;
        } else {
            index = 0;
        }
        self.activate_item(index, activate_pane, activate_pane, cx);
    }

    fn find_same_item(&self, app: &AppContext, item: ItemId) -> (index: Option<usize>)
        ensures
            match index {
                Some(i) => self@.existing_index(app@, item) == Some(i as int) && i
                    < self@.items.len(),
                None => self@.existing_index(app@, item) is None,
            },
    {
        let mut i: usize = 0;
        while i < self.items.len()
            invariant
                i <= self.items.len(),
                forall|j: int| 0 <= j < i ==> !app@.is_same_item(#[trigger] self.items@[j], item),
            decreases self.items.len() - i,
        {
            if app.is_same_item(self.items[i], item) {
                proof {
                    assert(is_first(self.items@, same_item(app@, item), i as int));
                    lemma_first_index_is(self.items@, same_item(app@, item), i as int);
                }
                return Some(i);
            }
            i += 1;
        }
        proof {
            lemma_first_index_none(self.items@, same_item(app@, item));
        }
        None
    }

    /// Puts an item into the pane and activates it.
    ///
    /// An item that the pane has already, or a second view of a singleton's project entry, is
    /// moved to its destination instead of being added twice.
    pub fn add_item(
        &mut self,
        app: &AppContext,
        item: ItemId,
        activate_pane: bool,
        focus_item: bool,
        destination_index: Option<usize>,
        cx: &mut ViewContext,
    )
        requires
            old(self)@.wf(),
        ensures
            final(self)@ == old(self)@.added(app@, item, destination_index),
            final(cx)@ == old(cx)@ + old(self)@.add_effects(
                app@,
                item,
                activate_pane,
                focus_item,
                destination_index,
            ),
            final(self)@.wf(),
    {
        let ghost start = self@;
        // If no destination index is specified, add or move the item after the active item.
        let mut insertion_index: usize = match destination_index {
            Some(index) => index,
            None => if self.items.len() == 0 {
                0
            } else {
                self.active_item_index + 1
            },
        };
        if insertion_index > self.items.len() {
            insertion_index = self.items.len();
        }
        assert(insertion_index == start.insertion_index(destination_index));

        cx.push(Effect::AddedToPane { item_id: item });

        // Does the item already exist?
        let existing = self.find_same_item(app, item);
        if let Some(existing_item_index) = existing {
            // If the item already exists, move it to the desired destination and activate it.
            let reparented = existing_item_index != insertion_index;
            if reparented {
                cx.push(Effect::Reparent { item_id: item });
            }
            let index = self.move_existing(
                app,
                item,
                existing_item_index,
                insertion_index,
                destination_index,
            );
            if reparented {
                cx.notify();
            }
            self.activate_item(index, activate_pane, focus_item, cx);
        } else {
            cx.push(Effect::Reparent { item_id: item });
            self.items.insert(insertion_index, item);
            if insertion_index <= self.active_item_index {
                self.active_item_index = self.active_item_index + 1;
            }
            assert(self@ == start.rearranged(app@, item, destination_index));
            self.activate_item(insertion_index, activate_pane, focus_item, cx);
            cx.notify();
        }
        proof {
            let index = start.added_index(app@, item, destination_index);
            let rearranged = start.rearranged(app@, item, destination_index);
            assert(self@ == rearranged.activated(index));
            lemma_moved_to_end_no_duplicates(start.activation_history, rearranged.items[index]);
            lemma_effects(
                old(cx)@,
                item,
                rearranged.activate_effects(index, activate_pane, focus_item),
            );
        }
    }

    /// Moves the item that is there already, unless it stays, and follows the active one.
    fn move_existing(
        &mut self,
        app: &AppContext,
        item: ItemId,
        existing: usize,
        insertion_index: usize,
        destination: Option<usize>,
    ) -> (index: usize)
        requires
            old(self)@.wf(),
            existing < old(self)@.items.len(),
            old(self)@.existing_index(app@, item) == Some(existing as int),
            insertion_index == old(self)@.insertion_index(destination),
        ensures
            index == old(self)@.added_index(app@, item, destination),
            final(self)@ == old(self)@.rearranged(app@, item, destination),
            index < final(self)@.items.len(),
    {
        let existing_item_is_active = existing == self.active_item_index;
        // If no destination was given and the added item is already the active one, don't move it.
        if existing == insertion_index || existing_item_is_active && destination.is_none() {
            return existing;
        }
        self.items.remove(existing);
        let is_before_active = existing < self.active_item_index;
        if is_before_active {
            self.active_item_index = self.active_item_index - 1;
        }
        // Without a destination the item goes after the active one, where that is now.
        let index: usize = if destination.is_none() && is_before_active {
            self.active_item_index + 1
        } else if insertion_index > self.items.len() {
            self.items.len()
        } else {
            insertion_index
        };
        self.items.insert(index, item);
        if existing_item_is_active {
            self.active_item_index = index;
        } else if index <= self.active_item_index {
            self.active_item_index = self.active_item_index + 1;
        }
        index
    }

    /// Takes the item at `item_index` out of the pane and remembers where its file was.
    pub fn remove_item(
        &mut self,
        app: &AppContext,
        item_index: usize,
        activate_pane: bool,
        cx: &mut ViewContext,
    )
        requires
            old(self)@.wf(),
            item_index < old(self)@.items.len(),
        ensures
            final(self)@ == old(self)@.removed(app@, item_index as int),
            final(cx)@ == old(cx)@ + old(self)@.remove_effects(item_index as int, activate_pane),
            final(self)@.wf(),
    {
        let ghost start = self@;
        let item_id = self.items[item_index];
        self.activation_history = retain_others(&self.activation_history, item_id);
        let ghost others = self.activation_history@;
        proof {
            lemma_filter_no_duplicates(start.activation_history, differs(item_id));
        }

        if item_index == self.active_item_index {
            // Without a usable entry in the activation history, activate the item to the left.
            let mut index_to_activate: usize = if item_index > 0 {
                item_index - 1
            } else {
                0
            };
            if let Some(last_activated_item) = self.activation_history.pop() {
                if let Some(index) = find_id(&self.items, last_activated_item) {
                    index_to_activate = index;
                }
            }
            assert(index_to_activate == start.successor_index(item_index as int));
            self.activate_item(index_to_activate, activate_pane, activate_pane, cx);
            proof {
                start.lemma_successor(item_index as int);
            }
        }
        assert(self@ == start.handed_over(item_index as int));

        self.items.remove(item_index);

        cx.emit(Event::RemoveItem { item_id });
        if self.items.len() == 0 {
            let mode = self.nav_history.mode();
            cx.push(Effect::Deactivated { item_id, mode });
            self.update_toolbar(cx);
            cx.emit(Event::Remove);
        }

        if item_index < self.active_item_index {
            self.active_item_index = self.active_item_index - 1;
        }

        cx.push(Effect::Deactivated { item_id, mode: NavigationMode::ClosingItem });
        self.nav_history.set_mode(NavigationMode::Normal);
        let path = app.project_path(item_id);
        self.nav_history.set_path(item_id, path);

        cx.notify();
        assert(cx@ =~= old(cx)@ + start.remove_effects(item_index as int, activate_pane));
    }

    /// The view in this pane of exactly this project entry.
    pub fn item_for_entry(&self, entry_id: ProjectEntryId, app: &AppContext) -> (item: Option<
        ItemId,
    >)
        ensures
            item == self@.item_for_entry(app@, entry_id),
    {
        match self.index_for_entry(entry_id, app) {
            Some(index) => Some(self.items[index]),
            None => None,
        }
    }

    pub(super) fn index_for_entry(&self, entry_id: ProjectEntryId, app: &AppContext) -> (index: Option<
        usize,
    >)
        ensures
            match index {
                Some(i) => first_index(self@.items, view_of(app@, entry_id)) == Some(i as int) && i
                    < self@.items.len(),
                None => first_index(self@.items, view_of(app@, entry_id)) is None,
            },
    {
        let mut i: usize = 0;
        while i < self.items.len()
            invariant
                i <= self.items.len(),
                forall|j: int| 0 <= j < i ==> !app@.is_view_of(#[trigger] self.items@[j], entry_id),
            decreases self.items.len() - i,
        {
            if app.is_view_of(self.items[i], entry_id) {
                proof {
                    assert(is_first(self.items@, view_of(app@, entry_id), i as int));
                    lemma_first_index_is(self.items@, view_of(app@, entry_id), i as int);
                }
                return Some(i);
            }
            i += 1;
        }
        proof {
            lemma_first_index_none(self.items@, view_of(app@, entry_id));
        }
        None
    }
}

impl<D> PaneModel<D> {
    /// Another item than the removed one takes over, unless the removed one is the first and
    /// nothing is known of the others.
    pub proof fn lemma_successor(self, index: int)
        requires
            0 <= index < self.items.len(),
        ensures
            0 <= self.successor_index(index) < self.items.len(),
            self.successor_index(index) != index || index == 0,
    {
        let others = without(self.activation_history, self.items[index]);
        if others.len() > 0 {
            lemma_first_index(self.items, equals(others.last()));
            lemma_filter_contains(
                self.activation_history,
                differs(self.items[index]),
                others.last(),
            );
            assert(others.contains(others.last()));
        }
    }
}

} // verus!

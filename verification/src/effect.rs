//! What a pane has the application do.

use crate::context::{ItemId, ViewId};
use crate::nav_history::NavigationMode;
use vstd::prelude::*;

verus! {

#[derive(Clone, Copy, PartialEq, Eq, Structural, Debug)]
pub enum SplitDirection {
    Up,
    Down,
    Left,
    Right,
}

/// What a pane tells those that observe it.
#[derive(Clone, Copy, PartialEq, Eq, Structural, Debug)]
pub enum Event {
    ActivateItem { local: bool },
    Remove,
    RemoveItem { item_id: usize },
    Split(SplitDirection),
    ChangeItemTitle,
}

/// The menus that open from the tab bar.
#[derive(Clone, Copy, PartialEq, Eq, Structural, Debug)]
pub enum TabBarContextMenuKind {
    New,
    Split,
    Dock,
}

/// One thing that the application has to do for a pane.
#[derive(Clone, Copy, PartialEq, Eq, Debug)]
pub enum Effect {
    /// Hand the event to the pane's observers.
    Emit(Event),
    /// Draw the pane again.
    Notify,
    /// Tell the item that it was added to this pane.
    AddedToPane { item_id: ItemId },
    /// Make the item's view a child of this pane.
    Reparent { item_id: ItemId },
    /// Tell the item that it is no longer active. What it records in the pane's history
    /// while it is told is recorded in the given mode.
    Deactivated { item_id: ItemId, mode: NavigationMode },
    /// Show the item, or none, in the pane's toolbar.
    UpdateToolbar { active_item: Option<ItemId> },
    /// Draw the pane's toolbar again.
    NotifyToolbar,
    /// Once the current update is over, call `Pane::history_updated` if the pane still exists.
    DeferHistoryUpdated,
    /// Move the focus to the item.
    FocusItem { item_id: ItemId },
    /// Move the focus to a view inside the active item.
    FocusView { view_id: ViewId },
    /// Move the focus to the pane.
    FocusPane,
    /// Open the menu at the top right of the tab bar.
    ShowMenu(TabBarContextMenuKind),
}

/// Effects recorded in three parts.
pub proof fn lemma_three_parts(first: Seq<Effect>, second: Seq<Effect>, third: Seq<Effect>)
    ensures
        (first + second) + third == first + (second + third),
{
    assert((first + second) + third =~= first + (second + third));
}

/// An effect recorded between two parts.
pub proof fn lemma_between(first: Seq<Effect>, effect: Effect, second: Seq<Effect>)
    ensures
        first.push(effect) + second == first + (seq![effect] + second),
{
    assert(first.push(effect) + second =~= first + (seq![effect] + second));
}

/// Nothing recorded.
pub proof fn lemma_nothing(first: Seq<Effect>)
    ensures
        first + Seq::<Effect>::empty() == first,
        Seq::<Effect>::empty() + first == first,
{
    assert(first + Seq::<Effect>::empty() =~= first);
    assert(Seq::<Effect>::empty() + first =~= first);
}

/// Collects, in order, what the application has to do for a pane.
pub struct ViewContext {
    effects: Vec<Effect>,
}

impl View for ViewContext {
    type V = Seq<Effect>;

    closed spec fn view(&self) -> Seq<Effect> {
        self.effects@
    }
}

impl ViewContext {
    pub fn new() -> (cx: Self)
        ensures
            cx@ == Seq::<Effect>::empty(),
    {
        ViewContext { effects: Vec::new() }
    }

    pub fn push(&mut self, effect: Effect)
        ensures
            final(self)@ == old(self)@.push(effect),
    {
        self.effects.push(effect);
    }

    pub fn emit(&mut self, event: Event)
        ensures
            final(self)@ == old(self)@.push(Effect::Emit(event)),
    {
        self.effects.push(Effect::Emit(event));
    }

    pub fn notify(&mut self)
        ensures
            final(self)@ == old(self)@.push(Effect::Notify),
    {
        self.effects.push(Effect::Notify);
    }

    /// Everything that was recorded, oldest first.
    pub fn effects(&self) -> (effects: &Vec<Effect>)
        ensures
            effects@ == self@,
    {
        &self.effects
    }

    /// Everything that was recorded, leaving the context empty.
    pub fn take_effects(&mut self) -> (effects: Vec<Effect>)
        ensures
            effects@ == old(self)@,
            final(self)@ == Seq::<Effect>::empty(),
    {
        let mut effects: Vec<Effect> = Vec::new();
        effects.append(&mut self.effects);
        effects
    }
}

} // verus!

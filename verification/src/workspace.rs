//! The panes together: actions that name a pane, or that concern the active one.

use crate::actions::{Action, MoveItem};
use crate::context::{AppContext, AppModel, ItemId, PaneId};
use crate::effect::{lemma_nothing, Effect, ViewContext};
use crate::ids::equals;
use crate::nav_history::NavigationMode;
use crate::pane::{CloseItems, CloseModel, ItemType, Navigation, NavigationOutcome, Pane, PaneModel};
use vstd::prelude::*;

verus! {

/// One thing that the application has to do for one of the panes.
#[derive(Clone, Copy, PartialEq, Eq, Debug)]
pub struct PaneEffect {
    pub pane: PaneId,
    pub effect: Effect,
}

/// The effects as those of one pane.
pub open spec fn effects_of(pane: PaneId, effects: Seq<Effect>) -> Seq<PaneEffect> {
    Seq::new(effects.len(), |i: int| PaneEffect { pane, effect: effects[i] })
}

/// Collects, in order, what the application has to do for the panes.
pub struct WorkspaceContext {
    effects: Vec<PaneEffect>,
}

impl View for WorkspaceContext {
    type V = Seq<PaneEffect>;

    closed spec fn view(&self) -> Seq<PaneEffect> {
        self.effects@
    }
}

impl WorkspaceContext {
    pub fn new() -> (cx: Self)
        ensures
            cx@ == Seq::<PaneEffect>::empty(),
    {
        WorkspaceContext { effects: Vec::new() }
    }

    /// Everything that was recorded, oldest first.
    pub fn effects(&self) -> (effects: &Vec<PaneEffect>)
        ensures
            effects@ == self@,
    {
        &self.effects
    }

    /// Records what was recorded for one pane.
    pub fn record(&mut self, pane: PaneId, cx: &ViewContext)
        ensures
            final(self)@ == old(self)@ + effects_of(pane, cx@),
    {
        let effects = cx.effects();
        let mut i: usize = 0;
        while i < effects.len()
            invariant
                i <= effects.len(),
                effects@ == cx@,
                self@ == old(self)@ + effects_of(pane, cx@).take(i as int),
            decreases effects.len() - i,
        {
            self.effects.push(PaneEffect { pane, effect: effects[i] });
            i += 1;
            assert(self@ =~= old(self)@ + effects_of(pane, cx@).take(i as int));
        }
        assert(effects_of(pane, cx@).take(i as int) =~= effects_of(pane, cx@));
    }
}

/// The panes of a window, one of which is active.
pub struct Workspace<D> {
    panes: Vec<Pane<D>>,
    active_pane: usize,
}

/// The mathematical value of a [`Workspace`].
#[verifier::ext_equal]
pub struct WorkspaceModel<D> {
    pub panes: Seq<PaneModel<D>>,
    pub active_pane: int,
}

/// What became of an action.
pub enum ActionOutcome<D> {
    /// It is not for the workspace to act.
    Unhandled,
    /// There is nothing left to do.
    Done,
    /// The item to move is not in the pane that it was to be moved from. Its tab may have been
    /// closed while it was dragged.
    ItemMissing,
    /// Items are to be closed.
    Close { pane: PaneId, closing: CloseItems },
    /// A walk through a pane's history has begun.
    Navigate { pane: PaneId, mode: NavigationMode, step: Navigation<D> },
}

/// Whether the pane at `i` is the one with this identifier.
pub open spec fn is_pane<D>(panes: Seq<PaneModel<D>>, handle: PaneId, i: int) -> bool {
    0 <= i < panes.len() && panes[i].nav.pane == handle
}

/// The items of all panes, pane by pane.
pub open spec fn all_items<D>(panes: Seq<PaneModel<D>>) -> Seq<ItemId>
    decreases panes.len(),
{
    if panes.len() == 0 {
        Seq::empty()
    } else {
        all_items(panes.drop_last()) + panes.last().items
    }
}

impl<D> WorkspaceModel<D> {
    /// There is a pane, one of them is active, and no two have the same identifier.
    pub open spec fn wf(self) -> bool {
        &&& 0 <= self.active_pane < self.panes.len()
        &&& forall|i: int| 0 <= i < self.panes.len() ==> (#[trigger] self.panes[i]).wf()
        &&& forall|i: int, j: int|
            0 <= i < j < self.panes.len() ==> (#[trigger] self.panes[i]).nav.pane != (
            #[trigger] self.panes[j]).nav.pane
    }

    /// Where the pane with this identifier is.
    pub open spec fn pane_index(self, handle: PaneId) -> Option<int> {
        if exists|i: int| is_pane(self.panes, handle, i) {
            Some(choose|i: int| is_pane(self.panes, handle, i))
        } else {
            None
        }
    }

    /// The pane that is meant: the named one, if it still exists, or else the active one.
    pub open spec fn chosen_pane(self, handle: Option<PaneId>) -> int {
        match handle {
            Some(handle) => match self.pane_index(handle) {
                Some(index) => index,
                None => self.active_pane,
            },
            None => self.active_pane,
        }
    }

    pub open spec fn handle(self, index: int) -> PaneId {
        self.panes[index].nav.pane
    }

    pub open spec fn with_pane(self, index: int, pane: PaneModel<D>) -> Self {
        WorkspaceModel { panes: self.panes.update(index, pane), ..self }
    }

    /// The workspace without the pane at `index`. Another pane that was active stays active; else
    /// the last one is.
    pub open spec fn without_pane(self, index: int) -> Self {
        WorkspaceModel {
            panes: self.panes.remove(index),
            active_pane: if index == self.active_pane {
                self.panes.len() - 2
            } else if index < self.active_pane {
                self.active_pane - 1
            } else {
                self.active_pane
            },
        }
    }

    /// The workspace once an item is moved between panes, or within one.
    pub open spec fn moved(
        self,
        app: AppModel,
        from: int,
        to: int,
        item: ItemId,
        destination_index: usize,
    ) -> Self {
        match self.panes[from].index_for_item(item) {
            Some(index) => {
                let taken = self.taken(app, from, to, index);
                taken.with_pane(to, taken.panes[to].added(app, item, Some(destination_index)))
            },
            None => self,
        }
    }

    /// The workspace once an item is taken from a pane to be moved to another one.
    pub open spec fn taken(self, app: AppModel, from: int, to: int, index: int) -> Self {
        if from != to {
            self.with_pane(from, self.panes[from].removed(app, index))
        } else {
            self
        }
    }

    /// What moving an item has the application do.
    pub open spec fn move_effects(
        self,
        app: AppModel,
        from: int,
        to: int,
        item: ItemId,
        destination_index: usize,
    ) -> Seq<PaneEffect> {
        match self.panes[from].index_for_item(item) {
            Some(index) => {
                let receiver = self.taken(app, from, to, index).panes[to];
                let added = receiver.add_effects(app, item, true, true, Some(destination_index));
                let removed = if from != to {
                    effects_of(self.handle(from), self.panes[from].remove_effects(index, false))
                } else {
                    seq![]
                };
                removed + effects_of(self.handle(to), added.push(Effect::FocusPane))
            },
            None => seq![],
        }
    }

    /// The beginning of a walk through the history of the pane at `index`.
    pub open spec fn walk(self, index: int, mode: NavigationMode) -> NavigationOutcome<D> {
        self.panes[index].walk_begun(mode)
    }
}

impl<D> View for Workspace<D> {
    type V = WorkspaceModel<D>;

    closed spec fn view(&self) -> WorkspaceModel<D> {
        WorkspaceModel {
            panes: Seq::new(self.panes@.len(), |i: int| self.panes@[i]@),
            active_pane: self.active_pane as int,
        }
    }
}

/// A pane's identifier tells where it is.
proof fn lemma_pane_index<D>(workspace: WorkspaceModel<D>, i: int)
    requires
        workspace.wf(),
        0 <= i < workspace.panes.len(),
    ensures
        workspace.pane_index(workspace.handle(i)) == Some(i),
{
    let handle = workspace.handle(i);
    assert(is_pane(workspace.panes, handle, i));
    let j = choose|j: int| is_pane(workspace.panes, handle, j);
    assert(is_pane(workspace.panes, handle, j));
    if j < i {
        assert(workspace.panes[j].nav.pane != workspace.panes[i].nav.pane);
    } else if i < j {
        assert(workspace.panes[i].nav.pane != workspace.panes[j].nav.pane);
    }
}

/// A workspace stays sound without one of several panes.
proof fn lemma_without_pane<D>(workspace: WorkspaceModel<D>, index: int)
    requires
        workspace.wf(),
        0 <= index < workspace.panes.len(),
        workspace.panes.len() > 1,
    ensures
        workspace.without_pane(index).wf(),
{
    let panes = workspace.panes.remove(index);
    assert forall|i: int| 0 <= i < panes.len() implies (#[trigger] panes[i]).wf() by {
        assert(panes[i] == workspace.panes[if i < index {
            i
        } else {
            i + 1
        }]);
    }
    assert forall|i: int, j: int| 0 <= i < j < panes.len() implies (#[trigger] panes[i]).nav.pane
        != (#[trigger] panes[j]).nav.pane by {
        let i0 = if i < index {
            i
        } else {
            i + 1
        };
        let j0 = if j < index {
            j
        } else {
            j + 1
        };
        assert(panes[i] == workspace.panes[i0] && panes[j] == workspace.panes[j0]);
    }
}

impl<D> Workspace<D> {
    /// A workspace with one pane.
    pub fn new(pane: Pane<D>) -> (workspace: Self)
        requires
            pane@.wf(),
        ensures
            workspace@ == (WorkspaceModel { panes: seq![pane@], active_pane: 0 }),
            workspace@.wf(),
    {
        let mut panes: Vec<Pane<D>> = Vec::new();
        panes.push(pane);
        let workspace = Workspace { panes, active_pane: 0 };
        assert(workspace@.panes =~= seq![pane@]);
        workspace
    }

    /// Adds a pane unless there is one with its identifier. Says whether it did.
    pub fn add_pane(&mut self, pane: Pane<D>) -> (added: bool)
        requires
            old(self)@.wf(),
            pane@.wf(),
        ensures
            added == (old(self)@.pane_index(pane@.nav.pane) is None),
            final(self)@ == (if added {
                WorkspaceModel { panes: old(self)@.panes.push(pane@), ..old(self)@ }
            } else {
                old(self)@
            }),
            final(self)@.wf(),
    {
        if self.index_of_pane(pane.handle()).is_some() {
            return false;
        }
        proof {
            assert forall|i: int| 0 <= i < self@.panes.len() implies (
            #[trigger] self@.panes[i]).nav.pane != pane@.nav.pane by {
                assert(!is_pane(self@.panes, pane@.nav.pane, i));
            }
        }
        self.panes.push(pane);
        assert(self@.panes =~= old(self)@.panes.push(pane@));
        true
    }

    /// Takes a pane out, unless it is the only one. Says whether it did. Where it was the active
    /// one, the last of the others becomes active.
    pub fn remove_pane(&mut self, handle: PaneId) -> (removed: bool)
        requires
            old(self)@.wf(),
        ensures
            removed == (old(self)@.pane_index(handle) is Some && old(self)@.panes.len() > 1),
            final(self)@ == (if removed {
                old(self)@.without_pane(old(self)@.pane_index(handle)->0)
            } else {
                old(self)@
            }),
            final(self)@.wf(),
    {
        let index: usize = match self.index_of_pane(handle) {
            Some(index) => index,
            None => {
                return false;
            },
        };
        if self.panes.len() == 1 {
            return false;
        }
        self.panes.remove(index);
        if index == self.active_pane {
            self.active_pane = self.panes.len() - 1;
        } else if index < self.active_pane {
            self.active_pane = self.active_pane - 1;
        }
        proof {
            assert(self@.panes =~= old(self)@.panes.remove(index as int));
            lemma_without_pane(old(self)@, index as int);
        }
        true
    }

    fn index_of_pane(&self, handle: PaneId) -> (index: Option<usize>)
        requires
            self@.wf(),
        ensures
            match index {
                Some(i) => self@.pane_index(handle) == Some(i as int) && is_pane(
                    self@.panes,
                    handle,
                    i as int,
                ),
                None => self@.pane_index(handle) is None,
            },
    {
        let mut i: usize = 0;
        while i < self.panes.len()
            invariant
                i <= self.panes.len(),
                self@.wf(),
                forall|j: int| 0 <= j < i ==> !#[trigger] is_pane(self@.panes, handle, j),
            decreases self.panes.len() - i,
        {
            if self.panes[i].handle() == handle {
                proof {
                    lemma_pane_index(self@, i as int);
                }
                return Some(i);
            }
            i += 1;
        }
        None
    }

    fn chosen_pane(&self, handle: Option<PaneId>) -> (index: usize)
        requires
            self@.wf(),
        ensures
            index == self@.chosen_pane(handle),
            index < self@.panes.len(),
    {
        match handle {
            Some(handle) => match self.index_of_pane(handle) {
                Some(index) => index,
                None => self.active_pane,
            },
            None => self.active_pane,
        }
    }

    /// The active pane.
    pub fn active_pane(&self) -> (pane: &Pane<D>)
        requires
            self@.wf(),
        ensures
            pane@ == self@.panes[self@.active_pane],
    {
        &self.panes[self.active_pane]
    }

    /// Makes the pane the active one, if it exists.
    pub fn activate_pane(&mut self, handle: PaneId)
        requires
            old(self)@.wf(),
        ensures
            final(self)@ == (WorkspaceModel {
                active_pane: old(self)@.chosen_pane(Some(handle)),
                ..old(self)@
            }),
            final(self)@.wf(),
    {
        let index: usize = self.chosen_pane(Some(handle));
        self.active_pane = index;
        assert(self@.panes =~= old(self)@.panes);
    }

    /// The pane with this identifier.
    pub fn pane(&self, handle: PaneId) -> (pane: Option<&Pane<D>>)
        requires
            self@.wf(),
        ensures
            match self@.pane_index(handle) {
                Some(i) => pane is Some && pane->0@ == self@.panes[i],
                None => pane is None,
            },
    {
        match self.index_of_pane(handle) {
            Some(index) => Some(&self.panes[index]),
            None => None,
        }
    }

    /// The pane with this identifier, to change.
    pub fn pane_mut(&mut self, handle: PaneId) -> (pane: Option<&mut Pane<D>>)
        requires
            old(self)@.wf(),
        ensures
            match pane {
                Some(pane) => {
                    &&& old(self)@.pane_index(handle) is Some
                    &&& pane@ == old(self)@.panes[old(self)@.pane_index(handle)->0]
                    &&& final(self)@ == old(self)@.with_pane(
                        old(self)@.pane_index(handle)->0,
                        final(pane)@,
                    )
                },
                None => old(self)@.pane_index(handle) is None && final(self)@ == old(self)@,
            },
    {
        match self.index_of_pane(handle) {
            Some(index) => Some(&mut self.panes[index]),
            None => None,
        }
    }

    /// The items of all panes.
    pub fn items(&self) -> (items: Vec<ItemId>)
        ensures
            items@ == all_items(self@.panes),
    {
        let mut items: Vec<ItemId> = Vec::new();
        let mut i: usize = 0;
        while i < self.panes.len()
            invariant
                i <= self.panes.len(),
                items@ == all_items(self@.panes.take(i as int)),
            decreases self.panes.len() - i,
        {
            proof {
                assert(self@.panes.take(i + 1).drop_last() =~= self@.panes.take(i as int));
                assert(self@.panes.take(i + 1).last() == self@.panes[i as int]);
            }
            let mut more = self.panes[i].items().clone();
            items.append(&mut more);
            i += 1;
        }
        assert(self@.panes.take(i as int) =~= self@.panes);
        items
    }
}

/// Changing one pane for another with its identifier keeps the workspace sound.
proof fn lemma_with_pane<D>(workspace: WorkspaceModel<D>, index: int, pane: PaneModel<D>)
    requires
        workspace.wf(),
        0 <= index < workspace.panes.len(),
        pane.wf(),
        pane.nav.pane == workspace.handle(index),
    ensures
        workspace.with_pane(index, pane).wf(),
{
}

impl<D> Workspace<D> {
    fn navigate(&mut self, index: usize, mode: NavigationMode, cx: &mut WorkspaceContext) -> (step:
        Navigation<D>)
        requires
            old(self)@.wf(),
            index < old(self)@.panes.len(),
        ensures
            final(self)@ == old(self)@.with_pane(
                index as int,
                old(self)@.walk(index as int, mode).pane,
            ),
            final(cx)@ == old(cx)@ + effects_of(
                old(self)@.handle(index as int),
                old(self)@.walk(index as int, mode).effects,
            ),
            step == old(self)@.walk(index as int, mode).step,
            final(self)@.wf(),
    {
        let mut pane_cx = ViewContext::new();
        let handle = self.panes[index].handle();
        let pane = &mut self.panes[index];
        let step = pane.navigate_history(mode, &mut pane_cx);
        proof {
            lemma_nothing(old(self)@.walk(index as int, mode).effects);
            old(self)@.panes[index as int].lemma_walk_keeps_handle(mode);
            lemma_with_pane(old(self)@, index as int, old(self)@.walk(index as int, mode).pane);
        }
        cx.record(handle, &pane_cx);
        assert(self@.panes =~= old(self)@.panes.update(
            index as int,
            old(self)@.walk(index as int, mode).pane,
        ));
        step
    }
}

impl<D> Pane<D> {
    /// Walks back through the history of the pane, or of the active one. Says which pane it
    /// is.
    pub fn go_back(
        workspace: &mut Workspace<D>,
        pane: Option<PaneId>,
        cx: &mut WorkspaceContext,
    ) -> (result: (PaneId, Navigation<D>))
        requires
            old(workspace)@.wf(),
        ensures
            ({
                let index = old(workspace)@.chosen_pane(pane);
                let outcome = old(workspace)@.walk(index, NavigationMode::GoingBack);
                let handle = old(workspace)@.handle(index);
                &&& result == (handle, outcome.step)
                &&& final(workspace)@ == old(workspace)@.with_pane(index, outcome.pane)
                &&& final(cx)@ == old(cx)@ + effects_of(handle, outcome.effects)
            }),
            final(workspace)@.wf(),
    {
        let index: usize = workspace.chosen_pane(pane);
        let handle = workspace.panes[index].handle();
        (handle, workspace.navigate(index, NavigationMode::GoingBack, cx))
    }

    /// Walks forward through the history of the pane, or of the active one. Says which pane it
    /// is.
    pub fn go_forward(
        workspace: &mut Workspace<D>,
        pane: Option<PaneId>,
        cx: &mut WorkspaceContext,
    ) -> (result: (PaneId, Navigation<D>))
        requires
            old(workspace)@.wf(),
        ensures
            ({
                let index = old(workspace)@.chosen_pane(pane);
                let outcome = old(workspace)@.walk(index, NavigationMode::GoingForward);
                let handle = old(workspace)@.handle(index);
                &&& result == (handle, outcome.step)
                &&& final(workspace)@ == old(workspace)@.with_pane(index, outcome.pane)
                &&& final(cx)@ == old(cx)@ + effects_of(handle, outcome.effects)
            }),
            final(workspace)@.wf(),
    {
        let index: usize = workspace.chosen_pane(pane);
        let handle = workspace.panes[index].handle();
        (handle, workspace.navigate(index, NavigationMode::GoingForward, cx))
    }

    /// Opens the item again that was closed last in the active pane. Says which pane it is.
    pub fn reopen_closed_item(workspace: &mut Workspace<D>, cx: &mut WorkspaceContext) -> (result: (
        PaneId,
        Navigation<D>,
    ))
        requires
            old(workspace)@.wf(),
        ensures
            ({
                let index = old(workspace)@.active_pane;
                let outcome = old(workspace)@.walk(index, NavigationMode::ReopeningClosedItem);
                let handle = old(workspace)@.handle(index);
                &&& result == (handle, outcome.step)
                &&& final(workspace)@ == old(workspace)@.with_pane(index, outcome.pane)
                &&& final(cx)@ == old(cx)@ + effects_of(handle, outcome.effects)
            }),
            final(workspace)@.wf(),
    {
        let index: usize = workspace.active_pane;
        let handle = workspace.panes[index].handle();
        (handle, workspace.navigate(index, NavigationMode::ReopeningClosedItem, cx))
    }

    /// Moves an item to an index of the same pane or of another one, which gets the focus.
    /// Does nothing where the item is not in the pane it is to be moved from, and says so.
    pub fn move_item(
        workspace: &mut Workspace<D>,
        app: &AppContext,
        from: PaneId,
        to: PaneId,
        item_id_to_move: ItemId,
        destination_index: usize,
        cx: &mut WorkspaceContext,
    ) -> (found: bool)
        requires
            old(workspace)@.wf(),
            old(workspace)@.pane_index(from) is Some,
            old(workspace)@.pane_index(to) is Some,
        ensures
            ({
                let from = old(workspace)@.pane_index(from)->0;
                let to = old(workspace)@.pane_index(to)->0;
                &&& found == old(workspace)@.panes[from].items.contains(item_id_to_move)
                &&& final(workspace)@ == old(workspace)@.moved(
                    app@,
                    from,
                    to,
                    item_id_to_move,
                    destination_index,
                )
                &&& final(cx)@ == old(cx)@ + old(workspace)@.move_effects(
                    app@,
                    from,
                    to,
                    item_id_to_move,
                    destination_index,
                )
            }),
            final(workspace)@.wf(),
    {
        match (workspace.index_of_pane(from), workspace.index_of_pane(to)) {
            (Some(from), Some(to)) => workspace.move_between(
                app,
                from,
                to,
                item_id_to_move,
                destination_index,
                cx,
            ),
            _ => false,
        }
    }
}

impl<D> Workspace<D> {
    fn move_between(
        &mut self,
        app: &AppContext,
        from: usize,
        to: usize,
        item: ItemId,
        destination_index: usize,
        cx: &mut WorkspaceContext,
    ) -> (found: bool)
        requires
            old(self)@.wf(),
            from < old(self)@.panes.len(),
            to < old(self)@.panes.len(),
        ensures
            found == old(self)@.panes[from as int].items.contains(item),
            final(self)@ == old(self)@.moved(app@, from as int, to as int, item, destination_index),
            final(cx)@ == old(cx)@ + old(self)@.move_effects(
                app@,
                from as int,
                to as int,
                item,
                destination_index,
            ),
            final(self)@.wf(),
    {
        let index: usize = match self.panes[from].index_for_item(item) {
            Some(index) => index,
            None => {
                assert(cx@ =~= old(cx)@ + seq![]);
                return false;
            },
        };
        let ghost removed = if from != to {
            effects_of(
                old(self)@.handle(from as int),
                old(self)@.panes[from as int].remove_effects(index as int, false),
            )
        } else {
            seq![]
        };
        if from != to {
            // Close the item in the previous pane.
            let mut from_cx = ViewContext::new();
            let handle = self.panes[from].handle();
            let pane = &mut self.panes[from];
            pane.remove_item(app, index, false, &mut from_cx);
            proof {
                lemma_nothing(old(self)@.panes[from as int].remove_effects(index as int, false));
            }
            cx.record(handle, &from_cx);
        }
        assert(cx@ =~= old(cx)@ + removed);
        let ghost taken = old(self)@.taken(app@, from as int, to as int, index as int);
        assert(self@.panes =~= taken.panes);

        // This leaves no duplicate of the item in the pane.
        let mut to_cx = ViewContext::new();
        let handle = self.panes[to].handle();
        let pane = &mut self.panes[to];
        pane.add_item(app, item, true, true, Some(destination_index), &mut to_cx);
        to_cx.push(Effect::FocusPane);
        proof {
            lemma_nothing(
                taken.panes[to as int].add_effects(
                    app@,
                    item,
                    true,
                    true,
                    Some(destination_index),
                ),
            );
        }
        let ghost before = cx@;
        cx.record(handle, &to_cx);
        assert(cx@ =~= old(cx)@ + (removed + effects_of(handle, to_cx@)));
        assert(self@.panes =~= taken.panes.update(
            to as int,
            taken.panes[to as int].added(app@, item, Some(destination_index)),
        ));
        true
    }
}

impl<D> WorkspaceModel<D> {
    /// That closing items of this type in the active pane begins, if it has any items.
    pub open spec fn begins_closing(
        self,
        app: AppModel,
        item_type: ItemType,
        outcome: ActionOutcome<D>,
    ) -> bool {
        let active = self.panes[self.active_pane];
        if active.items.len() == 0 {
            outcome is Done
        } else {
            &&& outcome matches ActionOutcome::Close { pane, closing }
            &&& pane == active.nav.pane
            &&& closing@.wf()
            &&& closing@ == CloseModel::start(
                app,
                active.items.filter(active.closes(app, item_type)),
            )
        }
    }

    /// What follows from an action: what becomes of it, of the workspace, and what the
    /// application has to do.
    pub open spec fn handled(
        self,
        app: AppModel,
        action: Action,
        outcome: ActionOutcome<D>,
        after: Self,
        effects: Seq<PaneEffect>,
    ) -> bool {
        let unchanged = after == self && effects == Seq::<PaneEffect>::empty();
        match action {
            Action::CloseActiveItem => unchanged && self.begins_closing(
                app,
                ItemType::Active,
                outcome,
            ),
            Action::CloseInactiveItems => unchanged && self.begins_closing(
                app,
                ItemType::Inactive,
                outcome,
            ),
            Action::CloseCleanItems => unchanged && self.begins_closing(
                app,
                ItemType::Clean,
                outcome,
            ),
            Action::CloseAllItems => unchanged && self.begins_closing(app, ItemType::All, outcome),
            Action::CloseItem(action) => unchanged && match self.pane_index(action.pane) {
                Some(index) => {
                    &&& outcome matches ActionOutcome::Close { pane, closing }
                    &&& pane == action.pane
                    &&& closing@.wf()
                    &&& closing@ == CloseModel::start(
                        app,
                        self.panes[index].items.filter(equals(action.item_id)),
                    )
                },
                None => outcome is Done,
            },
            Action::MoveItem(action) => match (
                self.pane_index(action.from),
                self.pane_index(action.to),
            ) {
                (Some(from), Some(to)) => {
                    let item = action.item_id;
                    let index = action.destination_index;
                    &&& outcome == if self.panes[from].items.contains(item) {
                        ActionOutcome::<D>::Done
                    } else {
                        ActionOutcome::<D>::ItemMissing
                    }
                    &&& after == self.moved(app, from, to, item, index)
                    &&& effects == self.move_effects(app, from, to, item, index)
                },
                _ => unchanged && outcome is Done,
            },
            Action::ReopenClosedItem => self.walk_follows(
                self.active_pane,
                NavigationMode::ReopeningClosedItem,
                outcome,
                after,
                effects,
            ),
            Action::GoBack(action) => self.walk_follows(
                self.chosen_pane(action.pane),
                NavigationMode::GoingBack,
                outcome,
                after,
                effects,
            ),
            Action::GoForward(action) => self.walk_follows(
                self.chosen_pane(action.pane),
                NavigationMode::GoingForward,
                outcome,
                after,
                effects,
            ),
            _ => unchanged && outcome is Unhandled,
        }
    }

    /// That a walk through the history of the pane at `index` has begun.
    pub open spec fn walk_follows(
        self,
        index: int,
        mode: NavigationMode,
        outcome: ActionOutcome<D>,
        after: Self,
        effects: Seq<PaneEffect>,
    ) -> bool {
        let walk = self.walk(index, mode);
        let pane = self.handle(index);
        &&& outcome == ActionOutcome::Navigate { pane, mode, step: walk.step }
        &&& after == self.with_pane(index, walk.pane)
        &&& effects == effects_of(pane, walk.effects)
    }
}

impl<D> Workspace<D> {
    fn close_in_active_pane(&self, app: &AppContext, item_type: ItemType) -> (outcome:
        ActionOutcome<D>)
        requires
            self@.wf(),
        ensures
            self@.begins_closing(app@, item_type, outcome),
    {
        let pane = self.active_pane();
        let closing = match item_type {
            ItemType::Active => pane.close_active_item(app),
            ItemType::Inactive => pane.close_inactive_items(app),
            ItemType::Clean => pane.close_clean_items(app),
            ItemType::All => pane.close_all_items(app),
        };
        match closing {
            Some(closing) => ActionOutcome::Close { pane: pane.handle(), closing },
            None => ActionOutcome::Done,
        }
    }

    /// Does what an action asks of the workspace.
    pub fn handle_action(&mut self, app: &AppContext, action: Action, cx: &mut WorkspaceContext) -> (
    outcome: ActionOutcome<D>)
        requires
            old(self)@.wf(),
        ensures
            exists|effects: Seq<PaneEffect>|
                #![trigger old(cx)@ + effects]
                final(cx)@ == old(cx)@ + effects && old(self)@.handled(
                    app@,
                    action,
                    outcome,
                    final(self)@,
                    effects,
                ),
            final(self)@.wf(),
    {
        assert(cx@ =~= old(cx)@ + Seq::<PaneEffect>::empty());
        match action {
            Action::CloseActiveItem => self.close_in_active_pane(app, ItemType::Active),
            Action::CloseInactiveItems => self.close_in_active_pane(app, ItemType::Inactive),
            Action::CloseCleanItems => self.close_in_active_pane(app, ItemType::Clean),
            Action::CloseAllItems => self.close_in_active_pane(app, ItemType::All),
            Action::CloseItem(action) => match self.pane(action.pane) {
                Some(pane) => ActionOutcome::Close {
                    pane: action.pane,
                    closing: pane.close_item(app, action.item_id),
                },
                None => ActionOutcome::Done,
            },
            Action::MoveItem(MoveItem { item_id, from, to, destination_index }) => {
                if self.pane(from).is_none() || self.pane(to).is_none() {
                    return ActionOutcome::Done;
                }
                if Pane::move_item(self, app, from, to, item_id, destination_index, cx) {
                    ActionOutcome::Done
                } else {
                    ActionOutcome::ItemMissing
                }
            },
            Action::ReopenClosedItem => {
                let (pane, step) = Pane::reopen_closed_item(self, cx);
                ActionOutcome::Navigate { pane, mode: NavigationMode::ReopeningClosedItem, step }
            },
            Action::GoBack(action) => {
                let (pane, step) = Pane::go_back(self, action.pane, cx);
                ActionOutcome::Navigate { pane, mode: NavigationMode::GoingBack, step }
            },
            Action::GoForward(action) => {
                let (pane, step) = Pane::go_forward(self, action.pane, cx);
                ActionOutcome::Navigate { pane, mode: NavigationMode::GoingForward, step }
            },
            _ => ActionOutcome::Unhandled,
        }
    }
}

} // verus!

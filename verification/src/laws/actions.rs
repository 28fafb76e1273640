//! Laws of what each action does to a pane and to the workspace.

use crate::actions::{handlers, Action, ActivateItem, CloseItem, DeployDockMenu, DeployNewMenu, DeploySplitMenu, GoBack, GoForward, MoveItem};
use crate::context::{AppModel, ItemId, PaneId};
use crate::effect::{Effect, Event, SplitDirection, TabBarContextMenuKind};
use crate::ids::equals;
use crate::laws::asking::law_selection_by_type;
use crate::laws::leaving::{law_items_are_found_first, stands_first};
use crate::nav_history::NavigationMode;
use crate::pane::{CloseModel, PaneModel, TabBarContextMenu};
use crate::workspace::{all_items, effects_of, is_pane, ActionOutcome, PaneEffect, WorkspaceModel};
use vstd::prelude::*;

verus! {

/// The next item is the one to the right, or the first one after the last. The previous one is the
/// one to the left, or the last one before the first.
pub proof fn law_neighbours<D>(pane: PaneModel<D>)
    requires
        pane.wf(),
        pane.items.len() > 0,
    ensures
        pane.next_index() == (if pane.active_item_index == pane.items.len() - 1 {
            0
        } else {
            pane.active_item_index + 1
        }),
        pane.prev_index() == (if pane.active_item_index == 0 {
            pane.items.len() - 1
        } else {
            pane.active_item_index - 1
        }),
{
}

/// Every action to activate an item activates the one that it names, with the pane and with focus.
pub proof fn law_actions_to_activate<D>(pane: PaneModel<D>, index: usize)
    requires
        pane.wf(),
        pane.items.len() > 0,
    ensures
        ({
            let active = pane.active_item_index;
            let last = pane.items.len() - 1;
            let next = if active == last {
                0
            } else {
                active + 1
            };
            let previous = if active == 0 {
                last
            } else {
                active - 1
            };
            let named = Action::ActivateItem(ActivateItem(index));
            &&& pane.acted(named) == pane.activated(index as int)
            &&& pane.act_effects(named) == pane.activate_effects(index as int, true, true)
            &&& pane.acted(Action::ActivateNextItem) == pane.activated(next)
            &&& pane.act_effects(Action::ActivateNextItem) == pane.activate_effects(
                next,
                true,
                true,
            )
            &&& pane.acted(Action::ActivatePrevItem) == pane.activated(previous)
            &&& pane.act_effects(Action::ActivatePrevItem) == pane.activate_effects(
                previous,
                true,
                true,
            )
            &&& pane.acted(Action::ActivateLastItem) == pane.activated(last)
            &&& pane.act_effects(Action::ActivateLastItem) == pane.activate_effects(
                last,
                true,
                true,
            )
        }),
{
    law_neighbours(pane);
}

/// The actions to split a pane tell its observers the direction, and change nothing.
pub proof fn law_actions_to_split<D>(pane: PaneModel<D>)
    ensures
        pane.acted(Action::SplitLeft) == pane,
        pane.acted(Action::SplitRight) == pane,
        pane.acted(Action::SplitUp) == pane,
        pane.acted(Action::SplitDown) == pane,
        pane.act_effects(Action::SplitLeft) == seq![
            Effect::Emit(Event::Split(SplitDirection::Left)),
        ],
        pane.act_effects(Action::SplitRight) == seq![
            Effect::Emit(Event::Split(SplitDirection::Right)),
        ],
        pane.act_effects(Action::SplitUp) == seq![Effect::Emit(Event::Split(SplitDirection::Up))],
        pane.act_effects(Action::SplitDown) == seq![
            Effect::Emit(Event::Split(SplitDirection::Down)),
        ],
{
}

/// The actions to open a menu open it, and the menu stays the same view. Nothing else changes.
pub proof fn law_actions_to_open_menus<D>(pane: PaneModel<D>, kind: TabBarContextMenuKind)
    ensures
        ({
            let action = match kind {
                TabBarContextMenuKind::Split => Action::DeploySplitMenu(DeploySplitMenu),
                TabBarContextMenuKind::Dock => Action::DeployDockMenu(DeployDockMenu),
                TabBarContextMenuKind::New => Action::DeployNewMenu(DeployNewMenu),
            };
            &&& pane.acted(action) == PaneModel {
                menu: TabBarContextMenu { kind, handle: pane.menu.handle },
                ..pane
            }
            &&& pane.acted(action) == pane.with_menu(kind)
            &&& pane.act_effects(action) == seq![Effect::ShowMenu(kind)]
        }),
{
}

/// An action that is not for panes does nothing to a pane.
pub proof fn law_other_actions_leave_a_pane_alone<D>(pane: PaneModel<D>, action: Action)
    requires
        !PaneModel::<D>::handles(action),
    ensures
        pane.acted(action) == pane,
        pane.act_effects(action).len() == 0,
{
}

/// An action that is not for the workspace does nothing to it. Neither does one that names a pane that
/// does not exist, except that a walk is begun in the active pane then.
pub proof fn law_other_actions_leave_the_workspace_alone<D>(
    workspace: WorkspaceModel<D>,
    app: AppModel,
    action: Action,
    outcome: ActionOutcome<D>,
    after: WorkspaceModel<D>,
    effects: Seq<PaneEffect>,
)
    requires
        workspace.wf(),
        workspace.handled(app, action, outcome, after, effects),
    ensures
        outcome is Unhandled ==> after == workspace && effects.len() == 0,
        PaneModel::<D>::handles(action) ==> outcome is Unhandled,
        action is NewFile || action is NewTerminal || action is NewSearch || action
            is AnchorDockRight || action is AnchorDockBottom || action is ExpandDock || action
            is HideDock ==> outcome is Unhandled,
        action matches Action::CloseItem(close) ==> (forall|i: int|
            0 <= i < workspace.panes.len() ==> (#[trigger] workspace.panes[i]).nav.pane
                != close.pane) ==> outcome is Done && after == workspace && effects.len() == 0,
        action matches Action::MoveItem(moved) ==> (forall|i: int|
            0 <= i < workspace.panes.len() ==> (#[trigger] workspace.panes[i]).nav.pane
                != moved.from) || (forall|i: int|
            0 <= i < workspace.panes.len() ==> (#[trigger] workspace.panes[i]).nav.pane
                != moved.to) ==> outcome is Done && after == workspace && effects.len() == 0,
{
    if let Action::CloseItem(close) = action {
        law_panes_are_found(workspace, close.pane);
    }
    if let Action::MoveItem(moved) = action {
        law_panes_are_found(workspace, moved.from);
        law_panes_are_found(workspace, moved.to);
    }
}

/// The actions that begin a task are those to close items.
pub proof fn law_tasks(i: int)
    requires
        0 <= i < handlers().len(),
    ensures
        handlers()[i].target is WorkspaceTask <==> {
            ||| handlers()[i].kind is CloseActiveItem
            ||| handlers()[i].kind is CloseInactiveItems
            ||| handlers()[i].kind is CloseCleanItems
            ||| handlers()[i].kind is CloseAllItems
            ||| handlers()[i].kind is CloseItem
        },
{
}

/// A pane that is looked for by its identifier is found where it is, and nowhere if there is none.
pub proof fn law_panes_are_found<D>(workspace: WorkspaceModel<D>, handle: PaneId)
    requires
        workspace.wf(),
    ensures
        match workspace.pane_index(handle) {
            Some(i) => 0 <= i < workspace.panes.len() && workspace.panes[i].nav.pane == handle
                && workspace.chosen_pane(Some(handle)) == i,
            None => {
                &&& forall|i: int|
                    0 <= i < workspace.panes.len() ==> (#[trigger] workspace.panes[i]).nav.pane
                        != handle
                &&& workspace.chosen_pane(Some(handle)) == workspace.active_pane
            },
        },
        workspace.chosen_pane(None) == workspace.active_pane,
{
    if workspace.pane_index(handle) is None {
        assert forall|i: int| 0 <= i < workspace.panes.len() implies (
        #[trigger] workspace.panes[i]).nav.pane != handle by {
            assert(!is_pane(workspace.panes, handle, i));
        }
    }
}

/// A pane is found by its own identifier.
pub proof fn law_a_pane_is_found_by_its_identifier<D>(workspace: WorkspaceModel<D>, i: int)
    requires
        workspace.wf(),
        0 <= i < workspace.panes.len(),
    ensures
        workspace.pane_index(workspace.panes[i].nav.pane) == Some(i),
{
    let handle = workspace.panes[i].nav.pane;
    assert(is_pane(workspace.panes, handle, i));
    let j = workspace.pane_index(handle)->0;
    assert(is_pane(workspace.panes, handle, j));
    if j < i {
        assert(workspace.panes[j].nav.pane != workspace.panes[i].nav.pane);
    } else if i < j {
        assert(workspace.panes[i].nav.pane != workspace.panes[j].nav.pane);
    }
}

/// The items of the workspace are those of its panes, one pane after the other.
pub proof fn law_items_of_the_workspace<D>(panes: Seq<PaneModel<D>>, pane: PaneModel<D>)
    ensures
        all_items(Seq::<PaneModel<D>>::empty()).len() == 0,
        all_items(panes.push(pane)) == all_items(panes) + pane.items,
{
    assert(panes.push(pane).drop_last() =~= panes);
}

/// An item is in the workspace exactly if it is in one of its panes.
pub proof fn law_an_item_of_the_workspace_is_in_a_pane<D>(
    panes: Seq<PaneModel<D>>,
    item: ItemId,
)
    ensures
        all_items(panes).contains(item) <==> exists|i: int|
            0 <= i < panes.len() && (#[trigger] panes[i]).items.contains(item),
    decreases panes.len(),
{
    if panes.len() > 0 {
        let fewer = panes.drop_last();
        let last = panes.last();
        law_an_item_of_the_workspace_is_in_a_pane(fewer, item);
        let first = all_items(fewer);
        let all = first + last.items;
        if all.contains(item) {
            let k = choose|k: int| 0 <= k < all.len() && all[k] == item;
            if k < first.len() {
                assert(first[k] == item);
                let i = choose|i: int|
                    0 <= i < fewer.len() && (#[trigger] fewer[i]).items.contains(item);
                assert(panes[i].items.contains(item));
            } else {
                assert(last.items[k - first.len()] == item);
                assert(panes[panes.len() - 1].items.contains(item));
            }
        }
        if exists|i: int| 0 <= i < panes.len() && (#[trigger] panes[i]).items.contains(item) {
            let i = choose|i: int| 0 <= i < panes.len() && (#[trigger] panes[i]).items.contains(item);
            if i < fewer.len() {
                assert(fewer[i].items.contains(item));
                let k = choose|k: int| 0 <= k < first.len() && first[k] == item;
                assert(all[k] == item);
            } else {
                let k = choose|k: int| 0 <= k < last.items.len() && last.items[k] == item;
                assert(all[first.len() + k] == item);
            }
        }
    }
}

/// What is recorded for a pane is recorded for this pane, in order.
pub proof fn law_effects_of_a_pane(pane: PaneId, effects: Seq<Effect>)
    ensures
        effects_of(pane, effects).len() == effects.len(),
        forall|k: int|
            0 <= k < effects.len() ==> #[trigger] effects_of(pane, effects)[k] == (PaneEffect {
                pane,
                effect: effects[k],
            }),
{
}

/// Moving an item takes it out of the one pane as closing it would, and adds it to the other one as
/// adding it at the destination would. Within one pane it is only added again. The other pane gets
/// the focus in the end, and no third pane changes.
pub proof fn law_moving_an_item<D>(
    workspace: WorkspaceModel<D>,
    app: AppModel,
    from: int,
    to: int,
    item: ItemId,
    destination_index: usize,
    index: int,
)
    requires
        workspace.wf(),
        0 <= from < workspace.panes.len(),
        0 <= to < workspace.panes.len(),
        stands_first(workspace.panes[from].items, item, index),
    ensures
        ({
            let after = workspace.moved(app, from, to, item, destination_index);
            let effects = workspace.move_effects(app, from, to, item, destination_index);
            let source = workspace.panes[from];
            let target = workspace.panes[to];
            let added = target.add_effects(app, item, true, true, Some(destination_index));
            let arrival = effects_of(target.nav.pane, added).push(
                PaneEffect { pane: target.nav.pane, effect: Effect::FocusPane },
            );
            &&& after.active_pane == workspace.active_pane
            &&& after.panes.len() == workspace.panes.len()
            &&& after.panes[to] == target.added(app, item, Some(destination_index))
            &&& from != to ==> after.panes[from] == source.removed(app, index)
            &&& forall|k: int|
                0 <= k < workspace.panes.len() && k != from && k != to
                    ==> #[trigger] after.panes[k] == workspace.panes[k]
            &&& from != to ==> effects == effects_of(
                source.nav.pane,
                source.remove_effects(index, false),
            ) + arrival
            &&& from == to ==> effects == arrival
        }),
{
    let source = workspace.panes[from];
    let target = workspace.panes[to];
    law_items_are_found_first(source, item);
    let found = source.index_for_item(item)->0;
    assert(source.items.contains(source.items[index]));
    if found < index {
        assert(source.items[found] != item);
    } else if index < found {
        assert(source.items[index] != item);
    }
    let added = target.add_effects(app, item, true, true, Some(destination_index));
    let arrival = effects_of(target.nav.pane, added).push(
        PaneEffect { pane: target.nav.pane, effect: Effect::FocusPane },
    );
    assert(effects_of(target.nav.pane, added.push(Effect::FocusPane)) =~= arrival);
    let effects = workspace.move_effects(app, from, to, item, destination_index);
    if from == to {
        assert(effects =~= arrival);
    }
}

/// An item that is not in the pane is not moved.
pub proof fn law_a_missing_item_is_not_moved<D>(
    workspace: WorkspaceModel<D>,
    app: AppModel,
    from: int,
    to: int,
    item: ItemId,
    destination_index: usize,
)
    requires
        !workspace.panes[from].items.contains(item),
    ensures
        workspace.moved(app, from, to, item, destination_index) == workspace,
        workspace.move_effects(app, from, to, item, destination_index).len() == 0,
{
    law_items_are_found_first(workspace.panes[from], item);
}

/// That an action begins to close these items of the pane, and does nothing else.
pub open spec fn begins<D>(
    outcome: ActionOutcome<D>,
    pane: PaneModel<D>,
    app: AppModel,
    items: Seq<ItemId>,
) -> bool {
    &&& outcome matches ActionOutcome::Close { pane: handle, closing }
    &&& handle == pane.nav.pane
    &&& closing@ == CloseModel::start(app, items)
}

/// The actions to close items of the active pane begin to close the active one, all others, those
/// without edits, or all. They change nothing yet. In an empty pane they do nothing.
pub proof fn law_actions_to_close<D>(
    workspace: WorkspaceModel<D>,
    app: AppModel,
    action: Action,
    outcome: ActionOutcome<D>,
    after: WorkspaceModel<D>,
    effects: Seq<PaneEffect>,
)
    requires
        workspace.wf(),
        workspace.handled(app, action, outcome, after, effects),
        action is CloseActiveItem || action is CloseInactiveItems || action is CloseCleanItems
            || action is CloseAllItems,
    ensures
        after == workspace,
        effects.len() == 0,
        ({
            let pane = workspace.panes[workspace.active_pane];
            let active = pane.items[pane.active_item_index];
            if pane.items.len() == 0 {
                outcome is Done
            } else {
                &&& action is CloseActiveItem ==> begins(
                    outcome,
                    pane,
                    app,
                    pane.items.filter(|id: ItemId| id == active),
                )
                &&& action is CloseInactiveItems ==> begins(
                    outcome,
                    pane,
                    app,
                    pane.items.filter(|id: ItemId| id != active),
                )
                &&& action is CloseCleanItems ==> begins(
                    outcome,
                    pane,
                    app,
                    pane.items.filter(
                        |id: ItemId| !(app.items.contains_key(id) && app.items[id].is_dirty),
                    ),
                )
                &&& action is CloseAllItems ==> begins(outcome, pane, app, pane.items)
            }
        }),
{
    let pane = workspace.panes[workspace.active_pane];
    if pane.items.len() > 0 {
        law_selection_by_type(pane, app);
    }
}

/// The action to close an item begins to close it in the pane that it names, if that exists.
pub proof fn law_action_to_close_an_item<D>(
    workspace: WorkspaceModel<D>,
    app: AppModel,
    item_id: ItemId,
    index: int,
    outcome: ActionOutcome<D>,
    after: WorkspaceModel<D>,
    effects: Seq<PaneEffect>,
)
    requires
        workspace.wf(),
        0 <= index < workspace.panes.len(),
        workspace.handled(
            app,
            Action::CloseItem(CloseItem { item_id, pane: workspace.panes[index].nav.pane }),
            outcome,
            after,
            effects,
        ),
    ensures
        after == workspace,
        effects.len() == 0,
        begins(
            outcome,
            workspace.panes[index],
            app,
            workspace.panes[index].items.filter(|id: ItemId| id == item_id),
        ),
{
    law_a_pane_is_found_by_its_identifier(workspace, index);
    assert(equals(item_id) =~= (|id: ItemId| id == item_id));
}

/// The action to move an item moves it, or says that it is missing.
pub proof fn law_action_to_move_an_item<D>(
    workspace: WorkspaceModel<D>,
    app: AppModel,
    item_id: ItemId,
    from: int,
    to: int,
    destination_index: usize,
    outcome: ActionOutcome<D>,
    after: WorkspaceModel<D>,
    effects: Seq<PaneEffect>,
)
    requires
        workspace.wf(),
        0 <= from < workspace.panes.len(),
        0 <= to < workspace.panes.len(),
        workspace.handled(
            app,
            Action::MoveItem(
                MoveItem {
                    item_id,
                    from: workspace.panes[from].nav.pane,
                    to: workspace.panes[to].nav.pane,
                    destination_index,
                },
            ),
            outcome,
            after,
            effects,
        ),
    ensures
        after == workspace.moved(app, from, to, item_id, destination_index),
        effects == workspace.move_effects(app, from, to, item_id, destination_index),
        workspace.panes[from].items.contains(item_id) ==> outcome is Done,
        !workspace.panes[from].items.contains(item_id) ==> outcome is ItemMissing,
{
    law_a_pane_is_found_by_its_identifier(workspace, from);
    law_a_pane_is_found_by_its_identifier(workspace, to);
}

/// The actions to walk the history begin a walk in the pane that is meant: the one that is named if
/// it exists, and else the active one, which is also the one to reopen an item in. No other pane
/// changes.
pub proof fn law_actions_to_walk<D>(
    workspace: WorkspaceModel<D>,
    app: AppModel,
    action: Action,
    named: Option<PaneId>,
    index: int,
    outcome: ActionOutcome<D>,
    after: WorkspaceModel<D>,
    effects: Seq<PaneEffect>,
)
    requires
        workspace.wf(),
        workspace.handled(app, action, outcome, after, effects),
        action == Action::GoBack(GoBack { pane: named }) || action == Action::GoForward(
            GoForward { pane: named },
        ) || action == Action::ReopenClosedItem && named is None,
        0 <= index < workspace.panes.len(),
        named == Some(workspace.panes[index].nav.pane) || index == workspace.active_pane && (
        named matches Some(handle) ==> forall|i: int|
            0 <= i < workspace.panes.len() ==> (#[trigger] workspace.panes[i]).nav.pane != handle),
    ensures
        ({
            let mode = if action is GoBack {
                NavigationMode::GoingBack
            } else if action is GoForward {
                NavigationMode::GoingForward
            } else {
                NavigationMode::ReopeningClosedItem
            };
            let walk = workspace.panes[index].walk_begun(mode);
            let pane = workspace.panes[index].nav.pane;
            &&& outcome == ActionOutcome::Navigate { pane, mode, step: walk.step }
            &&& after.panes == workspace.panes.update(index, walk.pane)
            &&& after.active_pane == workspace.active_pane
            &&& effects == effects_of(pane, walk.effects)
        }),
{
    match named {
        Some(handle) => {
            law_panes_are_found(workspace, handle);
            if handle == workspace.panes[index].nav.pane {
                law_a_pane_is_found_by_its_identifier(workspace, index);
            }
        },
        None => {},
    }
}

} // verus!

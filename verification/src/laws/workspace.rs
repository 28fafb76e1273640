//! Laws of moving items between panes, and of who handles which action.

use crate::actions::{handlers, kind_of, Action, ActionHandler, ActionTarget};
use crate::context::{AppModel, ItemId};
use crate::ids::{equals, lemma_first_index};
use crate::laws::closing::law_closing_one_item;
use crate::laws::items::{law_added_item_is_active, views_distinct};
use crate::pane::{CloseModel, PaneModel};
use crate::workspace::{is_pane, ActionOutcome, PaneEffect, WorkspaceModel};
use vstd::prelude::*;

verus! {

/// An item that is moved to another pane is gone from the one and active in the other. No third
/// pane changes.
pub proof fn law_moving_between_panes<D>(
    workspace: WorkspaceModel<D>,
    app: AppModel,
    from: int,
    to: int,
    item: ItemId,
    destination_index: usize,
)
    requires
        workspace.wf(),
        0 <= from < workspace.panes.len(),
        0 <= to < workspace.panes.len(),
        from != to,
        workspace.panes[from].items.no_duplicates(),
        workspace.panes[from].items.contains(item),
    ensures
        ({
            let moved = workspace.moved(app, from, to, item, destination_index);
            &&& !moved.panes[from].items.contains(item)
            &&& moved.panes[from].items.len() == workspace.panes[from].items.len() - 1
            &&& moved.panes[to].active_item() matches Some(active) && app.is_same_item(active, item)
            &&& moved.panes.len() == workspace.panes.len()
            &&& forall|k: int|
                0 <= k < workspace.panes.len() && k != from && k != to
                    ==> #[trigger] moved.panes[k] == workspace.panes[k]
        }),
{
    let pane = workspace.panes[from];
    lemma_first_index(pane.items, equals(item));
    let i = choose|i: int| 0 <= i < pane.items.len() && pane.items[i] == item;
    assert(equals(item)(pane.items[i]));
    let closing = CloseModel {
        items_to_close: seq![item],
        asked: Set::empty(),
        next: 0,
        failed: false,
    };
    law_closing_one_item(pane, app, closing);
    law_added_item_is_active(workspace.panes[to], app, item, Some(destination_index));
}

/// An item that is moved within its pane ends up at the destination, or at the end where that
/// is past the end, and is active. The others keep their order.
pub proof fn law_moving_within_a_pane<D>(
    workspace: WorkspaceModel<D>,
    app: AppModel,
    at: int,
    index: int,
    destination_index: usize,
)
    requires
        workspace.wf(),
        0 <= at < workspace.panes.len(),
        views_distinct(app, workspace.panes[at].items),
        0 <= index < workspace.panes[at].items.len(),
    ensures
        ({
            let pane = workspace.panes[at];
            let item = pane.items[index];
            let moved = workspace.moved(app, at, at, item, destination_index).panes[at];
            let last = pane.items.len() - 1;
            let target = if destination_index <= last {
                destination_index as int
            } else {
                last
            };
            &&& moved.active_item() == Some(item)
            &&& moved.active_item_index == target
            &&& moved.items == pane.items.remove(index).insert(target, item)
        }),
{
    let pane = workspace.panes[at];
    let item = pane.items[index];
    assert forall|j: int| 0 <= j < index implies !crate::pane::items::same_item(app, item)(
        #[trigger] pane.items[j],
    ) by {}
    assert(crate::ids::is_first(pane.items, crate::pane::items::same_item(app, item), index));
    crate::ids::lemma_first_index_is(
        pane.items,
        crate::pane::items::same_item(app, item),
        index,
    );
    lemma_first_index(pane.items, equals(item));
    assert(equals(item)(pane.items[index]));
    law_added_item_is_active(pane, app, item, Some(destination_index));
    let last = pane.items.len() - 1;
    let target = if destination_index <= last {
        destination_index as int
    } else {
        last
    };
    if pane.stays(index, Some(destination_index)) {
        assert(pane.items.remove(index).insert(index, item) =~= pane.items);
    }
}

/// Taking a pane out leaves the others in their order, no pane with its identifier, and the
/// active one active, unless it is that one, which the last of the others then takes over from.
pub proof fn law_removing_a_pane<D>(workspace: WorkspaceModel<D>, index: int)
    requires
        workspace.wf(),
        0 <= index < workspace.panes.len(),
        workspace.panes.len() > 1,
    ensures
        ({
            let after = workspace.without_pane(index);
            &&& after.panes == workspace.panes.remove(index)
            &&& after.pane_index(workspace.handle(index)) is None
            &&& after.handle(after.active_pane) == if index == workspace.active_pane {
                after.handle(after.panes.len() - 1)
            } else {
                workspace.handle(workspace.active_pane)
            }
        }),
{
    let after = workspace.without_pane(index);
    let handle = workspace.handle(index);
    assert forall|i: int| !is_pane(after.panes, handle, i) by {
        if is_pane(after.panes, handle, i) {
            let i0 = if i < index {
                i
            } else {
                i + 1
            };
            assert(after.panes[i] == workspace.panes[i0]);
            if i0 < index {
                assert(workspace.panes[i0].nav.pane != workspace.panes[index].nav.pane);
            } else {
                assert(workspace.panes[index].nav.pane != workspace.panes[i0].nav.pane);
            }
        }
    }
}

/// No kind of action is registered twice.
pub proof fn law_actions_are_registered_once(i: int, j: int)
    requires
        0 <= i < j < handlers().len(),
    ensures
        handlers()[i].kind != handlers()[j].kind,
{
}

/// An action is registered for panes exactly if a pane acts on it.
pub proof fn law_panes_handle_their_actions<D>(action: Action)
    ensures
        PaneModel::<D>::handles(action) <==> handlers().contains(
            ActionHandler { kind: kind_of(action), target: ActionTarget::Pane },
        ),
{
    let registered = handlers();
    let wanted = ActionHandler { kind: kind_of(action), target: ActionTarget::Pane };
    assert(registered[0].kind == kind_of(action) || registered[1].kind == kind_of(action)
        || registered[2].kind == kind_of(action) || registered[3].kind == kind_of(action)
        || registered[10].kind == kind_of(action) || registered[11].kind == kind_of(action)
        || registered[12].kind == kind_of(action) || registered[13].kind == kind_of(action)
        || registered[14].kind == kind_of(action) || registered[15].kind == kind_of(action)
        || registered[16].kind == kind_of(action) || !PaneModel::<D>::handles(action));
}

/// An action is registered for the workspace exactly if the workspace acts on it.
pub proof fn law_the_workspace_handles_its_actions<D>(
    workspace: WorkspaceModel<D>,
    app: AppModel,
    action: Action,
    outcome: ActionOutcome<D>,
    after: WorkspaceModel<D>,
    effects: Seq<PaneEffect>,
)
    requires
        workspace.handled(app, action, outcome, after, effects),
    ensures
        !(outcome is Unhandled) <==> (handlers().contains(
            ActionHandler { kind: kind_of(action), target: ActionTarget::Workspace },
        ) || handlers().contains(
            ActionHandler { kind: kind_of(action), target: ActionTarget::WorkspaceTask },
        )),
{
    let registered = handlers();
    assert(registered[4].kind == kind_of(action) || registered[5].kind == kind_of(action)
        || registered[6].kind == kind_of(action) || registered[7].kind == kind_of(action)
        || registered[8].kind == kind_of(action) || registered[9].kind == kind_of(action)
        || registered[17].kind == kind_of(action) || registered[18].kind == kind_of(action)
        || registered[19].kind == kind_of(action) || outcome is Unhandled);
}

} // verus!

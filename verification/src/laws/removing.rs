//! Laws of who takes over from an item that is removed, and of what is remembered of it.

use crate::context::{AppModel, ItemId, ProjectPath};
use crate::effect::{Effect, Event};
use crate::ids::{differs, equals, lemma_filter_contains, lemma_first_index, lemma_first_index_is};
use crate::laws::leaving::{
    answered, law_recording_leaves_the_stack_that_is_read, law_walk_to_an_item_that_is_gone, law_where_a_place_is_recorded,
    leaves_in_mode, stands_first, with_one_more,
};
use crate::nav_history::{NavModel, NavigationEntry, NavigationMode};
use crate::pane::{Navigation, PaneModel};
use vstd::prelude::*;

verus! {

/// The items that were activated, without one of them.
pub open spec fn activated_besides(history: Seq<ItemId>, item: ItemId) -> Seq<ItemId> {
    history.filter(|id: ItemId| id != item)
}

/// Whether this is the item that takes over from the active one when that is removed: the one that
/// was activated last before it if the pane has it, or else the one to the left, or the removed
/// one itself, for the moment, where there is none to the left.
pub open spec fn takes_over<D>(pane: PaneModel<D>, index: int) -> bool {
    let removed = pane.active_item_index;
    let others = activated_besides(pane.activation_history, pane.items[removed]);
    if others.len() > 0 && pane.items.contains(others.last()) {
        stands_first(pane.items, others.last(), index)
    } else if removed > 0 {
        index == removed - 1
    } else {
        index == 0
    }
}

/// What is remembered of the removed item's file. What is remembered of others stays.
pub open spec fn remembered<D>(nav: NavModel<D>, app: AppModel, item: ItemId) -> NavModel<D> {
    NavModel {
        mode: NavigationMode::Normal,
        paths: if app.items.contains_key(item) && app.items[item].project_path is Some {
            nav.paths.insert(item, app.items[item].project_path->0)
        } else {
            nav.paths.remove(item)
        },
        ..nav
    }
}

/// What every removal has the application do in the end: observers are told; if the pane is empty
/// then, the item is told that it is left, the toolbar shows nothing and observers are told of
/// that too; and the item is told that it is closed.
pub open spec fn farewell(item_id: ItemId, mode: NavigationMode, is_last: bool) -> Seq<Effect> {
    let emptied = if is_last {
        seq![
            Effect::Deactivated { item_id, mode },
            Effect::UpdateToolbar { active_item: None },
            Effect::Emit(Event::Remove),
        ]
    } else {
        seq![]
    };
    seq![Effect::Emit(Event::RemoveItem { item_id })] + emptied + seq![
        Effect::Deactivated { item_id, mode: NavigationMode::ClosingItem },
        Effect::Notify,
    ]
}

/// Removing an item that is not active takes it out of the row, and out of those that were
/// activated, and remembers the path of its file. The active item stays active, and nothing else
/// changes.
pub proof fn law_removing_another_item<D>(
    pane: PaneModel<D>,
    app: AppModel,
    index: int,
    activate_pane: bool,
)
    requires
        pane.wf(),
        0 <= index < pane.items.len(),
        index != pane.active_item_index,
    ensures
        ({
            let item = pane.items[index];
            &&& pane.removed(app, index) == PaneModel {
                items: pane.items.remove(index),
                active_item_index: if index < pane.active_item_index {
                    pane.active_item_index - 1
                } else {
                    pane.active_item_index
                },
                activation_history: activated_besides(pane.activation_history, item),
                nav: remembered(pane.nav, app, item),
                ..pane
            }
            &&& pane.remove_effects(index, activate_pane) == farewell(item, pane.nav.mode, false)
        }),
{
    let item = pane.items[index];
    assert(differs(item) =~= (|id: ItemId| id != item));
    assert(pane.remove_effects(index, activate_pane) =~= farewell(item, pane.nav.mode, false));
}

/// Removing the active item first activates the one that takes over, as activating it would, and
/// then takes the removed one out of the row.
pub proof fn law_removing_the_active_one<D>(
    pane: PaneModel<D>,
    app: AppModel,
    successor: int,
    activate_pane: bool,
)
    requires
        pane.wf(),
        pane.items.len() > 0,
        takes_over(pane, successor),
    ensures
        ({
            let index = pane.active_item_index;
            let item = pane.items[index];
            let after = pane.removed(app, index);
            let others = activated_besides(pane.activation_history, item);
            let rest = if others.len() > 0 {
                others.drop_last()
            } else {
                others
            };
            &&& after == PaneModel {
                items: pane.items.remove(index),
                active_item_index: if index < successor {
                    successor - 1
                } else {
                    successor
                },
                autoscroll: true,
                activation_history: activated_besides(rest, pane.items[successor]).push(
                    pane.items[successor],
                ),
                nav: remembered(pane.nav, app, item),
                ..pane
            }
            &&& pane.remove_effects(index, activate_pane) == pane.activate_effects(
                successor,
                activate_pane,
                activate_pane,
            ) + farewell(item, pane.nav.mode, pane.items.len() == 1)
        }),
{
    let index = pane.active_item_index;
    let item = pane.items[index];
    assert(differs(item) =~= (|id: ItemId| id != item));
    let others = activated_besides(pane.activation_history, item);
    if others.len() > 0 {
        lemma_first_index(pane.items, equals(others.last()));
        lemma_filter_contains(pane.activation_history, differs(item), others.last());
        if pane.items.contains(others.last()) {
            assert(crate::ids::is_first(pane.items, equals(others.last()), successor));
            lemma_first_index_is(pane.items, equals(others.last()), successor);
        } else {
            crate::laws::leaving::law_items_are_found_first(pane, others.last());
        }
    }
    assert(pane.successor_index(index) == successor);
    let shown = pane.items[successor];
    assert(differs(shown) =~= (|id: ItemId| id != shown));
    let activation = pane.activate_effects(successor, activate_pane, activate_pane);
    assert(pane.remove_effects(index, activate_pane) =~= activation + farewell(
        item,
        pane.nav.mode,
        pane.items.len() == 1,
    ));
}

/// Some item always takes over from the active one.
pub proof fn law_some_item_takes_over<D>(pane: PaneModel<D>) -> (successor: int)
    requires
        pane.wf(),
        pane.items.len() > 0,
    ensures
        takes_over(pane, successor),
        0 <= successor < pane.items.len(),
{
    let index = pane.active_item_index;
    let others = activated_besides(pane.activation_history, pane.items[index]);
    if others.len() > 0 && pane.items.contains(others.last()) {
        crate::laws::leaving::law_items_are_found_first(pane, others.last());
        pane.index_for_item(others.last())->0
    } else if index > 0 {
        index - 1
    } else {
        0
    }
}

/// An item that is closed, with the answers of the items that are told so: the place that it
/// records because it is closed goes on the stack of closed items, and nothing else does.
pub proof fn law_closed_item_is_on_the_stack<D>(
    pane: PaneModel<D>,
    app: AppModel,
    index: int,
    activate_pane: bool,
    places: spec_fn(int) -> Seq<Option<D>>,
    data: Option<D>,
)
    requires
        pane.wf(),
        !(pane.nav.mode is ClosingItem),
        0 <= index < pane.items.len(),
        places(pane.remove_effects(index, activate_pane).len() - 2) == seq![data],
    ensures
        ({
            let effects = pane.remove_effects(index, activate_pane);
            let after = answered(pane.removed(app, index), effects, places);
            let item = pane.items[index];
            &&& after.nav.closed == with_one_more(pane.nav.closed, NavigationEntry { item, data })
            &&& after.items == pane.items.remove(index)
            &&& after.nav.paths == remembered(pane.nav, app, item).paths
            &&& after.nav.mode is Normal
        }),
{
    let item = pane.items[index];
    let mode = pane.nav.mode;
    let effects = pane.remove_effects(index, activate_pane);
    let removed = pane.removed(app, index);
    if index == pane.active_item_index {
        let successor = law_some_item_takes_over(pane);
        law_removing_the_active_one(pane, app, successor, activate_pane);
        crate::laws::leaving::law_activation_tells_the_item_that_is_left(
            pane,
            successor,
            activate_pane,
            activate_pane,
        );
    } else {
        law_removing_another_item(pane, app, index, activate_pane);
    }
    let told = effects.drop_last();
    let early = told.drop_last();
    assert(effects.last() == Effect::Notify);
    assert(told.last() == (Effect::Deactivated { item_id: item, mode: NavigationMode::ClosingItem }));
    assert(pane.items.contains(pane.items[index]));
    assert forall|k: int| 0 <= k < early.len() implies (
    #[trigger] early[k] matches Effect::Deactivated { item_id, mode: told_mode } ==> told_mode
        == mode && pane.items.contains(item_id)) by {
        assert(early[k] == effects[k]);
    }
    lemma_early(removed, early, places, mode, pane.items);
    let before = answered(removed, early, places);
    law_where_a_place_is_recorded(before, item, NavigationMode::ClosingItem, data);
    law_recording_leaves_the_stack_that_is_read(
        before,
        item,
        NavigationMode::ClosingItem,
        seq![data],
    );
    assert(answered(removed, told, places) == before.recorded(
        item,
        NavigationMode::ClosingItem,
        seq![data],
    ));
}

proof fn lemma_early<D>(
    pane: PaneModel<D>,
    effects: Seq<Effect>,
    places: spec_fn(int) -> Seq<Option<D>>,
    mode: NavigationMode,
    items: Seq<ItemId>,
)
    requires
        leaves_in_mode(effects, mode, items),
        !(mode is ClosingItem),
    ensures
        ({
            let after = answered(pane, effects, places);
            &&& after.nav.closed == pane.nav.closed
            &&& after.nav.paths == pane.nav.paths
            &&& after.nav.mode == pane.nav.mode
            &&& after.items == pane.items
        }),
    decreases effects.len(),
{
    if effects.len() > 0 {
        let fewer = effects.drop_last();
        assert forall|k: int| 0 <= k < fewer.len() implies (
        #[trigger] fewer[k] matches Effect::Deactivated { item_id, mode: told } ==> told == mode
            && items.contains(item_id)) by {
            assert(fewer[k] == effects[k]);
        }
        lemma_early(pane, fewer, places, mode, items);
        let last = effects[effects.len() - 1];
        if let Effect::Deactivated { item_id, mode: told } = last {
            law_recording_leaves_the_stack_that_is_read(
                answered(pane, fewer, places),
                item_id,
                told,
                places(effects.len() - 1),
            );
        }
    }
}

/// Closing an item that has a file, with the answers of the items that are told so, and reopening:
/// the file is loaded, with the place that the item recorded because it was closed, and the stack
/// of closed items is as it was before.
pub proof fn law_closing_and_reopening<D>(
    pane: PaneModel<D>,
    app: AppModel,
    index: int,
    activate_pane: bool,
    places: spec_fn(int) -> Seq<Option<D>>,
    data: Option<D>,
    path: ProjectPath,
)
    requires
        pane.wf(),
        !(pane.nav.mode is ClosingItem),
        0 <= index < pane.items.len(),
        forall|i: int|
            0 <= i < pane.items.len() && i != index ==> #[trigger] pane.items[i]
                != pane.items[index],
        app.items.contains_key(pane.items[index]),
        app.items[pane.items[index]].project_path == Some(path),
        pane.nav.closed.len() < 1024,
        places(pane.remove_effects(index, activate_pane).len() - 2) == seq![data],
    ensures
        ({
            let effects = pane.remove_effects(index, activate_pane);
            let closed = answered(pane.removed(app, index), effects, places);
            let walk = closed.walk_begun(NavigationMode::ReopeningClosedItem);
            &&& walk.step == (Navigation::Load {
                project_path: path,
                entry: NavigationEntry { item: pane.items[index], data },
            })
            &&& walk.pane.nav.closed == pane.nav.closed
            &&& walk.pane.items == pane.items.remove(index)
        }),
{
    let effects = pane.remove_effects(index, activate_pane);
    let closed = answered(pane.removed(app, index), effects, places);
    let entry = NavigationEntry { item: pane.items[index], data };
    law_closed_item_is_on_the_stack(pane, app, index, activate_pane, places, data);
    assert forall|i: int| 0 <= i < closed.items.len() implies closed.items[i]
        != pane.items[index] by {
        let i0 = if i < index {
            i
        } else {
            i + 1
        };
        assert(closed.items[i] == pane.items[i0]);
    }
    law_walk_to_an_item_that_is_gone(closed, NavigationMode::ReopeningClosedItem);
    assert(pane.nav.closed.push(entry).drop_last() =~= pane.nav.closed);
}

/// Leaving an item for another one, with its answer, and going back: the item is active again, and
/// looks for the place that it recorded. Meanwhile there is nothing to go forward to.
pub proof fn law_leaving_and_going_back<D>(
    pane: PaneModel<D>,
    index: int,
    activate_pane: bool,
    focus_item: bool,
    places: spec_fn(int) -> Seq<Option<D>>,
    data: Option<D>,
)
    requires
        pane.wf(),
        pane.nav.mode is Normal,
        0 <= index < pane.items.len(),
        index != pane.active_item_index,
        stands_first(pane.items, pane.items[pane.active_item_index], pane.active_item_index),
        places(0) == seq![data],
    ensures
        ({
            let effects = pane.activate_effects(index, activate_pane, focus_item);
            let left = answered(pane.activated(index), effects, places);
            let back = left.walk_begun(NavigationMode::GoingBack);
            let item_id = pane.items[pane.active_item_index];
            &&& left.nav.forward.len() == 0
            &&& left.nav.backward == with_one_more(
                pane.nav.backward,
                NavigationEntry { item: item_id, data },
            )
            &&& back.pane.active_item_index == pane.active_item_index
            &&& back.pane.items == pane.items
            &&& match data {
                Some(data) => back.step == (Navigation::Navigate {
                    item_id,
                    data,
                    navigated: true,
                    reopened: false,
                }),
                None => back.step is Finished,
            }
        }),
{
    let effects = pane.activate_effects(index, activate_pane, focus_item);
    let activated = pane.activated(index);
    let item_id = pane.items[pane.active_item_index];
    crate::laws::leaving::law_activation_tells_the_item_that_is_left(
        pane,
        index,
        activate_pane,
        focus_item,
    );
    crate::laws::leaving::law_activation_changes_nothing_else(pane, index);
    let recorded = activated.recorded(item_id, NavigationMode::Normal, places(0));
    let told = effects.take(1);
    assert(told.drop_last().len() == 0);
    assert(answered(activated, told.drop_last(), places) == activated);
    assert(answered(activated, told, places) == recorded);
    lemma_nothing_told(activated, effects, places, 1);
    assert(effects.take(effects.len() as int) =~= effects);
    law_where_a_place_is_recorded(activated, item_id, NavigationMode::Normal, data);
    law_recording_leaves_the_stack_that_is_read(
        activated,
        item_id,
        NavigationMode::Normal,
        places(0),
    );
    crate::laws::leaving::law_walk_to_an_item(
        recorded,
        NavigationMode::GoingBack,
        pane.active_item_index,
    );
}

/// Effects that tell no item that it is left change nothing.
proof fn lemma_nothing_told<D>(
    pane: PaneModel<D>,
    effects: Seq<Effect>,
    places: spec_fn(int) -> Seq<Option<D>>,
    from: int,
)
    requires
        0 <= from <= effects.len(),
        forall|k: int| from <= k < effects.len() ==> !(#[trigger] effects[k] is Deactivated),
    ensures
        answered(pane, effects, places) == answered(pane, effects.take(from), places),
    decreases effects.len(),
{
    if from < effects.len() {
        let fewer = effects.drop_last();
        assert forall|k: int| from <= k < fewer.len() implies !(
        #[trigger] fewer[k] is Deactivated) by {
            assert(fewer[k] == effects[k]);
        }
        lemma_nothing_told(pane, fewer, places, from);
        assert(fewer.take(from) =~= effects.take(from));
        assert(effects.last() == effects[effects.len() - 1]);
    } else {
        assert(effects.take(from) =~= effects);
    }
}

} // verus!

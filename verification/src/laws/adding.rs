//! Laws of where an added item goes, over the items and their facts alone.

use crate::context::{AppModel, ItemId};
use crate::effect::{Effect, Event};
use crate::ids::{differs, is_first, lemma_first_index_is, lemma_first_index_none};
use crate::laws::leaving::law_activation_tells_the_item_that_is_left;
use crate::nav_history::NavigationMode;
use crate::pane::items::same_item;
use crate::pane::PaneModel;
use vstd::prelude::*;

verus! {

/// Whether two items are one thing: the same view, or two singletons whose first project entry is
/// the same.
pub open spec fn same_thing(app: AppModel, first: ItemId, second: ItemId) -> bool {
    ||| first == second
    ||| {
        &&& app.items.contains_key(first)
        &&& app.items.contains_key(second)
        &&& app.items[first].is_singleton
        &&& app.items[second].is_singleton
        &&& app.items[first].project_entry_ids@.len() > 0
        &&& app.items[second].project_entry_ids@.len() > 0
        &&& app.items[first].project_entry_ids@[0] == app.items[second].project_entry_ids@[0]
    }
}

/// Whether the item at this place, and none before it, is one thing with the given one.
pub open spec fn first_same(app: AppModel, items: Seq<ItemId>, item: ItemId, place: int) -> bool {
    &&& 0 <= place < items.len()
    &&& same_thing(app, items[place], item)
    &&& forall|j: int| 0 <= j < place ==> !same_thing(app, #[trigger] items[j], item)
}

pub open spec fn lesser(a: int, b: int) -> int {
    if a < b {
        a
    } else {
        b
    }
}

/// The pane with other items, one of which has just been activated.
pub open spec fn showing<D>(pane: PaneModel<D>, items: Seq<ItemId>, index: int) -> PaneModel<D> {
    let item = items[index];
    PaneModel {
        items,
        active_item_index: index,
        autoscroll: true,
        activation_history: pane.activation_history.filter(|id: ItemId| id != item).push(item),
        ..pane
    }
}

/// Whether the history is being walked.
pub open spec fn is_walking(mode: NavigationMode) -> bool {
    mode == NavigationMode::GoingBack || mode == NavigationMode::GoingForward
}

/// What showing an item has the application do, after those that observe the pane were told.
pub open spec fn show(item_id: ItemId, focus_item: bool) -> Seq<Effect> {
    let toolbar = Effect::UpdateToolbar { active_item: Some(item_id) };
    if focus_item {
        seq![toolbar, Effect::FocusItem { item_id }, Effect::Notify]
    } else {
        seq![toolbar, Effect::Notify]
    }
}

/// What leaving an item has the application do.
pub open spec fn leave(item_id: ItemId, mode: NavigationMode, local: bool) -> Seq<Effect> {
    seq![Effect::Deactivated { item_id, mode }, Effect::Emit(Event::ActivateItem { local })]
}

proof fn lemma_same(app: AppModel, first: ItemId, second: ItemId)
    ensures
        app.is_same_item(first, second) == same_thing(app, first, second),
{
}

proof fn lemma_existing<D>(pane: PaneModel<D>, app: AppModel, item: ItemId, place: int)
    requires
        first_same(app, pane.items, item, place),
    ensures
        pane.existing_index(app, item) == Some(place),
{
    assert forall|j: int| 0 <= j < place implies !same_item(app, item)(
        #[trigger] pane.items[j],
    ) by {
        lemma_same(app, pane.items[j], item);
    }
    lemma_same(app, pane.items[place], item);
    assert(is_first(pane.items, same_item(app, item), place));
    lemma_first_index_is(pane.items, same_item(app, item), place);
}

proof fn lemma_none_existing<D>(pane: PaneModel<D>, app: AppModel, item: ItemId)
    requires
        forall|j: int|
            0 <= j < pane.items.len() ==> !same_thing(app, #[trigger] pane.items[j], item),
    ensures
        pane.existing_index(app, item) is None,
{
    assert forall|j: int| 0 <= j < pane.items.len() implies !same_item(app, item)(
        #[trigger] pane.items[j],
    ) by {
        lemma_same(app, pane.items[j], item);
    }
    lemma_first_index_none(pane.items, same_item(app, item));
}

/// An item that is one thing with none of the pane is put in at its destination, or else right
/// after the active item, and at the end where that is past the end. It is active then, and
/// nothing else changes.
pub proof fn law_adding_a_new_item<D>(
    pane: PaneModel<D>,
    app: AppModel,
    item: ItemId,
    destination: Option<usize>,
    activate_pane: bool,
    focus_item: bool,
)
    requires
        pane.wf(),
        forall|j: int|
            0 <= j < pane.items.len() ==> !same_thing(app, #[trigger] pane.items[j], item),
    ensures
        ({
            let wanted = match destination {
                Some(index) => index as int,
                None => pane.active_item_index + 1,
            };
            let at = lesser(wanted, pane.items.len() as int);
            let told = if pane.items.len() > 0 {
                leave(pane.items[pane.active_item_index], pane.nav.mode, activate_pane)
            } else {
                seq![Effect::Emit(Event::ActivateItem { local: activate_pane })]
            };
            &&& pane.added(app, item, destination) == showing(
                pane,
                pane.items.insert(at, item),
                at,
            )
            &&& pane.add_effects(app, item, activate_pane, focus_item, destination) == seq![
                Effect::AddedToPane { item_id: item },
                Effect::Reparent { item_id: item },
            ] + told + show(item, focus_item) + seq![Effect::Notify]
        }),
{
    lemma_none_existing(pane, app, item);
    assert(differs(item) =~= (|id: ItemId| id != item));
    let told = if pane.items.len() > 0 {
        leave(pane.items[pane.active_item_index], pane.nav.mode, activate_pane)
    } else {
        seq![Effect::Emit(Event::ActivateItem { local: activate_pane })]
    };
    assert(pane.add_effects(app, item, activate_pane, focus_item, destination) =~= seq![
        Effect::AddedToPane { item_id: item },
        Effect::Reparent { item_id: item },
    ] + told + show(item, focus_item) + seq![Effect::Notify]);
}

/// An item that is one thing with an item of the pane, and has a destination, takes that one's
/// place in the pane and is moved to the destination, or to the end where that is past the end. If
/// that one stands at the destination already it stays, and is activated.
pub proof fn law_adding_an_item_again_with_a_destination<D>(
    pane: PaneModel<D>,
    app: AppModel,
    item: ItemId,
    place: int,
    destination: usize,
    activate_pane: bool,
    focus_item: bool,
)
    requires
        pane.wf(),
        first_same(app, pane.items, item, place),
    ensures
        ({
            let after = pane.added(app, item, Some(destination));
            let effects = pane.add_effects(
                app,
                item,
                activate_pane,
                focus_item,
                Some(destination),
            );
            let active = pane.active_item_index;
            let at = lesser(destination as int, pane.items.len() - 1);
            if lesser(destination as int, pane.items.len() as int) == place {
                &&& after == showing(pane, pane.items, place)
                &&& effects == seq![Effect::AddedToPane { item_id: item }] + (if place != active
                    || is_walking(pane.nav.mode) {
                    leave(pane.items[active], pane.nav.mode, activate_pane)
                } else {
                    seq![]
                }) + show(pane.items[place], focus_item)
            } else {
                &&& after == showing(pane, pane.items.remove(place).insert(at, item), at)
                &&& effects == seq![
                    Effect::AddedToPane { item_id: item },
                    Effect::Reparent { item_id: item },
                    Effect::Notify,
                ] + (if place != active {
                    leave(pane.items[active], pane.nav.mode, activate_pane)
                } else if is_walking(pane.nav.mode) {
                    leave(item, pane.nav.mode, activate_pane)
                } else {
                    seq![]
                }) + show(item, focus_item)
            }
        }),
{
    lemma_existing(pane, app, item, place);
    let shown = pane.items[place];
    assert(differs(item) =~= (|id: ItemId| id != item));
    assert(differs(shown) =~= (|id: ItemId| id != shown));
    let index = pane.added_index(app, item, Some(destination));
    let arranged = pane.rearranged(app, item, Some(destination));
    assert(arranged.wf());
    law_activation_tells_the_item_that_is_left(arranged, index, activate_pane, focus_item);
    let activation = arranged.activate_effects(index, activate_pane, focus_item);
    let effects = pane.add_effects(app, item, activate_pane, focus_item, Some(destination));
    let told = seq![Effect::AddedToPane { item_id: item }];
    let active = pane.active_item_index;
    if lesser(destination as int, pane.items.len() as int) == place {
        let left = if place != active || is_walking(pane.nav.mode) {
            leave(pane.items[active], pane.nav.mode, activate_pane)
        } else {
            seq![]
        };
        assert(activation =~= left + show(shown, focus_item));
        assert(effects =~= told + left + show(shown, focus_item));
    } else {
        assert(arranged.items[arranged.active_item_index] == if place == active {
            item
        } else {
            pane.items[active]
        });
        let left = if place != active {
            leave(pane.items[active], pane.nav.mode, activate_pane)
        } else if is_walking(pane.nav.mode) {
            leave(item, pane.nav.mode, activate_pane)
        } else {
            seq![]
        };
        let moved = seq![
            Effect::AddedToPane { item_id: item },
            Effect::Reparent { item_id: item },
            Effect::Notify,
        ];
        assert(activation =~= left + show(item, focus_item));
        assert(told.push(Effect::Reparent { item_id: item }).push(Effect::Notify) =~= moved);
        assert(effects =~= moved + left + show(item, focus_item));
    }
}

/// An item that is one thing with an item of the pane, and has no destination, takes that one's
/// place in the pane and is moved right after the active item. If that one is active, or stands
/// there already, it stays, and is activated.
pub proof fn law_adding_an_item_again_without_a_destination<D>(
    pane: PaneModel<D>,
    app: AppModel,
    item: ItemId,
    place: int,
    activate_pane: bool,
    focus_item: bool,
)
    requires
        pane.wf(),
        first_same(app, pane.items, item, place),
    ensures
        ({
            let after = pane.added(app, item, None);
            let effects = pane.add_effects(app, item, activate_pane, focus_item, None);
            let active = pane.active_item_index;
            let at = if place < active {
                active
            } else {
                active + 1
            };
            if place == active {
                &&& after == showing(pane, pane.items, place)
                &&& effects == seq![
                    Effect::AddedToPane { item_id: item },
                    Effect::Reparent { item_id: item },
                    Effect::Notify,
                ] + (if is_walking(pane.nav.mode) {
                    leave(pane.items[active], pane.nav.mode, activate_pane)
                } else {
                    seq![]
                }) + show(pane.items[place], focus_item)
            } else if place == active + 1 {
                &&& after == showing(pane, pane.items, place)
                &&& effects == seq![Effect::AddedToPane { item_id: item }] + leave(
                    pane.items[active],
                    pane.nav.mode,
                    activate_pane,
                ) + show(pane.items[place], focus_item)
            } else {
                &&& after == showing(pane, pane.items.remove(place).insert(at, item), at)
                &&& after.items[at - 1] == pane.items[active]
                &&& effects == seq![
                    Effect::AddedToPane { item_id: item },
                    Effect::Reparent { item_id: item },
                    Effect::Notify,
                ] + leave(pane.items[active], pane.nav.mode, activate_pane) + show(item, focus_item)
            }
        }),
{
    lemma_existing(pane, app, item, place);
    assert(differs(item) =~= (|id: ItemId| id != item));
    let shown = pane.items[place];
    assert(differs(shown) =~= (|id: ItemId| id != shown));
    let effects = pane.add_effects(app, item, activate_pane, focus_item, None);
    let active = pane.active_item_index;
    let moved = seq![
        Effect::AddedToPane { item_id: item },
        Effect::Reparent { item_id: item },
        Effect::Notify,
    ];
    let told = leave(pane.items[active], pane.nav.mode, activate_pane);
    if place == active {
        assert(effects =~= moved + (if is_walking(pane.nav.mode) {
            told
        } else {
            seq![]
        }) + show(shown, focus_item));
    } else if place == active + 1 {
        assert(effects =~= seq![Effect::AddedToPane { item_id: item }] + told + show(
            shown,
            focus_item,
        ));
    } else {
        assert(effects =~= moved + told + show(item, focus_item));
    }
}

} // verus!

//! Laws of opening project entries, over the items' facts alone.

use crate::context::{AppModel, ItemFacts, ItemId, ProjectEntryId};
use crate::effect::Effect;
use crate::ids::{first_index, is_first, lemma_first_index, lemma_first_index_is};
use crate::laws::items::opened;
use crate::laws::leaving::{
    law_activation_changes_nothing_else, law_activation_tells_the_item_that_is_left, leaves_in_mode,
};
use crate::nav_history::NavigationMode;
use crate::pane::items::view_of;
use crate::pane::tabs::of_type;
use crate::pane::{Navigation, PaneModel};
use vstd::prelude::*;

verus! {

/// Whether the item is the view of exactly this entry: a singleton of it and of nothing else.
pub open spec fn shows_exactly(app: AppModel, item: ItemId, entry_id: ProjectEntryId) -> bool {
    &&& app.items.contains_key(item)
    &&& app.items[item].is_singleton
    &&& app.items[item].project_entry_ids@.len() == 1
    &&& app.items[item].project_entry_ids@[0] == entry_id
}

proof fn lemma_view(app: AppModel, item: ItemId, entry_id: ProjectEntryId)
    ensures
        view_of(app, entry_id)(item) == shows_exactly(app, item, entry_id),
{
    let entries = app.entries(item);
    if entries.len() == 1 && entries[0] == entry_id {
        assert(entries =~= seq![entry_id]);
    }
}

/// Looking for an entry finds the first item that is the view of exactly this entry, and never one
/// that is not, such as one that shows the entry among others or is no singleton. It finds one
/// wherever there is one.
pub proof fn law_a_view_of_exactly_the_entry_is_found<D>(
    pane: PaneModel<D>,
    app: AppModel,
    entry_id: ProjectEntryId,
)
    ensures
        match first_index(pane.items, view_of(app, entry_id)) {
            Some(i) => {
                &&& 0 <= i < pane.items.len()
                &&& shows_exactly(app, pane.items[i], entry_id)
                &&& forall|j: int|
                    0 <= j < i ==> !shows_exactly(app, #[trigger] pane.items[j], entry_id)
            },
            None => forall|j: int|
                0 <= j < pane.items.len() ==> !shows_exactly(
                    app,
                    #[trigger] pane.items[j],
                    entry_id,
                ),
        },
{
    let wanted = view_of(app, entry_id);
    lemma_first_index(pane.items, wanted);
    assert forall|j: int| 0 <= j < pane.items.len() implies wanted(#[trigger] pane.items[j])
        == shows_exactly(app, pane.items[j], entry_id) by {
        lemma_view(app, pane.items[j], entry_id);
    }
}

/// The item that is given back for an entry is one of the pane and the view of exactly this entry, and
/// one is given back wherever there is one. An item that is no singleton never is.
pub proof fn law_looking_an_entry_up<D>(
    pane: PaneModel<D>,
    app: AppModel,
    entry_id: ProjectEntryId,
)
    ensures
        match pane.item_for_entry(app, entry_id) {
            Some(item) => exists|i: int|
                0 <= i < pane.items.len() && #[trigger] pane.items[i] == item && shows_exactly(
                    app,
                    item,
                    entry_id,
                ) && forall|j: int|
                    0 <= j < i ==> !shows_exactly(app, #[trigger] pane.items[j], entry_id),
            None => forall|j: int|
                0 <= j < pane.items.len() ==> !shows_exactly(
                    app,
                    #[trigger] pane.items[j],
                    entry_id,
                ),
        },
{
    law_a_view_of_exactly_the_entry_is_found(pane, app, entry_id);
    if let Some(i) = first_index(pane.items, view_of(app, entry_id)) {
        assert(pane.items[i] == pane.item_for_entry(app, entry_id)->0);
    }
}

/// Opening an entry that the pane has a view of activates the first such view, gives it back, and
/// learns of no new item.
pub proof fn law_opening_an_entry_that_is_open<D>(
    pane: PaneModel<D>,
    app: AppModel,
    entry_id: ProjectEntryId,
    built: (ItemId, ItemFacts),
    index: int,
    focus_item: bool,
)
    requires
        pane.wf(),
        0 <= index < pane.items.len(),
        shows_exactly(app, pane.items[index], entry_id),
        forall|j: int|
            0 <= j < index ==> !shows_exactly(app, #[trigger] pane.items[j], entry_id),
    ensures
        ({
            let outcome = opened(pane, app, entry_id, built, focus_item);
            &&& outcome.item == pane.items[index]
            &&& outcome.app == app
            &&& outcome.pane == pane.activated(index)
            &&& outcome.pane.items == pane.items
            &&& outcome.pane.active_item_index == index
            &&& outcome.pane.nav == pane.nav
            &&& outcome.effects == pane.activate_effects(index, focus_item, focus_item)
        }),
{
    let wanted = view_of(app, entry_id);
    lemma_view(app, pane.items[index], entry_id);
    assert forall|j: int| 0 <= j < index implies !wanted(#[trigger] pane.items[j]) by {
        lemma_view(app, pane.items[j], entry_id);
    }
    assert(is_first(pane.items, wanted, index));
    lemma_first_index_is(pane.items, wanted, index);
    law_activation_changes_nothing_else(pane, index);
}

/// Opening an entry that the pane has no view of gives back the view that was built, of which the
/// facts are known then, and adds it to the pane as adding it would.
pub proof fn law_opening_an_entry_that_is_not_open<D>(
    pane: PaneModel<D>,
    app: AppModel,
    entry_id: ProjectEntryId,
    built: (ItemId, ItemFacts),
    focus_item: bool,
)
    requires
        forall|j: int|
            0 <= j < pane.items.len() ==> !shows_exactly(app, #[trigger] pane.items[j], entry_id),
    ensures
        ({
            let outcome = opened(pane, app, entry_id, built, focus_item);
            &&& outcome.item == built.0
            &&& outcome.app.items == app.items.insert(built.0, built.1)
            &&& outcome.app.autosave == app.autosave
            &&& outcome.pane == pane.added(outcome.app, built.0, None)
            &&& outcome.effects == pane.add_effects(outcome.app, built.0, true, focus_item, None)
        }),
{
    law_a_view_of_exactly_the_entry_is_found(pane, app, entry_id);
    if let Some(i) = first_index(pane.items, view_of(app, entry_id)) {
        assert(shows_exactly(app, pane.items[i], entry_id));
    }
}

/// A file that is loaded on a walk is shown by its view in the pane, which looks for the place. The
/// item that is left is told so in the mode of the walk, and the mode is normal again afterwards.
pub proof fn law_a_loaded_file_with_a_view<D>(
    pane: PaneModel<D>,
    mode: NavigationMode,
    data: D,
    index: int,
)
    requires
        pane.wf(),
        0 <= index < pane.items.len(),
    ensures
        ({
            let outcome = pane.loaded_again(mode, Some(data), index);
            &&& outcome.pane.items == pane.items
            &&& outcome.pane.active_item_index == index
            &&& outcome.pane.nav.mode is Normal
            &&& outcome.pane.nav.backward == pane.nav.backward
            &&& outcome.pane.nav.forward == pane.nav.forward
            &&& outcome.pane.nav.closed == pane.nav.closed
            &&& leaves_in_mode(outcome.effects, mode, pane.items)
            &&& index != pane.active_item_index ==> outcome.effects[0] == (Effect::Deactivated {
                item_id: pane.items[pane.active_item_index],
                mode,
            })
            &&& outcome.step == (Navigation::Navigate {
                item_id: pane.items[index],
                data,
                navigated: pane.items[index] != pane.items[pane.active_item_index],
                reopened: true,
            })
        }),
{
    let opening = pane.with_mode(mode);
    law_activation_changes_nothing_else(opening, index);
    law_activation_tells_the_item_that_is_left(opening, index, true, true);
    assert(pane.items.contains(pane.items[pane.active_item_index]));
}

/// A file that is loaded on a walk and has no view in the pane is shown by a new one, which looks
/// for the place. The item that is left is told so in the mode of the walk, and the mode is normal
/// again afterwards.
pub proof fn law_a_loaded_file_without_a_view<D>(
    pane: PaneModel<D>,
    app: AppModel,
    mode: NavigationMode,
    data: D,
    item_id: ItemId,
)
    requires
        pane.wf(),
        !pane.items.contains(item_id),
        forall|j: int|
            0 <= j < pane.items.len() ==> !crate::laws::adding::same_thing(
                app,
                #[trigger] pane.items[j],
                item_id,
            ),
    ensures
        ({
            let outcome = pane.loaded_anew(app, mode, Some(data), item_id);
            &&& outcome.pane.items.contains(item_id)
            &&& outcome.pane.items.len() == pane.items.len() + 1
            &&& outcome.pane.active_item() == Some(item_id)
            &&& outcome.pane.nav.mode is Normal
            &&& outcome.pane.nav.backward == pane.nav.backward
            &&& outcome.pane.nav.forward == pane.nav.forward
            &&& outcome.pane.nav.closed == pane.nav.closed
            &&& leaves_in_mode(outcome.effects, mode, pane.items)
            &&& pane.items.len() > 0 ==> outcome.effects[2] == (Effect::Deactivated {
                item_id: pane.items[pane.active_item_index],
                mode,
            })
            &&& outcome.step == (Navigation::Navigate {
                item_id,
                data,
                navigated: true,
                reopened: true,
            })
        }),
{
    let opening = pane.with_mode(mode);
    crate::laws::adding::law_adding_a_new_item(opening, app, item_id, None, true, true);
    let outcome = pane.loaded_anew(app, mode, Some(data), item_id);
    assert(outcome.pane.items[outcome.pane.active_item_index] == item_id);
    if pane.items.len() > 0 {
        assert(pane.items.contains(pane.items[pane.active_item_index]));
    }
}

/// Without a place the walk is over if another item is shown than before, and goes on otherwise as
/// a new walk would.
pub proof fn law_a_loaded_file_without_a_place<D>(
    pane: PaneModel<D>,
    mode: NavigationMode,
    index: int,
)
    requires
        pane.wf(),
        0 <= index < pane.items.len(),
    ensures
        ({
            let outcome = pane.loaded_again(mode, None, index);
            let shown = pane.with_mode(mode).activated(index).with_mode(NavigationMode::Normal);
            if pane.items[index] != pane.items[pane.active_item_index] {
                outcome.step is Finished && outcome.pane == shown
            } else {
                outcome.step == shown.walk_begun(mode).step && outcome.pane == shown.walk_begun(
                    mode,
                ).pane
            }
        }),
{
}

/// A new view of a loaded file is added in the mode of the walk, as adding it would, and the mode is
/// normal again afterwards. With a place the view looks for it. Without one the walk is over, unless
/// the view was active before.
pub proof fn law_a_loaded_file_is_added<D>(
    pane: PaneModel<D>,
    app: AppModel,
    mode: NavigationMode,
    data: Option<D>,
    item_id: ItemId,
)
    requires
        pane.active_item() != Some(item_id) || data is Some,
    ensures
        ({
            let walking = pane.with_mode(mode);
            let outcome = pane.loaded_anew(app, mode, data, item_id);
            &&& walking.nav.mode == mode
            &&& outcome.pane == walking.added(app, item_id, None).with_mode(NavigationMode::Normal)
            &&& outcome.effects == walking.add_effects(app, item_id, true, true, None)
            &&& match data {
                Some(data) => outcome.step == (Navigation::Navigate {
                    item_id,
                    data,
                    navigated: pane.active_item() != Some(item_id),
                    reopened: true,
                }),
                None => outcome.step is Finished,
            }
        }),
{
    let walking = pane.with_mode(mode);
    let effects = walking.add_effects(app, item_id, true, true, None);
    assert(effects + Seq::<Effect>::empty() =~= effects);
}

/// Changing the mode changes nothing else.
pub proof fn law_changing_the_mode<D>(pane: PaneModel<D>, mode: NavigationMode)
    ensures
        pane.with_mode(mode).nav.mode == mode,
        pane.with_mode(mode).nav.backward == pane.nav.backward,
        pane.with_mode(mode).nav.forward == pane.nav.forward,
        pane.with_mode(mode).nav.closed == pane.nav.closed,
        pane.with_mode(mode).nav.paths == pane.nav.paths,
        pane.with_mode(mode).nav.pane == pane.nav.pane,
        pane.with_mode(mode) == (PaneModel { nav: pane.with_mode(mode).nav, ..pane }),
{
}

/// A walk is over once the item has found the place or another one became active, and goes on
/// otherwise: from the beginning where a file was loaded for it, which focuses the pane again, and
/// from where it was else.
pub proof fn law_going_on_with_a_walk<D>(pane: PaneModel<D>, mode: NavigationMode)
    ensures
        forall|reopened: bool| #[trigger]
            pane.walk_resumed(mode, true, reopened).step is Finished && pane.walk_resumed(
                mode,
                true,
                reopened,
            ).pane == pane && pane.walk_resumed(mode, true, reopened).effects.len() == 0,
        forall|navigated: bool, reopened: bool, reported: bool|
            navigated || reported ==> {
                let outcome = #[trigger] pane.walk_answered(mode, navigated, reopened, reported);
                outcome.step is Finished && outcome.pane == pane && outcome.effects.len() == 0
            },
        pane.walk_answered(mode, false, true, false) == pane.walk_begun(mode),
        pane.walk_answered(mode, false, false, false) == pane.walk_resumed(mode, false, false),
        pane.walk_resumed(mode, false, true) == pane.walk_begun(mode),
        pane.walk_resumed(mode, false, false).step == pane.walk_begun(mode).step,
        pane.walk_resumed(mode, false, false).pane == pane.walk_begun(mode).pane,
        pane.walk_begun(mode).effects == seq![Effect::FocusPane] + pane.walk_resumed(
            mode,
            false,
            false,
        ).effects,
{
}

/// The items of a type are those whose views have it, in their order.
pub proof fn law_items_by_type<D>(pane: PaneModel<D>, app: AppModel, view_type: u64)
    ensures
        pane.items.filter(of_type(app, view_type)) == pane.items.filter(
            |id: ItemId| app.items.contains_key(id) && app.items[id].view_type == view_type,
        ),
{
    assert(of_type(app, view_type) =~= (|id: ItemId|
        app.items.contains_key(id) && app.items[id].view_type == view_type));
}

} // verus!

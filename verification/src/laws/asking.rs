//! Laws of which items are closed and when the user is asked first, over the items' facts alone.

use crate::context::{AppModel, Autosave, ItemId};
use crate::effect::Effect;
use crate::ids::{differs, equals};
use crate::laws::leaving::{law_items_are_found_first, stands_first};
use crate::pane::close::{multiples, selected, singletons};
use crate::pane::{CloseModel, CloseStep, ItemType, PaneModel, SaveItem, SaveResult};
use vstd::prelude::*;

verus! {

/// Whether the item shows the model.
pub open spec fn lists_model(app: AppModel, item: ItemId, model: usize) -> bool {
    app.items.contains_key(item) && app.items[item].project_item_model_ids@.contains(model)
}

/// Whether the model would be lost with the item: the item shows it, no item of the workspace that
/// stays open does, and the user has not been asked about it.
pub open spec fn would_be_lost(
    closing: CloseModel,
    app: AppModel,
    workspace_items: Seq<ItemId>,
    item: ItemId,
    model: usize,
) -> bool {
    &&& lists_model(app, item, model)
    &&& !closing.asked.contains(model)
    &&& forall|k: int|
        0 <= k < workspace_items.len() && !closing.items_to_close.contains(
            #[trigger] workspace_items[k],
        ) ==> !lists_model(app, workspace_items[k], model)
}

proof fn lemma_lost(
    closing: CloseModel,
    app: AppModel,
    workspace_items: Seq<ItemId>,
    item: ItemId,
    model: usize,
)
    ensures
        would_be_lost(closing, app, workspace_items, item, model) <==> app.models(item).contains(
            model,
        ) && closing.must_ask(app, workspace_items, model),
{
    if would_be_lost(closing, app, workspace_items, item, model) {
        assert(closing.must_ask(app, workspace_items, model)) by {
            assert forall|k: int|
                0 <= k < workspace_items.len() && !closing.items_to_close.contains(
                    #[trigger] workspace_items[k],
                ) implies !app.models(workspace_items[k]).contains(model) by {
                assert(!lists_model(app, workspace_items[k], model));
            }
        }
    }
    if app.models(item).contains(model) && closing.must_ask(app, workspace_items, model) {
        assert forall|k: int|
            0 <= k < workspace_items.len() && !closing.items_to_close.contains(
                #[trigger] workspace_items[k],
            ) implies !lists_model(app, workspace_items[k], model) by {
            assert(!app.models(workspace_items[k]).contains(model));
        }
    }
}

proof fn lemma_asks(
    closing: CloseModel,
    app: AppModel,
    workspace_items: Seq<ItemId>,
    item: ItemId,
)
    ensures
        closing.asks_about(app, workspace_items, item) <==> exists|model: usize|
            would_be_lost(closing, app, workspace_items, item, model),
{
    if closing.asks_about(app, workspace_items, item) {
        let k = choose|k: int|
            0 <= k < app.models(item).len() && closing.must_ask(
                app,
                workspace_items,
                #[trigger] app.models(item)[k],
            );
        let model = app.models(item)[k];
        assert(app.models(item).contains(model));
        lemma_lost(closing, app, workspace_items, item, model);
        assert(would_be_lost(closing, app, workspace_items, item, model));
    }
    if exists|model: usize| would_be_lost(closing, app, workspace_items, item, model) {
        let model = choose|model: usize|
            would_be_lost(closing, app, workspace_items, item, model);
        lemma_lost(closing, app, workspace_items, item, model);
        let k = choose|k: int| 0 <= k < app.models(item).len() && app.models(item)[k] == model;
        assert(closing.must_ask(app, workspace_items, app.models(item)[k]));
    }
}

/// A closing that comes to an item of the pane with a model that would be lost stops there, and
/// has the item offered for saving, before anything is done to the pane. All of the item's models
/// that would be lost, and no others, count as asked about from then on.
pub proof fn law_a_model_that_would_be_lost_is_asked_about<D>(
    closing: CloseModel,
    pane: PaneModel<D>,
    app: AppModel,
    workspace_items: Seq<ItemId>,
    index: int,
    model: usize,
)
    requires
        closing.wf(),
        closing.next < closing.items_to_close.len(),
        stands_first(pane.items, closing.items_to_close[closing.next], index),
        would_be_lost(
            closing,
            app,
            workspace_items,
            closing.items_to_close[closing.next],
            model,
        ),
    ensures
        ({
            let item_id = closing.items_to_close[closing.next];
            let outcome = closing.advanced(pane, app, workspace_items);
            &&& outcome.step == (CloseStep::Save { item_ix: index as usize, item_id })
            &&& outcome.pane == pane
            &&& outcome.effects.len() == 0
            &&& outcome.closing.next == closing.next
            &&& outcome.closing.items_to_close == closing.items_to_close
            &&& outcome.closing.failed == closing.failed
            &&& forall|asked: usize| #[trigger]
                outcome.closing.asked.contains(asked) <==> closing.asked.contains(asked)
                    || would_be_lost(closing, app, workspace_items, item_id, asked)
        }),
{
    let item_id = closing.items_to_close[closing.next];
    lemma_stands(pane, item_id, index);
    lemma_asks(closing, app, workspace_items, item_id);
    let outcome = closing.advanced(pane, app, workspace_items);
    assert forall|asked: usize| #[trigger]
        outcome.closing.asked.contains(asked) <==> closing.asked.contains(asked) || would_be_lost(
            closing,
            app,
            workspace_items,
            item_id,
            asked,
        ) by {
        lemma_lost(closing, app, workspace_items, item_id, asked);
    }
}

proof fn lemma_stands<D>(pane: PaneModel<D>, item: ItemId, index: int)
    requires
        stands_first(pane.items, item, index),
    ensures
        pane.index_for_item(item) == Some(index),
{
    law_items_are_found_first(pane, item);
    let found = pane.index_for_item(item)->0;
    if pane.index_for_item(item) is None {
        assert(pane.items[index] == item);
        assert(pane.items.contains(item));
    } else if found < index {
        assert(pane.items[found] != item);
    } else if index < found {
        assert(pane.items[index] != item);
    }
}

/// A closing that comes to an item of the pane with no model that would be lost closes it without
/// a question, and goes on as a closing of the rest would.
pub proof fn law_an_item_that_loses_nothing_is_closed<D>(
    closing: CloseModel,
    pane: PaneModel<D>,
    app: AppModel,
    workspace_items: Seq<ItemId>,
    index: int,
)
    requires
        closing.wf(),
        closing.next < closing.items_to_close.len(),
        stands_first(pane.items, closing.items_to_close[closing.next], index),
        forall|model: usize|
            !would_be_lost(
                closing,
                app,
                workspace_items,
                closing.items_to_close[closing.next],
                model,
            ),
    ensures
        ({
            let outcome = closing.advanced(pane, app, workspace_items);
            let rest = CloseModel { next: closing.next + 1, ..closing }.advanced(
                pane.removed(app, index),
                app,
                workspace_items,
            );
            &&& outcome.step == rest.step
            &&& outcome.pane == rest.pane
            &&& outcome.closing == rest.closing
            &&& outcome.effects == pane.remove_effects(index, false) + rest.effects
        }),
{
    let item_id = closing.items_to_close[closing.next];
    lemma_stands(pane, item_id, index);
    lemma_asks(closing, app, workspace_items, item_id);
}

/// A closing passes over an item that has left the pane.
pub proof fn law_an_item_that_has_left_is_passed_over<D>(
    closing: CloseModel,
    pane: PaneModel<D>,
    app: AppModel,
    workspace_items: Seq<ItemId>,
)
    requires
        closing.wf(),
        closing.next < closing.items_to_close.len(),
        !pane.items.contains(closing.items_to_close[closing.next]),
    ensures
        closing.advanced(pane, app, workspace_items) == (CloseModel {
            next: closing.next + 1,
            ..closing
        }).advanced(pane, app, workspace_items),
{
    law_items_are_found_first(pane, closing.items_to_close[closing.next]);
}

/// A closing that has come to its end draws the pane again, unless an item could not be saved.
pub proof fn law_the_end_of_a_closing<D>(
    closing: CloseModel,
    pane: PaneModel<D>,
    app: AppModel,
    workspace_items: Seq<ItemId>,
)
    requires
        closing.next == closing.items_to_close.len(),
    ensures
        ({
            let outcome = closing.advanced(pane, app, workspace_items);
            &&& outcome.pane == pane
            &&& outcome.closing == closing
            &&& !closing.failed ==> outcome.step is Finished && outcome.effects == seq![
                Effect::Notify,
            ]
            &&& closing.failed ==> outcome.step is Failed && outcome.effects.len() == 0
        }),
{
}

/// An item outside the closing that shows none of the closed item's models makes no difference to
/// whether the user is asked, whatever else is true of it.
pub proof fn law_an_unrelated_item_makes_no_difference<D>(
    closing: CloseModel,
    pane: PaneModel<D>,
    app: AppModel,
    workspace_items: Seq<ItemId>,
    other: ItemId,
    index: int,
)
    requires
        closing.wf(),
        closing.next < closing.items_to_close.len(),
        stands_first(pane.items, closing.items_to_close[closing.next], index),
        forall|model: usize|
            lists_model(app, closing.items_to_close[closing.next], model) ==> !(
            #[trigger] lists_model(app, other, model)),
    ensures
        ({
            let item_id = closing.items_to_close[closing.next];
            let asked = CloseStep::Save { item_ix: index as usize, item_id };
            let with = closing.advanced(pane, app, workspace_items.push(other));
            let without = closing.advanced(pane, app, workspace_items);
            (with.step == asked && with.closing.next == closing.next) <==> (without.step == asked
                && without.closing.next == closing.next)
        }),
{
    let item_id = closing.items_to_close[closing.next];
    let more = workspace_items.push(other);
    assert forall|model: usize|
        would_be_lost(closing, app, more, item_id, model) == would_be_lost(
            closing,
            app,
            workspace_items,
            item_id,
            model,
        ) by {
        if would_be_lost(closing, app, more, item_id, model) {
            assert forall|k: int|
                0 <= k < workspace_items.len() && !closing.items_to_close.contains(
                    #[trigger] workspace_items[k],
                ) implies !lists_model(app, workspace_items[k], model) by {
                assert(more[k] == workspace_items[k]);
            }
        }
        if would_be_lost(closing, app, workspace_items, item_id, model) {
            assert forall|k: int|
                0 <= k < more.len() && !closing.items_to_close.contains(
                    #[trigger] more[k],
                ) implies !lists_model(app, more[k], model) by {
                if k < workspace_items.len() {
                    assert(more[k] == workspace_items[k]);
                }
            }
        }
    }
    lemma_stops(closing, pane, app, workspace_items, index);
    lemma_stops(closing, pane, app, more, index);
}

/// A closing stays at the item that it has come to exactly if a model would be lost.
proof fn lemma_stops<D>(
    closing: CloseModel,
    pane: PaneModel<D>,
    app: AppModel,
    workspace_items: Seq<ItemId>,
    index: int,
)
    requires
        closing.wf(),
        closing.next < closing.items_to_close.len(),
        stands_first(pane.items, closing.items_to_close[closing.next], index),
    ensures
        ({
            let item_id = closing.items_to_close[closing.next];
            let outcome = closing.advanced(pane, app, workspace_items);
            (outcome.step == (CloseStep::Save { item_ix: index as usize, item_id })
                && outcome.closing.next == closing.next) <==> exists|model: usize|
                would_be_lost(closing, app, workspace_items, item_id, model)
        }),
{
    let item_id = closing.items_to_close[closing.next];
    lemma_stands(pane, item_id, index);
    lemma_asks(closing, app, workspace_items, item_id);
    if !closing.asks_about(app, workspace_items, item_id) {
        let further = CloseModel { next: closing.next + 1, ..closing };
        crate::laws::closing::law_closing_goes_in_order(
            further,
            pane.removed(app, index),
            app,
            workspace_items,
        );
    }
}

/// What comes of offering an item for saving: if it was saved or discarded it is dealt with and
/// the next one is next, and otherwise nothing is left to deal with. Only a failure is a failure.
pub proof fn law_going_on_after_a_saving(closing: CloseModel, result: SaveResult)
    requires
        closing.wf(),
        closing.next < closing.items_to_close.len(),
    ensures
        ({
            let after = closing.resumed(result);
            &&& after.wf()
            &&& after.items_to_close == closing.items_to_close
            &&& after.asked == closing.asked
            &&& result == SaveResult::Proceed ==> after.next == closing.next + 1 && !after.failed
            &&& result == SaveResult::Cancelled ==> after.next == closing.items_to_close.len()
                && !after.failed
            &&& result == SaveResult::Failed ==> after.next == closing.items_to_close.len()
                && after.failed
        }),
{
}

/// An item that is offered for saving is asked about if it has edits that leaving it does not save, or
/// if its file has changed on disk, and it can be saved in some way.
pub proof fn law_a_closing_asks_about_edits<P>(closing: CloseModel, app: AppModel)
    requires
        0 <= closing.next < closing.items_to_close.len(),
        app.items.contains_key(closing.items_to_close[closing.next]),
    ensures
        ({
            let facts = app.items[closing.items_to_close[closing.next]];
            let offered = closing.offered::<P>(app);
            &&& facts.has_conflict && facts.can_save ==> offered
                == SaveItem::<P>::AskAboutConflict
            &&& !(facts.has_conflict && facts.can_save) && facts.is_dirty && (facts.can_save
                || facts.is_singleton) && !(app.autosave == Autosave::OnFocusChange || app.autosave
                == Autosave::OnWindowChange) ==> offered == (SaveItem::<P>::AskAboutEdits {
                can_save: facts.can_save,
            })
            &&& !facts.has_conflict && !facts.is_dirty ==> offered == (SaveItem::<P>::Finished {
                proceed: true,
            })
            &&& offered == crate::pane::save::save_begun::<P>(
                app,
                closing.items_to_close[closing.next],
                true,
            )
        }),
{
}

/// An item that was offered for saving is closed exactly if it was saved or discarded. Otherwise
/// nothing is done to the pane.
pub proof fn law_an_item_that_was_saved_is_closed<D>(
    closing: CloseModel,
    pane: PaneModel<D>,
    app: AppModel,
    result: SaveResult,
)
    ensures
        ({
            let item = closing.items_to_close[closing.next];
            &&& result == SaveResult::Proceed ==> closing.pane_after(pane, app, result)
                == pane.closed(app, item) && closing.effects_after(pane, result)
                == pane.close_effects(item)
            &&& result != SaveResult::Proceed ==> closing.pane_after(pane, app, result) == pane
                && closing.effects_after(pane, result).len() == 0
        }),
{
}

/// Closing an item takes out the first one with its identifier, and does nothing without one.
pub proof fn law_closing_an_item<D>(pane: PaneModel<D>, app: AppModel, item: ItemId, index: int)
    ensures
        stands_first(pane.items, item, index) ==> pane.closed(app, item) == pane.removed(app, index)
            && pane.close_effects(item) == pane.remove_effects(index, false),
        !pane.items.contains(item) ==> pane.closed(app, item) == pane && pane.close_effects(
            item,
        ).len() == 0,
{
    law_items_are_found_first(pane, item);
    if stands_first(pane.items, item, index) {
        lemma_stands(pane, item, index);
    }
}

/// A closing deals with the selected items in their order, but with all that show one project
/// entry alone first, and begins with nothing asked about.
pub proof fn law_the_beginning_of_a_closing(app: AppModel, items: Seq<ItemId>)
    ensures
        ({
            let closing = CloseModel::start(app, items);
            &&& closing.next == 0
            &&& !closing.failed
            &&& forall|model: usize| !closing.asked.contains(model)
            &&& closing.items_to_close == items.filter(
                |id: ItemId| app.items.contains_key(id) && app.items[id].is_singleton,
            ) + items.filter(
                |id: ItemId| !(app.items.contains_key(id) && app.items[id].is_singleton),
            )
        }),
{
    assert(singletons(app) =~= (|id: ItemId|
        app.items.contains_key(id) && app.items[id].is_singleton));
    assert(multiples(app) =~= (|id: ItemId|
        !(app.items.contains_key(id) && app.items[id].is_singleton)));
}

/// Which items each kind of closing selects.
pub proof fn law_selection_by_type<D>(pane: PaneModel<D>, app: AppModel)
    requires
        pane.wf(),
        pane.items.len() > 0,
    ensures
        ({
            let active = pane.items[pane.active_item_index];
            &&& pane.items.filter(pane.closes(app, ItemType::Active)) == pane.items.filter(
                |id: ItemId| id == active,
            )
            &&& pane.items.filter(pane.closes(app, ItemType::Inactive)) == pane.items.filter(
                |id: ItemId| id != active,
            )
            &&& pane.items.filter(pane.closes(app, ItemType::Clean)) == pane.items.filter(
                |id: ItemId| !(app.items.contains_key(id) && app.items[id].is_dirty),
            )
            &&& pane.items.filter(pane.closes(app, ItemType::All)) == pane.items
        }),
{
    let active = pane.items[pane.active_item_index];
    assert(equals(active) =~= (|id: ItemId| id == active));
    assert(differs(active) =~= (|id: ItemId| id != active));
    assert(pane.closes(app, ItemType::Clean) =~= (|id: ItemId|
        !(app.items.contains_key(id) && app.items[id].is_dirty)));
    crate::laws::closing::law_item_types(pane, app, active);
}

/// The places at which a decision is for the item, in order.
pub open spec fn decided(decisions: Seq<bool>) -> Seq<int>
    decreases decisions.len(),
{
    if decisions.len() == 0 {
        Seq::empty()
    } else if decisions.last() {
        decided(decisions.drop_last()).push(decisions.len() - 1)
    } else {
        decided(decisions.drop_last())
    }
}

/// The items that were decided for are selected, in their order, and no others.
pub proof fn law_selection_by_decision(items: Seq<ItemId>, decisions: Seq<bool>)
    requires
        decisions.len() == items.len(),
    ensures
        ({
            let places = decided(decisions);
            &&& selected(items, decisions).len() == places.len()
            &&& forall|k: int|
                0 <= k < places.len() ==> 0 <= #[trigger] places[k] < items.len() && selected(
                    items,
                    decisions,
                )[k] == items[places[k]]
            &&& forall|i: int|
                0 <= i < items.len() ==> (#[trigger] decisions[i] <==> places.contains(i))
            &&& forall|k: int, l: int|
                0 <= k < l < places.len() ==> #[trigger] places[k] < #[trigger] places[l]
        }),
    decreases items.len(),
{
    if items.len() > 0 {
        let last = items.len() - 1;
        law_selection_by_decision(items.drop_last(), decisions.drop_last());
        let before = decided(decisions.drop_last());
        let places = decided(decisions);
        assert forall|i: int| 0 <= i < items.len() implies (#[trigger] decisions[i]
            <==> places.contains(i)) by {
            if i < last {
                assert(decisions.drop_last()[i] == decisions[i]);
                if before.contains(i) {
                    let k = choose|k: int| 0 <= k < before.len() && before[k] == i;
                    assert(places[k] == i);
                }
                if places.contains(i) {
                    let k = choose|k: int| 0 <= k < places.len() && places[k] == i;
                    assert(before[k] == i);
                }
            } else {
                if decisions[last] {
                    assert(places[places.len() - 1] == last);
                }
                if places.contains(last) && !decisions[last] {
                    let k = choose|k: int| 0 <= k < places.len() && places[k] == last;
                    assert(before[k] < items.drop_last().len());
                }
            }
        }
        assert forall|k: int| 0 <= k < places.len() implies 0 <= #[trigger] places[k]
            < items.len() && selected(items, decisions)[k] == items[places[k]] by {
            if k < before.len() {
                assert(before[k] == places[k]);
            }
        }
        assert forall|k: int, l: int| 0 <= k < l < places.len() implies #[trigger] places[k]
            < #[trigger] places[l] by {
            assert(before[k] == places[k]);
            if l < before.len() {
                assert(before[l] == places[l]);
            }
        }
    }
}

} // verus!

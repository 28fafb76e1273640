//! Laws of closing items.

use crate::context::{AppModel, ItemId};
use crate::ids::{equals, lemma_filter_contains, lemma_first_index};
use crate::laws::items::{law_activation, law_removal_keeps_the_others};
use crate::pane::close::{is_open_elsewhere, multiples, singletons, singletons_first};
use crate::pane::save::save_begun;
use crate::pane::{CloseModel, CloseStep, ItemType, PaneModel, SaveItem, SaveResult};
use vstd::prelude::*;
use vstd::seq_lib::lemma_multiset_commutative;

verus! {

/// The condition that an item is not among those.
pub open spec fn not_among(ids: Seq<ItemId>) -> spec_fn(ItemId) -> bool {
    |id: ItemId| !ids.contains(id)
}

/// The items that stay open once all that a closing has yet to deal with are closed.
pub open spec fn stay_open(items: Seq<ItemId>, closing: CloseModel) -> Seq<ItemId> {
    items.filter(not_among(closing.items_to_close.skip(closing.next)))
}

proof fn lemma_filter_agree(
    items: Seq<ItemId>,
    first: spec_fn(ItemId) -> bool,
    second: spec_fn(ItemId) -> bool,
)
    requires
        forall|i: int| 0 <= i < items.len() ==> first(#[trigger] items[i]) == second(items[i]),
    ensures
        items.filter(first) == items.filter(second),
    decreases items.len(),
{
    reveal(Seq::filter);
    if items.len() > 0 {
        let rest = items.drop_last();
        assert forall|i: int| 0 <= i < rest.len() implies first(#[trigger] rest[i]) == second(
            rest[i],
        ) by {
            assert(rest[i] == items[i]);
        }
        lemma_filter_agree(rest, first, second);
        assert(items.last() == items[items.len() - 1]);
    }
}

proof fn lemma_filter_removed(
    items: Seq<ItemId>,
    index: int,
    first: spec_fn(ItemId) -> bool,
    second: spec_fn(ItemId) -> bool,
)
    requires
        items.no_duplicates(),
        0 <= index < items.len(),
        forall|id: ItemId| #[trigger] first(id) == (second(id) && id != items[index]),
    ensures
        items.filter(first) == items.remove(index).filter(second),
    decreases items.len(),
{
    reveal(Seq::filter);
    let rest = items.drop_last();
    if index == items.len() - 1 {
        assert(items.remove(index) =~= rest);
        assert forall|i: int| 0 <= i < rest.len() implies first(#[trigger] rest[i]) == second(
            rest[i],
        ) by {
            assert(rest[i] == items[i] && items[i] != items[index]);
        }
        lemma_filter_agree(rest, first, second);
    } else {
        lemma_filter_removed(rest, index, first, second);
        assert(items.remove(index).drop_last() =~= rest.remove(index));
        assert(items.remove(index).last() == items.last());
        assert(items.last() == items[items.len() - 1] && items.last() != items[index]);
    }
}

proof fn lemma_skip_one(ids: Seq<ItemId>, next: int, id: ItemId)
    requires
        0 <= next < ids.len(),
    ensures
        ids.skip(next).contains(id) <==> ids[next] == id || ids.skip(next + 1).contains(id),
{
    let longer = ids.skip(next);
    let shorter = ids.skip(next + 1);
    assert(longer[0] == ids[next]);
    if longer.contains(id) && ids[next] != id {
        let i = choose|i: int| 0 <= i < longer.len() && longer[i] == id;
        assert(shorter[i - 1] == id);
    }
    if shorter.contains(id) {
        let i = choose|i: int| 0 <= i < shorter.len() && shorter[i] == id;
        assert(longer[i + 1] == id);
    }
}

proof fn lemma_filter_all(items: Seq<ItemId>, keep: spec_fn(ItemId) -> bool)
    requires
        forall|i: int| 0 <= i < items.len() ==> keep(#[trigger] items[i]),
    ensures
        items.filter(keep) == items,
    decreases items.len(),
{
    reveal(Seq::filter);
    if items.len() > 0 {
        let rest = items.drop_last();
        assert forall|i: int| 0 <= i < rest.len() implies keep(#[trigger] rest[i]) by {
            assert(rest[i] == items[i]);
        }
        lemma_filter_all(rest, keep);
        assert(items.last() == items[items.len() - 1]);
        assert(rest.push(items.last()) =~= items);
    }
}

/// An item that a closing deals with next is closed by the pane, which has no other with its
/// identifier: what stays open in the end is the same.
pub proof fn law_closing_one_item<D>(pane: PaneModel<D>, app: AppModel, closing: CloseModel)
    requires
        pane.wf(),
        pane.items.no_duplicates(),
        0 <= closing.next < closing.items_to_close.len(),
    ensures
        ({
            let item = closing.items_to_close[closing.next];
            let after = pane.closed(app, item);
            let further = CloseModel { next: closing.next + 1, ..closing };
            &&& after.wf()
            &&& after.items.no_duplicates()
            &&& !after.items.contains(item)
            &&& stay_open(after.items, further) == stay_open(pane.items, closing)
        }),
{
    let ids = closing.items_to_close;
    let item = ids[closing.next];
    let first = not_among(ids.skip(closing.next));
    let second = not_among(ids.skip(closing.next + 1));
    lemma_first_index(pane.items, equals(item));
    assert forall|id: ItemId| #[trigger] first(id) == (second(id) && id != item) by {
        lemma_skip_one(ids, closing.next, id);
    }
    match pane.index_for_item(item) {
        Some(index) => {
            law_removal_keeps_the_others(pane, app, index);
            lemma_filter_removed(pane.items, index, first, second);
            let after = pane.items.remove(index);
            assert forall|i: int, j: int|
                0 <= i < after.len() && 0 <= j < after.len() && i != j implies after[i]
                != after[j] by {
                let i0 = if i < index {
                    i
                } else {
                    i + 1
                };
                let j0 = if j < index {
                    j
                } else {
                    j + 1
                };
                assert(after[i] == pane.items[i0] && after[j] == pane.items[j0]);
            }
            assert forall|i: int| 0 <= i < after.len() implies after[i] != item by {
                let i0 = if i < index {
                    i
                } else {
                    i + 1
                };
                assert(after[i] == pane.items[i0]);
            }
        },
        None => {
            assert forall|i: int| 0 <= i < pane.items.len() implies first(
                #[trigger] pane.items[i],
            ) == second(pane.items[i]) by {
                assert(!equals(item)(pane.items[i]));
            }
            lemma_filter_agree(pane.items, first, second);
        },
    }
}

/// A closing closes exactly the items that it is for: however far it gets, what stays open in
/// the end is the same, and in the same order, and once it is finished nothing is left to close.
pub proof fn law_closing_leaves_the_others<D>(
    closing: CloseModel,
    pane: PaneModel<D>,
    app: AppModel,
    workspace_items: Seq<ItemId>,
)
    requires
        closing.wf(),
        pane.wf(),
        pane.items.no_duplicates(),
    ensures
        ({
            let outcome = closing.advanced(pane, app, workspace_items);
            &&& outcome.pane.wf()
            &&& outcome.pane.items.no_duplicates()
            &&& outcome.closing.wf()
            &&& outcome.closing.items_to_close == closing.items_to_close
            &&& stay_open(outcome.pane.items, outcome.closing) == stay_open(pane.items, closing)
            &&& !(outcome.step is Save) ==> outcome.pane.items == stay_open(pane.items, closing)
        }),
    decreases closing.items_to_close.len() - closing.next,
{
    let ids = closing.items_to_close;
    if closing.next < ids.len() {
        let item = ids[closing.next];
        let further = CloseModel { next: closing.next + 1, ..closing };
        law_closing_one_item(pane, app, closing);
        lemma_first_index(pane.items, equals(item));
        match pane.index_for_item(item) {
            None => {
                law_closing_leaves_the_others(further, pane, app, workspace_items);
            },
            Some(index) => {
                if !closing.asks_about(app, workspace_items, item) {
                    law_closing_leaves_the_others(
                        further,
                        pane.removed(app, index),
                        app,
                        workspace_items,
                    );
                }
            },
        }
    } else {
        lemma_filter_all(pane.items, not_among(ids.skip(closing.next)));
    }
}

/// A closing goes through its items in order, and asks about the one that it has come to.
pub proof fn law_closing_goes_in_order<D>(
    closing: CloseModel,
    pane: PaneModel<D>,
    app: AppModel,
    workspace_items: Seq<ItemId>,
)
    requires
        closing.wf(),
    ensures
        ({
            let outcome = closing.advanced(pane, app, workspace_items);
            &&& closing.next <= outcome.closing.next
            &&& outcome.closing.items_to_close == closing.items_to_close
            &&& outcome.step matches CloseStep::Save { item_ix, item_id } ==> {
                &&& outcome.closing.next < closing.items_to_close.len()
                &&& item_id == closing.items_to_close[outcome.closing.next]
            }
        }),
    decreases closing.items_to_close.len() - closing.next,
{
    if closing.next < closing.items_to_close.len() {
        let item = closing.items_to_close[closing.next];
        let further = CloseModel { next: closing.next + 1, ..closing };
        match pane.index_for_item(item) {
            None => {
                law_closing_goes_in_order(further, pane, app, workspace_items);
            },
            Some(index) => {
                if !closing.asks_about(app, workspace_items, item) {
                    law_closing_goes_in_order(further, pane.removed(app, index), app, workspace_items);
                }
            },
        }
    }
}

/// What is read of the application at each moment of a closing: the items' facts, and the items
/// of the workspace. The closing, the beginning of a saving and the end of it each read anew.
pub type Readings = spec_fn(nat) -> (AppModel, Seq<ItemId>);

/// The pane after a closing in which every item that is offered for saving is saved or
/// discarded. Items that the user is asked about are shown first. What is read of the
/// application may be different each time; `now` counts the readings.
pub open spec fn closed_out<D, P>(
    closing: CloseModel,
    pane: PaneModel<D>,
    readings: Readings,
    now: nat,
) -> PaneModel<D>
    decreases closing.items_to_close.len() - closing.next,
    when closing.wf()
{
    let (app, workspace_items) = readings(now);
    proof {
        law_closing_goes_in_order(closing, pane, app, workspace_items);
    }
    let outcome = closing.advanced(pane, app, workspace_items);
    match outcome.step {
        CloseStep::Save { item_ix, item_id } => {
            let saving = save_begun::<P>(readings(now + 1).0, item_id, true);
            let asked = outcome.pane.save_begun(saving, item_ix as int);
            closed_out::<D, P>(
                outcome.closing.resumed(SaveResult::Proceed),
                asked.closed(readings(now + 2).0, item_id),
                readings,
                now + 3,
            )
        },
        _ => outcome.pane,
    }
}

proof fn lemma_closed_out<D, P>(
    closing: CloseModel,
    pane: PaneModel<D>,
    readings: Readings,
    now: nat,
)
    requires
        closing.wf(),
        pane.wf(),
        pane.items.no_duplicates(),
    ensures
        closed_out::<D, P>(closing, pane, readings, now).items == stay_open(pane.items, closing),
    decreases closing.items_to_close.len() - closing.next,
{
    let (app, workspace_items) = readings(now);
    law_closing_goes_in_order(closing, pane, app, workspace_items);
    law_closing_leaves_the_others(closing, pane, app, workspace_items);
    let outcome = closing.advanced(pane, app, workspace_items);
    if let CloseStep::Save { item_ix, item_id } = outcome.step {
        let saving = save_begun::<P>(readings(now + 1).0, item_id, true);
        let asked = outcome.pane.save_begun(saving, item_ix as int);
        if saving.is_question() && item_ix < outcome.pane.items.len() {
            law_activation(outcome.pane, item_ix as int);
        }
        let later = readings(now + 2).0;
        law_closing_one_item(asked, later, outcome.closing);
        let further = outcome.closing.resumed(SaveResult::Proceed);
        lemma_closed_out::<D, P>(further, asked.closed(later, item_id), readings, now + 3);
    }
}

/// Closing the items of a pane that meet a condition, where every item that is offered for
/// saving is saved or discarded, leaves exactly those that do not meet it, in their order. That
/// is so whatever is read of the application on the way.
pub proof fn law_closing_closes_what_was_selected<D, P>(
    pane: PaneModel<D>,
    app: AppModel,
    readings: Readings,
    should_close: spec_fn(ItemId) -> bool,
)
    requires
        pane.wf(),
        pane.items.no_duplicates(),
    ensures
        closed_out::<D, P>(
            CloseModel::start(app, pane.items.filter(should_close)),
            pane,
            readings,
            0,
        ).items == pane.items.filter(|id: ItemId| !should_close(id)),
{
    let chosen = pane.items.filter(should_close);
    let closing = CloseModel::start(app, chosen);
    let ids = closing.items_to_close;
    let kept = |id: ItemId| !should_close(id);
    lemma_closed_out::<D, P>(closing, pane, readings, 0);
    assert(ids.skip(0) =~= ids);
    assert forall|i: int| 0 <= i < pane.items.len() implies not_among(ids.skip(0))(
        #[trigger] pane.items[i],
    ) == kept(pane.items[i]) by {
        let id = pane.items[i];
        assert(pane.items.contains(id));
        lemma_filter_contains(pane.items, should_close, id);
        lemma_singletons_first_contains(app, chosen, id);
    }
    lemma_filter_agree(pane.items, not_among(ids.skip(0)), kept);
}

proof fn lemma_singletons_first_contains(app: AppModel, items: Seq<ItemId>, id: ItemId)
    ensures
        singletons_first(app, items).contains(id) <==> items.contains(id),
{
    let first = items.filter(singletons(app));
    let second = items.filter(multiples(app));
    let all = singletons_first(app, items);
    lemma_filter_contains(items, singletons(app), id);
    lemma_filter_contains(items, multiples(app), id);
    if all.contains(id) {
        let i = choose|i: int| 0 <= i < all.len() && all[i] == id;
        if i < first.len() {
            assert(first[i] == id);
        } else {
            assert(second[i - first.len()] == id);
        }
    }
    if first.contains(id) {
        let i = choose|i: int| 0 <= i < first.len() && first[i] == id;
        assert(all[i] == id);
    }
    if second.contains(id) {
        let i = choose|i: int| 0 <= i < second.len() && second[i] == id;
        assert(all[first.len() + i] == id);
    }
}

/// Cancelling ends a closing: nothing more is closed.
pub proof fn law_cancelling_ends_the_closing<D>(
    closing: CloseModel,
    pane: PaneModel<D>,
    app: AppModel,
    workspace_items: Seq<ItemId>,
)
    requires
        closing.wf(),
        !closing.failed,
    ensures
        ({
            let outcome = closing.resumed(SaveResult::Cancelled).advanced(
                pane,
                app,
                workspace_items,
            );
            outcome.step is Finished && outcome.pane == pane
        }),
{
}

/// An item that cannot be saved ends a closing: nothing more is closed, nothing is done to the
/// pane, and the closing says that it failed, however often it is asked to go on.
pub proof fn law_failing_ends_the_closing<D, P>(
    closing: CloseModel,
    saving: SaveItem<P>,
    pane: PaneModel<D>,
    app: AppModel,
    workspace_items: Seq<ItemId>,
)
    requires
        closing.wf(),
    ensures
        saving.after_attempt(false).spec_result() == Some(SaveResult::Failed),
        ({
            let failed = closing.resumed(SaveResult::Failed);
            let outcome = failed.advanced(pane, app, workspace_items);
            &&& failed.wf()
            &&& outcome.step is Failed
            &&& outcome.pane == pane
            &&& outcome.effects.len() == 0
            &&& outcome.closing == failed
        }),
{
}

/// A closing is of the items that were selected, each as often as it was selected. It deals
/// with all items that show one project entry alone before any other.
pub proof fn law_singletons_are_closed_first(app: AppModel, items: Seq<ItemId>)
    ensures
        singletons_first(app, items).to_multiset() == items.to_multiset(),
        forall|i: int, j: int|
            0 <= i < j < singletons_first(app, items).len() && app.is_singleton(
                #[trigger] singletons_first(app, items)[j],
            ) ==> app.is_singleton(#[trigger] singletons_first(app, items)[i]),
{
    lemma_partition(app, items);
    let first = items.filter(singletons(app));
    let second = items.filter(multiples(app));
    lemma_multiset_commutative(first, second);
    let all = singletons_first(app, items);
    assert forall|i: int, j: int|
        0 <= i < j < all.len() && app.is_singleton(#[trigger] all[j]) implies app.is_singleton(
        #[trigger] all[i],
    ) by {
        if j >= first.len() {
            assert(second.contains(second[j - first.len()]));
            lemma_filter_contains(items, multiples(app), all[j]);
        } else {
            assert(first.contains(first[i]));
            lemma_filter_contains(items, singletons(app), all[i]);
        }
    }
}

proof fn lemma_partition(app: AppModel, items: Seq<ItemId>)
    ensures
        items.filter(singletons(app)).to_multiset().add(
            items.filter(multiples(app)).to_multiset(),
        ) == items.to_multiset(),
    decreases items.len(),
{
    broadcast use vstd::seq_lib::group_to_multiset_ensures;

    reveal(Seq::filter);
    let first = items.filter(singletons(app));
    let second = items.filter(multiples(app));
    if items.len() > 0 {
        let rest = items.drop_last();
        lemma_partition(app, rest);
        assert(items =~= rest.push(items.last()));
        assert(first.to_multiset().add(second.to_multiset()) =~= items.to_multiset());
    } else {
        assert(first.to_multiset().add(second.to_multiset()) =~= items.to_multiset());
    }
}

/// An item is closed without a question exactly if each of its models is open in an item that
/// stays, or has been asked about.
pub proof fn law_no_model_is_lost_unasked(
    closing: CloseModel,
    app: AppModel,
    workspace_items: Seq<ItemId>,
    item: ItemId,
)
    ensures
        !closing.asks_about(app, workspace_items, item) <==> forall|k: int|
            0 <= k < app.models(item).len() ==> {
                let model = #[trigger] app.models(item)[k];
                is_open_elsewhere(app, workspace_items, closing.items_to_close, model)
                    || closing.asked.contains(model)
            },
{
}

/// A question is about an item with a model that was not asked about before. Afterwards every
/// model of the item that is not open elsewhere has been asked about, so that no further
/// question is asked on its account, and nothing else has been. Without a question nothing is
/// noted.
pub proof fn law_models_are_asked_about_once<D>(
    closing: CloseModel,
    pane: PaneModel<D>,
    app: AppModel,
    workspace_items: Seq<ItemId>,
)
    requires
        closing.wf(),
    ensures
        ({
            let outcome = closing.advanced(pane, app, workspace_items);
            match outcome.step {
                CloseStep::Save { item_ix, item_id } => {
                    &&& closing.asks_about(app, workspace_items, item_id)
                    &&& !outcome.closing.asks_about(app, workspace_items, item_id)
                    &&& forall|model: usize| #[trigger]
                        app.models(item_id).contains(model) ==> is_open_elsewhere(
                            app,
                            workspace_items,
                            closing.items_to_close,
                            model,
                        ) || outcome.closing.asked.contains(model)
                    &&& forall|model: usize| #[trigger]
                        outcome.closing.asked.contains(model) ==> closing.asked.contains(model) || (
                        app.models(item_id).contains(model) && !is_open_elsewhere(
                            app,
                            workspace_items,
                            closing.items_to_close,
                            model,
                        ))
                    &&& forall|model: usize| #[trigger]
                        closing.asked.contains(model) ==> outcome.closing.asked.contains(model)
                },
                _ => outcome.closing.asked == closing.asked,
            }
        }),
    decreases closing.items_to_close.len() - closing.next,
{
    let outcome = closing.advanced(pane, app, workspace_items);
    if closing.next < closing.items_to_close.len() {
        let item = closing.items_to_close[closing.next];
        let further = CloseModel { next: closing.next + 1, ..closing };
        match pane.index_for_item(item) {
            None => {
                law_models_are_asked_about_once(further, pane, app, workspace_items);
                assert(outcome == further.advanced(pane, app, workspace_items));
                lemma_asks_alike(further, closing, app, workspace_items);
            },
            Some(index) => {
                if closing.asks_about(app, workspace_items, item) {
                    let after = closing.asked_about(app, workspace_items, item);
                    assert(outcome.closing == after);
                    assert forall|k: int| 0 <= k < app.models(item).len() implies !after.must_ask(
                        app,
                        workspace_items,
                        #[trigger] app.models(item)[k],
                    ) by {
                        assert(app.models(item).contains(app.models(item)[k]));
                    }
                } else {
                    let removed = pane.removed(app, index);
                    law_models_are_asked_about_once(further, removed, app, workspace_items);
                    let rest = further.advanced(removed, app, workspace_items);
                    assert(outcome.step == rest.step && outcome.closing == rest.closing);
                    lemma_asks_alike(further, closing, app, workspace_items);
                }
            },
        }
    }
}

/// What a closing asks about does not depend on how far it has come.
proof fn lemma_asks_alike(
    first: CloseModel,
    second: CloseModel,
    app: AppModel,
    workspace_items: Seq<ItemId>,
)
    requires
        first.items_to_close == second.items_to_close,
        first.asked == second.asked,
    ensures
        forall|item: ItemId| #[trigger]
            first.asks_about(app, workspace_items, item) == second.asks_about(
                app,
                workspace_items,
                item,
            ),
{
    assert forall|model: usize| #[trigger]
        first.must_ask(app, workspace_items, model) == second.must_ask(
            app,
            workspace_items,
            model,
        ) by {}
}

/// Closing the active item selects it alone, closing the inactive ones all others, closing the
/// clean ones those without edits, and closing all of them every item.
pub proof fn law_item_types<D>(pane: PaneModel<D>, app: AppModel, item: ItemId)
    requires
        pane.wf(),
        pane.items.contains(item),
    ensures
        pane.items.filter(pane.closes(app, ItemType::Active)).contains(item) <==> Some(item)
            == pane.active_item(),
        pane.items.filter(pane.closes(app, ItemType::Inactive)).contains(item) <==> Some(item)
            != pane.active_item(),
        pane.items.filter(pane.closes(app, ItemType::Clean)).contains(item) <==> !app.is_dirty(
            item,
        ),
        pane.items.filter(pane.closes(app, ItemType::All)) == pane.items,
{
    lemma_filter_contains(pane.items, pane.closes(app, ItemType::Active), item);
    lemma_filter_contains(pane.items, pane.closes(app, ItemType::Inactive), item);
    lemma_filter_contains(pane.items, pane.closes(app, ItemType::Clean), item);
    lemma_filter_all(pane.items, pane.closes(app, ItemType::All));
}

} // verus!

//! Laws of activating, adding and removing items.

use crate::context::{AppModel, ItemFacts, ItemId, ProjectEntryId};
use crate::ids::{
    differs, equals, first_index, is_first, lemma_filter_contains, lemma_first_index, lemma_first_index_is, without,
};
use crate::pane::items::{same_item, smaller, view_of};
use crate::pane::{OpenOutcome, PaneModel};
use vstd::prelude::*;

verus! {

/// No two items of the pane count as the same one.
pub open spec fn views_distinct(app: AppModel, items: Seq<ItemId>) -> bool {
    forall|i: int, j: int|
        0 <= i < j < items.len() ==> !app.is_same_item(#[trigger] items[i], #[trigger] items[j])
}

/// Activating an item makes it the active one and the last of the activation history, leaves
/// the items alone and keeps the order in which the others were activated. Every index of the
/// pane can be activated.
pub proof fn law_activation<D>(pane: PaneModel<D>, index: int)
    requires
        pane.wf(),
        0 <= index < pane.items.len(),
    ensures
        pane.activated(index).wf(),
        pane.activated(index).items == pane.items,
        pane.activated(index).active_item() == Some(pane.items[index]),
        pane.activated(index).activation_history.last() == pane.items[index],
        without(pane.activated(index).activation_history, pane.items[index]) == without(
            pane.activation_history,
            pane.items[index],
        ),
{
    let id = pane.items[index];
    let others = without(pane.activation_history, id);
    crate::ids::lemma_moved_to_end_no_duplicates(pane.activation_history, id);
    reveal(Seq::filter);
    assert(others.push(id).drop_last() =~= others);
    lemma_filter_idempotent(pane.activation_history, differs(id));
}

/// Activating an index past the end changes nothing.
pub proof fn law_activation_past_the_end<D>(pane: PaneModel<D>, index: int)
    requires
        index >= pane.items.len(),
    ensures
        pane.activated(index) == pane,
        forall|activate_pane: bool, focus_item: bool|
            pane.activate_effects(index, activate_pane, focus_item).len() == 0,
{
}

proof fn lemma_filter_idempotent(ids: Seq<usize>, keep: spec_fn(usize) -> bool)
    ensures
        ids.filter(keep).filter(keep) == ids.filter(keep),
    decreases ids.len(),
{
    reveal(Seq::filter);
    if ids.len() > 0 {
        let rest = ids.drop_last();
        lemma_filter_idempotent(rest, keep);
        if keep(ids.last()) {
            assert(rest.filter(keep).push(ids.last()).drop_last() =~= rest.filter(keep));
        }
    }
}

/// The next item's previous item is the active one, and the previous item's next one too.
pub proof fn law_next_and_previous<D>(pane: PaneModel<D>)
    requires
        pane.wf(),
        pane.items.len() > 0,
    ensures
        pane.activated(pane.next_index()).prev_index() == pane.active_item_index,
        pane.activated(pane.prev_index()).next_index() == pane.active_item_index,
        pane.activated(pane.next_index()).active_item_index == pane.next_index(),
        pane.activated(pane.prev_index()).active_item_index == pane.prev_index(),
{
}

/// Going to the next item over and over.
pub open spec fn next_times<D>(pane: PaneModel<D>, times: nat) -> PaneModel<D>
    decreases times,
{
    if times == 0 {
        pane
    } else {
        let before = next_times(pane, (times - 1) as nat);
        before.activated(before.next_index())
    }
}

/// Going to the next item as often as there are items comes back to the active one, and comes
/// to every other one on the way.
pub proof fn law_next_goes_around<D>(pane: PaneModel<D>, times: nat)
    requires
        pane.wf(),
        pane.items.len() > 0,
        times <= pane.items.len(),
    ensures
        next_times(pane, times).items == pane.items,
        next_times(pane, times).active_item_index == (if pane.active_item_index + times
            < pane.items.len() {
            pane.active_item_index + times
        } else {
            pane.active_item_index + times - pane.items.len()
        }),
    decreases times,
{
    if times > 0 {
        law_next_goes_around(pane, (times - 1) as nat);
    }
}

/// Adding an item makes it the active one. It is the item itself that becomes active unless
/// another view of the same project entry stays where it is, which becomes active instead.
pub proof fn law_added_item_is_active<D>(
    pane: PaneModel<D>,
    app: AppModel,
    item: ItemId,
    destination: Option<usize>,
)
    requires
        pane.wf(),
    ensures
        ({
            let added = pane.added(app, item, destination);
            &&& added.wf()
            &&& added.active_item_index == pane.added_index(app, item, destination)
            &&& added.active_item() matches Some(active) && app.is_same_item(active, item)
            &&& (match pane.existing_index(app, item) {
                Some(existing) => !pane.stays(existing, destination),
                None => true,
            }) ==> added.active_item() == Some(item)
        }),
{
    lemma_first_index(pane.items, same_item(app, item));
    let index = pane.added_index(app, item, destination);
    let items = pane.added_items(app, item, destination);
    let arranged = PaneModel { items, ..pane };
    crate::ids::lemma_moved_to_end_no_duplicates(pane.activation_history, items[index]);
}

/// Adding an item that the pane has not got puts it at the destination, or at the end where
/// that is past the end, or else after the active item.
pub proof fn law_new_item_goes_where_asked<D>(
    pane: PaneModel<D>,
    app: AppModel,
    item: ItemId,
    destination: Option<usize>,
)
    requires
        pane.wf(),
        pane.existing_index(app, item) is None,
    ensures
        pane.added(app, item, destination).items == pane.items.insert(
            match destination {
                Some(index) => smaller(index as int, pane.items.len() as int),
                None => smaller(pane.active_item_index + 1, pane.items.len() as int),
            },
            item,
        ),
{
}

/// Without a destination an item ends up right after the active one, which stays in the row.
pub proof fn law_added_after_the_active_item<D>(pane: PaneModel<D>, app: AppModel, item: ItemId)
    requires
        pane.wf(),
        pane.items.len() > 0,
        pane.existing_index(app, item) != Some(pane.active_item_index),
    ensures
        ({
            let added = pane.added(app, item, None);
            let carried = pane.carried_active_index(app, item, None);
            &&& 0 <= carried
            &&& carried + 1 == added.active_item_index
            &&& Some(added.items[carried]) == pane.active_item()
        }),
{
    lemma_first_index(pane.items, same_item(app, item));
}

/// Adding an item leaves the others in their order. It makes the row longer by one if the pane
/// had no view of the item, and leaves its length alone if it had one.
pub proof fn law_adding_keeps_the_others<D>(
    pane: PaneModel<D>,
    app: AppModel,
    item: ItemId,
    destination: Option<usize>,
)
    requires
        pane.wf(),
    ensures
        ({
            let added = pane.added(app, item, destination);
            added.items.remove(added.active_item_index) == (match pane.existing_index(app, item) {
                Some(existing) => pane.items.remove(existing),
                None => pane.items,
            })
        }),
        pane.added(app, item, destination).items.len() == (if pane.existing_index(
            app,
            item,
        ) is Some {
            pane.items.len()
        } else {
            pane.items.len() + 1
        }),
{
    lemma_first_index(pane.items, same_item(app, item));
    let added = pane.added(app, item, destination);
    match pane.existing_index(app, item) {
        Some(existing) => {
            if !pane.stays(existing, destination) {
                assert(added.items.remove(added.active_item_index) =~= pane.items.remove(existing));
            }
        },
        None => {
            assert(added.items.remove(added.active_item_index) =~= pane.items);
        },
    }
}

/// Adding an item never leaves two views of one thing in a pane that had no such two.
pub proof fn law_adding_makes_no_duplicates<D>(
    pane: PaneModel<D>,
    app: AppModel,
    item: ItemId,
    destination: Option<usize>,
)
    requires
        pane.wf(),
        views_distinct(app, pane.items),
    ensures
        views_distinct(app, pane.added(app, item, destination).items),
{
    lemma_first_index(pane.items, same_item(app, item));
    let added = pane.added(app, item, destination);
    let at = added.active_item_index;
    let others = match pane.existing_index(app, item) {
        Some(existing) => pane.items.remove(existing),
        None => pane.items,
    };
    assert forall|k: int| 0 <= k < others.len() implies !app.is_same_item(
        #[trigger] others[k],
        item,
    ) by {
        match pane.existing_index(app, item) {
            Some(existing) => {
                let k0 = if k < existing {
                    k
                } else {
                    k + 1
                };
                assert(others[k] == pane.items[k0]);
                if k0 < existing {
                    assert(!app.is_same_item(pane.items[k0], pane.items[existing]));
                } else {
                    assert(!app.is_same_item(pane.items[existing], pane.items[k0]));
                }
                assert(app.is_same_item(pane.items[existing], item));
            },
            None => {
                assert(!same_item(app, item)(pane.items[k]));
            },
        }
    }
    assert forall|k: int, l: int| 0 <= k < l < others.len() implies !app.is_same_item(
        #[trigger] others[k],
        #[trigger] others[l],
    ) by {
        match pane.existing_index(app, item) {
            Some(existing) => {
                let k0 = if k < existing {
                    k
                } else {
                    k + 1
                };
                let l0 = if l < existing {
                    l
                } else {
                    l + 1
                };
                assert(others[k] == pane.items[k0] && others[l] == pane.items[l0]);
            },
            None => {},
        }
    }
    let stays = pane.existing_index(app, item) is Some && pane.stays(
        pane.existing_index(app, item)->0,
        destination,
    );
    if !stays {
        assert(added.items =~= others.insert(at, item));
        assert forall|i: int, j: int| 0 <= i < j < added.items.len() implies !app.is_same_item(
            #[trigger] added.items[i],
            #[trigger] added.items[j],
        ) by {
            if i == at {
                assert(added.items[j] == others[j - 1]);
            } else if j == at {
                assert(added.items[i] == others[i]);
            } else {
                let i0 = if i < at {
                    i
                } else {
                    i - 1
                };
                let j0 = if j < at {
                    j
                } else {
                    j - 1
                };
                assert(added.items[i] == others[i0] && added.items[j] == others[j0]);
            }
        }
    }
}

/// Adding the active item again without a destination leaves the row as it is.
pub proof fn law_adding_the_active_item<D>(pane: PaneModel<D>, app: AppModel, item: ItemId)
    requires
        pane.wf(),
        pane.existing_index(app, item) == Some(pane.active_item_index),
    ensures
        pane.added(app, item, None).items == pane.items,
        pane.added(app, item, None).active_item_index == pane.active_item_index,
{
    lemma_first_index(pane.items, same_item(app, item));
}

/// Adding an item a second time without a destination changes nothing more in the row.
pub proof fn law_adding_twice<D>(
    pane: PaneModel<D>,
    app: AppModel,
    item: ItemId,
    destination: Option<usize>,
)
    requires
        pane.wf(),
        views_distinct(app, pane.items),
    ensures
        ({
            let once = pane.added(app, item, destination);
            let twice = once.added(app, item, None);
            twice.items == once.items && twice.active_item_index == once.active_item_index
        }),
{
    let once = pane.added(app, item, destination);
    let at = once.active_item_index;
    law_added_item_is_active(pane, app, item, destination);
    law_adding_makes_no_duplicates(pane, app, item, destination);
    assert forall|j: int| 0 <= j < at implies !same_item(app, item)(#[trigger] once.items[j]) by {
        assert(!app.is_same_item(once.items[j], once.items[at]));
    }
    assert(is_first(once.items, same_item(app, item), at));
    lemma_first_index_is(once.items, same_item(app, item), at);
    law_adding_the_active_item(once, app, item);
}

/// Removing an item takes it out of the row and leaves the others in their order.
pub proof fn law_removal_keeps_the_others<D>(pane: PaneModel<D>, app: AppModel, index: int)
    requires
        pane.wf(),
        0 <= index < pane.items.len(),
    ensures
        pane.removed(app, index).wf(),
        pane.removed(app, index).items == pane.items.remove(index),
        pane.removed(app, index).items.len() == pane.items.len() - 1,
{
    pane.lemma_successor(index);
    let id = pane.items[index];
    crate::ids::lemma_filter_no_duplicates(pane.activation_history, differs(id));
    let others = without(pane.activation_history, id);
    let rest = if others.len() > 0 {
        others.drop_last()
    } else {
        others
    };
    crate::ids::lemma_moved_to_end_no_duplicates(rest, pane.items[pane.successor_index(index)]);
}

/// Removing an item leaves no two views of one thing in a pane that had no such two.
pub proof fn law_removal_makes_no_duplicates<D>(pane: PaneModel<D>, app: AppModel, index: int)
    requires
        0 <= index < pane.items.len(),
        views_distinct(app, pane.items),
    ensures
        views_distinct(app, pane.removed(app, index).items),
{
    let items = pane.removed(app, index).items;
    assert forall|i: int, j: int| 0 <= i < j < items.len() implies !app.is_same_item(
        #[trigger] items[i],
        #[trigger] items[j],
    ) by {
        let i0 = if i < index {
            i
        } else {
            i + 1
        };
        let j0 = if j < index {
            j
        } else {
            j + 1
        };
        assert(items[i] == pane.items[i0] && items[j] == pane.items[j0]);
    }
}

/// Removing an item that is not active leaves the active one active.
pub proof fn law_removing_an_inactive_item<D>(pane: PaneModel<D>, app: AppModel, index: int)
    requires
        pane.wf(),
        0 <= index < pane.items.len(),
        index != pane.active_item_index,
    ensures
        pane.removed(app, index).active_item() == pane.active_item(),
{
}

/// Removing the active item activates the one that was activated last before it. Where that
/// one is gone it activates the one to the left, or the next one where there is none.
pub proof fn law_removing_the_active_item<D>(pane: PaneModel<D>, app: AppModel)
    requires
        pane.wf(),
        pane.items.len() > 1,
    ensures
        ({
            let index = pane.active_item_index;
            let others = without(pane.activation_history, pane.items[index]);
            pane.removed(app, index).active_item() == Some(
                if others.len() > 0 && pane.items.contains(others.last()) {
                    others.last()
                } else if index > 0 {
                    pane.items[index - 1]
                } else {
                    pane.items[1]
                },
            )
        }),
{
    let index = pane.active_item_index;
    let others = without(pane.activation_history, pane.items[index]);
    pane.lemma_successor(index);
    if others.len() > 0 {
        lemma_first_index(pane.items, equals(others.last()));
        lemma_filter_contains(
            pane.activation_history,
            differs(pane.items[index]),
            others.last(),
        );
        assert(others.contains(others.last()));
    }
}

/// Closing the item that was just activated returns to the one that was active before.
pub proof fn law_closing_returns_to_the_previous_item<D>(
    pane: PaneModel<D>,
    app: AppModel,
    index: int,
)
    requires
        pane.wf(),
        0 <= index < pane.items.len(),
        pane.items[index] != pane.items[pane.active_item_index],
        pane.activation_history.len() > 0,
        pane.activation_history.last() == pane.items[pane.active_item_index],
    ensures
        pane.activated(index).removed(app, index).active_item() == pane.active_item(),
{
    let id = pane.items[index];
    let activated = pane.activated(index);
    law_activation(pane, index);
    law_removing_the_active_item(activated, app);
    let others = without(activated.activation_history, id);
    assert(others == without(pane.activation_history, id));
    reveal(Seq::filter);
    assert(others.last() == pane.activation_history.last());
    assert(pane.items.contains(pane.items[pane.active_item_index]));
}

/// When an item is removed, the path of its file is remembered, or forgotten where it has none.
/// What is remembered of other items stays.
pub proof fn law_removal_remembers_the_path<D>(pane: PaneModel<D>, app: AppModel, index: int)
    requires
        0 <= index < pane.items.len(),
    ensures
        pane.removed(app, index).nav.path(pane.items[index]) == app.project_path(pane.items[index]),
        forall|other: ItemId|
            other != pane.items[index] ==> #[trigger] pane.removed(app, index).nav.path(other)
                == pane.nav.path(other),
{
}

/// What comes of opening a project entry. `built` is the view that is made where the pane has none.
pub open spec fn opened<D>(
    pane: PaneModel<D>,
    app: AppModel,
    entry_id: ProjectEntryId,
    built: (ItemId, ItemFacts),
    focus_item: bool,
) -> OpenOutcome<D> {
    match first_index(pane.items, view_of(app, entry_id)) {
        Some(index) => pane.opened_again(app, index, focus_item),
        None => pane.opened_anew(app, built, focus_item),
    }
}

/// Opening an entry twice shows the same item, which is active after the first time, and the
/// second time changes nothing in the pane.
///
/// The view that is made is new and shows exactly the entry. It does not come to be shown, and
/// the law does not speak of that, where a singleton that has the entry first and others after
/// it is active or stands right after the active item: that one is activated instead.
pub proof fn law_an_entry_is_opened_once<D>(
    pane: PaneModel<D>,
    app: AppModel,
    entry_id: ProjectEntryId,
    built: (ItemId, ItemFacts),
    focus_item: bool,
)
    requires
        pane.wf(),
        first_index(pane.items, view_of(app, entry_id)) is None ==> {
            let known = AppModel { items: app.items.insert(built.0, built.1), ..app };
            &&& !pane.items.contains(built.0)
            &&& built.1.is_singleton
            &&& built.1.project_entry_ids@ == seq![entry_id]
            &&& pane.existing_index(known, built.0) matches Some(existing) ==> !pane.stays(
                existing,
                None,
            )
        },
    ensures
        ({
            let once = opened(pane, app, entry_id, built, focus_item);
            let at = once.pane.active_item_index;
            &&& once.pane.active_item() == Some(once.item)
            &&& first_index(once.pane.items, view_of(once.app, entry_id)) == Some(at)
            &&& forall|other: (ItemId, ItemFacts), focus: bool|
                {
                    let twice = #[trigger] opened(once.pane, once.app, entry_id, other, focus);
                    &&& twice.pane == once.pane
                    &&& twice.app == once.app
                    &&& twice.item == once.item
                }
        }),
{
    let outcome = opened(pane, app, entry_id, built, focus_item);
    let once = outcome.pane;
    let known = outcome.app;
    let item = outcome.item;
    let wanted = view_of(known, entry_id);
    lemma_first_index(pane.items, view_of(app, entry_id));
    match first_index(pane.items, view_of(app, entry_id)) {
        Some(index) => {
            law_activation(pane, index);
        },
        None => {
            lemma_first_index(pane.items, same_item(known, built.0));
            law_added_item_is_active(pane, known, built.0, None);
            law_adding_keeps_the_others(pane, known, built.0, None);
            let at = once.active_item_index;
            assert(wanted(built.0));
            assert forall|j: int| 0 <= j < at implies !wanted(#[trigger] once.items[j]) by {
                assert(once.items.remove(at)[j] == once.items[j]);
                match pane.existing_index(known, built.0) {
                    Some(existing) => {
                        let j0 = if j < existing {
                            j
                        } else {
                            j + 1
                        };
                        assert(pane.items[j0] == once.items[j]);
                        assert(!view_of(app, entry_id)(pane.items[j0]));
                    },
                    None => {
                        assert(!view_of(app, entry_id)(pane.items[j]));
                    },
                }
                assert(pane.items.contains(once.items[j]));
            }
            assert(is_first(once.items, wanted, at));
            lemma_first_index_is(once.items, wanted, at);
        },
    }
    let at = once.active_item_index;
    let others = without(pane.activation_history, item);
    assert(once.activation_history == others.push(item));
    lemma_filter_idempotent(pane.activation_history, differs(item));
    assert(without(others.push(item), item) == others) by {
        reveal(Seq::filter);
        assert(others.push(item).drop_last() =~= others);
    }
    assert(once.activated(at) =~= once);
}

/// An item is found where it stands.
pub proof fn law_items_are_found<D>(pane: PaneModel<D>, index: int)
    requires
        0 <= index < pane.items.len(),
        pane.items.no_duplicates(),
    ensures
        pane.index_for_item(pane.items[index]) == Some(index),
{
    assert(is_first(pane.items, equals(pane.items[index]), index));
    lemma_first_index_is(pane.items, equals(pane.items[index]), index);
}

} // verus!

//! Laws of recording places and of walking the history.

use crate::context::{AppModel, ItemId, ProjectPath};
use crate::ids::{equals, lemma_first_index, lemma_first_index_none};
use crate::nav_history::{NavModel, NavigationEntry, NavigationMode, MAX_NAVIGATION_HISTORY_LEN};
use crate::pane::{Navigation, PaneModel};
use vstd::prelude::*;

verus! {

/// The kind of navigation that finds what is recorded in a mode.
pub open spec fn found_by(mode: NavigationMode) -> NavigationMode {
    match mode {
        NavigationMode::GoingBack => NavigationMode::GoingForward,
        NavigationMode::ClosingItem => NavigationMode::ReopeningClosedItem,
        _ => NavigationMode::GoingBack,
    }
}

/// What was recorded last is found first, by going back, or forward where it was recorded while
/// going back, or by reopening where it was recorded while closing. Taking it off again leaves
/// what was there before, less the oldest entry if the stack was full.
pub proof fn law_last_recorded_is_found_first<D>(nav: NavModel<D>, entry: NavigationEntry<D>)
    requires
        nav.wf(),
        nav.mode != NavigationMode::Disabled,
    ensures
        ({
            let reader = found_by(nav.mode);
            let pushed = nav.pushed(entry);
            let before = nav.source(reader);
            let after = pushed.popped(reader).source(reader);
            &&& pushed.source(reader).len() > 0
            &&& pushed.source(reader).last() == entry
            &&& after == if before.len() < MAX_NAVIGATION_HISTORY_LEN {
                before
            } else {
                before.drop_first()
            }
        }),
{
    let reader = found_by(nav.mode);
    let before = nav.source(reader);
    assert(before.push(entry).drop_last() =~= before);
    assert(before.len() > 0 ==> before.drop_first().push(entry).drop_last()
        =~= before.drop_first());
}

/// No stack ever holds more than its limit.
pub proof fn law_stacks_are_bounded<D>(
    nav: NavModel<D>,
    entry: NavigationEntry<D>,
    mode: NavigationMode,
)
    requires
        nav.wf(),
    ensures
        nav.pushed(entry).wf(),
        nav.popped(mode).wf(),
        nav.with_mode(mode).wf(),
{
}

/// While the history is disabled nothing is recorded.
pub proof fn law_disabled_history_records_nothing<D>(nav: NavModel<D>, entry: NavigationEntry<D>)
    requires
        nav.mode == NavigationMode::Disabled,
    ensures
        nav.pushed(entry) == nav,
{
}

/// A place recorded in the normal course, or while reopening an item, leaves nothing to go
/// forward to. Places recorded on a walk or while closing leave the stack alone that the walk
/// reads.
pub proof fn law_recording_and_the_way_forward<D>(nav: NavModel<D>, entry: NavigationEntry<D>)
    ensures
        nav.mode is Normal || nav.mode is ReopeningClosedItem ==> nav.pushed(entry).forward.len()
            == 0,
        nav.mode is GoingBack || nav.mode is GoingForward || nav.mode is ReopeningClosedItem
            ==> nav.pushed(entry).source(nav.mode) == nav.source(nav.mode),
        nav.mode is ClosingItem ==> nav.pushed(entry).forward == nav.forward
            && nav.pushed(entry).backward == nav.backward,
        nav.pushed(entry).paths == nav.paths,
{
}

/// A walk takes entries, at least one if there is any, off the end of the one stack that it
/// reads. It leaves the other stacks,
/// the remembered paths and the items alone.
pub proof fn law_walk_reads_one_stack<D>(pane: PaneModel<D>, mode: NavigationMode)
    requires
        pane.wf(),
    ensures
        ({
            let after = pane.walk_begun(mode).pane;
            &&& after.wf()
            &&& after.items == pane.items
            &&& after.nav.source(mode).is_prefix_of(pane.nav.source(mode))
            &&& pane.nav.source(mode).len() > 0 ==> after.nav.source(mode).len()
                < pane.nav.source(mode).len()
            &&& forall|other: NavigationMode|
                other != mode ==> #[trigger] after.nav.source(other) == pane.nav.source(other)
            &&& after.nav.paths == pane.nav.paths
            &&& after.nav.pane == pane.nav.pane
        }),
    decreases pane.nav.source(mode).len(),
{
    if pane.nav.source(mode).len() > 0 {
        let entry = pane.nav.source(mode).last();
        let popped = pane.popped(mode);
        lemma_first_index(pane.items, equals(entry.item));
        match pane.index_for_item(entry.item) {
            Some(index) => {
                let visited = popped.visited(mode, index);
                crate::ids::lemma_moved_to_end_no_duplicates(
                    pane.activation_history,
                    pane.items[index],
                );
                assert(visited.wf());
                if entry.data is None && pane.active_item_index == visited.active_item_index {
                    law_walk_reads_one_stack(visited, mode);
                }
            },
            None => {},
        }
    }
}

/// A walk that comes to an end by itself has either come to another item, or has come to an
/// item that is gone and whose path is not known, or has nothing left to read.
pub proof fn law_walk_ends_somewhere<D>(pane: PaneModel<D>, mode: NavigationMode)
    requires
        pane.wf(),
        pane.walk_begun(mode).step is Finished,
    ensures
        ({
            let after = pane.walk_begun(mode).pane;
            let left = after.nav.source(mode).len();
            ||| after.active_item_index != pane.active_item_index
            ||| left == 0
            ||| {
                let entry = pane.nav.source(mode)[left as int];
                pane.index_for_item(entry.item) is None && pane.nav.path(entry.item) is None
            }
        }),
    decreases pane.nav.source(mode).len(),
{
    if pane.nav.source(mode).len() > 0 {
        let entry = pane.nav.source(mode).last();
        let popped = pane.popped(mode);
        lemma_first_index(pane.items, equals(entry.item));
        match pane.index_for_item(entry.item) {
            Some(index) => {
                let visited = popped.visited(mode, index);
                crate::ids::lemma_moved_to_end_no_duplicates(
                    pane.activation_history,
                    pane.items[index],
                );
                assert(visited.wf());
                if entry.data is None && pane.active_item_index == visited.active_item_index {
                    law_walk_reads_one_stack(visited, mode);
                    law_walk_ends_somewhere(visited, mode);
                    let left = pane.walk_begun(mode).pane.nav.source(mode).len();
                    assert(visited.nav.source(mode) == pane.nav.source(mode).drop_last());
                    if visited.nav.source(mode).len() > 0 {
                        assert(visited.nav.source(mode)[left as int] == pane.nav.source(
                            mode,
                        )[left as int]);
                    }
                }
            },
            None => {},
        }
    }
}

/// The first step of a walk whose newest entry is of another item of the pane goes to that item.
proof fn lemma_walk_to_other_item<D>(pane: PaneModel<D>, mode: NavigationMode, index: int)
    requires
        pane.wf(),
        pane.nav.source(mode).len() > 0,
        pane.index_for_item(pane.nav.source(mode).last().item) == Some(index),
        index != pane.active_item_index,
    ensures
        pane.walk_begun(mode).pane == pane.popped(mode).visited(mode, index),
        pane.walk_begun(mode).pane.wf(),
        pane.walk_begun(mode).pane.items == pane.items,
        pane.walk_begun(mode).pane.active_item_index == index,
        pane.walk_begun(mode).pane.nav == pane.nav.popped(mode).with_mode(NavigationMode::Normal),
{
    let entry = pane.nav.source(mode).last();
    lemma_first_index(pane.items, equals(entry.item));
    crate::ids::lemma_moved_to_end_no_duplicates(pane.activation_history, pane.items[index]);
    assert(pane.popped(mode).visited(mode, index).wf());
}

/// Going back after another item was activated returns to the one that was active before, and
/// has it look for the place that it recorded last.
///
/// `places` is what the item that was left recorded of its place.
pub proof fn law_back_to_the_previous_item<D>(
    pane: PaneModel<D>,
    index: int,
    places: Seq<Option<D>>,
)
    requires
        pane.wf(),
        pane.nav.mode is Normal,
        pane.index_for_item(pane.items[pane.active_item_index]) == Some(pane.active_item_index),
        0 <= index < pane.items.len(),
        index != pane.active_item_index,
        places.len() > 0,
    ensures
        ({
            let left = pane.items[pane.active_item_index];
            let recorded = pane.activated(index).recorded(left, NavigationMode::Normal, places);
            let back = recorded.walk_begun(NavigationMode::GoingBack);
            &&& back.pane.active_item() == Some(left)
            &&& back.pane.items == pane.items
            &&& match places.last() {
                Some(data) => back.step == (Navigation::Navigate {
                    item_id: left,
                    data,
                    navigated: true,
                    reopened: false,
                }),
                None => back.step is Finished,
            }
        }),
{
    let active = pane.active_item_index;
    let left = pane.items[active];
    crate::laws::items::law_activation(pane, index);
    let activated = pane.activated(index);
    lemma_recorded_last(activated.nav, NavigationMode::Normal, left, places);
    lemma_walk_to_other_item(
        activated.recorded(left, NavigationMode::Normal, places),
        NavigationMode::GoingBack,
        active,
    );
}

/// Going back and then forward again returns to where one was.
///
/// `index` is the item that the history leads back to, `places` what the item that is left
/// records of its place on the way.
pub proof fn law_back_and_forward<D>(pane: PaneModel<D>, index: int, places: Seq<Option<D>>)
    requires
        pane.wf(),
        pane.index_for_item(pane.items[pane.active_item_index]) == Some(pane.active_item_index),
        pane.index_for_item(pane.items[index]) == Some(index),
        pane.nav.backward.len() > 0,
        0 <= index < pane.items.len(),
        pane.nav.backward.last().item == pane.items[index],
        index != pane.active_item_index,
        places.len() > 0,
    ensures
        ({
            let left = pane.items[pane.active_item_index];
            let back = pane.walk_begun(NavigationMode::GoingBack).pane;
            let recorded = back.recorded(left, NavigationMode::GoingBack, places);
            let forward = recorded.walk_begun(NavigationMode::GoingForward);
            &&& back.active_item() == Some(pane.items[index])
            &&& forward.pane.active_item() == Some(left)
            &&& forward.pane.items == pane.items
            &&& match places.last() {
                Some(data) => forward.step == (Navigation::Navigate {
                    item_id: left,
                    data,
                    navigated: true,
                    reopened: false,
                }),
                None => forward.step is Finished,
            }
        }),
{
    let active = pane.active_item_index;
    let left = pane.items[active];
    lemma_walk_to_other_item(pane, NavigationMode::GoingBack, index);
    let back = pane.walk_begun(NavigationMode::GoingBack).pane;
    let recorded = back.recorded(left, NavigationMode::GoingBack, places);
    lemma_recorded_last(back.nav, NavigationMode::GoingBack, left, places);
    lemma_walk_to_other_item(recorded, NavigationMode::GoingForward, active);
}

/// The last of the places recorded in a mode is on top of the stack, and the stacks keep to
/// their limit.
proof fn lemma_recorded_last<D>(
    nav: NavModel<D>,
    mode: NavigationMode,
    item: ItemId,
    places: Seq<Option<D>>,
)
    requires
        nav.wf(),
        mode != NavigationMode::Disabled,
    ensures
        nav.with_mode(mode).pushed_all(item, places).wf(),
        nav.with_mode(mode).pushed_all(item, places).mode == mode,
        nav.with_mode(mode).pushed_all(item, places).paths == nav.paths,
        nav.with_mode(mode).pushed_all(item, places).pane == nav.pane,
        places.len() > 0 ==> {
            let stack = nav.with_mode(mode).pushed_all(item, places).source(found_by(mode));
            stack.len() > 0 && stack.last() == (NavigationEntry { item, data: places.last() })
        },
    decreases places.len(),
{
    if places.len() > 0 {
        lemma_recorded_last(nav, mode, item, places.drop_last());
        law_last_recorded_is_found_first(
            nav.with_mode(mode).pushed_all(item, places.drop_last()),
            NavigationEntry { item, data: places.last() },
        );
    }
}

/// An item that was closed and has a file is opened again by reopening: its file is loaded, and
/// the place that it recorded last when it was closed is kept for it. If that was the only place
/// and the stack of closed items was not full, the stack is then as it was before the item was
/// closed.
///
/// `earlier` is what the item recorded because another one became active, if it was the active
/// one, and `places` what it recorded because it was closed.
pub proof fn law_closed_item_can_be_reopened<D>(
    pane: PaneModel<D>,
    app: AppModel,
    index: int,
    path: ProjectPath,
    earlier: Seq<Option<D>>,
    places: Seq<Option<D>>,
)
    requires
        pane.wf(),
        0 <= index < pane.items.len(),
        forall|i: int|
            0 <= i < pane.items.len() && i != index ==> #[trigger] pane.items[i]
                != pane.items[index],
        app.project_path(pane.items[index]) == Some(path),
        places.len() > 0,
    ensures
        ({
            let item = pane.items[index];
            let closed = pane.removed(app, index).recorded(item, pane.nav.mode, earlier).recorded(
                item,
                NavigationMode::ClosingItem,
                places,
            );
            let reopening = closed.walk_begun(NavigationMode::ReopeningClosedItem);
            &&& reopening.step == (Navigation::Load {
                project_path: path,
                entry: NavigationEntry { item, data: places.last() },
            })
            &&& places.len() == 1 && pane.nav.closed.len() < MAX_NAVIGATION_HISTORY_LEN && (
            earlier.len() == 0 || !(pane.nav.mode is ClosingItem)) ==> reopening.pane.nav.closed
                == pane.nav.closed
        }),
{
    let item = pane.items[index];
    let removed = pane.removed(app, index);
    crate::laws::items::law_removal_keeps_the_others(pane, app, index);
    crate::laws::items::law_removal_remembers_the_path(pane, app, index);
    let once = removed.recorded(item, pane.nav.mode, earlier);
    if pane.nav.mode == NavigationMode::Disabled {
        lemma_disabled_records_nothing(removed.nav.with_mode(pane.nav.mode), item, earlier);
    } else {
        lemma_recorded_last(removed.nav, pane.nav.mode, item, earlier);
    }
    lemma_recorded_last(once.nav, NavigationMode::ClosingItem, item, places);
    if places.len() == 1 && pane.nav.closed.len() < MAX_NAVIGATION_HISTORY_LEN && (earlier.len()
        == 0 || !(pane.nav.mode is ClosingItem)) {
        lemma_closed_stack_stays(removed.nav.with_mode(pane.nav.mode), item, earlier);
        let entry = NavigationEntry { item, data: places.last() };
        let recording = once.nav.with_mode(NavigationMode::ClosingItem);
        assert(recording.pushed_all(item, places.drop_last()) == recording);
        assert(recording.pushed_all(item, places).closed == pane.nav.closed.push(entry));
        assert(pane.nav.closed.push(entry).drop_last() =~= pane.nav.closed);
    }
    assert forall|i: int| 0 <= i < removed.items.len() implies !equals(item)(
        #[trigger] removed.items[i],
    ) by {
        let i0 = if i < index {
            i
        } else {
            i + 1
        };
        assert(removed.items[i] == pane.items[i0]);
    }
    lemma_first_index_none(removed.items, equals(item));
}

/// Only what is recorded while closing goes to the stack of closed items.
proof fn lemma_closed_stack_stays<D>(nav: NavModel<D>, item: ItemId, places: Seq<Option<D>>)
    requires
        places.len() == 0 || !(nav.mode is ClosingItem),
    ensures
        nav.pushed_all(item, places).closed == nav.closed,
        nav.pushed_all(item, places).mode == nav.mode,
    decreases places.len(),
{
    if places.len() > 0 {
        lemma_closed_stack_stays(nav, item, places.drop_last());
    }
}

proof fn lemma_disabled_records_nothing<D>(
    nav: NavModel<D>,
    item: ItemId,
    places: Seq<Option<D>>,
)
    requires
        nav.mode == NavigationMode::Disabled,
    ensures
        nav.pushed_all(item, places) == nav,
    decreases places.len(),
{
    if places.len() > 0 {
        lemma_disabled_records_nothing(nav, item, places.drop_last());
    }
}

/// Each kind of navigation reads one stack: going back the way back, going forward the way forward,
/// and reopening the closed items. Taking an entry off takes its newest one, and changes nothing else
/// of the history. The other modes read nothing.
pub proof fn law_what_each_mode_reads<D>(nav: NavModel<D>)
    ensures
        nav.source(NavigationMode::GoingBack) == nav.backward,
        nav.source(NavigationMode::GoingForward) == nav.forward,
        nav.source(NavigationMode::ReopeningClosedItem) == nav.closed,
        nav.source(NavigationMode::Normal).len() == 0,
        nav.source(NavigationMode::ClosingItem).len() == 0,
        nav.source(NavigationMode::Disabled).len() == 0,
        nav.backward.len() > 0 ==> nav.popped(NavigationMode::GoingBack) == (NavModel {
            backward: nav.backward.drop_last(),
            ..nav
        }),
        nav.forward.len() > 0 ==> nav.popped(NavigationMode::GoingForward) == (NavModel {
            forward: nav.forward.drop_last(),
            ..nav
        }),
        nav.closed.len() > 0 ==> nav.popped(NavigationMode::ReopeningClosedItem) == (NavModel {
            closed: nav.closed.drop_last(),
            ..nav
        }),
        nav.backward.len() == 0 ==> nav.popped(NavigationMode::GoingBack) == nav,
        nav.forward.len() == 0 ==> nav.popped(NavigationMode::GoingForward) == nav,
        nav.closed.len() == 0 ==> nav.popped(NavigationMode::ReopeningClosedItem) == nav,
        nav.popped(NavigationMode::Normal) == nav,
        nav.popped(NavigationMode::ClosingItem) == nav,
        nav.popped(NavigationMode::Disabled) == nav,
{
}

/// The path that is remembered of an item is the one that was remembered last, and forgetting it
/// leaves none. What is remembered of other items stays, and so does the rest of the history.
pub proof fn law_what_is_remembered<D>(nav: NavModel<D>, item: ItemId, path: Option<ProjectPath>)
    ensures
        nav.with_path(item, path).path(item) == path,
        forall|other: ItemId|
            other != item ==> #[trigger] nav.with_path(item, path).path(other) == nav.path(other),
        nav.with_path(item, path) == (NavModel { paths: nav.with_path(item, path).paths, ..nav }),
        nav.path(item) is Some <==> nav.paths.contains_key(item),
        nav.paths.contains_key(item) ==> nav.path(item) == Some(nav.paths[item]),
{
}

/// A history is valid exactly if none of its stacks holds more than its limit.
pub proof fn law_the_limit_of_the_stacks<D>(nav: NavModel<D>)
    ensures
        nav.wf() <==> nav.backward.len() <= 1024 && nav.forward.len() <= 1024 && nav.closed.len()
            <= 1024,
{
}

/// A pane is valid exactly if its active item is one of its items, or it has none, and no item
/// counts twice among those that were activated, and its history is valid.
pub proof fn law_valid_panes<D>(pane: PaneModel<D>)
    ensures
        pane.wf() <==> {
            &&& 0 <= pane.active_item_index
            &&& pane.active_item_index < pane.items.len() || pane.items.len() == 0
                && pane.active_item_index == 0
            &&& pane.activation_history.no_duplicates()
            &&& pane.nav.wf()
        },
        pane.wf() && pane.items.len() > 0 ==> pane.active_item() == Some(
            pane.items[pane.active_item_index],
        ),
        pane.wf() && pane.items.len() == 0 ==> pane.active_item() is None,
{
}

} // verus!

//! Laws of what items are told when they are left, and of what comes of their answers.

use crate::context::ItemId;
use crate::effect::{Effect, Event};
use crate::ids::{differs, equals, lemma_first_index, lemma_first_index_is};
use crate::nav_history::{NavModel, NavigationEntry, NavigationMode, MAX_NAVIGATION_HISTORY_LEN};
use crate::pane::{Navigation, PaneModel};
use vstd::prelude::*;

verus! {

/// The pane once the application has performed these effects: each item that is told that it is
/// left hands in the places that it wants recorded, and they are recorded in the mode that it is
/// told. `places` gives what is handed in at each effect, by its number.
pub open spec fn answered<D>(
    pane: PaneModel<D>,
    effects: Seq<Effect>,
    places: spec_fn(int) -> Seq<Option<D>>,
) -> PaneModel<D>
    decreases effects.len(),
{
    if effects.len() == 0 {
        pane
    } else {
        let before = answered(pane, effects.drop_last(), places);
        match effects.last() {
            Effect::Deactivated { item_id, mode } => before.recorded(
                item_id,
                mode,
                places(effects.len() - 1),
            ),
            _ => before,
        }
    }
}

/// A stack with one entry more, without its oldest one if it was full.
pub open spec fn with_one_more<D>(
    stack: Seq<NavigationEntry<D>>,
    entry: NavigationEntry<D>,
) -> Seq<NavigationEntry<D>> {
    if stack.len() < 1024 {
        stack.push(entry)
    } else {
        stack.subrange(1, stack.len() as int).push(entry)
    }
}

/// Where a place goes that is recorded in each mode, what it leaves alone, and what it clears.
pub proof fn law_where_a_place_is_recorded<D>(
    pane: PaneModel<D>,
    item: ItemId,
    mode: NavigationMode,
    data: Option<D>,
)
    ensures
        ({
            let entry = NavigationEntry { item, data };
            let before = pane.nav;
            let after = pane.recorded(item, mode, seq![data]).nav;
            &&& after.mode == before.mode
            &&& after.paths == before.paths
            &&& after.pane == before.pane
            &&& match mode {
                NavigationMode::Normal | NavigationMode::ReopeningClosedItem => {
                    &&& after.backward == with_one_more(before.backward, entry)
                    &&& after.forward.len() == 0
                    &&& after.closed == before.closed
                },
                NavigationMode::GoingBack => {
                    &&& after.backward == before.backward
                    &&& after.forward == with_one_more(before.forward, entry)
                    &&& after.closed == before.closed
                },
                NavigationMode::GoingForward => {
                    &&& after.backward == with_one_more(before.backward, entry)
                    &&& after.forward == before.forward
                    &&& after.closed == before.closed
                },
                NavigationMode::ClosingItem => {
                    &&& after.backward == before.backward
                    &&& after.forward == before.forward
                    &&& after.closed == with_one_more(before.closed, entry)
                },
                NavigationMode::Disabled => after == before,
            }
        }),
{
    let start = pane.nav.with_mode(mode);
    let one = seq![data];
    assert(one.drop_last() =~= Seq::<Option<D>>::empty());
    assert(start.pushed_all(item, Seq::<Option<D>>::empty()) == start);
    assert(one.last() == data);
    assert(start.pushed_all(item, one) == start.pushed(NavigationEntry { item, data }));
    let entry = NavigationEntry { item, data };
    assert(pane.nav.backward.len() > 0 ==> pane.nav.backward.drop_first().push(entry)
        =~= pane.nav.backward.subrange(1, pane.nav.backward.len() as int).push(entry));
    assert(pane.nav.forward.len() > 0 ==> pane.nav.forward.drop_first().push(entry)
        =~= pane.nav.forward.subrange(1, pane.nav.forward.len() as int).push(entry));
    assert(pane.nav.closed.len() > 0 ==> pane.nav.closed.drop_first().push(entry)
        =~= pane.nav.closed.subrange(1, pane.nav.closed.len() as int).push(entry));
}

/// What is recorded while walking, however much, leaves alone the stack that the walk reads, and
/// what is not recorded while closing leaves alone the stack of closed items. Nothing else of the
/// pane changes.
pub proof fn law_recording_leaves_the_stack_that_is_read<D>(
    pane: PaneModel<D>,
    item: ItemId,
    mode: NavigationMode,
    places: Seq<Option<D>>,
)
    ensures
        ({
            let after = pane.recorded(item, mode, places);
            &&& mode is GoingBack ==> after.nav.backward == pane.nav.backward
            &&& mode is GoingForward ==> after.nav.forward == pane.nav.forward
            &&& !(mode is ClosingItem) ==> after.nav.closed == pane.nav.closed
            &&& mode is ClosingItem ==> after.nav.backward == pane.nav.backward
                && after.nav.forward == pane.nav.forward
            &&& mode is Disabled ==> after.nav == pane.nav
            &&& after.nav.mode == pane.nav.mode
            &&& after.nav.paths == pane.nav.paths
            &&& after.nav.pane == pane.nav.pane
            &&& pane.nav.wf() ==> after.nav.wf()
            &&& after == PaneModel { nav: after.nav, ..pane }
        }),
{
    lemma_pushed_all(pane.nav.with_mode(mode), item, places);
}

proof fn lemma_pushed_all<D>(nav: NavModel<D>, item: ItemId, places: Seq<Option<D>>)
    ensures
        ({
            let after = nav.pushed_all(item, places);
            &&& nav.mode is GoingBack ==> after.backward == nav.backward
            &&& nav.mode is GoingForward ==> after.forward == nav.forward
            &&& !(nav.mode is ClosingItem) ==> after.closed == nav.closed
            &&& nav.mode is ClosingItem ==> after.backward == nav.backward && after.forward
                == nav.forward
            &&& nav.mode is Disabled ==> after == nav
            &&& after.mode == nav.mode
            &&& after.paths == nav.paths
            &&& after.pane == nav.pane
            &&& nav.wf() ==> after.wf()
        }),
    decreases places.len(),
{
    if places.len() > 0 {
        lemma_pushed_all(nav, item, places.drop_last());
    }
}

/// Activating an item, whatever the mode of the history is, tells the item that is left, and no
/// other, with exactly that mode, and before anything else. That is done exactly if another item
/// was active or the history is being walked. Observers are told then too.
///
/// The toolbar is then given the item, the item gets the focus if that is wanted, and the pane is
/// drawn again, in this order. Nothing is done where there is no item at the index.
pub proof fn law_activation_tells_the_item_that_is_left<D>(
    pane: PaneModel<D>,
    index: int,
    activate_pane: bool,
    focus_item: bool,
)
    requires
        pane.wf(),
    ensures
        ({
            let effects = pane.activate_effects(index, activate_pane, focus_item);
            let item_id = pane.items[index];
            let toolbar = Effect::UpdateToolbar { active_item: Some(item_id) };
            let shown = if focus_item {
                seq![toolbar, Effect::FocusItem { item_id }, Effect::Notify]
            } else {
                seq![toolbar, Effect::Notify]
            };
            if 0 <= index < pane.items.len() {
                if index != pane.active_item_index || pane.nav.mode == NavigationMode::GoingBack
                    || pane.nav.mode == NavigationMode::GoingForward {
                    effects == seq![
                        Effect::Deactivated {
                            item_id: pane.items[pane.active_item_index],
                            mode: pane.nav.mode,
                        },
                        Effect::Emit(Event::ActivateItem { local: activate_pane }),
                    ] + shown
                } else {
                    effects == shown
                }
            } else {
                effects.len() == 0
            }
        }),
{
    let effects = pane.activate_effects(index, activate_pane, focus_item);
    if 0 <= index < pane.items.len() {
        let item_id = pane.items[index];
        let toolbar = Effect::UpdateToolbar { active_item: Some(item_id) };
        let shown = if focus_item {
            seq![toolbar, Effect::FocusItem { item_id }, Effect::Notify]
        } else {
            seq![toolbar, Effect::Notify]
        };
        let told = seq![
            Effect::Deactivated {
                item_id: pane.items[pane.active_item_index],
                mode: pane.nav.mode,
            },
            Effect::Emit(Event::ActivateItem { local: activate_pane }),
        ];
        if pane.switches_to(index) {
            assert(effects =~= told + shown);
        } else {
            assert(effects =~= shown);
        }
    }
}

/// What activating an item does to the pane: the item becomes active and the last of those that
/// were activated, the tabs are to be scrolled, and nothing else changes. An item that was
/// activated before is so only once, and the others were activated in the same order.
pub proof fn law_activation_changes_nothing_else<D>(pane: PaneModel<D>, index: int)
    requires
        pane.wf(),
        0 <= index < pane.items.len(),
    ensures
        ({
            let after = pane.activated(index);
            let item = pane.items[index];
            &&& after == PaneModel {
                active_item_index: index,
                autoscroll: true,
                activation_history: after.activation_history,
                ..pane
            }
            &&& after.activation_history.len() > 0
            &&& after.activation_history.last() == item
            &&& after.activation_history.no_duplicates()
            &&& after.activation_history.drop_last() == pane.activation_history.filter(
                |id: ItemId| id != item,
            )
        }),
{
    let item = pane.items[index];
    let after = pane.activated(index);
    crate::ids::lemma_moved_to_end_no_duplicates(pane.activation_history, item);
    let others = pane.activation_history.filter(differs(item));
    assert(after.activation_history == others.push(item));
    assert(others.push(item).drop_last() =~= others);
    assert(differs(item) =~= (|id: ItemId| id != item));
}

/// An item is found at the first place where it stands, and at none if it stands nowhere.
pub proof fn law_items_are_found_first<D>(pane: PaneModel<D>, item: ItemId)
    ensures
        match pane.index_for_item(item) {
            Some(i) => {
                &&& 0 <= i < pane.items.len()
                &&& pane.items[i] == item
                &&& forall|j: int| 0 <= j < i ==> #[trigger] pane.items[j] != item
            },
            None => !pane.items.contains(item),
        },
{
    lemma_first_index(pane.items, equals(item));
    match pane.index_for_item(item) {
        Some(i) => {
            assert forall|j: int| 0 <= j < i implies #[trigger] pane.items[j] != item by {
                assert(!equals(item)(pane.items[j]));
            }
        },
        None => {
            assert forall|j: int| 0 <= j < pane.items.len() implies pane.items[j] != item by {
                assert(!equals(item)(pane.items[j]));
            }
        },
    }
}

/// The stack that a walk reads, by the name of the mode.
pub open spec fn stack_of<D>(nav: NavModel<D>, mode: NavigationMode) -> Seq<NavigationEntry<D>> {
    match mode {
        NavigationMode::GoingBack => nav.backward,
        NavigationMode::GoingForward => nav.forward,
        NavigationMode::ReopeningClosedItem => nav.closed,
        _ => Seq::empty(),
    }
}

/// The history without the newest entry of the stack that a walk reads, in the normal mode.
pub open spec fn taken_off<D>(nav: NavModel<D>, mode: NavigationMode) -> NavModel<D> {
    match mode {
        NavigationMode::GoingBack => NavModel { backward: nav.backward.drop_last(), ..nav },
        NavigationMode::GoingForward => NavModel { forward: nav.forward.drop_last(), ..nav },
        NavigationMode::ReopeningClosedItem => NavModel { closed: nav.closed.drop_last(), ..nav },
        _ => nav,
    }
}

/// Whether the item stands at this index and at none before it.
pub open spec fn stands_first(items: Seq<ItemId>, item: ItemId, index: int) -> bool {
    &&& 0 <= index < items.len()
    &&& items[index] == item
    &&& forall|j: int| 0 <= j < index ==> #[trigger] items[j] != item
}

proof fn lemma_stands_first<D>(pane: PaneModel<D>, item: ItemId, index: int)
    requires
        stands_first(pane.items, item, index),
    ensures
        pane.index_for_item(item) == Some(index),
{
    assert(crate::ids::is_first(pane.items, equals(item), index));
    lemma_first_index_is(pane.items, equals(item), index);
}

/// A walk with nothing to read only focuses the pane.
pub proof fn law_walk_without_entries<D>(pane: PaneModel<D>, mode: NavigationMode)
    requires
        stack_of(pane.nav, mode).len() == 0,
    ensures
        pane.walk_begun(mode).pane == pane,
        pane.walk_begun(mode).effects == seq![Effect::FocusPane],
        pane.walk_begun(mode).step is Finished,
{
    assert(pane.walk_begun(mode).effects =~= seq![Effect::FocusPane]);
}

/// A walk that comes to an entry of an item that is gone takes the entry off and does nothing
/// else to the pane. Where the path of the item is remembered its file is to be loaded, with the
/// entry kept for it, and else the walk is over.
pub proof fn law_walk_to_an_item_that_is_gone<D>(pane: PaneModel<D>, mode: NavigationMode)
    requires
        stack_of(pane.nav, mode).len() > 0,
        !pane.items.contains(stack_of(pane.nav, mode).last().item),
    ensures
        ({
            let entry = stack_of(pane.nav, mode).last();
            let walk = pane.walk_begun(mode);
            &&& walk.pane == PaneModel { nav: taken_off(pane.nav, mode), ..pane }
            &&& walk.effects == seq![Effect::FocusPane, Effect::DeferHistoryUpdated]
            &&& if pane.nav.paths.contains_key(entry.item) {
                walk.step == (Navigation::Load {
                    project_path: pane.nav.paths[entry.item],
                    entry,
                })
            } else {
                walk.step is Finished
            }
        }),
{
    let entry = stack_of(pane.nav, mode).last();
    law_items_are_found_first(pane, entry.item);
    assert(pane.walk_begun(mode).effects =~= seq![Effect::FocusPane, Effect::DeferHistoryUpdated]);
}

/// A walk that comes to an entry of an item of the pane takes the entry off and activates the
/// item. The item that is left, which may be the same one, is told so in the mode of the walk.
/// With a place the item is to look for it. Without one the walk is over if another item was
/// active.
pub proof fn law_walk_to_an_item<D>(pane: PaneModel<D>, mode: NavigationMode, index: int)
    requires
        pane.wf(),
        mode is GoingBack || mode is GoingForward,
        stack_of(pane.nav, mode).len() > 0,
        stands_first(pane.items, stack_of(pane.nav, mode).last().item, index),
        index != pane.active_item_index || stack_of(pane.nav, mode).last().data is Some,
    ensures
        ({
            let entry = stack_of(pane.nav, mode).last();
            let walk = pane.walk_begun(mode);
            &&& walk.pane == PaneModel {
                nav: NavModel { mode: NavigationMode::Normal, ..taken_off(pane.nav, mode) },
                active_item_index: index,
                autoscroll: true,
                activation_history: pane.activated(index).activation_history,
                ..pane
            }
            &&& walk.effects == seq![
                Effect::FocusPane,
                Effect::DeferHistoryUpdated,
                Effect::Deactivated { item_id: pane.items[pane.active_item_index], mode },
                Effect::Emit(Event::ActivateItem { local: true }),
                Effect::UpdateToolbar { active_item: Some(entry.item) },
                Effect::FocusItem { item_id: entry.item },
                Effect::Notify,
            ]
            &&& match entry.data {
                Some(data) => walk.step == (Navigation::Navigate {
                    item_id: entry.item,
                    data,
                    navigated: index != pane.active_item_index,
                    reopened: false,
                }),
                None => walk.step is Finished,
            }
        }),
{
    let entry = stack_of(pane.nav, mode).last();
    lemma_stands_first(pane, entry.item, index);
    let popped = pane.popped(mode);
    law_activation_tells_the_item_that_is_left(popped.with_mode(mode), index, true, true);
    assert(pane.walk_begun(mode).effects =~= seq![
        Effect::FocusPane,
        Effect::DeferHistoryUpdated,
        Effect::Deactivated { item_id: pane.items[pane.active_item_index], mode },
        Effect::Emit(Event::ActivateItem { local: true }),
        Effect::UpdateToolbar { active_item: Some(entry.item) },
        Effect::FocusItem { item_id: entry.item },
        Effect::Notify,
    ]);
}

/// Reopening that comes to an entry of an item that is in the pane after all does the same, except
/// that the active item is not told that it is left where it is that one.
pub proof fn law_reopening_an_item_of_the_pane<D>(pane: PaneModel<D>, index: int)
    requires
        pane.wf(),
        pane.nav.closed.len() > 0,
        stands_first(pane.items, pane.nav.closed.last().item, index),
        index != pane.active_item_index || pane.nav.closed.last().data is Some,
    ensures
        ({
            let mode = NavigationMode::ReopeningClosedItem;
            let entry = pane.nav.closed.last();
            let walk = pane.walk_begun(mode);
            let told = if index != pane.active_item_index {
                seq![
                    Effect::Deactivated { item_id: pane.items[pane.active_item_index], mode },
                    Effect::Emit(Event::ActivateItem { local: true }),
                ]
            } else {
                seq![]
            };
            &&& walk.pane == PaneModel {
                nav: NavModel { mode: NavigationMode::Normal, ..taken_off(pane.nav, mode) },
                active_item_index: index,
                autoscroll: true,
                activation_history: pane.activated(index).activation_history,
                ..pane
            }
            &&& walk.effects == seq![Effect::FocusPane, Effect::DeferHistoryUpdated] + told + seq![
                Effect::UpdateToolbar { active_item: Some(entry.item) },
                Effect::FocusItem { item_id: entry.item },
                Effect::Notify,
            ]
            &&& match entry.data {
                Some(data) => walk.step == (Navigation::Navigate {
                    item_id: entry.item,
                    data,
                    navigated: index != pane.active_item_index,
                    reopened: false,
                }),
                None => walk.step is Finished,
            }
        }),
{
    let mode = NavigationMode::ReopeningClosedItem;
    let entry = pane.nav.closed.last();
    lemma_stands_first(pane, entry.item, index);
    let popped = pane.popped(mode);
    law_activation_tells_the_item_that_is_left(popped.with_mode(mode), index, true, true);
    let told = if index != pane.active_item_index {
        seq![
            Effect::Deactivated { item_id: pane.items[pane.active_item_index], mode },
            Effect::Emit(Event::ActivateItem { local: true }),
        ]
    } else {
        seq![]
    };
    assert(pane.walk_begun(mode).effects =~= seq![Effect::FocusPane, Effect::DeferHistoryUpdated]
        + told + seq![
        Effect::UpdateToolbar { active_item: Some(entry.item) },
        Effect::FocusItem { item_id: entry.item },
        Effect::Notify,
    ]);
}

/// A walk that comes to an entry of the active item without a place goes on as a walk from there
/// would: it comes to the same pane and waits for the same. The item is activated once more on the
/// way.
pub proof fn law_walk_passes_over_the_active_item<D>(pane: PaneModel<D>, mode: NavigationMode)
    requires
        pane.wf(),
        pane.items.len() > 0,
        stack_of(pane.nav, mode).len() > 0,
        stack_of(pane.nav, mode).last().data is None,
        stands_first(
            pane.items,
            stack_of(pane.nav, mode).last().item,
            pane.active_item_index,
        ),
    ensures
        ({
            let passed = PaneModel {
                nav: NavModel { mode: NavigationMode::Normal, ..taken_off(pane.nav, mode) },
                autoscroll: true,
                activation_history: pane.activated(pane.active_item_index).activation_history,
                ..pane
            };
            &&& pane.walk_begun(mode).pane == passed.walk_begun(mode).pane
            &&& pane.walk_begun(mode).step == passed.walk_begun(mode).step
            &&& pane.walk_begun(mode).effects == seq![
                Effect::FocusPane,
                Effect::DeferHistoryUpdated,
            ] + pane.with_mode(mode).activate_effects(pane.active_item_index, true, true)
                + passed.walk_resumed(mode, false, false).effects
        }),
{
    let entry = stack_of(pane.nav, mode).last();
    lemma_stands_first(pane, entry.item, pane.active_item_index);
    let passed = PaneModel {
        nav: NavModel { mode: NavigationMode::Normal, ..taken_off(pane.nav, mode) },
        autoscroll: true,
        activation_history: pane.activated(pane.active_item_index).activation_history,
        ..pane
    };
    assert(pane.popped(mode).visited(mode, pane.active_item_index) == passed);
    let activation = pane.with_mode(mode).activate_effects(pane.active_item_index, true, true);
    assert(pane.popped(mode).visit_effects(mode, pane.active_item_index) == activation);
    assert(pane.walk_begun(mode).effects =~= seq![Effect::FocusPane, Effect::DeferHistoryUpdated]
        + activation + passed.walk_resumed(mode, false, false).effects);
}

/// Every item that a walk leaves is told so in the mode of the walk, however far it goes, and is
/// an item of the pane.
pub proof fn law_walk_leaves_items_in_its_mode<D>(pane: PaneModel<D>, mode: NavigationMode)
    requires
        pane.wf(),
    ensures
        forall|k: int|
            0 <= k < pane.walk_begun(mode).effects.len() ==> (
            #[trigger] pane.walk_begun(mode).effects[k] matches Effect::Deactivated {
                item_id,
                mode: told,
            } ==> told == mode && pane.items.contains(item_id)),
{
    lemma_walked_in_mode(pane, mode);
}

pub open spec fn leaves_in_mode(
    effects: Seq<Effect>,
    mode: NavigationMode,
    items: Seq<ItemId>,
) -> bool {
    forall|k: int|
        0 <= k < effects.len() ==> (#[trigger] effects[k] matches Effect::Deactivated {
            item_id,
            mode: told,
        } ==> told == mode && items.contains(item_id))
}

proof fn lemma_walked_in_mode<D>(pane: PaneModel<D>, mode: NavigationMode)
    requires
        pane.wf(),
    ensures
        leaves_in_mode(pane.walked(mode).effects, mode, pane.items),
    decreases pane.nav.source(mode).len(),
{
    if pane.nav.source(mode).len() > 0 {
        let entry = pane.nav.source(mode).last();
        law_items_are_found_first(pane, entry.item);
        match pane.index_for_item(entry.item) {
            Some(index) => {
                let popped = pane.popped(mode);
                let visited = popped.visited(mode, index);
                law_activation_changes_nothing_else(popped.with_mode(mode), index);
                law_activation_tells_the_item_that_is_left(
                    popped.with_mode(mode),
                    index,
                    true,
                    true,
                );
                assert(pane.items.contains(pane.items[pane.active_item_index]));
                assert(visited.wf());
                lemma_walked_in_mode(visited, mode);
            },
            None => {},
        }
    }
}

/// Answers to being left in one mode, however many, leave alone the stack that this mode reads,
/// and all but the history.
proof fn lemma_answered_in_mode<D>(
    pane: PaneModel<D>,
    effects: Seq<Effect>,
    places: spec_fn(int) -> Seq<Option<D>>,
    mode: NavigationMode,
    items: Seq<ItemId>,
)
    requires
        leaves_in_mode(effects, mode, items),
    ensures
        ({
            let after = answered(pane, effects, places);
            &&& mode is GoingBack ==> after.nav.backward == pane.nav.backward
            &&& mode is GoingForward ==> after.nav.forward == pane.nav.forward
            &&& !(mode is ClosingItem) ==> after.nav.closed == pane.nav.closed
            &&& after.nav.mode == pane.nav.mode
            &&& after.nav.paths == pane.nav.paths
            &&& after == PaneModel { nav: after.nav, ..pane }
        }),
    decreases effects.len(),
{
    if effects.len() > 0 {
        let fewer = effects.drop_last();
        assert forall|k: int| 0 <= k < fewer.len() implies (
        #[trigger] fewer[k] matches Effect::Deactivated { item_id, mode: told } ==> told == mode
            && items.contains(item_id)) by {
            assert(fewer[k] == effects[k]);
        }
        lemma_answered_in_mode(pane, fewer, places, mode, items);
        let before = answered(pane, fewer, places);
        let last = effects[effects.len() - 1];
        if let Effect::Deactivated { item_id, mode: told } = last {
            law_recording_leaves_the_stack_that_is_read(
                before,
                item_id,
                told,
                places(effects.len() - 1),
            );
        }
    }
}

/// A walk keeps the way on: whatever the items that it leaves record, the stack that it reads is
/// what the walk has left of it, which is the beginning of what it was. So going forward never
/// loses what is further forward, and going back never what is further back.
pub proof fn law_walk_keeps_the_way_on<D>(
    pane: PaneModel<D>,
    mode: NavigationMode,
    places: spec_fn(int) -> Seq<Option<D>>,
)
    requires
        pane.wf(),
        mode is GoingBack || mode is GoingForward || mode is ReopeningClosedItem,
    ensures
        ({
            let walk = pane.walk_begun(mode);
            let after = answered(walk.pane, walk.effects, places);
            let left = stack_of(after.nav, mode);
            &&& left == stack_of(walk.pane.nav, mode)
            &&& left.is_prefix_of(stack_of(pane.nav, mode))
            &&& after.items == pane.items
            &&& after.active_item_index == walk.pane.active_item_index
        }),
{
    let walk = pane.walk_begun(mode);
    law_walk_leaves_items_in_its_mode(pane, mode);
    lemma_answered_in_mode(walk.pane, walk.effects, places, mode, pane.items);
    crate::laws::history::law_walk_reads_one_stack(pane, mode);
    assert(stack_of(pane.nav, mode) == pane.nav.source(mode));
    assert(stack_of(walk.pane.nav, mode) == walk.pane.nav.source(mode));
}

proof fn lemma_answered_walk<D>(
    pane: PaneModel<D>,
    effects: Seq<Effect>,
    places: spec_fn(int) -> Seq<Option<D>>,
    left: ItemId,
    mode: NavigationMode,
)
    requires
        effects.len() == 7,
        effects[2] == (Effect::Deactivated { item_id: left, mode }),
        forall|k: int|
            0 <= k < 7 && k != 2 ==> !(#[trigger] effects[k] is Deactivated),
    ensures
        answered(pane, effects, places) == pane.recorded(left, mode, places(2)),
{
    let e6 = effects.drop_last();
    let e5 = e6.drop_last();
    let e4 = e5.drop_last();
    let e3 = e4.drop_last();
    let e2 = e3.drop_last();
    let e1 = e2.drop_last();
    assert(effects.last() == effects[6]);
    assert(e6.last() == effects[5]);
    assert(e5.last() == effects[4]);
    assert(e4.last() == effects[3]);
    assert(e3.last() == effects[2]);
    assert(e2.last() == effects[1]);
    assert(e1.last() == effects[0]);
    assert(e1.drop_last().len() == 0);
    assert(answered(pane, e1.drop_last(), places) == pane);
    assert(answered(pane, e1, places) == pane);
    assert(answered(pane, e2, places) == pane);
    assert(answered(pane, e3, places) == pane.recorded(left, mode, places(2)));
    assert(answered(pane, e4, places) == pane.recorded(left, mode, places(2)));
    assert(answered(pane, e5, places) == pane.recorded(left, mode, places(2)));
    assert(answered(pane, e6, places) == pane.recorded(left, mode, places(2)));
}

/// A step back to another item, and the answer of the item that is left: the entry is gone from
/// the way back, the place that was left is the next one on the way forward, and the rest of both
/// ways is as it was.
pub proof fn law_step_back<D>(
    pane: PaneModel<D>,
    index: int,
    places: spec_fn(int) -> Seq<Option<D>>,
    data: Option<D>,
)
    requires
        pane.wf(),
        pane.nav.backward.len() > 0,
        stands_first(pane.items, pane.nav.backward.last().item, index),
        index != pane.active_item_index,
        places(2) == seq![data],
    ensures
        ({
            let walk = pane.walk_begun(NavigationMode::GoingBack);
            let after = answered(walk.pane, walk.effects, places);
            let left = pane.items[pane.active_item_index];
            &&& after.active_item_index == index
            &&& after.items == pane.items
            &&& after.nav.mode is Normal
            &&& after.nav.backward == pane.nav.backward.drop_last()
            &&& after.nav.forward == with_one_more(
                pane.nav.forward,
                NavigationEntry { item: left, data },
            )
            &&& after.nav.closed == pane.nav.closed
        }),
{
    let mode = NavigationMode::GoingBack;
    let walk = pane.walk_begun(mode);
    let left = pane.items[pane.active_item_index];
    law_walk_to_an_item(pane, mode, index);
    lemma_answered_walk(walk.pane, walk.effects, places, left, mode);
    law_where_a_place_is_recorded(walk.pane, left, mode, data);
}

/// A step forward to another item, and the answer of the item that is left: the entry is gone from
/// the way forward, which is otherwise kept, and the place that was left is the next one on the
/// way back.
pub proof fn law_step_forward<D>(
    pane: PaneModel<D>,
    index: int,
    places: spec_fn(int) -> Seq<Option<D>>,
    data: Option<D>,
)
    requires
        pane.wf(),
        pane.nav.forward.len() > 0,
        stands_first(pane.items, pane.nav.forward.last().item, index),
        index != pane.active_item_index,
        places(2) == seq![data],
    ensures
        ({
            let walk = pane.walk_begun(NavigationMode::GoingForward);
            let after = answered(walk.pane, walk.effects, places);
            let left = pane.items[pane.active_item_index];
            &&& after.active_item_index == index
            &&& after.items == pane.items
            &&& after.nav.mode is Normal
            &&& after.nav.forward == pane.nav.forward.drop_last()
            &&& after.nav.backward == with_one_more(
                pane.nav.backward,
                NavigationEntry { item: left, data },
            )
            &&& after.nav.closed == pane.nav.closed
        }),
{
    let mode = NavigationMode::GoingForward;
    let walk = pane.walk_begun(mode);
    let left = pane.items[pane.active_item_index];
    law_walk_to_an_item(pane, mode, index);
    lemma_answered_walk(walk.pane, walk.effects, places, left, mode);
    law_where_a_place_is_recorded(walk.pane, left, mode, data);
}

/// Going back and then forward, with the answers of the items that are left, restores the way
/// back: it has the same items in the same order, and all entries but the newest are the same. The
/// item that was active is active again, and what was further forward is kept.
pub proof fn law_back_and_forward_keep_both_ways<D>(
    pane: PaneModel<D>,
    index: int,
    places: spec_fn(int) -> Seq<Option<D>>,
    data: Option<D>,
)
    requires
        pane.wf(),
        0 < pane.nav.backward.len() < MAX_NAVIGATION_HISTORY_LEN,
        pane.nav.forward.len() < MAX_NAVIGATION_HISTORY_LEN,
        stands_first(pane.items, pane.nav.backward.last().item, index),
        stands_first(pane.items, pane.items[pane.active_item_index], pane.active_item_index),
        index != pane.active_item_index,
        places(2) == seq![data],
    ensures
        ({
            let back = pane.walk_begun(NavigationMode::GoingBack);
            let then = answered(back.pane, back.effects, places);
            let forth = then.walk_begun(NavigationMode::GoingForward);
            let after = answered(forth.pane, forth.effects, places);
            &&& after.active_item_index == pane.active_item_index
            &&& after.items == pane.items
            &&& after.nav.forward == pane.nav.forward
            &&& after.nav.closed == pane.nav.closed
            &&& after.nav.backward == pane.nav.backward.drop_last().push(
                NavigationEntry { item: pane.items[index], data },
            )
        }),
{
    let back = pane.walk_begun(NavigationMode::GoingBack);
    let then = answered(back.pane, back.effects, places);
    law_step_back(pane, index, places, data);
    law_walk_to_an_item(pane, NavigationMode::GoingBack, index);
    law_activation_changes_nothing_else(pane, index);
    law_walk_keeps_the_way_on(pane, NavigationMode::GoingBack, places);
    law_walk_leaves_items_in_its_mode(pane, NavigationMode::GoingBack);
    lemma_answered_in_mode(
        back.pane,
        back.effects,
        places,
        NavigationMode::GoingBack,
        pane.items,
    );
    assert(then.wf());
    law_step_forward(then, pane.active_item_index, places, data);
    assert(pane.nav.forward.push(
        NavigationEntry { item: pane.items[pane.active_item_index], data },
    ).drop_last() =~= pane.nav.forward);
}

} // verus!

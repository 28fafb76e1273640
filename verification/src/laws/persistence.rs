//! Laws of keeping a pane between runs of the application.

use crate::pane::persist::{pending_items, recorded_items};
use crate::pane::PaneModel;
use crate::state::{states_left, states_loaded, states_taken, ItemStateModel, RecordKey};
use vstd::prelude::*;

verus! {

/// At most one of these items is the active one.
pub open spec fn one_active(items: Seq<(Seq<char>, bool)>) -> bool {
    forall|i: int, j: int|
        0 <= i < j < items.len() ==> !((#[trigger] items[i]).1 && (#[trigger] items[j]).1)
}

proof fn lemma_pending(namespaces: Seq<Option<String>>, active: int)
    ensures
        one_active(pending_items(namespaces, active)),
        forall|i: int|
            0 <= i < pending_items(namespaces, active).len() && (#[trigger] pending_items(
                namespaces,
                active,
            )[i]).1 ==> active < namespaces.len(),
    decreases namespaces.len(),
{
    if namespaces.len() > 0 {
        lemma_pending(namespaces.drop_last(), active);
    }
}

proof fn lemma_recorded(items: Seq<(Seq<char>, bool)>, record_ids: Seq<Option<u64>>)
    requires
        one_active(items),
        record_ids.len() == items.len(),
    ensures
        forall|i: int, j: int|
            0 <= i < j < recorded_items(items, record_ids).len() ==> !((#[trigger] recorded_items(
                items,
                record_ids,
            )[i]).active && (#[trigger] recorded_items(items, record_ids)[j]).active),
        forall|i: int|
            0 <= i < recorded_items(items, record_ids).len() && (#[trigger] recorded_items(
                items,
                record_ids,
            )[i]).active ==> exists|k: int| 0 <= k < items.len() && (#[trigger] items[k]).1,
    decreases items.len(),
{
    if items.len() > 0 {
        let fewer = items.drop_last();
        assert forall|i: int, j: int| 0 <= i < j < fewer.len() implies !((
        #[trigger] fewer[i]).1 && (#[trigger] fewer[j]).1) by {
            assert(fewer[i] == items[i] && fewer[j] == items[j]);
        }
        lemma_recorded(fewer, record_ids.drop_last());
        let earlier = recorded_items(fewer, record_ids.drop_last());
        assert forall|i: int| 0 <= i < earlier.len() && (#[trigger] earlier[i]).active implies exists|
            k: int,
        |
            0 <= k < items.len() - 1 && (#[trigger] items[k]).1 by {
            let k = choose|k: int| 0 <= k < fewer.len() && (#[trigger] fewer[k]).1;
            assert(items[k] == fewer[k]);
        }
        assert(items[items.len() - 1] == items.last());
    }
}

/// At most one item of a kept pane is marked as active.
pub proof fn law_one_kept_item_is_active(
    namespaces: Seq<Option<String>>,
    active: int,
    record_ids: Seq<Option<u64>>,
    i: int,
    j: int,
)
    requires
        record_ids.len() == pending_items(namespaces, active).len(),
        0 <= i < j < recorded_items(pending_items(namespaces, active), record_ids).len(),
    ensures
        ({
            let items = recorded_items(pending_items(namespaces, active), record_ids);
            !(items[i].active && items[j].active)
        }),
{
    lemma_pending(namespaces, active);
    lemma_recorded(pending_items(namespaces, active), record_ids);
}

proof fn lemma_all_pending(namespaces: Seq<Option<String>>, active: int)
    requires
        forall|i: int| 0 <= i < namespaces.len() ==> (#[trigger] namespaces[i]) is Some,
    ensures
        pending_items(namespaces, active) == Seq::new(
            namespaces.len(),
            |i: int| (namespaces[i]->0@, i == active),
        ),
    decreases namespaces.len(),
{
    let all = Seq::new(namespaces.len(), |i: int| (namespaces[i]->0@, i == active));
    if namespaces.len() > 0 {
        let fewer = namespaces.drop_last();
        assert forall|i: int| 0 <= i < fewer.len() implies (#[trigger] fewer[i]) is Some by {
            assert(fewer[i] == namespaces[i]);
        }
        lemma_all_pending(fewer, active);
        assert(namespaces[namespaces.len() - 1] is Some);
        assert(pending_items(namespaces, active) =~= all);
    } else {
        assert(pending_items(namespaces, active) =~= all);
    }
}

proof fn lemma_all_recorded(items: Seq<(Seq<char>, bool)>, record_ids: Seq<Option<u64>>)
    requires
        record_ids.len() == items.len(),
        forall|i: int| 0 <= i < record_ids.len() ==> (#[trigger] record_ids[i]) is Some,
    ensures
        recorded_items(items, record_ids) == Seq::new(
            items.len(),
            |i: int|
                ItemStateModel {
                    record_namespace: items[i].0,
                    record_id: record_ids[i]->0,
                    active: items[i].1,
                },
        ),
    decreases items.len(),
{
    let all = Seq::new(
        items.len(),
        |i: int|
            ItemStateModel {
                record_namespace: items[i].0,
                record_id: record_ids[i]->0,
                active: items[i].1,
            },
    );
    if items.len() > 0 {
        let fewer = record_ids.drop_last();
        assert forall|i: int| 0 <= i < fewer.len() implies (#[trigger] fewer[i]) is Some by {
            assert(fewer[i] == record_ids[i]);
        }
        lemma_all_recorded(items.drop_last(), fewer);
        assert(record_ids[items.len() - 1] is Some);
        assert(recorded_items(items, record_ids) =~= all);
    } else {
        assert(recorded_items(items, record_ids) =~= all);
    }
}

/// Where every item has a namespace and is saved, all are kept, in order, with the active one
/// marked.
pub proof fn law_all_items_are_kept(
    namespaces: Seq<Option<String>>,
    active: int,
    record_ids: Seq<Option<u64>>,
)
    requires
        record_ids.len() == namespaces.len(),
        forall|i: int| 0 <= i < namespaces.len() ==> (#[trigger] namespaces[i]) is Some,
        forall|i: int| 0 <= i < record_ids.len() ==> (#[trigger] record_ids[i]) is Some,
    ensures
        recorded_items(pending_items(namespaces, active), record_ids) == Seq::new(
            namespaces.len(),
            |i: int|
                ItemStateModel {
                    record_namespace: namespaces[i]->0@,
                    record_id: record_ids[i]->0,
                    active: i == active,
                },
        ),
{
    lemma_all_pending(namespaces, active);
    lemma_all_recorded(pending_items(namespaces, active), record_ids);
    assert(recorded_items(pending_items(namespaces, active), record_ids) =~= Seq::new(
        namespaces.len(),
        |i: int|
            ItemStateModel {
                record_namespace: namespaces[i]->0@,
                record_id: record_ids[i]->0,
                active: i == active,
            },
    ));
}

/// No two items have the same record.
pub open spec fn keys_distinct(items: Seq<ItemStateModel>) -> bool {
    forall|i: int, j: int|
        0 <= i < j < items.len() ==> (#[trigger] items[i]).key() != (#[trigger] items[j]).key()
}

/// What is stored under a key.
pub open spec fn stored<T>(states: Map<RecordKey, T>, key: RecordKey) -> Option<T> {
    if states.contains_key(key) {
        Some(states[key])
    } else {
        None
    }
}

proof fn lemma_loaded<T>(
    states: Map<RecordKey, T>,
    items: Seq<ItemStateModel>,
    loaded: Seq<Option<T>>,
)
    requires
        loaded.len() == items.len(),
        keys_distinct(items),
    ensures
        forall|i: int|
            0 <= i < items.len() ==> stored(
                states_loaded(states, items, loaded),
                (#[trigger] items[i]).key(),
            ) == (match loaded[i] {
                Some(state) => Some(state),
                None => stored(states, items[i].key()),
            }),
        forall|key: RecordKey|
            (forall|i: int| 0 <= i < items.len() ==> (#[trigger] items[i]).key() != key)
                ==> #[trigger] stored(states_loaded(states, items, loaded), key) == stored(
                states,
                key,
            ),
    decreases items.len(),
{
    if items.len() > 0 {
        let fewer = items.drop_last();
        let rest = loaded.drop_last();
        assert forall|i: int, j: int| 0 <= i < j < fewer.len() implies (#[trigger] fewer[i]).key()
            != (#[trigger] fewer[j]).key() by {
            assert(fewer[i] == items[i] && fewer[j] == items[j]);
        }
        lemma_loaded(states, fewer, rest);
        let before = states_loaded(states, fewer, rest);
        let last = items.len() - 1;
        assert forall|i: int| 0 <= i < fewer.len() implies (#[trigger] fewer[i]).key()
            != items[last].key() by {
            assert(fewer[i] == items[i]);
        }
        assert(stored(before, items[last].key()) == stored(states, items[last].key()));
        assert forall|i: int| 0 <= i < items.len() implies stored(
            states_loaded(states, items, loaded),
            (#[trigger] items[i]).key(),
        ) == (match loaded[i] {
            Some(state) => Some(state),
            None => stored(states, items[i].key()),
        }) by {
            if i < last {
                assert(fewer[i] == items[i] && rest[i] == loaded[i]);
                assert(items[i].key() != items[last].key());
            }
        }
        assert forall|key: RecordKey|
            (forall|i: int| 0 <= i < items.len() ==> (#[trigger] items[i]).key() != key) implies
            #[trigger] stored(states_loaded(states, items, loaded), key) == stored(states, key) by {
            assert forall|i: int| 0 <= i < fewer.len() implies (#[trigger] fewer[i]).key()
                != key by {
                assert(fewer[i] == items[i]);
            }
            assert(items[last].key() != key);
            assert(stored(before, key) == stored(states, key));
        }
    }
}

proof fn lemma_taken<T>(states: Map<RecordKey, T>, items: Seq<ItemStateModel>)
    requires
        keys_distinct(items),
    ensures
        states_taken(states, items).len() == items.len(),
        forall|i: int|
            0 <= i < items.len() ==> states_taken(states, items)[i] == stored(
                states,
                (#[trigger] items[i]).key(),
            ),
        forall|key: RecordKey|
            (forall|i: int| 0 <= i < items.len() ==> (#[trigger] items[i]).key() != key)
                ==> #[trigger] stored(states_left(states, items), key) == stored(states, key),
        forall|i: int|
            0 <= i < items.len() ==> !states_left(states, items).contains_key(
                (#[trigger] items[i]).key(),
            ),
    decreases items.len(),
{
    if items.len() > 0 {
        let fewer = items.drop_last();
        let last = items.len() - 1;
        assert forall|i: int, j: int| 0 <= i < j < fewer.len() implies (#[trigger] fewer[i]).key()
            != (#[trigger] fewer[j]).key() by {
            assert(fewer[i] == items[i] && fewer[j] == items[j]);
        }
        lemma_taken(states, fewer);
        let left = states_left(states, fewer);
        assert forall|i: int| 0 <= i < fewer.len() implies (#[trigger] fewer[i]).key()
            != items[last].key() by {
            assert(fewer[i] == items[i]);
        }
        assert(stored(left, items[last].key()) == stored(states, items[last].key()));
        assert forall|i: int| 0 <= i < items.len() implies states_taken(states, items)[i] == stored(
            states,
            (#[trigger] items[i]).key(),
        ) by {
            if i < last {
                assert(fewer[i] == items[i]);
            }
        }
        assert forall|key: RecordKey|
            (forall|i: int| 0 <= i < items.len() ==> (#[trigger] items[i]).key() != key) implies
            #[trigger] stored(states_left(states, items), key) == stored(states, key) by {
            assert forall|i: int| 0 <= i < fewer.len() implies (#[trigger] fewer[i]).key()
                != key by {
                assert(fewer[i] == items[i]);
            }
            assert(items[last].key() != key);
            assert(stored(left, key) == stored(states, key));
        }
        assert forall|i: int| 0 <= i < items.len() implies !states_left(
            states,
            items,
        ).contains_key((#[trigger] items[i]).key()) by {
            if i < last {
                assert(fewer[i] == items[i]);
            }
        }
    }
}

/// Restoring a pane hands out, for each item, the state that was loaded for it, or, where none
/// could be loaded, what was stored before. What is stored of other items stays.
pub proof fn law_restoring_gives_what_was_loaded<T>(
    states: Map<RecordKey, T>,
    items: Seq<ItemStateModel>,
    loaded: Seq<Option<T>>,
)
    requires
        loaded.len() == items.len(),
        keys_distinct(items),
    ensures
        ({
            let ready = states_loaded(states, items, loaded);
            let taken = states_taken(ready, items);
            let left = states_left(ready, items);
            &&& taken.len() == items.len()
            &&& forall|i: int|
                0 <= i < items.len() ==> #[trigger] taken[i] == (match loaded[i] {
                    Some(state) => Some(state),
                    None => stored(states, items[i].key()),
                })
            &&& forall|i: int|
                0 <= i < items.len() ==> !left.contains_key((#[trigger] items[i]).key())
            &&& forall|key: RecordKey|
                (forall|i: int| 0 <= i < items.len() ==> (#[trigger] items[i]).key() != key)
                    ==> #[trigger] stored(left, key) == stored(states, key)
        }),
{
    lemma_loaded(states, items, loaded);
    let ready = states_loaded(states, items, loaded);
    lemma_taken(ready, items);
    let taken = states_taken(ready, items);
    assert forall|i: int| 0 <= i < items.len() implies #[trigger] taken[i] == (match loaded[i] {
        Some(state) => Some(state),
        None => stored(states, items[i].key()),
    }) by {
        assert(taken[i] == stored(ready, items[i].key()));
    }
    assert forall|key: RecordKey|
        (forall|i: int| 0 <= i < items.len() ==> (#[trigger] items[i]).key() != key) implies
        #[trigger] stored(states_left(ready, items), key) == stored(states, key) by {
        assert(stored(ready, key) == stored(states, key));
    }
}

/// What is kept of a pane says whether the pane was active, and of each item that has a namespace,
/// in order, its namespace and whether it was the active item.
pub proof fn law_what_is_kept_of_a_pane<D>(
    pane: PaneModel<D>,
    namespaces: Seq<Option<String>>,
)
    ensures
        ({
            let pending = pane.pending_state(namespaces);
            let places = named_places(namespaces);
            &&& pending.active == pane.is_active
            &&& pending.items.len() == places.len()
            &&& forall|k: int|
                0 <= k < places.len() ==> #[trigger] pending.items[k] == (
                    namespaces[places[k]]->0@,
                    places[k] == pane.active_item_index,
                )
        }),
{
    lemma_named(namespaces, pane.active_item_index);
}

/// The places of the items that have a namespace, in order.
pub open spec fn named_places(namespaces: Seq<Option<String>>) -> Seq<int>
    decreases namespaces.len(),
{
    if namespaces.len() == 0 {
        Seq::empty()
    } else if namespaces.last() is Some {
        named_places(namespaces.drop_last()).push(namespaces.len() - 1)
    } else {
        named_places(namespaces.drop_last())
    }
}

proof fn lemma_named(namespaces: Seq<Option<String>>, active: int)
    ensures
        pending_items(namespaces, active).len() == named_places(namespaces).len(),
        forall|k: int|
            0 <= k < named_places(namespaces).len() ==> 0 <= #[trigger] named_places(namespaces)[k]
                < namespaces.len(),
        forall|k: int|
            0 <= k < named_places(namespaces).len() ==> #[trigger] pending_items(
                namespaces,
                active,
            )[k] == (
                namespaces[named_places(namespaces)[k]]->0@,
                named_places(namespaces)[k] == active,
            ),
    decreases namespaces.len(),
{
    if namespaces.len() > 0 {
        let fewer = namespaces.drop_last();
        lemma_named(fewer, active);
        let before = named_places(fewer);
        let places = named_places(namespaces);
        assert forall|k: int| 0 <= k < places.len() implies 0 <= #[trigger] places[k]
            < namespaces.len() by {
            if k < before.len() {
                assert(places[k] == before[k]);
            }
        }
        assert forall|k: int| 0 <= k < places.len() implies #[trigger] pending_items(
            namespaces,
            active,
        )[k] == (namespaces[places[k]]->0@, places[k] == active) by {
            if k < before.len() {
                assert(places[k] == before[k]);
                assert(pending_items(namespaces, active)[k] == pending_items(fewer, active)[k]);
                assert(fewer[before[k]] == namespaces[before[k]]);
            }
        }
    }
}

/// The places of the items that got a record, in order.
pub open spec fn recorded_places(record_ids: Seq<Option<u64>>) -> Seq<int>
    decreases record_ids.len(),
{
    if record_ids.len() == 0 {
        Seq::empty()
    } else if record_ids.last() is Some {
        recorded_places(record_ids.drop_last()).push(record_ids.len() - 1)
    } else {
        recorded_places(record_ids.drop_last())
    }
}

/// Of the items that were to be kept, those are that got a record, in order, each with its namespace,
/// its record, and whether it was the active item.
pub proof fn law_items_with_a_record_are_kept(
    items: Seq<(Seq<char>, bool)>,
    record_ids: Seq<Option<u64>>,
)
    requires
        record_ids.len() == items.len(),
    ensures
        ({
            let kept = recorded_items(items, record_ids);
            let places = recorded_places(record_ids);
            &&& kept.len() == places.len()
            &&& forall|k: int|
                0 <= k < places.len() ==> 0 <= #[trigger] places[k] < items.len()
            &&& forall|k: int|
                0 <= k < places.len() ==> {
                    let state = #[trigger] kept[k];
                    &&& state.record_namespace == items[places[k]].0
                    &&& Some(state.record_id) == record_ids[places[k]]
                    &&& state.active == items[places[k]].1
                }
        }),
    decreases items.len(),
{
    if items.len() > 0 {
        let fewer = record_ids.drop_last();
        law_items_with_a_record_are_kept(items.drop_last(), fewer);
        let before = recorded_places(fewer);
        let places = recorded_places(record_ids);
        let kept = recorded_items(items, record_ids);
        let earlier = recorded_items(items.drop_last(), fewer);
        assert forall|k: int| 0 <= k < places.len() implies 0 <= #[trigger] places[k]
            < items.len() by {
            if k < before.len() {
                assert(places[k] == before[k]);
            }
        }
        assert forall|k: int| 0 <= k < places.len() implies {
            let state = #[trigger] kept[k];
            &&& state.record_namespace == items[places[k]].0
            &&& Some(state.record_id) == record_ids[places[k]]
            &&& state.active == items[places[k]].1
        } by {
            if k < before.len() {
                assert(places[k] == before[k]);
                assert(kept[k] == earlier[k]);
                assert(fewer[before[k]] == record_ids[before[k]]);
            }
        }
    }
}

/// The key of an item's record.
pub open spec fn record_of(item: ItemStateModel) -> RecordKey {
    (item.record_namespace, item.record_id)
}

/// Of several states that are loaded for one record the last one is stored. A record for which none
/// is loaded keeps what was stored before.
pub proof fn law_the_last_loaded_state_is_stored<T>(
    states: Map<RecordKey, T>,
    items: Seq<ItemStateModel>,
    loaded: Seq<Option<T>>,
    key: RecordKey,
)
    requires
        loaded.len() == items.len(),
    ensures
        ({
            let after = states_loaded(states, items, loaded);
            &&& (forall|i: int|
                0 <= i < items.len() && loaded[i] is Some ==> record_of(#[trigger] items[i]) != key)
                ==> stored(after, key) == stored(states, key)
            &&& forall|i: int|
                0 <= i < items.len() && loaded[i] is Some && record_of(#[trigger] items[i]) == key
                    && (forall|j: int|
                    i < j < items.len() && loaded[j] is Some ==> record_of(#[trigger] items[j])
                        != key) ==> stored(after, key) == loaded[i]
        }),
    decreases items.len(),
{
    if items.len() > 0 {
        let fewer = items.drop_last();
        let rest = loaded.drop_last();
        let last = items.len() - 1;
        law_the_last_loaded_state_is_stored(states, fewer, rest, key);
        let after = states_loaded(states, items, loaded);
        let before = states_loaded(states, fewer, rest);
        if forall|i: int|
            0 <= i < items.len() && loaded[i] is Some ==> record_of(#[trigger] items[i]) != key {
            assert forall|i: int| 0 <= i < fewer.len() && rest[i] is Some implies record_of(
                #[trigger] fewer[i],
            ) != key by {
                assert(fewer[i] == items[i] && rest[i] == loaded[i]);
            }
            assert(loaded[last] is Some ==> record_of(items[last]) != key);
        }
        assert forall|i: int|
            0 <= i < items.len() && loaded[i] is Some && record_of(#[trigger] items[i]) == key && (
            forall|j: int|
                i < j < items.len() && loaded[j] is Some ==> record_of(#[trigger] items[j])
                    != key) implies stored(after, key) == loaded[i] by {
            if i < last {
                assert(fewer[i] == items[i] && rest[i] == loaded[i]);
                assert forall|j: int| i < j < fewer.len() && rest[j] is Some implies record_of(
                    #[trigger] fewer[j],
                ) != key by {
                    assert(fewer[j] == items[j] && rest[j] == loaded[j]);
                }
                assert(stored(before, key) == rest[i]);
                assert(loaded[last] is Some ==> record_of(items[last]) != key);
            }
        }
    }
}

/// Restoring takes the states of all the items' records out and leaves the others. The first item of a
/// record gets its state, if there is one, and further items of the same record get none.
pub proof fn law_what_restoring_takes<T>(
    states: Map<RecordKey, T>,
    items: Seq<ItemStateModel>,
)
    ensures
        states_taken(states, items).len() == items.len(),
        forall|i: int|
            0 <= i < items.len() ==> #[trigger] states_taken(states, items)[i] == (if exists|j: int|
                0 <= j < i && record_of(#[trigger] items[j]) == record_of(items[i]) {
                None
            } else {
                stored(states, record_of(items[i]))
            }),
        forall|key: RecordKey|
            #[trigger] stored(states_left(states, items), key) == (if exists|j: int|
                0 <= j < items.len() && record_of(#[trigger] items[j]) == key {
                None
            } else {
                stored(states, key)
            }),
    decreases items.len(),
{
    if items.len() > 0 {
        let fewer = items.drop_last();
        let last = items.len() - 1;
        law_what_restoring_takes(states, fewer);
        let left = states_left(states, fewer);
        assert forall|i: int| 0 <= i < items.len() implies #[trigger] states_taken(
            states,
            items,
        )[i] == (if exists|j: int|
            0 <= j < i && record_of(#[trigger] items[j]) == record_of(items[i]) {
            None
        } else {
            stored(states, record_of(items[i]))
        }) by {
            let key = record_of(items[i]);
            if i < last {
                assert(states_taken(states, items)[i] == states_taken(states, fewer)[i]);
                assert(fewer[i] == items[i]);
                lemma_same_before(items, key, i);
            } else {
                assert(states_taken(states, items)[i] == stored(left, key));
                lemma_same_before(items, key, last);
            }
        }
        assert forall|key: RecordKey|
            #[trigger] stored(states_left(states, items), key) == (if exists|j: int|
                0 <= j < items.len() && record_of(#[trigger] items[j]) == key {
                None
            } else {
                stored(states, key)
            }) by {
            lemma_same_before(items, key, last);
            assert(stored(left, key) == (if exists|j: int|
                0 <= j < fewer.len() && record_of(#[trigger] fewer[j]) == key {
                None
            } else {
                stored(states, key)
            }));
            if record_of(items[last]) == key {
                assert(stored(states_left(states, items), key) is None);
            } else {
                assert(stored(states_left(states, items), key) == stored(left, key));
                if exists|j: int| 0 <= j < items.len() && record_of(#[trigger] items[j]) == key {
                    let j = choose|j: int|
                        0 <= j < items.len() && record_of(#[trigger] items[j]) == key;
                    assert(fewer[j] == items[j]);
                }
            }
        }
    }
}

/// Whether a record occurs before a place does not depend on the last item.
proof fn lemma_same_before(items: Seq<ItemStateModel>, key: RecordKey, i: int)
    requires
        items.len() > 0,
        0 <= i < items.len(),
    ensures
        (exists|j: int| 0 <= j < i && record_of(#[trigger] items[j]) == key) <==> (exists|j: int|
            0 <= j < i && record_of(#[trigger] items.drop_last()[j]) == key),
{
    let fewer = items.drop_last();
    if exists|j: int| 0 <= j < i && record_of(#[trigger] items[j]) == key {
        let j = choose|j: int| 0 <= j < i && record_of(#[trigger] items[j]) == key;
        assert(fewer[j] == items[j]);
    }
    if exists|j: int| 0 <= j < i && record_of(#[trigger] fewer[j]) == key {
        let j = choose|j: int| 0 <= j < i && record_of(#[trigger] fewer[j]) == key;
        assert(fewer[j] == items[j]);
    }
}

/// A kept pane is active exactly if the pane was, and its items are those that got a record.
pub proof fn law_a_kept_pane<D>(
    pane: PaneModel<D>,
    namespaces: Seq<Option<String>>,
    record_ids: Seq<Option<u64>>,
)
    ensures
        ({
            let pending = pane.pending_state(namespaces);
            let state = pending.finished(record_ids);
            &&& state.active == pane.is_active
            &&& state.items == recorded_items(pending.items, record_ids)
        }),
{
}

} // verus!

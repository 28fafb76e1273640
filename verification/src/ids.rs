//! Searching and filtering lists of identifiers.

use crate::context::ItemId;
use vstd::prelude::*;

verus! {

/// Whether `i` is the first place of the list at which the condition holds.
pub open spec fn is_first(ids: Seq<usize>, wanted: spec_fn(usize) -> bool, i: int) -> bool {
    &&& 0 <= i < ids.len()
    &&& wanted(ids[i])
    &&& forall|j: int| 0 <= j < i ==> !wanted(#[trigger] ids[j])
}

/// The first place of the list at which the condition holds.
pub open spec fn first_index(ids: Seq<usize>, wanted: spec_fn(usize) -> bool) -> Option<int> {
    if exists|i: int| is_first(ids, wanted, i) {
        Some(choose|i: int| is_first(ids, wanted, i))
    } else {
        None
    }
}

pub open spec fn equals(id: usize) -> spec_fn(usize) -> bool {
    |other: usize| other == id
}

pub open spec fn differs(id: usize) -> spec_fn(usize) -> bool {
    |other: usize| other != id
}

/// The first place at which the identifier stands.
pub open spec fn index_of(ids: Seq<usize>, id: usize) -> Option<int> {
    first_index(ids, equals(id))
}

/// The list without any occurrence of the identifier.
pub open spec fn without(ids: Seq<usize>, id: usize) -> Seq<usize> {
    ids.filter(differs(id))
}

/// The list with the identifier moved, or added, to its end.
pub open spec fn moved_to_end(ids: Seq<usize>, id: usize) -> Seq<usize> {
    without(ids, id).push(id)
}

/// A first place is the only one.
pub proof fn lemma_first_index_is(ids: Seq<usize>, wanted: spec_fn(usize) -> bool, i: int)
    requires
        is_first(ids, wanted, i),
    ensures
        first_index(ids, wanted) == Some(i),
{
    let j = choose|j: int| is_first(ids, wanted, j);
    if i < j {
        assert(!wanted(ids[i]));
    }
    if j < i {
        assert(!wanted(ids[j]));
    }
}

/// Where the condition holds nowhere, there is no first place.
pub proof fn lemma_first_index_none(ids: Seq<usize>, wanted: spec_fn(usize) -> bool)
    requires
        forall|i: int| 0 <= i < ids.len() ==> !wanted(#[trigger] ids[i]),
    ensures
        first_index(ids, wanted) is None,
{
}

proof fn lemma_first_exists(ids: Seq<usize>, wanted: spec_fn(usize) -> bool, k: int)
    requires
        0 <= k < ids.len(),
        wanted(ids[k]),
    ensures
        exists|i: int| is_first(ids, wanted, i),
    decreases k,
{
    if exists|j: int| 0 <= j < k && wanted(#[trigger] ids[j]) {
        let j = choose|j: int| 0 <= j < k && wanted(#[trigger] ids[j]);
        lemma_first_exists(ids, wanted, j);
    } else {
        assert(is_first(ids, wanted, k));
    }
}

/// What a search found, or that there was nothing to find.
pub proof fn lemma_first_index(ids: Seq<usize>, wanted: spec_fn(usize) -> bool)
    ensures
        match first_index(ids, wanted) {
            Some(i) => is_first(ids, wanted, i),
            None => forall|i: int| 0 <= i < ids.len() ==> !wanted(#[trigger] ids[i]),
        },
{
    if first_index(ids, wanted) is None {
        assert forall|i: int| 0 <= i < ids.len() implies !wanted(#[trigger] ids[i]) by {
            if wanted(ids[i]) {
                lemma_first_exists(ids, wanted, i);
            }
        }
    }
}

/// Filtering one element more.
pub proof fn lemma_filter_take(ids: Seq<usize>, keep: spec_fn(usize) -> bool, i: int)
    requires
        0 <= i < ids.len(),
    ensures
        ids.take(i + 1).filter(keep) == (if keep(ids[i]) {
            ids.take(i).filter(keep).push(ids[i])
        } else {
            ids.take(i).filter(keep)
        }),
{
    reveal(Seq::filter);
    assert(ids.take(i + 1).drop_last() =~= ids.take(i));
}

/// What a filtered list holds.
pub proof fn lemma_filter_contains(ids: Seq<usize>, keep: spec_fn(usize) -> bool, id: usize)
    ensures
        ids.filter(keep).contains(id) <==> ids.contains(id) && keep(id),
    decreases ids.len(),
{
    reveal(Seq::filter);
    if ids.len() > 0 {
        let rest = ids.drop_last();
        lemma_filter_contains(rest, keep, id);
        assert(ids =~= rest.push(ids.last()));
        assert(ids.contains(id) <==> rest.contains(id) || ids.last() == id) by {
            if rest.contains(id) {
                let i = choose|i: int| 0 <= i < rest.len() && rest[i] == id;
                assert(ids[i] == id);
            }
            if ids.contains(id) && ids.last() != id {
                let i = choose|i: int| 0 <= i < ids.len() && ids[i] == id;
                assert(rest[i] == id);
            }
        }
        let kept = rest.filter(keep);
        assert(kept.push(ids.last()).contains(id) <==> kept.contains(id) || ids.last() == id) by {
            if kept.contains(id) {
                let i = choose|i: int| 0 <= i < kept.len() && kept[i] == id;
                assert(kept.push(ids.last())[i] == id);
            }
            assert(kept.push(ids.last())[kept.len() as int] == ids.last());
        }
    }
}

/// Filtering makes no duplicates.
pub proof fn lemma_filter_no_duplicates(ids: Seq<usize>, keep: spec_fn(usize) -> bool)
    requires
        ids.no_duplicates(),
    ensures
        ids.filter(keep).no_duplicates(),
    decreases ids.len(),
{
    reveal(Seq::filter);
    if ids.len() > 0 {
        let rest = ids.drop_last();
        lemma_filter_no_duplicates(rest, keep);
        lemma_filter_contains(rest, keep, ids.last());
        assert(!rest.contains(ids.last())) by {
            if rest.contains(ids.last()) {
                let i = choose|i: int| 0 <= i < rest.len() && rest[i] == ids.last();
                assert(ids[i] == ids[ids.len() - 1]);
            }
        }
    }
}

/// Moving an identifier to the end leaves no duplicates.
pub proof fn lemma_moved_to_end_no_duplicates(ids: Seq<usize>, id: usize)
    requires
        ids.no_duplicates(),
    ensures
        moved_to_end(ids, id).no_duplicates(),
{
    lemma_filter_no_duplicates(ids, differs(id));
    lemma_filter_contains(ids, differs(id), id);
}

/// Finds the identifier's first place.
pub fn find_id(ids: &Vec<ItemId>, id: ItemId) -> (index: Option<usize>)
    ensures
        match index {
            Some(i) => index_of(ids@, id) == Some(i as int) && i < ids.len() && ids@[i as int] == id,
            None => index_of(ids@, id) is None && !ids@.contains(id),
        },
{
    let mut i: usize = 0;
    while i < ids.len()
        invariant
            i <= ids.len(),
            forall|j: int| 0 <= j < i ==> ids@[j] != id,
        decreases ids.len() - i,
    {
        if ids[i] == id {
            proof {
                assert(is_first(ids@, equals(id), i as int));
                lemma_first_index_is(ids@, equals(id), i as int);
            }
            return Some(i);
        }
        i += 1;
    }
    proof {
        lemma_first_index_none(ids@, equals(id));
    }
    None
}

/// Whether the list holds the identifier.
pub fn contains_id(ids: &Vec<usize>, id: usize) -> (result: bool)
    ensures
        result == ids@.contains(id),
{
    find_id(ids, id).is_some()
}

/// The list without any occurrence of the identifier.
pub fn retain_others(ids: &Vec<ItemId>, id: ItemId) -> (kept: Vec<ItemId>)
    ensures
        kept@ == without(ids@, id),
{
    let mut kept: Vec<ItemId> = Vec::new();
    let mut i: usize = 0;
    assert(ids@.take(0).filter(differs(id)) =~= Seq::empty()) by {
        reveal(Seq::filter);
    }
    while i < ids.len()
        invariant
            i <= ids.len(),
            kept@ == ids@.take(i as int).filter(differs(id)),
        decreases ids.len() - i,
    {
        proof {
            lemma_filter_take(ids@, differs(id), i as int);
        }
        if ids[i] != id {
            kept.push(ids[i]);
        }
        i += 1;
    }
    assert(ids@.take(ids@.len() as int) =~= ids@);
    kept
}

} // verus!

//! How much each tab has to say to be told apart from the others.

use super::Pane;
use crate::context::{AppContext, AppModel, ItemId};
use vstd::prelude::*;

verus! {

/// The numbers of a list of details.
pub open spec fn as_ints(details: Seq<usize>) -> Seq<int> {
    Seq::new(details.len(), |i: int| details[i] as int)
}

/// Whether the item's description at this level of detail says something that it does not say
/// one level below. An item that has run out of detail is no longer compared.
pub open spec fn is_compared(app: AppModel, item: ItemId, detail: int) -> bool {
    &&& app.tab_description(item, detail) is Some
    &&& detail == 0 || app.tab_description(item, detail) != app.tab_description(item, detail - 1)
}

/// Whether two tabs say the same at their levels of detail.
pub open spec fn look_alike(
    app: AppModel,
    items: Seq<ItemId>,
    details: Seq<int>,
    i: int,
    j: int,
) -> bool {
    &&& is_compared(app, items[i], details[i])
    &&& is_compared(app, items[j], details[j])
    &&& app.tab_description(items[i], details[i]) == app.tab_description(items[j], details[j])
}

/// Whether the tab at `i` says the same as another tab.
pub open spec fn is_ambiguous(
    app: AppModel,
    items: Seq<ItemId>,
    details: Seq<int>,
    i: int,
) -> bool {
    exists|j: int|
        0 <= j < items.len() && j != i && #[trigger] look_alike(app, items, details, i, j)
}

/// The levels of detail with those of all ambiguous tabs raised by one.
pub open spec fn raised(app: AppModel, items: Seq<ItemId>, details: Seq<int>) -> Seq<int> {
    Seq::new(
        details.len(),
        |i: int|
            if is_ambiguous(app, items, details, i) {
                details[i] + 1
            } else {
                details[i]
            },
    )
}

/// The levels of detail after a number of rounds. All start at zero.
pub open spec fn details_after(app: AppModel, items: Seq<ItemId>, rounds: nat) -> Seq<int>
    decreases rounds,
{
    if rounds == 0 {
        Seq::new(items.len(), |i: int| 0)
    } else {
        raised(app, items, details_after(app, items, (rounds - 1) as nat))
    }
}

/// Whether these are the levels at which no tab is ambiguous any more: the first ones that the
/// rounds come to.
pub open spec fn are_tab_details(app: AppModel, items: Seq<ItemId>, details: Seq<int>) -> bool {
    &&& exists|rounds: nat| details == #[trigger] details_after(app, items, rounds)
    &&& raised(app, items, details) == details
}

/// What is left of the levels that the items' descriptions are listed at.
spec fn room(app: AppModel, items: Seq<ItemId>, details: Seq<int>) -> int
    decreases items.len(),
{
    if items.len() == 0 || details.len() != items.len() {
        0
    } else {
        room(app, items.drop_last(), details.drop_last()) + app.description_levels(items.last())
            - details.last()
    }
}

spec fn within_levels(app: AppModel, items: Seq<ItemId>, details: Seq<int>) -> bool {
    &&& details.len() == items.len()
    &&& forall|i: int|
        0 <= i < items.len() ==> 0 <= #[trigger] details[i] <= app.description_levels(items[i])
}

proof fn lemma_compared_has_room(app: AppModel, item: ItemId, detail: int)
    requires
        is_compared(app, item, detail),
        0 <= detail,
    ensures
        detail < app.description_levels(item),
{
}

proof fn lemma_room(app: AppModel, items: Seq<ItemId>, before: Seq<int>, after: Seq<int>)
    requires
        within_levels(app, items, before),
        within_levels(app, items, after),
        forall|i: int| 0 <= i < items.len() ==> #[trigger] before[i] <= after[i],
    ensures
        0 <= room(app, items, after) <= room(app, items, before),
        before != after ==> room(app, items, after) < room(app, items, before),
    decreases items.len(),
{
    if items.len() > 0 {
        let fewer = items.drop_last();
        assert forall|i: int| 0 <= i < fewer.len() implies 0 <= #[trigger] before.drop_last()[i]
            <= app.description_levels(fewer[i]) by {
            assert(before[i] == before.drop_last()[i]);
        }
        assert forall|i: int| 0 <= i < fewer.len() implies 0 <= #[trigger] after.drop_last()[i]
            <= app.description_levels(fewer[i]) by {
            assert(after[i] == after.drop_last()[i]);
        }
        assert forall|i: int| 0 <= i < fewer.len() implies #[trigger] before.drop_last()[i]
            <= after.drop_last()[i] by {
            assert(before[i] <= after[i]);
        }
        lemma_room(app, fewer, before.drop_last(), after.drop_last());
        assert(before[items.len() - 1] <= after[items.len() - 1]);
        if before != after && before.last() == after.last() {
            assert(before.drop_last() != after.drop_last()) by {
                if before.drop_last() == after.drop_last() {
                    assert(before =~= before.drop_last().push(before.last()));
                    assert(after =~= after.drop_last().push(after.last()));
                }
            }
        }
    } else {
        assert(before =~= after);
    }
}

fn compares(app: &AppContext, item: ItemId, detail: usize) -> (result: bool)
    ensures
        result == is_compared(app@, item, detail as int),
{
    match app.tab_description(item, detail) {
        Some(description) => {
            if detail == 0 {
                true
            } else {
                match app.tab_description(item, detail - 1) {
                    Some(shorter) => !(*description == *shorter),
                    None => true,
                }
            }
        },
        None => false,
    }
}

fn says_the_same(
    app: &AppContext,
    items: &Vec<ItemId>,
    details: &Vec<usize>,
    i: usize,
    j: usize,
) -> (result: bool)
    requires
        i < items.len(),
        j < items.len(),
        details.len() == items.len(),
    ensures
        result == look_alike(app@, items@, as_ints(details@), i as int, j as int),
{
    if !compares(app, items[i], details[i]) || !compares(app, items[j], details[j]) {
        return false;
    }
    match (app.tab_description(items[i], details[i]), app.tab_description(items[j], details[j])) {
        (Some(first), Some(second)) => *first == *second,
        _ => false,
    }
}

fn ambiguous(app: &AppContext, items: &Vec<ItemId>, details: &Vec<usize>, i: usize) -> (result:
    bool)
    requires
        i < items.len(),
        details.len() == items.len(),
    ensures
        result == is_ambiguous(app@, items@, as_ints(details@), i as int),
{
    let mut j: usize = 0;
    while j < items.len()
        invariant
            i < items.len(),
            details.len() == items.len(),
            j <= items.len(),
            forall|k: int|
                0 <= k < j && k != i ==> !#[trigger] look_alike(
                    app@,
                    items@,
                    as_ints(details@),
                    i as int,
                    k,
                ),
        decreases items.len() - j,
    {
        if j != i && says_the_same(app, items, details, i, j) {
            return true;
        }
        j += 1;
    }
    false
}

impl<D> Pane<D> {
    /// The level of detail that each tab needs.
    ///
    /// All tabs start without detail. While two or more of them say the same, their level of
    /// detail is raised.
    pub fn tab_details(&self, app: &AppContext) -> (details: Vec<usize>)
        ensures
            details.len() == self@.items.len(),
            are_tab_details(app@, self@.items, as_ints(details@)),
    {
        let mut details: Vec<usize> = Vec::new();
        while details.len() < self.items.len()
            invariant
                details.len() <= self.items.len(),
                forall|i: int| 0 <= i < details.len() ==> details@[i] == 0,
            decreases self.items.len() - details.len(),
        {
            details.push(0);
        }
        let ghost mut rounds: nat = 0;
        assert(as_ints(details@) =~= details_after(app@, self.items@, 0));
        let mut done = false;
        while !done
            invariant
                within_levels(app@, self.items@, as_ints(details@)),
                as_ints(details@) == details_after(app@, self.items@, rounds),
                details.len() == self.items.len(),
                done ==> raised(app@, self.items@, as_ints(details@)) == as_ints(details@),
            decreases room(app@, self.items@, as_ints(details@)), (if done {
                0int
            } else {
                1int
            }),
        {
            let ghost before = as_ints(details@);
            let ghost after = raised(app@, self.items@, before);
            done = true;
            let mut next: Vec<usize> = Vec::new();
            while next.len() < self.items.len()
                invariant
                    next.len() <= self.items.len(),
                    details.len() == self.items.len(),
                    before == as_ints(details@),
                    after == raised(app@, self.items@, before),
                    within_levels(app@, self.items@, before),
                    forall|i: int| 0 <= i < next.len() ==> next@[i] == #[trigger] after[i],
                    done <==> (forall|i: int| 0 <= i < next.len() ==> #[trigger] after[i] == before[i]),
                decreases self.items.len() - next.len(),
            {
                let i: usize = next.len();
                if ambiguous(app, &self.items, &details, i) {
                    proof {
                        let j = choose|j: int|
                            0 <= j < self.items@.len() && j != i && #[trigger] look_alike(
                                app@,
                                self.items@,
                                before,
                                i as int,
                                j,
                            );
                        lemma_compared_has_room(app@, self.items@[i as int], before[i as int]);
                        app.lemma_levels_fit(self.items@[i as int]);
                        assert(after[i as int] != before[i as int]);
                    }
                    next.push(details[i] + 1);
                    done = false;
                } else {
                    next.push(details[i]);
                }
            }
            proof {
                assert(as_ints(next@) =~= after);
                assert forall|i: int| 0 <= i < self.items@.len() implies 0 <= #[trigger] after[i]
                    <= app@.description_levels(self.items@[i]) by {
                    assert(0 <= before[i] <= app@.description_levels(self.items@[i]));
                    if is_ambiguous(app@, self.items@, before, i) {
                        lemma_compared_has_room(app@, self.items@[i], before[i]);
                    }
                }
                lemma_room(app@, self.items@, before, after);
                if done {
                    assert(after =~= before);
                }
                rounds = rounds + 1;
            }
            details = next;
        }
        details
    }

    /// The items whose views are of the given type, from left to right.
    pub fn items_of_type(&self, view_type: u64, app: &AppContext) -> (items: Vec<ItemId>)
        ensures
            items@ == self@.items.filter(of_type(app@, view_type)),
    {
        let mut items: Vec<ItemId> = Vec::new();
        let mut i: usize = 0;
        assert(self.items@.take(0).filter(of_type(app@, view_type)) =~= Seq::empty()) by {
            reveal(Seq::filter);
        }
        while i < self.items.len()
            invariant
                i <= self.items.len(),
                items@ == self.items@.take(i as int).filter(of_type(app@, view_type)),
            decreases self.items.len() - i,
        {
            proof {
                crate::ids::lemma_filter_take(self.items@, of_type(app@, view_type), i as int);
            }
            if app.is_view_type(self.items[i], view_type) {
                items.push(self.items[i]);
            }
            i += 1;
        }
        assert(self.items@.take(self.items@.len() as int) =~= self.items@);
        items
    }
}

/// The condition that an item's view is of the given type.
pub open spec fn of_type(app: AppModel, view_type: u64) -> spec_fn(ItemId) -> bool {
    |item: ItemId| app.is_view_type(item, view_type)
}

} // verus!

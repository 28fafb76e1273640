//! Laws of how much detail tabs give.

use crate::context::{AppModel, ItemId};
use crate::pane::tabs::{are_tab_details, details_after, is_ambiguous, is_compared, look_alike, raised};
use vstd::prelude::*;

verus! {

proof fn lemma_details_shape(app: AppModel, items: Seq<ItemId>, rounds: nat)
    ensures
        details_after(app, items, rounds).len() == items.len(),
        forall|i: int|
            0 <= i < items.len() ==> 0 <= #[trigger] details_after(app, items, rounds)[i]
                <= app.description_levels(items[i]),
    decreases rounds,
{
    if rounds > 0 {
        let before = details_after(app, items, (rounds - 1) as nat);
        lemma_details_shape(app, items, (rounds - 1) as nat);
        assert forall|i: int| 0 <= i < items.len() implies 0 <= #[trigger] details_after(
            app,
            items,
            rounds,
        )[i] <= app.description_levels(items[i]) by {
            assert(0 <= before[i] <= app.description_levels(items[i]));
            if is_ambiguous(app, items, before, i) {
                let j = choose|j: int|
                    0 <= j < items.len() && j != i && #[trigger] look_alike(
                        app,
                        items,
                        before,
                        i,
                        j,
                    );
                assert(is_compared(app, items[i], before[i]));
            }
        }
    }
}

proof fn lemma_settled(app: AppModel, items: Seq<ItemId>, rounds: nat, more: nat)
    requires
        raised(app, items, details_after(app, items, rounds)) == details_after(app, items, rounds),
    ensures
        details_after(app, items, rounds + more) == details_after(app, items, rounds),
    decreases more,
{
    if more > 0 {
        lemma_settled(app, items, rounds, (more - 1) as nat);
        assert((rounds + more) as nat - 1 == rounds + (more - 1));
    }
}

/// There is one way to give just enough detail.
pub proof fn law_details_are_determined(
    app: AppModel,
    items: Seq<ItemId>,
    first: Seq<int>,
    second: Seq<int>,
)
    requires
        are_tab_details(app, items, first),
        are_tab_details(app, items, second),
    ensures
        first == second,
{
    let a = choose|rounds: nat| first == #[trigger] details_after(app, items, rounds);
    let b = choose|rounds: nat| second == #[trigger] details_after(app, items, rounds);
    if a <= b {
        lemma_settled(app, items, a, (b - a) as nat);
    } else {
        lemma_settled(app, items, b, (a - b) as nat);
    }
}

/// Two tabs say different things, unless one of them has no more to say.
pub proof fn law_tabs_are_told_apart(
    app: AppModel,
    items: Seq<ItemId>,
    details: Seq<int>,
    i: int,
    j: int,
)
    requires
        are_tab_details(app, items, details),
        0 <= i < items.len(),
        0 <= j < items.len(),
        i != j,
        is_compared(app, items[i], details[i]),
        is_compared(app, items[j], details[j]),
    ensures
        app.tab_description(items[i], details[i]) != app.tab_description(items[j], details[j]),
{
    let rounds = choose|rounds: nat| details == #[trigger] details_after(app, items, rounds);
    lemma_details_shape(app, items, rounds);
    if look_alike(app, items, details, i, j) {
        assert(is_ambiguous(app, items, details, i));
        assert(raised(app, items, details)[i] == details[i] + 1);
    }
}

/// A tab whose short description is like nothing that any other tab can say gives no detail.
pub proof fn law_a_clear_tab_gives_no_detail(
    app: AppModel,
    items: Seq<ItemId>,
    details: Seq<int>,
    i: int,
)
    requires
        are_tab_details(app, items, details),
        0 <= i < items.len(),
        forall|j: int, detail: int|
            0 <= j < items.len() && j != i && 0 <= detail && app.tab_description(
                items[j],
                detail,
            ) is Some ==> #[trigger] app.tab_description(items[j], detail) != app.tab_description(
                items[i],
                0,
            ),
    ensures
        details[i] == 0,
{
    let rounds = choose|rounds: nat| details == #[trigger] details_after(app, items, rounds);
    lemma_clear(app, items, i, rounds);
}

proof fn lemma_clear(app: AppModel, items: Seq<ItemId>, i: int, rounds: nat)
    requires
        0 <= i < items.len(),
        forall|j: int, detail: int|
            0 <= j < items.len() && j != i && 0 <= detail && app.tab_description(
                items[j],
                detail,
            ) is Some ==> #[trigger] app.tab_description(items[j], detail) != app.tab_description(
                items[i],
                0,
            ),
    ensures
        details_after(app, items, rounds)[i] == 0,
    decreases rounds,
{
    if rounds > 0 {
        let before = details_after(app, items, (rounds - 1) as nat);
        lemma_clear(app, items, i, (rounds - 1) as nat);
        lemma_details_shape(app, items, (rounds - 1) as nat);
        if is_ambiguous(app, items, before, i) {
            let j = choose|j: int|
                0 <= j < items.len() && j != i && #[trigger] look_alike(app, items, before, i, j);
            assert(0 <= before[j]);
            assert(app.tab_description(items[j], before[j]) is Some);
        }
    }
}

/// No tab gives more detail than there are descriptions of its item.
pub proof fn law_details_are_bounded(
    app: AppModel,
    items: Seq<ItemId>,
    details: Seq<int>,
    i: int,
)
    requires
        are_tab_details(app, items, details),
        0 <= i < items.len(),
    ensures
        details.len() == items.len(),
        0 <= details[i] <= app.description_levels(items[i]),
{
    let rounds = choose|rounds: nat| details == #[trigger] details_after(app, items, rounds);
    lemma_details_shape(app, items, rounds);
}

/// What a tab says at a level of detail: what the item lists for it, or the last that it lists where
/// it lists no more, and nothing where it lists nothing.
pub proof fn law_what_a_tab_says(app: AppModel, item: ItemId, detail: int)
    requires
        0 <= detail,
    ensures
        ({
            let listed = app.items[item].tab_descriptions@;
            let said = app.tab_description(item, detail);
            if !app.items.contains_key(item) || listed.len() == 0 {
                said is None
            } else {
                let text = if detail < listed.len() {
                    listed[detail]
                } else {
                    listed[listed.len() - 1]
                };
                (said is Some <==> text is Some) && (text is Some ==> said == Some(text->0@))
            }
        }),
{
}

/// At the levels of detail that are given, two tabs that say the same are so only because one of
/// them has run out: it says the same one level below. In particular two tabs without detail never
/// say the same, whatever their items are.
pub proof fn law_tabs_that_say_the_same(
    app: AppModel,
    items: Seq<ItemId>,
    details: Seq<int>,
    i: int,
    j: int,
)
    requires
        are_tab_details(app, items, details),
        0 <= i < items.len(),
        0 <= j < items.len(),
        i != j,
        app.tab_description(items[i], details[i]) is Some,
        app.tab_description(items[i], details[i]) == app.tab_description(items[j], details[j]),
    ensures
        ({
            ||| details[i] > 0 && app.tab_description(items[i], details[i]) == app.tab_description(
                items[i],
                details[i] - 1,
            )
            ||| details[j] > 0 && app.tab_description(items[j], details[j]) == app.tab_description(
                items[j],
                details[j] - 1,
            )
        }),
{
    law_details_are_bounded(app, items, details, i);
    law_details_are_bounded(app, items, details, j);
    if is_compared(app, items[i], details[i]) && is_compared(app, items[j], details[j]) {
        law_tabs_are_told_apart(app, items, details, i, j);
    }
}

/// No tab gives more detail than it has to: at each level below its own it says the same as another
/// tab says at some level up to that one's own, and something that it does not say below.
pub proof fn law_no_tab_gives_too_much_detail(
    app: AppModel,
    items: Seq<ItemId>,
    details: Seq<int>,
    i: int,
    level: int,
)
    requires
        are_tab_details(app, items, details),
        0 <= i < items.len(),
        0 <= level < details[i],
    ensures
        app.tab_description(items[i], level) is Some,
        level > 0 ==> app.tab_description(items[i], level) != app.tab_description(
            items[i],
            level - 1,
        ),
        exists|j: int, other: int|
            0 <= j < items.len() && j != i && 0 <= other < details[j]
                && #[trigger] app.tab_description(items[j], other) == app.tab_description(
                items[i],
                level,
            ),
{
    let rounds = choose|rounds: nat| details == #[trigger] details_after(app, items, rounds);
    lemma_needed(app, items, rounds, i, level);
}

proof fn lemma_needed(app: AppModel, items: Seq<ItemId>, rounds: nat, i: int, level: int)
    requires
        0 <= i < items.len(),
        0 <= level < details_after(app, items, rounds)[i],
    ensures
        app.tab_description(items[i], level) is Some,
        level > 0 ==> app.tab_description(items[i], level) != app.tab_description(
            items[i],
            level - 1,
        ),
        exists|j: int, other: int|
            0 <= j < items.len() && j != i && 0 <= other < details_after(app, items, rounds)[j]
                && #[trigger] app.tab_description(items[j], other) == app.tab_description(
                items[i],
                level,
            ),
    decreases rounds,
{
    if rounds > 0 {
        let before = details_after(app, items, (rounds - 1) as nat);
        let after = details_after(app, items, rounds);
        lemma_details_shape(app, items, (rounds - 1) as nat);
        lemma_details_shape(app, items, rounds);
        assert(0 <= before[i]);
        if level < before[i] {
            lemma_needed(app, items, (rounds - 1) as nat, i, level);
            let (j, other) = choose|j: int, other: int|
                0 <= j < items.len() && j != i && 0 <= other < before[j]
                    && #[trigger] app.tab_description(items[j], other) == app.tab_description(
                    items[i],
                    level,
                );
            assert(before[j] <= after[j]);
            assert(0 <= other < after[j]);
        } else {
            assert(is_ambiguous(app, items, before, i));
            assert(level == before[i]);
            let j = choose|j: int|
                0 <= j < items.len() && j != i && #[trigger] look_alike(app, items, before, i, j);
            assert(look_alike(app, items, before, j, i));
            assert(is_ambiguous(app, items, before, j));
            assert(0 <= before[j]);
            assert(after[j] == before[j] + 1);
            let other = before[j];
            assert(app.tab_description(items[j], other) == app.tab_description(items[i], level));
        }
    }
}

} // verus!

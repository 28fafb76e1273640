//! Closing items: which ones, in which order, and when to ask about saving.

use super::save::{save_begun, SaveItem, SaveResult};
use super::{Pane, PaneModel};
use crate::context::{AppContext, AppModel, ItemId};
use crate::effect::{Effect, ViewContext};
use crate::ids::{contains_id, differs, equals, lemma_filter_contains, lemma_filter_take};
use std::collections::HashSet;
use vstd::prelude::*;

verus! {

/// Which items of a pane to close.
#[derive(Clone, Copy, PartialEq, Eq, Structural, Debug)]
pub enum ItemType {
    Active,
    Inactive,
    Clean,
    All,
}

/// A closing of items that is under way.
pub struct CloseItems {
    items_to_close: Vec<ItemId>,
    saved_project_item_ids: HashSet<usize>,
    next: usize,
    failed: bool,
}

/// What a closing waits for.
#[derive(Clone, Copy, PartialEq, Eq, Debug)]
pub enum CloseStep {
    /// The item has to be offered for saving first, by [`CloseItems::begin_save`]. What comes of
    /// that goes to [`CloseItems::finish_save`].
    Save { item_ix: usize, item_id: ItemId },
    Finished,
    /// Nothing: an item could not be saved.
    Failed,
}

/// The mathematical value of a [`CloseItems`].
#[verifier::ext_equal]
pub struct CloseModel {
    pub items_to_close: Seq<ItemId>,
    /// The models that the user has been asked about.
    pub asked: Set<usize>,
    /// How many items have been dealt with.
    pub next: int,
    /// Whether an item could not be saved.
    pub failed: bool,
}

/// Where a closing comes to until it has to wait.
pub struct CloseOutcome<D> {
    pub closing: CloseModel,
    pub pane: PaneModel<D>,
    pub effects: Seq<Effect>,
    pub step: CloseStep,
}

pub open spec fn singletons(app: AppModel) -> spec_fn(ItemId) -> bool {
    |item: ItemId| app.is_singleton(item)
}

pub open spec fn multiples(app: AppModel) -> spec_fn(ItemId) -> bool {
    |item: ItemId| !app.is_singleton(item)
}

/// The items with the singletons in front, and otherwise in their order. A model that is open
/// in a singleton and elsewhere is then asked about where it is seen best.
pub open spec fn singletons_first(app: AppModel, items: Seq<ItemId>) -> Seq<ItemId> {
    items.filter(singletons(app)) + items.filter(multiples(app))
}

/// The items that were decided for.
pub open spec fn selected(items: Seq<ItemId>, decisions: Seq<bool>) -> Seq<ItemId>
    decreases items.len(),
{
    if items.len() == 0 || decisions.len() != items.len() {
        Seq::empty()
    } else {
        let earlier = selected(items.drop_last(), decisions.drop_last());
        if decisions.last() {
            earlier.push(items.last())
        } else {
            earlier
        }
    }
}

/// Whether an item that is not being closed shows the model.
pub open spec fn is_open_elsewhere(
    app: AppModel,
    workspace_items: Seq<ItemId>,
    items_to_close: Seq<ItemId>,
    model: usize,
) -> bool {
    exists|k: int|
        0 <= k < workspace_items.len() && !items_to_close.contains(#[trigger] workspace_items[k])
            && app.models(workspace_items[k]).contains(model)
}

impl CloseModel {
    /// Once an item could not be saved there is nothing left to deal with.
    pub open spec fn wf(self) -> bool {
        &&& 0 <= self.next <= self.items_to_close.len()
        &&& self.failed ==> self.next == self.items_to_close.len()
    }

    /// A closing of these items that has not begun.
    pub open spec fn start(app: AppModel, items: Seq<ItemId>) -> Self {
        CloseModel {
            items_to_close: singletons_first(app, items),
            asked: Set::empty(),
            next: 0,
            failed: false,
        }
    }

    /// Whether closing its items would lose the model, and the user has not been asked about it.
    pub open spec fn must_ask(
        self,
        app: AppModel,
        workspace_items: Seq<ItemId>,
        model: usize,
    ) -> bool {
        &&& !is_open_elsewhere(app, workspace_items, self.items_to_close, model)
        &&& !self.asked.contains(model)
    }

    /// Whether the item shows a model that has to be asked about.
    pub open spec fn asks_about(
        self,
        app: AppModel,
        workspace_items: Seq<ItemId>,
        item: ItemId,
    ) -> bool {
        exists|k: int|
            0 <= k < app.models(item).len() && self.must_ask(
                app,
                workspace_items,
                #[trigger] app.models(item)[k],
            )
    }

    /// The closing once the user is asked about the item, and so about all of its models that
    /// have to be asked about.
    pub open spec fn asked_about(
        self,
        app: AppModel,
        workspace_items: Seq<ItemId>,
        item: ItemId,
    ) -> Self {
        CloseModel {
            asked: Set::new(
                |model: usize|
                    self.asked.contains(model) || app.models(item).contains(model)
                        && self.must_ask(app, workspace_items, model),
            ),
            ..self
        }
    }

    /// How far the closing gets without waiting.
    pub open spec fn advanced<D>(
        self,
        pane: PaneModel<D>,
        app: AppModel,
        workspace_items: Seq<ItemId>,
    ) -> CloseOutcome<D>
        decreases self.items_to_close.len() - self.next,
    {
        if !(0 <= self.next < self.items_to_close.len()) {
            if self.failed {
                CloseOutcome { closing: self, pane, effects: seq![], step: CloseStep::Failed }
            } else {
                CloseOutcome {
                    closing: self,
                    pane,
                    effects: seq![Effect::Notify],
                    step: CloseStep::Finished,
                }
            }
        } else {
            let item_id = self.items_to_close[self.next];
            let further = CloseModel { next: self.next + 1, ..self };
            match pane.index_for_item(item_id) {
                None => further.advanced(pane, app, workspace_items),
                Some(index) => if self.asks_about(app, workspace_items, item_id) {
                    CloseOutcome {
                        closing: self.asked_about(app, workspace_items, item_id),
                        pane,
                        effects: seq![],
                        step: CloseStep::Save { item_ix: index as usize, item_id },
                    }
                } else {
                    let rest = further.advanced(pane.removed(app, index), app, workspace_items);
                    CloseOutcome {
                        effects: pane.remove_effects(index, false) + rest.effects,
                        ..rest
                    }
                },
            }
        }
    }

    /// What saving the item that the closing has come to waits for first. The user is asked about
    /// its edits.
    pub open spec fn offered<P>(self, app: AppModel) -> SaveItem<P> {
        save_begun::<P>(app, self.items_to_close[self.next], true)
    }

    /// The pane once the item was offered for saving: the item is closed if it was saved or
    /// discarded.
    pub open spec fn pane_after<D>(
        self,
        pane: PaneModel<D>,
        app: AppModel,
        result: SaveResult,
    ) -> PaneModel<D> {
        if result is Proceed {
            pane.closed(app, self.items_to_close[self.next])
        } else {
            pane
        }
    }

    pub open spec fn effects_after<D>(self, pane: PaneModel<D>, result: SaveResult) -> Seq<Effect> {
        if result is Proceed {
            pane.close_effects(self.items_to_close[self.next])
        } else {
            seq![]
        }
    }

    /// The closing once the item that it waited for was saved or discarded, or the user
    /// cancelled or the item could not be saved, which leaves it and all further items open.
    pub open spec fn resumed(self, result: SaveResult) -> Self {
        match result {
            SaveResult::Proceed => CloseModel { next: self.next + 1, ..self },
            SaveResult::Cancelled => CloseModel { next: self.items_to_close.len() as int, ..self },
            SaveResult::Failed => CloseModel {
                next: self.items_to_close.len() as int,
                failed: true,
                ..self
            },
        }
    }
}

impl<D> PaneModel<D> {
    /// The pane without the item, if it has the item.
    pub open spec fn closed(self, app: AppModel, item: ItemId) -> Self {
        match self.index_for_item(item) {
            Some(index) => self.removed(app, index),
            None => self,
        }
    }

    pub open spec fn close_effects(self, item: ItemId) -> Seq<Effect> {
        match self.index_for_item(item) {
            Some(index) => self.remove_effects(index, false),
            None => seq![],
        }
    }

    /// The condition that an item is of the given type.
    pub open spec fn closes(self, app: AppModel, item_type: ItemType) -> spec_fn(ItemId) -> bool {
        match item_type {
            ItemType::Active => equals(self.items[self.active_item_index]),
            ItemType::Inactive => differs(self.items[self.active_item_index]),
            ItemType::Clean => |item: ItemId| !app.is_dirty(item),
            ItemType::All => |item: ItemId| true,
        }
    }
}

impl View for CloseItems {
    type V = CloseModel;

    closed spec fn view(&self) -> CloseModel {
        CloseModel {
            items_to_close: self.items_to_close@,
            asked: self.saved_project_item_ids@,
            next: self.next as int,
            failed: self.failed,
        }
    }
}

proof fn lemma_selected_filter(
    items: Seq<ItemId>,
    decisions: Seq<bool>,
    wanted: spec_fn(ItemId) -> bool,
)
    requires
        decisions.len() == items.len(),
        forall|i: int| 0 <= i < items.len() ==> decisions[i] == wanted(#[trigger] items[i]),
    ensures
        selected(items, decisions) == items.filter(wanted),
    decreases items.len(),
{
    reveal(Seq::filter);
    if items.len() > 0 {
        assert forall|i: int| 0 <= i < items.drop_last().len() implies decisions.drop_last()[i]
            == wanted(#[trigger] items.drop_last()[i]) by {
            assert(items.drop_last()[i] == items[i]);
        }
        lemma_selected_filter(items.drop_last(), decisions.drop_last(), wanted);
        assert(items.last() == items[items.len() - 1]);
    }
}

proof fn lemma_selected_take(items: Seq<ItemId>, decisions: Seq<bool>, decision: bool)
    requires
        decisions.len() < items.len(),
    ensures
        selected(items.take(decisions.len() as int + 1), decisions.push(decision)) == (if decision {
            selected(items.take(decisions.len() as int), decisions).push(
                items[decisions.len() as int],
            )
        } else {
            selected(items.take(decisions.len() as int), decisions)
        }),
{
    let longer = items.take(decisions.len() as int + 1);
    assert(longer.drop_last() =~= items.take(decisions.len() as int));
    assert(decisions.push(decision).drop_last() =~= decisions);
}

impl CloseItems {
    fn new(app: &AppContext, items: &Vec<ItemId>) -> (closing: Self)
        ensures
            closing@ == CloseModel::start(app@, items@),
            closing@.wf(),
    {
        let mut items_to_close: Vec<ItemId> = Vec::new();
        let mut others: Vec<ItemId> = Vec::new();
        let mut i: usize = 0;
        proof {
            reveal(Seq::filter);
            assert(items@.take(0).filter(singletons(app@)) =~= Seq::empty());
            assert(items@.take(0).filter(multiples(app@)) =~= Seq::empty());
        }
        while i < items.len()
            invariant
                i <= items.len(),
                items_to_close@ == items@.take(i as int).filter(singletons(app@)),
                others@ == items@.take(i as int).filter(multiples(app@)),
            decreases items.len() - i,
        {
            proof {
                lemma_filter_take(items@, singletons(app@), i as int);
                lemma_filter_take(items@, multiples(app@), i as int);
            }
            if app.is_singleton(items[i]) {
                items_to_close.push(items[i]);
            } else {
                others.push(items[i]);
            }
            i += 1;
        }
        assert(items@.take(items@.len() as int) =~= items@);
        items_to_close.append(&mut others);
        CloseItems { items_to_close, saved_project_item_ids: HashSet::new(), next: 0, failed: false }
    }

    /// The items that are to be closed, in the order in which they are.
    pub fn items_to_close(&self) -> (items: &Vec<ItemId>)
        ensures
            items@ == self@.items_to_close,
    {
        &self.items_to_close
    }

    fn open_elsewhere(
        &self,
        app: &AppContext,
        workspace_items: &Vec<ItemId>,
        model: usize,
    ) -> (result: bool)
        ensures
            result == is_open_elsewhere(
                app@,
                workspace_items@,
                self@.items_to_close,
                model,
            ),
    {
        let mut k: usize = 0;
        while k < workspace_items.len()
            invariant
                k <= workspace_items.len(),
                forall|j: int|
                    0 <= j < k && !self@.items_to_close.contains(#[trigger] workspace_items@[j])
                        ==> !app@.models(workspace_items@[j]).contains(model),
            decreases workspace_items.len() - k,
        {
            let other = workspace_items[k];
            if !contains_id(&self.items_to_close, other) {
                if let Some(facts) = app.facts(other) {
                    if contains_id(&facts.project_item_model_ids, model) {
                        return true;
                    }
                }
            }
            k += 1;
        }
        false
    }

    /// Notes the item's models that have to be asked about. Says whether there are any.
    fn ask_about(
        &mut self,
        app: &AppContext,
        workspace_items: &Vec<ItemId>,
        item: ItemId,
    ) -> (asks: bool)
        ensures
            asks == old(self)@.asks_about(app@, workspace_items@, item),
            final(self)@ == (if asks {
                old(self)@.asked_about(app@, workspace_items@, item)
            } else {
                old(self)@
            }),
    {
        let ghost start = self@;
        let ghost all = app@.models(item);
        let mut asks = false;
        if let Some(facts) = app.facts(item) {
            let models = &facts.project_item_model_ids;
            let mut i: usize = 0;
            while i < models.len()
                invariant
                    i <= models.len(),
                    models@ == all,
                    all == app@.models(item),
                    self@.items_to_close == start.items_to_close,
                    self@.next == start.next,
                    self@.failed == start.failed,
                    forall|model: usize| #[trigger]
                        self@.asked.contains(model) <==> start.asked.contains(model) || (
                        all.take(i as int).contains(model) && start.must_ask(
                            app@,
                            workspace_items@,
                            model,
                        )),
                    asks <==> exists|k: int|
                        0 <= k < i && start.must_ask(app@, workspace_items@, #[trigger] all[k]),
                decreases models.len() - i,
            {
                let model = models[i];
                proof {
                    assert(all.take(i + 1) =~= all.take(i as int).push(all[i as int]));
                    assert forall|other: usize| #[trigger]
                        all.take(i + 1).contains(other) <==> all.take(i as int).contains(other)
                            || other == model by {
                        let before = all.take(i as int);
                        if before.contains(other) {
                            let k = choose|k: int| 0 <= k < before.len() && before[k] == other;
                            assert(all.take(i + 1)[k] == other);
                        }
                        assert(all.take(i + 1)[i as int] == model);
                    }
                }
                let ghost before = self@.asked;
                let ghost asked_before = asks;
                let is_new = !self.open_elsewhere(app, workspace_items, model)
                    && self.saved_project_item_ids.insert(model);
                if is_new {
                    asks = true;
                }
                proof {
                    let must_ask = start.must_ask(app@, workspace_items@, model);
                    let known = before.contains(model);
                    assert(is_new <==> must_ask && !known);
                    assert(self@.asked == if is_new {
                        before.insert(model)
                    } else {
                        before
                    });
                    if must_ask && known {
                        let earlier = all.take(i as int);
                        assert(earlier.contains(model));
                        let k = choose|k: int| 0 <= k < earlier.len() && earlier[k] == model;
                        assert(all[k] == model);
                        assert(asked_before);
                    }
                    if asked_before {
                        let k = choose|k: int|
                            0 <= k < i && start.must_ask(
                                app@,
                                workspace_items@,
                                #[trigger] all[k],
                            );
                        assert(0 <= k < i + 1);
                    }
                }
                i += 1;
            }
        }
        assert(all.take(all.len() as int) =~= all);
        assert(self@.asked =~= start.asked_about(app@, workspace_items@, item).asked);
        assert(!asks ==> self@.asked =~= start.asked);
        asks
    }

    /// Closes items until one has to be offered for saving, or none is left. After an item could
    /// not be saved, no more are closed.
    ///
    /// An item is offered for saving if it shows a model that no item outside the closing
    /// shows, and that the user has not been asked about. Items that have left the pane in the
    /// meantime are passed over.
    pub fn advance<D>(
        &mut self,
        pane: &mut Pane<D>,
        app: &AppContext,
        workspace_items: &Vec<ItemId>,
        cx: &mut ViewContext,
    ) -> (step: CloseStep)
        requires
            old(self)@.wf(),
            old(pane)@.wf(),
        ensures
            ({
                let outcome = old(self)@.advanced(old(pane)@, app@, workspace_items@);
                &&& final(self)@ == outcome.closing
                &&& final(pane)@ == outcome.pane
                &&& final(cx)@ == old(cx)@ + outcome.effects
                &&& step == outcome.step
            }),
            final(self)@.wf(),
            final(pane)@.wf(),
            step matches CloseStep::Save { item_ix, item_id } ==> {
                &&& final(self)@.next < final(self)@.items_to_close.len()
                &&& item_id == final(self)@.items_to_close[final(self)@.next]
            },
    {
        let ghost outcome = self@.advanced(pane@, app@, workspace_items@);
        let ghost mut done: Seq<Effect> = seq![];
        let ghost before = cx@;
        while self.next < self.items_to_close.len()
            invariant
                self@.wf(),
                pane@.wf(),
                before == old(cx)@,
                outcome == old(self)@.advanced(old(pane)@, app@, workspace_items@),
                cx@ == before + done,
                ({
                    let rest = self@.advanced(pane@, app@, workspace_items@);
                    &&& outcome.closing == rest.closing
                    &&& outcome.pane == rest.pane
                    &&& outcome.effects == done + rest.effects
                    &&& outcome.step == rest.step
                }),
            decreases self.items_to_close.len() - self.next,
        {
            let item_id = self.items_to_close[self.next];
            if let Some(item_ix) = pane.index_for_item(item_id) {
                if self.ask_about(app, workspace_items, item_id) {
                    assert(outcome.effects =~= done);
                    return CloseStep::Save { item_ix, item_id };
                }
                let ghost removal = pane@.remove_effects(item_ix as int, false);
                let ghost rest = CloseModel { next: self@.next + 1, ..self@ }.advanced(
                    pane@.removed(app@, item_ix as int),
                    app@,
                    workspace_items@,
                );
                pane.remove_item(app, item_ix, false, cx);
                proof {
                    assert(before + done + removal =~= before + (done + removal));
                    assert(done + (removal + rest.effects) =~= (done + removal) + rest.effects);
                    done = done + removal;
                }
            }
            self.next = self.next + 1;
        }
        if self.failed {
            assert(outcome.effects =~= done);
            return CloseStep::Failed;
        }
        cx.notify();
        assert(before + done.push(Effect::Notify) =~= (before + done).push(Effect::Notify));
        assert(done + seq![Effect::Notify] =~= done.push(Effect::Notify));
        CloseStep::Finished
    }

    /// Begins to save the item that is offered for saving. The user is asked about its edits.
    pub fn begin_save<D, P>(
        &self,
        pane: &mut Pane<D>,
        app: &AppContext,
        item_ix: usize,
        cx: &mut ViewContext,
    ) -> (saving: SaveItem<P>)
        requires
            self@.wf(),
            self@.next < self@.items_to_close.len(),
            old(pane)@.wf(),
        ensures
            saving == self@.offered::<P>(app@),
            final(pane)@ == old(pane)@.save_begun(saving, item_ix as int),
            final(cx)@ == old(cx)@ + old(pane)@.save_effects(saving, item_ix as int),
            final(pane)@.wf(),
    {
        pane.save_item(app, item_ix, self.items_to_close[self.next], true, cx)
    }

    /// Goes on after the item was offered for saving. If it was saved or discarded it is closed.
    /// If the user cancelled or the item could not be saved, it and all further items stay open.
    pub fn finish_save<D>(
        &mut self,
        pane: &mut Pane<D>,
        app: &AppContext,
        result: SaveResult,
        cx: &mut ViewContext,
    )
        requires
            old(self)@.wf(),
            old(self)@.next < old(self)@.items_to_close.len(),
            old(pane)@.wf(),
        ensures
            final(self)@ == old(self)@.resumed(result),
            final(self)@.wf(),
            final(pane)@ == old(self)@.pane_after(old(pane)@, app@, result),
            final(cx)@ == old(cx)@ + old(self)@.effects_after(old(pane)@, result),
            final(pane)@.wf(),
    {
        match result {
            SaveResult::Proceed => {
                let item_id = self.items_to_close[self.next];
                // Remove the item from the pane.
                if let Some(item_ix) = pane.index_for_item(item_id) {
                    pane.remove_item(app, item_ix, false, cx);
                } else {
                    assert(cx@ =~= old(cx)@ + pane@.close_effects(item_id));
                }
                assert(self.next < self.items_to_close.len());
                self.next = self.next + 1;
            },
            SaveResult::Cancelled => {
                self.next = self.items_to_close.len();
                assert(cx@ =~= old(cx)@ + old(self)@.effects_after(pane@, result));
            },
            SaveResult::Failed => {
                assert(cx@ =~= old(cx)@ + old(self)@.effects_after(pane@, result));
                self.next = self.items_to_close.len();
                self.failed = true;
            },
        }
    }
}

impl<D> Pane<D> {
    /// Begins to close the items that are decided for.
    pub fn close_items<F: Fn(ItemId) -> bool>(&self, app: &AppContext, should_close: F) -> (closing:
        CloseItems)
        requires
            forall|id: ItemId| #[trigger] call_requires(should_close, (id,)),
        ensures
            closing@.wf(),
            exists|decisions: Seq<bool>|
                {
                    &&& decisions.len() == self@.items.len()
                    &&& forall|i: int|
                        0 <= i < self@.items.len() ==> call_ensures(
                            should_close,
                            (self@.items[i],),
                            #[trigger] decisions[i],
                        )
                    &&& closing@ == CloseModel::start(app@, #[trigger] selected(self@.items, decisions))
                },
    {
        // Find the items to close.
        let mut items: Vec<ItemId> = Vec::new();
        let ghost mut decisions: Seq<bool> = seq![];
        let mut i: usize = 0;
        while i < self.items.len()
            invariant
                i <= self.items.len(),
                decisions.len() == i,
                forall|id: ItemId| #[trigger] call_requires(should_close, (id,)),
                forall|j: int|
                    0 <= j < i ==> call_ensures(
                        should_close,
                        (self.items@[j],),
                        #[trigger] decisions[j],
                    ),
                items@ == selected(self.items@.take(i as int), decisions),
            decreases self.items.len() - i,
        {
            let item = self.items[i];
            assert(call_requires(should_close, (item,)));
            let decision = should_close(item);
            proof {
                lemma_selected_take(self.items@, decisions, decision);
                decisions = decisions.push(decision);
            }
            if decision {
                items.push(item);
            }
            i += 1;
        }
        assert(self.items@.take(self.items@.len() as int) =~= self.items@);
        assert(items@ == selected(self@.items, decisions));
        CloseItems::new(app, &items)
    }

    /// Begins to close the items that meet a condition, which `should_close` decides.
    fn close_where<F: Fn(ItemId) -> bool>(
        &self,
        app: &AppContext,
        should_close: F,
        Ghost(wanted): Ghost<spec_fn(ItemId) -> bool>,
    ) -> (closing: CloseItems)
        requires
            forall|id: ItemId| #[trigger] call_requires(should_close, (id,)),
            forall|id: ItemId, decision: bool|
                self@.items.contains(id) && #[trigger] call_ensures(should_close, (id,), decision)
                    ==> decision == wanted(id),
        ensures
            closing@ == CloseModel::start(app@, self@.items.filter(wanted)),
            closing@.wf(),
    {
        let closing = self.close_items(app, should_close);
        proof {
            let decisions = choose|decisions: Seq<bool>|
                {
                    &&& decisions.len() == self@.items.len()
                    &&& forall|i: int|
                        0 <= i < self@.items.len() ==> call_ensures(
                            should_close,
                            (self@.items[i],),
                            #[trigger] decisions[i],
                        )
                    &&& closing@ == CloseModel::start(app@, #[trigger] selected(self@.items, decisions))
                };
            assert forall|i: int| 0 <= i < self@.items.len() implies decisions[i] == wanted(
                #[trigger] self@.items[i],
            ) by {
                assert(self@.items.contains(self@.items[i]));
                assert(call_ensures(should_close, (self@.items[i],), decisions[i]));
            }
            lemma_selected_filter(self@.items, decisions, wanted);
        }
        closing
    }

    /// Begins to close one item.
    pub fn close_item(&self, app: &AppContext, item_id_to_close: ItemId) -> (closing: CloseItems)
        ensures
            closing@ == CloseModel::start(app@, self@.items.filter(equals(item_id_to_close))),
            closing@.wf(),
    {
        let should_close = |item_id: ItemId| -> (result: bool)
            ensures
                result == (item_id == item_id_to_close),
            { item_id == item_id_to_close };
        self.close_where(app, should_close, Ghost(equals(item_id_to_close)))
    }

    /// Begins to close the items of a type. An empty pane has none.
    pub fn close_main(&self, app: &AppContext, item_type: ItemType) -> (closing: Option<CloseItems>)
        requires
            self@.wf(),
        ensures
            closing is None <==> self@.items.len() == 0,
            closing matches Some(closing) ==> closing@.wf() && closing@ == CloseModel::start(
                app@,
                self@.items.filter(self@.closes(app@, item_type)),
            ),
    {
        if self.items.len() == 0 {
            return None;
        }
        let active_item_id = self.items[self.active_item_index];
        let ghost clean = |item: ItemId| !app@.is_dirty(item);
        let mut clean_item_ids: Vec<ItemId> = Vec::new();
        let mut i: usize = 0;
        proof {
            reveal(Seq::filter);
            assert(self.items@.take(0).filter(clean) =~= Seq::empty());
        }
        while i < self.items.len()
            invariant
                i <= self.items.len(),
                clean == (|item: ItemId| !app@.is_dirty(item)),
                clean_item_ids@ == self.items@.take(i as int).filter(clean),
            decreases self.items.len() - i,
        {
            proof {
                lemma_filter_take(self.items@, clean, i as int);
            }
            if !app.is_dirty(self.items[i]) {
                clean_item_ids.push(self.items[i]);
            }
            i += 1;
        }
        assert(self.items@.take(self.items@.len() as int) =~= self.items@);
        let should_close = |item_id: ItemId| -> (result: bool)
            ensures
                result == (match item_type {
                    ItemType::Active => item_id == active_item_id,
                    ItemType::Inactive => item_id != active_item_id,
                    ItemType::Clean => clean_item_ids@.contains(item_id),
                    ItemType::All => true,
                }),
            {
                match item_type {
                    ItemType::Active => item_id == active_item_id,
                    ItemType::Inactive => item_id != active_item_id,
                    ItemType::Clean => contains_id(&clean_item_ids, item_id),
                    ItemType::All => true,
                }
            };
        let ghost wanted = self@.closes(app@, item_type);
        proof {
            assert forall|id: ItemId, decision: bool|
                self@.items.contains(id) && #[trigger] call_ensures(
                    should_close,
                    (id,),
                    decision,
                ) implies decision == wanted(id) by {
                lemma_filter_contains(self@.items, clean, id);
            }
        }
        Some(self.close_where(app, should_close, Ghost(wanted)))
    }

    pub fn close_active_item(&self, app: &AppContext) -> (closing: Option<CloseItems>)
        requires
            self@.wf(),
        ensures
            closing is None <==> self@.items.len() == 0,
            closing matches Some(closing) ==> closing@.wf() && closing@ == CloseModel::start(
                app@,
                self@.items.filter(self@.closes(app@, ItemType::Active)),
            ),
    {
        self.close_main(app, ItemType::Active)
    }

    pub fn close_inactive_items(&self, app: &AppContext) -> (closing: Option<CloseItems>)
        requires
            self@.wf(),
        ensures
            closing is None <==> self@.items.len() == 0,
            closing matches Some(closing) ==> closing@.wf() && closing@ == CloseModel::start(
                app@,
                self@.items.filter(self@.closes(app@, ItemType::Inactive)),
            ),
    {
        self.close_main(app, ItemType::Inactive)
    }

    pub fn close_all_items(&self, app: &AppContext) -> (closing: Option<CloseItems>)
        requires
            self@.wf(),
        ensures
            closing is None <==> self@.items.len() == 0,
            closing matches Some(closing) ==> closing@.wf() && closing@ == CloseModel::start(
                app@,
                self@.items.filter(self@.closes(app@, ItemType::All)),
            ),
    {
        self.close_main(app, ItemType::All)
    }

    pub fn close_clean_items(&self, app: &AppContext) -> (closing: Option<CloseItems>)
        requires
            self@.wf(),
        ensures
            closing is None <==> self@.items.len() == 0,
            closing matches Some(closing) ==> closing@.wf() && closing@ == CloseModel::start(
                app@,
                self@.items.filter(self@.closes(app@, ItemType::Clean)),
            ),
    {
        self.close_main(app, ItemType::Clean)
    }
}

} // verus!

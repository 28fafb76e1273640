//! Walking the history, and opening items again.

use super::items::view_of;
use super::{Pane, PaneModel};
use crate::context::{AppContext, AppModel, ItemFacts, ItemId, ProjectEntryId, ProjectPath};
use crate::effect::{lemma_between, lemma_nothing, lemma_three_parts, Effect, ViewContext};
use crate::ids::first_index;
use crate::nav_history::{NavigationEntry, NavigationMode};
use vstd::prelude::*;

verus! {

/// A walk through the history: what it waits for.
pub enum Navigation<D> {
    /// The item finding a place, for [`Pane::item_navigated`].
    Navigate {
        item_id: ItemId,
        data: D,
        /// Whether another item became active, so that the walk ends here either way.
        navigated: bool,
        /// Whether the item was opened again for this.
        reopened: bool,
    },
    /// A file that is no longer shown in the pane being loaded, for [`Pane::item_loaded`] or
    /// [`Pane::load_failed`].
    Load { project_path: ProjectPath, entry: NavigationEntry<D> },
    Finished,
}

/// Where a walk comes to until it has to wait.
pub struct NavigationOutcome<D> {
    pub pane: PaneModel<D>,
    pub effects: Seq<Effect>,
    pub step: Navigation<D>,
}

/// What comes of opening a project entry.
pub struct OpenOutcome<D> {
    pub pane: PaneModel<D>,
    /// What is known of the items then.
    pub app: AppModel,
    /// The item that shows the entry.
    pub item: ItemId,
    pub effects: Seq<Effect>,
}

impl<D> PaneModel<D> {
    /// The pane once the newest entry of the stack that the mode reads is taken off.
    pub open spec fn popped(self, mode: NavigationMode) -> Self {
        PaneModel { nav: self.nav.popped(mode), ..self }
    }

    /// The pane once the walk has come to the item at `index`.
    pub open spec fn visited(self, mode: NavigationMode, index: int) -> Self {
        self.with_mode(mode).activated(index).with_mode(NavigationMode::Normal)
    }

    pub open spec fn visit_effects(self, mode: NavigationMode, index: int) -> Seq<Effect> {
        self.with_mode(mode).activate_effects(index, true, true)
    }

    /// How far a walk gets without waiting.
    ///
    /// Entries are taken off the stack one by one. An entry of an item in the pane activates
    /// the item; if it has data, the item looks for the place, and otherwise the walk goes on
    /// unless another item became active. An entry of an item that is gone ends the walk: its
    /// file is loaded if its path is known.
    pub open spec fn walked(self, mode: NavigationMode) -> NavigationOutcome<D>
        decreases self.nav.source(mode).len(),
    {
        if self.nav.source(mode).len() == 0 {
            NavigationOutcome { pane: self, effects: seq![], step: Navigation::Finished }
        } else {
            let entry = self.nav.source(mode).last();
            let popped = self.popped(mode);
            let taken = seq![Effect::DeferHistoryUpdated];
            match self.index_for_item(entry.item) {
                Some(index) => {
                    let pane = popped.visited(mode, index);
                    let effects = taken + popped.visit_effects(mode, index);
                    let navigated = self.active_item_index != pane.active_item_index;
                    match entry.data {
                        Some(data) => NavigationOutcome {
                            pane,
                            effects,
                            step: Navigation::Navigate {
                                item_id: entry.item,
                                data,
                                navigated,
                                reopened: false,
                            },
                        },
                        None => if navigated {
                            NavigationOutcome { pane, effects, step: Navigation::Finished }
                        } else {
                            let rest = pane.walked(mode);
                            NavigationOutcome { effects: effects + rest.effects, ..rest }
                        },
                    }
                },
                None => NavigationOutcome {
                    pane: popped,
                    effects: taken,
                    step: match self.nav.path(entry.item) {
                        Some(project_path) => Navigation::Load { project_path, entry },
                        None => Navigation::Finished,
                    },
                },
            }
        }
    }

    /// A walk stays in the pane.
    pub proof fn lemma_walk_keeps_handle(self, mode: NavigationMode)
        ensures
            self.walked(mode).pane.nav.pane == self.nav.pane,
        decreases self.nav.source(mode).len(),
    {
        if self.nav.source(mode).len() > 0 {
            if let Some(index) = self.index_for_item(self.nav.source(mode).last().item) {
                self.popped(mode).visited(mode, index).lemma_walk_keeps_handle(mode);
            }
        }
    }

    /// A walk from its beginning: it focuses the pane first.
    pub open spec fn walk_begun(self, mode: NavigationMode) -> NavigationOutcome<D> {
        let rest = self.walked(mode);
        NavigationOutcome { effects: seq![Effect::FocusPane] + rest.effects, ..rest }
    }

    /// The walk after the item reported whether it went anywhere.
    pub open spec fn walk_resumed(
        self,
        mode: NavigationMode,
        navigated: bool,
        reopened: bool,
    ) -> NavigationOutcome<D> {
        if navigated {
            NavigationOutcome { pane: self, effects: seq![], step: Navigation::Finished }
        } else if reopened {
            self.walk_begun(mode)
        } else {
            self.walked(mode)
        }
    }

    /// The walk after another item became active, or not, and the item reported whether it went
    /// anywhere.
    pub open spec fn walk_answered(
        self,
        mode: NavigationMode,
        navigated: bool,
        reopened: bool,
        reported: bool,
    ) -> NavigationOutcome<D> {
        self.walk_resumed(mode, navigated || reported, reopened)
    }

    /// The walk once the file of an item that was gone is loaded and `item` shows it in the
    /// pane `self`, where `previous` was active before. `effects` is what showing it took.
    pub open spec fn walk_reopened(
        self,
        mode: NavigationMode,
        data: Option<D>,
        previous: Option<ItemId>,
        item_id: ItemId,
        effects: Seq<Effect>,
    ) -> NavigationOutcome<D> {
        let pane = self.with_mode(NavigationMode::Normal);
        let navigated = previous != Some(item_id);
        match data {
            Some(data) => NavigationOutcome {
                pane,
                effects,
                step: Navigation::Navigate { item_id, data, navigated, reopened: true },
            },
            None => {
                let rest = pane.walk_resumed(mode, navigated, true);
                NavigationOutcome { effects: effects + rest.effects, ..rest }
            },
        }
    }

    /// What comes of opening a project entry that the item at `index` is the view of.
    pub open spec fn opened_again(
        self,
        app: AppModel,
        index: int,
        focus_item: bool,
    ) -> OpenOutcome<D> {
        OpenOutcome {
            pane: self.activated(index),
            app,
            item: self.items[index],
            effects: self.activate_effects(index, focus_item, focus_item),
        }
    }

    /// What comes of opening a project entry with a view that is built for it.
    pub open spec fn opened_anew(
        self,
        app: AppModel,
        built: (ItemId, ItemFacts),
        focus_item: bool,
    ) -> OpenOutcome<D> {
        let known = AppModel { items: app.items.insert(built.0, built.1), ..app };
        OpenOutcome {
            pane: self.added(known, built.0, None),
            app: known,
            item: built.0,
            effects: self.add_effects(known, built.0, true, focus_item, None),
        }
    }

    /// The walk once a file is loaded that the item at `index` shows.
    pub open spec fn loaded_again(
        self,
        mode: NavigationMode,
        data: Option<D>,
        index: int,
    ) -> NavigationOutcome<D> {
        let pane = self.with_mode(mode);
        pane.activated(index).walk_reopened(
            mode,
            data,
            self.active_item(),
            self.items[index],
            pane.activate_effects(index, true, true),
        )
    }

    /// The walk once a file is loaded that a new item shows.
    pub open spec fn loaded_anew(
        self,
        app: AppModel,
        mode: NavigationMode,
        data: Option<D>,
        item: ItemId,
    ) -> NavigationOutcome<D> {
        let pane = self.with_mode(mode);
        pane.added(app, item, None).walk_reopened(
            mode,
            data,
            self.active_item(),
            item,
            pane.add_effects(app, item, true, true, None),
        )
    }
}

impl<D> Pane<D> {
    /// Begins to walk the history.
    pub fn navigate_history(&mut self, mode: NavigationMode, cx: &mut ViewContext) -> (step:
        Navigation<D>)
        requires
            old(self)@.wf(),
        ensures
            final(self)@ == old(self)@.walk_begun(mode).pane,
            final(cx)@ == old(cx)@ + old(self)@.walk_begun(mode).effects,
            step == old(self)@.walk_begun(mode).step,
            final(self)@.wf(),
    {
        cx.push(Effect::FocusPane);
        let step = self.continue_navigation(mode, cx);
        proof {
            lemma_between(old(cx)@, Effect::FocusPane, old(self)@.walked(mode).effects);
        }
        step
    }

    fn continue_navigation(&mut self, mode: NavigationMode, cx: &mut ViewContext) -> (step:
        Navigation<D>)
        requires
            old(self)@.wf(),
        ensures
            final(self)@ == old(self)@.walked(mode).pane,
            final(cx)@ == old(cx)@ + old(self)@.walked(mode).effects,
            step == old(self)@.walked(mode).step,
            final(self)@.wf(),
    {
        let ghost outcome = self@.walked(mode);
        let ghost mut done: Seq<Effect> = seq![];
        proof {
            lemma_nothing(cx@);
            lemma_nothing(outcome.effects);
        }
        loop
            invariant
                self@.wf(),
                outcome == old(self)@.walked(mode),
                cx@ == old(cx)@ + done,
                outcome.pane == self@.walked(mode).pane,
                outcome.effects == done + self@.walked(mode).effects,
                outcome.step == self@.walked(mode).step,
            decreases self@.nav.source(mode).len(),
        {
            let ghost start = self@;
            // Retrieve the item from the history.
            let entry = match self.nav_history.pop(mode, cx) {
                Some(entry) => entry,
                None => {
                    proof {
                        lemma_nothing(done);
                    }
                    return Navigation::Finished;
                },
            };
            assert(self@ == start.popped(mode));

            // If the item is still present in this pane, activate it.
            if let Some(index) = self.index_for_item(entry.item) {
                let navigated = self.visit(mode, index, cx);
                let ghost visit = seq![Effect::DeferHistoryUpdated] + start.popped(
                    mode,
                ).visit_effects(mode, index as int);
                proof {
                    lemma_between(
                        old(cx)@ + done,
                        Effect::DeferHistoryUpdated,
                        start.popped(mode).visit_effects(mode, index as int),
                    );
                    lemma_three_parts(old(cx)@, done, visit);
                }
                if let Some(data) = entry.data {
                    return Navigation::Navigate {
                        item_id: entry.item,
                        data,
                        navigated,
                        reopened: false,
                    };
                }
                if navigated {
                    return Navigation::Finished;
                }
                proof {
                    lemma_three_parts(done, visit, self@.walked(mode).effects);
                    done = done + visit;
                }
            } else {
                // If the item is no longer present in this pane, retrieve its project path in
                // order to reopen it.
                proof {
                    lemma_between(old(cx)@ + done, Effect::DeferHistoryUpdated, seq![]);
                    lemma_nothing((old(cx)@ + done).push(Effect::DeferHistoryUpdated));
                    lemma_nothing(seq![Effect::DeferHistoryUpdated]);
                    lemma_three_parts(old(cx)@, done, seq![Effect::DeferHistoryUpdated]);
                }
                return match self.nav_history.path_for_item(entry.item) {
                    Some(project_path) => Navigation::Load { project_path, entry },
                    None => Navigation::Finished,
                };
            }
        }
    }

    /// Activates the item that the walk has come to. Says whether another one was active.
    fn visit(&mut self, mode: NavigationMode, index: usize, cx: &mut ViewContext) -> (navigated:
        bool)
        requires
            old(self)@.wf(),
        ensures
            final(self)@ == old(self)@.visited(mode, index as int),
            final(cx)@ == old(cx)@ + old(self)@.visit_effects(mode, index as int),
            navigated == (old(self)@.active_item_index != final(self)@.active_item_index),
            final(self)@.wf(),
    {
        let prev_active_item_index: usize = self.active_item_index;
        self.nav_history.set_mode(mode);
        assert(self@ == old(self)@.with_mode(mode));
        self.activate_item(index, true, true, cx);
        self.nav_history.set_mode(NavigationMode::Normal);
        prev_active_item_index != self.active_item_index
    }

    /// Goes on after the item reported whether it went anywhere. `navigated` and `reopened`
    /// are those of [`Navigation::Navigate`].
    pub fn item_navigated(
        &mut self,
        mode: NavigationMode,
        navigated: bool,
        reopened: bool,
        reported: bool,
        cx: &mut ViewContext,
    ) -> (step: Navigation<D>)
        requires
            old(self)@.wf(),
        ensures
            ({
                let outcome = old(self)@.walk_answered(mode, navigated, reopened, reported);
                &&& final(self)@ == outcome.pane
                &&& final(cx)@ == old(cx)@ + outcome.effects
                &&& step == outcome.step
            }),
            final(self)@.wf(),
    {
        if navigated || reported {
            proof {
                lemma_nothing(cx@);
            }
            Navigation::Finished
        } else if reopened {
            self.navigate_history(mode, cx)
        } else {
            self.continue_navigation(mode, cx)
        }
    }

    /// Goes on after a file could not be loaded.
    pub fn load_failed(&mut self, mode: NavigationMode, cx: &mut ViewContext) -> (step: Navigation<
        D,
    >)
        requires
            old(self)@.wf(),
        ensures
            final(self)@ == old(self)@.walk_begun(mode).pane,
            final(cx)@ == old(cx)@ + old(self)@.walk_begun(mode).effects,
            step == old(self)@.walk_begun(mode).step,
            final(self)@.wf(),
    {
        self.navigate_history(mode, cx)
    }

    /// Goes on after a file was loaded: shows it, and has the item look for the place.
    ///
    /// `build_item` makes a view of the file and says what is true of it. It is not called where
    /// the pane has one.
    pub fn item_loaded<F: FnOnce() -> (ItemId, ItemFacts)>(
        &mut self,
        app: &mut AppContext,
        mode: NavigationMode,
        data: Option<D>,
        project_entry_id: ProjectEntryId,
        build_item: F,
        cx: &mut ViewContext,
    ) -> (step: Navigation<D>)
        requires
            old(self)@.wf(),
            first_index(old(self)@.items, view_of(old(app)@, project_entry_id)) is None
                ==> call_requires(build_item, ()),
        ensures
            match first_index(old(self)@.items, view_of(old(app)@, project_entry_id)) {
                Some(index) => {
                    let outcome = old(self)@.loaded_again(mode, data, index);
                    &&& final(app)@ == old(app)@
                    &&& final(self)@ == outcome.pane
                    &&& final(cx)@ == old(cx)@ + outcome.effects
                    &&& step == outcome.step
                },
                None => exists|built: (ItemId, ItemFacts)|
                    {
                        let known = AppModel {
                            items: old(app)@.items.insert(built.0, built.1),
                            ..old(app)@
                        };
                        let outcome = old(self)@.loaded_anew(known, mode, data, built.0);
                        &&& #[trigger] call_ensures(build_item, (), built)
                        &&& final(app)@ == known
                        &&& final(self)@ == outcome.pane
                        &&& final(cx)@ == old(cx)@ + outcome.effects
                        &&& step == outcome.step
                    },
            },
            final(self)@.wf(),
    {
        let previous = self.active_item();
        self.nav_history.set_mode(mode);
        let ghost opening = self@;
        assert(opening == old(self)@.with_mode(mode));
        let item_id = self.open_item(app, project_entry_id, true, build_item, cx);
        let ghost effects = match first_index(opening.items, view_of(old(app)@, project_entry_id)) {
            Some(index) => opening.activate_effects(index, true, true),
            None => opening.add_effects(app@, item_id, true, true, None),
        };
        self.resume_reopened(mode, data, previous, item_id, Ghost(old(cx)@), Ghost(effects), cx)
    }

    fn resume_reopened(
        &mut self,
        mode: NavigationMode,
        data: Option<D>,
        previous: Option<ItemId>,
        item_id: ItemId,
        Ghost(before): Ghost<Seq<Effect>>,
        Ghost(effects): Ghost<Seq<Effect>>,
        cx: &mut ViewContext,
    ) -> (step: Navigation<D>)
        requires
            old(self)@.wf(),
            old(cx)@ == before + effects,
        ensures
            ({
                let outcome = old(self)@.walk_reopened(mode, data, previous, item_id, effects);
                &&& final(self)@ == outcome.pane
                &&& final(cx)@ == before + outcome.effects
                &&& step == outcome.step
            }),
            final(self)@.wf(),
    {
        let navigated = match previous {
            Some(previous) => previous != item_id,
            None => true,
        };
        self.nav_history.set_mode(NavigationMode::Normal);
        assert(self@ == old(self)@.with_mode(NavigationMode::Normal));
        match data {
            Some(data) => Navigation::Navigate { item_id, data, navigated, reopened: true },
            None => {
                let ghost resumed = self@.walk_resumed(mode, navigated, true);
                let step = self.item_navigated(mode, navigated, true, false, cx);
                proof {
                    lemma_three_parts(before, effects, resumed.effects);
                }
                step
            },
        }
    }

    /// Shows a project entry: activates the item that is the view of exactly this entry, or
    /// else adds a new one.
    ///
    /// `build_item` makes a view of the entry and says what is true of it. It is not called where
    /// the pane has one.
    pub fn open_item<F: FnOnce() -> (ItemId, ItemFacts)>(
        &mut self,
        app: &mut AppContext,
        project_entry_id: ProjectEntryId,
        focus_item: bool,
        build_item: F,
        cx: &mut ViewContext,
    ) -> (item: ItemId)
        requires
            old(self)@.wf(),
            first_index(old(self)@.items, view_of(old(app)@, project_entry_id)) is None
                ==> call_requires(build_item, ()),
        ensures
            match first_index(old(self)@.items, view_of(old(app)@, project_entry_id)) {
                Some(index) => {
                    let outcome = old(self)@.opened_again(old(app)@, index, focus_item);
                    &&& item == outcome.item
                    &&& final(app)@ == outcome.app
                    &&& final(self)@ == outcome.pane
                    &&& final(cx)@ == old(cx)@ + outcome.effects
                },
                None => exists|built: (ItemId, ItemFacts)|
                    {
                        let outcome = old(self)@.opened_anew(old(app)@, built, focus_item);
                        &&& #[trigger] call_ensures(build_item, (), built)
                        &&& item == outcome.item
                        &&& final(app)@ == outcome.app
                        &&& final(self)@ == outcome.pane
                        &&& final(cx)@ == old(cx)@ + outcome.effects
                    },
            },
            final(self)@.wf(),
    {
        match self.index_for_entry(project_entry_id, app) {
            Some(index) => {
                self.activate_item(index, focus_item, focus_item, cx);
                self.items[index]
            },
            None => {
                let (item, facts) = build_item();
                app.set_item(item, facts);
                self.add_item(app, item, true, focus_item, None, cx);
                item
            },
        }
    }
}

} // verus!

//! The places that a pane can return to.

use crate::context::{ItemId, PaneId, ProjectPath};
use crate::effect::{Effect, ViewContext};
use std::collections::{HashMap, VecDeque};
use vstd::prelude::*;

verus! {

/// The most entries that any one stack of a history holds.
pub const MAX_NAVIGATION_HISTORY_LEN: usize = 1024;

/// Why items are being activated or closed, which decides where they record their place.
#[derive(Clone, Copy, PartialEq, Eq, Structural, Debug)]
pub enum NavigationMode {
    Normal,
    GoingBack,
    GoingForward,
    ClosingItem,
    ReopeningClosedItem,
    Disabled,
}

impl Default for NavigationMode {
    fn default() -> (mode: Self)
        ensures
            mode == NavigationMode::Normal,
    {
        NavigationMode::Normal
    }
}

/// A place to return to: an item, and what the item needs to find the place.
pub struct NavigationEntry<D> {
    pub item: ItemId,
    pub data: Option<D>,
}

/// The places that a pane can return to.
pub struct NavHistory<D> {
    mode: NavigationMode,
    backward_stack: VecDeque<NavigationEntry<D>>,
    forward_stack: VecDeque<NavigationEntry<D>>,
    closed_stack: VecDeque<NavigationEntry<D>>,
    paths_by_item: HashMap<ItemId, ProjectPath>,
    pane: PaneId,
}

/// The mathematical value of a [`NavHistory`]. The newest entry of a stack is its last.
#[verifier::ext_equal]
pub struct NavModel<D> {
    pub mode: NavigationMode,
    pub backward: Seq<NavigationEntry<D>>,
    pub forward: Seq<NavigationEntry<D>>,
    pub closed: Seq<NavigationEntry<D>>,
    pub paths: Map<ItemId, ProjectPath>,
    pub pane: PaneId,
}

/// A stack after an entry is put on it: where the stack is full, its oldest entry is lost.
pub open spec fn stacked<D>(
    stack: Seq<NavigationEntry<D>>,
    entry: NavigationEntry<D>,
) -> Seq<NavigationEntry<D>> {
    if stack.len() >= MAX_NAVIGATION_HISTORY_LEN {
        stack.drop_first().push(entry)
    } else {
        stack.push(entry)
    }
}

impl<D> NavModel<D> {
    pub open spec fn wf(self) -> bool {
        &&& self.backward.len() <= MAX_NAVIGATION_HISTORY_LEN
        &&& self.forward.len() <= MAX_NAVIGATION_HISTORY_LEN
        &&& self.closed.len() <= MAX_NAVIGATION_HISTORY_LEN
    }

    /// The history of a pane in which nothing has happened.
    pub open spec fn fresh(pane: PaneId) -> Self {
        NavModel {
            mode: NavigationMode::Normal,
            backward: Seq::empty(),
            forward: Seq::empty(),
            closed: Seq::empty(),
            paths: Map::empty(),
            pane,
        }
    }

    pub open spec fn with_mode(self, mode: NavigationMode) -> Self {
        NavModel { mode, ..self }
    }

    /// The stack that a kind of navigation takes its entries from.
    pub open spec fn source(self, mode: NavigationMode) -> Seq<NavigationEntry<D>> {
        match mode {
            NavigationMode::GoingBack => self.backward,
            NavigationMode::GoingForward => self.forward,
            NavigationMode::ReopeningClosedItem => self.closed,
            _ => Seq::empty(),
        }
    }

    /// The history once the newest entry of that stack, if there is one, is taken off.
    pub open spec fn popped(self, mode: NavigationMode) -> Self {
        if self.source(mode).len() == 0 {
            self
        } else {
            match mode {
                NavigationMode::GoingBack => NavModel { backward: self.backward.drop_last(), ..self },
                NavigationMode::GoingForward => NavModel { forward: self.forward.drop_last(), ..self },
                NavigationMode::ReopeningClosedItem => NavModel {
                    closed: self.closed.drop_last(),
                    ..self
                },
                _ => self,
            }
        }
    }

    /// The history once an entry is recorded in the current mode.
    pub open spec fn pushed(self, entry: NavigationEntry<D>) -> Self {
        match self.mode {
            NavigationMode::Disabled => self,
            NavigationMode::Normal | NavigationMode::ReopeningClosedItem => NavModel {
                backward: stacked(self.backward, entry),
                forward: Seq::empty(),
                ..self
            },
            NavigationMode::GoingBack => NavModel {
                forward: stacked(self.forward, entry),
                ..self
            },
            NavigationMode::GoingForward => NavModel {
                backward: stacked(self.backward, entry),
                ..self
            },
            NavigationMode::ClosingItem => NavModel {
                closed: stacked(self.closed, entry),
                ..self
            },
        }
    }

    /// The history once an item has recorded these places, in order, in the current mode.
    pub open spec fn pushed_all(self, item: ItemId, places: Seq<Option<D>>) -> Self
        decreases places.len(),
    {
        if places.len() == 0 {
            self
        } else {
            self.pushed_all(item, places.drop_last()).pushed(
                NavigationEntry { item, data: places.last() },
            )
        }
    }

    /// The history once an item is closed whose file has this path, or that has no path.
    pub open spec fn with_path(self, item: ItemId, path: Option<ProjectPath>) -> Self {
        NavModel {
            paths: match path {
                Some(path) => self.paths.insert(item, path),
                None => self.paths.remove(item),
            },
            ..self
        }
    }

    pub open spec fn path(self, item: ItemId) -> Option<ProjectPath> {
        if self.paths.contains_key(item) {
            Some(self.paths[item])
        } else {
            None
        }
    }
}

impl<D> View for NavHistory<D> {
    type V = NavModel<D>;

    closed spec fn view(&self) -> NavModel<D> {
        NavModel {
            mode: self.mode,
            backward: self.backward_stack@,
            forward: self.forward_stack@,
            closed: self.closed_stack@,
            paths: self.paths_by_item@,
            pane: self.pane,
        }
    }
}

impl<D> NavHistory<D> {
    pub fn new(pane: PaneId) -> (history: Self)
        ensures
            history@ == NavModel::<D>::fresh(pane),
    {
        NavHistory {
            mode: NavigationMode::Normal,
            backward_stack: VecDeque::new(),
            forward_stack: VecDeque::new(),
            closed_stack: VecDeque::new(),
            paths_by_item: HashMap::new(),
            pane,
        }
    }

    pub fn mode(&self) -> (mode: NavigationMode)
        ensures
            mode == self@.mode,
    {
        self.mode
    }

    pub fn pane(&self) -> (pane: PaneId)
        ensures
            pane == self@.pane,
    {
        self.pane
    }

    pub fn set_mode(&mut self, mode: NavigationMode)
        ensures
            final(self)@ == old(self)@.with_mode(mode),
    {
        self.mode = mode;
    }

    /// Stops recording.
    pub fn disable(&mut self)
        ensures
            final(self)@ == old(self)@.with_mode(NavigationMode::Disabled),
    {
        self.mode = NavigationMode::Disabled;
    }

    /// Records again.
    pub fn enable(&mut self)
        ensures
            final(self)@ == old(self)@.with_mode(NavigationMode::Normal),
    {
        self.mode = NavigationMode::Normal;
    }

    pub fn can_go_back(&self) -> (result: bool)
        ensures
            result == (self@.backward.len() > 0),
    {
        self.backward_stack.len() > 0
    }

    pub fn can_go_forward(&self) -> (result: bool)
        ensures
            result == (self@.forward.len() > 0),
    {
        self.forward_stack.len() > 0
    }

    /// Where the item's file was when the item was last closed.
    pub fn path_for_item(&self, item: ItemId) -> (path: Option<ProjectPath>)
        ensures
            path == self@.path(item),
    {
        match self.paths_by_item.get(&item) {
            Some(path) => Some(path.clone()),
            None => None,
        }
    }

    /// Remembers the path of a closed item, or forgets an older one.
    pub fn set_path(&mut self, item: ItemId, path: Option<ProjectPath>)
        ensures
            final(self)@ == old(self)@.with_path(item, path),
    {
        match path {
            Some(path) => {
                self.paths_by_item.insert(item, path);
            },
            None => {
                self.paths_by_item.remove(&item);
            },
        }
    }

    /// Takes the newest entry of the stack that the mode reads. Modes that do not navigate
    /// read none.
    pub fn pop(&mut self, mode: NavigationMode, cx: &mut ViewContext) -> (entry: Option<
        NavigationEntry<D>,
    >)
        ensures
            final(self)@ == old(self)@.popped(mode),
            entry == (if old(self)@.source(mode).len() > 0 {
                Some(old(self)@.source(mode).last())
            } else {
                None
            }),
            final(cx)@ == (if old(self)@.source(mode).len() > 0 {
                old(cx)@.push(Effect::DeferHistoryUpdated)
            } else {
                old(cx)@
            }),
            old(self)@.wf() ==> final(self)@.wf(),
    {
        let entry = match mode {
            NavigationMode::Normal | NavigationMode::Disabled | NavigationMode::ClosingItem => {
                return None;
            },
            NavigationMode::GoingBack => self.backward_stack.pop_back(),
            NavigationMode::GoingForward => self.forward_stack.pop_back(),
            NavigationMode::ReopeningClosedItem => self.closed_stack.pop_back(),
        };
        if entry.is_some() {
            self.did_update(cx);
        }
        entry
    }

    /// Records a place in the current mode.
    pub fn push(&mut self, data: Option<D>, item: ItemId, cx: &mut ViewContext)
        ensures
            final(self)@ == old(self)@.pushed(NavigationEntry { item, data }),
            final(cx)@ == old(cx)@.push(Effect::DeferHistoryUpdated),
            old(self)@.wf() ==> final(self)@.wf(),
    {
        let entry = NavigationEntry { item, data };
        match self.mode {
            NavigationMode::Disabled => {},
            NavigationMode::Normal | NavigationMode::ReopeningClosedItem => {
                push_bounded(&mut self.backward_stack, entry);
                self.forward_stack.clear();
            },
            NavigationMode::GoingBack => {
                push_bounded(&mut self.forward_stack, entry);
            },
            NavigationMode::GoingForward => {
                push_bounded(&mut self.backward_stack, entry);
            },
            NavigationMode::ClosingItem => {
                push_bounded(&mut self.closed_stack, entry);
            },
        }
        self.did_update(cx);
    }

    /// Records the places that an item handed in while it was told of something in `mode`,
    /// whatever the mode is now.
    pub fn push_all_in_mode(
        &mut self,
        mode: NavigationMode,
        item: ItemId,
        places: Vec<Option<D>>,
        cx: &mut ViewContext,
    )
        ensures
            final(self)@ == old(self)@.with_mode(mode).pushed_all(item, places@).with_mode(
                old(self)@.mode,
            ),
            final(cx)@ == old(cx)@ + Seq::new(places@.len(), |i: int| Effect::DeferHistoryUpdated),
            old(self)@.wf() ==> final(self)@.wf(),
    {
        let current = self.mode;
        let ghost start = self@.with_mode(mode);
        self.mode = mode;
        for data in iter: places
            invariant
                iter.seq() == places@,
                self@ == start.pushed_all(item, places@.take(iter.index())),
                cx@ == old(cx)@ + Seq::new(
                    iter.index() as nat,
                    |i: int| Effect::DeferHistoryUpdated,
                ),
                old(self)@.wf() ==> self@.wf(),
        {
            proof {
                let done = places@.take(iter.index() + 1);
                assert(done.drop_last() =~= places@.take(iter.index()));
                assert(done.last() == data);
            }
            self.push(data, item, cx);
        }
        assert(places@.take(places@.len() as int) =~= places@);
        self.mode = current;
    }

    /// Asks for the pane to be told, once the current update is over.
    pub fn did_update(&self, cx: &mut ViewContext)
        ensures
            final(cx)@ == old(cx)@.push(Effect::DeferHistoryUpdated),
    {
        cx.push(Effect::DeferHistoryUpdated);
    }
}

fn push_bounded<D>(stack: &mut VecDeque<NavigationEntry<D>>, entry: NavigationEntry<D>)
    ensures
        final(stack)@ == stacked(old(stack)@, entry),
{
    if stack.len() >= MAX_NAVIGATION_HISTORY_LEN {
        stack.pop_front();
    }
    stack.push_back(entry);
}

/// One item's access to the history of the pane that it is in.
#[derive(Clone, Copy, PartialEq, Eq, Structural, Debug)]
pub struct ItemNavHistory {
    pub history: PaneId,
    pub item: ItemId,
}

impl ItemNavHistory {
    pub fn push<D>(&self, history: &mut NavHistory<D>, data: Option<D>, cx: &mut ViewContext)
        requires
            old(history)@.pane == self.history,
        ensures
            final(history)@ == old(history)@.pushed(NavigationEntry { item: self.item, data }),
            final(cx)@ == old(cx)@.push(Effect::DeferHistoryUpdated),
            old(history)@.wf() ==> final(history)@.wf(),
    {
        history.push(data, self.item, cx);
    }

    pub fn pop_backward<D>(&self, history: &mut NavHistory<D>, cx: &mut ViewContext) -> (entry:
        Option<NavigationEntry<D>>)
        requires
            old(history)@.pane == self.history,
        ensures
            final(history)@ == old(history)@.popped(NavigationMode::GoingBack),
            entry == (if old(history)@.backward.len() > 0 {
                Some(old(history)@.backward.last())
            } else {
                None
            }),
            final(cx)@ == (if old(history)@.backward.len() > 0 {
                old(cx)@.push(Effect::DeferHistoryUpdated)
            } else {
                old(cx)@
            }),
            old(history)@.wf() ==> final(history)@.wf(),
    {
        history.pop(NavigationMode::GoingBack, cx)
    }

    pub fn pop_forward<D>(&self, history: &mut NavHistory<D>, cx: &mut ViewContext) -> (entry:
        Option<NavigationEntry<D>>)
        requires
            old(history)@.pane == self.history,
        ensures
            final(history)@ == old(history)@.popped(NavigationMode::GoingForward),
            entry == (if old(history)@.forward.len() > 0 {
                Some(old(history)@.forward.last())
            } else {
                None
            }),
            final(cx)@ == (if old(history)@.forward.len() > 0 {
                old(cx)@.push(Effect::DeferHistoryUpdated)
            } else {
                old(cx)@
            }),
            old(history)@.wf() ==> final(history)@.wf(),
    {
        history.pop(NavigationMode::GoingForward, cx)
    }
}

} // verus!

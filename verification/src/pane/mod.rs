//! The pane: its state, and what is read and set directly.

pub mod close;
pub mod focus;
pub mod items;
pub mod menus;
pub mod navigate;
pub mod persist;
pub mod render;
pub mod save;
pub mod tabs;

pub use close::{CloseItems, CloseModel, CloseOutcome, CloseStep, ItemType};
pub use navigate::{Navigation, NavigationOutcome, OpenOutcome};
pub use persist::{PendingPaneModel, PendingPaneState};
pub use render::{
    render_tab, ButtonIcon, DropTarget, PaneBackdrop, PaneContents, RenderedPane, RenderedTab, Tab, TabBarButton, TabIcon, TabRow,
};
pub use save::{start_directory, Prompt, PromptLevel, SaveItem, SaveResult, CONFLICT_MESSAGE, DIRTY_MESSAGE};

use crate::context::{ItemId, PaneId, ViewId};
use crate::effect::{Effect, Event, SplitDirection, TabBarContextMenuKind, ViewContext};
use crate::ids::{find_id, index_of};
use crate::nav_history::{ItemNavHistory, NavHistory, NavModel, NavigationMode};
use std::collections::HashMap;
use vstd::prelude::*;

verus! {

/// Where the dock stands that a pane belongs to.
#[derive(Clone, Copy, PartialEq, Eq, Structural, Debug)]
pub enum DockAnchor {
    Bottom,
    Right,
    Expanded,
}

/// Where an item goes that is opened again.
#[derive(Clone, Copy, PartialEq, Eq, Structural, Debug)]
pub enum ReorderBehavior {
    Stay,
    MoveAfterActive,
    MoveToIndex(usize),
}

/// The one menu of the tab bar, and what it showed last.
#[derive(Clone, Copy, PartialEq, Eq, Structural, Debug)]
pub struct TabBarContextMenu {
    pub kind: TabBarContextMenuKind,
    pub handle: ViewId,
}

/// A row of items, one of which is active. `D` is what items keep to find a place again.
pub struct Pane<D> {
    items: Vec<ItemId>,
    activation_history: Vec<ItemId>,
    is_active: bool,
    active_item_index: usize,
    last_focused_view_by_item: HashMap<ItemId, ViewId>,
    autoscroll: bool,
    nav_history: NavHistory<D>,
    toolbar: ViewId,
    tab_bar_context_menu: TabBarContextMenu,
    docked: Option<DockAnchor>,
}

/// The mathematical value of a [`Pane`].
#[verifier::ext_equal]
pub struct PaneModel<D> {
    /// The items from left to right.
    pub items: Seq<ItemId>,
    /// Items in the order in which each was last activated. Some may be gone.
    pub activation_history: Seq<ItemId>,
    pub is_active: bool,
    pub active_item_index: int,
    /// The view inside each item that had the focus last.
    pub last_focused: Map<ItemId, ViewId>,
    /// Whether the tabs are to be scrolled to the active one.
    pub autoscroll: bool,
    pub nav: NavModel<D>,
    pub toolbar: ViewId,
    pub menu: TabBarContextMenu,
    pub docked: Option<DockAnchor>,
}

impl<D> PaneModel<D> {
    /// What holds of every pane between calls.
    pub open spec fn wf(self) -> bool {
        &&& 0 <= self.active_item_index
        &&& self.active_item_index < self.items.len() || (self.items.len() == 0
            && self.active_item_index == 0)
        &&& self.activation_history.no_duplicates()
        &&& self.nav.wf()
    }

    /// A pane in which nothing has happened.
    pub open spec fn fresh(
        docked: Option<DockAnchor>,
        pane: PaneId,
        toolbar: ViewId,
        menu: ViewId,
    ) -> Self {
        PaneModel {
            items: Seq::empty(),
            activation_history: Seq::empty(),
            is_active: true,
            active_item_index: 0,
            last_focused: Map::empty(),
            autoscroll: false,
            nav: NavModel::fresh(pane),
            toolbar,
            menu: TabBarContextMenu { kind: TabBarContextMenuKind::New, handle: menu },
            docked,
        }
    }

    pub open spec fn active_item(self) -> Option<ItemId> {
        if 0 <= self.active_item_index < self.items.len() {
            Some(self.items[self.active_item_index])
        } else {
            None
        }
    }

    pub open spec fn index_for_item(self, item: ItemId) -> Option<int> {
        index_of(self.items, item)
    }

    pub open spec fn with_mode(self, mode: NavigationMode) -> Self {
        PaneModel { nav: self.nav.with_mode(mode), ..self }
    }

    /// The pane once an item has recorded these places, in order, in the given mode.
    pub open spec fn recorded(
        self,
        item: ItemId,
        mode: NavigationMode,
        places: Seq<Option<D>>,
    ) -> Self {
        PaneModel {
            nav: self.nav.with_mode(mode).pushed_all(item, places).with_mode(self.nav.mode),
            ..self
        }
    }
}

impl<D> View for Pane<D> {
    type V = PaneModel<D>;

    closed spec fn view(&self) -> PaneModel<D> {
        PaneModel {
            items: self.items@,
            activation_history: self.activation_history@,
            is_active: self.is_active,
            active_item_index: self.active_item_index as int,
            last_focused: self.last_focused_view_by_item@,
            autoscroll: self.autoscroll,
            nav: self.nav_history@,
            toolbar: self.toolbar,
            menu: self.tab_bar_context_menu,
            docked: self.docked,
        }
    }
}

impl<D> Pane<D> {
    /// An empty, active pane with a toolbar and a menu for its tab bar.
    pub fn new(
        docked: Option<DockAnchor>,
        handle: PaneId,
        toolbar: ViewId,
        context_menu: ViewId,
    ) -> (pane: Self)
        ensures
            pane@ == PaneModel::<D>::fresh(docked, handle, toolbar, context_menu),
            pane@.wf(),
    {
        Pane {
            items: Vec::new(),
            activation_history: Vec::new(),
            is_active: true,
            active_item_index: 0,
            last_focused_view_by_item: HashMap::new(),
            autoscroll: false,
            nav_history: NavHistory::new(handle),
            toolbar,
            tab_bar_context_menu: TabBarContextMenu {
                kind: TabBarContextMenuKind::New,
                handle: context_menu,
            },
            docked,
        }
    }

    /// The pane's own identifier.
    pub fn handle(&self) -> (handle: PaneId)
        ensures
            handle == self@.nav.pane,
    {
        self.nav_history.pane()
    }

    pub fn is_active(&self) -> (result: bool)
        ensures
            result == self@.is_active,
    {
        self.is_active
    }

    pub fn set_active(&mut self, is_active: bool, cx: &mut ViewContext)
        ensures
            final(self)@ == (PaneModel { is_active, ..old(self)@ }),
            final(cx)@ == old(cx)@.push(Effect::Notify),
    {
        self.is_active = is_active;
        cx.notify();
    }

    pub fn docked(&self) -> (docked: Option<DockAnchor>)
        ensures
            docked == self@.docked,
    {
        self.docked
    }

    pub fn set_docked(&mut self, docked: Option<DockAnchor>, cx: &mut ViewContext)
        ensures
            final(self)@ == (PaneModel { docked, ..old(self)@ }),
            final(cx)@ == old(cx)@.push(Effect::Notify),
    {
        self.docked = docked;
        cx.notify();
    }

    /// The item's access to this pane's history.
    pub fn nav_history_for_item(&self, item: ItemId) -> (history: ItemNavHistory)
        ensures
            history == (ItemNavHistory { history: self@.nav.pane, item }),
    {
        ItemNavHistory { history: self.nav_history.pane(), item }
    }

    /// The history itself, for items to record places in.
    pub fn nav_history_mut(&mut self) -> (history: &mut NavHistory<D>)
        ensures
            history@ == old(self)@.nav,
            final(self)@ == (PaneModel { nav: final(history)@, ..old(self)@ }),
    {
        &mut self.nav_history
    }

    pub fn disable_history(&mut self)
        ensures
            final(self)@ == old(self)@.with_mode(NavigationMode::Disabled),
    {
        self.nav_history.disable();
    }

    pub fn enable_history(&mut self)
        ensures
            final(self)@ == old(self)@.with_mode(NavigationMode::Normal),
    {
        self.nav_history.enable();
    }

    pub fn can_navigate_backward(&self) -> (result: bool)
        ensures
            result == (self@.nav.backward.len() > 0),
    {
        self.nav_history.can_go_back()
    }

    pub fn can_navigate_forward(&self) -> (result: bool)
        ensures
            result == (self@.nav.forward.len() > 0),
    {
        self.nav_history.can_go_forward()
    }

    /// The toolbar shows whether the history can be walked: draw it again.
    pub fn history_updated(&mut self, cx: &mut ViewContext)
        ensures
            final(self)@ == old(self)@,
            final(cx)@ == old(cx)@.push(Effect::NotifyToolbar),
    {
        cx.push(Effect::NotifyToolbar);
    }

    /// Records the places that an item handed in while it was told that it was deactivated.
    pub fn item_deactivated(
        &mut self,
        item: ItemId,
        mode: NavigationMode,
        places: Vec<Option<D>>,
        cx: &mut ViewContext,
    )
        ensures
            final(self)@ == old(self)@.recorded(item, mode, places@),
            final(cx)@ == old(cx)@ + Seq::new(places@.len(), |i: int| Effect::DeferHistoryUpdated),
            old(self)@.wf() ==> final(self)@.wf(),
    {
        self.nav_history.push_all_in_mode(mode, item, places, cx);
    }

    pub fn items_len(&self) -> (len: usize)
        ensures
            len == self@.items.len(),
    {
        self.items.len()
    }

    /// The items from left to right.
    pub fn items(&self) -> (items: &Vec<ItemId>)
        ensures
            items@ == self@.items,
    {
        &self.items
    }

    pub fn active_item_index(&self) -> (index: usize)
        ensures
            index == self@.active_item_index,
    {
        self.active_item_index
    }

    pub fn active_item(&self) -> (item: Option<ItemId>)
        ensures
            item == self@.active_item(),
    {
        if self.active_item_index < self.items.len() {
            Some(self.items[self.active_item_index])
        } else {
            None
        }
    }

    pub fn index_for_item(&self, item: ItemId) -> (index: Option<usize>)
        ensures
            match index {
                Some(i) => self@.index_for_item(item) == Some(i as int) && i < self@.items.len()
                    && self@.items[i as int] == item,
                None => self@.index_for_item(item) is None && !self@.items.contains(item),
            },
    {
        find_id(&self.items, item)
    }

    /// Tells observers that the pane wants to be split.
    pub fn split(&mut self, direction: SplitDirection, cx: &mut ViewContext)
        ensures
            final(self)@ == old(self)@,
            final(cx)@ == old(cx)@.push(Effect::Emit(Event::Split(direction))),
    {
        cx.emit(Event::Split(direction));
    }

    pub fn toolbar(&self) -> (toolbar: ViewId)
        ensures
            toolbar == self@.toolbar,
    {
        self.toolbar
    }

    /// Shows the active item in the toolbar.
    pub fn update_toolbar(&self, cx: &mut ViewContext)
        ensures
            final(cx)@ == old(cx)@.push(
                Effect::UpdateToolbar { active_item: self@.active_item() },
            ),
    {
        let active_item = self.active_item();
        cx.push(Effect::UpdateToolbar { active_item });
    }

    /// Moves the focus to the active item, if there is one.
    pub fn focus_active_item(&mut self, cx: &mut ViewContext)
        ensures
            final(self)@ == old(self)@,
            final(cx)@ == (match old(self)@.active_item() {
                Some(item_id) => old(cx)@.push(Effect::FocusItem { item_id }),
                None => old(cx)@,
            }),
    {
        if let Some(item_id) = self.active_item() {
            cx.push(Effect::FocusItem { item_id });
        }
    }
}

} // verus!

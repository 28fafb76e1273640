//! What the pane shows, as plain values for the application to draw.

use super::tabs::{are_tab_details, as_ints};
use super::{DockAnchor, Pane, PaneModel};
use crate::actions::{
    Action, ActivateItem, CloseItem, DeployDockMenu, DeployNewMenu, DeploySplitMenu, GoBack, GoForward,
};
use crate::context::{AppContext, AppModel, ItemId, PaneId, ViewId};
use crate::effect::TabBarContextMenuKind;
use vstd::prelude::*;

verus! {

/// The mark on a tab whose item has something to save.
#[derive(Clone, Copy, PartialEq, Eq, Structural, Debug)]
pub enum TabIcon {
    Conflict,
    Dirty,
}

/// A tab as it is drawn.
#[derive(Clone, Copy, PartialEq, Eq, Debug)]
pub struct RenderedTab {
    pub item_id: ItemId,
    /// How much detail the title gives, if any.
    pub detail: Option<usize>,
    /// Whether the border on the left is left out.
    pub hides_left_border: bool,
    pub icon: Option<TabIcon>,
    /// What the close button does, if it is shown.
    pub close_button: Option<CloseItem>,
}

/// A place where a dragged item can be dropped.
#[derive(Clone, Copy, PartialEq, Eq, Structural, Debug)]
pub struct DropTarget {
    /// Tells the targets of one kind apart.
    pub region_id: usize,
    /// Where the item goes.
    pub drop_index: usize,
    /// Whether an item of this pane can be dropped here.
    pub allow_same_pane: bool,
    /// Whether dropping the item near an edge splits the pane.
    pub splits_pane: bool,
}

/// A tab and how it answers the mouse.
#[derive(Clone, Copy, PartialEq, Eq, Debug)]
pub struct Tab {
    pub ix: usize,
    pub item_id: ItemId,
    pub pane: PaneId,
    pub detail: Option<usize>,
    pub pane_active: bool,
    pub tab_active: bool,
    /// Whether the cursor becomes a pointing hand.
    pub pointing_hand: bool,
    pub drop_target: DropTarget,
    pub on_left_down: ActivateItem,
    pub on_middle_click: CloseItem,
}

/// The row of tabs.
#[derive(Debug)]
pub struct TabRow {
    /// The tab to scroll to.
    pub autoscroll: Option<usize>,
    pub tabs: Vec<Tab>,
    /// What is left of the row takes drops too. It is drawn like an inactive tab.
    pub filler: DropTarget,
    pub pane_active: bool,
}

/// The icon of a button.
#[derive(Clone, Copy, Debug)]
pub enum ButtonIcon {
    Asset(&'static str),
    /// The icon of a dock that stands here.
    Dock(DockAnchor),
}

/// A button at the end of the tab bar.
#[derive(Clone, Copy, Debug)]
pub struct TabBarButton {
    pub index: usize,
    pub icon: ButtonIcon,
    pub action: Action,
    /// The menu below the button, if it is open.
    pub context_menu: Option<ViewId>,
}

/// The inside of a pane.
#[derive(Debug)]
pub enum PaneContents {
    /// A background that takes drops and, on a click, gives the focus to the parent view.
    Blank { drop_target: DropTarget },
    /// The tab bar, and below it the active item.
    Items {
        /// What a click on the empty part of the tab bar does.
        on_tab_bar_down: ActivateItem,
        tabs: TabRow,
        buttons: Option<Vec<TabBarButton>>,
        drop_target: DropTarget,
        toolbar: Option<ViewId>,
        active_item: ItemId,
    },
}

/// A pane as it is drawn.
#[derive(Debug)]
pub struct RenderedPane {
    pub contents: PaneContents,
    /// What the mouse's buttons for going back and forward do.
    pub on_navigate_back: GoBack,
    pub on_navigate_forward: GoForward,
}

pub open spec fn tab_icon(app: AppModel, item: ItemId) -> Option<TabIcon> {
    if app.has_conflict(item) {
        Some(TabIcon::Conflict)
    } else if app.is_dirty(item) {
        Some(TabIcon::Dirty)
    } else {
        None
    }
}

/// A tab of an item as it is drawn.
pub open spec fn drawn_tab(
    app: AppModel,
    item_id: ItemId,
    pane: PaneId,
    first: bool,
    detail: Option<usize>,
    hovered: bool,
) -> RenderedTab {
    RenderedTab {
        item_id,
        detail,
        hides_left_border: first,
        icon: tab_icon(app, item_id),
        close_button: if hovered {
            Some(CloseItem { item_id, pane })
        } else {
            None
        },
    }
}

/// The title's detail: none at level zero.
pub open spec fn shown_detail(detail: usize) -> Option<usize> {
    if detail == 0 {
        None
    } else {
        Some(detail)
    }
}

/// What a button is, as plain values.
pub open spec fn is_button(
    button: TabBarButton,
    index: usize,
    icon: Seq<char>,
    action: Action,
    context_menu: Option<ViewId>,
) -> bool {
    &&& button.index == index
    &&& button.icon matches ButtonIcon::Asset(asset)
    &&& asset@ == icon
    &&& button.action == action
    &&& button.context_menu == context_menu
}

impl<D> PaneModel<D> {
    pub open spec fn tab(self, i: int, detail: usize) -> Tab {
        let tab_active = i == self.active_item_index;
        Tab {
            ix: i as usize,
            item_id: self.items[i],
            pane: self.nav.pane,
            detail: shown_detail(detail),
            pane_active: self.is_active,
            tab_active,
            pointing_hand: !self.is_active || !tab_active,
            drop_target: DropTarget {
                region_id: i as usize,
                drop_index: i as usize,
                allow_same_pane: true,
                splits_pane: false,
            },
            on_left_down: ActivateItem(i as usize),
            on_middle_click: CloseItem { item_id: self.items[i], pane: self.nav.pane },
        }
    }

    /// That a row shows the pane's tabs, each with as much detail as it needs.
    pub open spec fn shows_tabs(self, app: AppModel, row: TabRow) -> bool {
        &&& row.autoscroll == if self.autoscroll {
            Some(self.active_item_index as usize)
        } else {
            None
        }
        &&& row.pane_active == self.is_active
        &&& row.filler == DropTarget {
            region_id: 0,
            drop_index: self.items.len() as usize,
            allow_same_pane: true,
            splits_pane: false,
        }
        &&& exists|details: Seq<usize>|
            {
                &&& #[trigger] are_tab_details(app, self.items, as_ints(details))
                &&& row.tabs@ == Seq::new(self.items.len(), |i: int| self.tab(i, details[i]))
            }
    }

    /// The menu, where it showed this last.
    pub open spec fn open_menu(self, kind: TabBarContextMenuKind) -> Option<ViewId> {
        if self.menu.kind == kind {
            Some(self.menu.handle)
        } else {
            None
        }
    }

    /// That these are the buttons of the tab bar: one to create something, and either one to
    /// move and one to hide the dock or, where the pane is not in the dock, one to split it.
    pub open spec fn shows_buttons(self, buttons: Seq<TabBarButton>) -> bool {
        &&& buttons.len() == if self.docked is Some { 3int } else { 2 }
        &&& is_button(
            buttons[0],
            0,
            "icons/plus_12.svg"@,
            Action::DeployNewMenu(DeployNewMenu),
            self.open_menu(TabBarContextMenuKind::New),
        )
        &&& match self.docked {
            Some(anchor) => {
                &&& buttons[1] == TabBarButton {
                    index: 1,
                    icon: ButtonIcon::Dock(anchor),
                    action: Action::DeployDockMenu(DeployDockMenu),
                    context_menu: self.open_menu(TabBarContextMenuKind::Dock),
                }
                &&& is_button(buttons[2], 3, "icons/x_mark_8.svg"@, Action::HideDock, None)
            },
            None => is_button(
                buttons[1],
                2,
                "icons/split_12.svg"@,
                Action::DeploySplitMenu(DeploySplitMenu),
                self.open_menu(TabBarContextMenuKind::Split),
            ),
        }
    }

    /// That this is what the pane shows.
    pub open spec fn shows(self, app: AppModel, toolbar_hidden: bool, view: RenderedPane) -> bool {
        &&& view.on_navigate_back == (GoBack { pane: Some(self.nav.pane) })
        &&& view.on_navigate_forward == (GoForward { pane: Some(self.nav.pane) })
        &&& match view.contents {
            PaneContents::Blank { drop_target } => {
                &&& self.active_item() is None
                &&& drop_target == DropTarget {
                    region_id: 0,
                    drop_index: 0,
                    allow_same_pane: false,
                    splits_pane: false,
                }
            },
            PaneContents::Items {
                on_tab_bar_down,
                tabs,
                buttons,
                drop_target,
                toolbar,
                active_item,
            } => {
                &&& self.active_item() == Some(active_item)
                &&& on_tab_bar_down.0 == self.active_item_index
                &&& self.shows_tabs(app, tabs)
                &&& buttons is Some <==> self.is_active
                &&& buttons matches Some(buttons) ==> self.shows_buttons(buttons@)
                &&& drop_target == DropTarget {
                    region_id: 0,
                    drop_index: (self.active_item_index + 1) as usize,
                    allow_same_pane: false,
                    splits_pane: self.docked is None,
                }
                &&& toolbar == if toolbar_hidden {
                    None
                } else {
                    Some(self.toolbar)
                }
            },
        }
    }

    /// The pane once it is drawn: what it had to scroll to is on screen.
    pub open spec fn drawn(self) -> Self {
        PaneModel {
            autoscroll: self.autoscroll && self.active_item() is None,
            ..self
        }
    }
}

/// A button of the tab bar.
fn render_tab_bar_button(
    index: usize,
    icon: ButtonIcon,
    action: Action,
    context_menu: Option<ViewId>,
) -> (button: TabBarButton)
    ensures
        button == (TabBarButton { index, icon, action, context_menu }),
{
    TabBarButton { index, icon, action, context_menu }
}

impl Tab {
    /// The tab as it is drawn in the row. The first one has no border on the left.
    pub open spec fn drawn(self, app: AppModel, hovered: bool) -> RenderedTab {
        drawn_tab(app, self.item_id, self.pane, self.ix == 0, self.detail, hovered)
    }

    /// The tab as it is drawn while it is dragged.
    pub open spec fn dragged(self, app: AppModel) -> RenderedTab {
        drawn_tab(app, self.item_id, self.pane, false, self.detail, false)
    }

    /// The tab as it is drawn in the row.
    pub fn render(&self, app: &AppContext, hovered: bool) -> (tab: RenderedTab)
        ensures
            tab == self.drawn(app@, hovered),
    {
        render_tab(app, self.item_id, self.pane, self.ix == 0, self.detail, hovered)
    }

    /// The tab as it is drawn while it is dragged.
    pub fn render_dragged(&self, app: &AppContext) -> (tab: RenderedTab)
        ensures
            tab == self.dragged(app@),
    {
        render_tab(app, self.item_id, self.pane, false, self.detail, false)
    }
}

/// A tab of an item. The first one of a row has no border on the left, and a tab under the
/// mouse has a button to close the item.
pub fn render_tab(
    app: &AppContext,
    item_id: ItemId,
    pane: PaneId,
    first: bool,
    detail: Option<usize>,
    hovered: bool,
) -> (tab: RenderedTab)
    ensures
        tab == drawn_tab(app@, item_id, pane, first, detail, hovered),
{
    let icon = if app.has_conflict(item_id) {
        Some(TabIcon::Conflict)
    } else if app.is_dirty(item_id) {
        Some(TabIcon::Dirty)
    } else {
        None
    };
    let close_button = if hovered {
        Some(CloseItem { item_id, pane })
    } else {
        None
    };
    RenderedTab { item_id, detail, hides_left_border: first, icon, close_button }
}

impl<D> Pane<D> {
    /// The row of tabs. It is scrolled to the active one once after that changed.
    pub fn render_tabs(&mut self, app: &AppContext) -> (row: TabRow)
        ensures
            old(self)@.shows_tabs(app@, row),
            final(self)@ == (PaneModel { autoscroll: false, ..old(self)@ }),
    {
        let autoscroll = if self.autoscroll {
            Some(self.active_item_index)
        } else {
            None
        };
        self.autoscroll = false;
        let pane = self.handle();
        let pane_active = self.is_active;
        let details = self.tab_details(app);
        let mut tabs: Vec<Tab> = Vec::new();
        let mut ix: usize = 0;
        while ix < self.items.len()
            invariant
                ix <= self.items.len(),
                details.len() == self.items.len(),
                pane == self@.nav.pane,
                pane_active == self@.is_active,
                self@ == (PaneModel { autoscroll: false, ..old(self)@ }),
                tabs@ == Seq::new(ix as nat, |i: int| old(self)@.tab(i, details@[i])),
            decreases self.items.len() - ix,
        {
            let item_id = self.items[ix];
            let detail = if details[ix] == 0 {
                None
            } else {
                Some(details[ix])
            };
            let tab_active = ix == self.active_item_index;
            let tab = Tab {
                ix,
                item_id,
                pane,
                detail,
                pane_active,
                tab_active,
                pointing_hand: !pane_active || !tab_active,
                drop_target: DropTarget {
                    region_id: ix,
                    drop_index: ix,
                    allow_same_pane: true,
                    splits_pane: false,
                },
                on_left_down: ActivateItem(ix),
                on_middle_click: CloseItem { item_id, pane },
            };
            assert(tab == old(self)@.tab(ix as int, details@[ix as int]));
            tabs.push(tab);
            ix += 1;
            assert(tabs@ =~= Seq::new(ix as nat, |i: int| old(self)@.tab(i, details@[i])));
        }
        // What is left of the row is drawn like an inactive tab.
        let filler = DropTarget {
            region_id: 0,
            drop_index: self.items.len(),
            allow_same_pane: true,
            splits_pane: false,
        };
        let row = TabRow { autoscroll, tabs, filler, pane_active };
        assert(are_tab_details(app@, old(self)@.items, as_ints(details@)));
        assert(row.tabs@ =~= Seq::new(
            old(self)@.items.len(),
            |i: int| old(self)@.tab(i, details@[i]),
        ));
        row
    }

    /// The buttons at the end of the tab bar.
    pub fn render_tab_bar_buttons(&self) -> (buttons: Vec<TabBarButton>)
        ensures
            self@.shows_buttons(buttons@),
    {
        let mut buttons: Vec<TabBarButton> = Vec::new();
        buttons.push(
            render_tab_bar_button(
                0,
                ButtonIcon::Asset("icons/plus_12.svg"),
                Action::DeployNewMenu(DeployNewMenu),
                self.tab_bar_context_menu.handle_if_kind(TabBarContextMenuKind::New),
            ),
        );
        match self.docked {
            // The dock has a menu to move it.
            Some(anchor) => buttons.push(
                render_tab_bar_button(
                    1,
                    ButtonIcon::Dock(anchor),
                    Action::DeployDockMenu(DeployDockMenu),
                    self.tab_bar_context_menu.handle_if_kind(TabBarContextMenuKind::Dock),
                ),
            ),
            // Any other pane has a menu to split it.
            None => buttons.push(
                render_tab_bar_button(
                    2,
                    ButtonIcon::Asset("icons/split_12.svg"),
                    Action::DeploySplitMenu(DeploySplitMenu),
                    self.tab_bar_context_menu.handle_if_kind(TabBarContextMenuKind::Split),
                ),
            ),
        }
        // The dock has a button to hide it.
        if self.docked.is_some() {
            buttons.push(
                render_tab_bar_button(
                    3,
                    ButtonIcon::Asset("icons/x_mark_8.svg"),
                    Action::HideDock,
                    None,
                ),
            );
        }
        buttons
    }

    /// What the pane shows.
    pub fn render(&mut self, app: &AppContext, toolbar_hidden: bool) -> (view: RenderedPane)
        requires
            old(self)@.wf(),
        ensures
            old(self)@.shows(app@, toolbar_hidden, view),
            final(self)@ == old(self)@.drawn(),
            final(self)@.wf(),
    {
        let this = self.handle();
        let active_item_index: usize = self.active_item_index;
        let contents = match self.active_item() {
            Some(active_item) => {
                assert(active_item_index < self.items.len());
                let tabs = self.render_tabs(app);
                let buttons = if self.is_active {
                    Some(self.render_tab_bar_buttons())
                } else {
                    None
                };
                PaneContents::Items {
                    on_tab_bar_down: ActivateItem(active_item_index),
                    tabs,
                    buttons,
                    drop_target: DropTarget {
                        region_id: 0,
                        drop_index: active_item_index + 1,
                        allow_same_pane: false,
                        splits_pane: self.docked.is_none(),
                    },
                    toolbar: if toolbar_hidden {
                        None
                    } else {
                        Some(self.toolbar)
                    },
                    active_item,
                }
            },
            None => PaneContents::Blank {
                drop_target: DropTarget {
                    region_id: 0,
                    drop_index: 0,
                    allow_same_pane: false,
                    splits_pane: false,
                },
            },
        };
        RenderedPane {
            contents,
            on_navigate_back: GoBack { pane: Some(this) },
            on_navigate_forward: GoForward { pane: Some(this) },
        }
    }
}

/// What is drawn behind an item: a background that gives the focus to the item's view on a
/// click, and the item's own element on top of it.
pub struct PaneBackdrop<E> {
    child_view: ViewId,
    child: E,
}

impl<E> PaneBackdrop<E> {
    pub closed spec fn spec_child_view(&self) -> ViewId {
        self.child_view
    }

    pub closed spec fn spec_child(&self) -> E {
        self.child
    }

    pub fn new(pane_item_view: ViewId, child: E) -> (backdrop: Self)
        ensures
            backdrop.spec_child_view() == pane_item_view,
            backdrop.spec_child() == child,
    {
        PaneBackdrop { child, child_view: pane_item_view }
    }

    /// The view that gets the focus.
    pub fn child_view(&self) -> (view: ViewId)
        ensures
            view == self.spec_child_view(),
    {
        self.child_view
    }

    pub fn child(&self) -> (child: &E)
        ensures
            *child == self.spec_child(),
    {
        &self.child
    }

    pub fn child_mut(&mut self) -> (child: &mut E)
        ensures
            *child == old(self).spec_child(),
            final(self).spec_child() == *final(child),
            final(self).spec_child_view() == old(self).spec_child_view(),
    {
        &mut self.child
    }
}

} // verus!

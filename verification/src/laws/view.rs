//! Laws of the focus and of what is drawn.

use crate::actions::{Action, DeployDockMenu, DeployNewMenu, DeploySplitMenu};
use crate::context::{AppModel, ItemId, PaneId, ProjectPath, ViewId};
use crate::effect::{Effect, TabBarContextMenuKind};
use crate::pane::render::{drawn_tab, tab_icon, ButtonIcon, PaneContents, RenderedPane, Tab, TabBarButton, TabIcon, TabRow};
use crate::pane::tabs::{are_tab_details, as_ints};
use crate::pane::{DockAnchor, PaneModel};
use vstd::prelude::*;

verus! {

/// A pane that gets the focus hands it on to the view of the active item that had it last, as
/// long as that view exists, and else to the active item.
pub proof fn law_focus_returns<D>(pane: PaneModel<D>, focused: ViewId, alive: bool)
    requires
        pane.wf(),
        pane.items.len() > 0,
        focused != pane.menu.handle,
    ensures
        ({
            let after = pane.focused_in(focused, false, alive);
            after.focus_effects(true, true) == seq![Effect::FocusView { view_id: focused }]
                && after.focus_effects(true, false) == seq![
                Effect::FocusItem { item_id: pane.items[pane.active_item_index] },
            ]
        }),
{
}

/// The menu getting the focus does not change which view had it last.
pub proof fn law_menu_focus_is_not_remembered<D>(pane: PaneModel<D>, alive: bool)
    ensures
        pane.focused_in(pane.menu.handle, false, alive) == pane,
        pane.focus_effects(false, alive).len() == 0,
{
}

/// A view that is gone is forgotten when the pane gets the focus.
pub proof fn law_lost_view_is_forgotten<D>(pane: PaneModel<D>, focused: ViewId)
    ensures
        pane.focused_in(focused, true, false).last_focused_view() is None,
{
}

/// Exactly the active item's tab is drawn as the active one, and no tab is left out.
pub proof fn law_one_tab_is_active<D>(pane: PaneModel<D>, app: AppModel, row: TabRow, i: int)
    requires
        pane.wf(),
        pane.shows_tabs(app, row),
        0 <= i < pane.items.len(),
    ensures
        row.tabs@.len() == pane.items.len(),
        row.tabs@[i].item_id == pane.items[i],
        row.tabs@[i].tab_active <==> i == pane.active_item_index,
{
}

/// The tabs are scrolled to the active one when it was activated, and not again until the next
/// time.
pub proof fn law_tabs_scroll_once<D>(pane: PaneModel<D>, app: AppModel, index: int, row: TabRow)
    requires
        pane.wf(),
        0 <= index < pane.items.len(),
    ensures
        pane.activated(index).shows_tabs(app, row) ==> row.autoscroll == Some(index as usize),
        pane.activated(index).drawn().shows_tabs(app, row) ==> row.autoscroll is None,
{
}

/// The tab bar has its buttons exactly in the active pane.
pub proof fn law_buttons_are_in_the_active_pane<D>(
    pane: PaneModel<D>,
    app: AppModel,
    toolbar_hidden: bool,
    view: RenderedPane,
)
    requires
        pane.wf(),
        pane.shows(app, toolbar_hidden, view),
    ensures
        view.contents is Items <==> pane.items.len() > 0,
        view.contents is Items ==> (view.contents->buttons is Some <==> pane.is_active),
{
}

/// A menu is shown under the one button that opens it, and under no other.
pub proof fn law_menu_is_under_its_button<D>(
    pane: PaneModel<D>,
    kind: TabBarContextMenuKind,
    other: TabBarContextMenuKind,
)
    ensures
        pane.with_menu(kind).open_menu(other) == (if other == kind {
            Some(pane.menu.handle)
        } else {
            None
        }),
{
}

/// How the focus is remembered for the active item, and handed on.
///
/// A view inside the pane that gets the focus is remembered for the active item, unless it is the
/// menu. A pane that gets the focus itself hands it on to the view that is remembered, if that still
/// exists, and forgets it otherwise and hands the focus to the item. What is remembered of other
/// items stays, and nothing else changes.
pub proof fn law_how_the_focus_moves<D>(pane: PaneModel<D>, focused: ViewId, alive: bool)
    requires
        pane.wf(),
        pane.items.len() > 0,
    ensures
        ({
            let item_id = pane.items[pane.active_item_index];
            let inside = pane.focused_in(focused, false, alive);
            let itself = pane.focused_in(focused, true, alive);
            let known = pane.last_focused.contains_key(item_id);
            &&& inside == PaneModel {
                last_focused: if focused == pane.menu.handle {
                    pane.last_focused
                } else {
                    pane.last_focused.insert(item_id, focused)
                },
                ..pane
            }
            &&& pane.focus_effects(false, alive).len() == 0
            &&& itself == PaneModel {
                last_focused: if alive {
                    pane.last_focused
                } else {
                    pane.last_focused.remove(item_id)
                },
                ..pane
            }
            &&& pane.focus_effects(true, alive) == if known && alive {
                seq![Effect::FocusView { view_id: pane.last_focused[item_id] }]
            } else {
                seq![Effect::FocusItem { item_id }]
            }
            &&& pane.last_focused_view() == if known {
                Some(pane.last_focused[item_id])
            } else {
                None
            }
        }),
{
}

/// In an empty pane the focus stays where it is, and nothing is remembered.
pub proof fn law_focus_in_an_empty_pane<D>(
    pane: PaneModel<D>,
    focused: ViewId,
    is_self_focused: bool,
    alive: bool,
)
    requires
        pane.items.len() == 0,
    ensures
        pane.focused_in(focused, is_self_focused, alive) == pane,
        pane.focus_effects(is_self_focused, alive).len() == 0,
        pane.last_focused_view() is None,
{
}

/// What each tab of the row is, and how it answers the mouse. Its detail is that of the levels at
/// which the tabs are told apart, and none at level zero.
pub proof fn law_what_the_tabs_are<D>(pane: PaneModel<D>, app: AppModel, row: TabRow)
    requires
        pane.wf(),
        pane.shows_tabs(app, row),
        pane.items.len() <= usize::MAX,
    ensures
        row.tabs@.len() == pane.items.len(),
        row.pane_active == pane.is_active,
        row.autoscroll is Some <==> pane.autoscroll,
        row.autoscroll is Some ==> row.autoscroll->0 == pane.active_item_index,
        row.filler.drop_index == pane.items.len(),
        row.filler.region_id == 0,
        row.filler.allow_same_pane,
        !row.filler.splits_pane,
        forall|i: int|
            0 <= i < pane.items.len() ==> {
                let tab = #[trigger] row.tabs@[i];
                &&& tab.ix == i
                &&& tab.item_id == pane.items[i]
                &&& tab.pane == pane.nav.pane
                &&& tab.pane_active == pane.is_active
                &&& tab.tab_active == (i == pane.active_item_index)
                &&& tab.pointing_hand == !(pane.is_active && i == pane.active_item_index)
                &&& tab.on_left_down.0 == i
                &&& tab.on_middle_click.item_id == pane.items[i]
                &&& tab.on_middle_click.pane == pane.nav.pane
                &&& tab.drop_target.drop_index == i
                &&& tab.drop_target.region_id == i
                &&& tab.drop_target.allow_same_pane
                &&& !tab.drop_target.splits_pane
            },
        exists|details: Seq<usize>|
            {
                &&& #[trigger] are_tab_details(app, pane.items, as_ints(details))
                &&& forall|i: int|
                    0 <= i < pane.items.len() ==> {
                        let detail = (#[trigger] row.tabs@[i]).detail;
                        &&& details[i] == 0 ==> detail is None
                        &&& details[i] != 0 ==> detail == Some(details[i])
                    }
            },
{
    let details = choose|details: Seq<usize>|
        {
            &&& #[trigger] are_tab_details(app, pane.items, as_ints(details))
            &&& row.tabs@ == Seq::new(pane.items.len(), |i: int| pane.tab(i, details[i]))
        };
    assert forall|i: int| 0 <= i < pane.items.len() implies {
        let detail = (#[trigger] row.tabs@[i]).detail;
        &&& details[i] == 0 ==> detail is None
        &&& details[i] != 0 ==> detail == Some(details[i])
    } by {
        assert(row.tabs@[i] == pane.tab(i, details[i]));
    }
}

/// How a tab is drawn: with the item's title in its detail, without a border on the left if it is the
/// first one, and with a button to close the item in its pane exactly while the mouse is over it.
pub proof fn law_how_a_tab_is_drawn(
    app: AppModel,
    item_id: ItemId,
    pane: PaneId,
    first: bool,
    detail: Option<usize>,
    hovered: bool,
)
    ensures
        ({
            let tab = drawn_tab(app, item_id, pane, first, detail, hovered);
            &&& tab.item_id == item_id
            &&& tab.detail == detail
            &&& tab.hides_left_border == first
            &&& tab.icon == tab_icon(app, item_id)
            &&& tab.close_button is Some <==> hovered
            &&& hovered ==> tab.close_button->0.item_id == item_id && tab.close_button->0.pane
                == pane
        }),
{
}

/// How a tab of a row is drawn, in the row and while it is dragged: the same, except that in the row
/// the first one has no border on the left, and one under the mouse has a button to close the item.
pub proof fn law_how_a_tab_of_a_row_is_drawn(app: AppModel, tab: Tab, hovered: bool)
    ensures
        ({
            let drawn = tab.drawn(app, hovered);
            let dragged = tab.dragged(app);
            &&& drawn.item_id == tab.item_id && dragged.item_id == tab.item_id
            &&& drawn.detail == tab.detail && dragged.detail == tab.detail
            &&& drawn.icon == tab_icon(app, tab.item_id) && dragged.icon == drawn.icon
            &&& drawn.hides_left_border <==> tab.ix == 0
            &&& !dragged.hides_left_border
            &&& drawn.close_button is Some <==> hovered
            &&& hovered ==> drawn.close_button->0.item_id == tab.item_id
                && drawn.close_button->0.pane == tab.pane
            &&& dragged.close_button is None
        }),
{
}

/// The mark on a tab: of a conflict if there is one, and else of edits if there are any.
pub proof fn law_what_a_tab_marks(app: AppModel, item: ItemId)
    ensures
        ({
            let known = app.items.contains_key(item);
            let facts = app.items[item];
            &&& known && facts.has_conflict ==> tab_icon(app, item) == Some(TabIcon::Conflict)
            &&& known && !facts.has_conflict && facts.is_dirty ==> tab_icon(app, item) == Some(
                TabIcon::Dirty,
            )
            &&& !known || !facts.has_conflict && !facts.is_dirty ==> tab_icon(app, item) is None
        }),
{
}

/// The buttons of the tab bar: what each one does, and that the menu is under the one that opened
/// it. There is a menu to split the pane exactly if it is not in the dock.
pub proof fn law_what_the_buttons_are<D>(pane: PaneModel<D>, buttons: Seq<TabBarButton>)
    requires
        pane.shows_buttons(buttons),
    ensures
        ({
            let open = Some(pane.menu.handle);
            &&& buttons[0].action == Action::DeployNewMenu(DeployNewMenu)
            &&& buttons[0].index == 0
            &&& buttons[0].icon matches ButtonIcon::Asset(asset) && asset@
                == "icons/plus_12.svg"@
            &&& buttons[0].context_menu == if pane.menu.kind == TabBarContextMenuKind::New {
                open
            } else {
                None
            }
            &&& pane.docked is None ==> {
                &&& buttons.len() == 2
                &&& buttons[1].action == Action::DeploySplitMenu(DeploySplitMenu)
                &&& buttons[1].index == 2
                &&& buttons[1].icon matches ButtonIcon::Asset(asset) && asset@
                    == "icons/split_12.svg"@
                &&& buttons[1].context_menu == if pane.menu.kind == TabBarContextMenuKind::Split {
                    open
                } else {
                    None
                }
            }
            &&& pane.docked matches Some(anchor) ==> {
                &&& buttons.len() == 3
                &&& buttons[1].action == Action::DeployDockMenu(DeployDockMenu)
                &&& buttons[1].index == 1
                &&& buttons[1].icon == ButtonIcon::Dock(anchor)
                &&& buttons[1].context_menu == if pane.menu.kind == TabBarContextMenuKind::Dock {
                    open
                } else {
                    None
                }
                &&& buttons[2].action == Action::HideDock
                &&& buttons[2].index == 3
                &&& buttons[2].icon matches ButtonIcon::Asset(asset) && asset@
                    == "icons/x_mark_8.svg"@
                &&& buttons[2].context_menu is None
            }
        }),
{
}

/// What a pane shows: nothing without items, and else the tabs, the active item, the toolbar unless
/// it is hidden, and the buttons if the pane is active. A dropped item goes after the active one, and
/// splits the pane near an edge unless the pane is in the dock. The mouse walks the pane's history.
pub proof fn law_what_a_pane_shows<D>(
    pane: PaneModel<D>,
    app: AppModel,
    toolbar_hidden: bool,
    view: RenderedPane,
)
    requires
        pane.wf(),
        pane.shows(app, toolbar_hidden, view),
        pane.items.len() < usize::MAX,
    ensures
        view.on_navigate_back.pane == Some(pane.nav.pane),
        view.on_navigate_forward.pane == Some(pane.nav.pane),
        match view.contents {
            PaneContents::Blank { drop_target } => {
                &&& pane.items.len() == 0
                &&& drop_target.drop_index == 0
                &&& !drop_target.allow_same_pane
                &&& !drop_target.splits_pane
            },
            PaneContents::Items {
                on_tab_bar_down,
                tabs,
                buttons,
                drop_target,
                toolbar,
                active_item,
            } => {
                &&& pane.items.len() > 0
                &&& active_item == pane.items[pane.active_item_index]
                &&& on_tab_bar_down.0 == pane.active_item_index
                &&& pane.shows_tabs(app, tabs)
                &&& buttons is Some <==> pane.is_active
                &&& buttons is Some ==> pane.shows_buttons(buttons->0@)
                &&& drop_target.drop_index == pane.active_item_index + 1
                &&& !drop_target.allow_same_pane
                &&& drop_target.splits_pane <==> pane.docked is None
                &&& toolbar_hidden ==> toolbar is None
                &&& !toolbar_hidden ==> toolbar == Some(pane.toolbar)
            },
        },
        pane.drawn() == (PaneModel {
            autoscroll: pane.autoscroll && pane.items.len() == 0,
            ..pane
        }),
{
}

/// A new pane is empty, active and undisturbed.
pub proof fn law_a_new_pane<D>(
    docked: Option<DockAnchor>,
    handle: PaneId,
    toolbar: ViewId,
    menu: ViewId,
)
    ensures
        ({
            let pane = PaneModel::<D>::fresh(docked, handle, toolbar, menu);
            &&& pane.wf()
            &&& pane.items.len() == 0
            &&& pane.activation_history.len() == 0
            &&& pane.is_active
            &&& !pane.autoscroll
            &&& pane.last_focused == Map::<ItemId, ViewId>::empty()
            &&& pane.docked == docked
            &&& pane.toolbar == toolbar
            &&& pane.menu.handle == menu
            &&& pane.menu.kind is New
            &&& pane.nav.pane == handle
            &&& pane.nav.mode is Normal
            &&& pane.nav.backward.len() == 0
            &&& pane.nav.forward.len() == 0
            &&& pane.nav.closed.len() == 0
            &&& pane.nav.paths == Map::<ItemId, ProjectPath>::empty()
        }),
{
}

} // verus!

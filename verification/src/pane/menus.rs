//! The menus that open from the tab bar, and what actions ask of a pane.

use super::{Pane, PaneModel, TabBarContextMenu};
use crate::actions::{Action, DeployDockMenu, DeployNewMenu, DeploySplitMenu};
use crate::context::ViewId;
use crate::effect::{Effect, Event, SplitDirection, TabBarContextMenuKind, ViewContext};
use vstd::prelude::*;

verus! {

impl TabBarContextMenu {
    /// The menu, if this is what it showed last.
    pub fn handle_if_kind(&self, kind: TabBarContextMenuKind) -> (handle: Option<ViewId>)
        ensures
            handle == (if self.kind == kind {
                Some(self.handle)
            } else {
                None
            }),
    {
        if self.kind == kind {
            return Some(self.handle);
        }
        None
    }
}

impl<D> PaneModel<D> {
    /// The pane once its menu shows something else.
    pub open spec fn with_menu(self, kind: TabBarContextMenuKind) -> Self {
        PaneModel { menu: TabBarContextMenu { kind, ..self.menu }, ..self }
    }

    /// Whether it is for a pane, rather than for the workspace, to act.
    pub open spec fn handles(action: Action) -> bool {
        match action {
            Action::ActivateItem(_)
            | Action::ActivatePrevItem
            | Action::ActivateNextItem
            | Action::ActivateLastItem
            | Action::SplitLeft
            | Action::SplitUp
            | Action::SplitRight
            | Action::SplitDown
            | Action::DeploySplitMenu(_)
            | Action::DeployDockMenu(_)
            | Action::DeployNewMenu(_) => true,
            _ => false,
        }
    }

    /// The pane once it has acted.
    pub open spec fn acted(self, action: Action) -> Self {
        match action {
            Action::ActivateItem(action) => self.activated(action.0 as int),
            Action::ActivatePrevItem => self.activated(self.prev_index()),
            Action::ActivateNextItem => self.activated(self.next_index()),
            Action::ActivateLastItem => self.activated(self.items.len() - 1),
            Action::DeploySplitMenu(_) => self.with_menu(TabBarContextMenuKind::Split),
            Action::DeployDockMenu(_) => self.with_menu(TabBarContextMenuKind::Dock),
            Action::DeployNewMenu(_) => self.with_menu(TabBarContextMenuKind::New),
            _ => self,
        }
    }

    pub open spec fn act_effects(self, action: Action) -> Seq<Effect> {
        match action {
            Action::ActivateItem(action) => self.activate_effects(action.0 as int, true, true),
            Action::ActivatePrevItem => self.activate_effects(self.prev_index(), true, true),
            Action::ActivateNextItem => self.activate_effects(self.next_index(), true, true),
            Action::ActivateLastItem => self.activate_effects(self.items.len() - 1, true, true),
            Action::SplitLeft => seq![Effect::Emit(Event::Split(SplitDirection::Left))],
            Action::SplitUp => seq![Effect::Emit(Event::Split(SplitDirection::Up))],
            Action::SplitRight => seq![Effect::Emit(Event::Split(SplitDirection::Right))],
            Action::SplitDown => seq![Effect::Emit(Event::Split(SplitDirection::Down))],
            Action::DeploySplitMenu(_) => seq![Effect::ShowMenu(TabBarContextMenuKind::Split)],
            Action::DeployDockMenu(_) => seq![Effect::ShowMenu(TabBarContextMenuKind::Dock)],
            Action::DeployNewMenu(_) => seq![Effect::ShowMenu(TabBarContextMenuKind::New)],
            _ => seq![],
        }
    }
}

impl<D> Pane<D> {
    /// Opens the menu to split the pane.
    pub fn deploy_split_menu(&mut self, _action: &DeploySplitMenu, cx: &mut ViewContext)
        ensures
            final(self)@ == old(self)@.with_menu(TabBarContextMenuKind::Split),
            final(cx)@ == old(cx)@.push(Effect::ShowMenu(TabBarContextMenuKind::Split)),
    {
        cx.push(Effect::ShowMenu(TabBarContextMenuKind::Split));
        self.tab_bar_context_menu.kind = TabBarContextMenuKind::Split;
    }

    /// Opens the menu to move the dock.
    pub fn deploy_dock_menu(&mut self, _action: &DeployDockMenu, cx: &mut ViewContext)
        ensures
            final(self)@ == old(self)@.with_menu(TabBarContextMenuKind::Dock),
            final(cx)@ == old(cx)@.push(Effect::ShowMenu(TabBarContextMenuKind::Dock)),
    {
        cx.push(Effect::ShowMenu(TabBarContextMenuKind::Dock));
        self.tab_bar_context_menu.kind = TabBarContextMenuKind::Dock;
    }

    /// Opens the menu to create something new.
    pub fn deploy_new_menu(&mut self, _action: &DeployNewMenu, cx: &mut ViewContext)
        ensures
            final(self)@ == old(self)@.with_menu(TabBarContextMenuKind::New),
            final(cx)@ == old(cx)@.push(Effect::ShowMenu(TabBarContextMenuKind::New)),
    {
        cx.push(Effect::ShowMenu(TabBarContextMenuKind::New));
        self.tab_bar_context_menu.kind = TabBarContextMenuKind::New;
    }

    /// Does what an action asks of the pane. Says whether it is for a pane to act.
    ///
    /// There has to be an item for the last one to be activated.
    pub fn handle_action(&mut self, action: Action, cx: &mut ViewContext) -> (handled: bool)
        requires
            old(self)@.wf(),
            action is ActivateLastItem ==> old(self)@.items.len() > 0,
        ensures
            handled == PaneModel::<D>::handles(action),
            final(self)@ == old(self)@.acted(action),
            final(cx)@ == old(cx)@ + old(self)@.act_effects(action),
            final(self)@.wf(),
    {
        match action {
            Action::ActivateItem(action) => self.activate_item(action.0, true, true, cx),
            Action::ActivatePrevItem => self.activate_prev_item(true, cx),
            Action::ActivateNextItem => self.activate_next_item(true, cx),
            Action::ActivateLastItem => {
                let index: usize = self.items.len() - 1;
                self.activate_item(index, true, true, cx)
            },
            Action::SplitLeft => self.split(SplitDirection::Left, cx),
            Action::SplitUp => self.split(SplitDirection::Up, cx),
            Action::SplitRight => self.split(SplitDirection::Right, cx),
            Action::SplitDown => self.split(SplitDirection::Down, cx),
            Action::DeploySplitMenu(action) => self.deploy_split_menu(&action, cx),
            Action::DeployDockMenu(action) => self.deploy_dock_menu(&action, cx),
            Action::DeployNewMenu(action) => self.deploy_new_menu(&action, cx),
            _ => {
                assert(cx@ =~= old(cx)@ + old(self)@.act_effects(action));
                return false;
            },
        }
        assert(cx@ =~= old(cx)@ + old(self)@.act_effects(action));
        true
    }
}

} // verus!

//! Where the focus goes when the pane gets it, and what key bindings apply.

use super::{Pane, PaneModel};
use crate::context::ViewId;
use crate::effect::{Effect, ViewContext};
use vstd::prelude::*;

verus! {

impl<D> PaneModel<D> {
    /// The view inside the active item that had the focus last.
    pub open spec fn last_focused_view(self) -> Option<ViewId> {
        match self.active_item() {
            Some(item) => if self.last_focused.contains_key(item) {
                Some(self.last_focused[item])
            } else {
                None
            },
            None => None,
        }
    }

    /// The pane once the focus has moved into it.
    pub open spec fn focused_in(
        self,
        focused: ViewId,
        is_self_focused: bool,
        is_last_focused_alive: bool,
    ) -> Self {
        match self.active_item() {
            Some(item) => PaneModel {
                last_focused: if is_self_focused {
                    if is_last_focused_alive {
                        self.last_focused
                    } else {
                        self.last_focused.remove(item)
                    }
                } else if focused != self.menu.handle {
                    self.last_focused.insert(item, focused)
                } else {
                    self.last_focused
                },
                ..self
            },
            None => self,
        }
    }

    pub open spec fn focus_effects(
        self,
        is_self_focused: bool,
        is_last_focused_alive: bool,
    ) -> Seq<Effect> {
        match self.active_item() {
            Some(item_id) => if !is_self_focused {
                seq![]
            } else {
                match self.last_focused_view() {
                    Some(view_id) => if is_last_focused_alive {
                        seq![Effect::FocusView { view_id }]
                    } else {
                        seq![Effect::FocusItem { item_id }]
                    },
                    None => seq![Effect::FocusItem { item_id }],
                }
            },
            None => seq![],
        }
    }
}

impl<D> Pane<D> {
    /// The view inside the active item that had the focus last. It may be gone.
    pub fn last_focused_view(&self) -> (view: Option<ViewId>)
        ensures
            view == self@.last_focused_view(),
    {
        match self.active_item() {
            Some(item) => match self.last_focused_view_by_item.get(&item) {
                Some(view) => Some(*view),
                None => None,
            },
            None => None,
        }
    }

    /// Follows the focus as it moves into the pane.
    ///
    /// `is_self_focused` says whether the pane itself got the focus, rather than the view
    /// `focused` inside it, and `is_last_focused_alive` whether the view of
    /// [`Pane::last_focused_view`] still exists.
    pub fn focus_in(
        &mut self,
        focused: ViewId,
        is_self_focused: bool,
        is_last_focused_alive: bool,
        cx: &mut ViewContext,
    )
        ensures
            final(self)@ == old(self)@.focused_in(
                focused,
                is_self_focused,
                is_last_focused_alive,
            ),
            final(cx)@ == old(cx)@ + old(self)@.focus_effects(
                is_self_focused,
                is_last_focused_alive,
            ),
            old(self)@.wf() ==> final(self)@.wf(),
    {
        if let Some(item_id) = self.active_item() {
            if is_self_focused {
                // The pane was focused directly. Either focus a view inside the active item, or
                // focus the active item itself.
                if let Some(view_id) = self.last_focused_view() {
                    if is_last_focused_alive {
                        cx.push(Effect::FocusView { view_id });
                        assert(cx@ =~= old(cx)@ + seq![Effect::FocusView { view_id }]);
                        return;
                    }
                    self.last_focused_view_by_item.remove(&item_id);
                }
                cx.push(Effect::FocusItem { item_id });
                assert(cx@ =~= old(cx)@ + seq![Effect::FocusItem { item_id }]);
                assert(old(self)@.last_focused.remove(item_id) =~= self@.last_focused);
            } else if focused != self.tab_bar_context_menu.handle {
                self.last_focused_view_by_item.insert(item_id, focused);
            }
        }
        assert(cx@ =~= old(cx)@ + old(self)@.focus_effects(is_self_focused, is_last_focused_alive));
    }

    /// The name by which key bindings know the view.
    pub fn ui_name() -> (name: &'static str)
        ensures
            name@ == "Pane"@,
    {
        "Pane"
    }

    /// The identifiers that key bindings can ask for, besides the default ones.
    pub fn keymap_context(&self) -> (identifiers: Vec<&'static str>)
        ensures
            identifiers@ == (if self@.docked is Some {
                seq!["docked"]
            } else {
                seq![]
            }),
    {
        let mut identifiers: Vec<&'static str> = Vec::new();
        if self.docked.is_some() {
            identifiers.push("docked");
        }
        assert(identifiers@ =~= (if self@.docked is Some {
            seq!["docked"]
        } else {
            seq![]
        }));
        identifiers
    }
}

} // verus!

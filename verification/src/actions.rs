//! The actions that panes and the workspace handle, and the menus that offer them.

use crate::context::{ItemId, PaneId};
use crate::effect::TabBarContextMenuKind;
use vstd::prelude::*;

verus! {

/// Activate the item at an index.
#[derive(Clone, Copy, PartialEq, Eq, Structural, Debug)]
pub struct ActivateItem(pub usize);

/// Close an item of a pane.
#[derive(Clone, Copy, PartialEq, Eq, Structural, Debug)]
pub struct CloseItem {
    pub item_id: ItemId,
    pub pane: PaneId,
}

/// Move an item to an index, in the same pane or another one.
#[derive(Clone, Copy, PartialEq, Eq, Structural, Debug)]
pub struct MoveItem {
    pub item_id: ItemId,
    pub from: PaneId,
    pub to: PaneId,
    pub destination_index: usize,
}

/// Walk back through the history of a pane, or of the active one.
#[derive(Clone, Copy, PartialEq, Eq, Structural, Debug)]
pub struct GoBack {
    pub pane: Option<PaneId>,
}

/// Walk forward through the history of a pane, or of the active one.
#[derive(Clone, Copy, PartialEq, Eq, Structural, Debug)]
pub struct GoForward {
    pub pane: Option<PaneId>,
}

/// Open the menu to split the pane.
#[derive(Clone, Copy, PartialEq, Eq, Structural, Debug)]
pub struct DeploySplitMenu;

/// Open the menu to move the dock.
#[derive(Clone, Copy, PartialEq, Eq, Structural, Debug)]
pub struct DeployDockMenu;

/// Open the menu to create something new.
#[derive(Clone, Copy, PartialEq, Eq, Structural, Debug)]
pub struct DeployNewMenu;

/// Every action that a pane handles or offers.
#[derive(Clone, Copy, PartialEq, Eq, Structural, Debug)]
pub enum Action {
    ActivateItem(ActivateItem),
    ActivatePrevItem,
    ActivateNextItem,
    ActivateLastItem,
    CloseActiveItem,
    CloseInactiveItems,
    CloseCleanItems,
    CloseAllItems,
    CloseItem(CloseItem),
    MoveItem(MoveItem),
    ReopenClosedItem,
    SplitLeft,
    SplitUp,
    SplitRight,
    SplitDown,
    GoBack(GoBack),
    GoForward(GoForward),
    DeploySplitMenu(DeploySplitMenu),
    DeployDockMenu(DeployDockMenu),
    DeployNewMenu(DeployNewMenu),
    NewFile,
    NewTerminal,
    NewSearch,
    AnchorDockRight,
    AnchorDockBottom,
    ExpandDock,
    HideDock,
}

/// An action without what it is about.
#[derive(Clone, Copy, PartialEq, Eq, Structural, Debug)]
pub enum ActionKind {
    ActivateItem,
    ActivatePrevItem,
    ActivateNextItem,
    ActivateLastItem,
    CloseActiveItem,
    CloseInactiveItems,
    CloseCleanItems,
    CloseAllItems,
    CloseItem,
    MoveItem,
    ReopenClosedItem,
    SplitLeft,
    SplitUp,
    SplitRight,
    SplitDown,
    GoBack,
    GoForward,
    DeploySplitMenu,
    DeployDockMenu,
    DeployNewMenu,
    NewFile,
    NewTerminal,
    NewSearch,
    AnchorDockRight,
    AnchorDockBottom,
    ExpandDock,
    HideDock,
}

/// Who handles an action.
#[derive(Clone, Copy, PartialEq, Eq, Structural, Debug)]
pub enum ActionTarget {
    /// The pane that has the focus.
    Pane,
    /// The workspace.
    Workspace,
    /// The workspace, which begins a task that goes on by itself.
    WorkspaceTask,
}

/// That a kind of action has a handler.
#[derive(Clone, Copy, PartialEq, Eq, Structural, Debug)]
pub struct ActionHandler {
    pub kind: ActionKind,
    pub target: ActionTarget,
}

pub open spec fn kind_of(action: Action) -> ActionKind {
    match action {
        Action::ActivateItem(_) => ActionKind::ActivateItem,
        Action::ActivatePrevItem => ActionKind::ActivatePrevItem,
        Action::ActivateNextItem => ActionKind::ActivateNextItem,
        Action::ActivateLastItem => ActionKind::ActivateLastItem,
        Action::CloseActiveItem => ActionKind::CloseActiveItem,
        Action::CloseInactiveItems => ActionKind::CloseInactiveItems,
        Action::CloseCleanItems => ActionKind::CloseCleanItems,
        Action::CloseAllItems => ActionKind::CloseAllItems,
        Action::CloseItem(_) => ActionKind::CloseItem,
        Action::MoveItem(_) => ActionKind::MoveItem,
        Action::ReopenClosedItem => ActionKind::ReopenClosedItem,
        Action::SplitLeft => ActionKind::SplitLeft,
        Action::SplitUp => ActionKind::SplitUp,
        Action::SplitRight => ActionKind::SplitRight,
        Action::SplitDown => ActionKind::SplitDown,
        Action::GoBack(_) => ActionKind::GoBack,
        Action::GoForward(_) => ActionKind::GoForward,
        Action::DeploySplitMenu(_) => ActionKind::DeploySplitMenu,
        Action::DeployDockMenu(_) => ActionKind::DeployDockMenu,
        Action::DeployNewMenu(_) => ActionKind::DeployNewMenu,
        Action::NewFile => ActionKind::NewFile,
        Action::NewTerminal => ActionKind::NewTerminal,
        Action::NewSearch => ActionKind::NewSearch,
        Action::AnchorDockRight => ActionKind::AnchorDockRight,
        Action::AnchorDockBottom => ActionKind::AnchorDockBottom,
        Action::ExpandDock => ActionKind::ExpandDock,
        Action::HideDock => ActionKind::HideDock,
    }
}

/// The handlers to register, in order.
pub open spec fn handlers() -> Seq<ActionHandler> {
    seq![
        ActionHandler { kind: ActionKind::ActivateItem, target: ActionTarget::Pane },
        ActionHandler { kind: ActionKind::ActivateLastItem, target: ActionTarget::Pane },
        ActionHandler { kind: ActionKind::ActivatePrevItem, target: ActionTarget::Pane },
        ActionHandler { kind: ActionKind::ActivateNextItem, target: ActionTarget::Pane },
        ActionHandler { kind: ActionKind::CloseActiveItem, target: ActionTarget::WorkspaceTask },
        ActionHandler { kind: ActionKind::CloseInactiveItems, target: ActionTarget::WorkspaceTask },
        ActionHandler { kind: ActionKind::CloseCleanItems, target: ActionTarget::WorkspaceTask },
        ActionHandler { kind: ActionKind::CloseAllItems, target: ActionTarget::WorkspaceTask },
        ActionHandler { kind: ActionKind::CloseItem, target: ActionTarget::WorkspaceTask },
        ActionHandler { kind: ActionKind::MoveItem, target: ActionTarget::Workspace },
        ActionHandler { kind: ActionKind::SplitLeft, target: ActionTarget::Pane },
        ActionHandler { kind: ActionKind::SplitUp, target: ActionTarget::Pane },
        ActionHandler { kind: ActionKind::SplitRight, target: ActionTarget::Pane },
        ActionHandler { kind: ActionKind::SplitDown, target: ActionTarget::Pane },
        ActionHandler { kind: ActionKind::DeploySplitMenu, target: ActionTarget::Pane },
        ActionHandler { kind: ActionKind::DeployDockMenu, target: ActionTarget::Pane },
        ActionHandler { kind: ActionKind::DeployNewMenu, target: ActionTarget::Pane },
        ActionHandler { kind: ActionKind::ReopenClosedItem, target: ActionTarget::Workspace },
        ActionHandler { kind: ActionKind::GoBack, target: ActionTarget::Workspace },
        ActionHandler { kind: ActionKind::GoForward, target: ActionTarget::Workspace },
    ]
}

fn handler(kind: ActionKind, target: ActionTarget) -> (handler: ActionHandler)
    ensures
        handler == (ActionHandler { kind, target }),
{
    ActionHandler { kind, target }
}

/// The handlers that the application registers when it starts, in order. A pane's handler is
/// `Pane::handle_action`, the workspace's `Workspace::handle_action`.
pub fn init() -> (registered: Vec<ActionHandler>)
    ensures
        registered@ == handlers(),
{
    let registered: Vec<ActionHandler> = vec![
        handler(ActionKind::ActivateItem, ActionTarget::Pane),
        handler(ActionKind::ActivateLastItem, ActionTarget::Pane),
        handler(ActionKind::ActivatePrevItem, ActionTarget::Pane),
        handler(ActionKind::ActivateNextItem, ActionTarget::Pane),
        handler(ActionKind::CloseActiveItem, ActionTarget::WorkspaceTask),
        handler(ActionKind::CloseInactiveItems, ActionTarget::WorkspaceTask),
        handler(ActionKind::CloseCleanItems, ActionTarget::WorkspaceTask),
        handler(ActionKind::CloseAllItems, ActionTarget::WorkspaceTask),
        handler(ActionKind::CloseItem, ActionTarget::WorkspaceTask),
        handler(ActionKind::MoveItem, ActionTarget::Workspace),
        handler(ActionKind::SplitLeft, ActionTarget::Pane),
        handler(ActionKind::SplitUp, ActionTarget::Pane),
        handler(ActionKind::SplitRight, ActionTarget::Pane),
        handler(ActionKind::SplitDown, ActionTarget::Pane),
        handler(ActionKind::DeploySplitMenu, ActionTarget::Pane),
        handler(ActionKind::DeployDockMenu, ActionTarget::Pane),
        handler(ActionKind::DeployNewMenu, ActionTarget::Pane),
        handler(ActionKind::ReopenClosedItem, ActionTarget::Workspace),
        handler(ActionKind::GoBack, ActionTarget::Workspace),
        handler(ActionKind::GoForward, ActionTarget::Workspace),
    ];
    assert(registered@ =~= handlers());
    registered
}

/// One line of a menu.
#[derive(Clone, Copy, Debug)]
pub struct ContextMenuItem {
    pub label: &'static str,
    pub action: Action,
}

/// What a menu offers, from top to bottom: for each line its label and its action.
pub open spec fn menu_lines(kind: TabBarContextMenuKind) -> Seq<(Seq<char>, Action)> {
    match kind {
        TabBarContextMenuKind::Split => seq![
            ("Split Right"@, Action::SplitRight),
            ("Split Left"@, Action::SplitLeft),
            ("Split Up"@, Action::SplitUp),
            ("Split Down"@, Action::SplitDown),
        ],
        TabBarContextMenuKind::Dock => seq![
            ("Anchor Dock Right"@, Action::AnchorDockRight),
            ("Anchor Dock Bottom"@, Action::AnchorDockBottom),
            ("Expand Dock"@, Action::ExpandDock),
        ],
        TabBarContextMenuKind::New => seq![
            ("New File"@, Action::NewFile),
            ("New Terminal"@, Action::NewTerminal),
            ("New Search"@, Action::NewSearch),
        ],
    }
}

/// The lines of a menu as plain values.
pub open spec fn lines_of(items: Seq<ContextMenuItem>) -> Seq<(Seq<char>, Action)> {
    Seq::new(items.len(), |i: int| (items[i].label@, items[i].action))
}

impl TabBarContextMenuKind {
    /// What the menu offers, from top to bottom.
    pub fn items(&self) -> (items: Vec<ContextMenuItem>)
        ensures
            lines_of(items@) == menu_lines(*self),
    {
        let items: Vec<ContextMenuItem> = match self {
            TabBarContextMenuKind::Split => vec![
                ContextMenuItem { label: "Split Right", action: Action::SplitRight },
                ContextMenuItem { label: "Split Left", action: Action::SplitLeft },
                ContextMenuItem { label: "Split Up", action: Action::SplitUp },
                ContextMenuItem { label: "Split Down", action: Action::SplitDown },
            ],
            TabBarContextMenuKind::Dock => vec![
                ContextMenuItem { label: "Anchor Dock Right", action: Action::AnchorDockRight },
                ContextMenuItem { label: "Anchor Dock Bottom", action: Action::AnchorDockBottom },
                ContextMenuItem { label: "Expand Dock", action: Action::ExpandDock },
            ],
            TabBarContextMenuKind::New => vec![
                ContextMenuItem { label: "New File", action: Action::NewFile },
                ContextMenuItem { label: "New Terminal", action: Action::NewTerminal },
                ContextMenuItem { label: "New Search", action: Action::NewSearch },
            ],
        };
        assert(lines_of(items@) =~= menu_lines(*self));
        items
    }
}

} // verus!

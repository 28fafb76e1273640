//! The model of a workspace pane: an ordered row of tabs, one of them active, with the
//! history of activations, the back, forward and closed-item stacks, and the decisions that
//! closing, saving, navigating and drawing the pane take.
//!
//! The library never touches a window. It reads the application through [`AppContext`],
//! and it records what the application has to do, in order, in a [`ViewContext`].

pub mod actions;
pub mod context;
pub mod effect;
pub mod ids;
pub mod laws;
pub mod nav_history;
pub mod pane;
pub mod state;
pub mod workspace;

pub use actions::{
    init, Action, ActionHandler, ActionKind, ActionTarget, ActivateItem, CloseItem, ContextMenuItem, DeployDockMenu, DeployNewMenu,
    DeploySplitMenu, GoBack, GoForward, MoveItem,
};
pub use context::{AppContext, AppModel, Autosave, ItemFacts, ItemId, PaneId, ProjectEntryId, ProjectPath, ViewId};
pub use effect::{Effect, Event, SplitDirection, TabBarContextMenuKind, ViewContext};
pub use nav_history::{ItemNavHistory, NavHistory, NavModel, NavigationEntry, NavigationMode, MAX_NAVIGATION_HISTORY_LEN};
pub use pane::{
    render_tab, start_directory, ButtonIcon, CloseItems, CloseModel, CloseStep, DockAnchor, DropTarget, ItemType, Navigation, Pane, PaneBackdrop,
    PaneContents, PaneModel, PendingPaneState, Prompt, PromptLevel, RenderedPane, RenderedTab, ReorderBehavior, SaveItem, SaveResult, Tab,
    TabBarButton, TabBarContextMenu, TabIcon, TabRow, CONFLICT_MESSAGE, DIRTY_MESSAGE,
};
pub use state::{ItemState, ItemStateModel, ItemStates, PaneState, PaneStateModel};
pub use workspace::{ActionOutcome, PaneEffect, Workspace, WorkspaceContext, WorkspaceModel};

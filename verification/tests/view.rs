//! The focus, the menus, and what a pane shows.

use workspace_pane::{
    render_tab, Action, ActivateItem, AppContext, Autosave, ButtonIcon, CloseItem, DeployDockMenu, DeployNewMenu, DeploySplitMenu,
    DockAnchor, DropTarget, Effect, GoBack, GoForward, ItemFacts, Pane, PaneBackdrop, PaneContents, RenderedTab, TabBarContextMenuKind,
    TabIcon, ViewContext,
};

const HANDLE: usize = 1;
const TOOLBAR: usize = 2;
const MENU: usize = 3;

fn facts(descriptions: Vec<Option<&str>>) -> ItemFacts {
    ItemFacts {
        view_type: 0,
        is_singleton: false,
        project_entry_ids: vec![],
        project_item_model_ids: vec![],
        is_dirty: false,
        has_conflict: false,
        can_save: false,
        project_path: None,
        tab_descriptions: descriptions
            .into_iter()
            .map(|description| description.map(|text| text.to_string()))
            .collect(),
    }
}

fn pane_with(docked: Option<DockAnchor>, app: &mut AppContext, items: Vec<ItemFacts>) -> Pane<u32> {
    let mut pane = Pane::new(docked, HANDLE, TOOLBAR, MENU);
    let mut cx = ViewContext::new();
    for (i, facts) in items.into_iter().enumerate() {
        app.set_item(10 + i, facts);
        pane.add_item(app, 10 + i, false, false, None, &mut cx);
    }
    pane
}

fn details(items: Vec<Vec<Option<&str>>>) -> Vec<usize> {
    let mut app = AppContext::new(Autosave::Off);
    let pane = pane_with(None, &mut app, items.into_iter().map(facts).collect());
    pane.tab_details(&app)
}

#[test]
fn tabs_give_as_much_detail_as_they_need() {
    assert!(details(vec![]).is_empty());
    // Different names need no detail.
    assert_eq!(details(vec![vec![Some("a")], vec![Some("b")]]), vec![0, 0]);
    // Same names, told apart by their directories.
    assert_eq!(
        details(vec![
            vec![Some("lib.rs"), Some("x/lib.rs")],
            vec![Some("main.rs"), Some("x/main.rs")],
            vec![Some("lib.rs"), Some("y/lib.rs")],
        ]),
        vec![1, 0, 1]
    );
    // Only those that still look alike are raised again.
    assert_eq!(
        details(vec![
            vec![Some("f"), Some("a/f"), Some("x/a/f")],
            vec![Some("f"), Some("a/f"), Some("y/a/f")],
            vec![Some("f"), Some("b/f"), Some("x/b/f")],
        ]),
        vec![2, 2, 1]
    );
    // Tabs that have no more to say are left alone.
    assert_eq!(details(vec![vec![Some("f")], vec![Some("f")]]), vec![1, 1]);
    assert_eq!(details(vec![vec![Some("f"), Some("f")], vec![Some("f"), Some("g")]]), vec![1, 1]);
    // Tabs without a description are not compared.
    assert_eq!(details(vec![vec![None], vec![None], vec![]]), vec![0, 0, 0]);
    // A longer name that looks like another's short one raises that one too.
    assert_eq!(
        details(vec![vec![Some("x")], vec![Some("a"), Some("x")], vec![Some("a"), Some("y")]]),
        vec![1, 2, 1]
    );
}

#[test]
fn tabs_are_drawn() {
    let mut app = AppContext::new(Autosave::Off);
    let mut pane = pane_with(
        None,
        &mut app,
        vec![facts(vec![Some("f"), Some("a/f")]), facts(vec![Some("f"), Some("b/f")]), facts(vec![Some("g")])],
    );
    let row = pane.render_tabs(&app);
    assert_eq!(row.autoscroll, Some(2));
    assert!(row.pane_active);
    assert_eq!(
        row.filler,
        DropTarget { region_id: 0, drop_index: 3, allow_same_pane: true, splits_pane: false }
    );
    assert_eq!(row.tabs.len(), 3);
    let tab = row.tabs[1];
    assert_eq!((tab.ix, tab.item_id, tab.pane, tab.detail), (1, 11, HANDLE, Some(1)));
    assert!(!tab.tab_active && tab.pane_active && tab.pointing_hand);
    assert_eq!(tab.on_left_down, ActivateItem(1));
    assert_eq!(tab.on_middle_click, CloseItem { item_id: 11, pane: HANDLE });
    assert_eq!(
        tab.drop_target,
        DropTarget { region_id: 1, drop_index: 1, allow_same_pane: true, splits_pane: false }
    );
    assert!(row.tabs[2].tab_active && !row.tabs[2].pointing_hand);
    assert_eq!(row.tabs[2].detail, None);

    // The tabs are scrolled once.
    assert_eq!(pane.render_tabs(&app).autoscroll, None);
    let mut cx = ViewContext::new();
    pane.activate_item(0, false, false, &mut cx);
    assert_eq!(pane.render_tabs(&app).autoscroll, Some(0));
    pane.set_active(false, &mut cx);
    assert!(pane.render_tabs(&app).tabs.iter().all(|tab| tab.pointing_hand && !tab.pane_active));
}

#[test]
fn a_tab_shows_what_there_is_to_save() {
    let mut app = AppContext::new(Autosave::Off);
    let mut pane = pane_with(
        None,
        &mut app,
        vec![
            facts(vec![]),
            ItemFacts { is_dirty: true, ..facts(vec![]) },
            ItemFacts { is_dirty: true, has_conflict: true, ..facts(vec![]) },
        ],
    );
    let row = pane.render_tabs(&app);
    let icons: Vec<_> = row.tabs.iter().map(|tab| tab.render(&app, false).icon).collect();
    assert_eq!(icons, vec![None, Some(TabIcon::Dirty), Some(TabIcon::Conflict)]);
    assert!(row.tabs[0].render(&app, false).hides_left_border);
    assert!(!row.tabs[1].render(&app, false).hides_left_border);
    assert!(!row.tabs[0].render_dragged(&app).hides_left_border);
    assert_eq!(row.tabs[0].render(&app, false).close_button, None);
    assert_eq!(
        row.tabs[1].render(&app, true).close_button,
        Some(CloseItem { item_id: 11, pane: HANDLE })
    );
    assert_eq!(
        render_tab(&app, 11, 8, true, Some(2), true),
        RenderedTab {
            item_id: 11,
            detail: Some(2),
            hides_left_border: true,
            icon: Some(TabIcon::Dirty),
            close_button: Some(CloseItem { item_id: 11, pane: 8 }),
        }
    );
}

#[test]
fn the_tab_bar_has_buttons() {
    let mut app = AppContext::new(Autosave::Off);
    let mut cx = ViewContext::new();
    let mut pane = pane_with(None, &mut app, vec![facts(vec![])]);
    let buttons = pane.render_tab_bar_buttons();
    assert_eq!(buttons.len(), 2);
    assert_eq!((buttons[0].index, buttons[0].action), (0, Action::DeployNewMenu(DeployNewMenu)));
    assert!(matches!(buttons[0].icon, ButtonIcon::Asset("icons/plus_12.svg")));
    assert_eq!(buttons[0].context_menu, Some(MENU));
    assert_eq!((buttons[1].index, buttons[1].action), (2, Action::DeploySplitMenu(DeploySplitMenu)));
    assert!(matches!(buttons[1].icon, ButtonIcon::Asset("icons/split_12.svg")));
    assert_eq!(buttons[1].context_menu, None);

    pane.deploy_split_menu(&DeploySplitMenu, &mut cx);
    let buttons = pane.render_tab_bar_buttons();
    assert_eq!(buttons[0].context_menu, None);
    assert_eq!(buttons[1].context_menu, Some(MENU));

    pane.set_docked(Some(DockAnchor::Right), &mut cx);
    let buttons = pane.render_tab_bar_buttons();
    assert_eq!(buttons.len(), 3);
    assert_eq!((buttons[1].index, buttons[1].action), (1, Action::DeployDockMenu(DeployDockMenu)));
    assert!(matches!(buttons[1].icon, ButtonIcon::Dock(DockAnchor::Right)));
    assert_eq!(buttons[1].context_menu, None);
    assert_eq!((buttons[2].index, buttons[2].action), (3, Action::HideDock));
    assert!(matches!(buttons[2].icon, ButtonIcon::Asset("icons/x_mark_8.svg")));
    assert_eq!(buttons[2].context_menu, None);
}

#[test]
fn menus_offer_their_actions() {
    let lines = |kind: TabBarContextMenuKind| -> Vec<(&'static str, Action)> {
        kind.items().iter().map(|item| (item.label, item.action)).collect()
    };
    assert_eq!(
        lines(TabBarContextMenuKind::Split),
        vec![
            ("Split Right", Action::SplitRight),
            ("Split Left", Action::SplitLeft),
            ("Split Up", Action::SplitUp),
            ("Split Down", Action::SplitDown),
        ]
    );
    assert_eq!(
        lines(TabBarContextMenuKind::Dock),
        vec![
            ("Anchor Dock Right", Action::AnchorDockRight),
            ("Anchor Dock Bottom", Action::AnchorDockBottom),
            ("Expand Dock", Action::ExpandDock),
        ]
    );
    assert_eq!(
        lines(TabBarContextMenuKind::New),
        vec![
            ("New File", Action::NewFile),
            ("New Terminal", Action::NewTerminal),
            ("New Search", Action::NewSearch),
        ]
    );

    let mut pane: Pane<u32> = Pane::new(None, HANDLE, TOOLBAR, MENU);
    let cases = [
        (Action::DeploySplitMenu(DeploySplitMenu), TabBarContextMenuKind::Split),
        (Action::DeployDockMenu(DeployDockMenu), TabBarContextMenuKind::Dock),
        (Action::DeployNewMenu(DeployNewMenu), TabBarContextMenuKind::New),
    ];
    for (action, kind) in cases {
        let mut cx = ViewContext::new();
        assert!(pane.handle_action(action, &mut cx));
        assert_eq!(*cx.effects(), vec![Effect::ShowMenu(kind)]);
    }
}

#[test]
fn an_empty_pane_takes_drops() {
    let app = AppContext::new(Autosave::Off);
    let mut pane: Pane<u32> = Pane::new(None, HANDLE, TOOLBAR, MENU);
    let view = pane.render(&app, false);
    assert_eq!(view.on_navigate_back, GoBack { pane: Some(HANDLE) });
    assert_eq!(view.on_navigate_forward, GoForward { pane: Some(HANDLE) });
    match view.contents {
        PaneContents::Blank { drop_target } => assert_eq!(
            drop_target,
            DropTarget { region_id: 0, drop_index: 0, allow_same_pane: false, splits_pane: false }
        ),
        PaneContents::Items { .. } => panic!("there are no items"),
    }
}

#[test]
fn a_pane_shows_its_active_item() {
    let mut app = AppContext::new(Autosave::Off);
    let mut cx = ViewContext::new();
    let mut pane = pane_with(None, &mut app, vec![facts(vec![]), facts(vec![])]);
    pane.activate_item(0, false, false, &mut cx);
    match pane.render(&app, false).contents {
        PaneContents::Items { on_tab_bar_down, tabs, buttons, drop_target, toolbar, active_item } => {
            assert_eq!(on_tab_bar_down, ActivateItem(0));
            assert_eq!(tabs.autoscroll, Some(0));
            assert_eq!(buttons.unwrap().len(), 2);
            assert_eq!(
                drop_target,
                DropTarget { region_id: 0, drop_index: 1, allow_same_pane: false, splits_pane: true }
            );
            assert_eq!(toolbar, Some(TOOLBAR));
            assert_eq!(active_item, 10);
        }
        PaneContents::Blank { .. } => panic!("there are items"),
    }
    pane.set_active(false, &mut cx);
    pane.set_docked(Some(DockAnchor::Bottom), &mut cx);
    assert_eq!(*cx.effects().last().unwrap(), Effect::Notify);
    match pane.render(&app, true).contents {
        PaneContents::Items { tabs, buttons, drop_target, toolbar, .. } => {
            assert_eq!(tabs.autoscroll, None);
            assert!(buttons.is_none());
            assert!(!drop_target.splits_pane);
            assert_eq!(toolbar, None);
        }
        PaneContents::Blank { .. } => panic!("there are items"),
    }
}

#[test]
fn focus_returns_to_the_view_that_had_it() {
    let mut app = AppContext::new(Autosave::Off);
    let mut pane = pane_with(None, &mut app, vec![facts(vec![]), facts(vec![])]);
    let mut cx = ViewContext::new();

    // The pane itself is focused, and nothing inside it was before.
    pane.focus_in(HANDLE, true, false, &mut cx);
    assert_eq!(cx.take_effects(), vec![Effect::FocusItem { item_id: 11 }]);

    pane.focus_in(50, false, false, &mut cx);
    assert_eq!(pane.last_focused_view(), Some(50));
    // The menu does not count.
    pane.focus_in(MENU, false, true, &mut cx);
    assert_eq!(pane.last_focused_view(), Some(50));
    assert!(cx.take_effects().is_empty());

    pane.focus_in(HANDLE, true, true, &mut cx);
    assert_eq!(cx.take_effects(), vec![Effect::FocusView { view_id: 50 }]);

    // Each item has its own.
    pane.activate_item(0, false, false, &mut cx);
    assert_eq!(pane.last_focused_view(), None);
    pane.activate_item(1, false, false, &mut cx);
    cx.take_effects();

    // The view is gone.
    pane.focus_in(HANDLE, true, false, &mut cx);
    assert_eq!(cx.take_effects(), vec![Effect::FocusItem { item_id: 11 }]);
    assert_eq!(pane.last_focused_view(), None);

    pane.focus_active_item(&mut cx);
    assert_eq!(cx.take_effects(), vec![Effect::FocusItem { item_id: 11 }]);

    let mut empty: Pane<u32> = Pane::new(None, HANDLE, TOOLBAR, MENU);
    empty.focus_in(HANDLE, true, true, &mut cx);
    empty.focus_active_item(&mut cx);
    assert!(cx.effects().is_empty());
}

#[test]
fn key_bindings_know_the_dock() {
    let mut pane: Pane<u32> = Pane::new(None, HANDLE, TOOLBAR, MENU);
    let mut cx = ViewContext::new();
    assert_eq!(Pane::<u32>::ui_name(), "Pane");
    assert!(pane.keymap_context().is_empty());
    pane.set_docked(Some(DockAnchor::Expanded), &mut cx);
    assert_eq!(pane.keymap_context(), vec!["docked"]);
    assert_eq!(pane.docked(), Some(DockAnchor::Expanded));
    assert_eq!(pane.toolbar(), TOOLBAR);
    assert!(pane.is_active());
}

#[test]
fn a_backdrop_focuses_its_view() {
    let mut backdrop = PaneBackdrop::new(7, "element".to_string());
    assert_eq!(backdrop.child_view(), 7);
    assert_eq!(*backdrop.child(), "element");
    backdrop.child_mut().push('!');
    assert_eq!(*backdrop.child(), "element!");
}

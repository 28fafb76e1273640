//! Recording places, walking the history, and opening closed items again.

use workspace_pane::{
    AppContext, Autosave, Effect, ItemFacts, ItemNavHistory, NavHistory, Navigation, NavigationMode, Pane, ProjectEntryId, ProjectPath,
    ViewContext, MAX_NAVIGATION_HISTORY_LEN,
};
use workspace_pane::NavigationMode::{ClosingItem, Disabled, GoingBack, GoingForward, Normal, ReopeningClosedItem};

fn facts(path: Option<&str>, entry: usize) -> ItemFacts {
    ItemFacts {
        view_type: 0,
        is_singleton: true,
        project_entry_ids: vec![ProjectEntryId(entry)],
        project_item_model_ids: vec![],
        is_dirty: false,
        has_conflict: false,
        can_save: true,
        project_path: path.map(|path| ProjectPath { worktree_id: 9, path: path.to_string() }),
        tab_descriptions: vec![],
    }
}

/// A pane with the items 10, 11 and 12, of which 12 is active.
fn pane_of_three() -> (Pane<&'static str>, AppContext) {
    let mut pane = Pane::new(None, 1, 2, 3);
    let mut app = AppContext::new(Autosave::Off);
    let mut cx = ViewContext::new();
    for item in 10..13 {
        app.set_item(item, facts(Some("file.rs"), item));
        pane.add_item(&app, item, true, true, None, &mut cx);
    }
    (pane, app)
}

/// Hands in one place for each item that is told that it was deactivated.
fn answer_deactivations(pane: &mut Pane<&'static str>, cx: &mut ViewContext, place: Option<&'static str>) {
    for effect in cx.take_effects() {
        if let Effect::Deactivated { item_id, mode } = effect {
            pane.item_deactivated(item_id, mode, vec![place], cx);
        }
    }
}

fn source(history: &mut NavHistory<u32>, mode: NavigationMode) -> Vec<(usize, Option<u32>)> {
    let mut cx = ViewContext::new();
    let mut entries = vec![];
    while let Some(entry) = history.pop(mode, &mut cx) {
        entries.push((entry.item, entry.data));
    }
    entries
}

#[test]
fn places_are_recorded_where_the_mode_says() {
    let cases = [
        (Normal, GoingBack),
        (ReopeningClosedItem, GoingBack),
        (GoingForward, GoingBack),
        (GoingBack, GoingForward),
        (ClosingItem, ReopeningClosedItem),
    ];
    for (mode, reader) in cases {
        let mut cx = ViewContext::new();
        let mut history: NavHistory<u32> = NavHistory::new(1);
        history.set_mode(mode);
        history.push(Some(5), 10, &mut cx);
        history.push(None, 11, &mut cx);
        assert_eq!(*cx.effects(), vec![Effect::DeferHistoryUpdated; 2]);
        for other in [GoingBack, GoingForward, ReopeningClosedItem] {
            if other != reader {
                assert!(source(&mut history, other).is_empty());
            }
        }
        assert_eq!(source(&mut history, reader), vec![(11, None), (10, Some(5))]);
    }

    let mut cx = ViewContext::new();
    let mut history: NavHistory<u32> = NavHistory::new(1);
    history.disable();
    assert_eq!(history.mode(), Disabled);
    history.push(Some(5), 10, &mut cx);
    assert_eq!(*cx.effects(), vec![Effect::DeferHistoryUpdated]);
    assert!(!history.can_go_back() && !history.can_go_forward());
    history.enable();
    assert_eq!(history.mode(), Normal);
    for mode in [Normal, Disabled, ClosingItem] {
        assert!(history.pop(mode, &mut cx).is_none());
    }
    assert_eq!(NavigationMode::default(), Normal);
}

#[test]
fn a_new_place_leaves_nothing_to_go_forward_to() {
    let mut cx = ViewContext::new();
    let mut history: NavHistory<u32> = NavHistory::new(1);
    history.set_mode(NavigationMode::GoingBack);
    history.push(None, 10, &mut cx);
    assert!(history.can_go_forward());
    history.set_mode(NavigationMode::ClosingItem);
    history.push(None, 10, &mut cx);
    assert!(history.can_go_forward());
    history.set_mode(NavigationMode::Normal);
    history.push(None, 11, &mut cx);
    assert!(!history.can_go_forward());
    assert!(history.can_go_back());
}

#[test]
fn full_stacks_lose_their_oldest_entry() {
    assert_eq!(MAX_NAVIGATION_HISTORY_LEN, 1024);
    let mut cx = ViewContext::new();
    let mut history: NavHistory<u32> = NavHistory::new(1);
    for place in 0..1025u32 {
        history.push(Some(place), 10, &mut cx);
    }
    let entries = source(&mut history, NavigationMode::GoingBack);
    assert_eq!(entries.len(), 1024);
    assert_eq!(entries[0], (10, Some(1024)));
    assert_eq!(entries[1023], (10, Some(1)));
}

#[test]
fn an_item_has_access_to_the_history_of_its_pane() {
    let mut pane: Pane<u32> = Pane::new(None, 4, 2, 3);
    let mut cx = ViewContext::new();
    let access = pane.nav_history_for_item(10);
    assert_eq!(access, ItemNavHistory { history: 4, item: 10 });
    access.push(pane.nav_history_mut(), Some(1), &mut cx);
    access.push(pane.nav_history_mut(), Some(2), &mut cx);
    assert!(pane.can_navigate_backward());
    assert!(!pane.can_navigate_forward());
    assert!(access.pop_forward(pane.nav_history_mut(), &mut cx).is_none());
    let entry = access.pop_backward(pane.nav_history_mut(), &mut cx).unwrap();
    assert_eq!((entry.item, entry.data), (10, Some(2)));
    cx.take_effects();
    pane.history_updated(&mut cx);
    assert_eq!(*cx.effects(), vec![Effect::NotifyToolbar]);
}

#[test]
fn going_back_and_forward_returns_to_the_item() {
    let (mut pane, _app) = pane_of_three();
    let mut cx = ViewContext::new();
    pane.activate_item(0, true, true, &mut cx);
    answer_deactivations(&mut pane, &mut cx, None);
    assert_eq!(pane.active_item(), Some(10));
    assert!(pane.can_navigate_backward());

    cx.take_effects();
    let step = pane.navigate_history(NavigationMode::GoingBack, &mut cx);
    assert!(matches!(step, Navigation::Finished));
    assert_eq!(pane.active_item(), Some(12));
    assert_eq!(cx.effects()[0], Effect::FocusPane);
    assert_eq!(cx.effects()[1], Effect::DeferHistoryUpdated);
    assert_eq!(cx.effects()[2], Effect::Deactivated { item_id: 10, mode: NavigationMode::GoingBack });
    answer_deactivations(&mut pane, &mut cx, Some("line 3"));
    assert!(!pane.can_navigate_backward());
    assert!(pane.can_navigate_forward());

    let step = pane.navigate_history(NavigationMode::GoingForward, &mut cx);
    assert!(matches!(
        step,
        Navigation::Navigate { item_id: 10, data: "line 3", navigated: true, reopened: false }
    ));
    assert_eq!(pane.active_item(), Some(10));
    let step = pane.item_navigated(NavigationMode::GoingForward, true, false, false, &mut cx);
    assert!(matches!(step, Navigation::Finished));
}

#[test]
fn places_in_the_active_item_are_tried_until_one_is_elsewhere() {
    let (mut pane, _app) = pane_of_three();
    let mut cx = ViewContext::new();
    let active = pane.nav_history_for_item(12);
    active.push(pane.nav_history_mut(), Some("line 1"), &mut cx);
    active.push(pane.nav_history_mut(), None, &mut cx);
    active.push(pane.nav_history_mut(), Some("line 2"), &mut cx);

    let step = pane.navigate_history(NavigationMode::GoingBack, &mut cx);
    assert!(matches!(
        step,
        Navigation::Navigate { item_id: 12, data: "line 2", navigated: false, reopened: false }
    ));
    // The item is there already: the entry without a place is passed over, and the next tried.
    let step = pane.item_navigated(NavigationMode::GoingBack, false, false, false, &mut cx);
    assert!(matches!(
        step,
        Navigation::Navigate { item_id: 12, data: "line 1", navigated: false, reopened: false }
    ));
    let step = pane.item_navigated(NavigationMode::GoingBack, false, false, true, &mut cx);
    assert!(matches!(step, Navigation::Finished));
    assert!(!pane.can_navigate_backward());
}

#[test]
fn a_closed_item_is_loaded_from_its_path() {
    let (mut pane, mut app) = pane_of_three();
    let mut cx = ViewContext::new();
    pane.remove_item(&app, 2, false, &mut cx);
    answer_deactivations(&mut pane, &mut cx, Some("line 8"));
    assert_eq!(pane.active_item(), Some(11));

    let step = pane.navigate_history(NavigationMode::ReopeningClosedItem, &mut cx);
    let data = match step {
        Navigation::Load { project_path, entry } => {
            assert_eq!(project_path, ProjectPath { worktree_id: 9, path: "file.rs".to_string() });
            assert_eq!(entry.item, 12);
            entry.data
        }
        _ => panic!("a file has to be loaded"),
    };
    let step = pane.item_loaded(
        &mut app,
        NavigationMode::ReopeningClosedItem,
        data,
        ProjectEntryId(12),
        || (20, facts(Some("file.rs"), 12)),
        &mut cx,
    );
    assert!(matches!(
        step,
        Navigation::Navigate { item_id: 20, data: "line 8", navigated: true, reopened: true }
    ));
    assert_eq!(*pane.items(), vec![10, 11, 20]);
    assert_eq!(pane.active_item(), Some(20));
}

#[test]
fn reopening_leaves_the_items_that_were_closed_before() {
    let (mut pane, app) = pane_of_three();
    let mut cx = ViewContext::new();
    for index in [1, 1] {
        pane.remove_item(&app, index, false, &mut cx);
        answer_deactivations(&mut pane, &mut cx, None);
    }
    assert_eq!(*pane.items(), vec![10]);
    let step = pane.navigate_history(NavigationMode::ReopeningClosedItem, &mut cx);
    match step {
        Navigation::Load { entry, .. } => assert_eq!(entry.item, 12),
        _ => panic!("a file has to be loaded"),
    }
    let entry = pane.nav_history_mut().pop(ReopeningClosedItem, &mut cx).unwrap();
    assert_eq!(entry.item, 11);
    assert!(pane.nav_history_mut().pop(ReopeningClosedItem, &mut cx).is_none());
}

#[test]
fn a_file_that_is_open_again_is_activated() {
    let (mut pane, mut app) = pane_of_three();
    let mut cx = ViewContext::new();
    let step = pane.item_loaded(
        &mut app,
        NavigationMode::GoingBack,
        None,
        ProjectEntryId(10),
        || panic!("it is open"),
        &mut cx,
    );
    assert!(matches!(step, Navigation::Finished));
    assert_eq!(*pane.items(), vec![10, 11, 12]);
    assert_eq!(pane.active_item(), Some(10));
}

#[test]
fn a_walk_goes_on_after_a_file_could_not_be_loaded() {
    let (mut pane, app) = pane_of_three();
    let mut cx = ViewContext::new();
    pane.nav_history_for_item(10).push(pane.nav_history_mut(), None, &mut cx);
    pane.nav_history_for_item(11).push(pane.nav_history_mut(), None, &mut cx);
    pane.remove_item(&app, 1, false, &mut cx);
    let step = pane.navigate_history(NavigationMode::GoingBack, &mut cx);
    assert!(matches!(step, Navigation::Load { .. }));
    let step = pane.load_failed(NavigationMode::GoingBack, &mut cx);
    assert!(matches!(step, Navigation::Finished));
    assert_eq!(pane.active_item(), Some(10));
}

#[test]
fn an_item_that_is_gone_without_a_path_ends_the_walk() {
    let (mut pane, mut app) = pane_of_three();
    let mut cx = ViewContext::new();
    pane.nav_history_for_item(10).push(pane.nav_history_mut(), None, &mut cx);
    pane.nav_history_for_item(11).push(pane.nav_history_mut(), None, &mut cx);
    app.set_item(11, facts(None, 11));
    pane.remove_item(&app, 1, false, &mut cx);
    let step = pane.navigate_history(NavigationMode::GoingBack, &mut cx);
    assert!(matches!(step, Navigation::Finished));
    assert_eq!(pane.active_item(), Some(12));
    assert!(pane.can_navigate_backward());
}

#[test]
fn a_disabled_history_records_nothing_until_it_is_enabled() {
    let (mut pane, _app) = pane_of_three();
    let mut cx = ViewContext::new();
    pane.disable_history();
    pane.activate_item(0, true, true, &mut cx);
    answer_deactivations(&mut pane, &mut cx, None);
    assert!(!pane.can_navigate_backward());
    pane.enable_history();
    pane.activate_item(1, true, true, &mut cx);
    answer_deactivations(&mut pane, &mut cx, None);
    assert!(pane.can_navigate_backward());
}

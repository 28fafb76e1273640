//! Several panes: moving items, walking a pane's history, and who handles which action.

use workspace_pane::{
    init, Action, ActionKind, ActionOutcome, ActionTarget, AppContext, Autosave, CloseItem, Effect, Event, GoBack, GoForward, ItemFacts,
    MoveItem, Navigation, NavigationMode, Pane, PaneEffect, ProjectEntryId, SplitDirection, ViewContext, Workspace, WorkspaceContext,
};

fn pane(handle: usize, items: Vec<usize>, app: &AppContext) -> Pane<u32> {
    let mut pane = Pane::new(None, handle, 2, 3);
    let mut cx = ViewContext::new();
    for item in items {
        pane.add_item(app, item, false, false, None, &mut cx);
    }
    pane
}

/// Pane 100 has the items 10, 11 and 12, pane 200 the items 20 and 21. The first is active.
fn two_panes(app: &AppContext) -> Workspace<u32> {
    let mut workspace = Workspace::new(pane(100, vec![10, 11, 12], app));
    assert!(workspace.add_pane(pane(200, vec![20, 21], app)));
    assert!(!workspace.add_pane(pane(100, vec![], app)));
    workspace
}

fn items_of(workspace: &Workspace<u32>, handle: usize) -> Vec<usize> {
    workspace.pane(handle).unwrap().items().clone()
}

#[test]
fn the_workspace_has_the_items_of_all_panes() {
    let app = AppContext::new(Autosave::Off);
    let mut workspace = two_panes(&app);
    assert_eq!(workspace.items(), vec![10, 11, 12, 20, 21]);
    assert_eq!(workspace.active_pane().handle(), 100);
    workspace.activate_pane(200);
    assert_eq!(workspace.active_pane().handle(), 200);
    workspace.activate_pane(300);
    assert_eq!(workspace.active_pane().handle(), 200);
    assert!(workspace.pane(300).is_none());
    assert!(workspace.pane_mut(300).is_none());
}

#[test]
fn a_pane_is_taken_out() {
    let app = AppContext::new(Autosave::Off);
    let mut workspace = two_panes(&app);
    assert!(workspace.add_pane(pane(300, vec![30], &app)));
    assert!(!workspace.remove_pane(400));
    // Another pane stays active.
    workspace.activate_pane(200);
    assert!(workspace.remove_pane(100));
    assert_eq!(workspace.active_pane().handle(), 200);
    assert!(workspace.pane(100).is_none());
    assert_eq!(workspace.items(), vec![20, 21, 30]);
    // The last one takes over from the active one.
    assert!(workspace.add_pane(pane(100, vec![10], &app)));
    assert!(workspace.remove_pane(200));
    assert_eq!(workspace.active_pane().handle(), 100);
    assert!(workspace.remove_pane(300));
    assert_eq!(workspace.active_pane().handle(), 100);
    // The only pane stays.
    assert!(!workspace.remove_pane(100));
    assert_eq!(workspace.items(), vec![10]);
}

#[test]
fn an_item_is_moved_to_another_pane() {
    let app = AppContext::new(Autosave::Off);
    let mut workspace = two_panes(&app);
    let mut cx = WorkspaceContext::new();
    assert!(Pane::move_item(&mut workspace, &app, 100, 200, 12, 1, &mut cx));
    assert_eq!(items_of(&workspace, 100), vec![10, 11]);
    assert_eq!(items_of(&workspace, 200), vec![20, 12, 21]);
    assert_eq!(workspace.pane(100).unwrap().active_item(), Some(11));
    assert_eq!(workspace.pane(200).unwrap().active_item(), Some(12));
    let removal = PaneEffect { pane: 100, effect: Effect::Emit(Event::RemoveItem { item_id: 12 }) };
    let addition = PaneEffect { pane: 200, effect: Effect::AddedToPane { item_id: 12 } };
    let removed = cx.effects().iter().position(|effect| *effect == removal).unwrap();
    let added = cx.effects().iter().position(|effect| *effect == addition).unwrap();
    assert!(removed < added);
    assert_eq!(*cx.effects().last().unwrap(), PaneEffect { pane: 200, effect: Effect::FocusPane });
}

#[test]
fn an_item_is_moved_within_its_pane() {
    let app = AppContext::new(Autosave::Off);
    let mut workspace = two_panes(&app);
    let mut cx = WorkspaceContext::new();
    assert!(Pane::move_item(&mut workspace, &app, 100, 100, 12, 0, &mut cx));
    assert_eq!(items_of(&workspace, 100), vec![12, 10, 11]);
    assert!(Pane::move_item(&mut workspace, &app, 100, 100, 12, 7, &mut cx));
    assert_eq!(items_of(&workspace, 100), vec![10, 11, 12]);
    assert!(!cx.effects().iter().any(|e| matches!(e.effect, Effect::Emit(Event::RemoveItem { .. }))));
    assert_eq!(items_of(&workspace, 200), vec![20, 21]);
}

#[test]
fn an_item_that_is_gone_is_not_moved() {
    let app = AppContext::new(Autosave::Off);
    let mut workspace = two_panes(&app);
    let mut cx = WorkspaceContext::new();
    assert!(!Pane::move_item(&mut workspace, &app, 100, 200, 20, 0, &mut cx));
    assert!(cx.effects().is_empty());
    assert_eq!(workspace.items(), vec![10, 11, 12, 20, 21]);

    let action = |item_id, from, to| Action::MoveItem(MoveItem { item_id, from, to, destination_index: 0 });
    let outcome = workspace.handle_action(&app, action(20, 100, 200), &mut cx);
    assert!(matches!(outcome, ActionOutcome::ItemMissing));
    let outcome = workspace.handle_action(&app, action(10, 100, 300), &mut cx);
    assert!(matches!(outcome, ActionOutcome::Done));
    let outcome = workspace.handle_action(&app, action(10, 300, 100), &mut cx);
    assert!(matches!(outcome, ActionOutcome::Done));
    assert!(cx.effects().is_empty());
    let outcome = workspace.handle_action(&app, action(10, 100, 200), &mut cx);
    assert!(matches!(outcome, ActionOutcome::Done));
    assert_eq!(workspace.items(), vec![11, 12, 10, 20, 21]);
}

#[test]
fn history_is_walked_in_the_pane_that_is_meant() {
    let app = AppContext::new(Autosave::Off);
    let mut workspace = two_panes(&app);
    let mut pane_cx = ViewContext::new();
    for (handle, item) in [(100, 10), (200, 20)] {
        let pane = workspace.pane_mut(handle).unwrap();
        pane.nav_history_for_item(item).push(pane.nav_history_mut(), None, &mut pane_cx);
    }
    let mut cx = WorkspaceContext::new();
    let (handle, step) = Pane::go_back(&mut workspace, Some(200), &mut cx);
    assert_eq!(handle, 200);
    assert!(matches!(step, Navigation::Finished));
    assert_eq!(workspace.pane(200).unwrap().active_item(), Some(20));
    assert_eq!(workspace.pane(100).unwrap().active_item(), Some(12));
    assert_eq!(cx.effects()[0], PaneEffect { pane: 200, effect: Effect::FocusPane });

    // A pane that is gone stands for the active one.
    let (handle, _) = Pane::go_back(&mut workspace, Some(300), &mut cx);
    assert_eq!(handle, 100);
    assert_eq!(workspace.pane(100).unwrap().active_item(), Some(10));
    let (handle, _) = Pane::go_forward(&mut workspace, None, &mut cx);
    assert_eq!(handle, 100);
    let (handle, _) = Pane::reopen_closed_item(&mut workspace, &mut cx);
    assert_eq!(handle, 100);

    let outcome = workspace.handle_action(&app, Action::GoBack(GoBack { pane: Some(200) }), &mut cx);
    assert!(matches!(
        outcome,
        ActionOutcome::Navigate { pane: 200, mode: NavigationMode::GoingBack, step: Navigation::Finished }
    ));
    let outcome = workspace.handle_action(&app, Action::GoForward(GoForward { pane: None }), &mut cx);
    assert!(matches!(outcome, ActionOutcome::Navigate { pane: 100, mode: NavigationMode::GoingForward, .. }));
    let outcome = workspace.handle_action(&app, Action::ReopenClosedItem, &mut cx);
    assert!(matches!(
        outcome,
        ActionOutcome::Navigate { pane: 100, mode: NavigationMode::ReopeningClosedItem, .. }
    ));
}

#[test]
fn actions_begin_to_close_items() {
    let app = AppContext::new(Autosave::Off);
    let mut workspace = two_panes(&app);
    let mut cx = WorkspaceContext::new();
    let cases = [
        (Action::CloseActiveItem, 100, vec![12]),
        (Action::CloseInactiveItems, 100, vec![10, 11]),
        (Action::CloseCleanItems, 100, vec![10, 11, 12]),
        (Action::CloseAllItems, 100, vec![10, 11, 12]),
        (Action::CloseItem(CloseItem { item_id: 20, pane: 200 }), 200, vec![20]),
        (Action::CloseItem(CloseItem { item_id: 10, pane: 200 }), 200, vec![]),
    ];
    for (action, expected_pane, expected) in cases {
        match workspace.handle_action(&app, action, &mut cx) {
            ActionOutcome::Close { pane, closing } => {
                assert_eq!(pane, expected_pane);
                assert_eq!(*closing.items_to_close(), expected);
            }
            _ => panic!("items have to be closed"),
        }
    }
    let gone = Action::CloseItem(CloseItem { item_id: 10, pane: 300 });
    assert!(matches!(workspace.handle_action(&app, gone, &mut cx), ActionOutcome::Done));
    assert!(matches!(workspace.handle_action(&app, Action::SplitLeft, &mut cx), ActionOutcome::Unhandled));
    assert!(cx.effects().is_empty());

    let mut empty: Workspace<u32> = Workspace::new(pane(100, vec![], &app));
    assert!(matches!(empty.handle_action(&app, Action::CloseAllItems, &mut cx), ActionOutcome::Done));
}

#[test]
fn every_action_is_registered_once() {
    let handlers = init();
    assert_eq!(handlers.len(), 20);
    for (i, handler) in handlers.iter().enumerate() {
        assert!(handlers[..i].iter().all(|earlier| earlier.kind != handler.kind));
    }
    let target = |kind| handlers.iter().find(|handler| handler.kind == kind).map(|handler| handler.target);
    assert_eq!(target(ActionKind::ActivateItem), Some(ActionTarget::Pane));
    assert_eq!(target(ActionKind::CloseItem), Some(ActionTarget::WorkspaceTask));
    assert_eq!(target(ActionKind::MoveItem), Some(ActionTarget::Workspace));
    assert_eq!(target(ActionKind::NewFile), None);
}

#[test]
fn splitting_is_left_to_observers() {
    let app = AppContext::new(Autosave::Off);
    let mut pane = pane(100, vec![10], &app);
    let cases = [
        (Action::SplitLeft, SplitDirection::Left),
        (Action::SplitUp, SplitDirection::Up),
        (Action::SplitRight, SplitDirection::Right),
        (Action::SplitDown, SplitDirection::Down),
    ];
    for (action, direction) in cases {
        let mut cx = ViewContext::new();
        assert!(pane.handle_action(action, &mut cx));
        assert_eq!(*cx.effects(), vec![Effect::Emit(Event::Split(direction))]);
    }
}

#[test]
fn an_item_moved_over_another_view_of_its_entry_replaces_it() {
    let mut app = AppContext::new(Autosave::Off);
    for item in [10, 20] {
        app.set_item(
            item,
            ItemFacts {
                view_type: 0,
                is_singleton: true,
                project_entry_ids: vec![ProjectEntryId(1)],
                project_item_model_ids: vec![],
                is_dirty: false,
                has_conflict: false,
                can_save: true,
                project_path: None,
                tab_descriptions: vec![],
            },
        );
    }
    let mut workspace = two_panes(&app);
    let mut cx = WorkspaceContext::new();
    assert!(Pane::move_item(&mut workspace, &app, 100, 200, 10, 1, &mut cx));
    assert_eq!(items_of(&workspace, 100), vec![11, 12]);
    assert_eq!(items_of(&workspace, 200), vec![21, 10]);
}

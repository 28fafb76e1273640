//! Activating, adding and removing items.

use workspace_pane::{
    Action, ActivateItem, AppContext, Autosave, CloseStep, Effect, Event, ItemFacts, NavigationMode, Pane, ProjectEntryId, ProjectPath,
    ViewContext,
};

fn facts() -> ItemFacts {
    ItemFacts {
        view_type: 0,
        is_singleton: false,
        project_entry_ids: vec![],
        project_item_model_ids: vec![],
        is_dirty: false,
        has_conflict: false,
        can_save: false,
        project_path: None,
        tab_descriptions: vec![],
    }
}

fn entry(id: usize) -> ProjectEntryId {
    ProjectEntryId(id)
}

/// A pane whose items have labels.
struct Fixture {
    pane: Pane<u32>,
    app: AppContext,
    cx: ViewContext,
    labels: Vec<String>,
}

impl Fixture {
    fn new() -> Self {
        Fixture {
            pane: Pane::new(None, 1, 2, 3),
            app: AppContext::new(Autosave::Off),
            cx: ViewContext::new(),
            labels: vec![],
        }
    }

    fn new_item(&mut self, label: &str, facts: ItemFacts) -> usize {
        let id = self.labels.len();
        self.labels.push(label.to_string());
        self.app.set_item(id, facts);
        id
    }

    fn add(&mut self, item: usize, destination_index: Option<usize>) {
        self.pane.add_item(&self.app, item, false, false, destination_index, &mut self.cx);
    }

    fn add_labeled_item(&mut self, label: &str) -> usize {
        let item = self.new_item(label, facts());
        self.add(item, None);
        item
    }

    fn set_labeled_items<const COUNT: usize>(&mut self, labels: [&str; COUNT]) -> [usize; COUNT] {
        self.pane = Pane::new(None, 1, 2, 3);
        let mut active_item_index = 0;
        let mut index = 0;
        let items = labels.map(|mut label| {
            if label.ends_with('*') {
                label = label.trim_end_matches('*');
                active_item_index = index;
            }
            let item = self.add_labeled_item(label);
            index += 1;
            item
        });
        self.pane.activate_item(active_item_index, false, false, &mut self.cx);
        items
    }

    fn assert_item_labels<const COUNT: usize>(&self, expected_states: [&str; COUNT]) {
        let actual_states: Vec<String> = self
            .pane
            .items()
            .iter()
            .enumerate()
            .map(|(ix, item)| {
                let mut state = self.labels[*item].clone();
                if ix == self.pane.active_item_index() {
                    state.push('*');
                }
                state
            })
            .collect();
        assert_eq!(actual_states, expected_states, "pane items do not match expectation");
    }

    fn close_active_item(&mut self) {
        let mut closing = self.pane.close_active_item(&self.app).unwrap();
        let items = self.pane.items().clone();
        let step = closing.advance(&mut self.pane, &self.app, &items, &mut self.cx);
        assert_eq!(step, CloseStep::Finished);
    }
}

#[test]
fn test_add_item_with_new_item() {
    let mut f = Fixture::new();

    // 1. Add with a destination index
    //   a. Add before the active item
    f.set_labeled_items(["A", "B*", "C"]);
    let d = f.new_item("D", facts());
    f.add(d, Some(0));
    f.assert_item_labels(["D*", "A", "B", "C"]);

    //   b. Add after the active item
    f.set_labeled_items(["A", "B*", "C"]);
    let d = f.new_item("D", facts());
    f.add(d, Some(2));
    f.assert_item_labels(["A", "B", "D*", "C"]);

    //   c. Add at the end of the item list (including off the length)
    f.set_labeled_items(["A", "B*", "C"]);
    let d = f.new_item("D", facts());
    f.add(d, Some(5));
    f.assert_item_labels(["A", "B", "C", "D*"]);

    // 2. Add without a destination index
    //   a. Add with active item at the start of the item list
    f.set_labeled_items(["A*", "B", "C"]);
    let d = f.new_item("D", facts());
    f.add(d, None);
    f.assert_item_labels(["A", "D*", "B", "C"]);
    f.set_labeled_items(["A", "D*", "B", "C"]);

    //   b. Add with active item at the end of the item list
    f.set_labeled_items(["A", "B", "C*"]);
    let d = f.new_item("D", facts());
    f.add(d, None);
    f.assert_item_labels(["A", "B", "C", "D*"]);
}

#[test]
fn test_add_item_with_existing_item() {
    let mut f = Fixture::new();

    // 1. Add with a destination index
    //   1a. Add before the active item
    let [_, _, _, d] = f.set_labeled_items(["A", "B*", "C", "D"]);
    f.add(d, Some(0));
    f.assert_item_labels(["D*", "A", "B", "C"]);

    //   1b. Add after the active item
    let [_, _, _, d] = f.set_labeled_items(["A", "B*", "C", "D"]);
    f.add(d, Some(2));
    f.assert_item_labels(["A", "B", "D*", "C"]);

    //   1c. Add at the end of the item list (including off the length)
    let [a, _, _, _] = f.set_labeled_items(["A", "B*", "C", "D"]);
    f.add(a, Some(5));
    f.assert_item_labels(["B", "C", "D", "A*"]);

    //   1d. Add same item to active index
    let [_, b, _] = f.set_labeled_items(["A", "B*", "C"]);
    f.add(b, Some(1));
    f.assert_item_labels(["A", "B*", "C"]);

    //   1e. Add item to index after same item in last position
    let [_, _, c] = f.set_labeled_items(["A", "B*", "C"]);
    f.add(c, Some(2));
    f.assert_item_labels(["A", "B", "C*"]);

    // 2. Add without a destination index
    //   2a. Add with active item at the start of the item list
    let [_, _, _, d] = f.set_labeled_items(["A*", "B", "C", "D"]);
    f.add(d, None);
    f.assert_item_labels(["A", "D*", "B", "C"]);

    //   2b. Add with active item at the end of the item list
    let [a, _, _, _] = f.set_labeled_items(["A", "B", "C", "D*"]);
    f.add(a, None);
    f.assert_item_labels(["B", "C", "D", "A*"]);

    //   2c. Add active item to active item at end of list
    let [_, _, c] = f.set_labeled_items(["A", "B", "C*"]);
    f.add(c, None);
    f.assert_item_labels(["A", "B", "C*"]);

    //   2d. Add active item to active item at start of list
    let [a, _, _] = f.set_labeled_items(["A*", "B", "C"]);
    f.add(a, None);
    f.assert_item_labels(["A*", "B", "C"]);
}

#[test]
fn test_add_item_with_same_project_entries() {
    let mut f = Fixture::new();

    // singleton view
    let item = f.new_item(
        "buffer 1",
        ItemFacts {
            is_singleton: true,
            project_entry_ids: vec![entry(1)],
            project_path: Some(ProjectPath { worktree_id: 0, path: "one.txt".to_string() }),
            ..facts()
        },
    );
    f.add(item, None);
    f.assert_item_labels(["buffer 1*"]);

    // new singleton view with the same project entry
    let item = f.new_item(
        "buffer 1",
        ItemFacts {
            is_singleton: true,
            project_entry_ids: vec![entry(1)],
            project_path: Some(ProjectPath { worktree_id: 0, path: "1.txt".to_string() }),
            ..facts()
        },
    );
    f.add(item, None);
    f.assert_item_labels(["buffer 1*"]);

    // new singleton view with different project entry
    let item = f.new_item(
        "buffer 2",
        ItemFacts {
            is_singleton: true,
            project_entry_ids: vec![entry(2)],
            project_path: Some(ProjectPath { worktree_id: 0, path: "2.txt".to_string() }),
            ..facts()
        },
    );
    f.add(item, None);
    f.assert_item_labels(["buffer 1", "buffer 2*"]);

    // new multibuffer view with the same project entry
    let item = f.new_item(
        "multibuffer 1",
        ItemFacts {
            is_singleton: false,
            project_entry_ids: vec![entry(1)],
            project_path: Some(ProjectPath { worktree_id: 0, path: "1.txt".to_string() }),
            ..facts()
        },
    );
    f.add(item, None);
    f.assert_item_labels(["buffer 1", "buffer 2", "multibuffer 1*"]);

    // another multibuffer view with the same project entry
    let item = f.new_item(
        "multibuffer 1b",
        ItemFacts {
            is_singleton: false,
            project_entry_ids: vec![entry(1)],
            project_path: Some(ProjectPath { worktree_id: 0, path: "1.txt".to_string() }),
            ..facts()
        },
    );
    f.add(item, None);
    f.assert_item_labels(["buffer 1", "buffer 2", "multibuffer 1", "multibuffer 1b*"]);
}

#[test]
fn test_remove_item_ordering() {
    let mut f = Fixture::new();

    f.add_labeled_item("A");
    f.add_labeled_item("B");
    f.add_labeled_item("C");
    f.add_labeled_item("D");
    f.assert_item_labels(["A", "B", "C", "D*"]);

    f.pane.activate_item(1, false, false, &mut f.cx);
    f.add_labeled_item("1");
    f.assert_item_labels(["A", "B", "1*", "C", "D"]);

    f.close_active_item();
    f.assert_item_labels(["A", "B*", "C", "D"]);

    f.pane.activate_item(3, false, false, &mut f.cx);
    f.assert_item_labels(["A", "B", "C", "D*"]);

    f.close_active_item();
    f.assert_item_labels(["A", "B*", "C"]);

    f.close_active_item();
    f.assert_item_labels(["A", "C*"]);

    f.close_active_item();
    f.assert_item_labels(["A*"]);
}

#[test]
fn activating_an_item_tells_the_application_what_to_do() {
    let mut f = Fixture::new();
    let [a, b] = f.set_labeled_items(["A*", "B"]);
    let mut cx = ViewContext::new();

    f.pane.activate_item(1, true, true, &mut cx);
    assert_eq!(
        *cx.effects(),
        vec![
            Effect::Deactivated { item_id: a, mode: NavigationMode::Normal },
            Effect::Emit(Event::ActivateItem { local: true }),
            Effect::UpdateToolbar { active_item: Some(b) },
            Effect::FocusItem { item_id: b },
            Effect::Notify,
        ]
    );
    cx.take_effects();

    // The active item again, without focus.
    f.pane.activate_item(1, false, false, &mut cx);
    assert_eq!(*cx.effects(), vec![Effect::UpdateToolbar { active_item: Some(b) }, Effect::Notify]);
    cx.take_effects();

    // Past the end.
    f.pane.activate_item(2, true, true, &mut cx);
    assert!(cx.effects().is_empty());
    f.assert_item_labels(["A", "B*"]);
}

#[test]
fn next_and_previous_go_around() {
    let mut f = Fixture::new();
    f.set_labeled_items(["A*", "B", "C"]);
    f.pane.activate_prev_item(true, &mut f.cx);
    f.assert_item_labels(["A", "B", "C*"]);
    f.pane.activate_next_item(true, &mut f.cx);
    f.assert_item_labels(["A*", "B", "C"]);
    for _ in 0..3 {
        f.pane.activate_next_item(true, &mut f.cx);
    }
    f.assert_item_labels(["A*", "B", "C"]);

    let mut empty: Pane<u32> = Pane::new(None, 1, 2, 3);
    let mut cx = ViewContext::new();
    empty.activate_prev_item(true, &mut cx);
    empty.activate_next_item(true, &mut cx);
    assert!(cx.effects().is_empty());
    assert_eq!(empty.active_item(), None);
}

#[test]
fn adding_a_new_item_tells_the_application_what_to_do() {
    let mut f = Fixture::new();
    let [a] = f.set_labeled_items(["A*"]);
    let b = f.new_item("B", facts());
    let mut cx = ViewContext::new();
    f.pane.add_item(&f.app, b, true, false, None, &mut cx);
    assert_eq!(
        *cx.effects(),
        vec![
            Effect::AddedToPane { item_id: b },
            Effect::Reparent { item_id: b },
            Effect::Deactivated { item_id: a, mode: NavigationMode::Normal },
            Effect::Emit(Event::ActivateItem { local: true }),
            Effect::UpdateToolbar { active_item: Some(b) },
            Effect::Notify,
            Effect::Notify,
        ]
    );
}

#[test]
fn adding_an_item_where_it_stands_does_not_reparent_it() {
    let mut f = Fixture::new();
    let [a, b] = f.set_labeled_items(["A*", "B"]);
    let mut cx = ViewContext::new();
    f.pane.add_item(&f.app, b, false, false, None, &mut cx);
    f.assert_item_labels(["A", "B*"]);
    assert_eq!(
        *cx.effects(),
        vec![
            Effect::AddedToPane { item_id: b },
            Effect::Deactivated { item_id: a, mode: NavigationMode::Normal },
            Effect::Emit(Event::ActivateItem { local: false }),
            Effect::UpdateToolbar { active_item: Some(b) },
            Effect::Notify,
        ]
    );
    cx.take_effects();

    // The active item stays though the insertion index is another one.
    f.pane.add_item(&f.app, b, false, false, None, &mut cx);
    f.assert_item_labels(["A", "B*"]);
    assert_eq!(
        *cx.effects(),
        vec![
            Effect::AddedToPane { item_id: b },
            Effect::Reparent { item_id: b },
            Effect::Notify,
            Effect::UpdateToolbar { active_item: Some(b) },
            Effect::Notify,
        ]
    );
}

#[test]
fn a_second_view_of_an_entry_replaces_the_first_where_it_moves() {
    let mut f = Fixture::new();
    let singleton = |entry_id| ItemFacts { is_singleton: true, project_entry_ids: vec![entry(entry_id)], ..facts() };
    let first = f.new_item("first", singleton(7));
    let other = f.new_item("other", facts());
    let second = f.new_item("second", singleton(7));
    f.add(first, None);
    f.add(other, None);
    f.add(second, Some(1));
    f.assert_item_labels(["other", "second*"]);
    assert_eq!(f.pane.index_for_item(first), None);
    assert_eq!(f.pane.index_for_item(second), Some(1));
    assert_eq!(f.pane.item_for_entry(entry(7), &f.app), Some(second));
    assert_eq!(f.pane.item_for_entry(entry(8), &f.app), None);
}

#[test]
fn removing_the_last_item_announces_that_the_pane_is_empty() {
    let mut f = Fixture::new();
    let [a] = f.set_labeled_items(["A*"]);
    let mut cx = ViewContext::new();
    f.pane.remove_item(&f.app, 0, false, &mut cx);
    assert_eq!(f.pane.items_len(), 0);
    assert_eq!(f.pane.active_item(), None);
    assert_eq!(
        *cx.effects(),
        vec![
            Effect::UpdateToolbar { active_item: Some(a) },
            Effect::Notify,
            Effect::Emit(Event::RemoveItem { item_id: a }),
            Effect::Deactivated { item_id: a, mode: NavigationMode::Normal },
            Effect::UpdateToolbar { active_item: None },
            Effect::Emit(Event::Remove),
            Effect::Deactivated { item_id: a, mode: NavigationMode::ClosingItem },
            Effect::Notify,
        ]
    );
}

#[test]
fn removing_an_inactive_item_keeps_the_active_one() {
    let mut f = Fixture::new();
    f.set_labeled_items(["A", "B", "C*"]);
    f.pane.remove_item(&f.app, 0, false, &mut f.cx);
    f.assert_item_labels(["B", "C*"]);
    f.set_labeled_items(["A*", "B", "C"]);
    f.pane.remove_item(&f.app, 2, false, &mut f.cx);
    f.assert_item_labels(["A*", "B"]);
}

#[test]
fn where_the_previous_item_is_gone_the_one_to_the_left_takes_over() {
    let mut f = Fixture::new();
    let singleton = || ItemFacts { is_singleton: true, project_entry_ids: vec![entry(7)], ..facts() };
    f.add_labeled_item("A");
    f.add_labeled_item("B");
    let first = f.new_item("first", singleton());
    let second = f.new_item("second", singleton());
    f.add(first, None);
    // The second view takes the place of the first, which was active last before it.
    f.add(second, Some(1));
    f.assert_item_labels(["A", "second*", "B"]);
    f.pane.remove_item(&f.app, 1, false, &mut f.cx);
    f.assert_item_labels(["A*", "B"]);
}

#[test]
fn where_there_is_no_item_to_the_left_the_next_one_takes_over() {
    let mut f = Fixture::new();
    let singleton = || ItemFacts { is_singleton: true, project_entry_ids: vec![entry(7)], ..facts() };
    f.add_labeled_item("A");
    f.add_labeled_item("B");
    let first = f.new_item("first", singleton());
    let second = f.new_item("second", singleton());
    f.add(first, None);
    f.add(second, Some(0));
    f.assert_item_labels(["second*", "A", "B"]);
    f.pane.remove_item(&f.app, 0, false, &mut f.cx);
    f.assert_item_labels(["A*", "B"]);
}

#[test]
fn an_item_to_the_left_moves_right_after_the_active_one() {
    let mut f = Fixture::new();
    let [a, _, _, _] = f.set_labeled_items(["A", "B*", "C", "D"]);
    f.add(a, None);
    f.assert_item_labels(["B", "A*", "C", "D"]);

    let [a, _, _, _] = f.set_labeled_items(["A", "B", "C*", "D"]);
    f.add(a, None);
    f.assert_item_labels(["B", "C", "A*", "D"]);

    // With a destination the index is that in the row without the item.
    let [a, _, _, _] = f.set_labeled_items(["A", "B*", "C", "D"]);
    f.add(a, Some(2));
    f.assert_item_labels(["B", "C", "A*", "D"]);
}

#[test]
fn adding_an_item_twice_is_adding_it_once() {
    let mut f = Fixture::new();
    f.set_labeled_items(["A", "B*", "C"]);
    let d = f.new_item("D", facts());
    for _ in 0..3 {
        f.add(d, None);
        f.assert_item_labels(["A", "B", "D*", "C"]);
    }
}

#[test]
fn items_are_found_by_type() {
    let mut f = Fixture::new();
    let a = f.new_item("A", ItemFacts { view_type: 1, ..facts() });
    let b = f.new_item("B", ItemFacts { view_type: 2, ..facts() });
    let c = f.new_item("C", ItemFacts { view_type: 1, ..facts() });
    for item in [a, b, c] {
        f.add(item, None);
    }
    assert_eq!(f.pane.items_of_type(1, &f.app), vec![a, c]);
    assert_eq!(f.pane.items_of_type(2, &f.app), vec![b]);
    assert!(f.pane.items_of_type(3, &f.app).is_empty());
}

#[test]
fn actions_activate_items() {
    let mut f = Fixture::new();
    f.set_labeled_items(["A", "B*", "C"]);
    assert!(f.pane.handle_action(Action::ActivateItem(ActivateItem(0)), &mut f.cx));
    f.assert_item_labels(["A*", "B", "C"]);
    assert!(f.pane.handle_action(Action::ActivateLastItem, &mut f.cx));
    f.assert_item_labels(["A", "B", "C*"]);
    assert!(f.pane.handle_action(Action::ActivatePrevItem, &mut f.cx));
    f.assert_item_labels(["A", "B*", "C"]);
    assert!(f.pane.handle_action(Action::ActivateNextItem, &mut f.cx));
    f.assert_item_labels(["A", "B", "C*"]);
    assert!(!f.pane.handle_action(Action::CloseActiveItem, &mut f.cx));
    assert!(!f.pane.handle_action(Action::NewFile, &mut f.cx));
    f.assert_item_labels(["A", "B", "C*"]);
}

#[test]
fn an_entry_is_opened_once() {
    let mut f = Fixture::new();
    let [other] = f.set_labeled_items(["other*"]);
    let made = f.new_item("made", facts());
    let item = f.pane.open_item(
        &mut f.app,
        entry(4),
        true,
        || (made, ItemFacts { is_singleton: true, project_entry_ids: vec![entry(4)], ..facts() }),
        &mut f.cx,
    );
    assert_eq!(item, made);
    f.assert_item_labels(["other", "made*"]);

    f.pane.activate_item(0, false, false, &mut f.cx);
    assert_eq!(f.pane.active_item(), Some(other));
    let item = f.pane.open_item(&mut f.app, entry(4), true, || panic!("it is open"), &mut f.cx);
    assert_eq!(item, made);
    f.assert_item_labels(["other", "made*"]);
}

#[test]
fn a_singleton_of_several_entries_can_stand_in_for_a_new_view() {
    let mut f = Fixture::new();
    let both = f.new_item(
        "both",
        ItemFacts { is_singleton: true, project_entry_ids: vec![entry(4), entry(5)], ..facts() },
    );
    f.add(both, None);
    let made = f.new_item("made", facts());
    let view = || ItemFacts { is_singleton: true, project_entry_ids: vec![entry(4)], ..facts() };
    let item = f.pane.open_item(&mut f.app, entry(4), true, || (made, view()), &mut f.cx);
    assert_eq!(item, made);
    f.assert_item_labels(["both*"]);
    assert_eq!(f.pane.item_for_entry(entry(4), &f.app), None);
}

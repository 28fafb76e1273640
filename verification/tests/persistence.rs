//! Keeping a pane between runs of the application.

use workspace_pane::{AppContext, Autosave, ItemState, ItemStates, Pane, PaneState, ViewContext};

fn pane_of(items: Vec<usize>) -> Pane<u32> {
    let mut pane = Pane::new(None, 1, 2, 3);
    let app = AppContext::new(Autosave::Off);
    let mut cx = ViewContext::new();
    for item in items {
        pane.add_item(&app, item, false, false, None, &mut cx);
    }
    pane
}

fn namespace(name: &str) -> Option<String> {
    Some(name.to_string())
}

#[test]
fn defaults() {
    assert_eq!(PaneState::default(), PaneState { active: false, items: vec![] });
    assert_eq!(
        ItemState::default(),
        ItemState { record_namespace: "Terminal".to_string(), record_id: 100000, active: false }
    );
    assert_eq!(
        ItemState::new("Editor", 3, true),
        ItemState { record_namespace: "Editor".to_string(), record_id: 3, active: true }
    );
}

#[test]
fn kept_states_can_be_copied() {
    let state = PaneState { active: true, items: vec![ItemState::new("A", 1, false), ItemState::new("B", 2, true)] };
    assert_eq!(state.clone(), state);
    assert_eq!(state.items[1].clone(), ItemState::new("B", 2, true));
}

#[test]
fn a_pane_is_kept_with_its_active_item_marked() {
    let mut pane = pane_of(vec![10, 11, 12]);
    let mut cx = ViewContext::new();
    pane.activate_item(1, false, false, &mut cx);
    let pending = pane.build_state(vec![namespace("Editor"), namespace("Terminal"), namespace("Editor")]);
    assert_eq!(pending.items_len(), 3);
    // What happens while the items are being saved does not matter.
    pane.activate_item(2, false, false, &mut cx);
    pane.set_active(false, &mut cx);
    let state = pending.finish(vec![Some(5), Some(6), Some(7)]);
    assert_eq!(
        state,
        PaneState {
            active: true,
            items: vec![
                ItemState::new("Editor", 5, false),
                ItemState::new("Terminal", 6, true),
                ItemState::new("Editor", 7, false),
            ],
        }
    );
}

#[test]
fn items_that_cannot_be_kept_are_left_out() {
    let pane = pane_of(vec![10, 11, 12, 13]);
    let pending = pane.build_state(vec![namespace("A"), None, namespace("B"), namespace("C")]);
    assert_eq!(pending.items_len(), 3);
    let state = pending.finish(vec![None, Some(1), Some(2)]);
    assert_eq!(state.items, vec![ItemState::new("B", 1, false), ItemState::new("C", 2, true)]);
}

#[test]
fn what_was_loaded_is_restored() {
    let pane = pane_of(vec![]);
    let saved = || PaneState {
        active: true,
        items: vec![ItemState::new("A", 1, false), ItemState::new("B", 1, true), ItemState::new("A", 2, false)],
    };
    let mut states: ItemStates<&str> = ItemStates::new();
    states.insert(&"A".to_string(), 9, "of another pane");
    states.insert(&"A".to_string(), 2, "from before");
    saved().load_items(vec![Some("first"), Some("second"), None], &mut states);
    let restored = pane.restore(saved(), &mut states);
    assert_eq!(restored, vec![Some("first"), Some("second"), Some("from before")]);
    assert_eq!(pane.restore(saved(), &mut states), vec![None, None, None]);
    assert_eq!(states.remove(&"A".to_string(), 9), Some("of another pane"));
    assert_eq!(states.remove(&"A".to_string(), 9), None);
}

#[test]
fn a_later_state_replaces_an_earlier_one() {
    let mut states: ItemStates<u8> = ItemStates::new();
    states.insert(&"A".to_string(), 1, 1);
    states.insert(&"A".to_string(), 1, 2);
    assert_eq!(states.remove(&"A".to_string(), 1), Some(2));
    assert_eq!(states.remove(&"A".to_string(), 1), None);

    let twice = PaneState { active: false, items: vec![ItemState::new("A", 1, false), ItemState::new("A", 1, true)] };
    twice.load_items(vec![Some(3), Some(4)], &mut states);
    assert_eq!(pane_of(vec![]).restore(twice, &mut states), vec![Some(4), None]);
}

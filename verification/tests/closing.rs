//! Closing items, and saving them first.

use workspace_pane::{
    start_directory, AppContext, Autosave, CloseStep, Effect, ItemFacts, Pane, ProjectEntryId, Prompt, PromptLevel, SaveItem, SaveResult, ViewContext, CONFLICT_MESSAGE,
    DIRTY_MESSAGE,
};

fn facts() -> ItemFacts {
    ItemFacts {
        view_type: 0,
        is_singleton: false,
        project_entry_ids: vec![ProjectEntryId(1)],
        project_item_model_ids: vec![],
        is_dirty: false,
        has_conflict: false,
        can_save: true,
        project_path: None,
        tab_descriptions: vec![],
    }
}

fn pane_with(app: &mut AppContext, items: Vec<(usize, ItemFacts)>) -> Pane<u32> {
    let mut pane = Pane::new(None, 1, 2, 3);
    let mut cx = ViewContext::new();
    for (item, facts) in items {
        app.set_item(item, facts);
        pane.add_item(app, item, false, false, None, &mut cx);
    }
    pane
}

fn shows(models: Vec<usize>) -> ItemFacts {
    ItemFacts { project_item_model_ids: models, ..facts() }
}

#[test]
fn items_are_selected_by_type() {
    let mut app = AppContext::new(Autosave::Off);
    let dirty = ItemFacts { is_dirty: true, ..facts() };
    let pane = pane_with(&mut app, vec![(10, facts()), (11, dirty), (12, facts())]);
    assert_eq!(*pane.close_active_item(&app).unwrap().items_to_close(), vec![12]);
    assert_eq!(*pane.close_inactive_items(&app).unwrap().items_to_close(), vec![10, 11]);
    assert_eq!(*pane.close_clean_items(&app).unwrap().items_to_close(), vec![10, 12]);
    assert_eq!(*pane.close_all_items(&app).unwrap().items_to_close(), vec![10, 11, 12]);
    assert_eq!(*pane.close_item(&app, 11).items_to_close(), vec![11]);
    assert!(pane.close_item(&app, 99).items_to_close().is_empty());
    assert_eq!(*pane.close_items(&app, |id| id > 10).items_to_close(), vec![11, 12]);

    let empty: Pane<u32> = Pane::new(None, 1, 2, 3);
    assert!(empty.close_active_item(&app).is_none());
    assert!(empty.close_inactive_items(&app).is_none());
    assert!(empty.close_clean_items(&app).is_none());
    assert!(empty.close_all_items(&app).is_none());
}

#[test]
fn singletons_come_first() {
    let mut app = AppContext::new(Autosave::Off);
    let singleton = |entry| ItemFacts { is_singleton: true, project_entry_ids: vec![ProjectEntryId(entry)], ..facts() };
    let pane = pane_with(&mut app, vec![(10, facts()), (11, singleton(5)), (12, facts()), (13, singleton(6))]);
    assert_eq!(*pane.close_all_items(&app).unwrap().items_to_close(), vec![11, 13, 10, 12]);
}

#[test]
fn closing_leaves_the_other_items_in_order() {
    let mut app = AppContext::new(Autosave::Off);
    let mut pane = pane_with(&mut app, (10..16).map(|item| (item, facts())).collect());
    let mut cx = ViewContext::new();
    let mut closing = pane.close_items(&app, |id| id % 2 == 0);
    let items = pane.items().clone();
    let step = closing.advance(&mut pane, &app, &items, &mut cx);
    assert_eq!(step, CloseStep::Finished);
    assert_eq!(*pane.items(), vec![11, 13, 15]);
    assert_eq!(pane.active_item(), Some(15));
    assert_eq!(*cx.effects().last().unwrap(), Effect::Notify);
}

#[test]
fn a_model_that_would_be_lost_is_asked_about_once() {
    let mut app = AppContext::new(Autosave::Off);
    let mut pane = pane_with(&mut app, vec![(10, shows(vec![1])), (11, shows(vec![1, 2])), (12, shows(vec![2]))]);
    let mut cx = ViewContext::new();
    let mut closing = pane.close_all_items(&app).unwrap();
    let items = pane.items().clone();

    let step = closing.advance(&mut pane, &app, &items, &mut cx);
    assert_eq!(step, CloseStep::Save { item_ix: 0, item_id: 10 });
    closing.finish_save(&mut pane, &app, SaveResult::Proceed, &mut cx);
    assert_eq!(*pane.items(), vec![11, 12]);

    // The first model has been asked about, the second one has not.
    let step = closing.advance(&mut pane, &app, &items, &mut cx);
    assert_eq!(step, CloseStep::Save { item_ix: 0, item_id: 11 });
    closing.finish_save(&mut pane, &app, SaveResult::Proceed, &mut cx);
    let step = closing.advance(&mut pane, &app, &items, &mut cx);
    assert_eq!(step, CloseStep::Finished);
    assert!(pane.items().is_empty());
}

#[test]
fn a_question_is_about_all_models_of_the_item() {
    let mut app = AppContext::new(Autosave::Off);
    let mut pane = pane_with(&mut app, vec![(10, shows(vec![1, 2])), (11, shows(vec![2])), (12, shows(vec![2, 3]))]);
    let mut cx = ViewContext::new();
    let mut closing = pane.close_items(&app, |id| id < 12);
    let items = pane.items().clone();

    // The second model is open in an item that stays, and is not asked about.
    let step = closing.advance(&mut pane, &app, &items, &mut cx);
    assert_eq!(step, CloseStep::Save { item_ix: 0, item_id: 10 });
    closing.finish_save(&mut pane, &app, SaveResult::Proceed, &mut cx);
    assert_eq!(closing.advance(&mut pane, &app, &items, &mut cx), CloseStep::Finished);
    assert_eq!(*pane.items(), vec![12]);

    let mut pane = pane_with(&mut app, vec![(10, shows(vec![1, 2])), (11, shows(vec![2]))]);
    let mut closing = pane.close_items(&app, |_| true);
    let items = pane.items().clone();
    let step = closing.advance(&mut pane, &app, &items, &mut cx);
    assert_eq!(step, CloseStep::Save { item_ix: 0, item_id: 10 });
    closing.finish_save(&mut pane, &app, SaveResult::Proceed, &mut cx);
    assert_eq!(closing.advance(&mut pane, &app, &items, &mut cx), CloseStep::Finished);
    assert!(pane.items().is_empty());
}

#[test]
fn a_model_that_is_open_elsewhere_is_not_asked_about() {
    let mut app = AppContext::new(Autosave::Off);
    let mut pane = pane_with(&mut app, vec![(10, shows(vec![1])), (11, shows(vec![1]))]);
    let mut cx = ViewContext::new();
    let items = pane.items().clone();
    let mut closing = pane.close_item(&app, 10);
    assert_eq!(closing.advance(&mut pane, &app, &items, &mut cx), CloseStep::Finished);
    assert_eq!(*pane.items(), vec![11]);

    // Another pane shows the model.
    app.set_item(30, shows(vec![1]));
    let mut closing = pane.close_item(&app, 11);
    assert_eq!(closing.advance(&mut pane, &app, &vec![11, 30], &mut cx), CloseStep::Finished);
    assert!(pane.items().is_empty());
}

#[test]
fn cancelling_keeps_the_rest_open() {
    let mut app = AppContext::new(Autosave::Off);
    let mut pane = pane_with(&mut app, vec![(10, facts()), (11, shows(vec![1])), (12, facts())]);
    let mut cx = ViewContext::new();
    let items = pane.items().clone();
    let mut closing = pane.close_all_items(&app).unwrap();
    assert_eq!(
        closing.advance(&mut pane, &app, &items, &mut cx),
        CloseStep::Save { item_ix: 0, item_id: 11 }
    );
    closing.finish_save(&mut pane, &app, SaveResult::Cancelled, &mut cx);
    cx.take_effects();
    assert_eq!(closing.advance(&mut pane, &app, &items, &mut cx), CloseStep::Finished);
    assert_eq!(*pane.items(), vec![11, 12]);
    assert_eq!(*cx.effects(), vec![Effect::Notify]);
}

#[test]
fn an_item_that_cannot_be_saved_keeps_the_rest_open() {
    let mut app = AppContext::new(Autosave::Off);
    let mut pane = pane_with(&mut app, vec![(10, facts()), (11, shows(vec![1])), (12, facts())]);
    let mut cx = ViewContext::new();
    let items = pane.items().clone();
    let mut closing = pane.close_all_items(&app).unwrap();
    assert_eq!(
        closing.advance(&mut pane, &app, &items, &mut cx),
        CloseStep::Save { item_ix: 0, item_id: 11 }
    );
    cx.take_effects();
    closing.finish_save(&mut pane, &app, SaveResult::Failed, &mut cx);
    for _ in 0..2 {
        assert_eq!(closing.advance(&mut pane, &app, &items, &mut cx), CloseStep::Failed);
    }
    assert_eq!(*pane.items(), vec![11, 12]);
    assert!(cx.effects().is_empty());
}

#[test]
fn a_closing_asks_about_edits() {
    let mut app = AppContext::new(Autosave::Off);
    let edited = ItemFacts { is_dirty: true, ..shows(vec![1]) };
    let mut pane = pane_with(&mut app, vec![(10, edited), (11, facts())]);
    let mut cx = ViewContext::new();
    let items = pane.items().clone();
    let mut closing = pane.close_item(&app, 10);
    let step = closing.advance(&mut pane, &app, &items, &mut cx);
    assert_eq!(step, CloseStep::Save { item_ix: 0, item_id: 10 });
    let saving: SaveItem<String> = closing.begin_save(&mut pane, &app, 0, &mut cx);
    assert!(matches!(saving, SaveItem::AskAboutEdits { can_save: true }));
    assert_eq!(pane.active_item(), Some(10));
    assert!(cx.effects().contains(&Effect::FocusItem { item_id: 10 }));

    // It is saved, and its facts change before the closing goes on.
    app.set_item(10, shows(vec![1, 2]));
    closing.finish_save(&mut pane, &app, SaveResult::Proceed, &mut cx);
    assert_eq!(closing.advance(&mut pane, &app, &items, &mut cx), CloseStep::Finished);
    assert_eq!(*pane.items(), vec![11]);
}

#[test]
fn an_item_that_is_gone_is_passed_over() {
    let mut app = AppContext::new(Autosave::Off);
    let mut pane = pane_with(&mut app, vec![(10, shows(vec![1])), (11, shows(vec![2]))]);
    let mut cx = ViewContext::new();
    let items = pane.items().clone();
    let mut closing = pane.close_all_items(&app).unwrap();
    pane.remove_item(&app, 0, false, &mut cx);
    assert_eq!(
        closing.advance(&mut pane, &app, &items, &mut cx),
        CloseStep::Save { item_ix: 0, item_id: 11 }
    );
    // It is closed by other means while it is being saved.
    pane.remove_item(&app, 0, false, &mut cx);
    closing.finish_save(&mut pane, &app, SaveResult::Proceed, &mut cx);
    assert_eq!(closing.advance(&mut pane, &app, &items, &mut cx), CloseStep::Finished);
}

fn saving(item: ItemFacts, autosave: Autosave, should_prompt: bool) -> (SaveItem<String>, usize, Vec<Effect>) {
    let mut app = AppContext::new(autosave);
    let mut pane = pane_with(&mut app, vec![(10, item), (11, facts())]);
    let mut cx = ViewContext::new();
    let saving = pane.save_item(&app, 0, 10, should_prompt, &mut cx);
    (saving, pane.active_item_index(), cx.take_effects())
}

fn check_prompt(prompt: Option<Prompt>, message: &str, answers: Vec<&str>) {
    let prompt = prompt.unwrap();
    assert_eq!(prompt.level, PromptLevel::Warning);
    assert_eq!(prompt.message, message);
    assert_eq!(prompt.answers, answers);
}

#[test]
fn an_item_without_edits_is_not_saved() {
    let (saving, active, effects) = saving(facts(), Autosave::Off, true);
    assert!(matches!(saving, SaveItem::Finished { proceed: true }));
    assert!(saving.prompt().is_none());
    assert_eq!(active, 1);
    assert!(effects.is_empty());
}

#[test]
fn a_conflict_is_asked_about() {
    let conflict = || ItemFacts { has_conflict: true, is_dirty: true, ..facts() };
    for should_prompt in [true, false] {
        let (saving, active, effects) = saving(conflict(), Autosave::OnFocusChange, should_prompt);
        check_prompt(saving.prompt(), CONFLICT_MESSAGE, vec!["Overwrite", "Discard", "Cancel"]);
        assert_eq!(
            CONFLICT_MESSAGE,
            "This file has changed on disk since you started editing it. Do you want to overwrite it?"
        );
        assert_eq!(active, 0);
        assert!(effects.contains(&Effect::FocusItem { item_id: 10 }));
    }
    let answer = |answer| saving(conflict(), Autosave::Off, true).0.answered(answer);
    assert!(matches!(answer(Some(0)), SaveItem::Save));
    assert!(matches!(answer(Some(1)), SaveItem::Reload));
    assert!(matches!(answer(Some(2)), SaveItem::Finished { proceed: false }));
    assert!(matches!(answer(None), SaveItem::Finished { proceed: false }));
    assert!(matches!(answer(Some(0)).performed(true), SaveItem::Finished { proceed: true }));
    assert!(matches!(answer(Some(1)).performed(false), SaveItem::Failed));
    assert_eq!(answer(Some(0)).result(), None);
    assert_eq!(answer(Some(0)).performed(true).result(), Some(SaveResult::Proceed));
    assert_eq!(answer(Some(0)).performed(false).result(), Some(SaveResult::Failed));
    assert_eq!(answer(Some(2)).result(), Some(SaveResult::Cancelled));
}

#[test]
fn edits_are_asked_about() {
    let edited = || ItemFacts { is_dirty: true, ..facts() };
    let (begun, active, _) = saving(edited(), Autosave::Off, true);
    check_prompt(begun.prompt(), DIRTY_MESSAGE, vec!["Save", "Don't Save", "Cancel"]);
    assert_eq!(DIRTY_MESSAGE, "This file contains unsaved edits. Do you want to save it?");
    assert_eq!(active, 0);
    let answer = |answer| saving(edited(), Autosave::Off, true).0.answered(answer);
    assert!(matches!(answer(Some(0)), SaveItem::Save));
    assert!(matches!(answer(Some(1)), SaveItem::Finished { proceed: true }));
    assert!(matches!(answer(Some(2)), SaveItem::Finished { proceed: false }));
    assert!(matches!(answer(None), SaveItem::Finished { proceed: false }));

    // No question is asked where none is wanted, or where leaving the item saves it.
    let (begun, active, effects) = saving(edited(), Autosave::Off, false);
    assert!(matches!(begun, SaveItem::Save));
    assert_eq!(active, 1);
    assert!(effects.is_empty());
    for autosave in [Autosave::OnFocusChange, Autosave::OnWindowChange] {
        assert!(matches!(saving(edited(), autosave, true).0, SaveItem::Save));
    }
    let delayed = Autosave::AfterDelay { milliseconds: 100 };
    assert!(matches!(saving(edited(), delayed, true).0, SaveItem::AskAboutEdits { can_save: true }));

    // A deleted file is not saved by leaving the item.
    let deleted = ItemFacts { project_entry_ids: vec![], ..edited() };
    assert!(matches!(
        saving(deleted, Autosave::OnFocusChange, true).0,
        SaveItem::AskAboutEdits { can_save: true }
    ));
}

#[test]
fn a_new_file_is_asked_for_its_path() {
    let untitled = || ItemFacts { is_dirty: true, can_save: false, is_singleton: true, ..facts() };
    let (begun, _, _) = saving(untitled(), Autosave::Off, true);
    assert!(matches!(begun, SaveItem::AskAboutEdits { can_save: false }));
    let asked = begun.answered(Some(0));
    assert!(matches!(asked, SaveItem::AskForPath));
    match asked.path_chosen(Some("new.rs".to_string())) {
        SaveItem::SaveAs { path } => assert_eq!(path, "new.rs"),
        _ => panic!("it has to be saved"),
    }
    let (begun, _, _) = saving(untitled(), Autosave::Off, false);
    assert!(matches!(begun, SaveItem::AskForPath));
    assert!(matches!(begun.path_chosen(None), SaveItem::Finished { proceed: false }));

    // Without a way to save it, the item goes through.
    let stuck = ItemFacts { is_singleton: false, ..untitled() };
    assert!(matches!(saving(stuck, Autosave::Off, true).0, SaveItem::Finished { proceed: true }));
}

#[test]
fn the_prompt_for_a_path_starts_in_the_first_worktree() {
    assert_eq!(start_directory(Some(Some("/project")), ""), "/project");
    // The first worktree is not local.
    assert_eq!(start_directory(Some(None), ""), "");
    assert_eq!(start_directory(None, ""), "");
}

#[test]
fn items_are_autosaved_only_if_that_is_safe() {
    let mut app = AppContext::new(Autosave::Off);
    let edited = || ItemFacts { is_dirty: true, ..facts() };
    let cases = [
        (edited(), true),
        (facts(), false),
        (ItemFacts { has_conflict: true, ..edited() }, false),
        (ItemFacts { can_save: false, ..edited() }, false),
        (ItemFacts { project_entry_ids: vec![], ..edited() }, false),
    ];
    for (facts, expected) in cases {
        app.set_item(10, facts);
        assert_eq!(Pane::<u32>::can_autosave_item(&app, 10), expected);
        assert_eq!(Pane::<u32>::autosave_item(&app, 10), expected);
    }
    app.remove_item(10);
    assert!(!Pane::<u32>::autosave_item(&app, 10));
}

//! Laws of saving items.

use crate::context::{AppModel, Autosave, ItemId};
use crate::pane::save::save_begun;
use crate::pane::{PaneModel, Prompt, PromptLevel, SaveItem, SaveResult, CONFLICT_MESSAGE, DIRTY_MESSAGE};
use vstd::prelude::*;

verus! {

/// An item with nothing to save goes through without a question: nothing is saved, and the
/// closing that asked for it goes on.
pub proof fn law_nothing_to_save<P>(app: AppModel, item: ItemId, should_prompt: bool)
    requires
        !app.is_dirty(item),
        !app.has_conflict(item),
    ensures
        save_begun::<P>(app, item, should_prompt) == (SaveItem::<P>::Finished { proceed: true }),
{
}

/// What has changed on disk is never overwritten without a question.
pub proof fn law_conflicts_are_asked_about<P>(app: AppModel, item: ItemId, should_prompt: bool)
    requires
        app.has_conflict(item),
    ensures
        !(save_begun::<P>(app, item, should_prompt) is Save),
        app.can_save(item) ==> save_begun::<P>(app, item, should_prompt) is AskAboutConflict,
{
}

/// The user is asked about edits exactly if that is wanted, there is a way to save them, nothing
/// more pressing is asked, and leaving the item does not save them anyway.
pub proof fn law_edits_are_asked_about<P>(app: AppModel, item: ItemId, should_prompt: bool)
    ensures
        save_begun::<P>(app, item, should_prompt) is AskAboutEdits <==> {
            &&& should_prompt
            &&& app.is_dirty(item)
            &&& app.can_save(item) || app.is_singleton(item)
            &&& !(app.has_conflict(item) && app.can_save(item))
            &&& !app.will_autosave(item)
        },
{
}

/// Only the user keeps an item open: saving never begins by giving up, and gives up exactly if a
/// question is answered by neither of its first two answers, or no path is chosen.
pub proof fn law_only_the_user_cancels<P>(
    app: AppModel,
    item: ItemId,
    should_prompt: bool,
    saving: SaveItem<P>,
    answer: Option<usize>,
    path: Option<P>,
)
    ensures
        save_begun::<P>(app, item, should_prompt) != (SaveItem::<P>::Finished { proceed: false }),
        saving.is_question() ==> (saving.after_answer(answer) == (SaveItem::<P>::Finished {
            proceed: false,
        }) <==> answer != Some(0usize) && answer != Some(1usize)),
        saving.after_path(path) == (SaveItem::<P>::Finished { proceed: false }) <==> path is None,
{
}

/// What saving an item begins with, over its facts and the settings alone.
pub proof fn law_how_saving_begins<P>(app: AppModel, item: ItemId, should_prompt: bool)
    ensures
        ({
            let begun = save_begun::<P>(app, item, should_prompt);
            if !app.items.contains_key(item) {
                begun == (SaveItem::<P>::Finished { proceed: true })
            } else {
                let facts = app.items[item];
                let leaving_saves = {
                    &&& app.autosave == Autosave::OnFocusChange || app.autosave
                        == Autosave::OnWindowChange
                    &&& facts.is_dirty
                    &&& !facts.has_conflict
                    &&& facts.can_save
                    &&& facts.project_entry_ids@.len() > 0
                };
                if facts.has_conflict && facts.can_save {
                    begun == SaveItem::<P>::AskAboutConflict
                } else if !facts.is_dirty || (!facts.can_save && !facts.is_singleton) {
                    begun == (SaveItem::<P>::Finished { proceed: true })
                } else if should_prompt && !leaving_saves {
                    begun == (SaveItem::<P>::AskAboutEdits { can_save: facts.can_save })
                } else if facts.can_save {
                    begun == SaveItem::<P>::Save
                } else {
                    begun == SaveItem::<P>::AskForPath
                }
            }
        }),
{
}

/// Which items are saved without a question, over their facts alone.
pub proof fn law_what_is_autosaved(app: AppModel, item: ItemId)
    ensures
        app.can_autosave(item) <==> {
            &&& app.items.contains_key(item)
            &&& app.items[item].is_dirty
            &&& !app.items[item].has_conflict
            &&& app.items[item].can_save
            &&& app.items[item].project_entry_ids@.len() > 0
        },
{
}

/// The answers to the question about edits, whether the item can save itself or not. The first one
/// saves them, by the item itself if it can, and under a new path otherwise. The second one ends the
/// saving with nothing saved, and the item may be closed. Any other keeps it open. Nothing is saved,
/// read again or asked for after any answer but the first.
pub proof fn law_answers_about_edits<P>(can_save: bool, answer: Option<usize>)
    ensures
        ({
            let after = (SaveItem::<P>::AskAboutEdits { can_save }).after_answer(answer);
            &&& answer == Some(0usize) && can_save ==> after == SaveItem::<P>::Save
            &&& answer == Some(0usize) && !can_save ==> after == SaveItem::<P>::AskForPath
            &&& answer == Some(1usize) ==> after == (SaveItem::<P>::Finished { proceed: true })
            &&& answer == Some(1usize) ==> after.spec_result() == Some(SaveResult::Proceed)
            &&& answer != Some(0usize) && answer != Some(1usize) ==> after.spec_result() == Some(
                SaveResult::Cancelled,
            )
            &&& answer != Some(0usize) ==> after.spec_result() is Some
            &&& answer != Some(0usize) ==> after == (SaveItem::<P>::Finished {
                proceed: answer == Some(1usize),
            })
        }),
{
}

/// The answers to the question about a conflict. The first one saves the item over what has changed,
/// the second one reads what has changed, and any other keeps the item open.
pub proof fn law_answers_about_a_conflict<P>(answer: Option<usize>)
    ensures
        ({
            let after = SaveItem::<P>::AskAboutConflict.after_answer(answer);
            &&& answer == Some(0usize) ==> after == SaveItem::<P>::Save
            &&& answer == Some(1usize) ==> after == SaveItem::<P>::Reload
            &&& answer != Some(0usize) && answer != Some(1usize) ==> after == (
            SaveItem::<P>::Finished { proceed: false })
        }),
{
}

/// A path that is chosen is the one to save under, and without one the item stays open. An attempt
/// to save ends the saving, and well only if it succeeded.
pub proof fn law_paths_and_attempts<P>(saving: SaveItem<P>, path: P, succeeded: bool)
    ensures
        saving.after_path(Some(path)) == (SaveItem::<P>::SaveAs { path }),
        saving.after_path(None) == (SaveItem::<P>::Finished { proceed: false }),
        saving.after_attempt(true) == (SaveItem::<P>::Finished { proceed: true }),
        saving.after_attempt(false) == SaveItem::<P>::Failed,
{
}

/// A saving is over exactly if it finished or failed, and its result says which, and whether the
/// item may be closed.
pub proof fn law_results_of_saving<P>(saving: SaveItem<P>)
    ensures
        saving.spec_result() == Some(SaveResult::Proceed) <==> saving == (SaveItem::<P>::Finished {
            proceed: true,
        }),
        saving.spec_result() == Some(SaveResult::Cancelled) <==> saving == (SaveItem::<
            P,
        >::Finished { proceed: false }),
        saving.spec_result() == Some(SaveResult::Failed) <==> saving == SaveItem::<P>::Failed,
{
}

/// An item that the user is asked about, in either question, is shown, as activating it would show
/// it. Otherwise nothing is done to the pane.
pub proof fn law_items_are_shown_when_asked_about<D, P>(
    pane: PaneModel<D>,
    saving: SaveItem<P>,
    index: int,
)
    ensures
        saving == SaveItem::<P>::AskAboutConflict || saving is AskAboutEdits ==> pane.save_begun(
            saving,
            index,
        ) == pane.activated(index) && pane.save_effects(saving, index) == pane.activate_effects(
            index,
            true,
            true,
        ),
        saving != SaveItem::<P>::AskAboutConflict && !(saving is AskAboutEdits)
            ==> pane.save_begun(saving, index) == pane && pane.save_effects(saving, index).len()
            == 0,
{
}

/// The user is asked a question exactly while one is waited for, with a warning. It has three answers,
/// of which the last one cancels, and what it is about does not depend on the item.
pub proof fn law_what_the_user_is_asked<P>(saving: SaveItem<P>, prompt: Option<Prompt>)
    requires
        saving.asks(prompt),
    ensures
        prompt is Some <==> saving == SaveItem::<P>::AskAboutConflict || saving is AskAboutEdits,
        prompt is Some ==> prompt->0.level == PromptLevel::Warning,
        saving == SaveItem::<P>::AskAboutConflict ==> {
            &&& prompt->0.message == CONFLICT_MESSAGE
            &&& prompt->0.answers@ == seq!["Overwrite", "Discard", "Cancel"]
        },
        saving is AskAboutEdits ==> {
            &&& prompt->0.message == DIRTY_MESSAGE
            &&& prompt->0.answers@ == seq!["Save", "Don't Save", "Cancel"]
        },
{
}

} // verus!

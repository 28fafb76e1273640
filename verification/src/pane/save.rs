//! Saving an item before it is closed, and saving it without being asked.

use super::{Pane, PaneModel};
use crate::context::{AppContext, AppModel, Autosave, ItemId};
use crate::effect::{Effect, ViewContext};
use vstd::prelude::*;

verus! {

pub const CONFLICT_MESSAGE: &'static str =
    "This file has changed on disk since you started editing it. Do you want to overwrite it?";

pub const DIRTY_MESSAGE: &'static str =
    "This file contains unsaved edits. Do you want to save it?";

/// A saving that is under way: what it waits for. `P` is the type of file paths.
pub enum SaveItem<P> {
    /// The answer to whether to overwrite what has changed on disk, for
    /// [`SaveItem::answered`].
    AskAboutConflict,
    /// The answer to whether to save, for [`SaveItem::answered`].
    AskAboutEdits { can_save: bool },
    /// The path of a new file, for [`SaveItem::path_chosen`]. The prompt for it starts in the
    /// [`start_directory`].
    AskForPath,
    /// The item saving itself, for [`SaveItem::performed`].
    Save,
    /// The item reading its file again, for [`SaveItem::performed`].
    Reload,
    /// The item saving itself under the path, for [`SaveItem::performed`].
    SaveAs { path: P },
    /// Nothing: `false` means that the user cancelled.
    Finished { proceed: bool },
    /// Nothing: the item could not save itself or read its file.
    Failed,
}

/// What came of a saving.
#[derive(Clone, Copy, PartialEq, Eq, Structural, Debug)]
pub enum SaveResult {
    /// The item was saved or discarded, or there was nothing to save.
    Proceed,
    /// The user cancelled.
    Cancelled,
    /// The item could not save itself or read its file.
    Failed,
}

/// How pressing a question is.
#[derive(Clone, Copy, PartialEq, Eq, Structural, Debug)]
pub enum PromptLevel {
    Info,
    Warning,
    Critical,
}

/// A question to the user.
pub struct Prompt {
    pub level: PromptLevel,
    pub message: &'static str,
    pub answers: Vec<&'static str>,
}

impl AppModel {
    /// Whether edits are saved by leaving the item, without a question.
    pub open spec fn will_autosave(self, item: ItemId) -> bool {
        &&& self.autosave is OnFocusChange || self.autosave is OnWindowChange
        &&& self.can_autosave(item)
    }
}

/// How edits are saved: by the item itself if it can, or else under a new path.
pub open spec fn save_edits<P>(can_save: bool) -> SaveItem<P> {
    if can_save {
        SaveItem::Save
    } else {
        SaveItem::AskForPath
    }
}

/// What saving the item waits for first.
pub open spec fn save_begun<P>(
    app: AppModel,
    item: ItemId,
    should_prompt_for_save: bool,
) -> SaveItem<P> {
    if app.has_conflict(item) && app.can_save(item) {
        SaveItem::AskAboutConflict
    } else if app.is_dirty(item) && (app.can_save(item) || app.is_singleton(item)) {
        if should_prompt_for_save && !app.will_autosave(item) {
            SaveItem::AskAboutEdits { can_save: app.can_save(item) }
        } else {
            save_edits(app.can_save(item))
        }
    } else {
        SaveItem::Finished { proceed: true }
    }
}

/// Where the prompt for a new path starts: in the first visible worktree, if there is one and
/// it is local. `first_worktree` holds its path in that case, and `empty` is the empty path.
pub fn start_directory<P>(first_worktree: Option<Option<P>>, empty: P) -> (directory: P)
    ensures
        directory == (match first_worktree {
            Some(Some(path)) => path,
            _ => empty,
        }),
{
    match first_worktree {
        Some(Some(path)) => path,
        _ => empty,
    }
}

impl<P> SaveItem<P> {
    pub open spec fn is_question(self) -> bool {
        self is AskAboutConflict || self is AskAboutEdits
    }

    /// What is waited for after the user chose the answer of this number, or none.
    pub open spec fn after_answer(self, answer: Option<usize>) -> SaveItem<P> {
        match self {
            SaveItem::AskAboutConflict => match answer {
                Some(0) => SaveItem::Save,
                Some(1) => SaveItem::Reload,
                _ => SaveItem::Finished { proceed: false },
            },
            SaveItem::AskAboutEdits { can_save } => match answer {
                Some(0) => save_edits(can_save),
                Some(1) => SaveItem::Finished { proceed: true },
                _ => SaveItem::Finished { proceed: false },
            },
            _ => self,
        }
    }

    /// What is waited for after the user chose a path for the file, or none.
    pub open spec fn after_path(self, path: Option<P>) -> SaveItem<P> {
        match path {
            Some(path) => SaveItem::SaveAs { path },
            None => SaveItem::Finished { proceed: false },
        }
    }

    /// That this is the question to ask the user, if there is one to ask.
    pub open spec fn asks(self, prompt: Option<Prompt>) -> bool {
        &&& prompt is Some <==> self.is_question()
        &&& prompt matches Some(prompt) ==> prompt.level is Warning
        &&& prompt matches Some(prompt) ==> if self is AskAboutConflict {
            &&& prompt.message == CONFLICT_MESSAGE
            &&& prompt.answers@ == seq!["Overwrite", "Discard", "Cancel"]
        } else {
            &&& prompt.message == DIRTY_MESSAGE
            &&& prompt.answers@ == seq!["Save", "Don't Save", "Cancel"]
        }
    }

    /// The question to ask the user.
    pub fn prompt(&self) -> (prompt: Option<Prompt>)
        ensures
            self.asks(prompt),
    {
        match self {
            SaveItem::AskAboutConflict => Some(
                Prompt {
                    level: PromptLevel::Warning,
                    message: CONFLICT_MESSAGE,
                    answers: vec!["Overwrite", "Discard", "Cancel"],
                },
            ),
            SaveItem::AskAboutEdits { .. } => Some(
                Prompt {
                    level: PromptLevel::Warning,
                    message: DIRTY_MESSAGE,
                    answers: vec!["Save", "Don't Save", "Cancel"],
                },
            ),
            _ => None,
        }
    }

    /// Goes on after the user chose the answer of this number, or closed the question.
    pub fn answered(self, answer: Option<usize>) -> (saving: SaveItem<P>)
        requires
            self.is_question(),
        ensures
            saving == self.after_answer(answer),
    {
        match self {
            SaveItem::AskAboutConflict => match answer {
                Some(0) => SaveItem::Save,
                Some(1) => SaveItem::Reload,
                _ => SaveItem::Finished { proceed: false },
            },
            SaveItem::AskAboutEdits { can_save } => match answer {
                Some(0) => if can_save {
                    SaveItem::Save
                } else {
                    SaveItem::AskForPath
                },
                Some(1) => SaveItem::Finished { proceed: true },
                _ => SaveItem::Finished { proceed: false },
            },
            other => other,
        }
    }

    /// Goes on after the user chose a path for the file, or none.
    pub fn path_chosen(self, path: Option<P>) -> (saving: SaveItem<P>)
        requires
            self is AskForPath,
        ensures
            saving == self.after_path(path),
    {
        match path {
            Some(path) => SaveItem::SaveAs { path },
            None => SaveItem::Finished { proceed: false },
        }
    }

    /// What is waited for after the item saved itself or read its file again, or failed to.
    pub open spec fn after_attempt(self, succeeded: bool) -> SaveItem<P> {
        if succeeded {
            SaveItem::Finished { proceed: true }
        } else {
            SaveItem::Failed
        }
    }

    /// What came of the saving, if it is over.
    pub open spec fn spec_result(self) -> Option<SaveResult> {
        match self {
            SaveItem::Finished { proceed: true } => Some(SaveResult::Proceed),
            SaveItem::Finished { proceed: false } => Some(SaveResult::Cancelled),
            SaveItem::Failed => Some(SaveResult::Failed),
            _ => None,
        }
    }

    /// Goes on after the item saved itself or read its file again, or failed to, which ends the
    /// saving.
    pub fn performed(self, succeeded: bool) -> (saving: SaveItem<P>)
        requires
            self is Save || self is Reload || self is SaveAs,
        ensures
            saving == self.after_attempt(succeeded),
    {
        if succeeded {
            SaveItem::Finished { proceed: true }
        } else {
            SaveItem::Failed
        }
    }

    /// What came of the saving, if it is over.
    pub fn result(&self) -> (result: Option<SaveResult>)
        ensures
            result == self.spec_result(),
    {
        match self {
            SaveItem::Finished { proceed } => if *proceed {
                Some(SaveResult::Proceed)
            } else {
                Some(SaveResult::Cancelled)
            },
            SaveItem::Failed => Some(SaveResult::Failed),
            _ => None,
        }
    }
}

impl<D> PaneModel<D> {
    /// The pane once saving the item at `index` has begun: it is shown if the user is asked.
    pub open spec fn save_begun<P>(self, saving: SaveItem<P>, index: int) -> Self {
        if saving.is_question() {
            self.activated(index)
        } else {
            self
        }
    }

    pub open spec fn save_effects<P>(self, saving: SaveItem<P>, index: int) -> Seq<Effect> {
        if saving.is_question() {
            self.activate_effects(index, true, true)
        } else {
            seq![]
        }
    }
}

impl<D> Pane<D> {
    /// Begins to save an item of the pane.
    ///
    /// What has changed on disk is asked about first. Edits are asked about if
    /// `should_prompt_for_save`, unless leaving the item saves them anyway. The item is
    /// activated where the user is asked.
    pub fn save_item<P>(
        &mut self,
        app: &AppContext,
        item_ix: usize,
        item: ItemId,
        should_prompt_for_save: bool,
        cx: &mut ViewContext,
    ) -> (saving: SaveItem<P>)
        ensures
            saving == save_begun::<P>(app@, item, should_prompt_for_save),
            final(self)@ == old(self)@.save_begun(saving, item_ix as int),
            final(cx)@ == old(cx)@ + old(self)@.save_effects(saving, item_ix as int),
            old(self)@.wf() ==> final(self)@.wf(),
    {
        let can_save = app.can_save(item);
        let saving = if app.has_conflict(item) && can_save {
            SaveItem::AskAboutConflict
        } else if app.is_dirty(item) && (can_save || app.is_singleton(item)) {
            let will_autosave = matches!(
                app.autosave(),
                Autosave::OnFocusChange | Autosave::OnWindowChange
            ) && Self::can_autosave_item(app, item);
            if should_prompt_for_save && !will_autosave {
                SaveItem::AskAboutEdits { can_save }
            } else if can_save {
                SaveItem::Save
            } else {
                SaveItem::AskForPath
            }
        } else {
            SaveItem::Finished { proceed: true }
        };
        if matches!(saving, SaveItem::AskAboutConflict | SaveItem::AskAboutEdits { .. }) {
            self.activate_item(item_ix, true, true, cx);
        } else {
            assert(cx@ =~= old(cx)@ + old(self)@.save_effects(saving, item_ix as int));
        }
        saving
    }

    pub fn can_autosave_item(app: &AppContext, item: ItemId) -> (result: bool)
        ensures
            result == app@.can_autosave(item),
    {
        let is_deleted = !app.has_entries(item);
        app.is_dirty(item) && !app.has_conflict(item) && app.can_save(item) && !is_deleted
    }

    /// Whether the item is to save itself now, without a question.
    pub fn autosave_item(app: &AppContext, item: ItemId) -> (save: bool)
        ensures
            save == app@.can_autosave(item),
    {
        Self::can_autosave_item(app, item)
    }
}

} // verus!

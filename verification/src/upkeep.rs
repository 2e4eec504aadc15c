//! What happens without the user: saving when idle, changes by other
//! programs, and asking git again.

use vstd::prelude::*;

use crate::buffer::{opt_text, BufferV};
use crate::document::{DocV, Document, GitBlame, GitGutter, GutterV};
use crate::effect::Effect;
use crate::files::{doc_at_path, name_or};
use crate::panels::texts;
use crate::state::{AppV, EditorApp, Ui};

verus! {

/// How long the user is idle before git is asked, in milliseconds.
pub const GIT_DELAY_MS: u64 = 500;

// ----- changes by other programs -----

impl AppV {
    /// A file was changed by another program. A document without changes is
    /// read again; one with changes is marked, and the user told.
    pub open spec fn change_noted(self, path: Seq<char>) -> AppV {
        match doc_at_path(self.documents, path, 0) {
            None => self,
            Some(i) => if self.documents[i].buffer.dirty {
                self.marked_stale(i).with_status(
                    name_or(self.documents[i].info, "<file>"@)
                        + " changed externally. Reload with Ctrl+Shift+R."@,
                )
            } else {
                self.with_reload(path)
            },
        }
    }

    pub open spec fn marked_stale(self, i: int) -> AppV {
        AppV {
            documents: self.documents.update(
                i,
                DocV { external_change: true, ..self.documents[i] },
            ),
            ..self
        }
    }

    /// The first `n` of some changes noted, one after another.
    pub open spec fn changes_noted(self, paths: Seq<Seq<char>>, n: int) -> AppV
        decreases n,
    {
        if n <= 0 {
            self
        } else {
            self.changes_noted(paths, n - 1).change_noted(paths[n - 1])
        }
    }
}

impl EditorApp {
    /// Mark the document with an index as changed by another program.
    pub fn mark_stale(&mut self, index: usize)
        requires
            old(self)@.wf(),
            index < old(self)@.documents.len(),
        ensures
            final(self)@ == old(self)@.marked_stale(index as int),
            final(self)@.wf(),
    {
        self.document_mut(index).external_change = true;
    }

    fn warn_of_change(&mut self, index: usize)
        requires
            old(self)@.wf(),
            index < old(self)@.documents.len(),
        ensures
            final(self)@ == old(self)@.marked_stale(index as int).with_status(
                name_or(old(self)@.documents[index as int].info, "<file>"@)
                    + " changed externally. Reload with Ctrl+Shift+R."@,
            ),
            final(self)@.wf(),
    {
        let mut text: String = match &self.document(index).info.name {
            Some(name) => name.clone(),
            None => "<file>".to_owned(),
        };
        text.append(" changed externally. Reload with Ctrl+Shift+R.");
        self.mark_stale(index);
        self.set_status_text(text);
    }

    fn note_change(&mut self, path: &String)
        requires
            old(self)@.wf(),
        ensures
            final(self)@ == old(self)@.change_noted(path@),
            final(self)@.wf(),
    {
        match self.find_path(path.as_str()) {
            None => {},
            Some(i) => {
                if self.document(i).is_dirty() {
                    self.warn_of_change(i);
                } else {
                    self.push_effect(Effect::ReloadFile(path.clone()));
                }
            },
        }
    }

    /// Files were changed by other programs.
    pub fn handle_external_changes(&mut self, paths: &Vec<String>)
        requires
            old(self)@.wf(),
        ensures
            final(self)@ == old(self)@.changes_noted(texts(paths@), paths@.len() as int),
            final(self)@.wf(),
    {
        let mut i: usize = 0;
        while i < paths.len()
            invariant
                i <= paths.len(),
                self@.wf(),
                self@ == old(self)@.changes_noted(texts(paths@), i as int),
            decreases paths.len() - i,
        {
            assert(texts(paths@)[i as int] == paths@[i as int]@);
            self.note_change(&paths[i]);
            i += 1;
        }
    }
}

// ----- saving when idle -----

/// The document has changes and a file to write them to.
pub open spec fn is_unsaved(d: DocV) -> bool {
    d.buffer.path is Some && d.buffer.dirty
}

/// The indices of the first `n` documents that have changes and a file.
pub open spec fn unsaved(docs: Seq<DocV>, n: int) -> Seq<usize>
    decreases n,
{
    if n <= 0 {
        seq![]
    } else if is_unsaved(docs[n - 1]) {
        unsaved(docs, n - 1).push((n - 1) as usize)
    } else {
        unsaved(docs, n - 1)
    }
}

impl AppV {
    /// The document with an index was written by the editor.
    pub open spec fn written(self, i: usize) -> AppV {
        if i < self.documents.len() {
            let d = self.documents[i as int];
            AppV {
                documents: self.documents.update(
                    i as int,
                    d.with_buffer(BufferV { dirty: false, ..d.buffer }),
                ),
                ..self
            }.with_effect(Effect::AcknowledgeWrite(i))
        } else {
            self
        }
    }

    pub open spec fn all_written(self, saved: Seq<usize>, n: int) -> AppV
        decreases n,
    {
        if n <= 0 {
            self
        } else {
            self.all_written(saved, n - 1).written(saved[n - 1])
        }
    }

    /// Some documents were written; the rest not, for this reason.
    pub open spec fn auto_saved(self, saved: Seq<usize>, error: Option<Seq<char>>) -> AppV {
        let s = self.all_written(saved, saved.len() as int);
        match error {
            Some(e) => s.with_status("Auto-save error: "@ + e),
            None => if saved.len() > 0 { s.with_status("Auto-saved."@) } else { s },
        }
    }
}

impl EditorApp {
    /// The documents that are to be written when idle, in order.
    pub fn unsaved_documents(&self) -> (r: Vec<usize>)
        ensures
            r@ == unsaved(self@.documents, self@.documents.len() as int),
    {
        let count: usize = self.doc_count();
        let mut out: Vec<usize> = Vec::new();
        let mut i: usize = 0;
        while i < count
            invariant
                i <= count == self@.documents.len(),
                out@ == unsaved(self@.documents, i as int),
            decreases count - i,
        {
            let doc: &Document = self.document(i);
            if doc.path().is_some() && doc.is_dirty() {
                out.push(i);
            }
            i += 1;
        }
        out
    }

    fn mark_written(&mut self, index: usize)
        requires
            old(self)@.wf(),
        ensures
            final(self)@ == old(self)@.written(index),
            final(self)@.wf(),
    {
        if index < self.doc_count() {
            self.document_mut(index).buffer.mark_saved();
            self.push_effect(Effect::AcknowledgeWrite(index));
            proof {
                let before = old(self)@.documents;
                assert(before[index as int].buffer.wf());
                assert forall|i: int| 0 <= i < self@.documents.len() implies (
                #[trigger] self@.documents[i]).buffer.wf() by {
                    assert(before[i].buffer.wf());
                }
            }
        }
    }

    /// Go on after the documents that were to be written were, up to the first
    /// that could not be.
    pub fn save_all_dirty(&mut self, saved: &Vec<usize>, error: Option<String>)
        requires
            old(self)@.wf(),
        ensures
            final(self)@ == old(self)@.auto_saved(saved@, opt_text(error)),
            final(self)@.wf(),
    {
        let mut i: usize = 0;
        while i < saved.len()
            invariant
                i <= saved.len(),
                self@.wf(),
                self@ == old(self)@.all_written(saved@, i as int),
            decreases saved.len() - i,
        {
            self.mark_written(saved[i]);
            i += 1;
        }
        match error {
            Some(e) => {
                let mut text: String = "Auto-save error: ".to_owned();
                text.append(e.as_str());
                self.set_status_text(text);
            },
            None => {
                if saved.len() > 0 {
                    self.set_status("Auto-saved.");
                }
            },
        }
    }

    /// Whether documents are to be written after so long without an edit.
    pub fn auto_save(&self, idle_ms: u64) -> (r: bool)
        ensures
            r == (self@.config.auto_save && idle_ms >= self@.config.auto_save_delay_ms),
    {
        self.config().auto_save && idle_ms >= self.config().auto_save_delay_ms
    }

    /// The window has the focus or not. Says whether documents are to be
    /// written because it has just lost it.
    pub fn set_window_focused(&mut self, focused: bool) -> (r: bool)
        ensures
            r == (old(self)@.ui.window_focused && !focused
                && old(self)@.config.auto_save_on_focus_change),
            final(self)@ == (AppV {
                ui: Ui { window_focused: focused, ..old(self)@.ui },
                ..old(self)@
            }),
    {
        let save: bool = self.ui().window_focused && !focused
            && self.config().auto_save_on_focus_change;
        self.ui_mut().window_focused = focused;
        save
    }
}

// ----- git -----

impl AppV {
    pub open spec fn with_gutter(self, gutter: GutterV) -> AppV {
        self.with_doc(DocV { git_gutter: gutter, ..self.doc() })
    }

    pub open spec fn gutter_toggled(self) -> AppV {
        let on = !self.doc().view.git_gutter_enabled;
        let doc = DocV {
            view: crate::document::ViewState { git_gutter_enabled: on, ..self.doc().view },
            ..self.doc()
        };
        let s = self.with_doc(doc).with_status(
            if on { "Git gutter enabled."@ } else { "Git gutter disabled."@ },
        );
        if on { s.with_effect(Effect::RefreshGutter) } else { s }
    }

    pub open spec fn blame_toggled(self) -> AppV {
        let on = !self.doc().view.git_blame_enabled;
        let doc = DocV {
            view: crate::document::ViewState { git_blame_enabled: on, ..self.doc().view },
            ..self.doc()
        };
        let s = self.with_doc(doc).config_synced().with_status(
            if on { "Git blame enabled."@ } else { "Git blame disabled."@ },
        );
        if on { s.blame_stale() } else { s }
    }

    pub open spec fn blame_stale(self) -> AppV {
        self.with_doc(
            DocV { git_blame: GitBlame { dirty: true, ..self.doc().git_blame }, ..self.doc() },
        )
    }
}

impl EditorApp {
    /// Ask git again what has changed, once the user is idle.
    pub fn maybe_refresh_git_gutter(&mut self, idle_ms: u64)
        requires
            old(self)@.wf(),
        ensures
            final(self)@ == (if old(self)@.doc().view.git_gutter_enabled
                && old(self)@.doc().git_gutter.dirty && idle_ms >= GIT_DELAY_MS {
                old(self)@.with_effect(Effect::RefreshGutter)
            } else {
                old(self)@
            }),
            final(self)@.wf(),
    {
        let doc: &Document = self.active_doc();
        if doc.view.git_gutter_enabled && doc.git_gutter.dirty && idle_ms >= GIT_DELAY_MS {
            self.push_effect(Effect::RefreshGutter);
        }
    }

    /// Ask git again who wrote the lines, once the user is idle.
    pub fn maybe_refresh_git_blame(&mut self, idle_ms: u64)
        requires
            old(self)@.wf(),
        ensures
            final(self)@ == (if old(self)@.doc().view.git_blame_enabled
                && old(self)@.doc().git_blame.dirty && idle_ms >= GIT_DELAY_MS {
                old(self)@.with_effect(Effect::RefreshBlame)
            } else {
                old(self)@
            }),
            final(self)@.wf(),
    {
        let doc: &Document = self.active_doc();
        if doc.view.git_blame_enabled && doc.git_blame.dirty && idle_ms >= GIT_DELAY_MS {
            self.push_effect(Effect::RefreshBlame);
        }
    }

    /// Take over what git says of the active document.
    pub fn gutter_refreshed(&mut self, enabled: bool, hunks: Vec<usize>)
        requires
            old(self)@.wf(),
        ensures
            final(self)@ == old(self)@.with_gutter(
                GutterV { enabled, dirty: false, hunks: hunks@ },
            ),
            final(self)@.wf(),
    {
        self.active_doc_mut().git_gutter = GitGutter { enabled, dirty: false, hunks };
    }

    /// Git was asked who wrote the lines of the active document.
    pub fn blame_refreshed(&mut self, enabled: bool)
        requires
            old(self)@.wf(),
        ensures
            final(self)@ == old(self)@.with_doc(
                DocV { git_blame: GitBlame { enabled, dirty: false }, ..old(self)@.doc() },
            ),
            final(self)@.wf(),
    {
        self.active_doc_mut().git_blame = GitBlame { enabled, dirty: false };
    }

    fn show_gutter(&mut self, on: bool)
        requires
            old(self)@.wf(),
        ensures
            final(self)@ == old(self)@.with_doc(
                DocV {
                    view: crate::document::ViewState {
                        git_gutter_enabled: on,
                        ..old(self)@.doc().view
                    },
                    ..old(self)@.doc()
                },
            ),
            final(self)@.wf(),
    {
        self.active_doc_mut().view.git_gutter_enabled = on;
    }

    fn show_blame(&mut self, on: bool)
        requires
            old(self)@.wf(),
        ensures
            final(self)@ == old(self)@.with_doc(
                DocV {
                    view: crate::document::ViewState {
                        git_blame_enabled: on,
                        ..old(self)@.doc().view
                    },
                    ..old(self)@.doc()
                },
            ),
            final(self)@.wf(),
    {
        self.active_doc_mut().view.git_blame_enabled = on;
    }

    fn mark_blame_stale(&mut self)
        requires
            old(self)@.wf(),
        ensures
            final(self)@ == old(self)@.blame_stale(),
            final(self)@.wf(),
    {
        self.active_doc_mut().git_blame.dirty = true;
    }

    /// Show the changes next to the lines, or no longer.
    pub fn toggle_git_gutter(&mut self)
        requires
            old(self)@.wf(),
        ensures
            final(self)@ == old(self)@.gutter_toggled(),
            final(self)@.wf(),
    {
        let on: bool = !self.active_doc().view.git_gutter_enabled;
        self.show_gutter(on);
        if on {
            self.set_status("Git gutter enabled.");
            self.push_effect(Effect::RefreshGutter);
        } else {
            self.set_status("Git gutter disabled.");
        }
    }

    /// Show who wrote the lines, or no longer.
    pub fn toggle_git_blame(&mut self)
        requires
            old(self)@.wf(),
        ensures
            final(self)@ == old(self)@.blame_toggled(),
            final(self)@.wf(),
    {
        let on: bool = !self.active_doc().view.git_blame_enabled;
        self.show_blame(on);
        self.sync_config();
        if on {
            self.set_status("Git blame enabled.");
            self.mark_blame_stale();
        } else {
            self.set_status("Git blame disabled.");
        }
    }
}

} // verus!

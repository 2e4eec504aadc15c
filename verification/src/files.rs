//! Opening, saving, reloading and closing documents.

use vstd::prelude::*;

use crate::buffer::{BufferV, TextBuffer};
use crate::document::{blank_info, default_view, fresh_doc, with_defaults, DocInfo, DocV, Document};
use crate::effect::{Effect, SaveKind};
use crate::panels::{CloseChoice, CloseConfirm};
use crate::state::{AppV, DialogsV, EditorApp, Ui};
use crate::text::same_text;

verus! {

// ----- the language server's knowledge of documents -----

impl AppV {
    pub open spec fn lsp_opened(self) -> AppV {
        if self.doc().info.uri is Some && self.doc().info.language is Some {
            self.with_effect(Effect::LspOpen)
        } else {
            self
        }
    }

    pub open spec fn lsp_saved(self) -> AppV {
        match self.doc().info.uri {
            Some(uri) => self.with_effect(Effect::LspSave(uri)),
            None => self,
        }
    }

    pub open spec fn lsp_closed(self) -> AppV {
        match self.doc().info.uri {
            Some(uri) => self.with_effect(Effect::LspClose(uri)),
            None => self,
        }
    }

    /// The server told of a change, unless length and change mark of the text
    /// are those it was last told of. An edit that keeps both is not told.
    pub open spec fn lsp_changed(self) -> AppV {
        if self.doc().info.uri is None || self.text_sig() == self.ui.last_lsp_change_sig {
            self
        } else {
            AppV {
                ui: Ui { last_lsp_change_sig: self.text_sig(), ..self.ui },
                ..self
            }.with_effect(Effect::LspChange)
        }
    }

    /// Length and change mark of the active document.
    pub open spec fn text_sig(self) -> (usize, bool) {
        (self.buf().len() as usize, self.buf().dirty)
    }
}

impl EditorApp {
    /// The address of the active document, as language servers want it.
    pub fn active_uri(&self) -> (r: Option<String>)
        requires
            self@.wf(),
        ensures
            r == self@.doc().info.uri,
    {
        match &self.active_doc().info.uri {
            Some(uri) => Some(uri.clone()),
            None => None,
        }
    }

    /// Tell the language server of the active document.
    pub fn lsp_open_active(&mut self)
        requires
            old(self)@.wf(),
        ensures
            final(self)@ == old(self)@.lsp_opened(),
            final(self)@.wf(),
    {
        let doc: &Document = self.active_doc();
        if doc.info.uri.is_some() && doc.info.language.is_some() {
            self.push_effect(Effect::LspOpen);
        }
    }

    /// Tell the language server that the active document has changed, where its
    /// length or its change mark is another than at the last time.
    pub fn lsp_change_active(&mut self)
        requires
            old(self)@.wf(),
        ensures
            final(self)@ == old(self)@.lsp_changed(),
            final(self)@.wf(),
    {
        if !self.nothing_to_tell() {
            self.tell_change();
        }
    }

    fn nothing_to_tell(&self) -> (r: bool)
        requires
            self@.wf(),
        ensures
            r == (self@.doc().info.uri is None || self@.text_sig() == self@.ui.last_lsp_change_sig),
    {
        let known: (usize, bool) = self.ui().last_lsp_change_sig;
        let len: usize = self.active_buffer().len();
        let dirty: bool = self.active_buffer().is_dirty();
        self.active_doc().info.uri.is_none() || (known.0 == len && known.1 == dirty)
    }

    fn tell_change(&mut self)
        requires
            old(self)@.wf(),
        ensures
            final(self)@ == (AppV {
                ui: Ui { last_lsp_change_sig: old(self)@.text_sig(), ..old(self)@.ui },
                ..old(self)@
            }.with_effect(Effect::LspChange)),
            final(self)@.wf(),
    {
        let len: usize = self.active_buffer().len();
        let dirty: bool = self.active_buffer().is_dirty();
        self.ui_mut().last_lsp_change_sig = (len, dirty);
        self.push_effect(Effect::LspChange);
    }

    /// Tell the language server that the active document was saved.
    pub fn lsp_save_active(&mut self)
        requires
            old(self)@.wf(),
        ensures
            final(self)@ == old(self)@.lsp_saved(),
            final(self)@.wf(),
    {
        match self.active_uri() {
            Some(uri) => self.push_effect(Effect::LspSave(uri)),
            None => {},
        }
    }

    /// Tell the language server that the active document is closed.
    pub fn lsp_close_active(&mut self)
        requires
            old(self)@.wf(),
        ensures
            final(self)@ == old(self)@.lsp_closed(),
            final(self)@.wf(),
    {
        match self.active_uri() {
            Some(uri) => self.push_effect(Effect::LspClose(uri)),
            None => {},
        }
    }
}

// ----- tabs -----

/// A question about a document once the one with index `removed` is gone: it
/// stays with its document, and ends with it.
pub open spec fn question_after(question: Option<CloseConfirm>, removed: usize) -> Option<
    CloseConfirm,
> {
    match question {
        Some(c) => if c.doc_index == removed {
            None
        } else if c.doc_index > removed {
            Some(CloseConfirm { doc_index: (c.doc_index - 1) as usize, ..c })
        } else {
            Some(c)
        },
        None => None,
    }
}

impl AppV {
    /// An empty document at the end, with the focus on it.
    pub open spec fn with_new_doc(self, buffer: BufferV) -> AppV {
        let doc = DocV {
            id: self.fresh_id(),
            ..fresh_doc(
                buffer,
                blank_info(),
                with_defaults(default_view(), self.config.document_defaults),
            )
        };
        AppV {
            documents: self.documents.push(doc),
            active: self.documents.len() as usize,
            ..self
        }
    }

    pub open spec fn doc_created(self) -> AppV {
        self.with_effect(Effect::ResetKeymap).with_new_doc(empty_buffer()).with_status(
            "New document."@,
        ).config_synced().with_effect(Effect::WatchFiles).tree_synced()
    }

    /// The focus on the document `step` tabs to the right, around the ends.
    pub open spec fn tab_changed(self, step: int) -> AppV {
        AppV {
            active: ((self.active + step) % (self.documents.len() as int)) as usize,
            ..self
        }.with_effect(Effect::ResetKeymap).tree_synced()
    }

    /// The active document closed. With the last one the editor ends.
    pub open spec fn doc_closed(self) -> AppV {
        if self.documents.len() == 1 {
            AppV { ui: Ui { should_quit: true, ..self.ui }, ..self }.with_status(
                "Closed last document — quitting."@,
            )
        } else {
            self.lsp_closed().without_active().with_status("Closed document."@).tree_synced()
        }
    }

    /// The active document taken out; the focus goes to the one behind it, or
    /// else to the last.
    pub open spec fn without_active(self) -> AppV {
        AppV {
            documents: self.documents.remove(self.active as int),
            active: if self.active + 1 < self.documents.len() {
                self.active
            } else {
                (self.documents.len() - 2) as usize
            },
            dialogs: DialogsV {
                close_confirm: question_after(self.dialogs.close_confirm, self.active),
                ..self.dialogs
            },
            ..self
        }
    }

    /// The user asked whether to save the document before it is closed.
    pub open spec fn close_asked(self, idx: usize) -> AppV {
        AppV {
            active: idx,
            dialogs: DialogsV {
                go_to_line: None,
                close_confirm: Some(CloseConfirm { doc_index: idx, choice: CloseChoice::Save }),
                ..self.dialogs
            },
            status: None,
            ..self
        }.tree_synced()
    }

    /// The focus back where it was before a document was closed.
    pub open spec fn focus_restored(self, old_active: usize, closed: usize) -> AppV {
        if old_active != closed && self.documents.len() > 1 {
            AppV {
                active: if old_active > closed { (old_active - 1) as usize } else { old_active },
                ..self
            }
        } else {
            self
        }
    }

    /// A document closed, or the user asked if it has changes.
    pub open spec fn close_requested(self, idx: usize) -> AppV {
        if idx >= self.documents.len() {
            self
        } else if self.documents[idx as int].buffer.dirty {
            self.close_asked(idx)
        } else {
            AppV { active: idx, ..self }.doc_closed().focus_restored(
                self.active,
                idx,
            ).tree_synced()
        }
    }
}

/// A buffer without text.
pub open spec fn empty_buffer() -> BufferV {
    BufferV {
        text: seq![],
        selections: seq![crate::buffer::caret(0)],
        dirty: false,
        revision: 0,
        path: None,
        undo: seq![],
        redo: seq![],
    }
}

impl EditorApp {
    fn add_document(&mut self)
        requires
            old(self)@.wf(),
        ensures
            final(self)@ == old(self)@.with_new_doc(empty_buffer()),
            final(self)@.wf(),
    {
        let count: usize = self.doc_count();
        let info = DocInfo {
            name: None,
            language: None,
            uri: None,
            project_root: None,
            rel_path: None,
            temporary: false,
        };
        let defaults = self.config().document_defaults;
        let id: u64 = self.fresh_id();
        let mut doc = Document::new_with_defaults(TextBuffer::new(), info, defaults);
        doc.id = id;
        self.push_document(doc);
        self.set_active(count);
    }

    /// Open an empty document.
    pub fn new_document(&mut self)
        requires
            old(self)@.wf(),
        ensures
            final(self)@ == old(self)@.doc_created(),
            final(self)@.wf(),
    {
        self.push_effect(Effect::ResetKeymap);
        self.add_document();
        self.set_status("New document.");
        self.sync_config();
        self.sync_watcher();
        self.sync_project_tree_to_active();
    }

    fn focus(&mut self, index: usize)
        requires
            old(self)@.wf(),
            index < old(self)@.documents.len(),
        ensures
            final(self)@ == (AppV { active: index, ..old(self)@ }.with_effect(
                Effect::ResetKeymap,
            ).tree_synced()),
            final(self)@.wf(),
    {
        self.set_active(index);
        self.push_effect(Effect::ResetKeymap);
        self.sync_project_tree_to_active();
    }

    /// Go to the next document, from the last to the first.
    pub fn next_document(&mut self)
        requires
            old(self)@.wf(),
        ensures
            final(self)@ == old(self)@.tab_changed(1),
            final(self)@.wf(),
    {
        let count: usize = self.doc_count();
        let active: usize = self.active();
        proof {
            crate::panels::law_wrap_around(active as int, count as int);
        }
        let next: usize = if active + 1 < count { active + 1 } else { 0 };
        self.focus(next);
    }

    /// Go to the document before, from the first to the last.
    pub fn prev_document(&mut self)
        requires
            old(self)@.wf(),
        ensures
            final(self)@ == old(self)@.tab_changed(-1),
            final(self)@.wf(),
    {
        let count: usize = self.doc_count();
        let active: usize = self.active();
        proof {
            crate::panels::law_wrap_around(active as int, count as int);
            if active > 0 {
                vstd::arithmetic::div_mod::lemma_small_mod((active - 1) as nat, count as nat);
            }
        }
        let prev: usize = if active > 0 { active - 1 } else { count - 1 };
        self.focus(prev);
    }

    fn keep_question(&mut self, removed: usize)
        ensures
            final(self)@ == (AppV {
                dialogs: DialogsV {
                    close_confirm: question_after(old(self)@.dialogs.close_confirm, removed),
                    ..old(self)@.dialogs
                },
                ..old(self)@
            }),
    {
        let kept: Option<CloseConfirm> = match self.dialogs().close_confirm {
            Some(c) => {
                if c.doc_index == removed {
                    None
                } else if c.doc_index > removed {
                    Some(CloseConfirm { doc_index: c.doc_index - 1, choice: c.choice })
                } else {
                    Some(c)
                }
            },
            None => None,
        };
        self.dialogs_mut().close_confirm = kept;
    }

    fn drop_active(&mut self)
        requires
            old(self)@.wf(),
            old(self)@.documents.len() > 1,
        ensures
            final(self)@ == old(self)@.without_active(),
            final(self)@.wf(),
    {
        let count: usize = self.doc_count();
        let active: usize = self.active();
        self.remove_document(active);
        self.keep_question(active);
        if active + 1 >= count {
            self.set_active(count - 2);
        }
        proof {
            let before = old(self)@.documents;
            let after = before.remove(active as int);
            assert forall|i: int| 0 <= i < after.len() implies (#[trigger] after[i]).buffer.wf() by {
                if i < active {
                    assert(before[i].buffer.wf());
                } else {
                    assert(before[i + 1].buffer.wf());
                }
            }
        }
    }

    fn close_one_of_many(&mut self)
        requires
            old(self)@.wf(),
            old(self)@.documents.len() > 1,
        ensures
            final(self)@ == old(self)@.doc_closed(),
            final(self)@.wf(),
    {
        self.lsp_close_active();
        self.drop_active();
        self.set_status("Closed document.");
        self.sync_project_tree_to_active();
    }

    /// Close the active document at once.
    pub fn perform_close_active(&mut self)
        requires
            old(self)@.wf(),
        ensures
            final(self)@ == old(self)@.doc_closed(),
            final(self)@.wf(),
    {
        if self.doc_count() == 1 {
            self.ui_mut().should_quit = true;
            self.set_status("Closed last document — quitting.");
        } else {
            self.close_one_of_many();
        }
    }

    /// Close the active document; one with changes only after a question.
    pub fn request_close_active(&mut self)
        requires
            old(self)@.wf(),
        ensures
            final(self)@ == old(self)@.close_requested(old(self)@.active),
            final(self)@.wf(),
    {
        let active: usize = self.active();
        self.request_close_doc(active);
    }

    fn ask_before_close(&mut self, idx: usize)
        requires
            old(self)@.wf(),
            idx < old(self)@.documents.len(),
        ensures
            final(self)@ == old(self)@.close_asked(idx),
            final(self)@.wf(),
    {
        self.set_active(idx);
        let dialogs = self.dialogs_mut();
        dialogs.go_to_line = None;
        dialogs.close_confirm = Some(CloseConfirm { doc_index: idx, choice: CloseChoice::Save });
        self.clear_status();
        self.sync_project_tree_to_active();
    }

    fn restore_focus(&mut self, old_active: usize, closed: usize)
        requires
            old(self)@.wf(),
            old_active <= old(self)@.documents.len(),
            old_active != closed && old_active == old(self)@.documents.len() ==> old_active > closed,
        ensures
            final(self)@ == old(self)@.focus_restored(old_active, closed),
            final(self)@.wf(),
    {
        let count: usize = self.doc_count();
        if old_active != closed && count > 1 {
            if old_active > closed {
                self.set_active(old_active - 1);
            } else {
                self.set_active(old_active);
            }
        }
    }

    fn close_clean(&mut self, idx: usize)
        requires
            old(self)@.wf(),
            idx < old(self)@.documents.len(),
        ensures
            final(self)@ == (AppV { active: idx, ..old(self)@ }.doc_closed().focus_restored(
                old(self)@.active,
                idx,
            ).tree_synced()),
            final(self)@.wf(),
    {
        let old_active: usize = self.active();
        let count: usize = self.doc_count();
        self.set_active(idx);
        self.perform_close_active();
        proof {
            lemma_closed(AppV { active: idx, ..old(self)@ });
        }
        self.restore_focus(old_active, idx);
        self.sync_project_tree_to_active();
    }

    /// Close a document; one with changes only after a question. The focus
    /// stays on the document that had it.
    pub fn request_close_doc(&mut self, idx: usize)
        requires
            old(self)@.wf(),
        ensures
            final(self)@ == old(self)@.close_requested(idx),
            final(self)@.wf(),
    {
        if idx >= self.doc_count() {
            return;
        }
        if self.document(idx).is_dirty() {
            self.ask_before_close(idx);
        } else {
            self.close_clean(idx);
        }
    }
}

/// How many documents are left after one was closed, and which has the focus.
proof fn lemma_closed(s: AppV)
    requires
        s.active < s.documents.len(),
    ensures
        s.documents.len() == 1 ==> s.doc_closed().documents == s.documents,
        s.documents.len() > 1 ==> s.doc_closed().documents == s.documents.remove(s.active as int)
            && s.doc_closed().active == s.without_active().active,
{
}

/// Finding the document in the project tree changes no document.
proof fn lemma_tree_synced(s: AppV)
    ensures
        s.tree_synced().documents == s.documents,
        s.tree_synced().active == s.active,
{
}

/// The documents and the focus after a tab was closed that had not the focus.
proof fn lemma_other_closed(s: AppV, idx: usize)
    requires
        s.active < s.documents.len(),
        idx < s.documents.len(),
        idx != s.active,
        !s.documents[idx as int].buffer.dirty,
    ensures
        s.close_requested(idx).documents == s.documents.remove(idx as int),
        s.close_requested(idx).active == (if s.active > idx { s.active - 1 } else { s.active as int }),
{
    let t = AppV { active: idx, ..s };
    lemma_closed(t);
    let c = t.doc_closed();
    let f = c.focus_restored(s.active, idx);
    assert(f.documents == c.documents);
    assert(f.active == (if s.active > idx { s.active - 1 } else { s.active as int }));
    lemma_tree_synced(f);
    assert(s.close_requested(idx) == f.tree_synced());
}

/// Law: whatever tab is closed, the one that had the focus keeps it, if it is
/// another one and not the only one left.
pub proof fn law_close_keeps_focus(s: AppV, idx: usize)
    requires
        s.wf(),
        idx < s.documents.len(),
        idx != s.active,
        !s.documents[idx as int].buffer.dirty,
    ensures
        s.close_requested(idx).documents.len() == s.documents.len() - 1,
        s.close_requested(idx).doc() == s.doc(),
        s.close_requested(idx).wf(),
{
    lemma_other_closed(s, idx);
    let after = s.documents.remove(idx as int);
    assert forall|i: int| 0 <= i < after.len() implies (#[trigger] after[i]).buffer.wf() by {
        if i < idx {
            assert(s.documents[i].buffer.wf());
        } else {
            assert(s.documents[i + 1].buffer.wf());
        }
    }
}

/// Law: a question about a document stays with that document when another tab
/// is closed.
pub proof fn law_question_stays_with_document(s: AppV, idx: usize, c: CloseConfirm)
    requires
        s.wf(),
        s.dialogs.close_confirm == Some(c),
        c.doc_index < s.documents.len(),
        idx < s.documents.len(),
        idx != c.doc_index,
        !s.documents[idx as int].buffer.dirty,
    ensures
        s.close_requested(idx).asked_about().doc() == s.asked_about().doc(),
        s.close_requested(idx).dialogs.close_confirm matches Some(d) && d.choice == c.choice,
{
    let t = AppV { active: idx, ..s };
    lemma_closed(t);
    let after = t.doc_closed();
    let f = after.focus_restored(s.active, idx);
    lemma_tree_synced(f);
    assert(after.dialogs.close_confirm == question_after(Some(c), idx));
    assert(f.tree_synced().dialogs == f.dialogs);
    assert(s.close_requested(idx) == f.tree_synced());
}

/// Law: the next and the previous tab undo each other.
pub proof fn law_tabs_back(s: AppV)
    requires
        s.wf(),
        s.documents.len() <= usize::MAX,
    ensures
        s.tab_changed(1).tab_changed(-1).active == s.active,
        s.tab_changed(-1).tab_changed(1).active == s.active,
{
    let n = s.documents.len() as int;
    crate::panels::law_wrap_back(s.active as int, 1, n);
    crate::panels::law_wrap_back(s.active as int, -1, n);
    vstd::arithmetic::div_mod::lemma_mod_bound(s.active + 1, n);
    vstd::arithmetic::div_mod::lemma_mod_bound(s.active - 1, n);
    assert(s.tab_changed(1).active == crate::panels::wrapped(s.active as int, 1, n));
    assert(s.tab_changed(-1).active == crate::panels::wrapped(s.active as int, -1, n));
    assert(s.tab_changed(1).documents == s.documents);
    assert(s.tab_changed(-1).documents == s.documents);
}

// ----- the question before closing -----

impl AppV {
    pub open spec fn with_choice(self, confirm: Option<CloseConfirm>) -> AppV {
        AppV { dialogs: DialogsV { close_confirm: confirm, ..self.dialogs }, ..self }
    }

    pub open spec fn choice_cycled(self, delta: int) -> AppV {
        match self.dialogs.close_confirm {
            Some(c) => self.with_choice(
                Some(CloseConfirm { choice: c.choice.cycled(delta), ..c }),
            ),
            None => self,
        }
    }

    /// The focus on the document that is asked about, wherever it has gone since.
    pub open spec fn asked_about(self) -> AppV {
        match self.dialogs.close_confirm {
            Some(c) => if c.doc_index < self.documents.len() {
                AppV { active: c.doc_index, ..self }
            } else {
                self
            },
            None => self,
        }
    }

    /// The document that is asked about closed without saving it.
    pub open spec fn discarded(self) -> AppV {
        self.asked_about().with_choice(None).doc_closed()
    }

    /// What the chosen answer does.
    pub open spec fn choice_confirmed(self) -> AppV {
        match self.dialogs.close_confirm {
            None => self,
            Some(c) => match c.choice {
                CloseChoice::Save => self.asked_about().with_choice(None).save_requested(
                    SaveKind::ThenClose,
                ),
                CloseChoice::Discard => self.discarded(),
                CloseChoice::Cancel => self.close_cancelled(),
            },
        }
    }

    pub open spec fn close_cancelled(self) -> AppV {
        self.with_choice(None).with_status("Close cancelled."@)
    }

    /// The active document is to be written; without a path it cannot be.
    pub open spec fn save_requested(self, kind: SaveKind) -> AppV {
        if self.buf().path is Some {
            self.with_effect(Effect::Save(kind))
        } else {
            self.with_status("Save error: no file path"@)
        }
    }
}

impl EditorApp {
    /// Choose the next answer, or for a `delta` that is not positive the one
    /// before.
    pub fn cycle_close_choice(&mut self, delta: i32)
        ensures
            final(self)@ == old(self)@.choice_cycled(delta as int),
    {
        match self.dialogs().close_confirm {
            Some(c) => {
                let choice = c.choice.cycle(delta);
                self.dialogs_mut().close_confirm = Some(
                    CloseConfirm { doc_index: c.doc_index, choice },
                );
            },
            None => {},
        }
    }

    /// Do what the chosen answer says.
    pub fn confirm_close_choice(&mut self)
        requires
            old(self)@.wf(),
        ensures
            final(self)@ == old(self)@.choice_confirmed(),
            final(self)@.wf(),
    {
        match self.dialogs().close_confirm {
            None => {},
            Some(c) => match c.choice {
                CloseChoice::Save => self.save_then_close(),
                CloseChoice::Discard => self.discard(),
                CloseChoice::Cancel => self.cancel_close(),
            },
        }
    }

    /// Put the focus on the document that is asked about and end the question.
    fn take_question(&mut self)
        requires
            old(self)@.wf(),
        ensures
            final(self)@ == old(self)@.asked_about().with_choice(None),
            final(self)@.wf(),
    {
        match self.dialogs().close_confirm {
            Some(c) => {
                if c.doc_index < self.doc_count() {
                    self.set_active(c.doc_index);
                }
            },
            None => {},
        }
        self.dialogs_mut().close_confirm = None;
    }

    fn save_then_close(&mut self)
        requires
            old(self)@.wf(),
        ensures
            final(self)@ == old(self)@.asked_about().with_choice(None).save_requested(
                SaveKind::ThenClose,
            ),
            final(self)@.wf(),
    {
        self.take_question();
        self.request_save(SaveKind::ThenClose);
    }

    /// Close the document that was asked about without saving it.
    pub fn discard(&mut self)
        requires
            old(self)@.wf(),
        ensures
            final(self)@ == old(self)@.discarded(),
            final(self)@.wf(),
    {
        self.take_question();
        self.perform_close_active();
    }

    /// Leave the document open.
    pub fn cancel_close(&mut self)
        ensures
            final(self)@ == old(self)@.close_cancelled(),
    {
        self.dialogs_mut().close_confirm = None;
        self.set_status("Close cancelled.");
    }

    /// Have the active document written.
    pub fn request_save(&mut self, kind: SaveKind)
        requires
            old(self)@.wf(),
        ensures
            final(self)@ == old(self)@.save_requested(kind),
            final(self)@.wf(),
    {
        if self.active_doc().path().is_some() {
            self.push_effect(Effect::Save(kind));
        } else {
            self.set_status("Save error: no file path");
        }
    }
}

// ----- after a document was written -----

impl AppV {
    pub open spec fn marked_saved(self) -> AppV {
        self.with_buf(BufferV { dirty: false, ..self.buf() })
    }

    /// The active document was written because the user asked for it.
    pub open spec fn plainly_saved(self) -> AppV {
        let s = self.marked_saved().with_effect(Effect::AcknowledgeSave).with_status(
            "Saved."@,
        ).with_effect(Effect::RefreshGutter).lsp_saved().config_synced();
        if s.doc().info.uri is Some {
            s.with_effect(Effect::LspCanFormat { after_save: true })
        } else {
            s
        }
    }

    /// A formatted document was written.
    pub open spec fn formatted_saved(self) -> AppV {
        self.marked_saved().with_effect(Effect::AcknowledgeSave).with_effect(
            Effect::RefreshGutter,
        ).lsp_saved().with_status("Saved + formatted."@)
    }

    /// What follows the writing of the active document.
    pub open spec fn save_finished(self, kind: SaveKind, error: Option<Seq<char>>) -> AppV {
        match (kind, error) {
            (SaveKind::Plain, None) => self.plainly_saved(),
            (SaveKind::ThenClose, None) => self.marked_saved().with_status("Saved."@).doc_closed(),
            (SaveKind::AfterServerFormat, None) => self.formatted_saved(),
            (SaveKind::AfterFormatter, None) => self.formatted_saved(),
            (SaveKind::Plain, Some(e)) => self.with_status("Save error: "@ + e),
            (SaveKind::ThenClose, Some(e)) => self.with_status("Save error: "@ + e),
            (SaveKind::AfterServerFormat, Some(_)) => self.with_status(
                "Formatted (re-save failed)."@,
            ),
            (SaveKind::AfterFormatter, Some(_)) => self,
        }
    }
}

impl EditorApp {
    fn mark_saved(&mut self)
        requires
            old(self)@.wf(),
        ensures
            final(self)@ == old(self)@.marked_saved(),
            final(self)@.wf(),
    {
        self.active_buffer_mut().mark_saved();
    }

    fn after_plain_save(&mut self)
        requires
            old(self)@.wf(),
        ensures
            final(self)@ == old(self)@.plainly_saved(),
            final(self)@.wf(),
    {
        self.mark_saved();
        self.push_effect(Effect::AcknowledgeSave);
        self.set_status("Saved.");
        self.push_effect(Effect::RefreshGutter);
        self.lsp_save_active();
        self.sync_config();
        if self.active_doc().info.uri.is_some() {
            self.push_effect(Effect::LspCanFormat { after_save: true });
        }
    }

    fn after_formatted_save(&mut self)
        requires
            old(self)@.wf(),
        ensures
            final(self)@ == old(self)@.formatted_saved(),
            final(self)@.wf(),
    {
        self.mark_saved();
        self.push_effect(Effect::AcknowledgeSave);
        self.push_effect(Effect::RefreshGutter);
        self.lsp_save_active();
        self.set_status("Saved + formatted.");
    }

    fn after_closing_save(&mut self)
        requires
            old(self)@.wf(),
        ensures
            final(self)@ == old(self)@.marked_saved().with_status("Saved."@).doc_closed(),
            final(self)@.wf(),
    {
        self.mark_saved();
        self.set_status("Saved.");
        self.perform_close_active();
    }

    fn report_save_error(&mut self, error: &str)
        requires
            old(self)@.wf(),
        ensures
            final(self)@ == old(self)@.with_status("Save error: "@ + error@),
            final(self)@.wf(),
    {
        let mut text: String = "Save error: ".to_owned();
        text.append(error);
        self.set_status_text(text);
    }

    /// Go on after the active document was written, or could not be.
    pub fn finish_save(&mut self, kind: SaveKind, error: Option<String>)
        requires
            old(self)@.wf(),
        ensures
            final(self)@ == old(self)@.save_finished(kind, crate::buffer::opt_text(error)),
            final(self)@.wf(),
    {
        match error {
            None => match kind {
                SaveKind::Plain => self.after_plain_save(),
                SaveKind::ThenClose => self.after_closing_save(),
                SaveKind::AfterServerFormat => self.after_formatted_save(),
                SaveKind::AfterFormatter => self.after_formatted_save(),
            },
            Some(e) => match kind {
                SaveKind::Plain => self.report_save_error(e.as_str()),
                SaveKind::ThenClose => self.report_save_error(e.as_str()),
                SaveKind::AfterServerFormat => self.set_status("Formatted (re-save failed)."),
                SaveKind::AfterFormatter => {},
            },
        }
    }

    /// Save the active document under another path.
    pub fn save_as(&mut self, path: String)
        requires
            old(self)@.wf(),
        ensures
            final(self)@ == old(self)@.with_buf(
                BufferV { path: Some(path@), ..old(self)@.buf() },
            ).with_effect(Effect::DescribeFile).with_effect(
                Effect::Save(SaveKind::Plain),
            ).with_effect(Effect::WatchFiles),
            final(self)@.wf(),
    {
        self.active_buffer_mut().set_source_path(path);
        self.push_effect(Effect::DescribeFile);
        self.push_effect(Effect::Save(SaveKind::Plain));
        self.sync_watcher();
    }

    /// Take over what is known of the active document's file.
    pub fn describe_file(&mut self, info: DocInfo)
        requires
            old(self)@.wf(),
        ensures
            final(self)@ == old(self)@.with_doc(DocV { info, ..old(self)@.doc() }),
            final(self)@.wf(),
    {
        self.active_doc_mut().info = info;
    }
}

// ----- files that were read -----

/// What reading a file gave.
#[derive(Debug)]
pub enum FileContent {
    /// There is no such file.
    Missing,
    Bytes(Vec<u8>),
    /// It could not be read, for this reason.
    Unreadable(String),
}

/// The first document from `from` on that is saved to `path`.
pub open spec fn doc_at_path(docs: Seq<DocV>, path: Seq<char>, from: int) -> Option<int>
    decreases docs.len() - from,
{
    if from >= docs.len() || from < 0 {
        None
    } else if docs[from].buffer.path == Some(path) {
        Some(from)
    } else {
        doc_at_path(docs, path, from + 1)
    }
}

/// A document just read from a file. A file that does not exist is empty.
pub open spec fn read_buffer(path: Seq<char>, bytes: Seq<u8>) -> BufferV {
    BufferV { text: bytes, path: Some(path), ..empty_buffer() }
}

/// The file name of a document, or a stand-in.
pub open spec fn name_or(info: DocInfo, other: Seq<char>) -> Seq<char> {
    match info.name {
        Some(n) => n@,
        None => other,
    }
}

pub open spec fn content_bytes(content: FileContent) -> Seq<u8> {
    match content {
        FileContent::Bytes(b) => b@,
        _ => seq![],
    }
}

impl AppV {
    pub open spec fn read_doc(self, path: Seq<char>, info: DocInfo, bytes: Seq<u8>) -> DocV {
        DocV {
            id: self.fresh_id(),
            ..fresh_doc(
                read_buffer(path, bytes),
                info,
                with_defaults(default_view(), self.config.document_defaults),
            )
        }
    }

    /// A file shown in the active document.
    pub open spec fn file_opened(self, path: Seq<char>, info: DocInfo, bytes: Seq<u8>) -> AppV {
        self.with_doc(self.read_doc(path, info, bytes)).with_status(
            "Opened "@ + name_or(info, "<path>"@),
        ).with_effect(Effect::WatchFiles).lsp_opened().tree_synced()
    }

    /// A file that was asked for is shown; or why it could not be read.
    pub open spec fn file_arrived(self, path: Seq<char>, info: DocInfo, content: FileContent) -> AppV {
        match content {
            FileContent::Unreadable(e) => self.with_status("Open error: "@ + e@),
            _ => self.file_opened(path, info, content_bytes(content)),
        }
    }

    /// A document shown from disk again; or why it could not be read.
    pub open spec fn file_reread(self, path: Seq<char>, info: DocInfo, content: FileContent) -> AppV {
        match doc_at_path(self.documents, path, 0) {
            None => self,
            Some(i) => match content {
                FileContent::Unreadable(e) => self.with_status("Reload error: "@ + e@),
                _ => AppV {
                    documents: self.documents.update(
                        i,
                        self.read_doc(path, info, content_bytes(content)),
                    ),
                    ..self
                }.with_status("Reloaded "@ + name_or(info, "<file>"@) + "."@),
            },
        }
    }

    /// The document of a path with the focus; one that is not open is asked
    /// for, in a tab of its own.
    pub open spec fn switched_to(self, path: Seq<char>) -> AppV {
        match doc_at_path(self.documents, path, 0) {
            Some(i) => AppV { active: i as usize, ..self }.with_status(
                "Switched to "@ + name_or(self.documents[i].info, "<path>"@),
            ).tree_synced(),
            None => self.with_new_doc(empty_buffer()).with_load(path).with_effect(
                Effect::SyncConfig,
            ).with_effect(Effect::WatchFiles),
        }
    }

    /// The document of a path asked for again, if it is open.
    pub open spec fn reload_asked(self, path: Seq<char>) -> AppV {
        if doc_at_path(self.documents, path, 0) is Some {
            self.with_reload(path)
        } else {
            self
        }
    }
}

impl EditorApp {
    /// The document that is saved to a path.
    pub fn find_path(&self, path: &str) -> (r: Option<usize>)
        ensures
            r is None <==> doc_at_path(self@.documents, path@, 0) is None,
            r matches Some(i) ==> doc_at_path(self@.documents, path@, 0) == Some(i as int) && i
                < self@.documents.len(),
    {
        let count: usize = self.doc_count();
        let mut i: usize = 0;
        while i < count
            invariant
                i <= count == self@.documents.len(),
                doc_at_path(self@.documents, path@, i as int) == doc_at_path(
                    self@.documents,
                    path@,
                    0,
                ),
            decreases count - i,
        {
            if let Some(p) = self.document(i).path() {
                if same_text(p.as_str(), path) {
                    return Some(i);
                }
            }
            i += 1;
        }
        None
    }

    /// Ask for a file, to be shown in the active document.
    pub fn open_path(&mut self, path: String)
        ensures
            final(self)@ == old(self)@.with_load(path@),
    {
        self.push_effect(Effect::LoadFile(path));
    }

    fn show_file(&mut self, path: String, info: DocInfo, bytes: Vec<u8>)
        requires
            old(self)@.wf(),
            bytes@.len() <= isize::MAX,
        ensures
            final(self)@ == old(self)@.file_opened(path@, info, bytes@),
            final(self)@.wf(),
    {
        let mut text: String = "Opened ".to_owned();
        match &info.name {
            Some(name) => text.append(name.as_str()),
            None => text.append("<path>"),
        }
        let defaults = self.config().document_defaults;
        let buffer = TextBuffer::from_bytes_with_path(bytes, path);
        let id: u64 = self.fresh_id();
        let mut doc = Document::new_with_defaults(buffer, info, defaults);
        doc.id = id;
        self.put_document(doc);
        self.set_status_text(text);
        self.sync_watcher();
        self.lsp_open_active();
        self.sync_project_tree_to_active();
    }

    fn put_document(&mut self, doc: Document)
        requires
            old(self)@.wf(),
            doc@.buffer.wf(),
        ensures
            final(self)@ == old(self)@.with_doc(doc@),
            final(self)@.wf(),
    {
        let place = self.active_doc_mut();
        *place = doc;
    }

    /// Show a file that was asked for in the active document.
    pub fn file_loaded(&mut self, path: String, info: DocInfo, content: FileContent)
        requires
            old(self)@.wf(),
            content_bytes(content).len() <= isize::MAX,
        ensures
            final(self)@ == old(self)@.file_arrived(path@, info, content),
            final(self)@.wf(),
    {
        match content {
            FileContent::Unreadable(e) => {
                let mut text: String = "Open error: ".to_owned();
                text.append(e.as_str());
                self.set_status_text(text);
            },
            FileContent::Missing => {
                let bytes: Vec<u8> = Vec::new();
                assert(bytes@ =~= content_bytes(content));
                self.show_file(path, info, bytes);
            },
            FileContent::Bytes(bytes) => self.show_file(path, info, bytes),
        }
    }

    /// Give the focus to the document of a path, or open it in a new tab.
    pub fn open_or_switch_to_path(&mut self, path: String)
        requires
            old(self)@.wf(),
        ensures
            final(self)@ == old(self)@.switched_to(path@),
            final(self)@.wf(),
    {
        match self.find_path(path.as_str()) {
            Some(i) => self.switch_to(i),
            None => self.open_in_new_tab(path),
        }
    }

    fn switch_to(&mut self, index: usize)
        requires
            old(self)@.wf(),
            index < old(self)@.documents.len(),
        ensures
            final(self)@ == (AppV { active: index, ..old(self)@ }.with_status(
                "Switched to "@ + name_or(old(self)@.documents[index as int].info, "<path>"@),
            ).tree_synced()),
            final(self)@.wf(),
    {
        let mut text: String = "Switched to ".to_owned();
        match &self.document(index).info.name {
            Some(name) => text.append(name.as_str()),
            None => text.append("<path>"),
        }
        self.set_active(index);
        self.set_status_text(text);
        self.sync_project_tree_to_active();
    }

    fn open_in_new_tab(&mut self, path: String)
        requires
            old(self)@.wf(),
        ensures
            final(self)@ == old(self)@.with_new_doc(empty_buffer()).with_load(path@).with_effect(
                Effect::SyncConfig,
            ).with_effect(Effect::WatchFiles),
            final(self)@.wf(),
    {
        self.add_document();
        self.open_path(path);
        self.push_effect(Effect::SyncConfig);
        self.sync_watcher();
    }

    /// Ask for the file of an open document again.
    pub fn reload_document_at_path(&mut self, path: String)
        requires
            old(self)@.wf(),
        ensures
            final(self)@ == old(self)@.reload_asked(path@),
            final(self)@.wf(),
    {
        if self.find_path(path.as_str()).is_some() {
            self.push_effect(Effect::ReloadFile(path));
        }
    }

    /// Show the file of an open document as it now is on disk.
    pub fn file_reloaded(&mut self, path: String, info: DocInfo, content: FileContent)
        requires
            old(self)@.wf(),
            content_bytes(content).len() <= isize::MAX,
        ensures
            final(self)@ == old(self)@.file_reread(path@, info, content),
            final(self)@.wf(),
    {
        match self.find_path(path.as_str()) {
            None => {},
            Some(i) => match content {
                FileContent::Unreadable(e) => {
                    let mut text: String = "Reload error: ".to_owned();
                    text.append(e.as_str());
                    self.set_status_text(text);
                },
                FileContent::Missing => {
                    let bytes: Vec<u8> = Vec::new();
                    assert(bytes@ =~= content_bytes(content));
                    self.replace_document(i, path, info, bytes);
                },
                FileContent::Bytes(bytes) => self.replace_document(i, path, info, bytes),
            },
        }
    }

    fn replace_document(&mut self, index: usize, path: String, info: DocInfo, bytes: Vec<u8>)
        requires
            old(self)@.wf(),
            index < old(self)@.documents.len(),
            bytes@.len() <= isize::MAX,
        ensures
            final(self)@ == (AppV {
                documents: old(self)@.documents.update(
                    index as int,
                    old(self)@.read_doc(path@, info, bytes@),
                ),
                ..old(self)@
            }.with_status("Reloaded "@ + name_or(info, "<file>"@) + "."@)),
            final(self)@.wf(),
    {
        let mut text: String = "Reloaded ".to_owned();
        match &info.name {
            Some(name) => text.append(name.as_str()),
            None => text.append("<file>"),
        }
        text.append(".");
        let defaults = self.config().document_defaults;
        let buffer = TextBuffer::from_bytes_with_path(bytes, path);
        let id: u64 = self.fresh_id();
        let mut doc = Document::new_with_defaults(buffer, info, defaults);
        doc.id = id;
        let place = self.document_mut(index);
        *place = doc;
        self.set_status_text(text);
    }

    /// Have the active document read again.
    pub fn reload_active(&mut self)
        requires
            old(self)@.wf(),
        ensures
            final(self)@ == (if old(self)@.buf().path is Some {
                old(self)@.with_effect(Effect::ReloadActive)
            } else {
                old(self)@.with_status("No file to reload."@)
            }),
            final(self)@.wf(),
    {
        if self.active_doc().path().is_some() {
            self.push_effect(Effect::ReloadActive);
        } else {
            self.set_status("No file to reload.");
        }
    }
}

} // verus!

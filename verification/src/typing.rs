//! The events that change the text.

use vstd::prelude::*;
use vstd::utf8::*;

use crate::buffer::{BufferError, BufferV, TextBuffer};
use crate::columns::byte_len;
use crate::document::DocV;
use crate::editing::{
    auto_indent, backspaced, char_after, char_after_spec, close_of, cut_out,
    delete_left, delete_range, delete_right, delete_selections, deleted_right, heads, indent_after,
    insert_pair, matching_close, matching_open, open_of, paired, room_for, selections_deleted,
    step_over, stepped_over, type_at_carets, typed, DeleteOutcome,
};
use crate::effect::{EditMark, Effect};
use crate::line_ops::{
    delete_current_line, duplicate_at, duplicate_current_line, duplicate_text, line_deleted,
    line_duplicated, line_moved, move_current_line,
};
use crate::lines::{lemma_line_at, lemma_line_start, line_at, line_bytes, line_start, line_total};
use crate::motion::{skip_word_left, skip_word_right, word_left, word_right};
use crate::order::sorted_set;
use crate::state::{lemma_same_buf, AppV, EditorApp};

verus! {

// ----- around every edit -----

/// The place of the caret and the length of the text.
#[verifier::opaque]
pub open spec fn mark_of(b: BufferV) -> EditMark {
    let pos = b.cursor() as int;
    let line = line_at(b.text, pos);
    EditMark {
        line: line as usize,
        col: (pos - line_start(b.text, line)) as usize,
        start: b.cursor(),
        len: b.len() as usize,
    }
}

impl AppV {
    /// What follows an edit: the colors from the edited line on are forgotten,
    /// the parse is adapted, git is to be asked again and idle time starts.
    pub open spec fn edit_finished(self, mark: EditMark) -> AppV {
        let doc = DocV {
            syntax: self.doc().syntax.invalidated_from(mark.line as int),
            ..self.doc()
        };
        self.with_doc(doc.git_stale()).with_effect(
            Effect::SyntaxEdit {
                line: mark.line,
                col: mark.col,
                start: mark.start,
                delta: (self.buf().len() - mark.len) as i64,
            },
        ).with_effect(Effect::EditMade)
    }

    /// What follows an edit that may have changed any place.
    pub open spec fn rewrite_finished(self) -> AppV {
        let doc = DocV { syntax: self.doc().syntax.invalidated(), ..self.doc() };
        self.with_doc(doc.git_stale()).with_effect(Effect::Reparse).with_effect(Effect::EditMade)
    }

    pub open spec fn uncolored(self) -> AppV {
        self.with_doc(DocV { syntax: self.doc().syntax.invalidated(), ..self.doc() })
    }
}

/// A message with the reason of a failure behind it.
pub fn error_text(prefix: &str, error: BufferError) -> (r: String)
    ensures
        r@ == prefix@ + error.message_spec(),
{
    let mut text: String = prefix.to_owned();
    text.append(error.message());
    text
}

impl EditorApp {
    pub fn edit_mark(&self) -> (r: EditMark)
        requires
            self@.wf(),
        ensures
            r == mark_of(self@.buf()),
    {
        proof {
            reveal(mark_of);
        }
        let buffer: &TextBuffer = self.active_buffer();
        let start: usize = buffer.cursor();
        let len: usize = buffer.len();
        match buffer.pos_to_linecol(start) {
            Some((line, col)) => EditMark { line, col, start, len },
            None => EditMark { line: 0, col: 0, start, len },
        }
    }

    /// What follows an edit.
    pub fn finish_edit(&mut self, mark: EditMark)
        requires
            old(self)@.wf(),
        ensures
            final(self)@ == old(self)@.edit_finished(mark),
            final(self)@.wf(),
    {
        let len: usize = self.active_buffer().len();
        let delta: i64 = (len as i128 - mark.len as i128) as i64;
        let doc = self.active_doc_mut();
        doc.syntax.invalidate_from(mark.line);
        doc.git_gutter.dirty = true;
        doc.git_blame.dirty = true;
        self.push_effect(
            Effect::SyntaxEdit { line: mark.line, col: mark.col, start: mark.start, delta },
        );
        self.push_effect(Effect::EditMade);
    }

    /// What follows an edit that may have changed any place.
    pub fn finish_rewrite(&mut self)
        requires
            old(self)@.wf(),
        ensures
            final(self)@ == old(self)@.rewrite_finished(),
            final(self)@.wf(),
    {
        let doc = self.active_doc_mut();
        doc.syntax.invalidate();
        doc.git_gutter.dirty = true;
        doc.git_blame.dirty = true;
        self.push_effect(Effect::Reparse);
        self.push_effect(Effect::EditMade);
    }

    pub fn uncolor_active(&mut self)
        requires
            old(self)@.wf(),
        ensures
            final(self)@ == old(self)@.uncolored(),
            final(self)@.wf(),
    {
        self.active_doc_mut().syntax.invalidate();
    }
}

// ----- typing -----

impl AppV {
    /// The selected text deleted; a selection outside the text is reported.
    #[verifier::opaque]
    pub open spec fn selection_deleted(self) -> AppV {
        let d = selections_deleted(self.buf());
        let s = self.with_buf(d.buffer);
        if d.failed {
            s.with_status("delete error: "@ + BufferError::OutOfRange.message_spec())
        } else {
            s
        }
    }

    /// Some selected text would be deleted.
    pub open spec fn deletes_selection(self) -> bool {
        selections_deleted(self.buf()).carets.len() > 0
    }

    /// There is room for `text` at every caret that is left once the selected
    /// text is deleted.
    pub open spec fn has_room(self, text: Seq<char>) -> bool {
        let b = selections_deleted(self.buf()).buffer;
        room_for(b, sorted_set(heads(b.selections)).len() as int, byte_len(text) as int)
    }

    /// `text` typed in place of the selected text. `failure` begins the
    /// message where it would become too large.
    #[verifier::opaque]
    pub open spec fn text_inserted(self, text: Seq<char>, failure: Seq<char>) -> AppV {
        let s = self.selection_deleted();
        if self.has_room(text) {
            AppV { status: None, ..s.with_buf(typed(s.buf(), encode_utf8(text))) }
        } else {
            s.with_status(failure + BufferError::TooLarge.message_spec())
        }
    }

    /// There is one caret and nothing is selected.
    pub open spec fn single_caret(self) -> bool {
        self.buf().selections.len() == 1 && self.buf().primary().anchor
            == self.buf().primary().head
    }

    /// The caret stands before the closing character that is typed.
    pub open spec fn steps_over(self, ch: char) -> bool {
        self.single_caret() && open_of(ch) is Some && char_after_spec(
            self.buf().text,
            self.buf().cursor() as int,
        ) == Some(ch)
    }

    /// A pair typed; where it would become too large, nothing.
    pub open spec fn pair_inserted(self, open: char, close: char) -> AppV {
        if room_for(self.buf(), 1, byte_len(seq![open, close]) as int) {
            AppV {
                status: None,
                ..self.with_buf(paired(self.buf(), open, close))
            }.edit_finished(mark_of(self.buf()))
        } else {
            self
        }
    }

    /// What a new line begins with: the indentation of the caret's line.
    pub open spec fn line_break(self) -> Seq<char> {
        let line = line_bytes(self.buf().text, line_at(self.buf().text, self.buf().cursor() as int));
        let v = self.doc().view;
        seq!['\n'] + indent_after(line, v.use_spaces, v.tab_width as nat)
    }

    /// A new line with the indentation of the caret's line.
    pub open spec fn line_broken(self) -> AppV {
        let s = self.text_inserted(self.line_break(), "insert error: "@);
        if self.has_room(self.line_break()) { s.edit_finished(mark_of(self.buf())) } else { s }
    }

    /// A character typed. A closing one that already stands there is stepped
    /// over, an opening one brings its partner, and a new line is indented.
    #[verifier::opaque]
    pub open spec fn char_typed(self, ch: char) -> AppV {
        if self.steps_over(ch) {
            self.with_buf(stepped_over(self.buf()))
        } else if self.single_caret() && close_of(ch) is Some {
            self.pair_inserted(ch, close_of(ch)->0)
        } else if self.single_caret() && ch == '\n' {
            self.line_broken()
        } else {
            self.text_inserted(seq![ch], "insert error: "@).edit_finished(mark_of(self.buf()))
        }
    }
}

impl EditorApp {
    /// Delete the selected text. Says whether there was any.
    pub fn delete_selection_if_any(&mut self) -> (r: bool)
        requires
            old(self)@.wf(),
        ensures
            r == old(self)@.deletes_selection(),
            final(self)@ == old(self)@.selection_deleted(),
            final(self)@.wf(),
    {
        proof {
            reveal(AppV::selection_deleted);
        }
        let outcome: DeleteOutcome = delete_selections(self.active_buffer_mut());
        if outcome.failed {
            let text: String = error_text("delete error: ", BufferError::OutOfRange);
            self.set_status_text(text);
        }
        outcome.deleted
    }

    /// Type `text` in place of the selected text.
    pub fn insert_text(&mut self, text: &str, failure: &str)
        requires
            old(self)@.wf(),
        ensures
            final(self)@ == old(self)@.text_inserted(text@, failure@),
            final(self)@.wf(),
    {
        let _ = self.try_insert(text, failure);
    }

    /// Type `text` in place of the selected text. Says whether there was room.
    fn try_insert(&mut self, text: &str, failure: &str) -> (r: bool)
        requires
            old(self)@.wf(),
        ensures
            r == old(self)@.has_room(text@),
            final(self)@ == old(self)@.text_inserted(text@, failure@),
            final(self)@.wf(),
    {
        proof {
            reveal(AppV::text_inserted);
            reveal(AppV::selection_deleted);
        }
        self.delete_selection_if_any();
        let ghost before = self@;
        match type_at_carets(self.active_buffer_mut(), text) {
            Ok(()) => {
                self.clear_status();
                true
            },
            Err(e) => {
                proof {
                    lemma_same_buf(before);
                }
                let text: String = error_text(failure, e);
                self.set_status_text(text);
                false
            },
        }
    }

    /// Type an opening character and its partner, the caret between them.
    pub fn insert_paired(&mut self, open: char, close: char)
        requires
            old(self)@.wf(),
        ensures
            final(self)@ == old(self)@.pair_inserted(open, close),
            final(self)@.wf(),
    {
        let mark: EditMark = self.edit_mark();
        if insert_pair(self.active_buffer_mut(), open, close) {
            self.clear_status();
            self.finish_edit(mark);
        } else {
            proof {
                lemma_same_buf(old(self)@);
            }
        }
    }

    fn single_caret(&self) -> (r: bool)
        requires
            self@.wf(),
        ensures
            r == self@.single_caret(),
    {
        let buffer: &TextBuffer = self.active_buffer();
        buffer.selections().len() == 1 && buffer.selection().is_collapsed()
    }

    fn break_line(&mut self)
        requires
            old(self)@.wf(),
        ensures
            final(self)@ == old(self)@.line_broken(),
            final(self)@.wf(),
    {
        let mark: EditMark = self.edit_mark();
        let buffer: &TextBuffer = self.active_buffer();
        let pos: usize = buffer.cursor();
        let line: usize = match buffer.pos_to_linecol(pos) {
            Some((line, _)) => line,
            None => 0,
        };
        let view = self.active_doc().view;
        let indent: String = auto_indent(buffer, line, view.use_spaces, view.tab_width);
        let mut text: String = String::new();
        text.push('\n');
        text.append(indent.as_str());
        assert(text@ =~= self@.line_break());
        if self.try_insert(text.as_str(), "insert error: ") {
            self.finish_edit(mark);
        }
    }

    fn type_plain(&mut self, ch: char)
        requires
            old(self)@.wf(),
        ensures
            final(self)@ == old(self)@.text_inserted(seq![ch], "insert error: "@).edit_finished(
                mark_of(old(self)@.buf()),
            ),
            final(self)@.wf(),
    {
        let mark: EditMark = self.edit_mark();
        let mut text: String = String::new();
        text.push(ch);
        assert(text@ =~= seq![ch]);
        self.insert_text(text.as_str(), "insert error: ");
        self.finish_edit(mark);
    }

    fn steps_over(&self, ch: char) -> (r: bool)
        requires
            self@.wf(),
        ensures
            r == self@.steps_over(ch),
    {
        if !self.single_caret() || matching_open(ch).is_none() {
            return false;
        }
        let pos: usize = self.active_buffer().cursor();
        match char_after(self.active_buffer(), pos) {
            Some(c) => c == ch,
            None => false,
        }
    }

    /// Type a character.
    pub fn type_char(&mut self, ch: char)
        requires
            old(self)@.wf(),
        ensures
            final(self)@ == old(self)@.char_typed(ch),
            final(self)@.wf(),
    {
        proof {
            reveal(AppV::char_typed);
        }
        if self.steps_over(ch) {
            step_over(self.active_buffer_mut());
            return;
        }
        let single: bool = self.single_caret();
        if single {
            if let Some(close) = matching_close(ch) {
                self.insert_paired(ch, close);
                return;
            }
        }
        if single && ch == '\n' {
            self.break_line();
        } else {
            self.type_plain(ch);
        }
    }
}

// ----- deleting -----

impl AppV {
    /// Backspace: the selected text deleted, or else what is left of the
    /// caret.
    #[verifier::opaque]
    pub open spec fn left_deleted(self) -> AppV {
        let s = self.selection_deleted();
        let t = if self.deletes_selection() { s } else { s.with_buf(backspaced(s.buf())) };
        t.edit_finished(mark_of(self.buf()))
    }

    /// Delete: the selected text deleted, or else what is right of the caret.
    #[verifier::opaque]
    pub open spec fn right_deleted(self) -> AppV {
        let s = self.selection_deleted();
        let t = if self.deletes_selection() { s } else { s.with_buf(deleted_right(s.buf())) };
        t.edit_finished(mark_of(self.buf()))
    }

    /// The selected text deleted, or else the word left of the caret.
    #[verifier::opaque]
    pub open spec fn word_left_deleted(self) -> AppV {
        let s = self.selection_deleted();
        let pos = s.buf().cursor() as int;
        let to = word_left(s.buf().text, pos);
        if self.deletes_selection() {
            s.edit_finished(mark_of(self.buf()))
        } else if to == pos {
            s
        } else {
            s.with_buf(cut_out(s.buf(), to, pos)).edit_finished(mark_of(self.buf()))
        }
    }

    /// The selected text deleted, or else the text up to the next word
    /// boundary.
    #[verifier::opaque]
    pub open spec fn word_right_deleted(self) -> AppV {
        let s = self.selection_deleted();
        let pos = s.buf().cursor() as int;
        let to = word_right(s.buf().text, pos);
        if self.deletes_selection() {
            s.edit_finished(mark_of(self.buf()))
        } else if to == pos {
            s
        } else if to < pos {
            s.with_status("delete error: "@ + BufferError::OutOfRange.message_spec()).edit_finished(
                mark_of(self.buf()),
            )
        } else {
            s.with_buf(cut_out(s.buf(), pos, to)).edit_finished(mark_of(self.buf()))
        }
    }
}

impl EditorApp {
    pub fn backspace(&mut self)
        requires
            old(self)@.wf(),
        ensures
            final(self)@ == old(self)@.left_deleted(),
            final(self)@.wf(),
    {
        proof {
            reveal(AppV::left_deleted);
        }
        let mark: EditMark = self.edit_mark();
        if !self.delete_selection_if_any() {
            delete_left(self.active_buffer_mut());
        }
        self.finish_edit(mark);
    }

    pub fn delete_forward(&mut self)
        requires
            old(self)@.wf(),
        ensures
            final(self)@ == old(self)@.right_deleted(),
            final(self)@.wf(),
    {
        proof {
            reveal(AppV::right_deleted);
        }
        let mark: EditMark = self.edit_mark();
        if !self.delete_selection_if_any() {
            delete_right(self.active_buffer_mut());
        }
        self.finish_edit(mark);
    }

    pub fn delete_previous_word(&mut self)
        requires
            old(self)@.wf(),
        ensures
            final(self)@ == old(self)@.word_left_deleted(),
            final(self)@.wf(),
    {
        proof {
            reveal(AppV::word_left_deleted);
        }
        let mark: EditMark = self.edit_mark();
        if self.delete_selection_if_any() {
            self.finish_edit(mark);
            return;
        }
        let pos: usize = self.active_buffer().cursor();
        let to: usize = skip_word_left(self.active_buffer(), pos);
        if to == pos {
            return;
        }
        delete_range(self.active_buffer_mut(), to, pos);
        self.finish_edit(mark);
    }

    pub fn delete_next_word(&mut self)
        requires
            old(self)@.wf(),
        ensures
            final(self)@ == old(self)@.word_right_deleted(),
            final(self)@.wf(),
    {
        proof {
            reveal(AppV::word_right_deleted);
        }
        let mark: EditMark = self.edit_mark();
        if self.delete_selection_if_any() {
            self.finish_edit(mark);
            return;
        }
        let pos: usize = self.active_buffer().cursor();
        let to: usize = skip_word_right(self.active_buffer(), pos);
        if to == pos {
            return;
        }
        if to < pos {
            let text: String = error_text("delete error: ", BufferError::OutOfRange);
            self.set_status_text(text);
        } else {
            delete_range(self.active_buffer_mut(), pos, to);
        }
        self.finish_edit(mark);
    }

    /// Delete the selected text, if any.
    pub fn cut_selection(&mut self)
        requires
            old(self)@.wf(),
        ensures
            final(self)@ == old(self)@.selection_deleted().edit_finished(mark_of(old(self)@.buf())),
            final(self)@.wf(),
    {
        let mark: EditMark = self.edit_mark();
        self.delete_selection_if_any();
        self.finish_edit(mark);
    }
}

// ----- lines, paste, history -----

impl AppV {
    /// A copy of the caret's line below it; a failure is reported.
    #[verifier::opaque]
    pub open spec fn duplicated(self) -> AppV {
        let b = self.buf();
        if b.can_replace(duplicate_at(b), duplicate_at(b), duplicate_text(b)) {
            self.with_buf(line_duplicated(b))
        } else {
            self.with_status("insert error: "@ + BufferError::TooLarge.message_spec())
        }
    }

    #[verifier::opaque]
    pub open spec fn undid(self) -> AppV {
        let s = self.with_buf(self.buf().undone());
        if self.buf().undo.len() > 0 { s.with_status("Undid."@) } else { s }
    }

    #[verifier::opaque]
    pub open spec fn redid(self) -> AppV {
        let s = self.with_buf(self.buf().redone());
        if self.buf().redo.len() > 0 { s.with_status("Redid."@) } else { s }
    }
}

impl EditorApp {
    pub fn delete_line(&mut self)
        requires
            old(self)@.wf(),
        ensures
            final(self)@ == old(self)@.with_buf(line_deleted(old(self)@.buf())).edit_finished(
                mark_of(old(self)@.buf()),
            ),
            final(self)@.wf(),
    {
        let mark: EditMark = self.edit_mark();
        delete_current_line(self.active_buffer_mut());
        self.finish_edit(mark);
    }

    fn copy_line(&mut self)
        requires
            old(self)@.wf(),
        ensures
            final(self)@ == old(self)@.duplicated(),
            final(self)@.wf(),
    {
        proof {
            reveal(AppV::duplicated);
        }
        proof {
            let b = self@.buf();
            lemma_line_at(b.text, b.cursor() as int);
            lemma_line_start(b.text, line_at(b.text, b.cursor() as int));
            if line_at(b.text, b.cursor() as int) + 1 < line_total(b.text) {
                lemma_line_start(b.text, line_at(b.text, b.cursor() as int) + 1);
            }
        }
        match duplicate_current_line(self.active_buffer_mut()) {
            Ok(()) => {},
            Err(e) => {
                proof {
                    lemma_same_buf(old(self)@);
                }
                let text: String = error_text("insert error: ", e);
                self.set_status_text(text);
            },
        }
    }

    pub fn duplicate_line(&mut self)
        requires
            old(self)@.wf(),
        ensures
            final(self)@ == old(self)@.duplicated().edit_finished(mark_of(old(self)@.buf())),
            final(self)@.wf(),
    {
        let mark: EditMark = self.edit_mark();
        self.copy_line();
        self.finish_edit(mark);
    }

    pub fn move_line(&mut self, up: bool)
        requires
            old(self)@.wf(),
        ensures
            final(self)@ == old(self)@.with_buf(line_moved(old(self)@.buf(), up)).edit_finished(
                mark_of(old(self)@.buf()),
            ),
            final(self)@.wf(),
    {
        let mark: EditMark = self.edit_mark();
        move_current_line(self.active_buffer_mut(), up);
        self.finish_edit(mark);
    }

    pub fn paste(&mut self, text: &str)
        requires
            old(self)@.wf(),
        ensures
            final(self)@ == old(self)@.text_inserted(text@, "paste error: "@).edit_finished(
                mark_of(old(self)@.buf()),
            ),
            final(self)@.wf(),
    {
        let mark: EditMark = self.edit_mark();
        self.insert_text(text, "paste error: ");
        self.finish_edit(mark);
    }

    pub fn undo(&mut self)
        requires
            old(self)@.wf(),
        ensures
            final(self)@ == old(self)@.undid().rewrite_finished(),
            final(self)@.wf(),
    {
        proof {
            reveal(AppV::undid);
        }
        if self.active_buffer_mut().undo() {
            self.set_status("Undid.");
        }
        self.finish_rewrite();
    }

    pub fn redo(&mut self)
        requires
            old(self)@.wf(),
        ensures
            final(self)@ == old(self)@.redid().rewrite_finished(),
            final(self)@.wf(),
    {
        proof {
            reveal(AppV::redid);
        }
        if self.active_buffer_mut().redo() {
            self.set_status("Redid.");
        }
        self.finish_rewrite();
    }
}

} // verus!

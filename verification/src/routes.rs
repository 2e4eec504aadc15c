//! Which operation each event leads to, for the proofs about events.

use vstd::prelude::*;

use crate::app::{topic_of, Topic};
use crate::event::EditorEvent;
use crate::laws::takes_edits;
use crate::line_ops::{line_deleted, line_moved};
use crate::state::AppV;
use crate::typing::mark_of;

verus! {

pub proof fn lemma_text_event(s: AppV, event: EditorEvent)
    requires
        takes_edits(s),
        topic_of(event) == Topic::Text,
    ensures
        s.after(event) == s.text_event(event),
{
    reveal(AppV::after);
}

pub proof fn lemma_find_event(s: AppV, event: EditorEvent)
    requires
        takes_edits(s),
        topic_of(event) == Topic::Find,
    ensures
        s.after(event) == s.find_event(event),
{
    reveal(AppV::after);
}

pub proof fn lemma_caret_event(s: AppV, event: EditorEvent)
    requires
        takes_edits(s),
        topic_of(event) == Topic::Carets,
    ensures
        s.after(event) == s.caret_event(event),
{
    reveal(AppV::after);
}

pub proof fn lemma_replace_one(s: AppV)
    requires
        takes_edits(s),
    ensures
        s.after(EditorEvent::ReplaceOne) == s.replace_asked(),
{
    lemma_text_event(s, EditorEvent::ReplaceOne);
    reveal(AppV::text_event);
}

pub proof fn lemma_replace_all(s: AppV)
    requires
        takes_edits(s),
    ensures
        s.after(EditorEvent::ReplaceAll) == s.replace_all_asked(),
{
    lemma_text_event(s, EditorEvent::ReplaceAll);
    reveal(AppV::text_event);
}

pub proof fn lemma_toggle_comment(s: AppV)
    requires
        takes_edits(s),
    ensures
        s.after(EditorEvent::ToggleComment) == s.comment_asked(),
{
    lemma_text_event(s, EditorEvent::ToggleComment);
    reveal(AppV::text_event);
}

pub proof fn lemma_insert(s: AppV, ch: char)
    requires
        takes_edits(s),
    ensures
        s.after(EditorEvent::Insert(ch)) == s.char_typed(ch),
{
    lemma_text_event(s, EditorEvent::Insert(ch));
    reveal(AppV::text_event);
}

pub proof fn lemma_insert_tab(s: AppV)
    requires
        takes_edits(s),
    ensures
        s.after(EditorEvent::InsertTab) == s.tab_typed(),
{
    lemma_text_event(s, EditorEvent::InsertTab);
    reveal(AppV::text_event);
}

pub proof fn lemma_paste(s: AppV, text: String)
    requires
        takes_edits(s),
    ensures
        s.after(EditorEvent::Paste(text)) == s.text_inserted(
            text@,
            "paste error: "@,
        ).edit_finished(mark_of(s.buf())),
{
    lemma_text_event(s, EditorEvent::Paste(text));
    reveal(AppV::text_event);
}

pub proof fn lemma_delete_left(s: AppV)
    requires
        takes_edits(s),
    ensures
        s.after(EditorEvent::DeleteLeft) == s.left_deleted(),
{
    lemma_text_event(s, EditorEvent::DeleteLeft);
    reveal(AppV::text_event);
}

pub proof fn lemma_delete_right(s: AppV)
    requires
        takes_edits(s),
    ensures
        s.after(EditorEvent::DeleteRight) == s.right_deleted(),
{
    lemma_text_event(s, EditorEvent::DeleteRight);
    reveal(AppV::text_event);
}

pub proof fn lemma_delete_word_left(s: AppV)
    requires
        takes_edits(s),
    ensures
        s.after(EditorEvent::DeleteWordLeft) == s.word_left_deleted(),
{
    lemma_text_event(s, EditorEvent::DeleteWordLeft);
    reveal(AppV::text_event);
}

pub proof fn lemma_delete_word_right(s: AppV)
    requires
        takes_edits(s),
    ensures
        s.after(EditorEvent::DeleteWordRight) == s.word_right_deleted(),
{
    lemma_text_event(s, EditorEvent::DeleteWordRight);
    reveal(AppV::text_event);
}

pub proof fn lemma_delete_selection(s: AppV)
    requires
        takes_edits(s),
    ensures
        s.after(EditorEvent::DeleteSelection) == s.selection_deleted().edit_finished(
            mark_of(s.buf()),
        ),
{
    lemma_text_event(s, EditorEvent::DeleteSelection);
    reveal(AppV::text_event);
}

pub proof fn lemma_delete_line(s: AppV)
    requires
        takes_edits(s),
    ensures
        s.after(EditorEvent::DeleteLine) == s.with_buf(line_deleted(s.buf())).edit_finished(
            mark_of(s.buf()),
        ),
{
    lemma_text_event(s, EditorEvent::DeleteLine);
    reveal(AppV::text_event);
}

pub proof fn lemma_duplicate_line(s: AppV)
    requires
        takes_edits(s),
    ensures
        s.after(EditorEvent::DuplicateLine) == s.duplicated().edit_finished(mark_of(s.buf())),
{
    lemma_text_event(s, EditorEvent::DuplicateLine);
    reveal(AppV::text_event);
}

pub proof fn lemma_move_line_up(s: AppV)
    requires
        takes_edits(s),
    ensures
        s.after(EditorEvent::MoveLineUp) == s.with_buf(line_moved(s.buf(), true)).edit_finished(
            mark_of(s.buf()),
        ),
{
    lemma_text_event(s, EditorEvent::MoveLineUp);
    reveal(AppV::text_event);
}

pub proof fn lemma_move_line_down(s: AppV)
    requires
        takes_edits(s),
    ensures
        s.after(EditorEvent::MoveLineDown) == s.with_buf(line_moved(s.buf(), false)).edit_finished(
            mark_of(s.buf()),
        ),
{
    lemma_text_event(s, EditorEvent::MoveLineDown);
    reveal(AppV::text_event);
}

pub proof fn lemma_undo(s: AppV)
    requires
        takes_edits(s),
    ensures
        s.after(EditorEvent::Undo) == s.undid().rewrite_finished(),
{
    lemma_text_event(s, EditorEvent::Undo);
    reveal(AppV::text_event);
}

pub proof fn lemma_redo(s: AppV)
    requires
        takes_edits(s),
    ensures
        s.after(EditorEvent::Redo) == s.redid().rewrite_finished(),
{
    lemma_text_event(s, EditorEvent::Redo);
    reveal(AppV::text_event);
}

pub proof fn lemma_rename(s: AppV, new_name: String)
    requires
        takes_edits(s),
    ensures
        s.after(EditorEvent::RenameApply { new_name }) == s.rename_asked(new_name).edit_finished(
            mark_of(s.buf()),
        ),
{
    lemma_text_event(s, EditorEvent::RenameApply { new_name });
    reveal(AppV::text_event);
}

pub proof fn lemma_format(s: AppV)
    requires
        takes_edits(s),
    ensures
        s.after(EditorEvent::FormatDocument) == s.format_asked(),
{
    lemma_text_event(s, EditorEvent::FormatDocument);
    reveal(AppV::text_event);
}

} // verus!

//! What events do to the revisions of the texts, and so to previews.

use vstd::prelude::*;
use vstd::utf8::*;

use crate::app::{topic_of, Topic};
use crate::buffer::{BufferV, Selection};
use crate::document::DocV;
use crate::editing::{
    deletion_order, deletions, heads, indent_unit, inserted_at_all, selections_deleted, typed,
};
use crate::event::{modifies_text, works_on_table, EditorEvent};
use crate::laws::{law_only_edits_change_text, same_texts};
use crate::line_ops::{line_deleted, line_moved};
use crate::order::sorted_set;
use crate::previews::{
    law_closed_document_keeps_previews_true, law_moving_on_keeps_previews_true,
    law_new_document_keeps_previews_true, law_switching_keeps_previews_true, moved_on,
};
use crate::state::AppV;
use crate::typing::mark_of;

verus! {

// ----- texts -----

/// `after` is `before`, or what it became by some of at most `n` edits.
pub open spec fn within(before: BufferV, after: BufferV, n: int) -> bool {
    &&& moved_on(before, after)
    &&& after.revision <= before.revision + n
}

/// As many edits as an event makes at the most: each selection deleted, then
/// an insertion at each caret that is left; or one edit of another sort.
pub open spec fn most_edits(b: BufferV) -> nat {
    deletion_order(b.selections).len() + sorted_set(
        heads(selections_deleted(b).buffer.selections),
    ).len() + 1
}

proof fn lemma_deletions_within(b: BufferV, order: Seq<Selection>, n: int)
    requires
        0 <= n,
        b.revision + n <= u64::MAX,
    ensures
        within(b, deletions(b, order, n).buffer, n),
    decreases n,
{
    if n > 0 {
        lemma_deletions_within(b, order, n - 1);
    }
}

proof fn lemma_selection_within(b: BufferV)
    requires
        b.revision + deletion_order(b.selections).len() <= u64::MAX,
    ensures
        within(
            b,
            selections_deleted(b).buffer,
            deletion_order(b.selections).len() as int,
        ),
{
    let order = deletion_order(b.selections);
    lemma_deletions_within(b, order, order.len() as int);
}

proof fn lemma_insertions_within(b: BufferV, positions: Seq<usize>, with: Seq<u8>)
    requires
        b.revision + positions.len() <= u64::MAX,
    ensures
        within(b, inserted_at_all(b, positions, with), positions.len() as int),
    decreases positions.len(),
{
    if positions.len() > 0 {
        lemma_insertions_within(
            b.inserted(positions.last() as int, with),
            positions.drop_last(),
            with,
        );
    }
}

proof fn lemma_typed_within(b: BufferV, with: Seq<u8>)
    requires
        b.revision + sorted_set(heads(b.selections)).len() <= u64::MAX,
    ensures
        within(b, typed(b, with), sorted_set(heads(b.selections)).len() as int),
{
    lemma_insertions_within(b, sorted_set(heads(b.selections)), with);
}

proof fn lemma_lines_move_on(b: BufferV)
    requires
        b.revision < u64::MAX,
    ensures
        moved_on(b, line_deleted(b)),
        moved_on(b, line_moved(b, true)),
        moved_on(b, line_moved(b, false)),
{
    reveal(line_deleted);
    reveal(line_moved);
}

// ----- documents -----

/// The same documents and previews, and every text the same or a later
/// revision.
pub open spec fn texts_moved_on(s: AppV, after: AppV) -> bool {
    &&& after.previews == s.previews
    &&& after.documents.len() == s.documents.len()
    &&& forall|i: int|
        0 <= i < s.documents.len() ==> (#[trigger] after.documents[i]).id == s.documents[i].id
            && moved_on(s.documents[i].buffer, after.documents[i].buffer)
}

/// Only the active document differs, and its text has moved on.
proof fn lemma_active_moved_on(s: AppV, after: AppV, doc: DocV)
    requires
        s.active < s.documents.len(),
        after.previews == s.previews,
        after.documents == s.documents.update(s.active as int, doc),
        doc.id == s.doc().id,
        moved_on(s.buf(), doc.buffer),
    ensures
        texts_moved_on(s, after),
{
}

spec fn edits_left(s: AppV) -> bool {
    s.active < s.documents.len() && s.buf().revision + most_edits(s.buf()) <= u64::MAX
}

/// The active document changed once, whatever was changed in it.
spec fn one_change(s: AppV, after: AppV) -> bool {
    &&& after.previews == s.previews
    &&& after.active == s.active
    &&& after.documents == s.documents.update(s.active as int, after.doc())
    &&& after.doc().id == s.doc().id
}

proof fn lemma_selection_moved_on(s: AppV)
    requires
        edits_left(s),
    ensures
        one_change(s, s.selection_deleted()),
        within(
            s.buf(),
            s.selection_deleted().buf(),
            deletion_order(s.buf().selections).len() as int,
        ),
        s.selection_deleted().buf() == selections_deleted(s.buf()).buffer,
{
    reveal(AppV::selection_deleted);
    lemma_selection_within(s.buf());
}

proof fn lemma_inserted_moved_on(s: AppV, text: Seq<char>, failure: Seq<char>)
    requires
        edits_left(s),
    ensures
        one_change(s, s.text_inserted(text, failure)),
        moved_on(s.buf(), s.text_inserted(text, failure).buf()),
{
    reveal(AppV::text_inserted);
    reveal(AppV::selection_deleted);
    let d = s.selection_deleted();
    lemma_selection_moved_on(s);
    lemma_typed_within(d.buf(), encode_utf8(text));
    assert(s.text_inserted(text, failure).documents =~= s.documents.update(
        s.active as int,
        s.text_inserted(text, failure).doc(),
    ));
}

proof fn lemma_typing_moves_on(s: AppV, ch: char)
    requires
        edits_left(s),
    ensures
        texts_moved_on(s, s.char_typed(ch)),
{
    reveal(AppV::char_typed);
    reveal(AppV::text_inserted);
    reveal(AppV::selection_deleted);
    lemma_inserted_moved_on(s, seq![ch], "insert error: "@);
    lemma_inserted_moved_on(s, s.line_break(), "insert error: "@);
    let after = s.char_typed(ch);
    assert(after.documents =~= s.documents.update(s.active as int, after.doc()));
    lemma_active_moved_on(s, after, after.doc());
}

proof fn lemma_tab_moves_on(s: AppV)
    requires
        edits_left(s),
    ensures
        texts_moved_on(s, s.tab_typed()),
{
    reveal(AppV::tab_typed);
    let v = s.doc().view;
    lemma_inserted_moved_on(
        s,
        indent_unit(v.use_spaces, v.tab_width as nat),
        "insert error: "@,
    );
    let after = s.tab_typed();
    assert(after.documents =~= s.documents.update(s.active as int, after.doc()));
    lemma_active_moved_on(s, after, after.doc());
}

proof fn lemma_paste_moves_on(s: AppV, text: Seq<char>)
    requires
        edits_left(s),
    ensures
        texts_moved_on(
            s,
            s.text_inserted(text, "paste error: "@).edit_finished(mark_of(s.buf())),
        ),
{
    reveal(AppV::text_inserted);
    reveal(AppV::selection_deleted);
    lemma_inserted_moved_on(s, text, "paste error: "@);
    let after = s.text_inserted(text, "paste error: "@).edit_finished(
        mark_of(s.buf()),
    );
    assert(after.documents =~= s.documents.update(s.active as int, after.doc()));
    lemma_active_moved_on(s, after, after.doc());
}

proof fn lemma_deletes_move_on(s: AppV)
    requires
        edits_left(s),
    ensures
        texts_moved_on(s, s.left_deleted()),
        texts_moved_on(s, s.right_deleted()),
        texts_moved_on(s, s.word_left_deleted()),
        texts_moved_on(s, s.word_right_deleted()),
        texts_moved_on(s, s.selection_deleted().edit_finished(mark_of(s.buf()))),
{
    reveal(AppV::left_deleted);
    reveal(AppV::right_deleted);
    reveal(AppV::word_left_deleted);
    reveal(AppV::word_right_deleted);
    reveal(AppV::selection_deleted);
    lemma_selection_moved_on(s);
}

proof fn lemma_answers_move_on(s: AppV, name: String)
    requires
        edits_left(s),
    ensures
        texts_moved_on(s, s.replace_asked()),
        texts_moved_on(s, s.replace_all_asked()),
        texts_moved_on(s, s.comment_asked()),
        texts_moved_on(s, s.rename_asked(name).edit_finished(mark_of(s.buf()))),
        texts_moved_on(s, s.format_asked()),
        texts_moved_on(s, s.duplicated().edit_finished(mark_of(s.buf()))),
        texts_moved_on(s, s.undid().rewrite_finished()),
        texts_moved_on(s, s.redid().rewrite_finished()),
{
    reveal(AppV::duplicated);
    reveal(AppV::undid);
    reveal(AppV::redid);
    reveal(AppV::replace_asked);
    reveal(AppV::replace_all_asked);
    reveal(AppV::comment_asked);
    reveal(AppV::rename_asked);
    reveal(AppV::format_asked);
}

proof fn lemma_line_moves_on(s: AppV, b: BufferV)
    requires
        s.active < s.documents.len(),
        moved_on(s.buf(), b),
    ensures
        texts_moved_on(s, s.with_buf(b).edit_finished(mark_of(s.buf()))),
{
}

proof fn lemma_text_event_moves_on(s: AppV, event: EditorEvent)
    requires
        edits_left(s),
        topic_of(event) == Topic::Text,
    ensures
        texts_moved_on(s, s.text_event(event)),
{
    reveal(AppV::text_event);
    lemma_lines_move_on(s.buf());
    match event {
        EditorEvent::Insert(ch) => lemma_typing_moves_on(s, ch),
        EditorEvent::InsertTab => lemma_tab_moves_on(s),
        EditorEvent::Paste(text) => lemma_paste_moves_on(s, text@),
        EditorEvent::DeleteLeft => lemma_deletes_move_on(s),
        EditorEvent::DeleteRight => lemma_deletes_move_on(s),
        EditorEvent::DeleteSelection => lemma_deletes_move_on(s),
        EditorEvent::DeleteWordLeft => lemma_deletes_move_on(s),
        EditorEvent::DeleteWordRight => lemma_deletes_move_on(s),
        EditorEvent::RenameApply { new_name } => lemma_answers_move_on(s, new_name),
        EditorEvent::DeleteLine => lemma_line_moves_on(s, line_deleted(s.buf())),
        EditorEvent::MoveLineUp => lemma_line_moves_on(s, line_moved(s.buf(), true)),
        EditorEvent::MoveLineDown => lemma_line_moves_on(s, line_moved(s.buf(), false)),
        EditorEvent::DuplicateLine => lemma_answers_move_on(s, arbitrary()),
        EditorEvent::Undo => lemma_answers_move_on(s, arbitrary()),
        EditorEvent::Redo => lemma_answers_move_on(s, arbitrary()),
        EditorEvent::ReplaceOne => lemma_answers_move_on(s, arbitrary()),
        EditorEvent::ReplaceAll => lemma_answers_move_on(s, arbitrary()),
        EditorEvent::ToggleComment => lemma_answers_move_on(s, arbitrary()),
        EditorEvent::FormatDocument => lemma_answers_move_on(s, arbitrary()),
        _ => {},
    }
}

// ----- documents that come and go -----

proof fn lemma_same_documents(s: AppV, after: AppV)
    requires
        s.previews_true(),
        after.documents == s.documents,
        after.previews == s.previews,
    ensures
        after.previews_true(),
{
}

proof fn lemma_close_keeps_previews(s: AppV)
    requires
        s.wf(),
        s.previews_true(),
    ensures
        s.file_event(EditorEvent::CloseDoc).previews_true(),
{
    reveal(AppV::file_event);
    let closed = s.close_requested(s.active);
    law_closed_document_keeps_previews_true(AppV { active: s.active, ..s });
    if s.buf().dirty {
        lemma_same_documents(s, closed);
    } else {
        lemma_same_documents(s.doc_closed(), closed);
    }
    lemma_same_documents(closed, s.file_event(EditorEvent::CloseDoc));
}

proof fn lemma_file_event_keeps_previews(s: AppV, event: EditorEvent)
    requires
        s.wf(),
        s.previews_true(),
        s.last_id() < u64::MAX,
        topic_of(event) == Topic::Files,
    ensures
        s.file_event(event).previews_true(),
{
    reveal(AppV::file_event);
    match event {
        EditorEvent::NewDoc => law_new_document_keeps_previews_true(s),
        EditorEvent::CloseDoc => lemma_close_keeps_previews(s),
        EditorEvent::ForceCloseDoc => law_closed_document_keeps_previews_true(s),
        EditorEvent::SaveAs(path) => {
            let after = s.file_event(event);
            assert(texts_moved_on(s, after));
            law_moving_on_keeps_previews_true(s, after);
        },
        _ => lemma_same_documents(s, s.file_event(event)),
    }
}

/// The same documents and previews.
spec fn same_documents(s: AppV, after: AppV) -> bool {
    after.documents == s.documents && after.previews == s.previews
}

proof fn lemma_tree_keeps_documents(s: AppV, delta: int)
    ensures
        same_documents(s, s.tree_toggled().config_synced()),
        same_documents(s, s.tree_moved(delta)),
        same_documents(s, s.tree_opened()),
{
}

proof fn lemma_search_keeps_documents(s: AppV, query: Seq<char>, delta: int, yes: bool)
    ensures
        same_documents(s, s.project_search_opened(Some(query))),
        same_documents(s, s.project_search_opened(None)),
        same_documents(s, s.project_query(query)),
        same_documents(s, s.project_search_moved(delta)),
        same_documents(s, s.result_opened()),
        same_documents(s, s.project_search_closed()),
        same_documents(s, s.project_replace_query(query)),
        same_documents(s, s.project_replace_asked()),
        same_documents(s, s.project_replace_answered(yes)),
{
}

proof fn lemma_finder_keeps_documents(s: AppV, query: Seq<char>, delta: int)
    ensures
        same_documents(s, s.finder_opened(Some(query))),
        same_documents(s, s.finder_opened(None)),
        same_documents(s, s.finder_query(query)),
        same_documents(s, s.finder_moved(delta)),
        same_documents(s, s.finder_closed()),
{
}

proof fn lemma_palette_keeps_documents(s: AppV, query: Seq<char>, delta: int)
    ensures
        same_documents(s, s.palette_opened(Some(query))),
        same_documents(s, s.palette_opened(None)),
        same_documents(s, s.palette_query(query)),
        same_documents(s, s.palette_moved(delta)),
        same_documents(s, s.command_run()),
        same_documents(s, s.palette_closed()),
{
}

proof fn lemma_panel_event_keeps_documents(s: AppV, event: EditorEvent)
    requires
        topic_of(event) == Topic::Panels,
        !(event is FuzzyFinderExecute),
    ensures
        same_documents(s, s.panel_event(event)),
{
    reveal(AppV::panel_event);
    match event {
        EditorEvent::ToggleProjectTree => lemma_tree_keeps_documents(s, 0),
        EditorEvent::ProjectTreeMove { delta } => lemma_tree_keeps_documents(s, delta as int),
        EditorEvent::ProjectTreeOpen => lemma_tree_keeps_documents(s, 0),
        EditorEvent::ProjectSearch(query) => match query {
            Some(q) => lemma_search_keeps_documents(s, q@, 0, true),
            None => lemma_search_keeps_documents(s, seq![], 0, true),
        },
        EditorEvent::ProjectSearchQueryChanged(q) => lemma_search_keeps_documents(s, q@, 0, true),
        EditorEvent::ProjectSearchMove { delta } => lemma_search_keeps_documents(
            s,
            seq![],
            delta as int,
            true,
        ),
        EditorEvent::ProjectSearchOpenResult => lemma_search_keeps_documents(s, seq![], 0, true),
        EditorEvent::ProjectSearchClose => lemma_search_keeps_documents(s, seq![], 0, true),
        EditorEvent::ProjectSearchReplaceQueryChanged(q) => lemma_search_keeps_documents(
            s,
            q@,
            0,
            true,
        ),
        EditorEvent::ProjectSearchReplaceAll => lemma_search_keeps_documents(s, seq![], 0, true),
        EditorEvent::ProjectSearchReplaceAllConfirm => lemma_search_keeps_documents(
            s,
            seq![],
            0,
            true,
        ),
        EditorEvent::ProjectSearchReplaceAllCancel => lemma_search_keeps_documents(
            s,
            seq![],
            0,
            false,
        ),
        EditorEvent::FuzzyFinder(query) => match query {
            Some(q) => lemma_finder_keeps_documents(s, q@, 0),
            None => lemma_finder_keeps_documents(s, seq![], 0),
        },
        EditorEvent::FuzzyFinderQueryChanged(q) => lemma_finder_keeps_documents(s, q@, 0),
        EditorEvent::FuzzyFinderMove { delta } => lemma_finder_keeps_documents(
            s,
            seq![],
            delta as int,
        ),
        EditorEvent::FuzzyFinderClose => lemma_finder_keeps_documents(s, seq![], 0),
        EditorEvent::CommandPalette(query) => match query {
            Some(q) => lemma_palette_keeps_documents(s, q@, 0),
            None => lemma_palette_keeps_documents(s, seq![], 0),
        },
        EditorEvent::CommandPaletteQueryChanged(q) => lemma_palette_keeps_documents(s, q@, 0),
        EditorEvent::CommandPaletteMove { delta } => lemma_palette_keeps_documents(
            s,
            seq![],
            delta as int,
        ),
        EditorEvent::CommandPaletteExecute => lemma_palette_keeps_documents(s, seq![], 0),
        EditorEvent::CommandPaletteClose => lemma_palette_keeps_documents(s, seq![], 0),
        _ => {},
    }
}

proof fn lemma_choice_keeps_previews(s: AppV)
    requires
        s.previews_true(),
        s.last_id() < u64::MAX,
    ensures
        s.file_chosen().previews_true(),
{
    reveal(AppV::file_chosen);
    if let Some(i) = s.finder_choice() {
        let closed = s.finder_closed();
        lemma_finder_keeps_documents(s, seq![], 0);
        lemma_same_documents(s, closed);
        law_switching_keeps_previews_true(closed, s.panels.fuzzy.items[i].path);
    }
}

proof fn lemma_panel_event_keeps_previews(s: AppV, event: EditorEvent)
    requires
        s.previews_true(),
        s.last_id() < u64::MAX,
        topic_of(event) == Topic::Panels,
    ensures
        s.panel_event(event).previews_true(),
{
    if event is FuzzyFinderExecute {
        lemma_choice_keeps_previews(s);
        assert(s.panel_event(event) == s.file_chosen()) by {
            reveal(AppV::panel_event);
        }
    } else {
        lemma_panel_event_keeps_documents(s, event);
        lemma_same_documents(s, s.panel_event(event));
    }
}

/// Law: whatever event comes, no two documents share a number and no preview is
/// taken for one of a text that it was not made of, while numbers and revisions
/// are left.
pub proof fn law_events_keep_previews_true(s: AppV, event: EditorEvent)
    requires
        s.wf(),
        s.previews_true(),
        s.last_id() < u64::MAX,
        s.buf().revision + most_edits(s.buf()) <= u64::MAX,
    ensures
        s.after(event).previews_true(),
{
    reveal(AppV::after);
    let topic = topic_of(event);
    if s.shows_table() && !works_on_table(event) || modifies_text(event) && s.shows_preview() {
        lemma_same_documents(s, s.after(event));
    } else if topic == Topic::Text {
        lemma_text_event_moves_on(s, event);
        law_moving_on_keeps_previews_true(s, s.after(event));
    } else if topic == Topic::Files {
        lemma_file_event_keeps_previews(s, event);
    } else if topic == Topic::Panels {
        lemma_panel_event_keeps_previews(s, event);
    } else {
        law_only_edits_change_text(s, event);
        assert(same_texts(s, s.after(event)));
        law_moving_on_keeps_previews_true(s, s.after(event));
    }
}

} // verus!

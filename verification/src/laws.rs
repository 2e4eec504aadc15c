//! What holds of the editor as a whole.

use vstd::prelude::*;
use vstd::utf8::*;

use crate::app::{is_setting, topic_of, Topic};
use crate::buffer::{caret, law_undo_restores_text, BufferError, BufferV, Selection};
use crate::document::{DocV, ViewState};
use crate::editing::{
    backspaced, close_of, cut_out, deleted_right, deletion_order, deletions, heads, indent_unit,
    inserted_at_all, paired, room_for, selected, selections_deleted, typed,
};
use crate::effect::{EditMark, Effect, EffectV};
use crate::event::{modifies_text, works_on_table, EditorEvent};
use crate::input::{outcome_of, Input, InputOutcome, Route};
use crate::line_ops::{line_deleted, line_moved};
use crate::motion::{word_left, word_right};
use crate::order::sorted_set;
use crate::search::SearchV;
use crate::session::{syntax_theme_of, theme_index};
use crate::state::AppV;
use crate::syntax::built_in_themes;
use crate::theme::{all_themes, law_themes_are_found_by_name};
use crate::typing::mark_of;

verus! {

/// Law: a document that is shown as a table or as a preview is read-only. An
/// event that would change it, or on a table any that is about the hidden
/// text, leaves every document as it is and only says so.
pub proof fn law_read_only_views(s: AppV, event: EditorEvent)
    requires
        s.shows_table() && !works_on_table(event) || s.shows_preview() && modifies_text(event),
    ensures
        s.after(event).documents == s.documents,
        s.after(event).active == s.active,
        s.after(event).effects == s.effects,
        s.after(event).status is Some,
{
    reveal(AppV::after);
}

/// The active document is shown as text: no view of it keeps an event away.
pub open spec fn takes_edits(s: AppV) -> bool {
    !s.shows_table() && !s.shows_preview()
}

// ----- what only the renderer changes -----

/// The same documents, each with its place drawn last.
pub open spec fn same_seen(a: AppV, b: AppV) -> bool {
    a.documents.len() == b.documents.len() && forall|i: int|
        0 <= i < a.documents.len() ==> (#[trigger] b.documents[i]).view.last_seen_cursor
            == a.documents[i].view.last_seen_cursor
}

/// The same documents with the same texts, in the same revision, and the same
/// previews.
pub open spec fn same_texts(a: AppV, b: AppV) -> bool {
    &&& a.previews == b.previews
    &&& a.documents.len() == b.documents.len()
    &&& forall|i: int|
        0 <= i < a.documents.len() ==> same_text_in(a.documents[i], #[trigger] b.documents[i])
}

pub open spec fn same_text_in(a: DocV, b: DocV) -> bool {
    b.id == a.id && b.buffer.text == a.buffer.text && b.buffer.revision == a.buffer.revision
}

/// Edits of the active document leave its place drawn last.
proof fn lemma_seen_steps(s: AppV, b: BufferV, mark: EditMark)
    requires
        s.active < s.documents.len(),
    ensures
        same_seen(s, s.with_buf(b)),
        s.with_buf(b).active == s.active,
        same_seen(s, s.edit_finished(mark)),
        s.edit_finished(mark).active == s.active,
        same_seen(s, s.rewrite_finished()),
        same_seen(s, s.uncolored()),
{
}

proof fn lemma_seen_insert(s: AppV, text: Seq<char>, failure: Seq<char>, mark: EditMark)
    requires
        s.active < s.documents.len(),
    ensures
        same_seen(s, s.selection_deleted()),
        s.selection_deleted().active == s.active,
        same_seen(s, s.text_inserted(text, failure)),
        s.text_inserted(text, failure).active == s.active,
        same_seen(s, s.text_inserted(text, failure).edit_finished(mark)),
{
    reveal(AppV::text_inserted);
    reveal(AppV::selection_deleted);
    let d = s.selection_deleted();
    lemma_seen_steps(s, selections_deleted(s.buf()).buffer, mark);
    lemma_seen_steps(d, typed(d.buf(), encode_utf8(text)), mark);
    lemma_seen_steps(s.text_inserted(text, failure), s.buf(), mark);
}

proof fn lemma_seen_typing(s: AppV, ch: char)
    requires
        s.active < s.documents.len(),
    ensures
        same_seen(s, s.char_typed(ch)),
{
    reveal(AppV::char_typed);
    reveal(AppV::text_inserted);
    reveal(AppV::selection_deleted);
    let m = mark_of(s.buf());
    lemma_seen_insert(s, seq![ch], "insert error: "@, m);
    let line = crate::lines::line_bytes(
        s.buf().text,
        crate::lines::line_at(s.buf().text, s.buf().cursor() as int),
    );
    let v = s.doc().view;
    lemma_seen_insert(
        s,
        seq!['\n'] + crate::editing::indent_after(line, v.use_spaces, v.tab_width as nat),
        "insert error: "@,
        m,
    );
}

proof fn lemma_seen_tab(s: AppV)
    requires
        s.active < s.documents.len(),
    ensures
        same_seen(s, s.tab_typed()),
{
    reveal(AppV::tab_typed);
    let v = s.doc().view;
    lemma_seen_insert(
        s,
        indent_unit(v.use_spaces, v.tab_width as nat),
        "insert error: "@,
        mark_of(s.buf()),
    );
    if s.can_expand() {
        let (snippet, start) = s.snippet()->0;
        assert(same_seen(s, s.snippet_expanded(snippet, start)));
    }
}

proof fn lemma_seen_deletes(s: AppV)
    requires
        s.active < s.documents.len(),
    ensures
        same_seen(s, s.left_deleted()),
        same_seen(s, s.right_deleted()),
        same_seen(s, s.word_left_deleted()),
        same_seen(s, s.word_right_deleted()),
        same_seen(s, s.selection_deleted().edit_finished(mark_of(s.buf()))),
{
    reveal(AppV::left_deleted);
    reveal(AppV::right_deleted);
    reveal(AppV::word_left_deleted);
    reveal(AppV::word_right_deleted);
    reveal(AppV::selection_deleted);
    let d = s.selection_deleted();
    lemma_seen_insert(s, seq![], seq![], mark_of(s.buf()));
    assert(same_seen(s, d));
    assert(d.active < d.documents.len());
    lemma_seen_steps(d, d.buf(), mark_of(s.buf()));
}

proof fn lemma_seen_answers(s: AppV, name: String)
    requires
        s.active < s.documents.len(),
    ensures
        same_seen(s, s.replace_asked()),
        same_seen(s, s.replace_all_asked()),
        same_seen(s, s.comment_asked()),
        same_seen(s, s.rename_asked(name).edit_finished(mark_of(s.buf()))),
        same_seen(s, s.format_asked()),
        same_seen(s, s.duplicated().edit_finished(mark_of(s.buf()))),
        same_seen(s, s.undid().rewrite_finished()),
        same_seen(s, s.redid().rewrite_finished()),
{
    reveal(AppV::duplicated);
    reveal(AppV::undid);
    reveal(AppV::redid);
    reveal(AppV::replace_asked);
    reveal(AppV::replace_all_asked);
    reveal(AppV::comment_asked);
    reveal(AppV::rename_asked);
    reveal(AppV::format_asked);
}

proof fn lemma_text_seen(s: AppV, event: EditorEvent)
    requires
        s.wf(),
        topic_of(event) == Topic::Text,
    ensures
        same_seen(s, s.text_event(event)),
{
    reveal(AppV::text_event);
    match event {
        EditorEvent::Insert(ch) => lemma_seen_typing(s, ch),
        EditorEvent::InsertTab => lemma_seen_tab(s),
        EditorEvent::Paste(text) => lemma_seen_insert(
            s,
            text@,
            "paste error: "@,
            mark_of(s.buf()),
        ),
        EditorEvent::DeleteLeft => lemma_seen_deletes(s),
        EditorEvent::DeleteRight => lemma_seen_deletes(s),
        EditorEvent::DeleteSelection => lemma_seen_deletes(s),
        EditorEvent::DeleteWordLeft => lemma_seen_deletes(s),
        EditorEvent::DeleteWordRight => lemma_seen_deletes(s),
        EditorEvent::RenameApply { new_name } => lemma_seen_answers(s, new_name),
        EditorEvent::DeleteLine => lemma_seen_line(s, line_deleted(s.buf())),
        EditorEvent::MoveLineUp => lemma_seen_line(s, line_moved(s.buf(), true)),
        EditorEvent::MoveLineDown => lemma_seen_line(
            s,
            line_moved(s.buf(), false),
        ),
        EditorEvent::DuplicateLine => lemma_seen_answers(s, arbitrary()),
        EditorEvent::Undo => lemma_seen_answers(s, arbitrary()),
        EditorEvent::Redo => lemma_seen_answers(s, arbitrary()),
        EditorEvent::ReplaceOne => lemma_seen_answers(s, arbitrary()),
        EditorEvent::ReplaceAll => lemma_seen_answers(s, arbitrary()),
        EditorEvent::ToggleComment => lemma_seen_answers(s, arbitrary()),
        EditorEvent::FormatDocument => lemma_seen_answers(s, arbitrary()),
        _ => {},
    }
}

proof fn lemma_seen_line(s: AppV, b: BufferV)
    requires
        s.active < s.documents.len(),
    ensures
        same_seen(s, s.with_buf(b).edit_finished(mark_of(s.buf()))),
{
}

proof fn lemma_caret_kept(s: AppV, event: EditorEvent)
    requires
        s.wf(),
        topic_of(event) == Topic::Carets,
    ensures
        same_seen(s, s.caret_event(event)),
        same_texts(s, s.caret_event(event)),
{
    reveal(AppV::caret_event);
}

proof fn lemma_match_kept(s: AppV, search: SearchV)
    requires
        s.active < s.documents.len(),
    ensures
        same_seen(s, s.with_search(search).at_current_match()),
        same_texts(s, s.with_search(search).at_current_match()),
{
}

proof fn lemma_find_kept(s: AppV, event: EditorEvent)
    requires
        s.wf(),
        topic_of(event) == Topic::Find,
    ensures
        same_seen(s, s.find_event(event)),
        same_texts(s, s.find_event(event)),
{
    reveal(AppV::find_event);
    match event {
        EditorEvent::FindNext => lemma_match_kept(
            s,
            s.search.moved_after(s.buf().cursor() as int),
        ),
        EditorEvent::FindPrev => lemma_match_kept(
            s,
            s.search.moved_before(s.buf().cursor() as int),
        ),
        _ => {
            assert(s.find_event(event).documents == s.documents);
        },
    }
}

proof fn lemma_setting_kept(s: AppV, event: EditorEvent)
    requires
        s.wf(),
        is_setting(event),
    ensures
        same_seen(s, s.view_event(event)),
        same_texts(s, s.view_event(event)),
{
    reveal(AppV::view_event);
    match event {
        EditorEvent::SetKeybindingMode(mode) => {
            let t = s.with_keybindings(mode);
            assert(same_seen(s, t) && same_texts(s, t));
            assert(t.config_synced().documents == t.documents);
        },
        EditorEvent::SetIndentMode { use_spaces, tab_width } => {
            let t = s.indented(use_spaces, tab_width as int);
            assert(same_seen(s, t) && same_texts(s, t));
            assert(t.config_synced().documents == t.documents);
        },
        EditorEvent::CycleIndentMode => {
            let t = s.next_indented();
            assert(same_seen(s, t) && same_texts(s, t));
            assert(t.config_synced().documents == t.documents);
        },
        EditorEvent::ToggleSoftWrap => {
            let t = s.wrap_toggled();
            assert(same_seen(s, t) && same_texts(s, t));
            assert(t.config_synced().documents == t.documents);
        },
        EditorEvent::CycleMarkdownPreview => {
            let t = s.with_markdown_mode(s.ui.markdown_preview_mode.next_spec());
            assert(t.documents == s.documents);
            assert(t.config_synced().documents == t.documents);
        },
        _ => {
            let t = s.next_themed();
            assert(same_seen(s, t) && same_texts(s, t));
            assert(t.config_synced().documents == t.documents);
        },
    }
}

proof fn lemma_view_kept(s: AppV, event: EditorEvent)
    requires
        s.wf(),
        topic_of(event) == Topic::View,
    ensures
        same_seen(s, s.view_event(event)),
        same_texts(s, s.view_event(event)),
{
    if is_setting(event) {
        lemma_setting_kept(s, event);
    } else {
        lemma_shown_kept(s, event);
    }
}

proof fn lemma_shown_kept(s: AppV, event: EditorEvent)
    requires
        s.wf(),
        topic_of(event) == Topic::View,
        !is_setting(event),
    ensures
        same_seen(s, s.view_event(event)),
        same_texts(s, s.view_event(event)),
{
    reveal(AppV::view_event);
    match event {
        EditorEvent::ToggleGitBlame => lemma_blame_kept(s),
        EditorEvent::ToggleGitGutter => lemma_gutter_kept(s),
        EditorEvent::Quit => lemma_quit_kept(s),
        EditorEvent::ScrollLeft => lemma_scroll_kept(s, s.doc().view.scroll_x_cols - 1),
        EditorEvent::ScrollRight => lemma_scroll_kept(s, s.doc().view.scroll_x_cols + 1),
        _ => {},
    }
}

proof fn lemma_scroll_kept(s: AppV, cols: int)
    requires
        s.active < s.documents.len(),
    ensures
        same_seen(s, s.scrolled(cols)),
        same_texts(s, s.scrolled(cols)),
{
}

proof fn lemma_quit_kept(s: AppV)
    ensures
        s.quit_asked().documents == s.documents,
{
}

proof fn lemma_gutter_kept(s: AppV)
    requires
        s.active < s.documents.len(),
    ensures
        same_seen(s, s.gutter_toggled()),
        same_texts(s, s.gutter_toggled()),
{
}

proof fn lemma_blame_kept(s: AppV)
    requires
        s.active < s.documents.len(),
    ensures
        same_seen(s, s.blame_toggled()),
        same_texts(s, s.blame_toggled()),
{
    let on = !s.doc().view.git_blame_enabled;
    let t = s.with_doc(
        DocV { view: ViewState { git_blame_enabled: on, ..s.doc().view }, ..s.doc() },
    );
    assert(same_seen(s, t) && same_texts(s, t));
    let u = t.config_synced();
    assert(u.documents == t.documents && u.active == t.active);
}

proof fn lemma_language_kept(s: AppV, event: EditorEvent)
    requires
        s.wf(),
        topic_of(event) == Topic::Language,
    ensures
        same_seen(s, s.language_event(event)),
        same_texts(s, s.language_event(event)),
{
    reveal(AppV::language_event);
}

/// Law: the place drawn last is not touched by an event that works on the
/// documents that are open; only the renderer sets it.
pub proof fn law_events_keep_seen_cursor(s: AppV, event: EditorEvent)
    requires
        s.wf(),
        topic_of(event) != Topic::Files,
        topic_of(event) != Topic::Panels,
    ensures
        same_seen(s, s.after(event)),
{
    reveal(AppV::after);
    match topic_of(event) {
        Topic::Text => lemma_text_seen(s, event),
        Topic::Carets => lemma_caret_kept(s, event),
        Topic::Find => lemma_find_kept(s, event),
        Topic::View => lemma_view_kept(s, event),
        Topic::Language => lemma_language_kept(s, event),
        _ => {},
    }
}

/// Law: moving, selecting, searching, settings and questions to a language
/// server change no text.
pub proof fn law_only_edits_change_text(s: AppV, event: EditorEvent)
    requires
        s.wf(),
        topic_of(event) != Topic::Text,
        topic_of(event) != Topic::Files,
        topic_of(event) != Topic::Panels,
    ensures
        same_texts(s, s.after(event)),
{
    reveal(AppV::after);
    match topic_of(event) {
        Topic::Carets => lemma_caret_kept(s, event),
        Topic::Find => lemma_find_kept(s, event),
        Topic::View => lemma_view_kept(s, event),
        Topic::Language => lemma_language_kept(s, event),
        _ => {},
    }
}

// ----- dialogs keep what is typed -----

/// Law: text that is typed while the settings or a dialog with a text field
/// are open stays there: no document changes, and nothing is left to do.
pub proof fn law_dialogs_keep_typing(s: AppV, input: Input)
    requires
        input.kind is Text,
        input.fuzzy is None,
        input.palette is None,
        input.project_search is None,
        !input.clipboard,
        !s.modal_open(),
        !s.app_shortcut(input),
        s.ui.settings_open || s.panels.fuzzy.open || s.panels.palette.open
            || s.panels.project_search.open || s.panels.symbols.open || s.search.bar_open
            || s.dialogs.rename is Some || s.lsp.completion.open || s.ui.keybindings_help_open,
    ensures
        s.routed(s.route(input), input) == s,
        outcome_of(s.route(input), input) == InputOutcome::Done,
{
    lemma_typing_is_kept(s, s.route(input), input);
}

proof fn lemma_typing_is_kept(s: AppV, route: Route, input: Input)
    requires
        input.kind is Text,
        route is Nowhere || route is Symbols || route is Completion,
    ensures
        s.routed(route, input) == s,
        outcome_of(route, input) == InputOutcome::Done,
{
}

/// Law: a prompt takes every input, and while one is up no input reaches the
/// keyboard preset or the clipboard.
pub proof fn law_prompts_come_first(s: AppV, input: Input)
    requires
        s.modal_open(),
    ensures
        s.route(input) == Route::Prompt,
        s.routed(s.route(input), input) == s.modal_input(input.kind),
        outcome_of(s.route(input), input) == InputOutcome::Done,
{
}

/// Law: quitting and closing work whatever panel or popup is open, unless a
/// prompt is up.
pub proof fn law_shortcuts_pass_panels(s: AppV, input: Input)
    requires
        !s.modal_open(),
        s.app_shortcut(input),
    ensures
        s.routed(s.route(input), input) == s.after(input.translated->0),
{
}

// ----- the time of the last edit -----

/// The program around the editor is told of an edit.
pub open spec fn edit_noted(before: AppV, after: AppV) -> bool {
    exists|i: int|
        before.effects.len() <= i < after.effects.len() && #[trigger] after.effects[i]
            == EffectV::Plain(Effect::EditMade)
}

/// The document that was active has the same text, or its edit is noted.
pub open spec fn changes_noted(before: AppV, after: AppV) -> bool {
    after.documents[before.active as int].buffer.text == before.buf().text || edit_noted(
        before,
        after,
    )
}

proof fn lemma_finished(s: AppV, t: AppV, mark: EditMark)
    requires
        t.effects == s.effects,
    ensures
        edit_noted(s, t.edit_finished(mark)),
        edit_noted(s, t.rewrite_finished()),
{
    let e = t.edit_finished(mark).effects;
    assert(e[e.len() - 1] == EffectV::Plain(Effect::EditMade));
    let r = t.rewrite_finished().effects;
    assert(r[r.len() - 1] == EffectV::Plain(Effect::EditMade));
}

/// Where nothing selected was deleted, nothing was.
proof fn lemma_nothing_deleted(b: BufferV, order: Seq<Selection>, n: int)
    ensures
        deletions(b, order, n).carets.len() == 0 ==> deletions(b, order, n).buffer == b,
    decreases n,
{
    if n > 0 {
        lemma_nothing_deleted(b, order, n - 1);
    }
}

pub proof fn lemma_kept_without_selection(s: AppV)
    requires
        s.active < s.documents.len(),
    ensures
        !s.deletes_selection() ==> s.selection_deleted().buf() == s.buf(),
        s.selection_deleted().effects == s.effects,
        s.single_caret() ==> !s.deletes_selection(),
{
    reveal(AppV::selection_deleted);
    let order = deletion_order(s.buf().selections);
    lemma_nothing_deleted(s.buf(), order, order.len() as int);
    if s.single_caret() {
        reveal_with_fuel(selected, 2);
        assert(s.buf().selections.drop_last() =~= seq![]);
        assert(selected(s.buf().selections) =~= seq![]);
        assert(order =~= seq![]);
    }
}

proof fn lemma_typing_noted(s: AppV, ch: char)
    requires
        s.active < s.documents.len(),
    ensures
        changes_noted(s, s.char_typed(ch)),
{
    reveal(AppV::char_typed);
    reveal(AppV::text_inserted);
    reveal(AppV::selection_deleted);
    let m = mark_of(s.buf());
    lemma_kept_without_selection(s);
    lemma_finished(s, s.text_inserted(seq![ch], "insert error: "@), m);
    lemma_finished(s, s.text_inserted(s.line_break(), "insert error: "@), m);
    if close_of(ch) is Some {
        let typed = AppV { status: None, ..s.with_buf(paired(s.buf(), ch, close_of(ch)->0)) };
        lemma_finished(s, typed, m);
    }
}

proof fn lemma_deletes_noted(s: AppV)
    requires
        s.active < s.documents.len(),
    ensures
        changes_noted(s, s.left_deleted()),
        changes_noted(s, s.right_deleted()),
        changes_noted(s, s.word_left_deleted()),
        changes_noted(s, s.word_right_deleted()),
{
    reveal(AppV::left_deleted);
    reveal(AppV::right_deleted);
    reveal(AppV::word_left_deleted);
    reveal(AppV::word_right_deleted);
    reveal(AppV::selection_deleted);
    let m = mark_of(s.buf());
    let d = s.selection_deleted();
    let pos = d.buf().cursor() as int;
    lemma_kept_without_selection(s);
    lemma_finished(s, d, m);
    lemma_finished(s, d.with_buf(backspaced(d.buf())), m);
    lemma_finished(s, d.with_buf(deleted_right(d.buf())), m);
    lemma_finished(s, d.with_buf(cut_out(d.buf(), word_left(d.buf().text, pos), pos)), m);
    lemma_finished(s, d.with_buf(cut_out(d.buf(), pos, word_right(d.buf().text, pos))), m);
    lemma_finished(
        s,
        d.with_status("delete error: "@ + BufferError::OutOfRange.message_spec()),
        m,
    );
}

proof fn lemma_tab_noted(s: AppV)
    requires
        s.active < s.documents.len(),
    ensures
        changes_noted(s, s.tab_typed()),
{
    reveal(AppV::text_inserted);
    reveal(AppV::selection_deleted);
    reveal(AppV::tab_typed);
    let m = mark_of(s.buf());
    let v = s.doc().view;
    lemma_kept_without_selection(s);
    lemma_finished(
        s,
        s.text_inserted(indent_unit(v.use_spaces, v.tab_width as nat), "insert error: "@),
        m,
    );
    if s.can_expand() {
        let (snippet, start) = s.snippet()->0;
        lemma_finished(s, s.snippet_put(snippet, start), m);
    }
}

/// Questions to the program around the editor leave the text to the answer.
proof fn lemma_asked_noted(s: AppV, name: String)
    requires
        s.active < s.documents.len(),
    ensures
        changes_noted(s, s.replace_asked()),
        changes_noted(s, s.replace_all_asked()),
        changes_noted(s, s.comment_asked()),
        changes_noted(s, s.format_asked()),
        changes_noted(s, s.rename_asked(name).edit_finished(mark_of(s.buf()))),
{
    reveal(AppV::replace_asked);
    reveal(AppV::replace_all_asked);
    reveal(AppV::comment_asked);
    reveal(AppV::rename_asked);
    reveal(AppV::format_asked);
}

proof fn lemma_lines_noted(s: AppV, up: bool)
    requires
        s.active < s.documents.len(),
    ensures
        edit_noted(s, s.with_buf(line_deleted(s.buf())).edit_finished(mark_of(s.buf()))),
        edit_noted(s, s.with_buf(line_moved(s.buf(), up)).edit_finished(mark_of(s.buf()))),
        edit_noted(s, s.duplicated().edit_finished(mark_of(s.buf()))),
        edit_noted(s, s.undid().rewrite_finished()),
        edit_noted(s, s.redid().rewrite_finished()),
{
    reveal(AppV::duplicated);
    reveal(AppV::undid);
    reveal(AppV::redid);
    let m = mark_of(s.buf());
    lemma_finished(s, s.with_buf(line_deleted(s.buf())), m);
    lemma_finished(s, s.with_buf(line_moved(s.buf(), up)), m);
    lemma_finished(s, s.duplicated(), m);
    lemma_finished(s, s.undid(), m);
    lemma_finished(s, s.redid(), m);
}

proof fn lemma_put_noted(s: AppV, text: Seq<char>)
    requires
        s.active < s.documents.len(),
    ensures
        edit_noted(s, s.text_inserted(text, "paste error: "@).edit_finished(mark_of(s.buf()))),
        edit_noted(s, s.selection_deleted().edit_finished(mark_of(s.buf()))),
{
    reveal(AppV::text_inserted);
    reveal(AppV::selection_deleted);
    lemma_kept_without_selection(s);
    lemma_finished(s, s.text_inserted(text, "paste error: "@), mark_of(s.buf()));
    lemma_finished(s, s.selection_deleted(), mark_of(s.buf()));
}

proof fn lemma_text_noted(s: AppV, event: EditorEvent)
    requires
        s.wf(),
        topic_of(event) == Topic::Text,
    ensures
        changes_noted(s, s.text_event(event)),
{
    reveal(AppV::text_event);
    match event {
        EditorEvent::Insert(ch) => lemma_typing_noted(s, ch),
        EditorEvent::InsertTab => lemma_tab_noted(s),
        EditorEvent::Paste(text) => lemma_put_noted(s, text@),
        EditorEvent::DeleteSelection => lemma_put_noted(s, seq![]),
        EditorEvent::DeleteLeft => lemma_deletes_noted(s),
        EditorEvent::DeleteRight => lemma_deletes_noted(s),
        EditorEvent::DeleteWordLeft => lemma_deletes_noted(s),
        EditorEvent::DeleteWordRight => lemma_deletes_noted(s),
        EditorEvent::DeleteLine => lemma_lines_noted(s, true),
        EditorEvent::DuplicateLine => lemma_lines_noted(s, true),
        EditorEvent::MoveLineUp => lemma_lines_noted(s, true),
        EditorEvent::MoveLineDown => lemma_lines_noted(s, false),
        EditorEvent::Undo => lemma_lines_noted(s, true),
        EditorEvent::Redo => lemma_lines_noted(s, true),
        EditorEvent::ReplaceOne => lemma_asked_noted(s, arbitrary()),
        EditorEvent::ReplaceAll => lemma_asked_noted(s, arbitrary()),
        EditorEvent::ToggleComment => lemma_asked_noted(s, arbitrary()),
        EditorEvent::FormatDocument => lemma_asked_noted(s, arbitrary()),
        EditorEvent::RenameApply { new_name } => lemma_asked_noted(s, new_name),
        _ => {},
    }
}

/// Law: an event that works on the documents that are open and changes the text
/// of the active one starts idle time again.
pub proof fn law_edits_start_idle_time(s: AppV, event: EditorEvent)
    requires
        s.wf(),
        topic_of(event) != Topic::Files,
        topic_of(event) != Topic::Panels,
    ensures
        s.after(event).documents[s.active as int].buffer.text != s.buf().text ==> edit_noted(
            s,
            s.after(event),
        ),
{
    reveal(AppV::after);
    if topic_of(event) == Topic::Text {
        lemma_text_noted(s, event);
    } else {
        law_only_edits_change_text(s, event);
    }
}

// ----- themes -----

/// Law: with the built-in themes, the next theme is the one behind in the
/// list, and the first one after the last. So every theme comes by.
pub proof fn law_themes_cycle(s: AppV, i: int)
    requires
        0 <= i < all_themes().len(),
        s.look.theme == all_themes()[i],
        s.look.syntax.themes == built_in_themes(),
    ensures
        s.next_themed().look.theme == all_themes()[if i + 1 < all_themes().len() {
            i + 1
        } else {
            0
        }],
        s.next_themed().look.syntax.themes == built_in_themes(),
{
    let n = all_themes().len() as int;
    law_themes_are_found_by_name(i);
    lemma_theme_index(i, 0);
    let next = if i + 1 < n { i + 1 } else { 0 };
    law_themes_are_found_by_name(next);
    lemma_text_theme(next);
}

/// Every theme of the window has its theme for the text.
proof fn lemma_text_theme(i: int)
    requires
        0 <= i < all_themes().len(),
    ensures
        built_in_themes().contains(syntax_theme_of(all_themes()[i].name@)),
{
    let t = built_in_themes();
    assert(t[0] == "Ocean Dark"@ && t[1] == "One Dark"@ && t[2] == "Fjord Night"@);
    assert(t[3] == "Aubergine"@ && t[4] == "Sandstone"@ && t[5] == "High Contrast"@);
    assert(t[6] == "Solarized Light"@);
    let names = all_themes();
    assert(t.contains(t[0]) && t.contains(t[1]) && t.contains(t[2]) && t.contains(t[3]));
    assert(t.contains(t[4]) && t.contains(t[5]) && t.contains(t[6]));
}

proof fn lemma_theme_index(i: int, from: int)
    requires
        0 <= from <= i < all_themes().len(),
    ensures
        theme_index(all_themes(), all_themes()[i].name@, from) == i,
    decreases i - from,
{
    law_themes_are_found_by_name(i);
    if from < i {
        lemma_theme_index(i, from + 1);
    }
}

// ----- indentation and wrapping -----

/// Law: four changes of the indentation come back to where they began, from
/// spaces of two, four or eight columns and from tabs of four.
pub proof fn law_indents_cycle(s: AppV)
    requires
        s.wf(),
        ({
            let v = s.doc().view;
            if v.use_spaces {
                v.tab_width == 2 || v.tab_width == 4 || v.tab_width == 8
            } else {
                v.tab_width == 4
            }
        }),
    ensures
        s.next_indented().next_indented().next_indented().next_indented().doc().view
            == s.doc().view,
{
}

/// Law: soft wrap that is switched twice leaves every document as it was.
pub proof fn law_wrap_switches_back(s: AppV)
    requires
        s.wf(),
    ensures
        s.wrap_toggled().wrap_toggled().documents == s.documents,
{
    assert(s.wrap_toggled().wrap_toggled().documents =~= s.documents);
}

// ----- undo -----

/// Law: what was typed or pasted at a single caret is taken back by undo.
pub proof fn law_undo_takes_typing_back(b: BufferV, with: Seq<u8>)
    requires
        b.wf(),
        b.selections.len() == 1,
        b.primary().anchor == b.primary().head,
        room_for(b, 1, with.len() as int),
    ensures
        selections_deleted(b).buffer == b,
        typed(b, with).undone().text == b.text,
        typed(b, with).undone().undo == b.undo,
{
    let pos = b.cursor();
    assert(b.selections =~= seq![caret(pos)]);
    reveal_with_fuel(selected, 2);
    assert(b.selections.drop_last() =~= seq![]);
    assert(selected(b.selections) =~= seq![]);
    assert(deletion_order(b.selections) =~= seq![]);
    reveal_with_fuel(sorted_set, 2);
    reveal_with_fuel(crate::order::insert_unique, 2);
    assert(heads(b.selections) =~= seq![pos]);
    assert(seq![pos].drop_last() =~= seq![]);
    assert(sorted_set(seq![pos]) =~= seq![pos]);
    reveal_with_fuel(inserted_at_all, 2);
    law_undo_restores_text(b, pos as int, pos as int, with);
}

} // verus!

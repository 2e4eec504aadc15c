//! What settings and views change, seen from outside.

use vstd::prelude::*;

use crate::app::{topic_of, Topic};
use crate::document::{DocV, ViewState};
use crate::edit_laws::plain_at;
use crate::effect::{Effect, EffectV};
use crate::event::{EditorEvent, KeybindingMode};
use crate::find_laws::other_documents_same;
use crate::laws::takes_edits;
use crate::modes::{CsvPreviewMode, MarkdownPreviewMode};
use crate::session::{open_paths, remembered};
use crate::state::{AppV, Ui};
use crate::text::decimal;

verus! {

proof fn lemma_view_event(s: AppV, event: EditorEvent)
    requires
        takes_edits(s),
        topic_of(event) == Topic::View,
    ensures
        s.after(event) == s.view_event(event),
{
    reveal(AppV::after);
}

/// Only the view of the active document has changed, to this.
pub open spec fn views(s: AppV, after: AppV, view: ViewState) -> bool {
    &&& after.doc() == (DocV { view, ..s.doc() })
    &&& other_documents_same(s, after)
}

/// Law: a document is shown as a table or as a preview only if it is of that
/// sort and the mode says so.
pub proof fn law_views_of_documents(s: AppV)
    ensures
        s.shows_table() <==> (s.doc().info.language matches Some(l) && l@ == "csv"@)
            && s.ui.csv_preview_mode == CsvPreviewMode::Table,
        s.shows_preview() <==> (s.doc().info.language matches Some(l) && l@ == "markdown"@)
            && s.ui.markdown_preview_mode == MarkdownPreviewMode::Preview,
{
}

/// Law: the indentation of the active document is set as asked for, with a
/// width from 1 to 16, and cycles through 2, 4 and 8 spaces and tabs.
pub proof fn law_indentation_is_set(s: AppV, use_spaces: bool, tab_width: usize)
    requires
        s.wf(),
        takes_edits(s),
    ensures
        ({
            let v = s.doc().view;
            let width = if tab_width < 1 {
                1usize
            } else if tab_width > 16 {
                16usize
            } else {
                tab_width
            };
            let next = s.after(EditorEvent::CycleIndentMode).doc().view;
            &&& views(
                s,
                s.after(EditorEvent::SetIndentMode { use_spaces, tab_width }),
                ViewState { use_spaces, tab_width: width, ..v },
            )
            &&& views(s, s.after(EditorEvent::CycleIndentMode), next)
            &&& !v.use_spaces ==> next.use_spaces && next.tab_width == 2
            &&& v.use_spaces && v.tab_width == 2 ==> next.use_spaces && next.tab_width == 4
            &&& v.use_spaces && v.tab_width == 4 ==> next.use_spaces && next.tab_width == 8
            &&& v.use_spaces && v.tab_width == 8 ==> !next.use_spaces && next.tab_width == 4
        }),
{
    lemma_indent_set(s, use_spaces, tab_width);
    lemma_indent_cycled(s);
}

proof fn lemma_indent_set(s: AppV, use_spaces: bool, tab_width: usize)
    requires
        takes_edits(s),
    ensures
        s.after(EditorEvent::SetIndentMode { use_spaces, tab_width }) == s.indented(
            use_spaces,
            tab_width as int,
        ).config_synced(),
{
    lemma_view_event(s, EditorEvent::SetIndentMode { use_spaces, tab_width });
    reveal(AppV::view_event);
}

proof fn lemma_indent_cycled(s: AppV)
    requires
        takes_edits(s),
    ensures
        s.after(EditorEvent::CycleIndentMode) == s.next_indented().config_synced(),
{
    lemma_view_event(s, EditorEvent::CycleIndentMode);
    reveal(AppV::view_event);
}

proof fn lemma_wrap(s: AppV)
    requires
        takes_edits(s),
    ensures
        s.after(EditorEvent::ToggleSoftWrap) == s.wrap_toggled().config_synced(),
{
    lemma_view_event(s, EditorEvent::ToggleSoftWrap);
    reveal(AppV::view_event);
}

/// Law: wrapping is switched over for the active document and nothing else in
/// it.
pub proof fn law_wrapping_is_switched(s: AppV)
    requires
        s.wf(),
        takes_edits(s),
    ensures
        views(
            s,
            s.after(EditorEvent::ToggleSoftWrap),
            ViewState { soft_wrap: !s.doc().view.soft_wrap, ..s.doc().view },
        ),
{
    lemma_wrap(s);
}

/// Law: what scrolling to the side, the minimap, the help, folds and leaving
/// change.
pub proof fn law_view_switches(s: AppV, line: usize)
    requires
        s.wf(),
        takes_edits(s),
    ensures
        ({
            let v = s.doc().view;
            let x = v.scroll_x_cols;
            &&& views(
                s,
                s.after(EditorEvent::ScrollLeft),
                ViewState { scroll_x_cols: if x > 0 { (x - 1) as usize } else { 0 }, ..v },
            )
            &&& x < usize::MAX ==> views(
                s,
                s.after(EditorEvent::ScrollRight),
                ViewState { scroll_x_cols: (x + 1) as usize, ..v },
            )
            &&& s.after(EditorEvent::ToggleMinimap) == (AppV {
                ui: Ui { minimap_open: !s.ui.minimap_open, ..s.ui },
                ..s
            })
            &&& s.after(EditorEvent::ToggleKeybindingsHelp) == (AppV {
                ui: Ui { keybindings_help_open: !s.ui.keybindings_help_open, ..s.ui },
                ..s
            })
            &&& s.after(EditorEvent::ToggleFold { line }).effects == s.effects.push(
                EffectV::Plain(Effect::ToggleFold(line)),
            )
            &&& s.after(EditorEvent::UnfoldAll).effects == s.effects.push(
                EffectV::Plain(Effect::UnfoldAll),
            )
            &&& s.after(EditorEvent::RefreshGitGutter).effects == s.effects.push(
                EffectV::Plain(Effect::RefreshGutter),
            )
        }),
{
    lemma_scroll_left(s);
    lemma_scroll_right(s);
    lemma_minimap(s);
    lemma_help(s);
    lemma_fold(s, line);
    lemma_unfold(s);
    lemma_gutter(s);
}

proof fn lemma_scroll_left(s: AppV)
    requires
        takes_edits(s),
    ensures
        s.after(EditorEvent::ScrollLeft) == s.scrolled(s.doc().view.scroll_x_cols - 1),
{
    lemma_view_event(s, EditorEvent::ScrollLeft);
    reveal(AppV::view_event);
}

proof fn lemma_scroll_right(s: AppV)
    requires
        takes_edits(s),
    ensures
        s.after(EditorEvent::ScrollRight) == s.scrolled(s.doc().view.scroll_x_cols + 1),
{
    lemma_view_event(s, EditorEvent::ScrollRight);
    reveal(AppV::view_event);
}

proof fn lemma_minimap(s: AppV)
    requires
        takes_edits(s),
    ensures
        s.after(EditorEvent::ToggleMinimap) == (AppV {
            ui: Ui { minimap_open: !s.ui.minimap_open, ..s.ui },
            ..s
        }),
{
    lemma_view_event(s, EditorEvent::ToggleMinimap);
    reveal(AppV::view_event);
}

proof fn lemma_help(s: AppV)
    requires
        takes_edits(s),
    ensures
        s.after(EditorEvent::ToggleKeybindingsHelp) == (AppV {
            ui: Ui { keybindings_help_open: !s.ui.keybindings_help_open, ..s.ui },
            ..s
        }),
{
    lemma_view_event(s, EditorEvent::ToggleKeybindingsHelp);
    reveal(AppV::view_event);
}

proof fn lemma_fold(s: AppV, line: usize)
    requires
        takes_edits(s),
    ensures
        s.after(EditorEvent::ToggleFold { line }) == s.with_effect(
            Effect::ToggleFold(line),
        ),
{
    lemma_view_event(s, EditorEvent::ToggleFold { line });
    reveal(AppV::view_event);
}

proof fn lemma_unfold(s: AppV)
    requires
        takes_edits(s),
    ensures
        s.after(EditorEvent::UnfoldAll) == s.with_effect(Effect::UnfoldAll).with_status(
            "All folds unfolded."@,
        ),
{
    lemma_view_event(s, EditorEvent::UnfoldAll);
    reveal(AppV::view_event);
}

proof fn lemma_gutter(s: AppV)
    requires
        takes_edits(s),
    ensures
        s.after(EditorEvent::RefreshGitGutter) == s.with_effect(Effect::RefreshGutter),
{
    lemma_view_event(s, EditorEvent::RefreshGitGutter);
    reveal(AppV::view_event);
}

proof fn lemma_quit(s: AppV)
    requires
        takes_edits(s),
    ensures
        s.after(EditorEvent::Quit) == s.quit_asked(),
{
    lemma_view_event(s, EditorEvent::Quit);
    reveal(AppV::view_event);
}

/// Law: leaving ends the editor and has the settings written; no document
/// changes.
pub proof fn law_quit_ends_the_editor(s: AppV)
    requires
        takes_edits(s),
    ensures
        s.after(EditorEvent::Quit).ui.should_quit,
        s.after(EditorEvent::Quit).documents == s.documents,
        s.after(EditorEvent::Quit).effects.last() == EffectV::Plain(Effect::SaveConfig),
{
    lemma_quit(s);
}

proof fn lemma_keybindings(s: AppV, mode: KeybindingMode)
    requires
        takes_edits(s),
    ensures
        s.after(EditorEvent::SetKeybindingMode(mode)) == s.with_keybindings(mode).config_synced(),
{
    lemma_view_event(s, EditorEvent::SetKeybindingMode(mode));
    reveal(AppV::view_event);
}

/// Law: another keyboard preset is in force and in the settings, and every
/// document keeps its text and its primary caret.
pub proof fn law_keyboard_preset_is_set(s: AppV, mode: KeybindingMode)
    requires
        s.wf(),
        takes_edits(s),
    ensures
        ({
            let after = s.after(EditorEvent::SetKeybindingMode(mode));
            &&& after.ui.keybinding_mode == mode && after.config.keybinding_mode == mode
            &&& after.documents.len() == s.documents.len() && after.active == s.active
            &&& forall|i: int|
                0 <= i < s.documents.len() ==> (#[trigger] after.documents[i]).buffer.text
                    == s.documents[i].buffer.text && after.documents[i].buffer.selections == seq![
                    plain_at(s.documents[i].buffer.selections[0].head as int),
                ]
        }),
{
    lemma_keybindings(s, mode);
    let after = s.with_keybindings(mode);
    assert forall|i: int| 0 <= i < s.documents.len() implies (
    #[trigger] after.documents[i]).buffer.text == s.documents[i].buffer.text
        && after.documents[i].buffer.selections == seq![
        plain_at(s.documents[i].buffer.selections[0].head as int),
    ] by {
        assert(s.documents[i].buffer.wf());
        assert(s.documents[i].buffer.selections[0].head <= s.documents[i].buffer.text.len());
    }
}

/// Law: the modes of the previews are set for documents of their sort, and
/// refused for others.
pub proof fn law_preview_modes_are_set(s: AppV, m: MarkdownPreviewMode, c: CsvPreviewMode)
    ensures
        ({
            let markdown = s.doc().info.language matches Some(l) && l@ == "markdown"@;
            let csv = s.doc().info.language matches Some(l) && l@ == "csv"@;
            let a = s.with_markdown_mode(m);
            let b = s.with_csv_mode(c);
            &&& markdown ==> a.ui.markdown_preview_mode == m && a.config.markdown_view == Some(
                m.label_spec(),
            )
            &&& !markdown ==> a.ui == s.ui && a.status is Some
            &&& csv ==> b.ui.csv_preview_mode == c && b.config.csv_view == Some(c.label_spec())
            &&& !csv ==> b.ui == s.ui && b.status is Some
            &&& a.documents == s.documents && b.documents == s.documents
        }),
{
}

// ----- what is remembered -----

proof fn lemma_paths(docs: Seq<DocV>)
    ensures
        open_paths(remembered(docs)) == docs.filter(
            |d: DocV| !d.info.temporary && d.buffer.path is Some,
        ).map_values(|d: DocV| d.buffer.path->0),
    decreases docs.len(),
{
    reveal(Seq::filter);
    let keep = |d: DocV| !d.info.temporary && d.buffer.path is Some;
    let path = |d: DocV| d.buffer.path->0;
    if docs.len() > 0 {
        let rest = docs.drop_last();
        lemma_paths(rest);
        let before = rest.filter(keep);
        assert(before.push(docs.last()).map_values(path) =~= before.map_values(path).push(
            path(docs.last()),
        ));
        if !docs.last().info.temporary {
            assert(remembered(docs).drop_last() =~= remembered(rest));
        }
        assert(open_paths(remembered(docs)) =~= docs.filter(keep).map_values(path));
    } else {
        assert(open_paths(remembered(docs)) =~= docs.filter(keep).map_values(path));
    }
}

/// Law: the settings that are written remember the files of the open documents
/// in their order, but for temporary ones, and how the active one is indented
/// and wrapped.
pub proof fn law_settings_remember_documents(s: AppV)
    ensures
        ({
            let after = s.config_synced();
            &&& after.config.recent_files == s.documents.filter(
                |d: DocV| !d.info.temporary && d.buffer.path is Some,
            ).map_values(|d: DocV| d.buffer.path->0)
            &&& after.config.document_defaults.use_spaces == s.doc().view.use_spaces
            &&& after.config.document_defaults.tab_width == s.doc().view.tab_width
            &&& after.config.document_defaults.soft_wrap == s.doc().view.soft_wrap
            &&& after.config.project_tree_open == Some(s.ui.project_tree_open)
            &&& after.effects == s.effects.push(EffectV::Plain(Effect::SaveConfig))
            &&& after.documents == s.documents && after.ui == s.ui
        }),
{
    lemma_paths(s.documents);
}

// ----- git -----

/// Law: jumping from change to change goes to the first one below the caret's
/// line and from the last to the first; the other way to the last one above,
/// and from the first to the last.
pub proof fn law_hunks_go_around(hunks: Seq<usize>, line: int)
    requires
        hunks.len() > 0,
    ensures
        ({
            let next = crate::navigation::next_hunk(hunks, line, 0);
            let prev = crate::navigation::prev_hunk(hunks, line, hunks.len() as int);
            &&& exists|k: int|
                {
                    &&& 0 <= k < hunks.len()
                    &&& #[trigger] hunks[k] == next
                    &&& hunks[k] > line ==> forall|i: int|
                        0 <= i < k ==> #[trigger] hunks[i] <= line
                    &&& hunks[k] <= line ==> k == 0 && forall|i: int|
                        0 <= i < hunks.len() ==> #[trigger] hunks[i] <= line
                }
            &&& exists|k: int|
                {
                    &&& 0 <= k < hunks.len()
                    &&& #[trigger] hunks[k] == prev
                    &&& hunks[k] < line ==> forall|i: int|
                        k < i < hunks.len() ==> #[trigger] hunks[i] >= line
                    &&& hunks[k] >= line ==> k == hunks.len() - 1 && forall|i: int|
                        0 <= i < hunks.len() ==> #[trigger] hunks[i] >= line
                }
        }),
{
    lemma_next_hunk(hunks, line, 0);
    lemma_prev_hunk(hunks, line, hunks.len() as int);
}

proof fn lemma_next_hunk(hunks: Seq<usize>, line: int, from: int)
    requires
        hunks.len() > 0,
        0 <= from <= hunks.len(),
        forall|i: int| 0 <= i < from ==> #[trigger] hunks[i] <= line,
    ensures
        exists|k: int|
            {
                &&& 0 <= k < hunks.len()
                &&& #[trigger] hunks[k] == crate::navigation::next_hunk(hunks, line, from)
                &&& hunks[k] > line ==> forall|i: int| 0 <= i < k ==> #[trigger] hunks[i] <= line
                &&& hunks[k] <= line ==> k == 0 && forall|i: int|
                    0 <= i < hunks.len() ==> #[trigger] hunks[i] <= line
            },
    decreases hunks.len() - from,
{
    if from < hunks.len() && hunks[from] <= line {
        lemma_next_hunk(hunks, line, from + 1);
    } else if from < hunks.len() {
        assert(hunks[from] == crate::navigation::next_hunk(hunks, line, from));
    } else {
        assert(hunks[0] == crate::navigation::next_hunk(hunks, line, from));
    }
}

proof fn lemma_prev_hunk(hunks: Seq<usize>, line: int, n: int)
    requires
        hunks.len() > 0,
        0 <= n <= hunks.len(),
        forall|i: int| n <= i < hunks.len() ==> #[trigger] hunks[i] >= line,
    ensures
        exists|k: int|
            {
                &&& 0 <= k < hunks.len()
                &&& #[trigger] hunks[k] == crate::navigation::prev_hunk(hunks, line, n)
                &&& hunks[k] < line ==> forall|i: int|
                    k < i < hunks.len() ==> #[trigger] hunks[i] >= line
                &&& hunks[k] >= line ==> k == hunks.len() - 1 && forall|i: int|
                    0 <= i < hunks.len() ==> #[trigger] hunks[i] >= line
            },
    decreases n,
{
    if n > 0 && hunks[n - 1] >= line {
        lemma_prev_hunk(hunks, line, n - 1);
    } else if n > 0 {
        assert(hunks[n - 1] == crate::navigation::prev_hunk(hunks, line, n));
    } else {
        assert(hunks[hunks.len() - 1] == crate::navigation::prev_hunk(hunks, line, n));
    }
}

// ----- going to a line -----

/// Law: the field for a line number takes digits and nothing else, Backspace
/// takes the last one away, and cancelling closes it. Submitting it goes to the
/// line that was typed.
pub proof fn law_line_number_is_typed(s: AppV, query: Seq<char>, ch: char, n: usize)
    requires
        s.dialogs.go_to_line == Some(query),
    ensures
        ({
            let typed = s.line_typed(ch).dialogs.go_to_line;
            &&& '0' <= ch <= '9' ==> typed == Some(query + seq![ch])
            &&& !('0' <= ch <= '9') ==> typed == Some(query)
            &&& query.len() > 0 ==> s.line_erased().dialogs.go_to_line == Some(
                query.take(query.len() - 1),
            )
            &&& s.line_cancelled().dialogs.go_to_line is None
            &&& s.line_cancelled().documents == s.documents
            &&& s.line_submitted().dialogs.go_to_line is None
            &&& query == decimal(n as nat) ==> s.line_submitted().buf() == s.went_to_line(
                n as int,
            ).buf()
            &&& query.len() == 0 ==> s.line_submitted().documents == s.documents
        }),
{
    crate::key_laws::lemma_decimal(n as nat);
    assert(query.push(ch) =~= query + seq![ch]);
    if query.len() > 0 {
        assert(query.drop_last() =~= query.take(query.len() - 1));
    }
    if query == decimal(n as nat) {
        assert('0' <= query[0] <= '9');
    }
}

} // verus!

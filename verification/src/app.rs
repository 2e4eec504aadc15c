//! What every event does.

use vstd::prelude::*;

use crate::buffer::opt_text;
use crate::carets::{
    add_caret, all_selected, caret_added, collapse_carets, collapsed_carets, column_selected,
    extended, move_carets, moved, select_all, select_columns, select_to, selected_to,
};
use crate::document::{DocV, ViewState};
use crate::effect::{Effect, SaveKind};
use crate::event::{
    csv_table_allows_event, modifies_buffer, modifies_text, works_on_table, EditorEvent,
};
use crate::line_ops::{line_deleted, line_moved};
use crate::motion::{page_lines, Movement};
use crate::search::SearchV;
use crate::state::{AppV, EditorApp, Ui};
use crate::typing::mark_of;

verus! {

/// What an event is about.
#[derive(Clone, Copy, PartialEq, Eq, Structural)]
pub enum Topic {
    Text,
    Carets,
    Find,
    View,
    Files,
    Panels,
    Language,
}

/// What an event is about.
pub open spec fn topic_of(event: EditorEvent) -> Topic {
    match event {
        EditorEvent::Move(_) => Topic::Carets,
        EditorEvent::SelectExtend(_) => Topic::Carets,
        EditorEvent::SetCursor { .. } => Topic::Carets,
        EditorEvent::SelectExtendTo { .. } => Topic::Carets,
        EditorEvent::AddCursor { .. } => Topic::Carets,
        EditorEvent::ColumnSelect { .. } => Topic::Carets,
        EditorEvent::SelectNextOccurrence => Topic::Carets,
        EditorEvent::SelectAllOccurrences => Topic::Carets,
        EditorEvent::SelectAll => Topic::Carets,
        EditorEvent::CollapseCursors => Topic::Carets,
        EditorEvent::GoToLine(_) => Topic::Carets,
        EditorEvent::NextHunk => Topic::Carets,
        EditorEvent::PrevHunk => Topic::Carets,
        EditorEvent::FindOpen => Topic::Find,
        EditorEvent::FindOpenBackward => Topic::Find,
        EditorEvent::FindClose => Topic::Find,
        EditorEvent::FindQueryChanged(_) => Topic::Find,
        EditorEvent::FindNext => Topic::Find,
        EditorEvent::FindPrev => Topic::Find,
        EditorEvent::ToggleFindRegex => Topic::Find,
        EditorEvent::ToggleFindCaseSensitive => Topic::Find,
        EditorEvent::ToggleFindWholeWord => Topic::Find,
        EditorEvent::ReplaceOpen => Topic::Find,
        EditorEvent::ReplaceClose => Topic::Find,
        EditorEvent::ReplaceQueryChanged(_) => Topic::Find,
        EditorEvent::SetKeybindingMode(_) => Topic::View,
        EditorEvent::SetIndentMode { .. } => Topic::View,
        EditorEvent::CycleIndentMode => Topic::View,
        EditorEvent::ToggleSoftWrap => Topic::View,
        EditorEvent::ToggleMinimap => Topic::View,
        EditorEvent::CycleMarkdownPreview => Topic::View,
        EditorEvent::CycleTheme => Topic::View,
        EditorEvent::ScrollLeft => Topic::View,
        EditorEvent::ScrollRight => Topic::View,
        EditorEvent::ToggleKeybindingsHelp => Topic::View,
        EditorEvent::ToggleGitGutter => Topic::View,
        EditorEvent::ToggleGitBlame => Topic::View,
        EditorEvent::RefreshGitGutter => Topic::View,
        EditorEvent::ToggleFold { .. } => Topic::View,
        EditorEvent::UnfoldAll => Topic::View,
        EditorEvent::Quit => Topic::View,
        EditorEvent::Save => Topic::Files,
        EditorEvent::SaveAs(_) => Topic::Files,
        EditorEvent::ReloadFile => Topic::Files,
        EditorEvent::NewDoc => Topic::Files,
        EditorEvent::CloseDoc => Topic::Files,
        EditorEvent::ForceCloseDoc => Topic::Files,
        EditorEvent::NextDoc => Topic::Files,
        EditorEvent::PrevDoc => Topic::Files,
        EditorEvent::OpenFile(_) => Topic::Files,
        EditorEvent::LspCompletion => Topic::Language,
        EditorEvent::LspHover => Topic::Language,
        EditorEvent::LspGoToDefinition => Topic::Language,
        EditorEvent::RenameSymbol => Topic::Language,
        EditorEvent::GoToSymbol => Topic::Language,
        _ => if modifies_text(event) { Topic::Text } else { Topic::Panels },
    }
}

fn topic(event: &EditorEvent) -> (r: Topic)
    ensures
        r == topic_of(*event),
{
    match event {
        EditorEvent::Move(_) | EditorEvent::SelectExtend(_) | EditorEvent::SetCursor { .. }
        | EditorEvent::SelectExtendTo { .. } | EditorEvent::AddCursor { .. }
        | EditorEvent::ColumnSelect { .. } | EditorEvent::SelectNextOccurrence
        | EditorEvent::SelectAllOccurrences | EditorEvent::SelectAll
        | EditorEvent::CollapseCursors | EditorEvent::GoToLine(_) | EditorEvent::NextHunk
        | EditorEvent::PrevHunk => Topic::Carets,
        EditorEvent::FindOpen | EditorEvent::FindOpenBackward | EditorEvent::FindClose
        | EditorEvent::FindQueryChanged(_) | EditorEvent::FindNext | EditorEvent::FindPrev
        | EditorEvent::ToggleFindRegex | EditorEvent::ToggleFindCaseSensitive
        | EditorEvent::ToggleFindWholeWord | EditorEvent::ReplaceOpen | EditorEvent::ReplaceClose
        | EditorEvent::ReplaceQueryChanged(_) => Topic::Find,
        EditorEvent::SetKeybindingMode(_) | EditorEvent::SetIndentMode { .. }
        | EditorEvent::CycleIndentMode | EditorEvent::ToggleSoftWrap | EditorEvent::ToggleMinimap
        | EditorEvent::CycleMarkdownPreview | EditorEvent::CycleTheme | EditorEvent::ScrollLeft
        | EditorEvent::ScrollRight | EditorEvent::ToggleKeybindingsHelp
        | EditorEvent::ToggleGitGutter | EditorEvent::ToggleGitBlame
        | EditorEvent::RefreshGitGutter | EditorEvent::ToggleFold { .. } | EditorEvent::UnfoldAll
        | EditorEvent::Quit => Topic::View,
        EditorEvent::Save | EditorEvent::SaveAs(_) | EditorEvent::ReloadFile | EditorEvent::NewDoc
        | EditorEvent::CloseDoc | EditorEvent::ForceCloseDoc | EditorEvent::NextDoc
        | EditorEvent::PrevDoc | EditorEvent::OpenFile(_) => Topic::Files,
        EditorEvent::LspCompletion | EditorEvent::LspHover | EditorEvent::LspGoToDefinition
        | EditorEvent::RenameSymbol | EditorEvent::GoToSymbol => Topic::Language,
        _ => {
            if modifies_buffer(event) {
                Topic::Text
            } else {
                Topic::Panels
            }
        },
    }
}

// ----- text -----

impl AppV {
    #[verifier::opaque]
    pub open spec fn text_event(self, event: EditorEvent) -> AppV {
        match event {
            EditorEvent::Insert(ch) => self.char_typed(ch),
            EditorEvent::InsertTab => self.tab_typed(),
            EditorEvent::DeleteLeft => self.left_deleted(),
            EditorEvent::DeleteRight => self.right_deleted(),
            EditorEvent::DeleteSelection => self.selection_deleted().edit_finished(
                mark_of(self.buf()),
            ),
            EditorEvent::DeleteWordLeft => self.word_left_deleted(),
            EditorEvent::DeleteWordRight => self.word_right_deleted(),
            EditorEvent::DeleteLine => self.with_buf(line_deleted(self.buf())).edit_finished(
                mark_of(self.buf()),
            ),
            EditorEvent::DuplicateLine => self.duplicated().edit_finished(mark_of(self.buf())),
            EditorEvent::MoveLineUp => self.with_buf(line_moved(self.buf(), true)).edit_finished(
                mark_of(self.buf()),
            ),
            EditorEvent::MoveLineDown => self.with_buf(line_moved(self.buf(), false)).edit_finished(
                mark_of(self.buf()),
            ),
            EditorEvent::Paste(text) => self.text_inserted(text@, "paste error: "@).edit_finished(
                mark_of(self.buf()),
            ),
            EditorEvent::Undo => self.undid().rewrite_finished(),
            EditorEvent::Redo => self.redid().rewrite_finished(),
            EditorEvent::ReplaceOne => self.replace_asked(),
            EditorEvent::ReplaceAll => self.replace_all_asked(),
            EditorEvent::ToggleComment => self.comment_asked(),
            EditorEvent::RenameApply { new_name } => self.rename_asked(new_name).edit_finished(
                mark_of(self.buf()),
            ),
            EditorEvent::FormatDocument => self.format_asked(),
            _ => self,
        }
    }
}

impl EditorApp {
    fn on_text_event(&mut self, event: EditorEvent)
        requires
            old(self)@.wf(),
        ensures
            final(self)@ == old(self)@.text_event(event),
            final(self)@.wf(),
    {
        proof {
            reveal(AppV::text_event);
        }
        match event {
            EditorEvent::Insert(ch) => self.type_char(ch),
            EditorEvent::InsertTab => self.insert_tab(),
            EditorEvent::DeleteLeft => self.backspace(),
            EditorEvent::DeleteRight => self.delete_forward(),
            EditorEvent::DeleteSelection => self.cut_selection(),
            EditorEvent::DeleteWordLeft => self.delete_previous_word(),
            EditorEvent::DeleteWordRight => self.delete_next_word(),
            EditorEvent::DeleteLine => self.delete_line(),
            EditorEvent::DuplicateLine => self.duplicate_line(),
            EditorEvent::MoveLineUp => self.move_line(true),
            EditorEvent::MoveLineDown => self.move_line(false),
            EditorEvent::Paste(text) => self.paste(text.as_str()),
            EditorEvent::Undo => self.undo(),
            EditorEvent::Redo => self.redo(),
            EditorEvent::ReplaceOne => self.replace_one(),
            EditorEvent::ReplaceAll => self.replace_all(),
            EditorEvent::ToggleComment => self.toggle_comment(),
            EditorEvent::RenameApply { new_name } => self.apply_rename(new_name),
            EditorEvent::FormatDocument => self.format_active_document(),
            _ => {},
        }
    }
}

// ----- carets -----

impl AppV {
    pub open spec fn page(self) -> int {
        page_lines(self.ui.viewport_lines)
    }

    #[verifier::opaque]
    pub open spec fn caret_event(self, event: EditorEvent) -> AppV {
        match event {
            EditorEvent::Move(m) => self.with_buf(moved(self.buf(), m, self.page())),
            EditorEvent::SelectExtend(m) => self.with_buf(extended(self.buf(), m, self.page())),
            EditorEvent::SetCursor { pos } => self.with_cursor(pos as int).caret_shown(),
            EditorEvent::SelectExtendTo { pos } => self.with_buf(
                selected_to(self.buf(), pos as int),
            ).caret_shown(),
            EditorEvent::AddCursor { pos } => self.with_buf(caret_added(self.buf(), pos as int)),
            EditorEvent::ColumnSelect { from_line, from_col, to_line, to_col } => self.with_buf(
                column_selected(
                    self.buf(),
                    from_line as int,
                    from_col as nat,
                    to_line as int,
                    to_col as nat,
                ),
            ),
            EditorEvent::SelectNextOccurrence => self.next_occurrence_selected(),
            EditorEvent::SelectAllOccurrences => self.all_occurrences_selected(),
            EditorEvent::SelectAll => self.with_buf(all_selected(self.buf())),
            EditorEvent::CollapseCursors => self.with_buf(collapsed_carets(self.buf())),
            EditorEvent::GoToLine(line) => match line {
                Some(line) => self.went_to_line(line as int),
                None => self.with_line_dialog(Some(seq![])),
            },
            EditorEvent::NextHunk => self.jumped_hunk(true),
            EditorEvent::PrevHunk => self.jumped_hunk(false),
            _ => self,
        }
    }
}

impl EditorApp {
    fn move_all(&mut self, movement: Movement, extend: bool)
        requires
            old(self)@.wf(),
        ensures
            final(self)@ == old(self)@.with_buf(
                if extend {
                    extended(old(self)@.buf(), movement, old(self)@.page())
                } else {
                    moved(old(self)@.buf(), movement, old(self)@.page())
                },
            ),
            final(self)@.wf(),
    {
        let viewport: usize = self.ui().viewport_lines;
        move_carets(self.active_buffer_mut(), movement, viewport, extend);
    }

    fn click(&mut self, pos: usize)
        requires
            old(self)@.wf(),
        ensures
            final(self)@ == old(self)@.with_cursor(pos as int).caret_shown(),
            final(self)@.wf(),
    {
        self.place_cursor(pos);
        self.snap_caret_animation();
    }

    fn drag(&mut self, pos: usize)
        requires
            old(self)@.wf(),
        ensures
            final(self)@ == old(self)@.with_buf(
                selected_to(old(self)@.buf(), pos as int),
            ).caret_shown(),
            final(self)@.wf(),
    {
        select_to(self.active_buffer_mut(), pos);
        self.snap_caret_animation();
    }

    fn go_to(&mut self, line: Option<usize>)
        requires
            old(self)@.wf(),
        ensures
            final(self)@ == (match line {
                Some(line) => old(self)@.went_to_line(line as int),
                None => old(self)@.with_line_dialog(Some(seq![])),
            }),
            final(self)@.wf(),
    {
        match line {
            Some(line) => self.go_to_line(line),
            None => self.open_go_to_line_dialog(),
        }
    }

    fn on_caret_event(&mut self, event: EditorEvent)
        requires
            old(self)@.wf(),
        ensures
            final(self)@ == old(self)@.caret_event(event),
            final(self)@.wf(),
    {
        proof {
            reveal(AppV::caret_event);
        }
        match event {
            EditorEvent::Move(m) => self.move_all(m, false),
            EditorEvent::SelectExtend(m) => self.move_all(m, true),
            EditorEvent::SetCursor { pos } => self.click(pos),
            EditorEvent::SelectExtendTo { pos } => self.drag(pos),
            EditorEvent::AddCursor { pos } => add_caret(self.active_buffer_mut(), pos),
            EditorEvent::ColumnSelect { from_line, from_col, to_line, to_col } => select_columns(
                self.active_buffer_mut(),
                from_line,
                from_col,
                to_line,
                to_col,
            ),
            EditorEvent::SelectNextOccurrence => self.select_next_occurrence(),
            EditorEvent::SelectAllOccurrences => self.select_all_occurrences(),
            EditorEvent::SelectAll => select_all(self.active_buffer_mut()),
            EditorEvent::CollapseCursors => collapse_carets(self.active_buffer_mut()),
            EditorEvent::GoToLine(line) => self.go_to(line),
            EditorEvent::NextHunk => self.jump_hunk(1),
            EditorEvent::PrevHunk => self.jump_hunk(-1),
            _ => {},
        }
    }
}

// ----- find and replace -----

impl AppV {
    /// The search changed and the query looked for again.
    pub open spec fn searched(self, search: SearchV) -> AppV {
        self.with_search(search).with_effect(Effect::FindMatches { follow: true })
    }

    #[verifier::opaque]
    pub open spec fn find_event(self, event: EditorEvent) -> AppV {
        let s = self.search;
        match event {
            EditorEvent::FindOpen => self.find_opened(false),
            EditorEvent::FindOpenBackward => self.find_opened(true),
            EditorEvent::FindClose => self.find_closed(),
            EditorEvent::FindQueryChanged(q) => self.searched(SearchV { query: q@, ..s }),
            EditorEvent::FindNext => self.at_next_match(),
            EditorEvent::FindPrev => self.at_prev_match(),
            EditorEvent::ToggleFindRegex => self.searched(
                SearchV { regex_mode: !s.regex_mode, ..s },
            ),
            EditorEvent::ToggleFindCaseSensitive => self.searched(
                SearchV { case_sensitive: !s.case_sensitive, ..s },
            ),
            EditorEvent::ToggleFindWholeWord => self.searched(
                SearchV { whole_word: !s.whole_word, ..s },
            ),
            EditorEvent::ReplaceOpen => self.with_search(
                SearchV { bar_open: true, replace_bar_open: true, ..s },
            ),
            EditorEvent::ReplaceClose => self.with_search(
                SearchV { replace_bar_open: false, ..s },
            ),
            EditorEvent::ReplaceQueryChanged(q) => self.with_search(
                SearchV { replace_query: q@, ..s },
            ),
            _ => self,
        }
    }
}

impl EditorApp {
    fn set_query(&mut self, query: String)
        requires
            old(self)@.wf(),
        ensures
            final(self)@ == old(self)@.searched(SearchV { query: query@, ..old(self)@.search }),
            final(self)@.wf(),
    {
        self.search_mut().query = query;
        self.push_effect(Effect::FindMatches { follow: true });
    }

    fn set_replace_query(&mut self, query: String)
        requires
            old(self)@.wf(),
        ensures
            final(self)@ == old(self)@.with_search(
                SearchV { replace_query: query@, ..old(self)@.search },
            ),
            final(self)@.wf(),
    {
        self.search_mut().replace_query = query;
    }

    fn set_find_flags(&mut self, regex: bool, case_sensitive: bool, whole_word: bool)
        requires
            old(self)@.wf(),
        ensures
            final(self)@ == old(self)@.searched(
                SearchV { regex_mode: regex, case_sensitive, whole_word, ..old(self)@.search },
            ),
            final(self)@.wf(),
    {
        let search = self.search_mut();
        search.regex_mode = regex;
        search.case_sensitive = case_sensitive;
        search.whole_word = whole_word;
        self.push_effect(Effect::FindMatches { follow: true });
    }

    fn show_replace_bar(&mut self, open: bool)
        requires
            old(self)@.wf(),
        ensures
            final(self)@ == old(self)@.with_search(
                SearchV {
                    bar_open: open || old(self)@.search.bar_open,
                    replace_bar_open: open,
                    ..old(self)@.search
                },
            ),
            final(self)@.wf(),
    {
        let search = self.search_mut();
        if open {
            search.bar_open = true;
        }
        search.replace_bar_open = open;
    }

    fn on_find_event(&mut self, event: EditorEvent)
        requires
            old(self)@.wf(),
        ensures
            final(self)@ == old(self)@.find_event(event),
            final(self)@.wf(),
    {
        proof {
            reveal(AppV::find_event);
        }
        let regex: bool = self.search().regex_mode;
        let case: bool = self.search().case_sensitive;
        let word: bool = self.search().whole_word;
        match event {
            EditorEvent::FindOpen => self.open_find(false),
            EditorEvent::FindOpenBackward => self.open_find(true),
            EditorEvent::FindClose => self.close_find(),
            EditorEvent::FindQueryChanged(q) => self.set_query(q),
            EditorEvent::FindNext => self.find_next(),
            EditorEvent::FindPrev => self.find_prev(),
            EditorEvent::ToggleFindRegex => self.set_find_flags(!regex, case, word),
            EditorEvent::ToggleFindCaseSensitive => self.set_find_flags(regex, !case, word),
            EditorEvent::ToggleFindWholeWord => self.set_find_flags(regex, case, !word),
            EditorEvent::ReplaceOpen => self.show_replace_bar(true),
            EditorEvent::ReplaceClose => self.show_replace_bar(false),
            EditorEvent::ReplaceQueryChanged(q) => self.set_replace_query(q),
            _ => {},
        }
    }
}

// ----- what is shown -----

impl AppV {
    pub open spec fn with_ui(self, ui: Ui) -> AppV {
        AppV { ui, ..self }
    }

    /// Scrolled to a column.
    pub open spec fn scrolled(self, cols: int) -> AppV {
        let c = if cols < 0 {
            0
        } else if cols > usize::MAX {
            usize::MAX as int
        } else {
            cols
        };
        self.with_doc(
            DocV {
                view: ViewState { scroll_x_cols: c as usize, ..self.doc().view },
                ..self.doc()
            },
        )
    }

    pub open spec fn quit_asked(self) -> AppV {
        let s = self.config_synced();
        s.with_ui(Ui { should_quit: true, ..s.ui })
    }

    #[verifier::opaque]
    pub open spec fn view_event(self, event: EditorEvent) -> AppV {
        match event {
            EditorEvent::SetKeybindingMode(mode) => self.with_keybindings(mode).config_synced(),
            EditorEvent::SetIndentMode { use_spaces, tab_width } => self.indented(
                use_spaces,
                tab_width as int,
            ).config_synced(),
            EditorEvent::CycleIndentMode => self.next_indented().config_synced(),
            EditorEvent::ToggleSoftWrap => self.wrap_toggled().config_synced(),
            EditorEvent::ToggleMinimap => self.with_ui(
                Ui { minimap_open: !self.ui.minimap_open, ..self.ui },
            ),
            EditorEvent::CycleMarkdownPreview => self.with_markdown_mode(
                self.ui.markdown_preview_mode.next_spec(),
            ).config_synced(),
            EditorEvent::CycleTheme => self.next_themed().config_synced(),
            EditorEvent::ScrollLeft => self.scrolled(self.doc().view.scroll_x_cols - 1),
            EditorEvent::ScrollRight => self.scrolled(self.doc().view.scroll_x_cols + 1),
            EditorEvent::ToggleKeybindingsHelp => self.with_ui(
                Ui { keybindings_help_open: !self.ui.keybindings_help_open, ..self.ui },
            ),
            EditorEvent::ToggleGitGutter => self.gutter_toggled(),
            EditorEvent::ToggleGitBlame => self.blame_toggled(),
            EditorEvent::RefreshGitGutter => self.with_effect(Effect::RefreshGutter),
            EditorEvent::ToggleFold { line } => self.with_effect(Effect::ToggleFold(line)),
            EditorEvent::UnfoldAll => self.with_effect(Effect::UnfoldAll).with_status(
                "All folds unfolded."@,
            ),
            EditorEvent::Quit => self.quit_asked(),
            _ => self,
        }
    }

    pub open spec fn next_indented(self) -> AppV {
        let next = crate::session::next_indent(self.doc().view);
        self.indented(next.0, next.1)
    }
}

impl EditorApp {
    pub fn scroll_to(&mut self, cols: usize)
        requires
            old(self)@.wf(),
        ensures
            final(self)@ == old(self)@.scrolled(cols as int),
            final(self)@.wf(),
    {
        self.active_doc_mut().view.scroll_x_cols = cols;
    }

    fn scroll_left(&mut self)
        requires
            old(self)@.wf(),
        ensures
            final(self)@ == old(self)@.scrolled(old(self)@.doc().view.scroll_x_cols - 1),
            final(self)@.wf(),
    {
        let cols: usize = self.active_doc().view.scroll_x_cols;
        self.scroll_to(cols.saturating_sub(1));
    }

    fn scroll_right(&mut self)
        requires
            old(self)@.wf(),
        ensures
            final(self)@ == old(self)@.scrolled(old(self)@.doc().view.scroll_x_cols + 1),
            final(self)@.wf(),
    {
        let cols: usize = self.active_doc().view.scroll_x_cols;
        self.scroll_to(cols.saturating_add(1));
    }

    fn toggle_minimap(&mut self)
        requires
            old(self)@.wf(),
        ensures
            final(self)@ == old(self)@.view_event(EditorEvent::ToggleMinimap),
            final(self)@.wf(),
    {
        proof {
            reveal(AppV::view_event);
        }
        let open: bool = self.ui().minimap_open;
        self.ui_mut().minimap_open = !open;
    }

    fn toggle_help(&mut self)
        requires
            old(self)@.wf(),
        ensures
            final(self)@ == old(self)@.view_event(EditorEvent::ToggleKeybindingsHelp),
            final(self)@.wf(),
    {
        proof {
            reveal(AppV::view_event);
        }
        let open: bool = self.ui().keybindings_help_open;
        self.ui_mut().keybindings_help_open = !open;
    }

    fn unfold_all(&mut self)
        requires
            old(self)@.wf(),
        ensures
            final(self)@ == old(self)@.view_event(EditorEvent::UnfoldAll),
            final(self)@.wf(),
    {
        proof {
            reveal(AppV::view_event);
        }
        self.push_effect(Effect::UnfoldAll);
        self.set_status("All folds unfolded.");
    }

    fn quit(&mut self)
        requires
            old(self)@.wf(),
        ensures
            final(self)@ == old(self)@.quit_asked(),
            final(self)@.wf(),
    {
        self.sync_config();
        self.ui_mut().should_quit = true;
    }

    fn on_setting_event(&mut self, event: EditorEvent)
        requires
            old(self)@.wf(),
            is_setting(event),
        ensures
            final(self)@ == old(self)@.view_event(event),
            final(self)@.wf(),
    {
        proof {
            reveal(AppV::view_event);
        }
        match event {
            EditorEvent::SetKeybindingMode(mode) => self.set_keybinding_mode(mode),
            EditorEvent::SetIndentMode { use_spaces, tab_width } => self.set_indent_mode(
                use_spaces,
                tab_width,
            ),
            EditorEvent::CycleIndentMode => self.cycle_indent_mode(),
            EditorEvent::ToggleSoftWrap => self.toggle_soft_wrap(),
            EditorEvent::CycleMarkdownPreview => self.cycle_markdown_preview(),
            _ => self.cycle_theme(),
        }
        self.sync_config();
    }

    fn on_view_event(&mut self, event: EditorEvent)
        requires
            old(self)@.wf(),
        ensures
            final(self)@ == old(self)@.view_event(event),
            final(self)@.wf(),
    {
        proof {
            reveal(AppV::view_event);
        }
        if setting(&event) {
            self.on_setting_event(event);
            return;
        }
        match event {
            EditorEvent::ToggleMinimap => self.toggle_minimap(),
            EditorEvent::ScrollLeft => self.scroll_left(),
            EditorEvent::ScrollRight => self.scroll_right(),
            EditorEvent::ToggleKeybindingsHelp => self.toggle_help(),
            EditorEvent::ToggleGitGutter => self.toggle_git_gutter(),
            EditorEvent::ToggleGitBlame => self.toggle_git_blame(),
            EditorEvent::RefreshGitGutter => self.push_effect(Effect::RefreshGutter),
            EditorEvent::ToggleFold { line } => self.push_effect(Effect::ToggleFold(line)),
            EditorEvent::UnfoldAll => self.unfold_all(),
            EditorEvent::Quit => self.quit(),
            _ => {},
        }
    }
}

/// The event changes a setting that is kept.
pub open spec fn is_setting(event: EditorEvent) -> bool {
    match event {
        EditorEvent::SetKeybindingMode(_) => true,
        EditorEvent::SetIndentMode { .. } => true,
        EditorEvent::CycleIndentMode => true,
        EditorEvent::ToggleSoftWrap => true,
        EditorEvent::CycleMarkdownPreview => true,
        EditorEvent::CycleTheme => true,
        _ => false,
    }
}

fn setting(event: &EditorEvent) -> (r: bool)
    ensures
        r == is_setting(*event),
{
    match event {
        EditorEvent::SetKeybindingMode(_) | EditorEvent::SetIndentMode { .. }
        | EditorEvent::CycleIndentMode | EditorEvent::ToggleSoftWrap
        | EditorEvent::CycleMarkdownPreview | EditorEvent::CycleTheme => true,
        _ => false,
    }
}

// ----- files -----

impl AppV {
    pub open spec fn save_as_asked(self, path: Option<Seq<char>>) -> AppV {
        match path {
            Some(p) => self.with_buf(
                crate::buffer::BufferV { path: Some(p), ..self.buf() },
            ).with_effect(Effect::DescribeFile).with_effect(
                Effect::Save(SaveKind::Plain),
            ).with_effect(Effect::WatchFiles),
            None => self.with_effect(Effect::PickSavePath),
        }
    }

    pub open spec fn open_asked(self, path: Option<Seq<char>>) -> AppV {
        let s = self.with_effect(Effect::ResetKeymap);
        match path {
            Some(p) => s.with_load(p).with_effect(Effect::SyncConfig),
            None => s.with_effect(Effect::PickOpenPath),
        }
    }

    #[verifier::opaque]
    pub open spec fn file_event(self, event: EditorEvent) -> AppV {
        match event {
            EditorEvent::Save => self.save_requested(SaveKind::Plain),
            EditorEvent::SaveAs(path) => self.save_as_asked(opt_text(path)),
            EditorEvent::ReloadFile => if self.buf().path is Some {
                self.with_effect(Effect::ReloadActive)
            } else {
                self.with_status("No file to reload."@)
            },
            EditorEvent::NewDoc => self.doc_created(),
            EditorEvent::CloseDoc => self.close_requested(self.active).config_synced().with_effect(
                Effect::WatchFiles,
            ),
            EditorEvent::ForceCloseDoc => self.doc_closed(),
            EditorEvent::NextDoc => self.tab_changed(1),
            EditorEvent::PrevDoc => self.tab_changed(-1),
            EditorEvent::OpenFile(path) => self.open_asked(opt_text(path)),
            _ => self,
        }
    }
}

impl EditorApp {
    fn save_under(&mut self, path: Option<String>)
        requires
            old(self)@.wf(),
        ensures
            final(self)@ == old(self)@.save_as_asked(opt_text(path)),
            final(self)@.wf(),
    {
        match path {
            Some(path) => self.save_as(path),
            None => self.push_effect(Effect::PickSavePath),
        }
    }

    fn ask_for_file(&mut self, path: Option<String>)
        requires
            old(self)@.wf(),
        ensures
            final(self)@ == old(self)@.open_asked(opt_text(path)),
            final(self)@.wf(),
    {
        self.push_effect(Effect::ResetKeymap);
        match path {
            Some(path) => {
                self.open_path(path);
                self.push_effect(Effect::SyncConfig);
            },
            None => self.push_effect(Effect::PickOpenPath),
        }
    }

    fn close_document(&mut self)
        requires
            old(self)@.wf(),
        ensures
            final(self)@ == old(self)@.file_event(EditorEvent::CloseDoc),
            final(self)@.wf(),
    {
        proof {
            reveal(AppV::file_event);
        }
        self.request_close_active();
        self.sync_config();
        self.sync_watcher();
    }

    fn on_file_event(&mut self, event: EditorEvent)
        requires
            old(self)@.wf(),
        ensures
            final(self)@ == old(self)@.file_event(event),
            final(self)@.wf(),
    {
        proof {
            reveal(AppV::file_event);
        }
        match event {
            EditorEvent::Save => self.request_save(SaveKind::Plain),
            EditorEvent::SaveAs(path) => self.save_under(path),
            EditorEvent::ReloadFile => self.reload_active(),
            EditorEvent::NewDoc => self.new_document(),
            EditorEvent::CloseDoc => self.close_document(),
            EditorEvent::ForceCloseDoc => self.perform_close_active(),
            EditorEvent::NextDoc => self.next_document(),
            EditorEvent::PrevDoc => self.prev_document(),
            EditorEvent::OpenFile(path) => self.ask_for_file(path),
            _ => {},
        }
    }
}

// ----- panels -----

impl AppV {
    #[verifier::opaque]
    pub open spec fn panel_event(self, event: EditorEvent) -> AppV {
        match event {
            EditorEvent::ToggleProjectTree => self.tree_toggled().config_synced(),
            EditorEvent::ProjectTreeMove { delta } => self.tree_moved(delta as int),
            EditorEvent::ProjectTreeOpen => self.tree_opened(),
            EditorEvent::ProjectSearch(query) => self.project_search_opened(opt_text(query)),
            EditorEvent::ProjectSearchQueryChanged(q) => self.project_query(q@),
            EditorEvent::ProjectSearchMove { delta } => self.project_search_moved(delta as int),
            EditorEvent::ProjectSearchOpenResult => self.result_opened(),
            EditorEvent::ProjectSearchClose => self.project_search_closed(),
            EditorEvent::ProjectSearchReplaceQueryChanged(q) => self.project_replace_query(q@),
            EditorEvent::ProjectSearchReplaceAll => self.project_replace_asked(),
            EditorEvent::ProjectSearchReplaceAllConfirm => self.project_replace_answered(true),
            EditorEvent::ProjectSearchReplaceAllCancel => self.project_replace_answered(false),
            EditorEvent::FuzzyFinder(query) => self.finder_opened(opt_text(query)),
            EditorEvent::FuzzyFinderQueryChanged(q) => self.finder_query(q@),
            EditorEvent::FuzzyFinderMove { delta } => self.finder_moved(delta as int),
            EditorEvent::FuzzyFinderExecute => self.file_chosen(),
            EditorEvent::FuzzyFinderClose => self.finder_closed(),
            EditorEvent::CommandPalette(query) => self.palette_opened(opt_text(query)),
            EditorEvent::CommandPaletteQueryChanged(q) => self.palette_query(q@),
            EditorEvent::CommandPaletteMove { delta } => self.palette_moved(delta as int),
            EditorEvent::CommandPaletteExecute => self.command_run(),
            EditorEvent::CommandPaletteClose => self.palette_closed(),
            _ => self,
        }
    }

    #[verifier::opaque]
    pub open spec fn language_event(self, event: EditorEvent) -> AppV {
        match event {
            EditorEvent::LspCompletion => self.completion_asked(),
            EditorEvent::LspHover => self.hover_asked(),
            EditorEvent::LspGoToDefinition => self.definition_asked(),
            EditorEvent::RenameSymbol => if self.doc().info.uri is Some {
                self.with_effect(Effect::LspCanRename)
            } else {
                self
            },
            EditorEvent::GoToSymbol => self.symbols_asked(),
            _ => self,
        }
    }
}

impl EditorApp {
    fn switch_tree(&mut self)
        requires
            old(self)@.wf(),
        ensures
            final(self)@ == old(self)@.tree_toggled().config_synced(),
            final(self)@.wf(),
    {
        self.toggle_project_tree();
        self.sync_config();
    }

    fn on_panel_event(&mut self, event: EditorEvent)
        requires
            old(self)@.wf(),
        ensures
            final(self)@ == old(self)@.panel_event(event),
            final(self)@.wf(),
    {
        proof {
            reveal(AppV::panel_event);
        }
        match event {
            EditorEvent::ToggleProjectTree => self.switch_tree(),
            EditorEvent::ProjectTreeMove { delta } => self.move_project_tree_selection(delta),
            EditorEvent::ProjectTreeOpen => self.open_or_toggle_selected_project_tree_node(),
            EditorEvent::ProjectSearch(query) => self.open_project_search(query),
            EditorEvent::ProjectSearchQueryChanged(q) => self.set_project_query(q),
            EditorEvent::ProjectSearchMove { delta } => self.move_project_search_selection(delta),
            EditorEvent::ProjectSearchOpenResult => self.open_selected_project_search_result(),
            EditorEvent::ProjectSearchClose => self.close_project_search(),
            EditorEvent::ProjectSearchReplaceQueryChanged(q) => self.set_project_replace_query(q),
            EditorEvent::ProjectSearchReplaceAll => self.apply_project_replace_all(),
            EditorEvent::ProjectSearchReplaceAllConfirm => self.confirm_project_replace_all(true),
            EditorEvent::ProjectSearchReplaceAllCancel => self.confirm_project_replace_all(false),
            EditorEvent::FuzzyFinder(query) => self.open_fuzzy_finder(query),
            EditorEvent::FuzzyFinderQueryChanged(q) => self.set_finder_query(q),
            EditorEvent::FuzzyFinderMove { delta } => self.move_fuzzy_finder_selection(delta),
            EditorEvent::FuzzyFinderExecute => self.execute_fuzzy_finder(),
            EditorEvent::FuzzyFinderClose => self.close_finder(),
            EditorEvent::CommandPalette(query) => self.open_command_palette(query),
            EditorEvent::CommandPaletteQueryChanged(q) => self.set_palette_query(q),
            EditorEvent::CommandPaletteMove { delta } => self.move_command_palette_selection(delta),
            EditorEvent::CommandPaletteExecute => self.execute_selected_command(),
            EditorEvent::CommandPaletteClose => self.close_palette(),
            _ => {},
        }
    }

    fn on_language_event(&mut self, event: EditorEvent)
        requires
            old(self)@.wf(),
        ensures
            final(self)@ == old(self)@.language_event(event),
            final(self)@.wf(),
    {
        proof {
            reveal(AppV::language_event);
        }
        match event {
            EditorEvent::LspCompletion => self.request_completion(),
            EditorEvent::LspHover => self.request_hover(),
            EditorEvent::LspGoToDefinition => self.request_definition(),
            EditorEvent::RenameSymbol => self.request_rename(),
            EditorEvent::GoToSymbol => self.open_symbol_picker(),
            _ => {},
        }
    }
}

// ----- all events -----

impl AppV {
    /// What an event does. A document that is shown as a table or as a preview
    /// is not edited.
    #[verifier::opaque]
    pub open spec fn after(self, event: EditorEvent) -> AppV {
        if self.shows_table() && !works_on_table(event) {
            self.with_status(
                "CSV table view is read-only; switch to Source for editor commands."@,
            )
        } else if modifies_text(event) && self.shows_preview() {
            self.with_status(
                "Markdown preview is read-only; switch to Source or Split to edit."@,
            )
        } else {
            match topic_of(event) {
                Topic::Text => self.text_event(event),
                Topic::Carets => self.caret_event(event),
                Topic::Find => self.find_event(event),
                Topic::View => self.view_event(event),
                Topic::Files => self.file_event(event),
                Topic::Panels => self.panel_event(event),
                Topic::Language => self.language_event(event),
            }
        }
    }
}

impl EditorApp {
    /// Do what an event asks for.
    pub fn handle_event(&mut self, event: EditorEvent)
        requires
            old(self)@.wf(),
        ensures
            final(self)@ == old(self)@.after(event),
            final(self)@.wf(),
    {
        proof {
            reveal(AppV::after);
        }
        if self.shows_table() && !csv_table_allows_event(&event) {
            self.set_status("CSV table view is read-only; switch to Source for editor commands.");
            return;
        }
        if modifies_buffer(&event) && self.shows_preview() {
            self.set_status("Markdown preview is read-only; switch to Source or Split to edit.");
            return;
        }
        match topic(&event) {
            Topic::Text => self.on_text_event(event),
            Topic::Carets => self.on_caret_event(event),
            Topic::Find => self.on_find_event(event),
            Topic::View => self.on_view_event(event),
            Topic::Files => self.on_file_event(event),
            Topic::Panels => self.on_panel_event(event),
            Topic::Language => self.on_language_event(event),
        }
    }
}

} // verus!

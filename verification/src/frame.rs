//! A frame of the window: which parts it has, what it takes note of and what
//! clicking its parts does.

use vstd::prelude::*;

use crate::config::ConfigV;
use crate::document::{DocV, ViewState};
use crate::event::{EditorEvent, KeyContext};
use crate::lines::line_total;
use crate::modes::MarkdownPreviewMode;
use crate::panels::{CloseChoice, CloseConfirm, FuzzyV, PaletteV, ProjectSearchV, TreeV};
use crate::session::uncolored;
use crate::state::{AppV, EditorApp, LookV, Ui};

verus! {

// ----- the parts of a frame -----

/// A text of more lines is not drawn small beside itself.
pub const MINIMAP_MAX_LINES: usize = 5000;

/// Which parts a frame has besides the header, the status bar and the text.
#[derive(Debug, Clone, Copy, PartialEq, Eq, Structural)]
pub struct FrameParts {
    pub find_bar: bool,
    /// The second row of the find bar.
    pub replace_row: bool,
    pub go_to_line_bar: bool,
    pub rename_bar: bool,
    pub tree: bool,
    pub minimap: bool,
    /// The text is too long to be drawn small.
    pub minimap_too_large: bool,
    /// The text itself.
    pub source: bool,
    /// The Markdown preview, beside the text or in place of it.
    pub preview: bool,
    /// A table in place of the text.
    pub table: bool,
    pub close_prompt: bool,
    pub project_search: bool,
    pub palette: bool,
    pub finder: bool,
    pub symbols: bool,
    pub help: bool,
    pub settings: bool,
    pub completions: bool,
    pub hover: bool,
}

impl AppV {
    /// How the active document is shown as Markdown; another document always as
    /// its source.
    pub open spec fn markdown_view(self) -> MarkdownPreviewMode {
        if self.doc().is_language("markdown"@) {
            self.ui.markdown_preview_mode
        } else {
            MarkdownPreviewMode::Source
        }
    }

    pub open spec fn parts(self) -> FrameParts {
        let view = self.markdown_view();
        FrameParts {
            find_bar: self.search.bar_open,
            replace_row: self.search.bar_open && self.search.replace_bar_open,
            go_to_line_bar: self.dialogs.go_to_line is Some,
            rename_bar: self.dialogs.rename is Some,
            tree: self.ui.project_tree_open,
            minimap: self.ui.minimap_open && view != MarkdownPreviewMode::Preview
                && !self.shows_table(),
            minimap_too_large: line_total(self.buf().text) > MINIMAP_MAX_LINES,
            source: view != MarkdownPreviewMode::Preview && !self.shows_table(),
            preview: view != MarkdownPreviewMode::Source,
            table: self.shows_table(),
            close_prompt: self.dialogs.close_confirm is Some,
            project_search: self.panels.project_search.open,
            palette: self.panels.palette.open,
            finder: self.panels.fuzzy.open,
            symbols: self.panels.symbols.open,
            help: self.ui.keybindings_help_open,
            settings: self.ui.settings_open,
            completions: self.lsp.completion.open,
            hover: self.lsp.hover.open && self.lsp.hover.text.len() > 0,
        }
    }
}

/// Law: the text of a document is shown exactly where neither a preview nor a
/// table takes its place, and the small picture of it never without it.
pub proof fn law_source_or_its_stand_in(s: AppV)
    ensures
        s.parts().source || s.parts().preview || s.parts().table,
        s.parts().minimap ==> s.parts().source,
        s.shows_preview() ==> !s.parts().source && s.parts().preview,
        s.shows_table() ==> !s.parts().source,
{
}

impl EditorApp {
    pub(crate) fn markdown_shown_as(&self) -> (r: MarkdownPreviewMode)
        requires
            self@.wf(),
        ensures
            r == self@.markdown_view(),
    {
        if self.active_doc().is_language("markdown") {
            self.ui().markdown_preview_mode
        } else {
            MarkdownPreviewMode::Source
        }
    }

    /// Which parts the next frame has.
    pub fn frame_parts(&self) -> (r: FrameParts)
        requires
            self@.wf(),
        ensures
            r == self@.parts(),
    {
        let view: MarkdownPreviewMode = self.markdown_shown_as();
        let table: bool = self.shows_table();
        let ui: Ui = self.ui();
        let preview_only: bool = match view {
            MarkdownPreviewMode::Preview => true,
            _ => false,
        };
        let preview: bool = match view {
            MarkdownPreviewMode::Source => false,
            _ => true,
        };
        FrameParts {
            find_bar: self.search().bar_open,
            replace_row: self.search().bar_open && self.search().replace_bar_open,
            go_to_line_bar: self.dialogs().go_to_line.is_some(),
            rename_bar: self.dialogs().rename.is_some(),
            tree: ui.project_tree_open,
            minimap: ui.minimap_open && !preview_only && !table,
            minimap_too_large: self.active_buffer().line_count() > MINIMAP_MAX_LINES,
            source: !preview_only && !table,
            preview,
            table,
            close_prompt: self.dialogs().close_confirm.is_some(),
            project_search: self.panels().project_search.open,
            palette: self.panels().command_palette.open,
            finder: self.panels().fuzzy_finder.open,
            symbols: self.panels().symbol_picker.open,
            help: ui.keybindings_help_open,
            settings: ui.settings_open,
            completions: self.lsp().completion.open,
            hover: self.lsp().hover.open && !self.lsp().hover.text.as_str().is_empty(),
        }
    }
}

// ----- keys -----

impl EditorApp {
    /// What the meaning of a key in the terminal depends on. Which of the two
    /// fields of the project-wide search is being typed in, the caller knows.
    pub fn key_context(&self, replace_focused: bool) -> (r: KeyContext)
        requires
            self@.wf(),
        ensures
            r.fuzzy_open == self@.panels.fuzzy.open,
            r.fuzzy_query@ == self@.panels.fuzzy.query,
            r.palette_open == self@.panels.palette.open,
            r.palette_query@ == self@.panels.palette.query,
            r.project_search_open == self@.panels.project_search.open,
            r.project_search_confirm == self@.panels.project_search.confirm_replace,
            r.project_search_replace_focused == replace_focused,
            r.project_search_query@ == self@.panels.project_search.query,
            r.project_search_replace_query@ == self@.panels.project_search.replace_query,
            r.find_open == self@.search.bar_open,
            r.replace_open == self@.search.replace_bar_open,
            r.find_query@ == self@.search.query,
            r.replace_query@ == self@.search.replace_query,
            r.tree_open == self@.ui.project_tree_open,
            r.tree_loaded == self@.panels.tree.loaded,
    {
        let search = self.search();
        let panels = self.panels();
        KeyContext {
            fuzzy_open: panels.fuzzy_finder.open,
            fuzzy_query: panels.fuzzy_finder.query.clone(),
            palette_open: panels.command_palette.open,
            palette_query: panels.command_palette.query.clone(),
            project_search_open: panels.project_search.open,
            project_search_confirm: panels.project_search.confirm_replace,
            project_search_replace_focused: replace_focused,
            project_search_query: panels.project_search.query.clone(),
            project_search_replace_query: panels.project_search.replace_query.clone(),
            find_open: search.bar_open,
            replace_open: search.replace_bar_open,
            find_query: search.query.clone(),
            replace_query: search.replace_query.clone(),
            tree_open: self.ui().project_tree_open,
            tree_loaded: panels.project_tree.loaded,
        }
    }
}

// ----- scrolling and the caret -----

/// How many lines are kept visible around the caret. A window that is too low
/// for the margin gets none.
pub open spec fn margin_for(viewport_lines: int, margin: int) -> int {
    if viewport_lines > 2 * margin + 1 { margin } else { 0 }
}

pub fn effective_margin(viewport_lines: usize, margin: usize) -> (r: usize)
    ensures
        r == margin_for(
            if viewport_lines == 0 { 1 } else { viewport_lines as int },
            margin as int,
        ),
{
    let lines: usize = if viewport_lines == 0 { 1 } else { viewport_lines };
    if margin <= (lines - 1) / 2 && lines > 2 * margin + 1 {
        margin
    } else {
        0
    }
}

impl AppV {
    /// The caret has moved since it was last drawn.
    pub open spec fn cursor_moved(self) -> bool {
        self.buf().cursor() != self.doc().view.last_seen_cursor
    }

    /// The caret is drawn at its place at once, not on its way there.
    pub open spec fn caret_jumps(self, scrolled: bool) -> bool {
        !self.config.caret_animation || scrolled || self.active != self.ui.prev_active
            || self.ui.caret_snapped
    }

    pub open spec fn caret_drawn(self) -> AppV {
        AppV { ui: Ui { prev_active: self.active, caret_snapped: false, ..self.ui }, ..self }
    }

    pub open spec fn cursor_seen(self, seen: usize) -> AppV {
        self.with_doc(
            DocV { view: ViewState { last_seen_cursor: seen, ..self.doc().view }, ..self.doc() },
        )
    }
}

impl EditorApp {
    /// Whether the caret has moved since it was last drawn, so that the window
    /// has to follow it.
    pub fn cursor_moved(&self) -> (r: bool)
        requires
            self@.wf(),
        ensures
            r == self@.cursor_moved(),
    {
        self.active_buffer().cursor() != self.active_doc().view.last_seen_cursor
    }

    /// Whether the caret is drawn at its place at once: without animation, when
    /// the window has scrolled with it, in another tab or when it was told to.
    pub fn draw_caret(&mut self, scrolled: bool) -> (r: bool)
        requires
            old(self)@.wf(),
        ensures
            r == old(self)@.caret_jumps(scrolled),
            final(self)@ == old(self)@.caret_drawn(),
            final(self)@.wf(),
    {
        let ui: Ui = self.ui();
        let active: usize = self.active();
        let jumps: bool = !self.config().caret_animation || scrolled || active != ui.prev_active
            || ui.caret_snapped;
        let u = self.ui_mut();
        u.prev_active = active;
        u.caret_snapped = false;
        jumps
    }

    /// Note how many lines fit in the window; a window without lines is not
    /// noted.
    pub fn set_viewport_lines(&mut self, lines: usize)
        requires
            old(self)@.wf(),
        ensures
            final(self)@ == (if lines > 0 {
                AppV { ui: Ui { viewport_lines: lines, ..old(self)@.ui }, ..old(self)@ }
            } else {
                old(self)@
            }),
            final(self)@.wf(),
    {
        if lines > 0 {
            self.ui_mut().viewport_lines = lines;
        }
    }

    /// Note the caret position that was drawn.
    pub fn finish_frame(&mut self, seen: usize)
        requires
            old(self)@.wf(),
        ensures
            final(self)@ == old(self)@.cursor_seen(seen),
            final(self)@.wf(),
    {
        self.active_doc_mut().view.last_seen_cursor = seen;
    }
}

/// Law: once a frame is drawn, the caret does not count as moved, until it
/// moves.
pub proof fn law_drawn_caret_rests(s: AppV)
    requires
        s.wf(),
    ensures
        !s.cursor_seen(s.buf().cursor()).cursor_moved(),
        s.cursor_seen(s.buf().cursor()).buf() == s.buf(),
{
}

// ----- clicks -----

impl AppV {
    /// A button of the question before a document is closed.
    pub open spec fn close_button(self, choice: CloseChoice) -> AppV {
        match self.dialogs.close_confirm {
            None => self,
            Some(c) => self.with_choice(Some(CloseConfirm { choice, ..c })).choice_confirmed(),
        }
    }

    pub open spec fn tree_row_clicked(self, row: usize) -> AppV {
        self.with_tree(
            TreeV { focused: true, selected: row, ..self.panels.tree },
        ).tree_opened()
    }

    pub open spec fn result_clicked(self, row: usize) -> AppV {
        self.with_project_search(
            ProjectSearchV { selected: row, ..self.panels.project_search },
        ).after(EditorEvent::ProjectSearchOpenResult)
    }

    pub open spec fn command_row_clicked(self, row: usize) -> AppV {
        self.with_palette(PaletteV { selected: row, ..self.panels.palette }).after(
            EditorEvent::CommandPaletteExecute,
        )
    }

    pub open spec fn file_row_clicked(self, row: usize) -> AppV {
        self.with_fuzzy(FuzzyV { selected: row, ..self.panels.fuzzy }).after(
            EditorEvent::FuzzyFinderExecute,
        )
    }

    /// The text of the window colored by a theme, if there is one of that name.
    pub open spec fn syntax_theme_picked(self, name: Seq<char>) -> AppV {
        if self.look.syntax.has(name) {
            AppV {
                look: LookV { syntax: self.look.syntax.with_theme(name), ..self.look },
                documents: uncolored(self.documents),
                ..self
            }.with_status("Syntax theme: "@ + name)
        } else {
            self
        }
    }
}

impl EditorApp {
    /// Show another document; the one that is shown already stays.
    pub fn click_tab(&mut self, index: usize)
        requires
            old(self)@.wf(),
            index < old(self)@.documents.len(),
        ensures
            final(self)@ == (AppV { active: index, ..old(self)@ }),
            final(self)@.wf(),
    {
        self.set_active(index);
    }

    /// Answer the question before a document is closed.
    pub fn click_close_button(&mut self, choice: CloseChoice)
        requires
            old(self)@.wf(),
        ensures
            final(self)@ == old(self)@.close_button(choice),
            final(self)@.wf(),
    {
        match self.dialogs().close_confirm {
            None => {},
            Some(c) => {
                self.dialogs_mut().close_confirm = Some(CloseConfirm { choice, ..c });
                self.confirm_close_choice();
            },
        }
    }

    /// Select a row of the project tree and open it: a directory is opened or
    /// closed, a file shown.
    pub fn click_tree_row(&mut self, row: usize)
        requires
            old(self)@.wf(),
        ensures
            final(self)@ == old(self)@.tree_row_clicked(row),
            final(self)@.wf(),
    {
        let tree = &mut self.panels_mut().project_tree;
        tree.focused = true;
        tree.selected = row;
        self.open_or_toggle_selected_project_tree_node();
    }

    /// The selected row of the project tree was scrolled into view, if it had
    /// to be.
    pub fn take_tree_reveal(&mut self) -> (r: bool)
        requires
            old(self)@.wf(),
        ensures
            r == old(self)@.panels.tree.reveal_pending,
            final(self)@ == old(self)@.with_tree(
                TreeV { reveal_pending: false, ..old(self)@.panels.tree },
            ),
            final(self)@.wf(),
    {
        let tree = &mut self.panels_mut().project_tree;
        let pending: bool = tree.reveal_pending;
        tree.reveal_pending = false;
        pending
    }

    /// Open a line that a project-wide search has found.
    pub fn click_search_result(&mut self, row: usize)
        requires
            old(self)@.wf(),
        ensures
            final(self)@ == old(self)@.result_clicked(row),
            final(self)@.wf(),
    {
        self.panels_mut().project_search.selected = row;
        self.handle_event(EditorEvent::ProjectSearchOpenResult);
    }

    /// Run a command of the palette.
    pub fn click_command(&mut self, row: usize)
        requires
            old(self)@.wf(),
        ensures
            final(self)@ == old(self)@.command_row_clicked(row),
            final(self)@.wf(),
    {
        self.panels_mut().command_palette.selected = row;
        self.handle_event(EditorEvent::CommandPaletteExecute);
    }

    /// Open a file of the finder.
    pub fn click_file(&mut self, row: usize)
        requires
            old(self)@.wf(),
        ensures
            final(self)@ == old(self)@.file_row_clicked(row),
            final(self)@.wf(),
    {
        self.panels_mut().fuzzy_finder.selected = row;
        self.handle_event(EditorEvent::FuzzyFinderExecute);
    }

    /// Go to a symbol of the picker.
    pub fn click_symbol(&mut self, row: usize)
        requires
            old(self)@.wf(),
        ensures
            final(self)@ == old(self)@.symbol_row(row).symbol_chosen(),
            final(self)@.wf(),
    {
        self.select_symbol(row);
        self.choose_symbol();
    }

    /// Insert a completion.
    pub fn click_completion(&mut self, row: usize)
        requires
            old(self)@.wf(),
        ensures
            final(self)@ == old(self)@.completion_row(row).completion_applied(),
            final(self)@.wf(),
    {
        self.select_completion(row);
        self.apply_lsp_completion();
    }

    /// Take over what was typed as the new name.
    pub fn set_rename_text(&mut self, name: String)
        requires
            old(self)@.wf(),
        ensures
            final(self)@ == (if old(self)@.dialogs.rename is Some {
                old(self)@.with_rename(Some(name@))
            } else {
                old(self)@
            }),
            final(self)@.wf(),
    {
        if self.dialogs().rename.is_some() {
            self.dialogs_mut().rename = Some(crate::panels::RenameDialog { new_name: name });
        }
    }

    /// Close the rename dialog without renaming.
    pub fn cancel_rename(&mut self)
        requires
            old(self)@.wf(),
        ensures
            final(self)@ == old(self)@.with_rename(None),
            final(self)@.wf(),
    {
        self.dialogs_mut().rename = None;
    }

    fn take_rename(&mut self) -> (r: Option<String>)
        requires
            old(self)@.wf(),
        ensures
            crate::buffer::opt_text(r) == old(self)@.dialogs.rename,
            final(self)@ == old(self)@.with_rename(None),
            final(self)@.wf(),
    {
        let dialogs = self.dialogs_mut();
        let taken: Option<crate::panels::RenameDialog> = dialogs.rename.take();
        match taken {
            Some(d) => Some(d.new_name),
            None => None,
        }
    }

    /// Close the rename dialog and rename to what was typed, unless that is
    /// nothing.
    pub fn submit_rename(&mut self)
        requires
            old(self)@.wf(),
        ensures
            match old(self)@.dialogs.rename {
                None => final(self)@ == old(self)@,
                Some(name) => if name.len() == 0 {
                    final(self)@ == old(self)@.with_rename(None)
                } else {
                    exists|new_name: String|
                        new_name@ == name && final(self)@ == #[trigger] old(self)@.with_rename(
                            None,
                        ).after(EditorEvent::RenameApply { new_name })
                },
            },
            final(self)@.wf(),
    {
        if self.dialogs().rename.is_none() {
            return;
        }
        match self.take_rename() {
            None => {},
            Some(new_name) => {
                if !new_name.as_str().is_empty() {
                    assert(new_name@ == old(self)@.dialogs.rename->0);
                    self.handle_event(EditorEvent::RenameApply { new_name });
                }
            },
        }
    }

    /// Color the text by the theme of this name.
    pub fn pick_syntax_theme(&mut self, name: &str)
        requires
            old(self)@.wf(),
        ensures
            final(self)@ == old(self)@.syntax_theme_picked(name@),
            final(self)@.wf(),
    {
        if self.look_mut().syntax.set_theme_by_name(name) {
            self.uncolor_documents();
            let mut text: String = "Syntax theme: ".to_owned();
            text.append(name);
            self.set_status_text(text);
        }
    }

    /// Show the window in the theme of this name.
    pub fn pick_ui_theme(&mut self, name: &str)
        requires
            old(self)@.wf(),
        ensures
            final(self)@ == old(self)@.themed(name@).with_status("UI theme: "@ + name@),
            final(self)@.wf(),
    {
        let known: bool = self.set_color_theme_by_name(name);
        let mut text: String = "UI theme: ".to_owned();
        text.append(name);
        self.set_status_text(text);
    }
}

// ----- the start and the end -----

impl AppV {
    /// The project tree follows the focus to another document.
    pub open spec fn tree_followed(self) -> AppV {
        if self.ui.project_tree_open && self.active != self.ui.prev_active {
            self.tree_synced()
        } else {
            self
        }
    }

    pub open spec fn window_sized(self, width: u32, height: u32) -> AppV {
        AppV {
            config: ConfigV {
                window_width: Some(width),
                window_height: Some(height),
                ..self.config
            },
            ..self
        }
    }

    pub open spec fn left(self) -> AppV {
        let s = self.config_synced();
        AppV { ui: Ui { settings_dirty: false, ..s.ui }, ..s }
    }
}

impl EditorApp {
    /// Show the document that has got the focus in the project tree.
    pub fn follow_active(&mut self)
        requires
            old(self)@.wf(),
        ensures
            final(self)@ == old(self)@.tree_followed(),
            final(self)@.wf(),
    {
        let ui: Ui = self.ui();
        if ui.project_tree_open && self.active() != ui.prev_active {
            self.sync_project_tree_to_active();
        }
    }

    /// Note how large the window is, for the next start.
    pub fn set_window_size(&mut self, width: u32, height: u32)
        requires
            old(self)@.wf(),
        ensures
            final(self)@ == old(self)@.window_sized(width, height),
            final(self)@.wf(),
    {
        let config = self.config_mut();
        config.window_width = Some(width);
        config.window_height = Some(height);
    }

    /// The editor is left: the session is remembered.
    pub fn leave(&mut self)
        requires
            old(self)@.wf(),
        ensures
            final(self)@ == old(self)@.left(),
            final(self)@.wf(),
    {
        self.sync_config();
        self.ui_mut().settings_dirty = false;
    }
}

/// The size that the window starts with: the one it had, if both sides are
/// known.
pub open spec fn start_size(width: Option<u32>, height: Option<u32>) -> (u32, u32) {
    match (width, height) {
        (Some(w), Some(h)) => (w, h),
        _ => (800, 600),
    }
}

pub fn initial_size(width: Option<u32>, height: Option<u32>) -> (r: (u32, u32))
    ensures
        r == start_size(width, height),
{
    match (width, height) {
        (Some(w), Some(h)) => (w, h),
        _ => (800, 600),
    }
}

} // verus!

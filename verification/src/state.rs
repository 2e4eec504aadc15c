//! The state of the editor: its documents, its panels and what it has asked of
//! the program around it.

use vstd::prelude::*;

use crate::buffer::{opt_text, BufferV, TextBuffer};
use crate::config::{Config, ConfigV};
use crate::csv_preview::CsvPreview;
use crate::document::{DocV, Document};
use crate::effect::{effect_view, effects_view, Effect, EffectV};
use crate::event::KeybindingMode;
use crate::markdown::MarkdownPreview;
use crate::modes::{CsvPreviewMode, MarkdownPreviewMode};
use crate::panels::{
    CloseConfirm, CmdLinkState, CommandPalette, CompletionV, FuzzyFinder, FuzzyV, GoToLineDialog,
    HoverV, LspCompletionState, LspDefinitionState, LspHoverState, PaletteV, ProjectSearch,
    ProjectSearchV, RenameDialog, SymbolPicker, SymbolsV, TreePanel, TreeV,
};
use crate::search::{Search, SearchV};
use crate::syntax::{EngineV, SyntaxEngine};
use crate::theme::GuiTheme;

verus! {

/// What is open and switched on.
#[derive(Clone, Copy)]
pub struct Ui {
    /// The document that was active when the last frame was drawn.
    pub prev_active: usize,
    pub should_quit: bool,
    pub keybinding_mode: KeybindingMode,
    /// Number of lines that fit in the window.
    pub viewport_lines: usize,
    /// The caret is drawn at its place, not on its way there.
    pub caret_snapped: bool,
    pub project_tree_open: bool,
    pub minimap_open: bool,
    pub markdown_preview_mode: MarkdownPreviewMode,
    pub csv_preview_mode: CsvPreviewMode,
    pub keybindings_help_open: bool,
    pub settings_open: bool,
    /// Settings were changed and not yet written.
    pub settings_dirty: bool,
    /// A formatted text is to be written when it arrives.
    pub pending_format_save: bool,
    /// Line and column where a column selection began.
    pub column_select_start: Option<(usize, usize)>,
    /// Length and change mark that the language server was last told of.
    pub last_lsp_change_sig: (usize, bool),
    pub window_focused: bool,
}

/// The dialogs that take the keyboard.
pub struct Dialogs {
    pub close_confirm: Option<CloseConfirm>,
    pub go_to_line: Option<GoToLineDialog>,
    pub rename: Option<RenameDialog>,
}

pub struct DialogsV {
    pub close_confirm: Option<CloseConfirm>,
    pub go_to_line: Option<Seq<char>>,
    pub rename: Option<Seq<char>>,
}

impl View for Dialogs {
    type V = DialogsV;

    open spec fn view(&self) -> DialogsV {
        DialogsV {
            close_confirm: self.close_confirm,
            go_to_line: match self.go_to_line {
                Some(d) => Some(d.query@),
                None => None,
            },
            rename: match self.rename {
                Some(d) => Some(d.new_name@),
                None => None,
            },
        }
    }
}

/// The panels around the text.
pub struct Panels {
    pub project_tree: TreePanel,
    pub project_search: ProjectSearch,
    pub fuzzy_finder: FuzzyFinder,
    pub command_palette: CommandPalette,
    pub symbol_picker: SymbolPicker,
}

pub struct PanelsV {
    pub tree: TreeV,
    pub project_search: ProjectSearchV,
    pub fuzzy: FuzzyV,
    pub palette: PaletteV,
    pub symbols: SymbolsV,
}

impl View for Panels {
    type V = PanelsV;

    open spec fn view(&self) -> PanelsV {
        PanelsV {
            tree: self.project_tree@,
            project_search: self.project_search@,
            fuzzy: self.fuzzy_finder@,
            palette: self.command_palette@,
            symbols: self.symbol_picker@,
        }
    }
}

/// What was asked of the language server.
pub struct Lsp {
    pub completion: LspCompletionState,
    pub hover: LspHoverState,
    pub definition: LspDefinitionState,
    pub cmd_link: CmdLinkState,
}

pub struct LspV {
    pub completion: CompletionV,
    pub hover: HoverV,
    pub definition: LspDefinitionState,
    pub cmd_link: CmdLinkState,
}

impl View for Lsp {
    type V = LspV;

    open spec fn view(&self) -> LspV {
        LspV {
            completion: self.completion@,
            hover: self.hover@,
            definition: self.definition,
            cmd_link: self.cmd_link,
        }
    }
}

/// The colors of the window and of the text.
pub struct Look {
    pub syntax: SyntaxEngine,
    pub theme: GuiTheme,
}

pub struct LookV {
    pub syntax: EngineV,
    pub theme: GuiTheme,
}

impl View for Look {
    type V = LookV;

    open spec fn view(&self) -> LookV {
        LookV { syntax: self.syntax@, theme: self.theme }
    }
}

/// What a Markdown and a CSV document were last rendered as.
pub struct Previews {
    pub markdown: MarkdownPreview,
    pub csv: CsvPreview,
}

/// The editor.
pub struct EditorApp {
    /// All open documents. There is always one.
    pub documents: Vec<Document>,
    /// Index of the document that has the focus.
    pub active: usize,
    pub status_message: Option<String>,
    pub search: Search,
    pub ui: Ui,
    pub dialogs: Dialogs,
    pub panels: Panels,
    pub lsp: Lsp,
    pub look: Look,
    pub previews: Previews,
    pub config: Config,
    /// What is still to be done by the program around the editor.
    pub effects: Vec<Effect>,
}

/// What the editor holds.
pub struct AppV {
    pub documents: Seq<DocV>,
    pub active: usize,
    pub status: Option<Seq<char>>,
    pub search: SearchV,
    pub ui: Ui,
    pub dialogs: DialogsV,
    pub panels: PanelsV,
    pub lsp: LspV,
    pub look: LookV,
    pub previews: Previews,
    pub config: ConfigV,
    pub effects: Seq<EffectV>,
}

pub open spec fn docs_view(s: Seq<Document>) -> Seq<DocV> {
    Seq::new(s.len(), |i: int| s[i]@)
}

pub proof fn lemma_docs_update(s: Seq<Document>, i: int, doc: Document)
    requires
        0 <= i < s.len(),
    ensures
        docs_view(s.update(i, doc)) == docs_view(s).update(i, doc@),
{
    assert(docs_view(s.update(i, doc)) =~= docs_view(s).update(i, doc@));
}

impl EditorApp {
    /// Everything the editor holds, piece by piece.
    #[verifier::opaque]
    pub open spec fn snapshot(&self) -> AppV {
        AppV {
            documents: docs_view(self.documents@),
            active: self.active,
            status: opt_text(self.status_message),
            search: self.search@,
            ui: self.ui,
            dialogs: self.dialogs@,
            panels: self.panels@,
            lsp: self.lsp@,
            look: self.look@,
            previews: self.previews,
            config: self.config@,
            effects: effects_view(self.effects@),
        }
    }
}

impl View for EditorApp {
    type V = AppV;

    open spec fn view(&self) -> AppV {
        self.snapshot()
    }
}

/// All buffers are well formed.
pub open spec fn all_wf(docs: Seq<DocV>) -> bool {
    forall|i: int| 0 <= i < docs.len() ==> (#[trigger] docs[i]).buffer.wf()
}

impl AppV {
    /// The focus is on one of the documents, and all their buffers are well
    /// formed.
    pub open spec fn wf(self) -> bool {
        self.active < self.documents.len() && all_wf(self.documents)
    }

    pub open spec fn doc(self) -> DocV {
        self.documents[self.active as int]
    }

    pub open spec fn buf(self) -> BufferV {
        self.doc().buffer
    }

    pub open spec fn with_doc(self, doc: DocV) -> AppV {
        AppV { documents: self.documents.update(self.active as int, doc), ..self }
    }

    pub open spec fn with_buf(self, buffer: BufferV) -> AppV {
        self.with_doc(self.doc().with_buffer(buffer))
    }

    pub open spec fn with_status(self, status: Seq<char>) -> AppV {
        AppV { status: Some(status), ..self }
    }

    pub open spec fn with_effect(self, effect: Effect) -> AppV {
        AppV { effects: self.effects.push(effect_view(effect)), ..self }
    }

    /// A file asked for, to be shown in the active document.
    pub open spec fn with_load(self, path: Seq<char>) -> AppV {
        AppV { effects: self.effects.push(EffectV::LoadFile(path)), ..self }
    }

    /// The file of an open document asked for again.
    pub open spec fn with_reload(self, path: Seq<char>) -> AppV {
        AppV { effects: self.effects.push(EffectV::ReloadFile(path)), ..self }
    }

    /// A single caret at `pos` in the active document.
    pub open spec fn with_cursor(self, pos: int) -> AppV {
        self.with_buf(self.buf().with_cursor(pos))
    }

    /// The active document is a CSV file shown as a table.
    pub open spec fn shows_table(self) -> bool {
        self.doc().is_language("csv"@) && self.ui.csv_preview_mode == CsvPreviewMode::Table
    }

    /// The active document is a Markdown file of which only the preview is
    /// shown.
    pub open spec fn shows_preview(self) -> bool {
        self.doc().is_language("markdown"@) && self.ui.markdown_preview_mode
            == MarkdownPreviewMode::Preview
    }

    /// A dialog with a text field is open, which keys and clipboard belong to.
    pub open spec fn text_modal(self) -> bool {
        self.panels.fuzzy.open || self.panels.palette.open || self.panels.project_search.open
            || self.panels.symbols.open || self.search.bar_open || self.search.replace_bar_open
            || self.dialogs.rename is Some
    }
}

/// Putting a buffer where it already is changes nothing.
pub proof fn lemma_same_buf(s: AppV)
    requires
        s.active < s.documents.len(),
    ensures
        s.with_buf(s.buf()) == s,
        s.with_doc(s.doc()) == s,
{
    assert(s.documents.update(s.active as int, s.doc()) =~= s.documents);
}

impl EditorApp {
    // ----- the active document -----

    /// Index of the document that has the focus.
    pub fn active(&self) -> (r: usize)
        ensures
            r == self@.active,
    {
        proof {
            reveal(EditorApp::snapshot);
        }
        self.active
    }

    pub fn active_doc(&self) -> (r: &Document)
        requires
            self@.wf(),
        ensures
            r@ == self@.doc(),
    {
        proof {
            reveal(EditorApp::snapshot);
        }
        &self.documents[self.active]
    }

    pub fn active_doc_mut(&mut self) -> (r: &mut Document)
        requires
            old(self)@.wf(),
        ensures
            r@ == old(self)@.doc(),
            final(self)@ == old(self)@.with_doc(final(r)@),
    {
        proof {
            reveal(EditorApp::snapshot);
        }
        let i: usize = self.active;
        let r = &mut self.documents[i];
        proof {
            lemma_docs_update(old(self).documents@, i as int, *final(r));
        }
        r
    }

    pub fn active_buffer(&self) -> (r: &TextBuffer)
        requires
            self@.wf(),
        ensures
            r@ == self@.buf(),
            r@.wf(),
    {
        proof {
            reveal(EditorApp::snapshot);
        }
        assert(self@.documents[self.active as int].buffer.wf());
        &self.documents[self.active].buffer
    }

    pub fn active_buffer_mut(&mut self) -> (r: &mut TextBuffer)
        requires
            old(self)@.wf(),
        ensures
            r@ == old(self)@.buf(),
            r@.wf(),
            final(self)@ == old(self)@.with_buf(final(r)@),
    {
        proof {
            reveal(EditorApp::snapshot);
        }
        let i: usize = self.active;
        assert(self@.documents[i as int].buffer.wf());
        let doc = &mut self.documents[i];
        proof {
            lemma_docs_update(old(self).documents@, i as int, *final(doc));
        }
        &mut doc.buffer
    }

    /// Number of open documents.
    pub fn doc_count(&self) -> (r: usize)
        ensures
            r == self@.documents.len(),
    {
        proof {
            reveal(EditorApp::snapshot);
        }
        self.documents.len()
    }

    pub fn is_dirty(&self) -> (r: bool)
        requires
            self@.wf(),
        ensures
            r == self@.buf().dirty,
    {
        proof {
            reveal(EditorApp::snapshot);
        }
        self.active_buffer().is_dirty()
    }

    // ----- small changes -----

    /// A view of find and replace.
    pub fn search(&self) -> (r: &Search)
        ensures
            r@ == self@.search,
    {
        proof {
            reveal(EditorApp::snapshot);
        }
        &self.search
    }

    /// A handle on find and replace.
    pub fn search_mut(&mut self) -> (r: &mut Search)
        ensures
            r@ == old(self)@.search,
            final(self)@ == (AppV { search: final(r)@, ..old(self)@ }),
    {
        proof {
            reveal(EditorApp::snapshot);
        }
        &mut self.search
    }

    /// A view of the dialogs.
    pub fn dialogs(&self) -> (r: &Dialogs)
        ensures
            r@ == self@.dialogs,
    {
        proof {
            reveal(EditorApp::snapshot);
        }
        &self.dialogs
    }

    /// A handle on the dialogs.
    pub fn dialogs_mut(&mut self) -> (r: &mut Dialogs)
        ensures
            r@ == old(self)@.dialogs,
            final(self)@ == (AppV { dialogs: final(r)@, ..old(self)@ }),
    {
        proof {
            reveal(EditorApp::snapshot);
        }
        &mut self.dialogs
    }

    /// A view of the panels.
    pub fn panels(&self) -> (r: &Panels)
        ensures
            r@ == self@.panels,
    {
        proof {
            reveal(EditorApp::snapshot);
        }
        &self.panels
    }

    /// A handle on the panels.
    pub fn panels_mut(&mut self) -> (r: &mut Panels)
        ensures
            r@ == old(self)@.panels,
            final(self)@ == (AppV { panels: final(r)@, ..old(self)@ }),
    {
        proof {
            reveal(EditorApp::snapshot);
        }
        &mut self.panels
    }

    /// A view of what the language server was asked.
    pub fn lsp(&self) -> (r: &Lsp)
        ensures
            r@ == self@.lsp,
    {
        proof {
            reveal(EditorApp::snapshot);
        }
        &self.lsp
    }

    /// A handle on what the language server was asked.
    pub fn lsp_mut(&mut self) -> (r: &mut Lsp)
        ensures
            r@ == old(self)@.lsp,
            final(self)@ == (AppV { lsp: final(r)@, ..old(self)@ }),
    {
        proof {
            reveal(EditorApp::snapshot);
        }
        &mut self.lsp
    }

    /// A view of the colors.
    pub fn look(&self) -> (r: &Look)
        ensures
            r@ == self@.look,
    {
        proof {
            reveal(EditorApp::snapshot);
        }
        &self.look
    }

    /// A handle on the colors.
    pub fn look_mut(&mut self) -> (r: &mut Look)
        ensures
            r@ == old(self)@.look,
            final(self)@ == (AppV { look: final(r)@, ..old(self)@ }),
    {
        proof {
            reveal(EditorApp::snapshot);
        }
        &mut self.look
    }

    /// The last message, if it is still to be shown.
    pub fn status(&self) -> (r: Option<&String>)
        ensures
            r is None <==> self@.status is None,
            r matches Some(m) ==> self@.status == Some(m@),
    {
        proof {
            reveal(EditorApp::snapshot);
        }
        match &self.status_message {
            Some(m) => Some(m),
            None => None,
        }
    }

    pub fn previews(&self) -> (r: &Previews)
        ensures
            *r == self@.previews,
    {
        proof {
            reveal(EditorApp::snapshot);
        }
        &self.previews
    }

    pub fn previews_mut(&mut self) -> (r: &mut Previews)
        ensures
            *r == old(self)@.previews,
            final(self)@ == (AppV { previews: *final(r), ..old(self)@ }),
    {
        proof {
            reveal(EditorApp::snapshot);
        }
        &mut self.previews
    }

    /// A view of the configuration.
    pub fn config(&self) -> (r: &Config)
        ensures
            r@ == self@.config,
    {
        proof {
            reveal(EditorApp::snapshot);
        }
        &self.config
    }

    /// A handle on the configuration.
    pub fn config_mut(&mut self) -> (r: &mut Config)
        ensures
            r@ == old(self)@.config,
            final(self)@ == (AppV { config: final(r)@, ..old(self)@ }),
    {
        proof {
            reveal(EditorApp::snapshot);
        }
        &mut self.config
    }

    /// What is open and switched on.
    pub fn ui(&self) -> (r: Ui)
        ensures
            r == self@.ui,
    {
        proof {
            reveal(EditorApp::snapshot);
        }
        self.ui
    }

    /// A handle on what is open and switched on.
    pub fn ui_mut(&mut self) -> (r: &mut Ui)
        ensures
            *r == old(self)@.ui,
            final(self)@ == (AppV { ui: *final(r), ..old(self)@ }),
    {
        proof {
            reveal(EditorApp::snapshot);
        }
        &mut self.ui
    }

    /// Give another document the focus.
    pub fn set_active(&mut self, index: usize)
        ensures
            final(self)@ == (AppV { active: index, ..old(self)@ }),
    {
        proof {
            reveal(EditorApp::snapshot);
        }
        self.active = index;
    }

    pub fn set_status_text(&mut self, text: String)
        ensures
            final(self)@ == old(self)@.with_status(text@),
    {
        proof {
            reveal(EditorApp::snapshot);
        }
        self.status_message = Some(text);
    }

    pub fn clear_status(&mut self)
        ensures
            final(self)@ == (AppV { status: None, ..old(self)@ }),
    {
        proof {
            reveal(EditorApp::snapshot);
        }
        self.status_message = None;
    }

    /// The document with an index.
    pub fn document(&self, index: usize) -> (r: &Document)
        requires
            index < self@.documents.len(),
        ensures
            r@ == self@.documents[index as int],
    {
        proof {
            reveal(EditorApp::snapshot);
        }
        &self.documents[index]
    }

    /// A handle on the document with an index.
    pub fn document_mut(&mut self, index: usize) -> (r: &mut Document)
        requires
            index < old(self)@.documents.len(),
        ensures
            r@ == old(self)@.documents[index as int],
            final(self)@ == (AppV {
                documents: old(self)@.documents.update(index as int, final(r)@),
                ..old(self)@
            }),
    {
        proof {
            reveal(EditorApp::snapshot);
        }
        let r = &mut self.documents[index];
        proof {
            lemma_docs_update(old(self).documents@, index as int, *final(r));
        }
        r
    }

    pub fn push_document(&mut self, doc: Document)
        ensures
            final(self)@ == (AppV { documents: old(self)@.documents.push(doc@), ..old(self)@ }),
    {
        proof {
            reveal(EditorApp::snapshot);
        }
        self.documents.push(doc);
        assert(docs_view(self.documents@) =~= old(self)@.documents.push(doc@));
    }

    pub fn remove_document(&mut self, index: usize)
        requires
            index < old(self)@.documents.len(),
        ensures
            final(self)@ == (AppV {
                documents: old(self)@.documents.remove(index as int),
                ..old(self)@
            }),
    {
        proof {
            reveal(EditorApp::snapshot);
        }
        let _ = self.documents.remove(index);
        assert(docs_view(self.documents@) =~= old(self)@.documents.remove(index as int));
    }

    pub fn set_status(&mut self, text: &str)
        ensures
            final(self)@ == old(self)@.with_status(text@),
    {
        proof {
            reveal(EditorApp::snapshot);
        }
        self.status_message = Some(text.to_owned());
    }

    pub fn push_effect(&mut self, effect: Effect)
        ensures
            final(self)@ == old(self)@.with_effect(effect),
    {
        proof {
            reveal(EditorApp::snapshot);
        }
        self.effects.push(effect);
        assert(effects_view(self.effects@) =~= old(self)@.effects.push(effect_view(effect)));
    }

    /// Hand over what is to be done, in order.
    pub fn take_effects(&mut self) -> (r: Vec<Effect>)
        ensures
            effects_view(r@) == old(self)@.effects,
            final(self)@ == (AppV { effects: seq![], ..old(self)@ }),
    {
        proof {
            reveal(EditorApp::snapshot);
        }
        let mut out: Vec<Effect> = Vec::new();
        std::mem::swap(&mut out, &mut self.effects);
        assert(self@.effects =~= seq![]);
        out
    }

    /// Leave a single caret in the active document.
    pub fn place_cursor(&mut self, pos: usize)
        requires
            old(self)@.wf(),
        ensures
            final(self)@ == old(self)@.with_cursor(pos as int),
            final(self)@.wf(),
    {
        proof {
            reveal(EditorApp::snapshot);
        }
        self.active_buffer_mut().set_cursor(pos);
    }

    /// Whether a dialog with a text field is open.
    pub fn text_modal_open(&self) -> (r: bool)
        ensures
            r == self@.text_modal(),
    {
        proof {
            reveal(EditorApp::snapshot);
        }
        self.panels.fuzzy_finder.open || self.panels.command_palette.open
            || self.panels.project_search.open || self.panels.symbol_picker.open
            || self.search.bar_open || self.search.replace_bar_open
            || self.dialogs.rename.is_some()
    }

    pub fn shows_table(&self) -> (r: bool)
        requires
            self@.wf(),
        ensures
            r == self@.shows_table(),
    {
        proof {
            reveal(EditorApp::snapshot);
        }
        self.active_doc().is_language("csv") && match self.ui.csv_preview_mode {
            CsvPreviewMode::Table => true,
            _ => false,
        }
    }

    pub fn shows_preview(&self) -> (r: bool)
        requires
            self@.wf(),
        ensures
            r == self@.shows_preview(),
    {
        proof {
            reveal(EditorApp::snapshot);
        }
        self.active_doc().is_language("markdown") && match self.ui.markdown_preview_mode {
            MarkdownPreviewMode::Preview => true,
            _ => false,
        }
    }
}

} // verus!

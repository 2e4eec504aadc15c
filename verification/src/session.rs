//! Starting the editor, its settings and what is kept between sessions.

use vstd::prelude::*;

use crate::buffer::{opt_text, TextBuffer};
use crate::config::{default_config, Config, ConfigV};
use crate::csv_preview::CsvPreview;
use crate::document::{
    blank_info, default_view, defaults_of, fresh_doc, with_defaults, DocV, Document, ViewDefaults,
    ViewState,
};
use crate::effect::Effect;
use crate::event::KeybindingMode;
use crate::markdown::MarkdownPreview;
use crate::modes::{CsvPreviewMode, MarkdownPreviewMode};
use crate::panels::{
    texts, CmdLinkState, CommandPalette, CompletionV, FuzzyFinder, FuzzyV, HoverV,
    LspCompletionState, LspDefinitionState, LspHoverState, PaletteV, ProjectSearch, ProjectSearchV,
    SymbolPicker, SymbolsV, TreePanel, TreeV,
};
use crate::previews::ids_differ;
use crate::search::{empty_search, Search, SearchV};
use crate::state::{
    all_wf, docs_view, AppV, Dialogs, DialogsV, EditorApp, Look, LookV, Lsp, LspV, Panels, PanelsV,
    Previews, Ui,
};
use crate::syntax::{default_engine, EngineV, SyntaxEngine};
use crate::text::{decimal, push_decimal, same_text};
use crate::theme::{all_themes, dark_palette, find_theme, GuiTheme};

verus! {

// ----- choices out of the configuration -----

/// The Markdown view that a label stands for, or else the source.
pub open spec fn markdown_mode_of(label: Option<Seq<char>>) -> MarkdownPreviewMode {
    match label {
        Some(l) => match MarkdownPreviewMode::of_label(l) {
            Some(m) => m,
            None => MarkdownPreviewMode::Source,
        },
        None => MarkdownPreviewMode::Source,
    }
}

/// The CSV view that a label stands for, or else the source.
pub open spec fn csv_mode_of(label: Option<Seq<char>>) -> CsvPreviewMode {
    match label {
        Some(l) => match CsvPreviewMode::of_label(l) {
            Some(m) => m,
            None => CsvPreviewMode::Source,
        },
        None => CsvPreviewMode::Source,
    }
}

/// The theme of a name, or else the dark one.
pub open spec fn theme_of(name: Option<Seq<char>>) -> GuiTheme {
    match name {
        Some(n) => match find_theme(all_themes(), n) {
            Some(t) => t,
            None => dark_palette(),
        },
        None => dark_palette(),
    }
}

/// Documents that have taken over the configured defaults.
pub open spec fn with_document_defaults(docs: Seq<DocV>, defaults: ViewDefaults) -> Seq<DocV> {
    Seq::new(
        docs.len(),
        |i: int| DocV { view: with_defaults(docs[i].view, defaults), ..docs[i] },
    )
}

/// The theme for the text that belongs to a theme of the window.
pub open spec fn syntax_theme_of(name: Seq<char>) -> Seq<char> {
    if name == "Dark"@ {
        "Ocean Dark"@
    } else if name == "Light"@ {
        "Solarized Light"@
    } else {
        name
    }
}

/// The paths of the documents, in their order.
pub open spec fn open_paths(docs: Seq<DocV>) -> Seq<Seq<char>>
    decreases docs.len(),
{
    if docs.len() == 0 {
        seq![]
    } else {
        match docs.last().buffer.path {
            Some(p) => open_paths(docs.drop_last()).push(p),
            None => open_paths(docs.drop_last()),
        }
    }
}

/// The documents that are remembered: those with a file that is not temporary.
pub open spec fn remembered(docs: Seq<DocV>) -> Seq<DocV>
    decreases docs.len(),
{
    if docs.len() == 0 {
        seq![]
    } else if docs.last().info.temporary {
        remembered(docs.drop_last())
    } else {
        remembered(docs.drop_last()).push(docs.last())
    }
}

// ----- the start -----

pub open spec fn closed_search() -> ProjectSearchV {
    ProjectSearchV {
        open: false,
        query: seq![],
        replace_query: seq![],
        results: seq![],
        replace_previews: seq![],
        selected: 0,
        confirm_replace: false,
    }
}

pub open spec fn closed_finder() -> FuzzyV {
    FuzzyV { open: false, query: seq![], items: seq![], filtered: seq![], selected: 0 }
}

pub open spec fn closed_palette() -> PaletteV {
    PaletteV { open: false, query: seq![], filtered: seq![], selected: 0 }
}

pub open spec fn closed_symbols() -> SymbolsV {
    SymbolsV { open: false, query: seq![], items: seq![], filtered: seq![], selected: 0 }
}

pub open spec fn closed_completion() -> CompletionV {
    CompletionV { open: false, items: seq![], selected: 0, pending: false }
}

pub open spec fn closed_hover() -> HoverV {
    HoverV { open: false, text: seq![], request_pos: None }
}

pub open spec fn empty_tree() -> TreeV {
    TreeV {
        loaded: false,
        root: None,
        rows: seq![],
        selected: 0,
        reveal_pending: false,
        focused: false,
    }
}

pub open spec fn no_definition() -> LspDefinitionState {
    LspDefinitionState { pending: false, request_pos: None, from_cmd_click: false }
}

/// The editor before any theme is applied.
pub open spec fn blank_app(
    docs: Seq<DocV>,
    config: ConfigV,
    previews: Previews,
) -> AppV {
    AppV {
        documents: numbered(with_document_defaults(docs, config.document_defaults)),
        active: 0,
        status: None,
        search: empty_search(),
        ui: start_ui(config),
        dialogs: DialogsV { close_confirm: None, go_to_line: None, rename: None },
        panels: PanelsV {
            tree: empty_tree(),
            project_search: closed_search(),
            fuzzy: closed_finder(),
            palette: closed_palette(),
            symbols: closed_symbols(),
        },
        lsp: LspV {
            completion: closed_completion(),
            hover: closed_hover(),
            definition: no_definition(),
            cmd_link: CmdLinkState { range: None },
        },
        look: LookV { syntax: default_engine(), theme: theme_of(config.ui_theme) },
        previews,
        config,
        effects: seq![],
    }
}

/// What is open and switched on at the start.
pub open spec fn start_ui(config: ConfigV) -> Ui {
    Ui {
        prev_active: 0,
        should_quit: false,
        keybinding_mode: config.keybinding_mode,
        viewport_lines: 20,
        caret_snapped: true,
        project_tree_open: match config.project_tree_open {
            Some(open) => open,
            None => true,
        },
        minimap_open: false,
        markdown_preview_mode: markdown_mode_of(config.markdown_view),
        csv_preview_mode: csv_mode_of(config.csv_view),
        keybindings_help_open: false,
        settings_open: false,
        settings_dirty: false,
        pending_format_save: false,
        column_select_start: None,
        last_lsp_change_sig: (0, false),
        window_focused: true,
    }
}

impl AppV {
    /// The editor with the configured theme applied and the first requests
    /// made.
    pub open spec fn started(self) -> AppV {
        self.with_themes(self.config.ui_theme, self.config.theme).tree_refreshed().with_effect(
            Effect::WatchFiles,
        )
    }

    /// The theme of the window applied, or else that of the text.
    pub open spec fn with_themes(self, ui: Option<Seq<char>>, text: Option<Seq<char>>) -> AppV {
        match ui {
            Some(name) => self.themed(name),
            None => match text {
                Some(name) => AppV {
                    look: LookV { syntax: self.look.syntax.with_theme(name), ..self.look },
                    ..self
                },
                None => self,
            },
        }
    }

    /// A theme can be applied: there are colors for the window and for the
    /// text.
    pub open spec fn has_theme(self, name: Seq<char>) -> bool {
        find_theme(all_themes(), name) matches Some(t) && self.look.syntax.has(
            syntax_theme_of(t.name@),
        )
    }

    /// A theme applied to the window and the text together; an unknown one
    /// changes nothing.
    pub open spec fn themed(self, name: Seq<char>) -> AppV {
        if self.has_theme(name) {
            let t = find_theme(all_themes(), name).unwrap();
            let text = syntax_theme_of(t.name@);
            AppV {
                look: LookV { syntax: EngineV { theme: text, ..self.look.syntax }, theme: t },
                config: ConfigV { ui_theme: Some(t.name@), theme: Some(text), ..self.config },
                documents: uncolored(self.documents),
                ..self
            }
        } else {
            self
        }
    }

    /// The project of the active document asked for; without one, an empty
    /// tree.
    pub open spec fn tree_refreshed(self) -> AppV {
        match self.doc().info.project_root {
            Some(root) => self.tree_pointed_at(root@),
            None => self.tree_cleared(),
        }
    }

    pub open spec fn tree_pointed_at(self, root: Seq<char>) -> AppV {
        AppV {
            panels: PanelsV { tree: self.panels.tree.pointed_at(root), ..self.panels },
            ui: Ui { prev_active: self.active, ..self.ui },
            ..self
        }.with_effect(Effect::LoadTree)
    }

    pub open spec fn tree_cleared(self) -> AppV {
        AppV {
            panels: PanelsV { tree: self.panels.tree.cleared(), ..self.panels },
            ui: Ui { prev_active: self.active, ..self.ui },
            ..self
        }
    }

    /// The tree shows the active document's project, and the document can be
    /// found in it.
    pub open spec fn can_reveal(self) -> bool {
        &&& self.doc().info.project_root matches Some(root) && self.panels.tree.root == Some(root@)
        &&& self.panels.tree.loaded
        &&& self.buf().path is Some
        &&& self.doc().info.rel_path is Some
    }

    /// The active document looked for in the tree; if the tree is not its
    /// project's, that project asked for.
    pub open spec fn tree_synced(self) -> AppV {
        if self.can_reveal() {
            AppV { ui: Ui { prev_active: self.active, ..self.ui }, ..self }.with_effect(Effect::RevealInTree)
        } else {
            self.tree_refreshed()
        }
    }

    /// The session state taken over into the configuration, which is to be
    /// written.
    pub open spec fn config_synced(self) -> AppV {
        AppV {
            config: ConfigV {
                theme: Some(self.look.syntax.theme),
                project_tree_open: Some(self.ui.project_tree_open),
                recent_files: open_paths(remembered(self.documents)),
                document_defaults: defaults_of(self.doc().view),
                ..self.config
            },
            ..self
        }.with_effect(Effect::SaveConfig)
    }
}

/// The colors of all documents forgotten.
pub open spec fn uncolored(docs: Seq<DocV>) -> Seq<DocV> {
    Seq::new(docs.len(), |i: int| DocV { syntax: docs[i].syntax.invalidated(), ..docs[i] })
}

/// The carets of all documents reduced to the primary one.
pub open spec fn single_carets(docs: Seq<DocV>) -> Seq<DocV> {
    Seq::new(
        docs.len(),
        |i: int|
            docs[i].with_buffer(docs[i].buffer.with_cursor(docs[i].buffer.cursor() as int)),
    )
}

/// The documents numbered in their order.
pub open spec fn numbered(docs: Seq<DocV>) -> Seq<DocV> {
    Seq::new(docs.len(), |i: int| DocV { id: i as u64, ..docs[i] })
}

proof fn lemma_numbers_differ(after: Seq<DocV>, docs: Seq<DocV>)
    requires
        after == numbered(docs),
        docs.len() <= u64::MAX,
    ensures
        ids_differ(after),
{
    assert forall|i: int, j: int| 0 <= i < j < after.len() implies (#[trigger] after[i]).id != (
    #[trigger] after[j]).id by {
        assert(after[i].id == i && after[j].id == j);
    }
}

fn number_all(documents: &mut Vec<Document>)
    ensures
        docs_view(final(documents)@) == numbered(docs_view(old(documents)@)),
{
    let ghost start = docs_view(documents@);
    let mut i: usize = 0;
    while i < documents.len()
        invariant
            i <= documents.len() == start.len(),
            forall|k: int|
                0 <= k < start.len() ==> (#[trigger] documents@[k])@ == (if k < i {
                    DocV { id: k as u64, ..start[k] }
                } else {
                    start[k]
                }),
        decreases documents.len() - i,
    {
        documents[i].id = i as u64;
        i += 1;
    }
    assert(docs_view(documents@) =~= numbered(start));
}

fn apply_all_defaults(documents: &mut Vec<Document>, defaults: ViewDefaults)
    ensures
        docs_view(final(documents)@) == with_document_defaults(
            docs_view(old(documents)@),
            defaults,
        ),
{
    let ghost start = docs_view(documents@);
    let mut i: usize = 0;
    while i < documents.len()
        invariant
            i <= documents.len() == start.len(),
            forall|k: int|
                0 <= k < start.len() ==> (#[trigger] documents@[k])@ == (if k < i {
                    DocV { view: with_defaults(start[k].view, defaults), ..start[k] }
                } else {
                    start[k]
                }),
        decreases documents.len() - i,
    {
        documents[i].apply_defaults(defaults);
        i += 1;
    }
    assert(docs_view(documents@) =~= with_document_defaults(start, defaults));
}

fn uncolor_all(documents: &mut Vec<Document>)
    ensures
        docs_view(final(documents)@) == uncolored(docs_view(old(documents)@)),
{
    let ghost start = docs_view(documents@);
    let mut i: usize = 0;
    while i < documents.len()
        invariant
            i <= documents.len() == start.len(),
            forall|k: int|
                0 <= k < start.len() ==> (#[trigger] documents@[k])@ == (if k < i {
                    DocV { syntax: start[k].syntax.invalidated(), ..start[k] }
                } else {
                    start[k]
                }),
        decreases documents.len() - i,
    {
        documents[i].syntax.invalidate();
        i += 1;
    }
    assert(docs_view(documents@) =~= uncolored(start));
}

fn keep_primary_carets(documents: &mut Vec<Document>)
    requires
        all_wf(docs_view(old(documents)@)),
    ensures
        docs_view(final(documents)@) == single_carets(docs_view(old(documents)@)),
        all_wf(docs_view(final(documents)@)),
{
    let ghost start = docs_view(documents@);
    let mut i: usize = 0;
    assert forall|k: int| 0 <= k < start.len() implies (
    #[trigger] documents@[k])@.buffer.wf() by {
        assert(start[k].buffer.wf());
    }
    while i < documents.len()
        invariant
            i <= documents.len() == start.len(),
            forall|k: int| 0 <= k < start.len() ==> (#[trigger] documents@[k])@.buffer.wf(),
            forall|k: int|
                0 <= k < start.len() ==> (#[trigger] documents@[k])@ == (if k < i {
                    start[k].with_buffer(start[k].buffer.with_cursor(start[k].buffer.cursor() as int))
                } else {
                    start[k]
                }),
        decreases documents.len() - i,
    {
        let pos: usize = documents[i].buffer.cursor();
        documents[i].buffer.set_cursor(pos);
        i += 1;
    }
    assert(docs_view(documents@) =~= single_carets(start));
}

fn closed_panels() -> (r: Panels)
    ensures
        r@ == (PanelsV {
            tree: empty_tree(),
            project_search: closed_search(),
            fuzzy: closed_finder(),
            palette: closed_palette(),
            symbols: closed_symbols(),
        }),
{
    let r = Panels {
        project_tree: TreePanel {
            loaded: false,
            root: None,
            rows: Vec::new(),
            selected: 0,
            reveal_pending: false,
            focused: false,
        },
        project_search: ProjectSearch {
            open: false,
            query: String::new(),
            replace_query: String::new(),
            results: Vec::new(),
            replace_previews: Vec::new(),
            selected: 0,
            confirm_replace: false,
        },
        fuzzy_finder: FuzzyFinder {
            open: false,
            query: String::new(),
            items: Vec::new(),
            filtered: Vec::new(),
            selected: 0,
        },
        command_palette: CommandPalette {
            open: false,
            query: String::new(),
            filtered: Vec::new(),
            selected: 0,
        },
        symbol_picker: SymbolPicker {
            open: false,
            query: String::new(),
            items: Vec::new(),
            filtered: Vec::new(),
            selected: 0,
        },
    };
    assert(r@.tree =~= empty_tree());
    assert(r@.project_search =~= closed_search());
    assert(r@.fuzzy =~= closed_finder());
    assert(r@.palette =~= closed_palette());
    assert(r@.symbols =~= closed_symbols());
    r
}

fn idle_lsp() -> (r: Lsp)
    ensures
        r@ == (LspV {
            completion: closed_completion(),
            hover: closed_hover(),
            definition: no_definition(),
            cmd_link: CmdLinkState { range: None },
        }),
{
    let r = Lsp {
        completion: LspCompletionState {
            open: false,
            items: Vec::new(),
            selected: 0,
            pending: false,
        },
        hover: LspHoverState { open: false, text: String::new(), request_pos: None },
        definition: LspDefinitionState {
            pending: false,
            request_pos: None,
            from_cmd_click: false,
        },
        cmd_link: CmdLinkState { range: None },
    };
    assert(r@.completion =~= closed_completion());
    assert(r@.hover =~= closed_hover());
    r
}

impl EditorApp {
    /// An editor around a single buffer.
    pub fn new(buffer: TextBuffer) -> (r: EditorApp)
        requires
            buffer@.wf(),
        ensures
            r@.wf(),
            r@.previews.markdown.key is None,
            r@.previews.csv.key is None,
            r@ == blank_app(
                seq![fresh_doc(buffer@, blank_info(), default_view())],
                default_config(),
                r@.previews,
            ).started(),
            r@.previews_true(),
    {
        let mut documents: Vec<Document> = Vec::new();
        documents.push(Document::new(buffer));
        assert(docs_view(documents@) =~= seq![
            fresh_doc(buffer@, blank_info(), default_view()),
        ]);
        EditorApp::new_with_documents(documents, Config::default())
    }

    /// An editor around some documents, the first one active.
    pub fn new_with_documents(documents: Vec<Document>, config: Config) -> (r: EditorApp)
        requires
            documents@.len() > 0,
            forall|i: int|
                0 <= i < documents@.len() ==> (#[trigger] documents@[i])@.buffer.wf(),
        ensures
            r@.wf(),
            r@.previews.markdown.key is None,
            r@.previews.csv.key is None,
            r@ == blank_app(docs_view(documents@), config@, r@.previews).started(),
            r@.previews_true(),
    {
        let ui_theme: Option<String> = config.ui_theme.clone();
        let text_theme: Option<String> = config.theme.clone();
        let ghost docs = with_document_defaults(docs_view(documents@), config@.document_defaults);
        assert(documents@.len() == documents.len());
        let mut app = EditorApp::blank(documents, config);
        let ghost blank = app@;
        app.apply_themes(ui_theme, text_theme);
        app.refresh_project_tree();
        app.sync_watcher();
        assert(app@ == blank.started());
        proof {
            lemma_numbers_differ(blank.documents, docs);
        }
        app
    }

    /// The editor before any theme is applied.
    fn blank(documents: Vec<Document>, config: Config) -> (r: EditorApp)
        requires
            documents@.len() > 0,
            forall|i: int|
                0 <= i < documents@.len() ==> (#[trigger] documents@[i])@.buffer.wf(),
        ensures
            r@.wf(),
            r@.previews.markdown.key is None,
            r@.previews.csv.key is None,
            r@ == blank_app(docs_view(documents@), config@, r@.previews),
    {
        let mut documents = documents;
        let ghost docs = docs_view(documents@);
        apply_all_defaults(&mut documents, config.document_defaults);
        number_all(&mut documents);
        let markdown_preview_mode = match &config.markdown_view {
            Some(label) => match MarkdownPreviewMode::from_label(label.as_str()) {
                Some(mode) => mode,
                None => MarkdownPreviewMode::Source,
            },
            None => MarkdownPreviewMode::Source,
        };
        let csv_preview_mode = match &config.csv_view {
            Some(label) => match CsvPreviewMode::from_label(label.as_str()) {
                Some(mode) => mode,
                None => CsvPreviewMode::Source,
            },
            None => CsvPreviewMode::Source,
        };
        let theme = match &config.ui_theme {
            Some(name) => match GuiTheme::by_name(name.as_str()) {
                Some(t) => t,
                None => GuiTheme::default_dark(),
            },
            None => GuiTheme::default_dark(),
        };
        let ui = Ui {
            prev_active: 0,
            should_quit: false,
            keybinding_mode: config.keybinding_mode,
            viewport_lines: 20,
            caret_snapped: true,
            project_tree_open: match config.project_tree_open {
                Some(open) => open,
                None => true,
            },
            minimap_open: false,
            markdown_preview_mode,
            csv_preview_mode,
            keybindings_help_open: false,
            settings_open: false,
            settings_dirty: false,
            pending_format_save: false,
            column_select_start: None,
            last_lsp_change_sig: (0, false),
            window_focused: true,
        };
        let app = EditorApp {
            documents,
            active: 0,
            status_message: None,
            search: Search::new(),
            ui,
            dialogs: Dialogs { close_confirm: None, go_to_line: None, rename: None },
            panels: closed_panels(),
            lsp: idle_lsp(),
            look: Look { syntax: SyntaxEngine::default_dark(), theme },
            previews: Previews { markdown: MarkdownPreview::new(), csv: CsvPreview::new() },
            config,
            effects: Vec::new(),
        };
        proof {
            reveal(EditorApp::snapshot);
            assert(app@.effects =~= seq![]);
            assert(app@ == blank_app(docs, config@, app.previews));
            assert forall|i: int| 0 <= i < app@.documents.len() implies (
            #[trigger] app@.documents[i]).buffer.wf() by {
                assert(docs[i].buffer.wf());
            }
        }
        app
    }

    /// Apply the theme of the window, or else that of the text.
    fn apply_themes(&mut self, ui_theme: Option<String>, text_theme: Option<String>)
        requires
            old(self)@.wf(),
        ensures
            final(self)@ == old(self)@.with_themes(opt_text(ui_theme), opt_text(text_theme)),
            final(self)@.wf(),
    {
        match &ui_theme {
            Some(name) => {
                self.set_color_theme_by_name(name.as_str());
            },
            None => {
                if let Some(name) = &text_theme {
                    self.look_mut().syntax.set_theme_by_name(name.as_str());
                }
            },
        }
    }

    pub fn uncolor_documents(&mut self)
        ensures
            final(self)@ == (AppV { documents: uncolored(old(self)@.documents), ..old(self)@ }),
    {
        proof {
            reveal(EditorApp::snapshot);
        }
        uncolor_all(&mut self.documents);
    }

    fn drop_extra_carets(&mut self)
        requires
            old(self)@.wf(),
        ensures
            final(self)@ == (AppV { documents: single_carets(old(self)@.documents), ..old(self)@ }),
            final(self)@.wf(),
    {
        proof {
            reveal(EditorApp::snapshot);
        }
        keep_primary_carets(&mut self.documents);
    }

    // ----- themes -----

    /// Apply a theme to the window and the text together. Says whether there
    /// is one of that name; if not, nothing changes.
    pub fn set_color_theme_by_name(&mut self, name: &str) -> (r: bool)
        requires
            old(self)@.wf(),
        ensures
            r == old(self)@.has_theme(name@),
            final(self)@ == old(self)@.themed(name@),
            final(self)@.wf(),
    {
        let theme = match GuiTheme::by_name(name) {
            Some(t) => t,
            None => {
                return false;
            },
        };
        let text: &str = if same_text(theme.name, "Dark") {
            "Ocean Dark"
        } else if same_text(theme.name, "Light") {
            "Solarized Light"
        } else {
            theme.name
        };
        if !self.look_mut().syntax.set_theme_by_name(text) {
            return false;
        }
        self.look_mut().theme = theme;
        let config = self.config_mut();
        config.ui_theme = Some(theme.name.to_owned());
        config.theme = Some(text.to_owned());
        self.uncolor_documents();
        true
    }

    /// Apply the next theme of the list, the first after the last.
    pub fn cycle_theme(&mut self)
        requires
            old(self)@.wf(),
        ensures
            final(self)@ == old(self)@.next_themed(),
            final(self)@.wf(),
    {
        let themes: Vec<GuiTheme> = GuiTheme::all();
        let here: &'static str = self.look().theme.name;
        let mut current: usize = 0;
        while current < themes.len() && !same_text(themes[current].name, here)
            invariant
                current <= themes.len(),
                themes@ == all_themes(),
                theme_index(all_themes(), here@, current as int) == theme_index(
                    all_themes(),
                    here@,
                    0,
                ),
            decreases themes.len() - current,
        {
            current += 1;
        }
        if current == themes.len() {
            current = 0;
        }
        let next: usize = if current + 1 < themes.len() { current + 1 } else { 0 };
        let name: &str = themes[next].name;
        self.set_color_theme_by_name(name);
        let mut text: String = "Theme: ".to_owned();
        text.append(name);
        self.set_status_text(text);
    }

    // ----- settings -----

    /// Choose a keyboard preset. Every document keeps only its primary caret.
    pub fn set_keybinding_mode(&mut self, mode: KeybindingMode)
        requires
            old(self)@.wf(),
        ensures
            final(self)@ == old(self)@.with_keybindings(mode),
            final(self)@.wf(),
    {
        self.config_mut().keybinding_mode = mode;
        self.ui_mut().keybinding_mode = mode;
        self.push_effect(Effect::ResetKeymap);
        self.drop_extra_carets();
        let mut text: String = "Keybindings: ".to_owned();
        text.append(mode.label());
        self.set_status_text(text);
    }

    /// Turn the sliding caret on or off.
    pub fn toggle_caret_animation(&mut self)
        ensures
            final(self)@ == (AppV {
                config: ConfigV {
                    caret_animation: !old(self)@.config.caret_animation,
                    ..old(self)@.config
                },
                ui: Ui { caret_snapped: true, ..old(self)@.ui },
                status: Some(
                    if old(self)@.config.caret_animation {
                        "Caret animation: off"@
                    } else {
                        "Caret animation: on"@
                    },
                ),
                ..old(self)@
            }),
    {
        let on: bool = !self.config().caret_animation;
        self.config_mut().caret_animation = on;
        self.snap_caret_animation();
        if on {
            self.set_status("Caret animation: on");
        } else {
            self.set_status("Caret animation: off");
        }
    }

    /// Draw the caret at its place at once.
    pub fn snap_caret_animation(&mut self)
        ensures
            final(self)@ == (AppV { ui: Ui { caret_snapped: true, ..old(self)@.ui }, ..old(self)@ }),
    {
        self.ui_mut().caret_snapped = true;
    }

    /// Choose how the active document is indented. The width is pulled into
    /// what is possible.
    pub fn set_indent_mode(&mut self, use_spaces: bool, tab_width: usize)
        requires
            old(self)@.wf(),
        ensures
            final(self)@ == old(self)@.indented(use_spaces, tab_width as int),
            final(self)@.wf(),
    {
        let width: usize = if tab_width < 1 {
            1
        } else if tab_width > 16 {
            16
        } else {
            tab_width
        };
        let doc = self.active_doc_mut();
        doc.view.use_spaces = use_spaces;
        doc.view.tab_width = width;
        let mut text: String = if use_spaces {
            "Indent: spaces:".to_owned()
        } else {
            "Indent: tabs (width ".to_owned()
        };
        push_decimal(&mut text, width as u64);
        if !use_spaces {
            text.append(")");
        }
        self.set_status_text(text);
    }

    /// The next of the common indentations: two, four and eight spaces, tabs.
    pub fn cycle_indent_mode(&mut self)
        requires
            old(self)@.wf(),
        ensures
            final(self)@ == old(self)@.indented(
                next_indent(old(self)@.doc().view).0,
                next_indent(old(self)@.doc().view).1,
            ),
            final(self)@.wf(),
    {
        let view: ViewState = self.active_doc().view;
        if !view.use_spaces {
            self.set_indent_mode(true, 2);
        } else if view.tab_width == 2 {
            self.set_indent_mode(true, 4);
        } else if view.tab_width == 4 {
            self.set_indent_mode(true, 8);
        } else if view.tab_width == 8 {
            self.set_indent_mode(false, 4);
        } else {
            self.set_indent_mode(true, 2);
        }
    }

    /// Turn the wrapping of long lines on or off.
    pub fn toggle_soft_wrap(&mut self)
        requires
            old(self)@.wf(),
        ensures
            final(self)@ == old(self)@.wrap_toggled(),
            final(self)@.wf(),
    {
        let doc = self.active_doc_mut();
        let on: bool = !doc.view.soft_wrap;
        doc.view.soft_wrap = on;
        if on {
            self.set_status("Soft-wrap: on");
        } else {
            self.set_status("Soft-wrap: off (horizontal scroll)");
        }
    }

    // ----- previews -----

    fn show_markdown(&mut self, mode: MarkdownPreviewMode)
        ensures
            final(self)@ == old(self)@.markdown_shown(mode),
    {
        self.ui_mut().markdown_preview_mode = mode;
        self.config_mut().markdown_view = Some(mode.label().to_owned());
        let mut text: String = "Markdown view: ".to_owned();
        text.append(mode.label());
        self.set_status_text(text);
    }

    /// Choose how a Markdown document is shown.
    pub fn set_markdown_preview_mode(&mut self, mode: MarkdownPreviewMode)
        requires
            old(self)@.wf(),
        ensures
            final(self)@ == old(self)@.with_markdown_mode(mode),
            final(self)@.wf(),
    {
        if !self.active_doc().is_language("markdown") {
            self.set_status("Markdown preview requires a .md or .markdown file.");
            return;
        }
        self.show_markdown(mode);
        if let MarkdownPreviewMode::Preview = mode {
            self.close_source_bound_overlays();
        }
    }

    /// Source, then both, then the preview, then the source again.
    pub fn cycle_markdown_preview(&mut self)
        requires
            old(self)@.wf(),
        ensures
            final(self)@ == old(self)@.with_markdown_mode(
                old(self)@.ui.markdown_preview_mode.next_spec(),
            ),
            final(self)@.wf(),
    {
        let next = self.ui().markdown_preview_mode.next();
        self.set_markdown_preview_mode(next);
    }

    fn show_csv(&mut self, mode: CsvPreviewMode)
        ensures
            final(self)@ == old(self)@.csv_shown(mode),
    {
        self.ui_mut().csv_preview_mode = mode;
        self.config_mut().csv_view = Some(mode.label().to_owned());
        let mut text: String = "CSV view: ".to_owned();
        text.append(mode.label());
        self.set_status_text(text);
    }

    /// Choose how a CSV document is shown.
    pub fn set_csv_preview_mode(&mut self, mode: CsvPreviewMode)
        requires
            old(self)@.wf(),
        ensures
            final(self)@ == old(self)@.with_csv_mode(mode),
            final(self)@.wf(),
    {
        if !self.active_doc().is_language("csv") {
            self.set_status("CSV table view requires a .csv file.");
            return;
        }
        self.show_csv(mode);
        if let CsvPreviewMode::Table = mode {
            self.close_source_bound_overlays();
        }
    }

    /// Close what acts on the source text, before a view hides it.
    pub fn close_source_bound_overlays(&mut self)
        ensures
            final(self)@ == old(self)@.overlays_closed(),
    {
        let search = self.search_mut();
        search.bar_open = false;
        search.replace_bar_open = false;
        let lsp = self.lsp_mut();
        lsp.completion.open = false;
        lsp.hover.open = false;
        lsp.cmd_link.range = None;
        self.panels_mut().symbol_picker.open = false;
        let dialogs = self.dialogs_mut();
        dialogs.rename = None;
        dialogs.go_to_line = None;
        self.ui_mut().column_select_start = None;
    }

    // ----- what is kept between sessions -----

    /// Take the session state over into the configuration and have it written.
    pub fn sync_config(&mut self)
        requires
            old(self)@.wf(),
        ensures
            final(self)@ == old(self)@.config_synced(),
            final(self)@.wf(),
    {
        let mut recent: Vec<String> = Vec::new();
        let mut i: usize = 0;
        let ghost docs = self@.documents;
        assert(docs.take(0) =~= seq![]);
        assert(texts(recent@) =~= seq![]);
        let count: usize = self.doc_count();
        while i < count
            invariant
                i <= count == docs.len(),
                docs == self@.documents,
                texts(recent@) == open_paths(remembered(docs.take(i as int))),
            decreases count - i,
        {
            let ghost before = recent@;
            let ghost kept = remembered(docs.take(i as int));
            assert(docs.take(i + 1).drop_last() =~= docs.take(i as int));
            let doc: &Document = self.document(i);
            assert(docs.take(i + 1).last() == doc@);
            if !doc.info.temporary {
                assert(kept.push(doc@).drop_last() =~= kept);
                if let Some(path) = doc.path() {
                    recent.push(path.clone());
                    assert(texts(recent@) =~= texts(before).push(path@));
                }
            }
            i += 1;
        }
        assert(docs.take(i as int) =~= docs);
        let view: ViewState = self.active_doc().view;
        let theme: String = self.look().syntax.theme.clone();
        let tree_open: bool = self.ui().project_tree_open;
        let config = self.config_mut();
        config.theme = Some(theme);
        config.project_tree_open = Some(tree_open);
        config.recent_files = recent;
        config.document_defaults = ViewDefaults {
            use_spaces: view.use_spaces,
            tab_width: view.tab_width,
            soft_wrap: view.soft_wrap,
            git_blame_enabled: view.git_blame_enabled,
        };
        self.push_effect(Effect::SaveConfig);
    }

    /// Have the files of all open documents watched.
    pub fn sync_watcher(&mut self)
        ensures
            final(self)@ == old(self)@.with_effect(Effect::WatchFiles),
    {
        self.push_effect(Effect::WatchFiles);
    }

    /// The files of all open documents.
    pub fn watched_paths(&self) -> (r: Vec<String>)
        ensures
            texts(r@) == open_paths(self@.documents),
    {
        let mut out: Vec<String> = Vec::new();
        let mut i: usize = 0;
        let ghost docs = self@.documents;
        assert(docs.take(0) =~= seq![]);
        assert(texts(out@) =~= seq![]);
        let count: usize = self.doc_count();
        while i < count
            invariant
                i <= count == docs.len(),
                docs == self@.documents,
                texts(out@) == open_paths(docs.take(i as int)),
            decreases count - i,
        {
            let ghost before = out@;
            assert(docs.take(i + 1).drop_last() =~= docs.take(i as int));
            if let Some(path) = self.document(i).path() {
                out.push(path.clone());
                assert(texts(out@) =~= texts(before).push(path@));
            }
            i += 1;
        }
        assert(docs.take(i as int) =~= docs);
        out
    }

    // ----- project tree -----

    /// The project directory of the active document.
    pub fn active_root(&self) -> (r: Option<String>)
        requires
            self@.wf(),
        ensures
            r == self@.doc().info.project_root,
    {
        match &self.active_doc().info.project_root {
            Some(root) => Some(root.clone()),
            None => None,
        }
    }

    fn point_tree_at(&mut self, root: String)
        ensures
            final(self)@ == old(self)@.tree_pointed_at(root@),
    {
        let active: usize = self.active();
        self.ui_mut().prev_active = active;
        self.panels_mut().project_tree.point_at(root);
        self.push_effect(Effect::LoadTree);
    }

    fn clear_tree(&mut self)
        ensures
            final(self)@ == old(self)@.tree_cleared(),
    {
        let active: usize = self.active();
        self.ui_mut().prev_active = active;
        self.panels_mut().project_tree.clear();
    }

    /// Ask for the project of the active document.
    pub fn refresh_project_tree(&mut self)
        requires
            old(self)@.wf(),
        ensures
            final(self)@ == old(self)@.tree_refreshed(),
            final(self)@.wf(),
    {
        match self.active_root() {
            Some(root) => self.point_tree_at(root),
            None => self.clear_tree(),
        }
    }

    /// Show the active document in the tree, its own project if need be.
    pub fn sync_project_tree_to_active(&mut self)
        requires
            old(self)@.wf(),
        ensures
            final(self)@ == old(self)@.tree_synced(),
            final(self)@.wf(),
    {
        if self.reveal_active_file_in_project_tree() {
            let active: usize = self.active();
            self.ui_mut().prev_active = active;
        } else {
            self.refresh_project_tree();
        }
    }

    /// Ask for the place of the active document in the tree, if the tree can
    /// hold it.
    pub fn reveal_active_file_in_project_tree(&mut self) -> (r: bool)
        requires
            old(self)@.wf(),
        ensures
            r == old(self)@.can_reveal(),
            final(self)@ == (if r {
                old(self)@.with_effect(Effect::RevealInTree)
            } else {
                old(self)@
            }),
    {
        let doc: &Document = self.active_doc();
        let same_root: bool = match (&doc.info.project_root, &self.panels().project_tree.root) {
            (Some(a), Some(b)) => same_text(a.as_str(), b.as_str()),
            _ => false,
        };
        if same_root && self.panels().project_tree.loaded && doc.path().is_some()
            && doc.info.rel_path.is_some() {
            self.push_effect(Effect::RevealInTree);
            true
        } else {
            false
        }
    }
}

/// The first theme of a name from `i` on; without one, the first of all.
pub open spec fn theme_index(themes: Seq<GuiTheme>, name: Seq<char>, i: int) -> int
    decreases themes.len() - i,
{
    if i >= themes.len() || i < 0 {
        0
    } else if themes[i].name@ == name {
        i
    } else {
        theme_index(themes, name, i + 1)
    }
}

/// The indentation that follows the one of a view: spaces or not, and how
/// many.
pub open spec fn next_indent(view: ViewState) -> (bool, int) {
    if !view.use_spaces {
        (true, 2)
    } else if view.tab_width == 2 {
        (true, 4)
    } else if view.tab_width == 4 {
        (true, 8)
    } else if view.tab_width == 8 {
        (false, 4)
    } else {
        (true, 2)
    }
}

/// A width pulled into what is possible.
pub open spec fn tab_width_of(width: int) -> int {
    if width < 1 {
        1
    } else if width > 16 {
        16
    } else {
        width
    }
}

impl AppV {
    pub open spec fn next_theme(self) -> GuiTheme {
        let themes = all_themes();
        let i = theme_index(themes, self.look.theme.name@, 0);
        themes[if i + 1 < themes.len() { i + 1 } else { 0 }]
    }

    pub open spec fn next_themed(self) -> AppV {
        let name = self.next_theme().name@;
        self.themed(name).with_status("Theme: "@ + name)
    }

    pub open spec fn with_keybindings(self, mode: KeybindingMode) -> AppV {
        AppV {
            config: ConfigV { keybinding_mode: mode, ..self.config },
            ui: Ui { keybinding_mode: mode, ..self.ui },
            documents: single_carets(self.documents),
            ..self
        }.with_effect(Effect::ResetKeymap).with_status("Keybindings: "@ + mode.label_spec())
    }

    pub open spec fn indented(self, use_spaces: bool, width: int) -> AppV {
        let w = tab_width_of(width);
        let doc = DocV {
            view: ViewState { use_spaces, tab_width: w as usize, ..self.doc().view },
            ..self.doc()
        };
        self.with_doc(doc).with_status(
            if use_spaces {
                "Indent: spaces:"@ + decimal(w as nat)
            } else {
                "Indent: tabs (width "@ + decimal(w as nat) + ")"@
            },
        )
    }

    pub open spec fn wrap_toggled(self) -> AppV {
        let on = !self.doc().view.soft_wrap;
        let doc = DocV { view: ViewState { soft_wrap: on, ..self.doc().view }, ..self.doc() };
        self.with_doc(doc).with_status(
            if on { "Soft-wrap: on"@ } else { "Soft-wrap: off (horizontal scroll)"@ },
        )
    }

    /// Everything that acts on the source text closed.
    pub open spec fn overlays_closed(self) -> AppV {
        AppV {
            search: SearchV { bar_open: false, replace_bar_open: false, ..self.search },
            lsp: LspV {
                completion: CompletionV { open: false, ..self.lsp.completion },
                hover: HoverV { open: false, ..self.lsp.hover },
                cmd_link: CmdLinkState { range: None },
                ..self.lsp
            },
            panels: PanelsV {
                symbols: SymbolsV { open: false, ..self.panels.symbols },
                ..self.panels
            },
            dialogs: DialogsV { rename: None, go_to_line: None, ..self.dialogs },
            ui: Ui { column_select_start: None, ..self.ui },
            ..self
        }
    }

    pub open spec fn markdown_shown(self, mode: MarkdownPreviewMode) -> AppV {
        AppV {
            ui: Ui { markdown_preview_mode: mode, ..self.ui },
            config: ConfigV { markdown_view: Some(mode.label_spec()), ..self.config },
            ..self
        }.with_status("Markdown view: "@ + mode.label_spec())
    }

    pub open spec fn with_markdown_mode(self, mode: MarkdownPreviewMode) -> AppV {
        if !self.doc().is_language("markdown"@) {
            self.with_status("Markdown preview requires a .md or .markdown file."@)
        } else {
            if mode == MarkdownPreviewMode::Preview {
                self.markdown_shown(mode).overlays_closed()
            } else {
                self.markdown_shown(mode)
            }
        }
    }

    pub open spec fn csv_shown(self, mode: CsvPreviewMode) -> AppV {
        AppV {
            ui: Ui { csv_preview_mode: mode, ..self.ui },
            config: ConfigV { csv_view: Some(mode.label_spec()), ..self.config },
            ..self
        }.with_status("CSV view: "@ + mode.label_spec())
    }

    pub open spec fn with_csv_mode(self, mode: CsvPreviewMode) -> AppV {
        if !self.doc().is_language("csv"@) {
            self.with_status("CSV table view requires a .csv file."@)
        } else {
            if mode == CsvPreviewMode::Table {
                self.csv_shown(mode).overlays_closed()
            } else {
                self.csv_shown(mode)
            }
        }
    }
}

} // verus!

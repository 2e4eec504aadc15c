//! Where keys and typed text go: to a dialog, to a panel or to the text.

use vstd::prelude::*;

use crate::effect::Effect;
use crate::event::{ClipboardAction, EditorEvent, KeybindingMode};
use crate::state::{AppV, EditorApp, Ui};
use crate::text::chars_of;

verus! {

/// A key of the window.
#[derive(Debug, Clone, Copy, PartialEq, Eq, Structural)]
pub enum GuiKey {
    Escape,
    Enter,
    Tab,
    Backspace,
    ArrowUp,
    ArrowDown,
    ArrowLeft,
    ArrowRight,
    N,
    R,
    Y,
    /// Any other key.
    Other,
}

/// A key that went down or up, with the modifiers that were held.
#[derive(Debug, Clone, Copy, PartialEq, Eq, Structural)]
pub struct KeyPress {
    pub key: GuiKey,
    pub pressed: bool,
    pub command: bool,
    pub ctrl: bool,
    pub shift: bool,
    pub alt: bool,
}

/// What came from the keyboard.
#[derive(Debug)]
pub enum InputKind {
    Key(KeyPress),
    Text(String),
    /// Neither a key nor text.
    Other,
}

/// An input and what it means in several places.
#[derive(Debug)]
pub struct Input {
    pub kind: InputKind,
    /// What it asks of the editor.
    pub translated: Option<EditorEvent>,
    /// What it asks of the file finder.
    pub fuzzy: Option<EditorEvent>,
    /// What it asks of the command palette.
    pub palette: Option<EditorEvent>,
    /// What it asks of the project-wide search.
    pub project_search: Option<EditorEvent>,
    /// It is a copy or a cut that has something to work on.
    pub clipboard: bool,
}

impl InputKind {
    /// A key or text.
    pub open spec fn is_typing(self) -> bool {
        self is Key || self is Text
    }

    /// A key that went down.
    pub open spec fn pressed(self) -> Option<KeyPress> {
        match self {
            InputKind::Key(k) => if k.pressed { Some(k) } else { None },
            _ => None,
        }
    }

    pub open spec fn is_pressed(self, key: GuiKey) -> bool {
        self.pressed() matches Some(k) && k.key == key
    }

    /// A key with the command modifier but without control.
    pub open spec fn is_command(self) -> bool {
        self matches InputKind::Key(k) && k.command && !k.ctrl
    }

    fn typing(&self) -> (r: bool)
        ensures
            r == self.is_typing(),
    {
        match self {
            InputKind::Key(_) => true,
            InputKind::Text(_) => true,
            InputKind::Other => false,
        }
    }

    fn press(&self) -> (r: Option<KeyPress>)
        ensures
            r == self.pressed(),
    {
        match self {
            InputKind::Key(k) => {
                if k.pressed {
                    Some(*k)
                } else {
                    None
                }
            },
            _ => None,
        }
    }

    fn is_down(&self, key: GuiKey) -> (r: bool)
        ensures
            r == self.is_pressed(key),
    {
        match self.press() {
            Some(k) => k.key == key,
            None => false,
        }
    }

    fn command(&self) -> (r: bool)
        ensures
            r == self.is_command(),
    {
        match self {
            InputKind::Key(k) => k.command && !k.ctrl,
            _ => false,
        }
    }
}

// ----- what keys mean to the find bar and the tree -----

/// What a key asks of the find bar. A search that began backwards swaps the
/// directions of Enter.
pub open spec fn find_bar_event(kind: InputKind, backward: bool) -> Option<EditorEvent> {
    match kind.pressed() {
        None => None,
        Some(k) => match k.key {
            GuiKey::Escape => Some(EditorEvent::FindClose),
            GuiKey::Enter => if k.shift != backward {
                Some(EditorEvent::FindPrev)
            } else {
                Some(EditorEvent::FindNext)
            },
            GuiKey::R => if k.alt { Some(EditorEvent::ToggleFindRegex) } else { None },
            _ => None,
        },
    }
}

pub fn find_bar_translate(kind: &InputKind, backward: bool) -> (r: Option<EditorEvent>)
    ensures
        r == find_bar_event(*kind, backward),
{
    match kind.press() {
        None => None,
        Some(k) => match k.key {
            GuiKey::Escape => Some(EditorEvent::FindClose),
            GuiKey::Enter => {
                if k.shift != backward {
                    Some(EditorEvent::FindPrev)
                } else {
                    Some(EditorEvent::FindNext)
                }
            },
            GuiKey::R => {
                if k.alt {
                    Some(EditorEvent::ToggleFindRegex)
                } else {
                    None
                }
            },
            _ => None,
        },
    }
}

/// What a key asks of the project tree.
pub open spec fn tree_event(kind: InputKind) -> Option<EditorEvent> {
    match kind.pressed() {
        None => None,
        Some(k) => match k.key {
            GuiKey::Escape => Some(EditorEvent::ToggleProjectTree),
            GuiKey::ArrowUp => Some(EditorEvent::ProjectTreeMove { delta: (-1) as isize }),
            GuiKey::ArrowDown => Some(EditorEvent::ProjectTreeMove { delta: 1 }),
            GuiKey::Enter => Some(EditorEvent::ProjectTreeOpen),
            _ => None,
        },
    }
}

pub fn project_tree_translate(kind: &InputKind) -> (r: Option<EditorEvent>)
    ensures
        r == tree_event(*kind),
{
    match kind.press() {
        None => None,
        Some(k) => match k.key {
            GuiKey::Escape => Some(EditorEvent::ToggleProjectTree),
            GuiKey::ArrowUp => Some(EditorEvent::ProjectTreeMove { delta: -1 }),
            GuiKey::ArrowDown => Some(EditorEvent::ProjectTreeMove { delta: 1 }),
            GuiKey::Enter => Some(EditorEvent::ProjectTreeOpen),
            _ => None,
        },
    }
}

// ----- prompts -----

impl AppV {
    /// A prompt is up that takes all input.
    pub open spec fn modal_open(self) -> bool {
        self.dialogs.close_confirm is Some || self.dialogs.go_to_line is Some
    }

    /// A key while the user is asked about closing a document.
    pub open spec fn close_key(self, k: KeyPress) -> AppV {
        match k.key {
            GuiKey::Escape => self.close_cancelled(),
            GuiKey::N => if !k.command && !k.ctrl { self.close_cancelled() } else { self },
            GuiKey::Tab => self.choice_cycled(if k.shift { -1 } else { 1 }),
            GuiKey::ArrowRight => self.choice_cycled(1),
            GuiKey::ArrowLeft => self.choice_cycled(-1),
            GuiKey::Enter => self.choice_confirmed(),
            GuiKey::Y => self.discarded(),
            _ => self,
        }
    }

    /// A key while a line number is asked for.
    pub open spec fn line_key(self, k: KeyPress) -> AppV {
        match k.key {
            GuiKey::Escape => self.line_cancelled(),
            GuiKey::Enter => self.line_submitted(),
            GuiKey::Backspace => self.line_erased(),
            _ => self,
        }
    }

    /// The first `n` characters typed into the line number.
    pub open spec fn line_chars(self, chars: Seq<char>, n: int) -> AppV
        decreases n,
    {
        if n <= 0 {
            self
        } else {
            self.line_chars(chars, n - 1).line_typed(chars[n - 1])
        }
    }

    /// An input while a prompt is up. The question about closing comes first.
    pub open spec fn modal_input(self, kind: InputKind) -> AppV {
        if self.dialogs.close_confirm is Some {
            match kind.pressed() {
                Some(k) => self.close_key(k),
                None => self,
            }
        } else if self.dialogs.go_to_line is Some {
            match kind {
                InputKind::Text(text) => self.line_chars(text@, text@.len() as int),
                _ => match kind.pressed() {
                    Some(k) => self.line_key(k),
                    None => self,
                },
            }
        } else {
            self
        }
    }
}

impl EditorApp {
    fn on_close_key(&mut self, k: KeyPress)
        requires
            old(self)@.wf(),
        ensures
            final(self)@ == old(self)@.close_key(k),
            final(self)@.wf(),
    {
        match k.key {
            GuiKey::Escape => self.cancel_close(),
            GuiKey::N => {
                if !k.command && !k.ctrl {
                    self.cancel_close();
                }
            },
            GuiKey::Tab => self.cycle_close_choice(if k.shift { -1 } else { 1 }),
            GuiKey::ArrowRight => self.cycle_close_choice(1),
            GuiKey::ArrowLeft => self.cycle_close_choice(-1),
            GuiKey::Enter => self.confirm_close_choice(),
            GuiKey::Y => self.discard(),
            _ => {},
        }
    }

    fn on_line_key(&mut self, k: KeyPress)
        requires
            old(self)@.wf(),
        ensures
            final(self)@ == old(self)@.line_key(k),
            final(self)@.wf(),
    {
        match k.key {
            GuiKey::Escape => self.cancel_go_to_line_dialog(),
            GuiKey::Enter => self.submit_go_to_line_dialog(),
            GuiKey::Backspace => self.pop_go_to_line_query(),
            _ => {},
        }
    }

    fn on_line_text(&mut self, text: &str)
        requires
            old(self)@.wf(),
        ensures
            final(self)@ == old(self)@.line_chars(text@, text@.len() as int),
            final(self)@.wf(),
    {
        let chars: Vec<char> = chars_of(text);
        let mut i: usize = 0;
        while i < chars.len()
            invariant
                i <= chars.len(),
                chars@ == text@,
                self@.wf(),
                self@ == old(self)@.line_chars(text@, i as int),
            decreases chars.len() - i,
        {
            self.push_go_to_line_query(chars[i]);
            i += 1;
        }
    }

    /// Give an input to the prompt that is up. Says whether one is.
    pub fn dispatch_modal_event(&mut self, kind: &InputKind) -> (r: bool)
        requires
            old(self)@.wf(),
        ensures
            r == old(self)@.modal_open(),
            final(self)@ == old(self)@.modal_input(*kind),
            final(self)@.wf(),
    {
        if self.dialogs().close_confirm.is_some() {
            match kind.press() {
                Some(k) => self.on_close_key(k),
                None => {},
            }
            return true;
        }
        if self.dialogs().go_to_line.is_some() {
            match kind {
                InputKind::Text(text) => self.on_line_text(text.as_str()),
                _ => match kind.press() {
                    Some(k) => self.on_line_key(k),
                    None => {},
                },
            }
            return true;
        }
        false
    }
}

// ----- the way of an input -----

/// Where an input goes.
#[derive(Debug, Clone, Copy, PartialEq, Eq, Structural)]
pub enum Route {
    /// To the prompt that is up.
    Prompt,
    /// To the editor, as what it was translated to.
    Editor,
    /// It closes the settings.
    CloseSettings,
    /// It is a copy or a cut.
    Clipboard,
    Symbols,
    FindBar,
    Finder,
    Palette,
    ProjectSearch,
    CloseHover,
    Completion,
    Tree,
    CloseHelp,
    /// To the keyboard preset first, then to the editor.
    Keymap,
    /// Nowhere: a widget takes it, or it means nothing here.
    Nowhere,
}

impl AppV {
    /// The editor's own bindings come before those of the keyboard preset.
    pub open spec fn own_bindings(self, input: Input) -> bool {
        self.ui.keybinding_mode == KeybindingMode::Standard || input.kind.is_command()
    }

    /// Quit or close: meant for the application whatever is open.
    pub open spec fn app_shortcut(self, input: Input) -> bool {
        self.own_bindings(input) && (input.translated == Some(EditorEvent::Quit)
            || input.translated == Some(EditorEvent::CloseDoc))
    }

    /// Where an input goes, from the foremost receiver to the text.
    pub open spec fn route(self, input: Input) -> Route {
        let kind = input.kind;
        if self.modal_open() {
            Route::Prompt
        } else if self.app_shortcut(input) {
            Route::Editor
        } else if self.ui.settings_open && kind.is_typing() {
            if kind.is_pressed(GuiKey::Escape) { Route::CloseSettings } else { Route::Nowhere }
        } else if input.clipboard && !self.text_modal() && !self.shows_table()
            && self.own_bindings(input) {
            Route::Clipboard
        } else {
            self.panel_route(input)
        }
    }

    /// Where an input goes, as far as the panels and popups want it.
    pub open spec fn panel_route(self, input: Input) -> Route {
        let kind = input.kind;
        if self.panels.symbols.open && kind.is_typing() {
            Route::Symbols
        } else if self.search.bar_open && find_bar_event(kind, self.search.backward) is Some {
            Route::FindBar
        } else if self.search.bar_open && kind is Text {
            Route::Nowhere
        } else if self.panels.fuzzy.open && input.fuzzy is Some {
            Route::Finder
        } else if self.panels.palette.open && input.palette is Some {
            Route::Palette
        } else if self.panels.project_search.open && input.project_search is Some {
            Route::ProjectSearch
        } else if (self.panels.project_search.open || self.panels.fuzzy.open
            || self.panels.palette.open) && kind.is_typing() {
            Route::Nowhere
        } else {
            self.popup_route(input)
        }
    }

    pub open spec fn popup_route(self, input: Input) -> Route {
        let kind = input.kind;
        if self.lsp.hover.open && kind.is_pressed(GuiKey::Escape) {
            Route::CloseHover
        } else if self.lsp.completion.open && kind.is_typing() {
            Route::Completion
        } else if self.dialogs.rename is Some && kind.is_typing() {
            Route::Nowhere
        } else if self.ui.project_tree_open && self.panels.tree.focused && tree_event(kind) is Some {
            Route::Tree
        } else if self.ui.keybindings_help_open && kind.is_typing() {
            if kind.is_pressed(GuiKey::Escape) { Route::CloseHelp } else { Route::Nowhere }
        } else if !self.shows_preview() && !self.shows_table() && !self.text_modal() {
            Route::Keymap
        } else {
            Route::Editor
        }
    }
}

impl EditorApp {
    fn own_bindings(&self, input: &Input) -> (r: bool)
        ensures
            r == self@.own_bindings(*input),
    {
        self.ui().keybinding_mode == KeybindingMode::Standard || input.kind.command()
    }

    fn app_shortcut(&self, input: &Input) -> (r: bool)
        ensures
            r == self@.app_shortcut(*input),
    {
        self.own_bindings(input) && match &input.translated {
            Some(EditorEvent::Quit) => true,
            Some(EditorEvent::CloseDoc) => true,
            _ => false,
        }
    }

    fn popup_route(&self, input: &Input) -> (r: Route)
        requires
            self@.wf(),
        ensures
            r == self@.popup_route(*input),
    {
        let typing: bool = input.kind.typing();
        let escape: bool = input.kind.is_down(GuiKey::Escape);
        if self.lsp().hover.open && escape {
            Route::CloseHover
        } else if self.lsp().completion.open && typing {
            Route::Completion
        } else if self.dialogs().rename.is_some() && typing {
            Route::Nowhere
        } else if self.ui().project_tree_open && self.panels().project_tree.focused
            && project_tree_translate(&input.kind).is_some() {
            Route::Tree
        } else if self.ui().keybindings_help_open && typing {
            if escape {
                Route::CloseHelp
            } else {
                Route::Nowhere
            }
        } else if !self.shows_preview() && !self.shows_table() && !self.text_modal_open() {
            Route::Keymap
        } else {
            Route::Editor
        }
    }

    fn panel_route(&self, input: &Input) -> (r: Route)
        requires
            self@.wf(),
        ensures
            r == self@.panel_route(*input),
    {
        let typing: bool = input.kind.typing();
        let is_text: bool = match &input.kind {
            InputKind::Text(_) => true,
            _ => false,
        };
        let panels = self.panels();
        let find_open: bool = self.search().bar_open;
        if panels.symbol_picker.open && typing {
            Route::Symbols
        } else if find_open && find_bar_translate(
            &input.kind,
            self.search().backward,
        ).is_some() {
            Route::FindBar
        } else if find_open && is_text {
            Route::Nowhere
        } else if panels.fuzzy_finder.open && input.fuzzy.is_some() {
            Route::Finder
        } else if panels.command_palette.open && input.palette.is_some() {
            Route::Palette
        } else if panels.project_search.open && input.project_search.is_some() {
            Route::ProjectSearch
        } else if (panels.project_search.open || panels.fuzzy_finder.open
            || panels.command_palette.open) && typing {
            Route::Nowhere
        } else {
            self.popup_route(input)
        }
    }

    /// Where an input goes.
    pub fn route(&self, input: &Input) -> (r: Route)
        requires
            self@.wf(),
        ensures
            r == self@.route(*input),
    {
        if self.dialogs().close_confirm.is_some() || self.dialogs().go_to_line.is_some() {
            Route::Prompt
        } else if self.app_shortcut(input) {
            Route::Editor
        } else if self.ui().settings_open && input.kind.typing() {
            if input.kind.is_down(GuiKey::Escape) {
                Route::CloseSettings
            } else {
                Route::Nowhere
            }
        } else if input.clipboard && !self.text_modal_open() && !self.shows_table()
            && self.own_bindings(input) {
            Route::Clipboard
        } else {
            self.panel_route(input)
        }
    }
}

// ----- what an input does on its way -----

impl AppV {
    /// An event done, if there is one.
    pub open spec fn after_opt(self, event: Option<EditorEvent>) -> AppV {
        match event {
            Some(e) => self.after(e),
            None => self,
        }
    }

    /// The settings closed, and written if they were changed.
    pub open spec fn settings_closed(self) -> AppV {
        let s = AppV { ui: Ui { settings_open: false, ..self.ui }, ..self };
        if s.ui.settings_dirty {
            let t = s.config_synced();
            AppV { ui: Ui { settings_dirty: false, ..t.ui }, ..t }
        } else {
            s
        }
    }

    /// A key in the symbol picker.
    pub open spec fn symbol_key(self, key: GuiKey) -> AppV {
        let p = self.panels.symbols;
        match key {
            GuiKey::Escape => self.symbols_closed(),
            GuiKey::ArrowUp => self.symbol_row(row_up(p.selected)),
            GuiKey::ArrowDown => self.symbol_row(row_down(p.selected, p.filtered.len())),
            GuiKey::Enter => self.symbol_chosen(),
            _ => self,
        }
    }

    /// A key in the completion popup.
    pub open spec fn completion_key(self, k: KeyPress) -> AppV {
        let c = self.lsp.completion;
        match k.key {
            GuiKey::Escape => self.completion_closed(),
            GuiKey::ArrowUp => if c.items.len() > 0 {
                self.completion_row(row_up(c.selected))
            } else {
                self
            },
            GuiKey::ArrowDown => self.completion_row(row_down(c.selected, c.items.len())),
            GuiKey::Enter => self.completion_applied(),
            GuiKey::Tab => if k.shift { self } else { self.completion_applied() },
            _ => self,
        }
    }

    pub open spec fn help_closed(self) -> AppV {
        AppV { ui: Ui { keybindings_help_open: false, ..self.ui }, ..self }
    }

    /// What an input does that goes a certain way. Copies and cuts, and what
    /// the keyboard preset is asked about, are left to the caller.
    pub open spec fn routed(self, route: Route, input: Input) -> AppV {
        match route {
            Route::Prompt => self.modal_input(input.kind),
            Route::Editor => self.after_opt(input.translated),
            Route::CloseSettings => self.settings_closed(),
            Route::Clipboard => self,
            Route::Symbols => match input.kind.pressed() {
                Some(k) => self.symbol_key(k.key),
                None => self,
            },
            Route::FindBar => self.after_opt(find_bar_event(input.kind, self.search.backward)),
            Route::Finder => self.after_opt(input.fuzzy),
            Route::Palette => self.after_opt(input.palette),
            Route::ProjectSearch => self.after_opt(input.project_search),
            Route::CloseHover => self.hover_closed(),
            Route::Completion => match input.kind.pressed() {
                Some(k) => self.completion_key(k),
                None => self,
            },
            Route::Tree => self.after_opt(tree_event(input.kind)),
            Route::CloseHelp => self.help_closed(),
            Route::Keymap => self,
            Route::Nowhere => self,
        }
    }
}

/// One row up, not past the first.
pub open spec fn row_up(row: usize) -> usize {
    if row > 0 { (row - 1) as usize } else { 0 }
}

/// One row down, not past the last; in an empty list the row stays.
pub open spec fn row_down(row: usize, len: nat) -> usize {
    if len == 0 {
        row
    } else if row + 1 < len {
        (row + 1) as usize
    } else {
        (len - 1) as usize
    }
}

fn one_down(row: usize, len: usize) -> (r: usize)
    ensures
        r == row_down(row, len as nat),
{
    if len == 0 {
        row
    } else if row < len - 1 {
        row + 1
    } else {
        len - 1
    }
}

/// What is left to the caller of an input.
#[derive(Debug, PartialEq, Eq)]
pub enum InputOutcome {
    Done,
    /// A copy or a cut is to be carried out.
    Clipboard,
    /// The keyboard preset is to be asked; where it does not want the input,
    /// the event is to be handled.
    Keymap(Option<EditorEvent>),
}

pub open spec fn outcome_of(route: Route, input: Input) -> InputOutcome {
    match route {
        Route::Clipboard => InputOutcome::Clipboard,
        Route::Keymap => InputOutcome::Keymap(input.translated),
        _ => InputOutcome::Done,
    }
}

impl EditorApp {
    fn handle_opt(&mut self, event: Option<EditorEvent>)
        requires
            old(self)@.wf(),
        ensures
            final(self)@ == old(self)@.after_opt(event),
            final(self)@.wf(),
    {
        match event {
            Some(e) => self.handle_event(e),
            None => {},
        }
    }

    fn write_settings(&mut self)
        requires
            old(self)@.wf(),
        ensures
            final(self)@ == (AppV {
                ui: Ui { settings_dirty: false, ..old(self)@.config_synced().ui },
                ..old(self)@.config_synced()
            }),
            final(self)@.wf(),
    {
        self.sync_config();
        self.ui_mut().settings_dirty = false;
    }

    /// Close the settings and have them written if they were changed.
    pub fn close_settings(&mut self)
        requires
            old(self)@.wf(),
        ensures
            final(self)@ == old(self)@.settings_closed(),
            final(self)@.wf(),
    {
        self.ui_mut().settings_open = false;
        if self.ui().settings_dirty {
            self.write_settings();
        }
    }

    fn on_symbol_key(&mut self, key: GuiKey)
        requires
            old(self)@.wf(),
        ensures
            final(self)@ == old(self)@.symbol_key(key),
            final(self)@.wf(),
    {
        let row: usize = self.panels().symbol_picker.selected;
        let len: usize = self.panels().symbol_picker.filtered.len();
        match key {
            GuiKey::Escape => self.close_symbols(),
            GuiKey::ArrowUp => self.select_symbol(row.saturating_sub(1)),
            GuiKey::ArrowDown => self.select_symbol(one_down(row, len)),
            GuiKey::Enter => self.choose_symbol(),
            _ => {},
        }
    }

    fn on_completion_key(&mut self, k: KeyPress)
        requires
            old(self)@.wf(),
        ensures
            final(self)@ == old(self)@.completion_key(k),
            final(self)@.wf(),
    {
        let row: usize = self.lsp().completion.selected;
        let len: usize = self.lsp().completion.items.len();
        match k.key {
            GuiKey::Escape => self.close_completion(),
            GuiKey::ArrowUp => {
                if len > 0 {
                    self.select_completion(row.saturating_sub(1));
                }
            },
            GuiKey::ArrowDown => self.select_completion(one_down(row, len)),
            GuiKey::Enter => self.apply_lsp_completion(),
            GuiKey::Tab => {
                if !k.shift {
                    self.apply_lsp_completion();
                }
            },
            _ => {},
        }
    }

    fn close_help(&mut self)
        requires
            old(self)@.wf(),
        ensures
            final(self)@ == old(self)@.help_closed(),
            final(self)@.wf(),
    {
        self.ui_mut().keybindings_help_open = false;
    }

    fn on_picker_press(&mut self, route: Route, kind: &InputKind)
        requires
            old(self)@.wf(),
            route == Route::Symbols || route == Route::Completion,
        ensures
            final(self)@ == (match kind.pressed() {
                Some(k) => if route == Route::Symbols {
                    old(self)@.symbol_key(k.key)
                } else {
                    old(self)@.completion_key(k)
                },
                None => old(self)@,
            }),
            final(self)@.wf(),
    {
        match kind.press() {
            Some(k) => {
                if let Route::Symbols = route {
                    self.on_symbol_key(k.key);
                } else {
                    self.on_completion_key(k);
                }
            },
            None => {},
        }
    }

    fn follow_route(&mut self, route: Route, input: Input) -> (r: InputOutcome)
        requires
            old(self)@.wf(),
        ensures
            r == outcome_of(route, input),
            final(self)@ == old(self)@.routed(route, input),
            final(self)@.wf(),
    {
        let backward: bool = self.search().backward;
        match route {
            Route::Prompt => {
                self.dispatch_modal_event(&input.kind);
            },
            Route::Editor => self.handle_opt(input.translated),
            Route::CloseSettings => self.close_settings(),
            Route::Clipboard => {
                return InputOutcome::Clipboard;
            },
            Route::Symbols => self.on_picker_press(route, &input.kind),
            Route::FindBar => self.handle_opt(find_bar_translate(&input.kind, backward)),
            Route::Finder => self.handle_opt(input.fuzzy),
            Route::Palette => self.handle_opt(input.palette),
            Route::ProjectSearch => self.handle_opt(input.project_search),
            Route::CloseHover => self.close_hover(),
            Route::Completion => self.on_picker_press(route, &input.kind),
            Route::Tree => self.handle_opt(project_tree_translate(&input.kind)),
            Route::CloseHelp => self.close_help(),
            Route::Keymap => {
                return InputOutcome::Keymap(input.translated);
            },
            Route::Nowhere => {},
        }
        InputOutcome::Done
    }

    /// Send an input where it belongs. What is left to do is said.
    pub fn handle_input(&mut self, input: Input) -> (r: InputOutcome)
        requires
            old(self)@.wf(),
        ensures
            r == outcome_of(old(self)@.route(input), input),
            final(self)@ == old(self)@.routed(old(self)@.route(input), input),
            final(self)@.wf(),
    {
        let route: Route = self.route(&input);
        self.follow_route(route, input)
    }

    /// Carry a copy or a cut out: the text goes to the clipboard, and with a
    /// cut the selected text is deleted.
    pub fn apply_clipboard_action(&mut self, action: ClipboardAction)
        requires
            old(self)@.wf(),
        ensures
            final(self)@ == (match action {
                ClipboardAction::Copy(text) => old(self)@.with_effect(Effect::CopyText(text)),
                ClipboardAction::Cut(text) => old(self)@.with_effect(
                    Effect::CopyText(text),
                ).after(EditorEvent::DeleteSelection),
                ClipboardAction::Paste => old(self)@.with_effect(Effect::PasteClipboard),
            }),
            final(self)@.wf(),
    {
        match action {
            ClipboardAction::Copy(text) => self.push_effect(Effect::CopyText(text)),
            ClipboardAction::Cut(text) => {
                self.push_effect(Effect::CopyText(text));
                self.handle_event(EditorEvent::DeleteSelection);
            },
            ClipboardAction::Paste => self.push_effect(Effect::PasteClipboard),
        }
    }

    /// Do what the keyboard preset made of some keys, then show its status.
    pub fn apply_keymap_output(&mut self, events: Vec<EditorEvent>, status: Option<String>)
        requires
            old(self)@.wf(),
        ensures
            final(self)@ == old(self)@.keymap_applied(events@, crate::buffer::opt_text(status)),
            final(self)@.wf(),
    {
        let mut i: usize = 0;
        while i < events.len()
            invariant
                i <= events.len(),
                self@.wf(),
                self@ == old(self)@.after_all(events@, i as int),
            decreases events.len() - i,
        {
            self.handle_event(events[i].copy());
            i += 1;
        }
        match status {
            Some(text) => self.set_status_text(text),
            None => {},
        }
    }
}

impl AppV {
    /// The first `n` events done, one after another.
    pub open spec fn after_all(self, events: Seq<EditorEvent>, n: int) -> AppV
        decreases n,
    {
        if n <= 0 {
            self
        } else {
            self.after_all(events, n - 1).after(events[n - 1])
        }
    }

    pub open spec fn keymap_applied(
        self,
        events: Seq<EditorEvent>,
        status: Option<Seq<char>>,
    ) -> AppV {
        let s = self.after_all(events, events.len() as int);
        match status {
            Some(text) => s.with_status(text),
            None => s,
        }
    }
}

} // verus!

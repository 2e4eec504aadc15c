//! What the editor is asked to do, and which keys ask for it.

use vstd::prelude::*;
use vstd::utf8::*;

use crate::buffer::TextBuffer;
use crate::motion::Movement;

verus! {

/// A built-in keyboard preset.
#[derive(Debug, Clone, Copy, PartialEq, Eq, Structural)]
pub enum KeybindingMode {
    Standard,
    Vim,
    Emacs,
}

impl KeybindingMode {
    pub open spec fn label_spec(self) -> Seq<char> {
        match self {
            KeybindingMode::Standard => "Standard"@,
            KeybindingMode::Vim => "Vim"@,
            KeybindingMode::Emacs => "Emacs"@,
        }
    }

    pub fn label(self) -> (r: &'static str)
        ensures
            r@ == self.label_spec(),
    {
        match self {
            KeybindingMode::Standard => "Standard",
            KeybindingMode::Vim => "Vim",
            KeybindingMode::Emacs => "Emacs",
        }
    }
}

/// Everything the editor can be asked to do.
#[derive(Debug, PartialEq, Eq)]
pub enum EditorEvent {
    SetKeybindingMode(KeybindingMode),
    Insert(char),
    InsertTab,
    DeleteLeft,
    DeleteRight,
    DeleteSelection,
    DeleteWordLeft,
    DeleteWordRight,
    DeleteLine,
    DuplicateLine,
    MoveLineUp,
    MoveLineDown,
    Paste(String),
    Undo,
    Redo,
    Move(Movement),
    SelectExtend(Movement),
    SetCursor { pos: usize },
    SelectExtendTo { pos: usize },
    AddCursor { pos: usize },
    ColumnSelect { from_line: usize, from_col: usize, to_line: usize, to_col: usize },
    SelectNextOccurrence,
    SelectAllOccurrences,
    SelectAll,
    CollapseCursors,
    ToggleComment,
    ScrollLeft,
    ScrollRight,
    FindOpen,
    FindOpenBackward,
    FindClose,
    FindQueryChanged(String),
    FindNext,
    FindPrev,
    ToggleFindRegex,
    ToggleFindCaseSensitive,
    ToggleFindWholeWord,
    ReplaceOpen,
    ReplaceClose,
    ReplaceQueryChanged(String),
    ReplaceOne,
    ReplaceAll,
    SetIndentMode { use_spaces: bool, tab_width: usize },
    CycleIndentMode,
    ToggleSoftWrap,
    ToggleMinimap,
    CycleMarkdownPreview,
    CycleTheme,
    Save,
    SaveAs(Option<String>),
    ReloadFile,
    NewDoc,
    CloseDoc,
    ForceCloseDoc,
    NextDoc,
    PrevDoc,
    OpenFile(Option<String>),
    GoToLine(Option<usize>),
    GoToSymbol,
    ToggleProjectTree,
    ProjectTreeMove { delta: isize },
    ProjectTreeOpen,
    ProjectSearch(Option<String>),
    ProjectSearchQueryChanged(String),
    ProjectSearchMove { delta: isize },
    ProjectSearchOpenResult,
    ProjectSearchClose,
    ProjectSearchReplaceQueryChanged(String),
    ProjectSearchToggleFocus,
    ProjectSearchReplaceAll,
    ProjectSearchReplaceAllConfirm,
    ProjectSearchReplaceAllCancel,
    FuzzyFinder(Option<String>),
    FuzzyFinderQueryChanged(String),
    FuzzyFinderMove { delta: isize },
    FuzzyFinderExecute,
    FuzzyFinderClose,
    CommandPalette(Option<String>),
    CommandPaletteQueryChanged(String),
    CommandPaletteMove { delta: isize },
    CommandPaletteExecute,
    CommandPaletteClose,
    ToggleKeybindingsHelp,
    ToggleGitGutter,
    ToggleGitBlame,
    RefreshGitGutter,
    NextHunk,
    PrevHunk,
    ToggleFold { line: usize },
    UnfoldAll,
    LspCompletion,
    LspHover,
    LspGoToDefinition,
    RenameSymbol,
    RenameApply { new_name: String },
    FormatDocument,
    Quit,
}

/// A copy of an optional text.
pub fn copy_text(text: &Option<String>) -> (r: Option<String>)
    ensures
        r == *text,
{
    match text {
        Some(t) => Some(t.clone()),
        None => None,
    }
}

impl EditorEvent {
    /// The same event once more.
    pub fn copy(&self) -> (r: EditorEvent)
        ensures
            r == *self,
    {
        match self {
            EditorEvent::SetKeybindingMode(x) => EditorEvent::SetKeybindingMode(*x),
            EditorEvent::Insert(x) => EditorEvent::Insert(*x),
            EditorEvent::InsertTab => EditorEvent::InsertTab,
            EditorEvent::DeleteLeft => EditorEvent::DeleteLeft,
            EditorEvent::DeleteRight => EditorEvent::DeleteRight,
            EditorEvent::DeleteSelection => EditorEvent::DeleteSelection,
            EditorEvent::DeleteWordLeft => EditorEvent::DeleteWordLeft,
            EditorEvent::DeleteWordRight => EditorEvent::DeleteWordRight,
            EditorEvent::DeleteLine => EditorEvent::DeleteLine,
            EditorEvent::DuplicateLine => EditorEvent::DuplicateLine,
            EditorEvent::MoveLineUp => EditorEvent::MoveLineUp,
            EditorEvent::MoveLineDown => EditorEvent::MoveLineDown,
            EditorEvent::Paste(t) => EditorEvent::Paste(t.clone()),
            EditorEvent::Undo => EditorEvent::Undo,
            EditorEvent::Redo => EditorEvent::Redo,
            EditorEvent::Move(x) => EditorEvent::Move(*x),
            EditorEvent::SelectExtend(x) => EditorEvent::SelectExtend(*x),
            EditorEvent::SetCursor { pos } => EditorEvent::SetCursor { pos: *pos },
            EditorEvent::SelectExtendTo { pos } => EditorEvent::SelectExtendTo { pos: *pos },
            EditorEvent::AddCursor { pos } => EditorEvent::AddCursor { pos: *pos },
            EditorEvent::ColumnSelect { from_line, from_col, to_line, to_col } => EditorEvent::ColumnSelect { from_line: *from_line, from_col: *from_col, to_line: *to_line, to_col: *to_col },
            EditorEvent::SelectNextOccurrence => EditorEvent::SelectNextOccurrence,
            EditorEvent::SelectAllOccurrences => EditorEvent::SelectAllOccurrences,
            EditorEvent::SelectAll => EditorEvent::SelectAll,
            EditorEvent::CollapseCursors => EditorEvent::CollapseCursors,
            EditorEvent::ToggleComment => EditorEvent::ToggleComment,
            EditorEvent::ScrollLeft => EditorEvent::ScrollLeft,
            EditorEvent::ScrollRight => EditorEvent::ScrollRight,
            EditorEvent::FindOpen => EditorEvent::FindOpen,
            EditorEvent::FindOpenBackward => EditorEvent::FindOpenBackward,
            EditorEvent::FindClose => EditorEvent::FindClose,
            EditorEvent::FindQueryChanged(t) => EditorEvent::FindQueryChanged(t.clone()),
            EditorEvent::FindNext => EditorEvent::FindNext,
            EditorEvent::FindPrev => EditorEvent::FindPrev,
            EditorEvent::ToggleFindRegex => EditorEvent::ToggleFindRegex,
            EditorEvent::ToggleFindCaseSensitive => EditorEvent::ToggleFindCaseSensitive,
            EditorEvent::ToggleFindWholeWord => EditorEvent::ToggleFindWholeWord,
            EditorEvent::ReplaceOpen => EditorEvent::ReplaceOpen,
            EditorEvent::ReplaceClose => EditorEvent::ReplaceClose,
            EditorEvent::ReplaceQueryChanged(t) => EditorEvent::ReplaceQueryChanged(t.clone()),
            EditorEvent::ReplaceOne => EditorEvent::ReplaceOne,
            EditorEvent::ReplaceAll => EditorEvent::ReplaceAll,
            EditorEvent::SetIndentMode { use_spaces, tab_width } => EditorEvent::SetIndentMode { use_spaces: *use_spaces, tab_width: *tab_width },
            EditorEvent::CycleIndentMode => EditorEvent::CycleIndentMode,
            EditorEvent::ToggleSoftWrap => EditorEvent::ToggleSoftWrap,
            EditorEvent::ToggleMinimap => EditorEvent::ToggleMinimap,
            EditorEvent::CycleMarkdownPreview => EditorEvent::CycleMarkdownPreview,
            EditorEvent::CycleTheme => EditorEvent::CycleTheme,
            EditorEvent::Save => EditorEvent::Save,
            EditorEvent::SaveAs(t) => EditorEvent::SaveAs(copy_text(t)),
            EditorEvent::ReloadFile => EditorEvent::ReloadFile,
            EditorEvent::NewDoc => EditorEvent::NewDoc,
            EditorEvent::CloseDoc => EditorEvent::CloseDoc,
            EditorEvent::ForceCloseDoc => EditorEvent::ForceCloseDoc,
            EditorEvent::NextDoc => EditorEvent::NextDoc,
            EditorEvent::PrevDoc => EditorEvent::PrevDoc,
            EditorEvent::OpenFile(t) => EditorEvent::OpenFile(copy_text(t)),
            EditorEvent::GoToLine(x) => EditorEvent::GoToLine(*x),
            EditorEvent::GoToSymbol => EditorEvent::GoToSymbol,
            EditorEvent::ToggleProjectTree => EditorEvent::ToggleProjectTree,
            EditorEvent::ProjectTreeMove { delta } => EditorEvent::ProjectTreeMove { delta: *delta },
            EditorEvent::ProjectTreeOpen => EditorEvent::ProjectTreeOpen,
            EditorEvent::ProjectSearch(t) => EditorEvent::ProjectSearch(copy_text(t)),
            EditorEvent::ProjectSearchQueryChanged(t) => EditorEvent::ProjectSearchQueryChanged(t.clone()),
            EditorEvent::ProjectSearchMove { delta } => EditorEvent::ProjectSearchMove { delta: *delta },
            EditorEvent::ProjectSearchOpenResult => EditorEvent::ProjectSearchOpenResult,
            EditorEvent::ProjectSearchClose => EditorEvent::ProjectSearchClose,
            EditorEvent::ProjectSearchReplaceQueryChanged(t) => EditorEvent::ProjectSearchReplaceQueryChanged(t.clone()),
            EditorEvent::ProjectSearchToggleFocus => EditorEvent::ProjectSearchToggleFocus,
            EditorEvent::ProjectSearchReplaceAll => EditorEvent::ProjectSearchReplaceAll,
            EditorEvent::ProjectSearchReplaceAllConfirm => EditorEvent::ProjectSearchReplaceAllConfirm,
            EditorEvent::ProjectSearchReplaceAllCancel => EditorEvent::ProjectSearchReplaceAllCancel,
            EditorEvent::FuzzyFinder(t) => EditorEvent::FuzzyFinder(copy_text(t)),
            EditorEvent::FuzzyFinderQueryChanged(t) => EditorEvent::FuzzyFinderQueryChanged(t.clone()),
            EditorEvent::FuzzyFinderMove { delta } => EditorEvent::FuzzyFinderMove { delta: *delta },
            EditorEvent::FuzzyFinderExecute => EditorEvent::FuzzyFinderExecute,
            EditorEvent::FuzzyFinderClose => EditorEvent::FuzzyFinderClose,
            EditorEvent::CommandPalette(t) => EditorEvent::CommandPalette(copy_text(t)),
            EditorEvent::CommandPaletteQueryChanged(t) => EditorEvent::CommandPaletteQueryChanged(t.clone()),
            EditorEvent::CommandPaletteMove { delta } => EditorEvent::CommandPaletteMove { delta: *delta },
            EditorEvent::CommandPaletteExecute => EditorEvent::CommandPaletteExecute,
            EditorEvent::CommandPaletteClose => EditorEvent::CommandPaletteClose,
            EditorEvent::ToggleKeybindingsHelp => EditorEvent::ToggleKeybindingsHelp,
            EditorEvent::ToggleGitGutter => EditorEvent::ToggleGitGutter,
            EditorEvent::ToggleGitBlame => EditorEvent::ToggleGitBlame,
            EditorEvent::RefreshGitGutter => EditorEvent::RefreshGitGutter,
            EditorEvent::NextHunk => EditorEvent::NextHunk,
            EditorEvent::PrevHunk => EditorEvent::PrevHunk,
            EditorEvent::ToggleFold { line } => EditorEvent::ToggleFold { line: *line },
            EditorEvent::UnfoldAll => EditorEvent::UnfoldAll,
            EditorEvent::LspCompletion => EditorEvent::LspCompletion,
            EditorEvent::LspHover => EditorEvent::LspHover,
            EditorEvent::LspGoToDefinition => EditorEvent::LspGoToDefinition,
            EditorEvent::RenameSymbol => EditorEvent::RenameSymbol,
            EditorEvent::RenameApply { new_name } => EditorEvent::RenameApply {
                new_name: new_name.clone(),
            },
            EditorEvent::FormatDocument => EditorEvent::FormatDocument,
            EditorEvent::Quit => EditorEvent::Quit,
        }
    }
}

/// The event changes the text of the active document.
pub open spec fn modifies_text(event: EditorEvent) -> bool {
    match event {
        EditorEvent::Insert(_) => true,
        EditorEvent::InsertTab => true,
        EditorEvent::DeleteLeft => true,
        EditorEvent::DeleteRight => true,
        EditorEvent::DeleteSelection => true,
        EditorEvent::DeleteWordLeft => true,
        EditorEvent::DeleteWordRight => true,
        EditorEvent::DeleteLine => true,
        EditorEvent::DuplicateLine => true,
        EditorEvent::MoveLineUp => true,
        EditorEvent::MoveLineDown => true,
        EditorEvent::Paste(_) => true,
        EditorEvent::Undo => true,
        EditorEvent::Redo => true,
        EditorEvent::ReplaceOne => true,
        EditorEvent::ReplaceAll => true,
        EditorEvent::ToggleComment => true,
        EditorEvent::RenameApply { .. } => true,
        EditorEvent::FormatDocument => true,
        _ => false,
    }
}

/// Whether an event changes the text of the active document.
pub fn modifies_buffer(event: &EditorEvent) -> (r: bool)
    ensures
        r == modifies_text(*event),
{
    match event {
        EditorEvent::Insert(_) | EditorEvent::InsertTab | EditorEvent::DeleteLeft
        | EditorEvent::DeleteRight | EditorEvent::DeleteSelection | EditorEvent::DeleteWordLeft
        | EditorEvent::DeleteWordRight | EditorEvent::DeleteLine | EditorEvent::DuplicateLine
        | EditorEvent::MoveLineUp | EditorEvent::MoveLineDown | EditorEvent::Paste(_)
        | EditorEvent::Undo | EditorEvent::Redo | EditorEvent::ReplaceOne | EditorEvent::ReplaceAll
        | EditorEvent::ToggleComment | EditorEvent::RenameApply { .. }
        | EditorEvent::FormatDocument => true,
        _ => false,
    }
}

/// The event still works while a CSV document is shown as a table: it concerns
/// the application, its documents or its panels, not the hidden text.
pub open spec fn works_on_table(event: EditorEvent) -> bool {
    match event {
        EditorEvent::SetKeybindingMode(_) => true,
        EditorEvent::Save => true,
        EditorEvent::SaveAs(_) => true,
        EditorEvent::ReloadFile => true,
        EditorEvent::NewDoc => true,
        EditorEvent::CloseDoc => true,
        EditorEvent::ForceCloseDoc => true,
        EditorEvent::NextDoc => true,
        EditorEvent::PrevDoc => true,
        EditorEvent::OpenFile(_) => true,
        EditorEvent::ToggleProjectTree => true,
        EditorEvent::ProjectTreeMove { .. } => true,
        EditorEvent::ProjectTreeOpen => true,
        EditorEvent::ProjectSearch(_) => true,
        EditorEvent::ProjectSearchQueryChanged(_) => true,
        EditorEvent::ProjectSearchMove { .. } => true,
        EditorEvent::ProjectSearchOpenResult => true,
        EditorEvent::ProjectSearchClose => true,
        EditorEvent::ProjectSearchReplaceQueryChanged(_) => true,
        EditorEvent::ProjectSearchToggleFocus => true,
        EditorEvent::ProjectSearchReplaceAll => true,
        EditorEvent::ProjectSearchReplaceAllConfirm => true,
        EditorEvent::ProjectSearchReplaceAllCancel => true,
        EditorEvent::FuzzyFinder(_) => true,
        EditorEvent::FuzzyFinderQueryChanged(_) => true,
        EditorEvent::FuzzyFinderMove { .. } => true,
        EditorEvent::FuzzyFinderExecute => true,
        EditorEvent::FuzzyFinderClose => true,
        EditorEvent::ToggleKeybindingsHelp => true,
        EditorEvent::CycleTheme => true,
        EditorEvent::ToggleGitBlame => true,
        EditorEvent::ToggleGitGutter => true,
        EditorEvent::RefreshGitGutter => true,
        EditorEvent::CommandPalette(_) => true,
        EditorEvent::CommandPaletteQueryChanged(_) => true,
        EditorEvent::CommandPaletteMove { .. } => true,
        EditorEvent::CommandPaletteExecute => true,
        EditorEvent::CommandPaletteClose => true,
        EditorEvent::Quit => true,
        _ => false,
    }
}

/// Whether an event still works while a CSV document is shown as a table.
pub fn csv_table_allows_event(event: &EditorEvent) -> (r: bool)
    ensures
        r == works_on_table(*event),
{
    match event {
        EditorEvent::SetKeybindingMode(_) | EditorEvent::Save | EditorEvent::SaveAs(_)
        | EditorEvent::ReloadFile | EditorEvent::NewDoc | EditorEvent::CloseDoc
        | EditorEvent::ForceCloseDoc | EditorEvent::NextDoc | EditorEvent::PrevDoc
        | EditorEvent::OpenFile(_) | EditorEvent::ToggleProjectTree
        | EditorEvent::ProjectTreeMove { .. } | EditorEvent::ProjectTreeOpen
        | EditorEvent::ProjectSearch(_) | EditorEvent::ProjectSearchQueryChanged(_)
        | EditorEvent::ProjectSearchMove { .. } | EditorEvent::ProjectSearchOpenResult
        | EditorEvent::ProjectSearchClose | EditorEvent::ProjectSearchReplaceQueryChanged(_)
        | EditorEvent::ProjectSearchToggleFocus | EditorEvent::ProjectSearchReplaceAll
        | EditorEvent::ProjectSearchReplaceAllConfirm | EditorEvent::ProjectSearchReplaceAllCancel
        | EditorEvent::FuzzyFinder(_) | EditorEvent::FuzzyFinderQueryChanged(_)
        | EditorEvent::FuzzyFinderMove { .. } | EditorEvent::FuzzyFinderExecute
        | EditorEvent::FuzzyFinderClose | EditorEvent::ToggleKeybindingsHelp
        | EditorEvent::CycleTheme | EditorEvent::ToggleGitBlame | EditorEvent::ToggleGitGutter
        | EditorEvent::RefreshGitGutter | EditorEvent::CommandPalette(_)
        | EditorEvent::CommandPaletteQueryChanged(_) | EditorEvent::CommandPaletteMove { .. }
        | EditorEvent::CommandPaletteExecute | EditorEvent::CommandPaletteClose
        | EditorEvent::Quit => true,
        _ => false,
    }
}

/// Law: no event that works on a table changes the text.
pub proof fn law_table_events_keep_text(event: EditorEvent)
    ensures
        !(works_on_table(event) && modifies_text(event)),
{
}

// ----- terminal keys -----

/// A key of a terminal.
#[derive(Debug, Clone, Copy, PartialEq, Eq, Structural)]
pub enum KeyCode {
    Char(char),
    F(u8),
    Backspace,
    Delete,
    Enter,
    Esc,
    Tab,
    Left,
    Right,
    Up,
    Down,
    Home,
    End,
    PageUp,
    PageDown,
    /// Any other key.
    Other,
}

/// A key press with the modifiers that were held.
#[derive(Debug, Clone, Copy, PartialEq, Eq, Structural)]
pub struct KeyEvent {
    pub code: KeyCode,
    pub ctrl: bool,
    pub shift: bool,
    pub alt: bool,
}

/// What the translation of a key depends on: the overlays that are open and
/// the texts in them.
#[derive(Debug)]
pub struct KeyContext {
    pub fuzzy_open: bool,
    pub fuzzy_query: String,
    pub palette_open: bool,
    pub palette_query: String,
    pub project_search_open: bool,
    pub project_search_confirm: bool,
    pub project_search_replace_focused: bool,
    pub project_search_query: String,
    pub project_search_replace_query: String,
    pub find_open: bool,
    pub replace_open: bool,
    pub find_query: String,
    pub replace_query: String,
    pub tree_open: bool,
    pub tree_loaded: bool,
}

/// An event with its text as characters: what two events have to agree on.
pub enum EventV {
    Plain(EditorEvent),
    FindQueryChanged(Seq<char>),
    ReplaceQueryChanged(Seq<char>),
    ProjectSearchQueryChanged(Seq<char>),
    ProjectSearchReplaceQueryChanged(Seq<char>),
    CommandPaletteQueryChanged(Seq<char>),
    FuzzyFinderQueryChanged(Seq<char>),
}

pub open spec fn event_view(e: EditorEvent) -> EventV {
    match e {
        EditorEvent::FindQueryChanged(q) => EventV::FindQueryChanged(q@),
        EditorEvent::ReplaceQueryChanged(q) => EventV::ReplaceQueryChanged(q@),
        EditorEvent::ProjectSearchQueryChanged(q) => EventV::ProjectSearchQueryChanged(q@),
        EditorEvent::ProjectSearchReplaceQueryChanged(q) => {
            EventV::ProjectSearchReplaceQueryChanged(q@)
        },
        EditorEvent::CommandPaletteQueryChanged(q) => EventV::CommandPaletteQueryChanged(q@),
        EditorEvent::FuzzyFinderQueryChanged(q) => EventV::FuzzyFinderQueryChanged(q@),
        _ => EventV::Plain(e),
    }
}

pub open spec fn opt_event(e: Option<EditorEvent>) -> Option<EventV> {
    match e {
        Some(event) => Some(event_view(event)),
        None => None,
    }
}

pub open spec fn plain(e: EditorEvent) -> Option<EventV> {
    Some(EventV::Plain(e))
}

/// A query without its last character.
pub open spec fn shortened(q: Seq<char>) -> Seq<char> {
    if q.len() == 0 { q } else { q.drop_last() }
}

fn with_char(q: &String, c: char) -> (r: String)
    ensures
        r@ == q@.push(c),
{
    let mut out: String = q.clone();
    out.push(c);
    out
}

fn without_last(q: &String) -> (r: String)
    ensures
        r@ == shortened(q@),
{
    let mut out: String = q.clone();
    let _ = out.pop();
    out
}

/// A movement, or a selection that follows it.
pub open spec fn movement_spec(m: Movement, select: bool) -> EditorEvent {
    if select { EditorEvent::SelectExtend(m) } else { EditorEvent::Move(m) }
}

pub fn movement(m: Movement, select: bool) -> (r: EditorEvent)
    ensures
        r == movement_spec(m, select),
{
    if select {
        EditorEvent::SelectExtend(m)
    } else {
        EditorEvent::Move(m)
    }
}

/// The keys with Control alone.
pub open spec fn ctrl_key(code: KeyCode) -> Option<EditorEvent> {
    match code {
        KeyCode::Char(c) => if c == 's' {
            Some(EditorEvent::Save)
        } else if c == 'z' {
            Some(EditorEvent::Undo)
        } else if c == 'y' {
            Some(EditorEvent::Redo)
        } else if c == 'q' {
            Some(EditorEvent::Quit)
        } else if c == 'a' {
            Some(EditorEvent::SelectAll)
        } else if c == 'f' {
            Some(EditorEvent::FindOpen)
        } else if c == 'r' {
            Some(EditorEvent::ReplaceOpen)
        } else if c == 'i' {
            Some(EditorEvent::CycleIndentMode)
        } else if c == 'k' {
            Some(EditorEvent::DeleteLine)
        } else if c == 'd' {
            Some(EditorEvent::SelectNextOccurrence)
        } else if c == 't' {
            Some(EditorEvent::NewDoc)
        } else if c == 'w' {
            Some(EditorEvent::CloseDoc)
        } else if c == 'o' {
            Some(EditorEvent::OpenFile(None))
        } else if c == 'g' {
            Some(EditorEvent::GoToLine(None))
        } else if c == 'p' {
            Some(EditorEvent::FuzzyFinder(None))
        } else if c == '/' {
            Some(EditorEvent::ToggleComment)
        } else if c == ' ' {
            Some(EditorEvent::LspCompletion)
        } else {
            None
        },
        KeyCode::Tab => Some(EditorEvent::NextDoc),
        KeyCode::Backspace => Some(EditorEvent::DeleteWordLeft),
        KeyCode::Delete => Some(EditorEvent::DeleteWordRight),
        KeyCode::Left => Some(EditorEvent::Move(Movement::WordLeft)),
        KeyCode::Right => Some(EditorEvent::Move(Movement::WordRight)),
        KeyCode::Home => Some(EditorEvent::Move(Movement::DocumentStart)),
        KeyCode::End => Some(EditorEvent::Move(Movement::DocumentEnd)),
        _ => None,
    }
}

/// The keys with Control and Shift.
pub open spec fn ctrl_shift_key(code: KeyCode) -> Option<EditorEvent> {
    match code {
        KeyCode::Char(c) => if c == 'W' {
            Some(EditorEvent::ToggleSoftWrap)
        } else if c == 'F' {
            Some(EditorEvent::ProjectSearch(None))
        } else if c == 'P' {
            Some(EditorEvent::CommandPalette(None))
        } else if c == 'S' {
            Some(EditorEvent::SaveAs(None))
        } else if c == 'R' {
            Some(EditorEvent::ReloadFile)
        } else if c == 'D' {
            Some(EditorEvent::DuplicateLine)
        } else {
            None
        },
        KeyCode::Tab => Some(EditorEvent::PrevDoc),
        KeyCode::Up => Some(EditorEvent::PrevHunk),
        KeyCode::Down => Some(EditorEvent::NextHunk),
        _ => None,
    }
}

/// The keys without Control, and with Alt only together with Shift.
pub open spec fn plain_key(code: KeyCode, shift: bool, alt: bool) -> Option<EditorEvent> {
    match code {
        KeyCode::Char(c) => if c == 'K' && shift && !alt {
            Some(EditorEvent::LspHover)
        } else {
            Some(EditorEvent::Insert(c))
        },
        KeyCode::Backspace => Some(EditorEvent::DeleteLeft),
        KeyCode::Delete => Some(EditorEvent::DeleteRight),
        KeyCode::Enter => Some(EditorEvent::Insert('\n')),
        KeyCode::Tab => Some(EditorEvent::InsertTab),
        KeyCode::Esc => Some(EditorEvent::CollapseCursors),
        KeyCode::F(n) => if n == 2 {
            Some(EditorEvent::RenameSymbol)
        } else if n == 5 {
            Some(EditorEvent::CycleTheme)
        } else if n == 8 {
            Some(EditorEvent::ToggleProjectTree)
        } else if n == 12 {
            Some(EditorEvent::LspGoToDefinition)
        } else {
            None
        },
        KeyCode::Left => Some(
            if shift { EditorEvent::ScrollLeft } else { EditorEvent::Move(Movement::Left) },
        ),
        KeyCode::Right => Some(
            if shift { EditorEvent::ScrollRight } else { EditorEvent::Move(Movement::Right) },
        ),
        KeyCode::Up => Some(movement_spec(Movement::Up, shift)),
        KeyCode::Down => Some(movement_spec(Movement::Down, shift)),
        KeyCode::Home => Some(movement_spec(Movement::LineStart, shift)),
        KeyCode::End => Some(movement_spec(Movement::LineEnd, shift)),
        KeyCode::PageUp => Some(movement_spec(Movement::PageUp, shift)),
        KeyCode::PageDown => Some(movement_spec(Movement::PageDown, shift)),
        KeyCode::Other => None,
    }
}

/// What a key means to the text.
pub open spec fn buffer_key(key: KeyEvent) -> Option<EditorEvent> {
    if key.ctrl && !key.shift {
        ctrl_key(key.code)
    } else if key.ctrl {
        ctrl_shift_key(key.code)
    } else if key.alt && !key.shift {
        match key.code {
            KeyCode::Up => Some(EditorEvent::MoveLineUp),
            KeyCode::Down => Some(EditorEvent::MoveLineDown),
            _ => None,
        }
    } else {
        plain_key(key.code, key.shift, key.alt)
    }
}

fn translate_ctrl(code: KeyCode) -> (r: Option<EditorEvent>)
    ensures
        r == ctrl_key(code),
{
    match code {
        KeyCode::Char('s') => Some(EditorEvent::Save),
        KeyCode::Char('z') => Some(EditorEvent::Undo),
        KeyCode::Char('y') => Some(EditorEvent::Redo),
        KeyCode::Char('q') => Some(EditorEvent::Quit),
        KeyCode::Char('a') => Some(EditorEvent::SelectAll),
        KeyCode::Char('f') => Some(EditorEvent::FindOpen),
        KeyCode::Char('r') => Some(EditorEvent::ReplaceOpen),
        KeyCode::Char('i') => Some(EditorEvent::CycleIndentMode),
        KeyCode::Char('k') => Some(EditorEvent::DeleteLine),
        KeyCode::Char('d') => Some(EditorEvent::SelectNextOccurrence),
        KeyCode::Char('t') => Some(EditorEvent::NewDoc),
        KeyCode::Char('w') => Some(EditorEvent::CloseDoc),
        KeyCode::Char('o') => Some(EditorEvent::OpenFile(None)),
        KeyCode::Char('g') => Some(EditorEvent::GoToLine(None)),
        KeyCode::Char('p') => Some(EditorEvent::FuzzyFinder(None)),
        KeyCode::Tab => Some(EditorEvent::NextDoc),
        KeyCode::Char('/') => Some(EditorEvent::ToggleComment),
        KeyCode::Backspace => Some(EditorEvent::DeleteWordLeft),
        KeyCode::Delete => Some(EditorEvent::DeleteWordRight),
        KeyCode::Left => Some(movement(Movement::WordLeft, false)),
        KeyCode::Right => Some(movement(Movement::WordRight, false)),
        KeyCode::Home => Some(movement(Movement::DocumentStart, false)),
        KeyCode::End => Some(movement(Movement::DocumentEnd, false)),
        KeyCode::Char(' ') => Some(EditorEvent::LspCompletion),
        _ => None,
    }
}

fn translate_ctrl_shift(code: KeyCode) -> (r: Option<EditorEvent>)
    ensures
        r == ctrl_shift_key(code),
{
    match code {
        KeyCode::Tab => Some(EditorEvent::PrevDoc),
        KeyCode::Char('W') => Some(EditorEvent::ToggleSoftWrap),
        KeyCode::Char('F') => Some(EditorEvent::ProjectSearch(None)),
        KeyCode::Char('P') => Some(EditorEvent::CommandPalette(None)),
        KeyCode::Char('S') => Some(EditorEvent::SaveAs(None)),
        KeyCode::Char('R') => Some(EditorEvent::ReloadFile),
        KeyCode::Up => Some(EditorEvent::PrevHunk),
        KeyCode::Down => Some(EditorEvent::NextHunk),
        KeyCode::Char('D') => Some(EditorEvent::DuplicateLine),
        _ => None,
    }
}

/// Translate a key for the text.
pub fn translate_buffer_key(key: KeyEvent) -> (r: Option<EditorEvent>)
    ensures
        r == buffer_key(key),
{
    if key.ctrl && !key.shift {
        return translate_ctrl(key.code);
    }
    if key.ctrl && key.shift {
        return translate_ctrl_shift(key.code);
    }
    if key.alt && !key.shift {
        return match key.code {
            KeyCode::Up => Some(EditorEvent::MoveLineUp),
            KeyCode::Down => Some(EditorEvent::MoveLineDown),
            _ => None,
        };
    }
    let select: bool = key.shift;
    match key.code {
        KeyCode::Char(c) => {
            if c == 'K' && key.shift && !key.alt {
                Some(EditorEvent::LspHover)
            } else {
                Some(EditorEvent::Insert(c))
            }
        },
        KeyCode::Backspace => Some(EditorEvent::DeleteLeft),
        KeyCode::Delete => Some(EditorEvent::DeleteRight),
        KeyCode::Enter => Some(EditorEvent::Insert('\n')),
        KeyCode::Tab => Some(EditorEvent::InsertTab),
        KeyCode::Esc => Some(EditorEvent::CollapseCursors),
        KeyCode::F(2) => Some(EditorEvent::RenameSymbol),
        KeyCode::F(5) => Some(EditorEvent::CycleTheme),
        KeyCode::F(8) => Some(EditorEvent::ToggleProjectTree),
        KeyCode::F(12) => Some(EditorEvent::LspGoToDefinition),
        KeyCode::F(_) => None,
        KeyCode::Left => {
            if select {
                Some(EditorEvent::ScrollLeft)
            } else {
                Some(movement(Movement::Left, false))
            }
        },
        KeyCode::Right => {
            if select {
                Some(EditorEvent::ScrollRight)
            } else {
                Some(movement(Movement::Right, false))
            }
        },
        KeyCode::Up => Some(movement(Movement::Up, select)),
        KeyCode::Down => Some(movement(Movement::Down, select)),
        KeyCode::Home => Some(movement(Movement::LineStart, select)),
        KeyCode::End => Some(movement(Movement::LineEnd, select)),
        KeyCode::PageUp => Some(movement(Movement::PageUp, select)),
        KeyCode::PageDown => Some(movement(Movement::PageDown, select)),
        KeyCode::Other => None,
    }
}

/// The key types what it stands for into a bar: Control is not held.
pub open spec fn types_text(key: KeyEvent) -> bool {
    !key.ctrl
}

/// What a key means to the replace bar.
pub open spec fn replace_bar_key(key: KeyEvent, query: Seq<char>) -> Option<EventV> {
    match key.code {
        KeyCode::Esc => plain(EditorEvent::ReplaceClose),
        KeyCode::Enter => if key.shift {
            plain(EditorEvent::ReplaceAll)
        } else {
            plain(EditorEvent::ReplaceOne)
        },
        KeyCode::Backspace => Some(EventV::ReplaceQueryChanged(shortened(query))),
        KeyCode::Char(c) => if types_text(key) {
            Some(EventV::ReplaceQueryChanged(query.push(c)))
        } else {
            None
        },
        _ => None,
    }
}

/// Translate a key while the replace bar is open: Enter replaces, Shift+Enter
/// replaces all, Esc closes the bar, typing and Backspace edit the replacement.
/// A letter with Control is left to the text.
pub fn replace_bar_translate(key: KeyEvent, ctx: &KeyContext) -> (r: Option<EditorEvent>)
    ensures
        opt_event(r) == replace_bar_key(key, ctx.replace_query@),
{
    match key.code {
        KeyCode::Esc => Some(EditorEvent::ReplaceClose),
        KeyCode::Enter => {
            if key.shift {
                Some(EditorEvent::ReplaceAll)
            } else {
                Some(EditorEvent::ReplaceOne)
            }
        },
        KeyCode::Backspace => Some(
            EditorEvent::ReplaceQueryChanged(without_last(&ctx.replace_query)),
        ),
        KeyCode::Char(c) => {
            if key.ctrl {
                return None;
            }
            Some(EditorEvent::ReplaceQueryChanged(with_char(&ctx.replace_query, c)))
        },
        _ => None,
    }
}

/// What a key means to the find bar. The replace bar, where it is open, has
/// the keys.
pub open spec fn find_bar_key(key: KeyEvent, ctx: KeyContext) -> Option<EventV> {
    if ctx.replace_open {
        replace_bar_key(key, ctx.replace_query@)
    } else if key.code == KeyCode::Char('r') && key.alt {
        plain(EditorEvent::ToggleFindRegex)
    } else {
        match key.code {
            KeyCode::Esc => plain(EditorEvent::FindClose),
            KeyCode::Enter => if key.shift {
                plain(EditorEvent::FindPrev)
            } else {
                plain(EditorEvent::FindNext)
            },
            KeyCode::Backspace => Some(EventV::FindQueryChanged(shortened(ctx.find_query@))),
            KeyCode::Char(c) => if types_text(key) {
                Some(EventV::FindQueryChanged(ctx.find_query@.push(c)))
            } else {
                None
            },
            _ => None,
        }
    }
}

/// Translate a key while the find bar is open. A letter with Control is left to
/// the text; one with Alt is typed, but for Alt+R, which toggles expressions.
pub fn find_bar_translate(key: KeyEvent, ctx: &KeyContext) -> (r: Option<EditorEvent>)
    ensures
        opt_event(r) == find_bar_key(key, *ctx),
{
    if ctx.replace_open {
        return replace_bar_translate(key, ctx);
    }
    if key.code == KeyCode::Char('r') && key.alt {
        return Some(EditorEvent::ToggleFindRegex);
    }
    match key.code {
        KeyCode::Esc => Some(EditorEvent::FindClose),
        KeyCode::Enter => {
            if key.shift {
                Some(EditorEvent::FindPrev)
            } else {
                Some(EditorEvent::FindNext)
            }
        },
        KeyCode::Backspace => Some(EditorEvent::FindQueryChanged(without_last(&ctx.find_query))),
        KeyCode::Char(c) => {
            if key.ctrl {
                return None;
            }
            Some(EditorEvent::FindQueryChanged(with_char(&ctx.find_query, c)))
        },
        _ => None,
    }
}

/// What a key means to the project tree.
pub open spec fn tree_key(key: KeyEvent) -> Option<EventV> {
    match key.code {
        KeyCode::Esc => plain(EditorEvent::ToggleProjectTree),
        KeyCode::Up => plain(EditorEvent::ProjectTreeMove { delta: (-1) as isize }),
        KeyCode::Down => plain(EditorEvent::ProjectTreeMove { delta: 1 }),
        KeyCode::Enter => plain(EditorEvent::ProjectTreeOpen),
        _ => None,
    }
}

/// Translate a key while the project tree has it.
pub fn project_tree_translate(key: KeyEvent) -> (r: Option<EditorEvent>)
    ensures
        opt_event(r) == tree_key(key),
{
    match key.code {
        KeyCode::Esc => Some(EditorEvent::ToggleProjectTree),
        KeyCode::Up => Some(EditorEvent::ProjectTreeMove { delta: -1 }),
        KeyCode::Down => Some(EditorEvent::ProjectTreeMove { delta: 1 }),
        KeyCode::Enter => Some(EditorEvent::ProjectTreeOpen),
        _ => None,
    }
}

/// What a key means to the command palette.
pub open spec fn palette_key(key: KeyEvent, query: Seq<char>) -> Option<EventV> {
    match key.code {
        KeyCode::Esc => plain(EditorEvent::CommandPaletteClose),
        KeyCode::Enter => plain(EditorEvent::CommandPaletteExecute),
        KeyCode::Up => plain(EditorEvent::CommandPaletteMove { delta: (-1) as isize }),
        KeyCode::Down => plain(EditorEvent::CommandPaletteMove { delta: 1 }),
        KeyCode::Backspace => Some(EventV::CommandPaletteQueryChanged(shortened(query))),
        KeyCode::Char(c) => if key.ctrl {
            None
        } else {
            Some(EventV::CommandPaletteQueryChanged(query.push(c)))
        },
        _ => None,
    }
}

/// Translate a key while the command palette is open.
pub fn command_palette_translate(key: KeyEvent, ctx: &KeyContext) -> (r: Option<EditorEvent>)
    ensures
        opt_event(r) == palette_key(key, ctx.palette_query@),
{
    match key.code {
        KeyCode::Esc => Some(EditorEvent::CommandPaletteClose),
        KeyCode::Enter => Some(EditorEvent::CommandPaletteExecute),
        KeyCode::Up => Some(EditorEvent::CommandPaletteMove { delta: -1 }),
        KeyCode::Down => Some(EditorEvent::CommandPaletteMove { delta: 1 }),
        KeyCode::Backspace => Some(
            EditorEvent::CommandPaletteQueryChanged(without_last(&ctx.palette_query)),
        ),
        KeyCode::Char(c) => {
            if key.ctrl {
                return None;
            }
            Some(EditorEvent::CommandPaletteQueryChanged(with_char(&ctx.palette_query, c)))
        },
        _ => None,
    }
}

/// What a key means to the file finder.
pub open spec fn fuzzy_key(key: KeyEvent, query: Seq<char>) -> Option<EventV> {
    match key.code {
        KeyCode::Esc => plain(EditorEvent::FuzzyFinderClose),
        KeyCode::Enter => plain(EditorEvent::FuzzyFinderExecute),
        KeyCode::Up => plain(EditorEvent::FuzzyFinderMove { delta: (-1) as isize }),
        KeyCode::Down => plain(EditorEvent::FuzzyFinderMove { delta: 1 }),
        KeyCode::Backspace => Some(EventV::FuzzyFinderQueryChanged(shortened(query))),
        KeyCode::Char(c) => if key.ctrl {
            None
        } else {
            Some(EventV::FuzzyFinderQueryChanged(query.push(c)))
        },
        _ => None,
    }
}

/// Translate a key while the file finder is open.
pub fn fuzzy_finder_translate(key: KeyEvent, ctx: &KeyContext) -> (r: Option<EditorEvent>)
    ensures
        opt_event(r) == fuzzy_key(key, ctx.fuzzy_query@),
{
    match key.code {
        KeyCode::Esc => Some(EditorEvent::FuzzyFinderClose),
        KeyCode::Enter => Some(EditorEvent::FuzzyFinderExecute),
        KeyCode::Up => Some(EditorEvent::FuzzyFinderMove { delta: -1 }),
        KeyCode::Down => Some(EditorEvent::FuzzyFinderMove { delta: 1 }),
        KeyCode::Backspace => Some(
            EditorEvent::FuzzyFinderQueryChanged(without_last(&ctx.fuzzy_query)),
        ),
        KeyCode::Char(c) => {
            if key.ctrl {
                return None;
            }
            Some(EditorEvent::FuzzyFinderQueryChanged(with_char(&ctx.fuzzy_query, c)))
        },
        _ => None,
    }
}

/// What a key means to the project search. A shown confirmation has the keys;
/// otherwise typing goes to the field in focus and a letter with Control to the
/// text.
pub open spec fn project_search_key(key: KeyEvent, ctx: KeyContext) -> Option<EventV> {
    if ctx.project_search_confirm {
        match key.code {
            KeyCode::Enter => plain(EditorEvent::ProjectSearchReplaceAllConfirm),
            KeyCode::Esc => plain(EditorEvent::ProjectSearchReplaceAllCancel),
            KeyCode::Char(c) => if c == 'y' || c == 'Y' {
                plain(EditorEvent::ProjectSearchReplaceAllConfirm)
            } else if c == 'n' || c == 'N' || c == 'q' || c == 'Q' {
                plain(EditorEvent::ProjectSearchReplaceAllCancel)
            } else {
                None
            },
            _ => None,
        }
    } else {
        match key.code {
            KeyCode::Esc => plain(EditorEvent::ProjectSearchClose),
            KeyCode::Enter => if key.ctrl {
                plain(EditorEvent::ProjectSearchReplaceAll)
            } else {
                plain(EditorEvent::ProjectSearchOpenResult)
            },
            KeyCode::Up => plain(EditorEvent::ProjectSearchMove { delta: (-1) as isize }),
            KeyCode::Down => plain(EditorEvent::ProjectSearchMove { delta: 1 }),
            KeyCode::Tab => plain(EditorEvent::ProjectSearchToggleFocus),
            KeyCode::Backspace => if ctx.project_search_replace_focused {
                Some(
                    EventV::ProjectSearchReplaceQueryChanged(
                        shortened(ctx.project_search_replace_query@),
                    ),
                )
            } else {
                Some(EventV::ProjectSearchQueryChanged(shortened(ctx.project_search_query@)))
            },
            KeyCode::Char(c) => if !types_text(key) {
                None
            } else if ctx.project_search_replace_focused {
                Some(
                    EventV::ProjectSearchReplaceQueryChanged(
                        ctx.project_search_replace_query@.push(c),
                    ),
                )
            } else {
                Some(EventV::ProjectSearchQueryChanged(ctx.project_search_query@.push(c)))
            },
            _ => None,
        }
    }
}

/// Translate a key while the project search is open.
pub fn project_search_translate(key: KeyEvent, ctx: &KeyContext) -> (r: Option<EditorEvent>)
    ensures
        opt_event(r) == project_search_key(key, *ctx),
{
    if ctx.project_search_confirm {
        return match key.code {
            KeyCode::Enter | KeyCode::Char('y') | KeyCode::Char('Y') => Some(
                EditorEvent::ProjectSearchReplaceAllConfirm,
            ),
            KeyCode::Esc | KeyCode::Char('n') | KeyCode::Char('N') | KeyCode::Char('q')
            | KeyCode::Char('Q') => Some(EditorEvent::ProjectSearchReplaceAllCancel),
            _ => None,
        };
    }
    match key.code {
        KeyCode::Esc => Some(EditorEvent::ProjectSearchClose),
        KeyCode::Enter => {
            if key.ctrl {
                Some(EditorEvent::ProjectSearchReplaceAll)
            } else {
                Some(EditorEvent::ProjectSearchOpenResult)
            }
        },
        KeyCode::Up => Some(EditorEvent::ProjectSearchMove { delta: -1 }),
        KeyCode::Down => Some(EditorEvent::ProjectSearchMove { delta: 1 }),
        KeyCode::Tab => Some(EditorEvent::ProjectSearchToggleFocus),
        KeyCode::Backspace => {
            if ctx.project_search_replace_focused {
                Some(
                    EditorEvent::ProjectSearchReplaceQueryChanged(
                        without_last(&ctx.project_search_replace_query),
                    ),
                )
            } else {
                Some(
                    EditorEvent::ProjectSearchQueryChanged(without_last(&ctx.project_search_query)),
                )
            }
        },
        KeyCode::Char(c) => {
            if key.ctrl {
                None
            } else if ctx.project_search_replace_focused {
                Some(
                    EditorEvent::ProjectSearchReplaceQueryChanged(
                        with_char(&ctx.project_search_replace_query, c),
                    ),
                )
            } else {
                Some(
                    EditorEvent::ProjectSearchQueryChanged(with_char(&ctx.project_search_query, c)),
                )
            }
        },
        _ => None,
    }
}

/// Control with Q or W and without Shift: leave the editor or close a
/// document.
pub open spec fn is_app_shortcut(key: KeyEvent) -> bool {
    key.ctrl && !key.shift && (key.code == KeyCode::Char('q') || key.code == KeyCode::Char('Q')
        || key.code == KeyCode::Char('w') || key.code == KeyCode::Char('W'))
}

/// What the overlay that has the keyboard makes of a key, if one has it.
pub open spec fn overlay_key(key: KeyEvent, ctx: KeyContext) -> Option<EventV> {
    if ctx.fuzzy_open {
        fuzzy_key(key, ctx.fuzzy_query@)
    } else if ctx.palette_open {
        palette_key(key, ctx.palette_query@)
    } else if ctx.project_search_open {
        project_search_key(key, ctx)
    } else if ctx.find_open {
        find_bar_key(key, ctx)
    } else if ctx.tree_open && ctx.tree_loaded {
        tree_key(key)
    } else {
        None
    }
}

/// What a key means. Leaving and closing come before everything; then the
/// overlay in front has the key; what it does not use goes to the text.
pub open spec fn key_spec(key: KeyEvent, ctx: Option<KeyContext>) -> Option<EventV> {
    if is_app_shortcut(key) {
        opt_event(buffer_key(key))
    } else {
        match ctx {
            Some(c) => match overlay_key(key, c) {
                Some(e) => Some(e),
                None => opt_event(buffer_key(key)),
            },
            None => opt_event(buffer_key(key)),
        }
    }
}

pub open spec fn opt_context(ctx: Option<&KeyContext>) -> Option<KeyContext> {
    match ctx {
        Some(c) => Some(*c),
        None => None,
    }
}

/// Translate a key of a terminal into what the editor is to do, or nothing for
/// a key without a meaning.
pub fn translate_key(key: KeyEvent, ctx: Option<&KeyContext>) -> (r: Option<EditorEvent>)
    ensures
        opt_event(r) == key_spec(key, opt_context(ctx)),
{
    if key.ctrl && !key.shift {
        match key.code {
            KeyCode::Char('q') | KeyCode::Char('Q') | KeyCode::Char('w') | KeyCode::Char('W') => {
                return translate_buffer_key(key);
            },
            _ => {},
        }
    }
    if let Some(c) = ctx {
        let overlay: Option<EditorEvent> = if c.fuzzy_open {
            fuzzy_finder_translate(key, c)
        } else if c.palette_open {
            command_palette_translate(key, c)
        } else if c.project_search_open {
            project_search_translate(key, c)
        } else if c.find_open {
            find_bar_translate(key, c)
        } else if c.tree_open && c.tree_loaded {
            project_tree_translate(key)
        } else {
            None
        };
        if overlay.is_some() {
            return overlay;
        }
    }
    translate_buffer_key(key)
}

/// Law: no overlay swallows the shortcuts for leaving the editor and closing a
/// document.
pub proof fn law_overlays_keep_app_shortcuts(alt: bool, ctx: KeyContext)
    ensures
        key_spec(KeyEvent { code: KeyCode::Char('q'), ctrl: true, shift: false, alt }, Some(ctx))
            == plain(EditorEvent::Quit),
        key_spec(KeyEvent { code: KeyCode::Char('w'), ctrl: true, shift: false, alt }, Some(ctx))
            == plain(EditorEvent::CloseDoc),
{
}

/// Letters that answer the question whether to replace in the project.
pub open spec fn answers(c: char) -> bool {
    c == 'y' || c == 'Y' || c == 'n' || c == 'N' || c == 'q' || c == 'Q'
}

/// Law: no field of an overlay takes a letter with Control for typing: it means
/// what it means to the text. Only an answer to a question that waits and Alt+R
/// in the find bar, which go by the letter alone and by Alt, are taken.
pub proof fn law_shortcuts_fall_through(c: char, shift: bool, alt: bool, ctx: KeyContext)
    requires
        ctx.fuzzy_open || ctx.palette_open || !ctx.project_search_open
            || !ctx.project_search_confirm || !answers(c),
        ctx.fuzzy_open || ctx.palette_open || ctx.project_search_open || !ctx.find_open
            || ctx.replace_open || !(c == 'r' && alt),
    ensures
        ({
            let key = KeyEvent { code: KeyCode::Char(c), ctrl: true, shift, alt };
            key_spec(key, Some(ctx)) == opt_event(buffer_key(key))
        }),
{
}

/// Law: an open project tree without a project behind it leaves every key to
/// the text.
pub proof fn law_empty_tree_leaves_keys(key: KeyEvent, ctx: KeyContext)
    requires
        !ctx.fuzzy_open && !ctx.palette_open && !ctx.project_search_open && !ctx.find_open,
        !ctx.tree_loaded,
    ensures
        key_spec(key, Some(ctx)) == key_spec(key, None),
{
}

// ----- clipboard -----

/// A clipboard action, which needs the operating system's clipboard.
#[derive(Debug, PartialEq, Eq)]
pub enum ClipboardAction {
    /// Put the selected text on the clipboard.
    Copy(String),
    /// Put the selected text on the clipboard and delete it.
    Cut(String),
    /// Insert the text on the clipboard.
    Paste,
}

/// Whether a key is a clipboard shortcut, and which. Copying and cutting need a
/// selection of valid text; pasting needs none.
pub fn classify_clipboard_key(key: KeyEvent, buffer: &TextBuffer) -> (r: Option<ClipboardAction>)
    requires
        buffer@.wf(),
    ensures
        ({
            let sel = buffer@.primary();
            let part = buffer@.text.subrange(sel.start(), sel.end());
            let takes = key.ctrl && !key.shift && sel.anchor != sel.head && valid_utf8(part);
            &&& r is Some <==> key.ctrl && !key.shift && (key.code == KeyCode::Char('v') || takes
                && (key.code == KeyCode::Char('c') || key.code == KeyCode::Char('x')))
            &&& r matches Some(ClipboardAction::Paste) ==> key.code == KeyCode::Char('v')
            &&& r matches Some(ClipboardAction::Copy(t)) ==> key.code == KeyCode::Char('c')
                && encode_utf8(t@) == part
            &&& r matches Some(ClipboardAction::Cut(t)) ==> key.code == KeyCode::Char('x')
                && encode_utf8(t@) == part
        }),
{
    if !key.ctrl || key.shift {
        return None;
    }
    let copy: bool = match key.code {
        KeyCode::Char('v') => {
            return Some(ClipboardAction::Paste);
        },
        KeyCode::Char('c') => true,
        KeyCode::Char('x') => false,
        _ => {
            return None;
        },
    };
    let sel = buffer.selection();
    if sel.is_collapsed() {
        return None;
    }
    let range = sel.range();
    assert(buffer@.selections[0] == sel);
    match buffer.slice(range.start, range.end) {
        Some(text) => {
            if copy {
                Some(ClipboardAction::Copy(text))
            } else {
                Some(ClipboardAction::Cut(text))
            }
        },
        None => None,
    }
}

// ----- mouse -----

/// What a mouse did.
#[derive(Debug, Clone, Copy, PartialEq, Eq, Structural)]
pub enum MouseKind {
    LeftDown,
    LeftDrag,
    /// A release, a wheel or another button.
    Other,
}

/// Translate a mouse event at a cell whose place in the text is `target`, if
/// it has one: a press sets the caret, a drag extends the selection.
pub fn translate_mouse(kind: MouseKind, target: Option<usize>) -> (r: Option<EditorEvent>)
    ensures
        r == (match (kind, target) {
            (MouseKind::LeftDown, Some(pos)) => Some(EditorEvent::SetCursor { pos }),
            (MouseKind::LeftDrag, Some(pos)) => Some(EditorEvent::SelectExtendTo { pos }),
            _ => None::<EditorEvent>,
        }),
{
    match (kind, target) {
        (MouseKind::LeftDown, Some(pos)) => Some(EditorEvent::SetCursor { pos }),
        (MouseKind::LeftDrag, Some(pos)) => Some(EditorEvent::SelectExtendTo { pos }),
        _ => None,
    }
}

} // verus!

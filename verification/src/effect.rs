//! What the editor asks of the program around it.

use vstd::prelude::*;

use crate::edits::Position;
use crate::event::EditorEvent;

verus! {

/// Why a document is written, which decides what follows.
#[derive(Debug, Clone, Copy, PartialEq, Eq, Structural)]
pub enum SaveKind {
    /// The user asked for it.
    Plain,
    /// The document is closed once it is written.
    ThenClose,
    /// A language server has formatted it after a save.
    AfterServerFormat,
    /// An external formatter has formatted it after a save.
    AfterFormatter,
}

/// The place of the caret and the length of the text before an edit.
#[derive(Debug, Clone, Copy, PartialEq, Eq, Structural)]
pub struct EditMark {
    pub line: usize,
    /// In bytes.
    pub col: usize,
    pub start: usize,
    pub len: usize,
}

/// A request to the program around the editor. Requests are carried out in the
/// order in which they were made.
#[derive(Debug, PartialEq, Eq)]
pub enum Effect {
    /// Write the configuration.
    SaveConfig,
    /// Take the session over into the configuration, once what was asked before
    /// is done.
    SyncConfig,
    /// Say what is known of the active document's file.
    DescribeFile,
    /// Watch the files of all open documents for changes.
    WatchFiles,
    /// Write the active document.
    Save(SaveKind),
    /// Note that the active document was just written by the editor itself.
    AcknowledgeSave,
    /// Note that the document with this index was just written by the editor
    /// itself.
    AcknowledgeWrite(usize),
    PickSavePath,
    PickOpenPath,
    /// Read a file into the active document.
    LoadFile(String),
    /// Read a file again into the document that has it open.
    ReloadFile(String),
    /// Read the file of the active document again.
    ReloadActive,
    /// Open a file of the active document's project.
    OpenProjectFile(String),
    /// Open a file of the project and go to a place in it.
    OpenSearchResult { rel_path: String, line: usize, col: usize },
    /// Go to the place that a definition was found at, once its file is open.
    FinishJump { uri: String, pos: Position },
    /// Look for the query in the active document. If `follow`, the caret goes
    /// to the current match.
    FindMatches { follow: bool },
    /// Say what the current match is replaced by.
    FindReplacement,
    /// Look for the query after a match at `at` was replaced.
    FindAfterReplace { at: usize },
    /// Look for the query after `count` matches were replaced.
    FindAfterReplaceAll { count: usize },
    /// Say what the whole text is replaced by.
    FindAllReplacements,
    /// Say which edits comment the lines in or out, `end_line` not included.
    ToggleComment { start_line: usize, end_line: usize },
    /// Parse the active document anew.
    Reparse,
    /// Adapt the parse of the active document to an edit at a place.
    SyntaxEdit { line: usize, col: usize, start: usize, delta: i64 },
    /// The text was just edited: idle time starts again.
    EditMade,
    RefreshGutter,
    RefreshBlame,
    ToggleFold(usize),
    UnfoldAll,
    /// Read the project of the active document and show it.
    LoadTree,
    /// Find the active document in the project shown.
    RevealInTree,
    /// Open or close a directory of the project tree.
    ToggleTreeNode(String),
    RunProjectSearch,
    ReplaceInProject,
    ListProjectFiles,
    RankFiles,
    FilterCommands,
    /// Run a command.
    Run(EditorEvent),
    /// Forget a key sequence that was begun.
    ResetKeymap,
    LspOpen,
    LspChange,
    LspSave(String),
    LspClose(String),
    LspCompletion(Position),
    LspHover(Position),
    LspDefinition(Position),
    /// Say whether the server can rename.
    LspCanRename,
    LspRename { pos: Position, new_name: String },
    LspSymbols,
    /// Say whether the server can format; `after_save` tells why.
    LspCanFormat { after_save: bool },
    LspFormat,
    /// Run the formatter that is configured for the language.
    RunFormatter { after_save: bool },
    /// Put a text on the clipboard.
    CopyText(String),
    /// Paste what is on the clipboard.
    PasteClipboard,
}

/// A request with its path as characters: what two requests have to agree on.
pub enum EffectV {
    Plain(Effect),
    LoadFile(Seq<char>),
    ReloadFile(Seq<char>),
}

pub open spec fn effect_view(e: Effect) -> EffectV {
    match e {
        Effect::LoadFile(path) => EffectV::LoadFile(path@),
        Effect::ReloadFile(path) => EffectV::ReloadFile(path@),
        _ => EffectV::Plain(e),
    }
}

pub open spec fn effects_view(s: Seq<Effect>) -> Seq<EffectV> {
    Seq::new(s.len(), |i: int| effect_view(s[i]))
}

} // verus!

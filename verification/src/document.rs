//! An open document: its text, how it is viewed, and what is known of its
//! file.

use vstd::prelude::*;
use vstd::utf8::*;

use crate::buffer::{opt_text, BufferV, TextBuffer};
use crate::text::same_text;

verus! {

/// How a document is viewed.
#[derive(Debug, Clone, Copy, PartialEq, Eq, Structural)]
pub struct ViewState {
    /// Tab inserts spaces instead of a tab character.
    pub use_spaces: bool,
    pub tab_width: usize,
    pub soft_wrap: bool,
    /// Columns scrolled to the right.
    pub scroll_x_cols: usize,
    /// Lines kept visible above and below the caret.
    pub scroll_margin_lines: usize,
    /// The caret position that was drawn last. Only the renderer sets it.
    pub last_seen_cursor: usize,
    pub git_gutter_enabled: bool,
    pub git_blame_enabled: bool,
}

/// The view of a new document.
pub open spec fn default_view() -> ViewState {
    ViewState {
        use_spaces: true,
        tab_width: 4,
        soft_wrap: false,
        scroll_x_cols: 0,
        scroll_margin_lines: 3,
        last_seen_cursor: 0,
        git_gutter_enabled: true,
        git_blame_enabled: false,
    }
}

impl Default for ViewState {
    fn default() -> (r: ViewState)
        ensures
            r == default_view(),
    {
        ViewState {
            use_spaces: true,
            tab_width: 4,
            soft_wrap: false,
            scroll_x_cols: 0,
            scroll_margin_lines: 3,
            last_seen_cursor: 0,
            git_gutter_enabled: true,
            git_blame_enabled: false,
        }
    }
}

/// What a document takes over from the configuration when it is opened.
#[derive(Debug, Clone, Copy, PartialEq, Eq, Structural)]
pub struct ViewDefaults {
    pub use_spaces: bool,
    pub tab_width: usize,
    pub soft_wrap: bool,
    pub git_blame_enabled: bool,
}

pub open spec fn with_defaults(view: ViewState, d: ViewDefaults) -> ViewState {
    ViewState {
        use_spaces: d.use_spaces,
        tab_width: d.tab_width,
        soft_wrap: d.soft_wrap,
        git_blame_enabled: d.git_blame_enabled,
        ..view
    }
}

pub open spec fn defaults_of(view: ViewState) -> ViewDefaults {
    ViewDefaults {
        use_spaces: view.use_spaces,
        tab_width: view.tab_width,
        soft_wrap: view.soft_wrap,
        git_blame_enabled: view.git_blame_enabled,
    }
}

/// Which lines have colors computed. After `invalidate` all of them are to be
/// computed again.
#[derive(Debug)]
pub struct SyntaxCache {
    pub lines: Vec<usize>,
    pub dirty: bool,
}

#[verifier::ext_equal]
pub struct SyntaxV {
    pub lines: Seq<usize>,
    pub dirty: bool,
}

impl View for SyntaxCache {
    type V = SyntaxV;

    open spec fn view(&self) -> SyntaxV {
        SyntaxV { lines: self.lines@, dirty: self.dirty }
    }
}

/// The line numbers below `line`.
pub open spec fn lines_before(lines: Seq<usize>, line: int) -> Seq<usize>
    decreases lines.len(),
{
    if lines.len() == 0 {
        lines
    } else if lines.last() < line {
        lines_before(lines.drop_last(), line).push(lines.last())
    } else {
        lines_before(lines.drop_last(), line)
    }
}

impl SyntaxV {
    pub open spec fn invalidated(self) -> SyntaxV {
        SyntaxV { lines: seq![], dirty: true }
    }

    pub open spec fn invalidated_from(self, line: int) -> SyntaxV {
        SyntaxV { lines: lines_before(self.lines, line), ..self }
    }

    /// The colors of a line are known and still right.
    pub open spec fn has(self, line: usize) -> bool {
        !self.dirty && self.lines.contains(line)
    }

    /// The colors of a line computed. They are the first where all were
    /// forgotten.
    pub open spec fn colored(self, line: usize) -> SyntaxV {
        if self.dirty {
            SyntaxV { lines: seq![line], dirty: false }
        } else if self.lines.contains(line) {
            self
        } else {
            SyntaxV { lines: self.lines.push(line), ..self }
        }
    }
}

impl SyntaxCache {
    pub fn new() -> (r: SyntaxCache)
        ensures
            r@ == (SyntaxV { lines: seq![], dirty: true }),
    {
        let r = SyntaxCache { lines: Vec::new(), dirty: true };
        assert(r@.lines =~= seq![]);
        r
    }

    /// Forget all colors.
    pub fn invalidate(&mut self)
        ensures
            final(self)@ == old(self)@.invalidated(),
    {
        self.lines = Vec::new();
        self.dirty = true;
        assert(self@.lines =~= seq![]);
    }

    /// Whether the colors of a line are known and still right.
    pub fn has(&self, line: usize) -> (r: bool)
        ensures
            r == self@.has(line),
    {
        if self.dirty {
            return false;
        }
        let mut i: usize = 0;
        while i < self.lines.len()
            invariant
                i <= self.lines.len(),
                !self.dirty,
                forall|k: int| 0 <= k < i ==> self.lines@[k] != line,
            decreases self.lines.len() - i,
        {
            if self.lines[i] == line {
                assert(self.lines@[i as int] == line);
                return true;
            }
            i += 1;
        }
        false
    }

    /// Note that the colors of a line were computed.
    pub fn record(&mut self, line: usize)
        ensures
            final(self)@ == old(self)@.colored(line),
    {
        if self.dirty {
            self.lines = vec![line];
            self.dirty = false;
            assert(self@.lines =~= seq![line]);
        } else if !self.has(line) {
            self.lines.push(line);
        }
    }

    /// Forget the colors of `line` and everything below it.
    pub fn invalidate_from(&mut self, line: usize)
        ensures
            final(self)@ == old(self)@.invalidated_from(line as int),
    {
        let mut kept: Vec<usize> = Vec::new();
        let mut i: usize = 0;
        assert(self.lines@.take(0) =~= seq![]);
        while i < self.lines.len()
            invariant
                i <= self.lines.len(),
                self@ == old(self)@,
                kept@ == lines_before(self.lines@.take(i as int), line as int),
            decreases self.lines.len() - i,
        {
            assert(self.lines@.take(i + 1).drop_last() =~= self.lines@.take(i as int));
            if self.lines[i] < line {
                kept.push(self.lines[i]);
            }
            i += 1;
        }
        assert(self.lines@.take(i as int) =~= self.lines@);
        self.lines = kept;
    }
}

/// What git says of the lines of a document.
#[derive(Debug)]
pub struct GitGutter {
    /// The file is under git.
    pub enabled: bool,
    /// The text has changed since git was asked.
    pub dirty: bool,
    /// The first line of each changed block, in order.
    pub hunks: Vec<usize>,
}

#[verifier::ext_equal]
pub struct GutterV {
    pub enabled: bool,
    pub dirty: bool,
    pub hunks: Seq<usize>,
}

impl View for GitGutter {
    type V = GutterV;

    open spec fn view(&self) -> GutterV {
        GutterV { enabled: self.enabled, dirty: self.dirty, hunks: self.hunks@ }
    }
}

/// Whether git blame is known, and still right.
#[derive(Debug, Clone, Copy, PartialEq, Eq, Structural)]
pub struct GitBlame {
    pub enabled: bool,
    pub dirty: bool,
}

/// What is known of a document's file.
#[derive(Debug)]
pub struct DocInfo {
    /// The file name without directories.
    pub name: Option<String>,
    /// The language, as language servers name it.
    pub language: Option<String>,
    pub uri: Option<String>,
    /// The directory of the project that the file belongs to.
    pub project_root: Option<String>,
    /// The path of the file inside the project.
    pub rel_path: Option<String>,
    /// The file lies in the directory for temporary files.
    pub temporary: bool,
}

/// An open document.
pub struct Document {
    /// What tells the document from the others of an editor, which gives the
    /// number. It is 0 before that.
    pub id: u64,
    pub info: DocInfo,
    pub buffer: TextBuffer,
    pub view: ViewState,
    /// The file was changed by another program while the text has changes.
    pub external_change: bool,
    pub syntax: SyntaxCache,
    pub git_gutter: GitGutter,
    pub git_blame: GitBlame,
}

/// What a document holds.
#[verifier::ext_equal]
pub struct DocV {
    pub id: u64,
    pub info: DocInfo,
    pub buffer: BufferV,
    pub view: ViewState,
    pub external_change: bool,
    pub syntax: SyntaxV,
    pub git_gutter: GutterV,
    pub git_blame: GitBlame,
}

impl View for Document {
    type V = DocV;

    open spec fn view(&self) -> DocV {
        DocV {
            id: self.id,
            info: self.info,
            buffer: self.buffer@,
            view: self.view,
            external_change: self.external_change,
            syntax: self.syntax@,
            git_gutter: self.git_gutter@,
            git_blame: self.git_blame,
        }
    }
}

impl DocV {
    /// The document is in this language.
    pub open spec fn is_language(self, language: Seq<char>) -> bool {
        opt_text(self.info.language) == Some(language)
    }

    pub open spec fn with_buffer(self, buffer: BufferV) -> DocV {
        DocV { buffer, ..self }
    }

    /// Git has to be asked again.
    pub open spec fn git_stale(self) -> DocV {
        DocV {
            git_gutter: GutterV { dirty: true, ..self.git_gutter },
            git_blame: GitBlame { dirty: true, ..self.git_blame },
            ..self
        }
    }
}

/// What is known of the file of a document that has none.
pub open spec fn blank_info() -> DocInfo {
    DocInfo {
        name: None,
        language: None,
        uri: None,
        project_root: None,
        rel_path: None,
        temporary: false,
    }
}

/// A document that was just opened and is not numbered yet.
pub open spec fn fresh_doc(buffer: BufferV, info: DocInfo, view: ViewState) -> DocV {
    DocV {
        id: 0,
        info,
        buffer,
        view,
        external_change: false,
        syntax: SyntaxV { lines: seq![], dirty: true },
        git_gutter: GutterV { enabled: false, dirty: false, hunks: seq![] },
        git_blame: GitBlame { enabled: false, dirty: false },
    }
}

impl Document {
    /// A document around a buffer, of whose file nothing is known.
    pub fn new(buffer: TextBuffer) -> (r: Document)
        ensures
            r@ == fresh_doc(buffer@, blank_info(), default_view()),
    {
        let info = DocInfo {
            name: None,
            language: None,
            uri: None,
            project_root: None,
            rel_path: None,
            temporary: false,
        };
        Document::with_info(buffer, info)
    }

    /// A document around a buffer and what is known of its file.
    pub fn with_info(buffer: TextBuffer, info: DocInfo) -> (r: Document)
        ensures
            r@ == fresh_doc(buffer@, info, default_view()),
    {
        let r = Document {
            id: 0,
            info,
            buffer,
            view: ViewState::default(),
            external_change: false,
            syntax: SyntaxCache::new(),
            git_gutter: GitGutter { enabled: false, dirty: false, hunks: Vec::new() },
            git_blame: GitBlame { enabled: false, dirty: false },
        };
        assert(r@.git_gutter.hunks =~= seq![]);
        r
    }

    /// A new document that takes over the configured defaults.
    pub fn new_with_defaults(buffer: TextBuffer, info: DocInfo, defaults: ViewDefaults) -> (r: Document)
        ensures
            r@ == fresh_doc(buffer@, info, with_defaults(default_view(), defaults)),
    {
        let mut d = Document::with_info(buffer, info);
        d.apply_defaults(defaults);
        d
    }

    pub fn apply_defaults(&mut self, d: ViewDefaults)
        ensures
            final(self)@ == (DocV { view: with_defaults(old(self)@.view, d), ..old(self)@ }),
    {
        self.view = ViewState {
            use_spaces: d.use_spaces,
            tab_width: d.tab_width,
            soft_wrap: d.soft_wrap,
            git_blame_enabled: d.git_blame_enabled,
            ..self.view
        };
    }

    pub fn id(&self) -> (r: u64)
        ensures
            r == self@.id,
    {
        self.id
    }

    pub fn is_dirty(&self) -> (r: bool)
        ensures
            r == self@.buffer.dirty,
    {
        self.buffer.is_dirty()
    }

    pub fn is_language(&self, language: &str) -> (r: bool)
        ensures
            r == self@.is_language(language@),
    {
        match &self.info.language {
            Some(l) => same_text(l.as_str(), language),
            None => false,
        }
    }

    /// The whole text, where it is valid UTF-8.
    pub fn text(&self) -> (r: Option<String>)
        ensures
            r is Some <==> valid_utf8(self@.buffer.text),
            r matches Some(s) ==> encode_utf8(s@) == self@.buffer.text,
    {
        let len: usize = self.buffer.len();
        assert(self@.buffer.text.subrange(0, len as int) =~= self@.buffer.text);
        self.buffer.slice(0, len)
    }

    /// Where the document is saved to, if anywhere.
    pub fn path(&self) -> (r: Option<&String>)
        ensures
            r matches Some(p) ==> self@.buffer.path == Some(p@),
            r is None <==> self@.buffer.path is None,
    {
        self.buffer.source_path()
    }
}

} // verus!

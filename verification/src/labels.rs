//! The texts of the window around the document: header, bars, lists and hints.

use vstd::prelude::*;

use crate::buffer::{opt_text, TextBuffer};
use crate::document::{DocV, Document};
use crate::files::name_or;
use crate::line_view::counted;
use crate::lines::{lemma_line_at, line_at, line_start, line_total};
use crate::panels::{
    Command, CompletionItem, CompletionV, LspCompletionState, ProjectSearch, ProjectSearchResult,
    ProjectSearchV, ReplacePreview, Symbol, TreeRow,
};
use crate::pickers::line_number;
use crate::search::{Search, SearchV};
use crate::state::{AppV, EditorApp};
use crate::text::{decimal, push_decimal, same_text};

verus! {

fn add_number(out: &mut String, n: usize)
    ensures
        final(out)@ == old(out)@ + decimal(n as nat),
{
    push_decimal(out, n as u64);
}

// ----- header -----

/// The header of a single document: where it is saved, whether it has changes
/// and whether its file has.
pub open spec fn header_spec(d: DocV) -> Seq<char> {
    " "@ + (match d.buffer.path {
        Some(p) => p,
        None => "[No Name]"@,
    }) + (if d.buffer.dirty { " [+]"@ } else { ""@ }) + (if d.external_change { " [!]"@ } else { ""@ })
}

/// The text of a tab.
pub open spec fn tab_spec(d: DocV) -> Seq<char> {
    name_or(d.info, "[No Name]"@) + (if d.buffer.dirty { "*"@ } else { ""@ }) + (
    if d.external_change { "!"@ } else { ""@ })
}

pub fn header_text(doc: &Document) -> (r: String)
    ensures
        r@ == header_spec(doc@),
{
    let mut out: String = " ".to_owned();
    match doc.path() {
        Some(p) => out.append(p.as_str()),
        None => out.append("[No Name]"),
    }
    out.append(if doc.is_dirty() { " [+]" } else { "" });
    out.append(if doc.external_change { " [!]" } else { "" });
    out
}

/// The name that a document is shown by.
pub fn display_name(doc: &Document) -> (r: String)
    ensures
        r@ == name_or(doc@.info, "[No Name]"@),
{
    match &doc.info.name {
        Some(n) => n.clone(),
        None => "[No Name]".to_owned(),
    }
}

pub fn tab_text(doc: &Document) -> (r: String)
    ensures
        r@ == tab_spec(doc@),
{
    let mut out: String = display_name(doc);
    out.append(if doc.is_dirty() { "*" } else { "" });
    out.append(if doc.external_change { "!" } else { "" });
    out
}

/// What is asked before a document with changes is closed.
pub fn close_question(doc: &Document) -> (r: String)
    ensures
        r@ == "'"@ + name_or(doc@.info, "[No Name]"@) + "' has unsaved changes."@,
{
    let mut out: String = "'".to_owned();
    out.append(display_name(doc).as_str());
    out.append("' has unsaved changes.");
    out
}

// ----- status bar -----

/// A place in the text, line and column counted from 1, and the number of
/// lines.
pub open spec fn position_spec(line: nat, col: nat, total: nat) -> Seq<char> {
    "L"@ + decimal(line + 1) + ":"@ + decimal(col + 1) + " / L"@ + decimal(total)
}

/// A place in the text in words. Line and column are counted from 0.
pub fn format_position(line: usize, col: usize, total: usize) -> (r: String)
    requires
        line < usize::MAX,
        col < usize::MAX,
    ensures
        r@ == position_spec(line as nat, col as nat, total as nat),
{
    let mut out: String = "L".to_owned();
    add_number(&mut out, line + 1);
    out.append(":");
    add_number(&mut out, col + 1);
    out.append(" / L");
    add_number(&mut out, total);
    out
}

/// How many lines git calls added, changed and removed.
#[derive(Debug, Clone, Copy, PartialEq, Eq, Structural)]
pub struct GitSummary {
    pub added: usize,
    pub modified: usize,
    pub removed: usize,
}

/// What git says, if it says anything.
pub open spec fn summary_spec(git: Option<GitSummary>) -> Seq<char> {
    match git {
        Some(g) => if g.added != 0 || g.modified != 0 || g.removed != 0 {
            "  |  +"@ + decimal(g.added as nat) + " ~"@ + decimal(g.modified as nat) + " -"@
                + decimal(g.removed as nat)
        } else {
            ""@
        },
        None => ""@,
    }
}

fn summary_text(git: Option<GitSummary>) -> (r: String)
    ensures
        r@ == summary_spec(git),
{
    match git {
        Some(g) => {
            if g.added != 0 || g.modified != 0 || g.removed != 0 {
                let mut out: String = "  |  +".to_owned();
                add_number(&mut out, g.added);
                out.append(" ~");
                add_number(&mut out, g.modified);
                out.append(" -");
                add_number(&mut out, g.removed);
                out
            } else {
                "".to_owned()
            }
        },
        None => "".to_owned(),
    }
}

impl AppV {
    /// The caret of the active document in words.
    pub open spec fn caret_text(self) -> Seq<char> {
        let t = self.buf().text;
        let pos = self.buf().cursor() as int;
        position_spec(
            line_at(t, pos),
            (pos - line_start(t, line_at(t, pos))) as nat,
            line_total(t),
        )
    }

    /// The status bar: the last message, and where the caret is. What git says
    /// follows where it is switched on and knows the file.
    pub open spec fn status_line(self, git: GitSummary) -> Seq<char> {
        " "@ + (match self.status {
            Some(m) => m,
            None => ""@,
        }) + "  |  "@ + self.caret_text() + summary_spec(
            if self.doc().view.git_gutter_enabled && self.doc().git_gutter.enabled {
                Some(git)
            } else {
                None
            },
        )
    }
}

fn caret_words(buffer: &TextBuffer) -> (r: String)
    requires
        buffer@.wf(),
    ensures
        r@ == ({
            let t = buffer@.text;
            let pos = buffer@.cursor() as int;
            position_spec(
                line_at(t, pos),
                (pos - line_start(t, line_at(t, pos))) as nat,
                line_total(t),
            )
        }),
{
    let total: usize = buffer.line_count();
    let pos: usize = buffer.cursor();
    proof {
        lemma_line_at(buffer@.text, pos as int);
    }
    let (line, col): (usize, usize) = match buffer.pos_to_linecol(pos) {
        Some(p) => p,
        None => (0, 0),
    };
    format_position(line, col, total)
}

impl EditorApp {
    /// The text of the status bar.
    pub fn status_text(&self, git: GitSummary) -> (r: String)
        requires
            self@.wf(),
        ensures
            r@ == self@.status_line(git),
    {
        let mut out: String = " ".to_owned();
        match self.status() {
            Some(m) => out.append(m.as_str()),
            None => out.append(""),
        }
        out.append("  |  ");
        out.append(caret_words(self.active_buffer()).as_str());
        let doc: &Document = self.active_doc();
        let known: bool = doc.view.git_gutter_enabled && doc.git_gutter.enabled;
        out.append(summary_text(if known { Some(git) } else { None }).as_str());
        out
    }
}

/// Whether the language server of the document runs, and its name.
pub open spec fn server_spec(running: bool, name: Seq<char>) -> Seq<char> {
    (if running { "●"@ } else { "○"@ }) + " "@ + name
}

pub fn server_text(running: bool, name: &str) -> (r: String)
    ensures
        r@ == server_spec(running, name@),
{
    let mut out: String = (if running { "●" } else { "○" }).to_owned();
    out.append(" ");
    out.append(name);
    out
}

// ----- find bar -----

/// How far the search has come: an error, nothing found, or the number of the
/// current match and of all.
pub open spec fn find_spec(s: SearchV) -> Seq<char> {
    match s.regex_error {
        Some(e) => " invalid regex: "@ + e + " "@,
        None => if s.matches.len() == 0 && s.query.len() > 0 {
            " (no matches)"@
        } else {
            " "@ + decimal(
                match s.current {
                    Some(i) => counted((i + 1) as nat) as nat,
                    None => 0,
                },
            ) + "/"@ + decimal(s.matches.len()) + " "@
        },
    }
}

pub fn find_text(search: &Search) -> (r: String)
    ensures
        r@ == find_spec(search@),
{
    match &search.regex_error {
        Some(e) => {
            let mut out: String = " invalid regex: ".to_owned();
            out.append(e.as_str());
            out.append(" ");
            out
        },
        None => {
            if search.matches.len() == 0 && !search.query.as_str().is_empty() {
                " (no matches)".to_owned()
            } else {
                let current: usize = match search.current {
                    Some(i) => i.saturating_add(1),
                    None => 0,
                };
                let mut out: String = " ".to_owned();
                add_number(&mut out, current);
                out.append("/");
                add_number(&mut out, search.matches.len());
                out.append(" ");
                out
            }
        },
    }
}

/// The number that is being typed, with a block behind it.
pub fn go_to_line_text(query: &str) -> (r: String)
    ensures
        r@ == query@ + "█"@,
{
    let mut out: String = query.to_owned();
    out.append("█");
    out
}

// ----- project tree -----

/// Two blanks for each level.
pub open spec fn tree_indent(depth: nat) -> Seq<char>
    decreases depth,
{
    if depth == 0 {
        ""@
    } else {
        tree_indent((depth - 1) as nat) + "  "@
    }
}

pub open spec fn tree_icon(row: TreeRow) -> Seq<char> {
    if row.is_dir {
        if row.expanded { "📂"@ } else { "📁"@ }
    } else {
        "  "@
    }
}

/// A row of the project tree.
pub open spec fn tree_row_spec(row: TreeRow) -> Seq<char> {
    tree_indent(row.depth as nat) + tree_icon(row) + " "@ + row.name@
}

pub fn tree_row_text(row: &TreeRow) -> (r: String)
    ensures
        r@ == tree_row_spec(*row),
{
    let mut out: String = "".to_owned();
    let mut i: usize = 0;
    while i < row.depth
        invariant
            i <= row.depth,
            out@ == tree_indent(i as nat),
        decreases row.depth - i,
    {
        out.append("  ");
        i += 1;
    }
    out.append(
        if row.is_dir {
            if row.expanded { "📂" } else { "📁" }
        } else {
            "  "
        },
    );
    out.append(" ");
    out.append(row.name.as_str());
    out
}

/// The title of the project tree, by the name of the project's directory.
pub open spec fn tree_title_spec(name: Option<Seq<char>>) -> Seq<char> {
    "📁 "@ + (match name {
        Some(n) => n,
        None => "Project"@,
    })
}

pub fn tree_title(name: Option<&str>) -> (r: String)
    ensures
        r@ == tree_title_spec(
            match name {
                Some(n) => Some(n@),
                None => None,
            },
        ),
{
    let mut out: String = "📁 ".to_owned();
    match name {
        Some(n) => out.append(n),
        None => out.append("Project"),
    }
    out
}

/// What stands in the tree where there are no rows.
pub open spec fn tree_message_spec(has_project: bool, rows: nat) -> Option<Seq<char>> {
    if !has_project {
        Some("No project detected."@)
    } else if rows == 0 {
        Some("No files found."@)
    } else {
        None
    }
}

pub fn tree_message(has_project: bool, rows: usize) -> (r: Option<&'static str>)
    ensures
        match r {
            Some(m) => tree_message_spec(has_project, rows as nat) == Some(m@),
            None => tree_message_spec(has_project, rows as nat) is None,
        },
{
    if !has_project {
        Some("No project detected.")
    } else if rows == 0 {
        Some("No files found.")
    } else {
        None
    }
}

// ----- project search -----

/// How many occurrences the first `n` lines hold.
pub open spec fn occurrences_in(previews: Seq<ReplacePreview>, n: int) -> nat
    decreases n,
{
    if n <= 0 {
        0
    } else {
        occurrences_in(previews, n - 1) + previews[n - 1].occurrence_count as nat
    }
}

/// An earlier line is in the same file as line `i`.
pub open spec fn file_seen(previews: Seq<ReplacePreview>, i: int) -> bool {
    exists|j: int| 0 <= j < i && (#[trigger] previews[j]).rel_path@ == previews[i].rel_path@
}

/// In how many files the first `n` lines are.
pub open spec fn files_in(previews: Seq<ReplacePreview>, n: int) -> nat
    decreases n,
{
    if n <= 0 {
        0
    } else {
        files_in(previews, n - 1) + (if file_seen(previews, n - 1) { 0nat } else { 1nat })
    }
}

fn count_occurrences(previews: &Vec<ReplacePreview>) -> (r: usize)
    ensures
        r == counted(occurrences_in(previews@, previews.len() as int)),
{
    let mut sum: usize = 0;
    let mut i: usize = 0;
    while i < previews.len()
        invariant
            i <= previews.len(),
            sum == counted(occurrences_in(previews@, i as int)),
        decreases previews.len() - i,
    {
        sum = sum.saturating_add(previews[i].occurrence_count);
        i += 1;
    }
    sum
}

fn seen_before(previews: &Vec<ReplacePreview>, i: usize) -> (r: bool)
    requires
        i < previews.len(),
    ensures
        r == file_seen(previews@, i as int),
{
    let mut j: usize = 0;
    while j < i
        invariant
            j <= i < previews.len(),
            forall|k: int| 0 <= k < j ==> (#[trigger] previews@[k]).rel_path@
                != previews@[i as int].rel_path@,
        decreases i - j,
    {
        if same_text(previews[j].rel_path.as_str(), previews[i].rel_path.as_str()) {
            assert(previews@[j as int].rel_path@ == previews@[i as int].rel_path@);
            return true;
        }
        j += 1;
    }
    false
}

fn count_files(previews: &Vec<ReplacePreview>) -> (r: usize)
    ensures
        r == files_in(previews@, previews.len() as int),
{
    let mut count: usize = 0;
    let mut i: usize = 0;
    while i < previews.len()
        invariant
            i <= previews.len(),
            count <= i,
            count == files_in(previews@, i as int),
        decreases previews.len() - i,
    {
        if !seen_before(previews, i) {
            count += 1;
        }
        i += 1;
    }
    count
}

/// How many rows the list of a project-wide search has: the lines that would
/// change where a replacement is given, else the lines that were found.
pub open spec fn search_rows_spec(p: ProjectSearchV) -> nat {
    if p.replace_query.len() > 0 { p.replace_previews.len() } else { p.results.len() }
}

/// The hint below the list.
pub open spec fn search_hint_spec(p: ProjectSearchV) -> Seq<char> {
    if p.replace_query.len() > 0 {
        decimal(p.replace_previews.len()) + " lines · "@ + decimal(
            counted(
                occurrences_in(p.replace_previews, p.replace_previews.len() as int),
            ) as nat,
        ) + " occurrences · Ctrl+Enter to confirm · Esc to close"@
    } else {
        decimal(p.results.len()) + " results · Enter to open · Up/Down · Esc to close"@
    }
}

fn number_first(n: usize) -> (r: String)
    ensures
        r@ == decimal(n as nat),
{
    let mut out: String = String::new();
    add_number(&mut out, n);
    assert(out@ =~= decimal(n as nat));
    out
}

pub fn search_rows(search: &ProjectSearch) -> (r: usize)
    ensures
        r == search_rows_spec(search@),
{
    if search.replace_query.as_str().is_empty() {
        search.results.len()
    } else {
        search.replace_previews.len()
    }
}

pub fn search_hint(search: &ProjectSearch) -> (r: String)
    ensures
        r@ == search_hint_spec(search@),
{
    if search.replace_query.as_str().is_empty() {
        let mut out: String = number_first(search.results.len());
        out.append(" results · Enter to open · Up/Down · Esc to close");
        out
    } else {
        let mut out: String = number_first(search.replace_previews.len());
        out.append(" lines · ");
        add_number(&mut out, count_occurrences(&search.replace_previews));
        out.append(" occurrences · Ctrl+Enter to confirm · Esc to close");
        out
    }
}

/// What is asked before a replacement in the whole project.
pub open spec fn replace_question_spec(previews: Seq<ReplacePreview>) -> Seq<char> {
    "Replace "@ + decimal(counted(occurrences_in(previews, previews.len() as int)) as nat)
        + " occurrences in "@ + decimal(files_in(previews, previews.len() as int)) + " files?"@
}

pub fn replace_question(previews: &Vec<ReplacePreview>) -> (r: String)
    ensures
        r@ == replace_question_spec(previews@),
{
    let mut out: String = "Replace ".to_owned();
    add_number(&mut out, count_occurrences(previews));
    out.append(" occurrences in ");
    add_number(&mut out, count_files(previews));
    out.append(" files?");
    out
}

/// A line as a replacement would leave it.
pub open spec fn preview_spec(p: ReplacePreview) -> Seq<char> {
    p.rel_path@ + ":"@ + decimal(p.line as nat) + "  "@ + p.before@ + " → "@ + p.after@
}

pub fn preview_text(p: &ReplacePreview) -> (r: String)
    ensures
        r@ == preview_spec(*p),
{
    let mut out: String = p.rel_path.clone();
    out.append(":");
    add_number(&mut out, p.line);
    out.append("  ");
    out.append(p.before.as_str());
    out.append(" → ");
    out.append(p.after.as_str());
    out
}

/// A line that was found.
pub open spec fn result_spec(p: ProjectSearchResult) -> Seq<char> {
    p.rel_path@ + ":"@ + decimal(p.line as nat) + ":"@ + p.text@
}

pub fn result_text(p: &ProjectSearchResult) -> (r: String)
    ensures
        r@ == result_spec(*p),
{
    let mut out: String = p.rel_path.clone();
    out.append(":");
    add_number(&mut out, p.line);
    out.append(":");
    out.append(p.text.as_str());
    out
}

// ----- palette, finder, symbols, completions -----

/// A command and its keys.
pub open spec fn command_spec(c: Command) -> Seq<char> {
    if c.keybinding@.len() == 0 {
        c.label@
    } else {
        c.label@ + "  ("@ + c.keybinding@ + ")"@
    }
}

pub fn command_text(c: &Command) -> (r: String)
    ensures
        r@ == command_spec(*c),
{
    let mut out: String = c.label.clone();
    if !c.keybinding.as_str().is_empty() {
        out.append("  (");
        out.append(c.keybinding.as_str());
        out.append(")");
    }
    out
}

/// The hint below a list: how many rows there are and what the keys do.
pub open spec fn list_hint_spec(count: nat, rest: Seq<char>) -> Seq<char> {
    decimal(count) + rest
}

pub fn palette_hint(count: usize) -> (r: String)
    ensures
        r@ == list_hint_spec(count as nat, " commands · Enter to run · Up/Down · Esc to close"@),
{
    let mut out: String = number_first(count);
    out.append(" commands · Enter to run · Up/Down · Esc to close");
    out
}

pub fn finder_hint(count: usize) -> (r: String)
    ensures
        r@ == list_hint_spec(count as nat, " files · Enter to open · Up/Down · Esc to close"@),
{
    let mut out: String = number_first(count);
    out.append(" files · Enter to open · Up/Down · Esc to close");
    out
}

pub fn symbols_hint(count: usize) -> (r: String)
    ensures
        r@ == list_hint_spec(count as nat, " symbols · Enter to jump · Esc to close"@),
{
    let mut out: String = number_first(count);
    out.append(" symbols · Enter to jump · Esc to close");
    out
}

/// A symbol and its line, counted from 1.
pub open spec fn symbol_spec(s: Symbol) -> Seq<char> {
    s.name@ + "  L"@ + decimal(line_number(s.line) as nat)
}

pub fn symbol_text(s: &Symbol) -> (r: String)
    ensures
        r@ == symbol_spec(*s),
{
    let mut out: String = s.name.clone();
    out.append("  L");
    add_number(&mut out, (s.line as usize).saturating_add(1));
    out
}

/// A completion and what is known of it.
pub open spec fn completion_spec(c: CompletionItem) -> Seq<char> {
    match c.detail {
        Some(d) => c.label@ + " — "@ + d@,
        None => c.label@,
    }
}

pub fn completion_text(c: &CompletionItem) -> (r: String)
    ensures
        r@ == completion_spec(*c),
{
    let mut out: String = c.label.clone();
    match &c.detail {
        Some(d) => {
            out.append(" — ");
            out.append(d.as_str());
        },
        None => {},
    }
    out
}

/// What stands in the popup where there are no completions.
pub open spec fn completion_message_spec(c: CompletionV) -> Option<Seq<char>> {
    if c.items.len() > 0 {
        None
    } else if c.pending {
        Some("Loading completions..."@)
    } else {
        Some("No completions."@)
    }
}

pub fn completion_message(c: &LspCompletionState) -> (r: Option<&'static str>)
    ensures
        match r {
            Some(m) => completion_message_spec(c@) == Some(m@),
            None => completion_message_spec(c@) is None,
        },
{
    if c.items.len() > 0 {
        None
    } else if c.pending {
        Some("Loading completions...")
    } else {
        Some("No completions.")
    }
}

// ----- beside the text -----

/// Who changed a line last: commit, author and age.
pub fn blame_text(hash: &str, author: &str, age: &str) -> (r: String)
    ensures
        r@ == hash@ + " "@ + author@ + " "@ + age@,
{
    let mut out: String = hash.to_owned();
    out.append(" ");
    out.append(author);
    out.append(" ");
    out.append(age);
    out
}

/// The mark where `count` lines were removed; nothing where none were.
pub open spec fn removed_spec(count: nat) -> Option<Seq<char>> {
    if count == 0 {
        None
    } else if count > 1 {
        Some("▼"@ + decimal(count))
    } else {
        Some("▼"@)
    }
}

pub fn removed_mark(count: usize) -> (r: Option<String>)
    ensures
        opt_text(r) == removed_spec(count as nat),
{
    if count == 0 {
        return None;
    }
    let mut out: String = "▼".to_owned();
    if count > 1 {
        add_number(&mut out, count);
    }
    Some(out)
}

/// The mark of a line that is folded, or could be.
pub open spec fn fold_spec(folded: bool, foldable: bool) -> Option<Seq<char>> {
    if folded {
        Some("▼"@)
    } else if foldable {
        Some("▶"@)
    } else {
        None
    }
}

pub fn fold_mark(folded: bool, foldable: bool) -> (r: Option<&'static str>)
    ensures
        match r {
            Some(m) => fold_spec(folded, foldable) == Some(m@),
            None => fold_spec(folded, foldable) is None,
        },
{
    if folded {
        Some("▼")
    } else if foldable {
        Some("▶")
    } else {
        None
    }
}

} // verus!

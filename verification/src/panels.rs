//! State of the dialogs, pickers and popups around the text.

use vstd::arithmetic::div_mod::{
    lemma_add_mod_noop, lemma_mod_bound, lemma_mod_add_multiples_vanish, lemma_small_mod,
    lemma_sub_mod_noop,
};
use vstd::prelude::*;

use crate::edits::Position;
use crate::event::EditorEvent;
use crate::text::same_text;

verus! {

// ----- a selected row of a list -----

/// The row `delta` rows away in a list of `len`, around the ends.
pub open spec fn wrapped(selected: int, delta: int, len: int) -> int {
    (selected + delta) % len
}

/// The row `delta` rows away from `selected`, wrapping at the ends of a list
/// of `len` rows.
pub fn wrap_selection(selected: usize, delta: isize, len: usize) -> (r: usize)
    requires
        len > 0,
    ensures
        r == wrapped(selected as int, delta as int, len as int),
        r < len,
{
    let n: u128 = len as u128;
    let here: u128 = selected as u128 % n;
    if delta >= 0 {
        let step: u128 = delta as u128 % n;
        proof {
            lemma_add_mod_noop(selected as int, delta as int, len as int);
            lemma_mod_bound(here + step, len as int);
        }
        ((here + step) % n) as usize
    } else {
        let back: u128 = (-(delta as i128)) as u128 % n;
        proof {
            lemma_sub_mod_noop(selected as int, -(delta as int), len as int);
            lemma_mod_add_multiples_vanish(here - back, len as int);
            assert(len * 1 + (here - back) == here + (n - back));
            lemma_mod_bound(here + (n - back), len as int);
        }
        ((here + (n - back)) % n) as usize
    }
}

/// Law: a move and the move back end where they began.
pub proof fn law_wrap_back(selected: int, delta: int, len: int)
    requires
        0 <= selected < len,
    ensures
        wrapped(wrapped(selected, delta, len), -delta, len) == selected,
{
    lemma_sub_mod_noop(selected + delta, delta, len);
    lemma_sub_mod_noop(wrapped(selected, delta, len), delta, len);
    vstd::arithmetic::div_mod::lemma_mod_twice(selected + delta, len);
    assert(selected + delta - delta == selected);
    lemma_small_mod(selected as nat, len as nat);
}

/// Law: moving by one, as often as there are rows, comes back.
pub proof fn law_wrap_around(selected: int, len: int)
    requires
        0 <= selected < len,
    ensures
        wrapped(selected, len, len) == selected,
        selected + 1 < len ==> wrapped(selected, 1, len) == selected + 1,
        wrapped(len - 1, 1, len) == 0,
        wrapped(0, -1, len) == len - 1,
{
    lemma_mod_add_multiples_vanish(selected, len);
    lemma_small_mod(selected as nat, len as nat);
    if selected + 1 < len {
        lemma_small_mod((selected + 1) as nat, len as nat);
    }
    lemma_mod_add_multiples_vanish(0, len);
    lemma_small_mod(0, len as nat);
    lemma_mod_add_multiples_vanish(-1, len);
    lemma_small_mod((len - 1) as nat, len as nat);
    assert(len * 1 + -1 == len - 1);
    assert(len * 1 + 0 == len);
}

/// A selected row pulled back into a list that may have become shorter.
pub open spec fn clamped_row(selected: usize, len: nat) -> usize {
    if len == 0 {
        0
    } else if selected < len {
        selected
    } else {
        (len - 1) as usize
    }
}

pub fn clamp_row(selected: usize, len: usize) -> (r: usize)
    ensures
        r == clamped_row(selected, len as nat),
{
    if len == 0 {
        0
    } else if selected < len {
        selected
    } else {
        len - 1
    }
}

// ----- closing a document -----

/// The choices when a document with changes is closed.
#[derive(Debug, Clone, Copy, PartialEq, Eq, Structural)]
pub enum CloseChoice {
    Save,
    Discard,
    Cancel,
}

/// The question that is asked when a document with changes is closed.
#[derive(Debug, Clone, Copy, PartialEq, Eq, Structural)]
pub struct CloseConfirm {
    pub doc_index: usize,
    pub choice: CloseChoice,
}

impl CloseChoice {
    /// Save, then discard, then cancel, then save again.
    pub open spec fn forward(self) -> CloseChoice {
        match self {
            CloseChoice::Save => CloseChoice::Discard,
            CloseChoice::Discard => CloseChoice::Cancel,
            CloseChoice::Cancel => CloseChoice::Save,
        }
    }

    /// The other way round.
    pub open spec fn backward(self) -> CloseChoice {
        match self {
            CloseChoice::Save => CloseChoice::Cancel,
            CloseChoice::Discard => CloseChoice::Save,
            CloseChoice::Cancel => CloseChoice::Discard,
        }
    }

    /// Forward for a positive `delta`, backward for any other.
    pub open spec fn cycled(self, delta: int) -> CloseChoice {
        if delta > 0 { self.forward() } else { self.backward() }
    }

    pub fn cycle(self, delta: i32) -> (r: CloseChoice)
        ensures
            r == self.cycled(delta as int),
    {
        if delta > 0 {
            match self {
                CloseChoice::Save => CloseChoice::Discard,
                CloseChoice::Discard => CloseChoice::Cancel,
                CloseChoice::Cancel => CloseChoice::Save,
            }
        } else {
            match self {
                CloseChoice::Save => CloseChoice::Cancel,
                CloseChoice::Discard => CloseChoice::Save,
                CloseChoice::Cancel => CloseChoice::Discard,
            }
        }
    }
}

/// Law: forward and backward undo each other, and three steps come back.
pub proof fn law_close_choices_cycle(choice: CloseChoice)
    ensures
        choice.forward().backward() == choice,
        choice.backward().forward() == choice,
        choice.forward().forward().forward() == choice,
        choice.forward() != choice,
{
}

// ----- text dialogs -----

/// The dialog that asks for a line number.
#[derive(Debug)]
pub struct GoToLineDialog {
    pub query: String,
}

/// The dialog that asks for a new name.
#[derive(Debug)]
pub struct RenameDialog {
    pub new_name: String,
}

// ----- project-wide search -----

/// A line that a project-wide search found.
#[derive(Debug)]
pub struct ProjectSearchResult {
    pub rel_path: String,
    /// Counted from 1.
    pub line: usize,
    /// Counted from 1.
    pub col: usize,
    pub text: String,
}

/// A line as a project-wide replacement would leave it.
#[derive(Debug)]
pub struct ReplacePreview {
    pub rel_path: String,
    pub line: usize,
    pub before: String,
    pub after: String,
    pub occurrence_count: usize,
}

/// The dialog for searching and replacing in a whole project.
#[derive(Debug)]
pub struct ProjectSearch {
    pub open: bool,
    pub query: String,
    pub replace_query: String,
    pub results: Vec<ProjectSearchResult>,
    pub replace_previews: Vec<ReplacePreview>,
    pub selected: usize,
    /// The user is asked whether to replace.
    pub confirm_replace: bool,
}

#[verifier::ext_equal]
pub struct ProjectSearchV {
    pub open: bool,
    pub query: Seq<char>,
    pub replace_query: Seq<char>,
    pub results: Seq<ProjectSearchResult>,
    pub replace_previews: Seq<ReplacePreview>,
    pub selected: usize,
    pub confirm_replace: bool,
}

impl View for ProjectSearch {
    type V = ProjectSearchV;

    open spec fn view(&self) -> ProjectSearchV {
        ProjectSearchV {
            open: self.open,
            query: self.query@,
            replace_query: self.replace_query@,
            results: self.results@,
            replace_previews: self.replace_previews@,
            selected: self.selected,
            confirm_replace: self.confirm_replace,
        }
    }
}

// ----- file finder -----

/// A file that the finder offers.
#[derive(Debug, PartialEq, Eq)]
pub struct FuzzyCandidate {
    /// What is shown.
    pub display: String,
    /// What is opened.
    pub path: String,
}

/// The finder for files.
#[derive(Debug)]
pub struct FuzzyFinder {
    pub open: bool,
    pub query: String,
    pub items: Vec<FuzzyCandidate>,
    /// The items that match the query, best first, by their index.
    pub filtered: Vec<usize>,
    pub selected: usize,
}

#[verifier::ext_equal]
pub struct FuzzyV {
    pub open: bool,
    pub query: Seq<char>,
    pub items: Seq<CandidateV>,
    pub filtered: Seq<usize>,
    pub selected: usize,
}

#[verifier::ext_equal]
pub struct CandidateV {
    pub display: Seq<char>,
    pub path: Seq<char>,
}

impl View for FuzzyCandidate {
    type V = CandidateV;

    open spec fn view(&self) -> CandidateV {
        CandidateV { display: self.display@, path: self.path@ }
    }
}

pub open spec fn candidates_view(s: Seq<FuzzyCandidate>) -> Seq<CandidateV> {
    Seq::new(s.len(), |i: int| s[i]@)
}

impl View for FuzzyFinder {
    type V = FuzzyV;

    open spec fn view(&self) -> FuzzyV {
        FuzzyV {
            open: self.open,
            query: self.query@,
            items: candidates_view(self.items@),
            filtered: self.filtered@,
            selected: self.selected,
        }
    }
}

/// A candidate with this path is there.
pub open spec fn has_path(items: Seq<CandidateV>, path: Seq<char>) -> bool {
    exists|i: int| 0 <= i < items.len() && (#[trigger] items[i]).path == path
}

/// `items` and, behind them, the first `n` recent files that are not among
/// them or each other.
pub open spec fn with_recent(items: Seq<CandidateV>, recent: Seq<Seq<char>>, n: int) -> Seq<CandidateV>
    decreases n,
{
    if n <= 0 {
        items
    } else {
        let before = with_recent(items, recent, n - 1);
        if has_path(before, recent[n - 1]) {
            before
        } else {
            before.push(CandidateV { display: recent[n - 1], path: recent[n - 1] })
        }
    }
}

pub open spec fn texts(s: Seq<String>) -> Seq<Seq<char>> {
    Seq::new(s.len(), |i: int| s[i]@)
}

fn contains_path(items: &Vec<FuzzyCandidate>, path: &str) -> (r: bool)
    ensures
        r == has_path(candidates_view(items@), path@),
{
    let ghost views = candidates_view(items@);
    let mut i: usize = 0;
    while i < items.len()
        invariant
            i <= items.len(),
            views == candidates_view(items@),
            forall|k: int| 0 <= k < i ==> (#[trigger] views[k]).path != path@,
        decreases items.len() - i,
    {
        assert(views[i as int].path == items@[i as int].path@);
        if same_text(items[i].path.as_str(), path) {
            return true;
        }
        i += 1;
    }
    false
}

/// Add the recent files that are not among the candidates yet.
pub fn add_recent(items: &mut Vec<FuzzyCandidate>, recent: &Vec<String>)
    ensures
        candidates_view(final(items)@) == with_recent(
            candidates_view(old(items)@),
            texts(recent@),
            recent@.len() as int,
        ),
{
    let ghost start = candidates_view(items@);
    let mut i: usize = 0;
    while i < recent.len()
        invariant
            i <= recent.len(),
            candidates_view(items@) == with_recent(start, texts(recent@), i as int),
        decreases recent.len() - i,
    {
        let path: &String = &recent[i];
        assert(texts(recent@)[i as int] == path@);
        if !contains_path(items, path.as_str()) {
            let ghost before = items@;
            items.push(FuzzyCandidate { display: path.clone(), path: path.clone() });
            assert(candidates_view(items@) =~= candidates_view(before).push(
                CandidateV { display: path@, path: path@ },
            ));
        }
        i += 1;
    }
}

/// Law: the finder offers every project file and every recent file, the
/// project's first, and no recent file twice.
pub proof fn law_finder_offers_all(items: Seq<CandidateV>, recent: Seq<Seq<char>>, n: int)
    requires
        0 <= n <= recent.len(),
    ensures
        with_recent(items, recent, n).len() >= items.len(),
        with_recent(items, recent, n).take(items.len() as int) == items,
        forall|i: int| 0 <= i < n ==> has_path(with_recent(items, recent, n), #[trigger] recent[i]),
        forall|i: int, j: int|
            items.len() <= i < with_recent(items, recent, n).len() && 0 <= j < i ==> (
            #[trigger] with_recent(items, recent, n)[i]).path != (#[trigger] with_recent(
                items,
                recent,
                n,
            )[j]).path,
    decreases n,
{
    if n > 0 {
        law_finder_offers_all(items, recent, n - 1);
        let before = with_recent(items, recent, n - 1);
        let after = with_recent(items, recent, n);
        assert forall|i: int| 0 <= i < n implies has_path(after, #[trigger] recent[i]) by {
            if i < n - 1 {
                assert(has_path(before, recent[i]));
                let k = choose|k: int|
                    0 <= k < before.len() && (#[trigger] before[k]).path == recent[i];
                assert(after[k].path == recent[i]);
            } else if !has_path(before, recent[n - 1]) {
                assert(after[before.len() as int].path == recent[n - 1]);
            }
        }
        assert(after.take(items.len() as int) =~= items) by {
            assert(before.take(items.len() as int) =~= items);
            assert forall|k: int| 0 <= k < items.len() implies after[k] == items[k] by {
                assert(before.take(items.len() as int)[k] == before[k]);
            }
        }
        assert forall|i: int, j: int|
            items.len() <= i < after.len() && 0 <= j < i implies (#[trigger] after[i]).path != (
        #[trigger] after[j]).path by {
            if i == before.len() {
                assert(after[j] == before[j]);
            } else {
                assert(after[i] == before[i]);
                assert(after[j] == before[j]);
            }
        }
    } else {
        assert(items.take(items.len() as int) =~= items);
    }
}

// ----- command palette -----

/// A command that the palette offers.
#[derive(Debug)]
pub struct Command {
    pub label: String,
    /// The keys that run it, or nothing.
    pub keybinding: String,
    pub event: EditorEvent,
}

/// The palette of commands.
#[derive(Debug)]
pub struct CommandPalette {
    pub open: bool,
    pub query: String,
    pub filtered: Vec<Command>,
    pub selected: usize,
}

#[verifier::ext_equal]
pub struct PaletteV {
    pub open: bool,
    pub query: Seq<char>,
    pub filtered: Seq<Command>,
    pub selected: usize,
}

impl View for CommandPalette {
    type V = PaletteV;

    open spec fn view(&self) -> PaletteV {
        PaletteV {
            open: self.open,
            query: self.query@,
            filtered: self.filtered@,
            selected: self.selected,
        }
    }
}

// ----- symbols, completions, hover, definitions -----

/// A symbol of a document.
#[derive(Debug)]
pub struct Symbol {
    pub name: String,
    /// The line of its name, counted from 0.
    pub line: u32,
}

/// The picker for symbols.
#[derive(Debug)]
pub struct SymbolPicker {
    pub open: bool,
    pub query: String,
    pub items: Vec<Symbol>,
    pub filtered: Vec<usize>,
    pub selected: usize,
}

#[verifier::ext_equal]
pub struct SymbolsV {
    pub open: bool,
    pub query: Seq<char>,
    pub items: Seq<Symbol>,
    pub filtered: Seq<usize>,
    pub selected: usize,
}

impl View for SymbolPicker {
    type V = SymbolsV;

    open spec fn view(&self) -> SymbolsV {
        SymbolsV {
            open: self.open,
            query: self.query@,
            items: self.items@,
            filtered: self.filtered@,
            selected: self.selected,
        }
    }
}

/// A completion that a language server offers.
#[derive(Debug)]
pub struct CompletionItem {
    pub label: String,
    pub detail: Option<String>,
    /// What is inserted, if it is not the label.
    pub insert_text: Option<String>,
}

/// The popup with completions.
#[derive(Debug)]
pub struct LspCompletionState {
    pub open: bool,
    pub items: Vec<CompletionItem>,
    pub selected: usize,
    /// A request is on its way.
    pub pending: bool,
}

#[verifier::ext_equal]
pub struct CompletionV {
    pub open: bool,
    pub items: Seq<CompletionItem>,
    pub selected: usize,
    pub pending: bool,
}

impl View for LspCompletionState {
    type V = CompletionV;

    open spec fn view(&self) -> CompletionV {
        CompletionV {
            open: self.open,
            items: self.items@,
            selected: self.selected,
            pending: self.pending,
        }
    }
}

/// The tooltip with documentation.
#[derive(Debug)]
pub struct LspHoverState {
    pub open: bool,
    pub text: String,
    /// What the request on its way asks about.
    pub request_pos: Option<Position>,
}

#[verifier::ext_equal]
pub struct HoverV {
    pub open: bool,
    pub text: Seq<char>,
    pub request_pos: Option<Position>,
}

impl View for LspHoverState {
    type V = HoverV;

    open spec fn view(&self) -> HoverV {
        HoverV { open: self.open, text: self.text@, request_pos: self.request_pos }
    }
}

/// A request for a definition.
#[derive(Debug, Clone, Copy, PartialEq, Eq, Structural)]
pub struct LspDefinitionState {
    pub pending: bool,
    pub request_pos: Option<Position>,
    /// It came from a click, so the caret need not stay where it was asked.
    pub from_cmd_click: bool,
}

/// The identifier under the pointer while the command key is held.
#[derive(Debug, Clone, Copy, PartialEq, Eq)]
pub struct CmdLinkState {
    pub range: Option<(usize, usize)>,
}

// ----- project tree -----

/// A visible row of the project tree.
#[derive(Debug)]
pub struct TreeRow {
    pub depth: usize,
    pub name: String,
    pub rel_path: String,
    pub is_dir: bool,
    pub expanded: bool,
}

/// The sidebar with the files of the project.
#[derive(Debug)]
pub struct TreePanel {
    /// A project is loaded.
    pub loaded: bool,
    pub root: Option<String>,
    pub rows: Vec<TreeRow>,
    pub selected: usize,
    /// The selected row is to be scrolled into view.
    pub reveal_pending: bool,
    pub focused: bool,
}

#[verifier::ext_equal]
pub struct TreeV {
    pub loaded: bool,
    pub root: Option<Seq<char>>,
    pub rows: Seq<TreeRow>,
    pub selected: usize,
    pub reveal_pending: bool,
    pub focused: bool,
}

impl TreeV {
    /// The tree of another project is to come.
    pub open spec fn pointed_at(self, root: Seq<char>) -> TreeV {
        TreeV { root: Some(root), selected: 0, reveal_pending: false, ..self }
    }

    /// No project.
    pub open spec fn cleared(self) -> TreeV {
        TreeV {
            loaded: false,
            root: None,
            rows: seq![],
            selected: 0,
            reveal_pending: false,
            ..self
        }
    }
}

impl TreePanel {
    pub fn point_at(&mut self, root: String)
        ensures
            final(self)@ == old(self)@.pointed_at(root@),
    {
        self.root = Some(root);
        self.selected = 0;
        self.reveal_pending = false;
    }

    pub fn clear(&mut self)
        ensures
            final(self)@ == old(self)@.cleared(),
    {
        self.loaded = false;
        self.root = None;
        self.rows = Vec::new();
        self.selected = 0;
        self.reveal_pending = false;
        assert(self@.rows =~= seq![]);
    }
}

impl View for TreePanel {
    type V = TreeV;

    open spec fn view(&self) -> TreeV {
        TreeV {
            loaded: self.loaded,
            root: crate::buffer::opt_text(self.root),
            rows: self.rows@,
            selected: self.selected,
            reveal_pending: self.reveal_pending,
            focused: self.focused,
        }
    }
}

} // verus!

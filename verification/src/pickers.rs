//! The project tree, project-wide search, the file finder, the command palette
//! and the symbol picker.

use vstd::prelude::*;

use crate::effect::Effect;
use crate::event::EditorEvent;
use crate::files::doc_at_path;
use crate::panels::{
    add_recent, candidates_view, clamp_row, clamped_row, texts, with_recent, wrap_selection,
    wrapped, CandidateV, Command, FuzzyCandidate, FuzzyV, PaletteV, ProjectSearchResult,
    ProjectSearchV, ReplacePreview, Symbol, SymbolsV, TreeRow, TreeV,
};
use crate::state::{AppV, EditorApp, PanelsV, Ui};
use crate::text::{decimal, push_decimal};

verus! {

/// A selected row moved by `delta`, around the ends; in an empty list it stays.
pub open spec fn row_moved(selected: usize, delta: int, len: nat) -> usize {
    if len == 0 { selected } else { wrapped(selected as int, delta, len as int) as usize }
}

fn move_row(selected: usize, delta: isize, len: usize) -> (r: usize)
    ensures
        r == row_moved(selected, delta as int, len as nat),
{
    if len == 0 {
        selected
    } else {
        wrap_selection(selected, delta, len)
    }
}

// ----- project tree -----

impl AppV {
    pub open spec fn with_tree(self, tree: TreeV) -> AppV {
        AppV { panels: PanelsV { tree, ..self.panels }, ..self }
    }

    pub open spec fn tree_toggled(self) -> AppV {
        let open = !self.ui.project_tree_open;
        let s = AppV { ui: Ui { project_tree_open: open, ..self.ui }, ..self };
        if open {
            s.tree_refreshed().tree_focused(true)
        } else {
            s.tree_focused(false)
        }
    }

    pub open spec fn tree_focused(self, focused: bool) -> AppV {
        self.with_tree(TreeV { focused, ..self.panels.tree })
    }

    pub open spec fn tree_moved(self, delta: int) -> AppV {
        let t = self.panels.tree;
        self.with_tree(TreeV { selected: row_moved(t.selected, delta, t.rows.len()), ..t })
    }

    /// The selected directory opened or closed, or the selected file opened.
    pub open spec fn tree_opened(self) -> AppV {
        let t = self.panels.tree;
        if t.selected >= t.rows.len() {
            self
        } else {
            let row = t.rows[t.selected as int];
            if row.is_dir {
                self.with_effect(Effect::ToggleTreeNode(row.rel_path))
            } else if self.doc().info.project_root is Some {
                self.with_effect(Effect::OpenProjectFile(row.rel_path))
            } else {
                self
            }
        }
    }

    /// The rows of a project that was asked for, with the row of the active
    /// document.
    pub open spec fn tree_arrived(
        self,
        rows: Option<Seq<TreeRow>>,
        found: Option<usize>,
    ) -> AppV {
        let t = self.panels.tree;
        match rows {
            None => self.with_tree(TreeV { loaded: false, rows: seq![], ..t }),
            Some(rows) => match found {
                Some(i) => self.with_tree(
                    TreeV { loaded: true, rows, selected: i, reveal_pending: true, ..t },
                ),
                None => self.with_tree(TreeV { loaded: true, rows, ..t }),
            },
        }
    }

    /// The rows of the tree with the active document in view; without a row
    /// for it the project is asked for anew.
    pub open spec fn tree_found(self, rows: Seq<TreeRow>, found: Option<usize>) -> AppV {
        match found {
            Some(i) => self.with_tree(
                TreeV { rows, selected: i, reveal_pending: true, ..self.panels.tree },
            ),
            None => self.tree_refreshed(),
        }
    }
}

impl EditorApp {
    pub fn focus_tree(&mut self, focused: bool)
        requires
            old(self)@.wf(),
        ensures
            final(self)@ == old(self)@.tree_focused(focused),
            final(self)@.wf(),
    {
        self.panels_mut().project_tree.focused = focused;
    }

    /// Show the project tree and give it the focus, or hide it.
    pub fn toggle_project_tree(&mut self)
        requires
            old(self)@.wf(),
        ensures
            final(self)@ == old(self)@.tree_toggled(),
            final(self)@.wf(),
    {
        let open: bool = !self.ui().project_tree_open;
        self.ui_mut().project_tree_open = open;
        if open {
            self.refresh_project_tree();
            self.focus_tree(true);
        } else {
            self.focus_tree(false);
        }
    }

    /// The visible rows of the project tree.
    pub fn project_tree_rows(&self) -> (r: &Vec<TreeRow>)
        ensures
            r@ == self@.panels.tree.rows,
    {
        &self.panels().project_tree.rows
    }

    /// Select the row `delta` rows away, around the ends.
    pub fn move_project_tree_selection(&mut self, delta: isize)
        requires
            old(self)@.wf(),
        ensures
            final(self)@ == old(self)@.tree_moved(delta as int),
            final(self)@.wf(),
    {
        let len: usize = self.panels().project_tree.rows.len();
        let next: usize = move_row(self.panels().project_tree.selected, delta, len);
        self.panels_mut().project_tree.selected = next;
    }

    /// Open or close the selected directory, or open the selected file.
    pub fn open_or_toggle_selected_project_tree_node(&mut self)
        requires
            old(self)@.wf(),
        ensures
            final(self)@ == old(self)@.tree_opened(),
            final(self)@.wf(),
    {
        let selected: usize = self.panels().project_tree.selected;
        let rows: &Vec<TreeRow> = self.project_tree_rows();
        if selected >= rows.len() {
            return;
        }
        let path: String = rows[selected].rel_path.clone();
        if rows[selected].is_dir {
            self.push_effect(Effect::ToggleTreeNode(path));
        } else if self.active_doc().info.project_root.is_some() {
            self.push_effect(Effect::OpenProjectFile(path));
        }
    }

    /// Show a project that was asked for. `found` is the row of the active
    /// document.
    pub fn tree_loaded(&mut self, rows: Option<Vec<TreeRow>>, found: Option<usize>)
        requires
            old(self)@.wf(),
        ensures
            final(self)@ == old(self)@.tree_arrived(
                match rows {
                    Some(r) => Some(r@),
                    None => None,
                },
                found,
            ),
            final(self)@.wf(),
    {
        let tree = &mut self.panels_mut().project_tree;
        match rows {
            None => {
                tree.loaded = false;
                tree.rows = Vec::new();
                assert(tree@.rows =~= seq![]);
            },
            Some(rows) => {
                tree.loaded = true;
                tree.rows = rows;
                if let Some(i) = found {
                    tree.selected = i;
                    tree.reveal_pending = true;
                }
            },
        }
    }

    /// Show where the active document is in the tree.
    pub fn tree_revealed(&mut self, rows: Vec<TreeRow>, found: Option<usize>)
        requires
            old(self)@.wf(),
        ensures
            final(self)@ == old(self)@.tree_found(rows@, found),
            final(self)@.wf(),
    {
        match found {
            Some(i) => {
                let tree = &mut self.panels_mut().project_tree;
                tree.rows = rows;
                tree.selected = i;
                tree.reveal_pending = true;
            },
            None => self.refresh_project_tree(),
        }
    }
}

// ----- project-wide search -----

impl AppV {
    pub open spec fn with_project_search(self, project_search: ProjectSearchV) -> AppV {
        AppV { panels: PanelsV { project_search, ..self.panels }, ..self }
    }

    /// The search run anew; outside a project nothing is found.
    pub open spec fn project_searched(self) -> AppV {
        let p = ProjectSearchV { confirm_replace: false, ..self.panels.project_search };
        if self.doc().info.project_root is Some {
            self.with_project_search(p).with_effect(Effect::RunProjectSearch)
        } else {
            self.with_project_search(
                ProjectSearchV { results: seq![], replace_previews: seq![], selected: 0, ..p },
            )
        }
    }

    pub open spec fn project_search_opened(self, query: Option<Seq<char>>) -> AppV {
        let p = self.panels.project_search;
        self.with_project_search(
            ProjectSearchV {
                open: true,
                query: match query {
                    Some(q) => q,
                    None => p.query,
                },
                ..p
            },
        ).project_searched()
    }

    pub open spec fn project_query(self, query: Seq<char>) -> AppV {
        self.with_project_search(
            ProjectSearchV { query, ..self.panels.project_search },
        ).project_searched()
    }

    pub open spec fn project_replace_query(self, query: Seq<char>) -> AppV {
        self.with_project_search(
            ProjectSearchV { replace_query: query, ..self.panels.project_search },
        ).project_searched()
    }

    pub open spec fn project_search_closed(self) -> AppV {
        self.with_project_search(ProjectSearchV { open: false, ..self.panels.project_search })
    }

    /// What a search has found.
    pub open spec fn project_results(
        self,
        results: Seq<ProjectSearchResult>,
        previews: Seq<ReplacePreview>,
    ) -> AppV {
        let p = self.panels.project_search;
        self.with_project_search(
            ProjectSearchV {
                results,
                replace_previews: previews,
                selected: clamped_row(p.selected, results.len()),
                ..p
            },
        )
    }

    pub open spec fn project_search_moved(self, delta: int) -> AppV {
        let p = self.panels.project_search;
        self.with_project_search(
            ProjectSearchV { selected: row_moved(p.selected, delta, p.results.len()), ..p },
        )
    }

    /// The selected place asked for.
    pub open spec fn result_opened(self) -> AppV {
        let p = self.panels.project_search;
        if p.selected >= p.results.len() || self.doc().info.project_root is None {
            self
        } else {
            let r = p.results[p.selected as int];
            self.with_effect(
                Effect::OpenSearchResult { rel_path: r.rel_path, line: r.line, col: r.col },
            )
        }
    }

    /// The user asked whether to replace; or why not.
    pub open spec fn project_replace_asked(self) -> AppV {
        let p = self.panels.project_search;
        if p.query.len() == 0 {
            self.with_status("Project replace: nothing to find."@)
        } else if p.replace_query.len() == 0 {
            self.with_status("Project replace: replacement is empty — type something first."@)
        } else if p.replace_previews.len() == 0 {
            self.with_status("No occurrences to replace."@)
        } else {
            self.with_project_search(ProjectSearchV { confirm_replace: true, ..p })
        }
    }

    pub open spec fn project_replace_answered(self, yes: bool) -> AppV {
        let s = self.with_project_search(
            ProjectSearchV { confirm_replace: false, ..self.panels.project_search },
        );
        if !yes {
            s
        } else if self.doc().info.project_root is None {
            s.with_status("No project detected."@)
        } else {
            s.with_effect(Effect::ReplaceInProject)
        }
    }

    /// The first `n` changed files: the documents that show them are read
    /// again, or marked if they have changes.
    pub open spec fn files_replaced(self, paths: Seq<Seq<char>>, n: int) -> AppV
        decreases n,
    {
        if n <= 0 {
            self
        } else {
            self.files_replaced(paths, n - 1).file_replaced(paths[n - 1])
        }
    }

    pub open spec fn file_replaced(self, path: Seq<char>) -> AppV {
        match doc_at_path(self.documents, path, 0) {
            None => self,
            Some(i) => if self.documents[i].buffer.dirty {
                self.marked_stale(i)
            } else {
                self.with_reload(path)
            },
        }
    }

    /// How many of the first `n` changed files are open with changes.
    pub open spec fn stale_files(self, paths: Seq<Seq<char>>, n: int) -> nat
        decreases n,
    {
        if n <= 0 {
            0
        } else {
            let s = self.files_replaced(paths, n - 1);
            self.stale_files(paths, n - 1) + (match doc_at_path(s.documents, paths[n - 1], 0) {
                Some(i) => if s.documents[i].buffer.dirty { 1nat } else { 0nat },
                None => 0nat,
            })
        }
    }
}

/// What is said after a replacement in a project.
pub open spec fn replaced_text(total: nat, files: nat, stale: nat) -> Seq<char> {
    let text = "Replaced "@ + decimal(total) + " occurrences in "@ + decimal(files) + " files."@;
    if stale > 0 {
        text + " "@ + decimal(stale)
            + " open file(s) had unsaved changes and were marked stale."@
    } else {
        text
    }
}

fn build_replaced_text(total: usize, files: usize, stale: usize) -> (r: String)
    ensures
        r@ == replaced_text(total as nat, files as nat, stale as nat),
{
    let mut text: String = "Replaced ".to_owned();
    push_decimal(&mut text, total as u64);
    text.append(" occurrences in ");
    push_decimal(&mut text, files as u64);
    text.append(" files.");
    if stale > 0 {
        text.append(" ");
        push_decimal(&mut text, stale as u64);
        text.append(" open file(s) had unsaved changes and were marked stale.");
    }
    text
}

impl EditorApp {
    /// Run the project-wide search with the current queries.
    pub fn refresh_project_search(&mut self)
        requires
            old(self)@.wf(),
        ensures
            final(self)@ == old(self)@.project_searched(),
            final(self)@.wf(),
    {
        if self.active_doc().info.project_root.is_some() {
            self.panels_mut().project_search.confirm_replace = false;
            self.push_effect(Effect::RunProjectSearch);
        } else {
            let search = &mut self.panels_mut().project_search;
            search.confirm_replace = false;
            search.results = Vec::new();
            search.replace_previews = Vec::new();
            search.selected = 0;
            assert(search@.results =~= seq![]);
            assert(search@.replace_previews =~= seq![]);
        }
    }

    pub fn open_project_search(&mut self, query: Option<String>)
        requires
            old(self)@.wf(),
        ensures
            final(self)@ == old(self)@.project_search_opened(crate::buffer::opt_text(query)),
            final(self)@.wf(),
    {
        let search = &mut self.panels_mut().project_search;
        search.open = true;
        match query {
            Some(q) => {
                search.query = q;
            },
            None => {},
        }
        self.refresh_project_search();
    }

    pub fn set_project_query(&mut self, query: String)
        requires
            old(self)@.wf(),
        ensures
            final(self)@ == old(self)@.project_query(query@),
            final(self)@.wf(),
    {
        self.panels_mut().project_search.query = query;
        self.refresh_project_search();
    }

    pub fn set_project_replace_query(&mut self, query: String)
        requires
            old(self)@.wf(),
        ensures
            final(self)@ == old(self)@.project_replace_query(query@),
            final(self)@.wf(),
    {
        self.panels_mut().project_search.replace_query = query;
        self.refresh_project_search();
    }

    pub fn close_project_search(&mut self)
        ensures
            final(self)@ == old(self)@.project_search_closed(),
    {
        self.panels_mut().project_search.open = false;
    }

    /// Take over what a project-wide search has found.
    pub fn project_search_finished(
        &mut self,
        results: Vec<ProjectSearchResult>,
        previews: Vec<ReplacePreview>,
    )
        requires
            old(self)@.wf(),
        ensures
            final(self)@ == old(self)@.project_results(results@, previews@),
            final(self)@.wf(),
    {
        let search = &mut self.panels_mut().project_search;
        search.selected = clamp_row(search.selected, results.len());
        search.results = results;
        search.replace_previews = previews;
    }

    /// Select the result `delta` rows away, around the ends.
    pub fn move_project_search_selection(&mut self, delta: isize)
        requires
            old(self)@.wf(),
        ensures
            final(self)@ == old(self)@.project_search_moved(delta as int),
            final(self)@.wf(),
    {
        let search = &mut self.panels_mut().project_search;
        search.selected = move_row(search.selected, delta, search.results.len());
    }

    /// Ask for the selected place.
    pub fn open_selected_project_search_result(&mut self)
        requires
            old(self)@.wf(),
        ensures
            final(self)@ == old(self)@.result_opened(),
            final(self)@.wf(),
    {
        let selected: usize = self.panels().project_search.selected;
        let results: &Vec<ProjectSearchResult> = &self.panels().project_search.results;
        if selected >= results.len() || self.active_doc().info.project_root.is_none() {
            return;
        }
        let rel_path: String = results[selected].rel_path.clone();
        let line: usize = results[selected].line;
        let col: usize = results[selected].col;
        self.push_effect(Effect::OpenSearchResult { rel_path, line, col });
    }

    /// Go to a place that was asked for, now that its file is open. Line and
    /// column are counted from 1.
    pub fn show_search_result(&mut self, line: usize, col: usize)
        requires
            old(self)@.wf(),
        ensures
            final(self)@ == old(self)@.went_to_line(line as int).at_column(
                line as int,
                col as int,
            ).project_search_closed(),
            final(self)@.wf(),
    {
        self.go_to_line(line);
        self.go_to_column(line, col);
        self.close_project_search();
    }

    fn go_to_column(&mut self, line: usize, col: usize)
        requires
            old(self)@.wf(),
        ensures
            final(self)@ == old(self)@.at_column(line as int, col as int),
            final(self)@.wf(),
    {
        match self.active_buffer().linecol_to_pos(line.saturating_sub(1), col.saturating_sub(1)) {
            Some(pos) => self.place_cursor(pos),
            None => {},
        }
    }

    /// Ask the user whether to replace in the whole project.
    pub fn apply_project_replace_all(&mut self)
        requires
            old(self)@.wf(),
        ensures
            final(self)@ == old(self)@.project_replace_asked(),
            final(self)@.wf(),
    {
        let search = &self.panels().project_search;
        if search.query.as_str().is_empty() {
            self.set_status("Project replace: nothing to find.");
        } else if search.replace_query.as_str().is_empty() {
            self.set_status("Project replace: replacement is empty — type something first.");
        } else if search.replace_previews.len() == 0 {
            self.set_status("No occurrences to replace.");
        } else {
            self.panels_mut().project_search.confirm_replace = true;
        }
    }

    fn unask_replace(&mut self)
        requires
            old(self)@.wf(),
        ensures
            final(self)@ == old(self)@.project_replace_answered(false),
            final(self)@.wf(),
    {
        self.panels_mut().project_search.confirm_replace = false;
    }

    /// The user has answered whether to replace.
    pub fn confirm_project_replace_all(&mut self, confirmed: bool)
        requires
            old(self)@.wf(),
        ensures
            final(self)@ == old(self)@.project_replace_answered(confirmed),
            final(self)@.wf(),
    {
        self.unask_replace();
        if confirmed {
            if self.active_doc().info.project_root.is_none() {
                self.set_status("No project detected.");
            } else {
                self.push_effect(Effect::ReplaceInProject);
            }
        }
    }

    fn replace_file(&mut self, path: &String) -> (r: bool)
        requires
            old(self)@.wf(),
        ensures
            final(self)@ == old(self)@.file_replaced(path@),
            final(self)@.wf(),
            r == (doc_at_path(old(self)@.documents, path@, 0) matches Some(i)
                && old(self)@.documents[i].buffer.dirty),
    {
        match self.find_path(path.as_str()) {
            None => false,
            Some(i) => {
                if self.document(i).is_dirty() {
                    self.mark_stale(i);
                    true
                } else {
                    self.push_effect(Effect::ReloadFile(path.clone()));
                    false
                }
            },
        }
    }

    /// Go on after `total` occurrences were replaced in some files.
    pub fn project_replaced(&mut self, total: usize, paths: &Vec<String>)
        requires
            old(self)@.wf(),
        ensures
            final(self)@ == (if total == 0 {
                old(self)@.with_status("No occurrences replaced."@)
            } else {
                old(self)@.files_replaced(texts(paths@), paths@.len() as int).with_status(
                    replaced_text(
                        total as nat,
                        paths@.len(),
                        old(self)@.stale_files(texts(paths@), paths@.len() as int),
                    ),
                ).project_search_closed()
            }),
            final(self)@.wf(),
    {
        if total == 0 {
            self.set_status("No occurrences replaced.");
            return;
        }
        let mut stale: usize = 0;
        let mut i: usize = 0;
        while i < paths.len()
            invariant
                i <= paths.len(),
                stale <= i,
                self@.wf(),
                self@ == old(self)@.files_replaced(texts(paths@), i as int),
                stale == old(self)@.stale_files(texts(paths@), i as int),
            decreases paths.len() - i,
        {
            assert(texts(paths@)[i as int] == paths@[i as int]@);
            if self.replace_file(&paths[i]) {
                stale += 1;
            }
            i += 1;
        }
        let text: String = build_replaced_text(total, paths.len(), stale);
        self.set_status_text(text);
        self.close_project_search();
    }

    /// A file of the project could not be written.
    pub fn project_replace_failed(&mut self, rel_path: &str, message: &str)
        requires
            old(self)@.wf(),
        ensures
            final(self)@ == old(self)@.with_status(
                "Replace error in "@ + rel_path@ + ": "@ + message@,
            ),
            final(self)@.wf(),
    {
        let mut text: String = "Replace error in ".to_owned();
        text.append(rel_path);
        text.append(": ");
        text.append(message);
        self.set_status_text(text);
    }
}

impl AppV {
    /// The caret at a line and byte column, both counted from 1, where there
    /// is such a place.
    pub open spec fn at_column(self, line: int, col: int) -> AppV {
        let l = if line > 0 { line - 1 } else { 0 };
        let c = if col > 0 { col - 1 } else { 0 };
        match crate::lines::pos_spec(self.buf().text, l as nat, c) {
            Some(pos) => self.with_cursor(pos),
            None => self,
        }
    }
}

// ----- file finder -----

impl AppV {
    pub open spec fn with_fuzzy(self, fuzzy: FuzzyV) -> AppV {
        AppV { panels: PanelsV { fuzzy, ..self.panels }, ..self }
    }

    pub open spec fn finder_opened(self, query: Option<Seq<char>>) -> AppV {
        self.with_fuzzy(
            FuzzyV {
                open: true,
                query: match query {
                    Some(q) => q,
                    None => seq![],
                },
                items: seq![],
                ..self.panels.fuzzy
            },
        ).with_effect(Effect::ListProjectFiles)
    }

    /// The files of the project and the recent files offered.
    pub open spec fn files_listed(self, project: Seq<CandidateV>) -> AppV {
        let recent = self.config.recent_files;
        self.with_fuzzy(
            FuzzyV {
                items: with_recent(project, recent, recent.len() as int),
                ..self.panels.fuzzy
            },
        ).with_effect(Effect::RankFiles)
    }

    pub open spec fn finder_query(self, query: Seq<char>) -> AppV {
        self.with_fuzzy(FuzzyV { query, ..self.panels.fuzzy }).with_effect(Effect::RankFiles)
    }

    /// The files that match the query, best first.
    pub open spec fn files_ranked(self, ranked: Seq<usize>) -> AppV {
        let f = self.panels.fuzzy;
        self.with_fuzzy(
            FuzzyV { filtered: ranked, selected: clamped_row(f.selected, ranked.len()), ..f },
        )
    }

    pub open spec fn finder_moved(self, delta: int) -> AppV {
        let f = self.panels.fuzzy;
        self.with_fuzzy(
            FuzzyV { selected: row_moved(f.selected, delta, f.filtered.len()), ..f },
        )
    }

    pub open spec fn finder_closed(self) -> AppV {
        self.with_fuzzy(FuzzyV { open: false, ..self.panels.fuzzy })
    }

    /// The finder closed and the selected file opened.
    #[verifier::opaque]
    pub open spec fn file_chosen(self) -> AppV {
        match self.finder_choice() {
            Some(i) => self.finder_closed().switched_to(self.panels.fuzzy.items[i].path),
            None => self,
        }
    }

    /// The index of the selected file.
    pub open spec fn finder_choice(self) -> Option<int> {
        let f = self.panels.fuzzy;
        if f.selected < f.filtered.len() && f.filtered[f.selected as int] < f.items.len() {
            Some(f.filtered[f.selected as int] as int)
        } else {
            None
        }
    }
}

impl EditorApp {
    /// Open the file finder with an optional query; the files are asked for.
    pub fn open_fuzzy_finder(&mut self, query: Option<String>)
        requires
            old(self)@.wf(),
        ensures
            final(self)@ == old(self)@.finder_opened(crate::buffer::opt_text(query)),
            final(self)@.wf(),
    {
        let finder = &mut self.panels_mut().fuzzy_finder;
        finder.open = true;
        finder.query = match query {
            Some(q) => q,
            None => String::new(),
        };
        finder.items = Vec::new();
        assert(finder@.items =~= seq![]);
        assert(query is None ==> finder@.query =~= seq![]);
        self.push_effect(Effect::ListProjectFiles);
    }

    /// Offer the files of the project, and the recent files behind them.
    pub fn fuzzy_files_listed(&mut self, project: Vec<FuzzyCandidate>)
        requires
            old(self)@.wf(),
        ensures
            final(self)@ == old(self)@.files_listed(candidates_view(project@)),
            final(self)@.wf(),
    {
        let mut items = project;
        add_recent(&mut items, &self.config().recent_files);
        self.panels_mut().fuzzy_finder.items = items;
        self.push_effect(Effect::RankFiles);
    }

    pub fn set_finder_query(&mut self, query: String)
        requires
            old(self)@.wf(),
        ensures
            final(self)@ == old(self)@.finder_query(query@),
            final(self)@.wf(),
    {
        self.panels_mut().fuzzy_finder.query = query;
        self.push_effect(Effect::RankFiles);
    }

    /// Take over which files match the query, best first.
    pub fn refresh_fuzzy_finder(&mut self, ranked: Vec<usize>)
        requires
            old(self)@.wf(),
        ensures
            final(self)@ == old(self)@.files_ranked(ranked@),
            final(self)@.wf(),
    {
        let finder = &mut self.panels_mut().fuzzy_finder;
        finder.selected = clamp_row(finder.selected, ranked.len());
        finder.filtered = ranked;
    }

    /// Select the file `delta` rows away, around the ends.
    pub fn move_fuzzy_finder_selection(&mut self, delta: isize)
        requires
            old(self)@.wf(),
        ensures
            final(self)@ == old(self)@.finder_moved(delta as int),
            final(self)@.wf(),
    {
        let finder = &mut self.panels_mut().fuzzy_finder;
        finder.selected = move_row(finder.selected, delta, finder.filtered.len());
    }

    pub fn close_finder(&mut self)
        requires
            old(self)@.wf(),
        ensures
            final(self)@ == old(self)@.finder_closed(),
            final(self)@.wf(),
    {
        self.panels_mut().fuzzy_finder.open = false;
    }

    /// The path of the selected file.
    pub fn finder_choice(&self) -> (r: Option<String>)
        ensures
            r is Some <==> self@.finder_choice() is Some,
            r matches Some(p) ==> p@ == self@.panels.fuzzy.items[self@.finder_choice()->0].path,
    {
        let finder = &self.panels().fuzzy_finder;
        if finder.selected < finder.filtered.len() {
            let i: usize = finder.filtered[finder.selected];
            if i < finder.items.len() {
                return Some(finder.items[i].path.clone());
            }
        }
        None
    }

    /// Close the finder and open the selected file.
    pub fn execute_fuzzy_finder(&mut self)
        requires
            old(self)@.wf(),
        ensures
            final(self)@ == old(self)@.file_chosen(),
            final(self)@.wf(),
    {
        proof {
            reveal(AppV::file_chosen);
        }
        match self.finder_choice() {
            None => {},
            Some(path) => {
                self.close_finder();
                self.open_or_switch_to_path(path);
            },
        }
    }
}

// ----- command palette -----

impl AppV {
    pub open spec fn with_palette(self, palette: PaletteV) -> AppV {
        AppV { panels: PanelsV { palette, ..self.panels }, ..self }
    }

    pub open spec fn palette_opened(self, query: Option<Seq<char>>) -> AppV {
        let p = self.panels.palette;
        self.with_palette(
            PaletteV {
                open: true,
                query: match query {
                    Some(q) => q,
                    None => p.query,
                },
                ..p
            },
        ).with_effect(Effect::FilterCommands)
    }

    pub open spec fn palette_query(self, query: Seq<char>) -> AppV {
        self.with_palette(PaletteV { query, ..self.panels.palette }).with_effect(
            Effect::FilterCommands,
        )
    }

    pub open spec fn commands_filtered(self, commands: Seq<Command>) -> AppV {
        let p = self.panels.palette;
        self.with_palette(
            PaletteV { filtered: commands, selected: clamped_row(p.selected, commands.len()), ..p },
        )
    }

    pub open spec fn palette_moved(self, delta: int) -> AppV {
        let p = self.panels.palette;
        self.with_palette(
            PaletteV { selected: row_moved(p.selected, delta, p.filtered.len()), ..p },
        )
    }

    pub open spec fn palette_closed(self) -> AppV {
        self.with_palette(PaletteV { open: false, ..self.panels.palette })
    }

    /// The palette closed and the selected command run.
    pub open spec fn command_run(self) -> AppV {
        let p = self.panels.palette;
        if p.selected < p.filtered.len() {
            self.palette_closed().with_effect(Effect::Run(p.filtered[p.selected as int].event))
        } else {
            self
        }
    }
}

impl EditorApp {
    /// Open the command palette with an optional query.
    pub fn open_command_palette(&mut self, query: Option<String>)
        requires
            old(self)@.wf(),
        ensures
            final(self)@ == old(self)@.palette_opened(crate::buffer::opt_text(query)),
            final(self)@.wf(),
    {
        let palette = &mut self.panels_mut().command_palette;
        palette.open = true;
        match query {
            Some(q) => {
                palette.query = q;
            },
            None => {},
        }
        self.push_effect(Effect::FilterCommands);
    }

    pub fn set_palette_query(&mut self, query: String)
        requires
            old(self)@.wf(),
        ensures
            final(self)@ == old(self)@.palette_query(query@),
            final(self)@.wf(),
    {
        self.panels_mut().command_palette.query = query;
        self.push_effect(Effect::FilterCommands);
    }

    /// Take over the commands that match the query.
    pub fn refresh_command_palette(&mut self, commands: Vec<Command>)
        requires
            old(self)@.wf(),
        ensures
            final(self)@ == old(self)@.commands_filtered(commands@),
            final(self)@.wf(),
    {
        let palette = &mut self.panels_mut().command_palette;
        palette.selected = clamp_row(palette.selected, commands.len());
        palette.filtered = commands;
    }

    /// Select the command `delta` rows away, around the ends.
    pub fn move_command_palette_selection(&mut self, delta: isize)
        requires
            old(self)@.wf(),
        ensures
            final(self)@ == old(self)@.palette_moved(delta as int),
            final(self)@.wf(),
    {
        let palette = &mut self.panels_mut().command_palette;
        palette.selected = move_row(palette.selected, delta, palette.filtered.len());
    }

    pub fn close_palette(&mut self)
        requires
            old(self)@.wf(),
        ensures
            final(self)@ == old(self)@.palette_closed(),
            final(self)@.wf(),
    {
        self.panels_mut().command_palette.open = false;
    }

    fn chosen_command(&self) -> (r: Option<EditorEvent>)
        ensures
            r is Some <==> self@.panels.palette.selected < self@.panels.palette.filtered.len(),
            r matches Some(e) ==> e
                == self@.panels.palette.filtered[self@.panels.palette.selected as int].event,
    {
        let palette = &self.panels().command_palette;
        if palette.selected < palette.filtered.len() {
            Some(palette.filtered[palette.selected].event.copy())
        } else {
            None
        }
    }

    /// Close the palette and run the selected command.
    pub fn execute_selected_command(&mut self)
        requires
            old(self)@.wf(),
        ensures
            final(self)@ == old(self)@.command_run(),
            final(self)@.wf(),
    {
        match self.chosen_command() {
            None => {},
            Some(event) => {
                self.close_palette();
                self.push_effect(Effect::Run(event));
            },
        }
    }
}

// ----- symbol picker -----

/// A line counted from 1 instead of 0.
pub open spec fn line_number(line: u32) -> usize {
    if line >= usize::MAX { usize::MAX } else { (line + 1) as usize }
}

/// The numbers of `n` rows.
pub open spec fn all_rows(n: nat) -> Seq<usize> {
    Seq::new(n, |i: int| i as usize)
}

fn rows_upto(n: usize) -> (r: Vec<usize>)
    ensures
        r@ == all_rows(n as nat),
{
    let mut out: Vec<usize> = Vec::new();
    let mut i: usize = 0;
    while i < n
        invariant
            i <= n,
            out@ == all_rows(i as nat),
        decreases n - i,
    {
        out.push(i);
        i += 1;
        assert(out@ =~= all_rows(i as nat));
    }
    out
}

impl AppV {
    pub open spec fn with_symbols(self, symbols: SymbolsV) -> AppV {
        AppV { panels: PanelsV { symbols, ..self.panels }, ..self }
    }

    pub open spec fn symbols_asked(self) -> AppV {
        if self.doc().info.uri is Some {
            self.with_symbols(
                SymbolsV { open: true, query: seq![], items: seq![], filtered: seq![], selected: 0 },
            ).with_effect(Effect::LspSymbols)
        } else {
            self
        }
    }

    /// The symbols of the document offered, all of them.
    pub open spec fn symbols_arrived(self, items: Seq<Symbol>) -> AppV {
        if self.panels.symbols.open {
            self.with_symbols(
                SymbolsV { items, filtered: all_rows(items.len()), ..self.panels.symbols },
            )
        } else {
            self
        }
    }

    pub open spec fn symbol_row(self, row: usize) -> AppV {
        self.with_symbols(SymbolsV { selected: row, ..self.panels.symbols })
    }

    pub open spec fn symbols_closed(self) -> AppV {
        self.with_symbols(SymbolsV { open: false, ..self.panels.symbols })
    }

    /// The line of the selected symbol, counted from 1.
    pub open spec fn symbol_line(self) -> Option<int> {
        let p = self.panels.symbols;
        if p.selected < p.filtered.len() && p.filtered[p.selected as int] < p.items.len() {
            Some(line_number(p.items[p.filtered[p.selected as int] as int].line) as int)
        } else {
            None
        }
    }

    /// The caret at the selected symbol and the picker closed.
    pub open spec fn symbol_chosen(self) -> AppV {
        match self.symbol_line() {
            Some(line) => self.went_to_line(line).symbols_closed(),
            None => self,
        }
    }
}

impl EditorApp {
    /// Open the symbol picker; the symbols are asked for.
    pub fn open_symbol_picker(&mut self)
        requires
            old(self)@.wf(),
        ensures
            final(self)@ == old(self)@.symbols_asked(),
            final(self)@.wf(),
    {
        if self.active_doc().info.uri.is_some() {
            let picker = &mut self.panels_mut().symbol_picker;
            picker.open = true;
            picker.query = String::new();
            picker.selected = 0;
            picker.items = Vec::new();
            picker.filtered = Vec::new();
            assert(picker@.query =~= seq![]);
            assert(picker@.items =~= seq![]);
            assert(picker@.filtered =~= seq![]);
            self.push_effect(Effect::LspSymbols);
        }
    }

    /// Take over the symbols of the active document, if the picker is open.
    pub fn symbols_listed(&mut self, items: Vec<Symbol>)
        requires
            old(self)@.wf(),
        ensures
            final(self)@ == old(self)@.symbols_arrived(items@),
            final(self)@.wf(),
    {
        if self.panels().symbol_picker.open {
            let rows: Vec<usize> = rows_upto(items.len());
            let picker = &mut self.panels_mut().symbol_picker;
            picker.items = items;
            picker.filtered = rows;
        }
    }

    pub fn close_symbols(&mut self)
        requires
            old(self)@.wf(),
        ensures
            final(self)@ == old(self)@.symbols_closed(),
            final(self)@.wf(),
    {
        self.panels_mut().symbol_picker.open = false;
    }

    pub fn select_symbol(&mut self, row: usize)
        requires
            old(self)@.wf(),
        ensures
            final(self)@ == old(self)@.symbol_row(row),
            final(self)@.wf(),
    {
        self.panels_mut().symbol_picker.selected = row;
    }

    fn chosen_line(&self) -> (r: Option<usize>)
        ensures
            r is Some <==> self@.symbol_line() is Some,
            r matches Some(line) ==> self@.symbol_line() == Some(line as int),
    {
        let picker = &self.panels().symbol_picker;
        if picker.selected < picker.filtered.len() {
            let i: usize = picker.filtered[picker.selected];
            if i < picker.items.len() {
                return Some((picker.items[i].line as usize).saturating_add(1));
            }
        }
        None
    }

    /// Go to the selected symbol and close the picker.
    pub fn choose_symbol(&mut self)
        requires
            old(self)@.wf(),
        ensures
            final(self)@ == old(self)@.symbol_chosen(),
            final(self)@.wf(),
    {
        match self.chosen_line() {
            Some(line) => {
                self.go_to_line(line);
                self.close_symbols();
            },
            None => {},
        }
    }
}

} // verus!

//! What the panels do, seen from outside.

use vstd::prelude::*;

use crate::app::{topic_of, Topic};
use crate::effect::{Effect, EffectV};
use crate::event::{works_on_table, EditorEvent};
use crate::filter::{lowercase_of, rows_with};
use crate::panels::{
    with_recent, CandidateV, Command, FuzzyV, PaletteV, ProjectSearchResult, ProjectSearchV,
    ReplacePreview, TreeV,
};
use crate::state::{AppV, PanelsV};

verus! {

proof fn lemma_panel_event(s: AppV, event: EditorEvent)
    requires
        topic_of(event) == Topic::Panels,
        works_on_table(event),
    ensures
        s.after(event) == s.panel_event(event),
{
    reveal(AppV::after);
}

/// Only the finder has changed, and these requests were added.
pub open spec fn finder_is(s: AppV, fuzzy: FuzzyV, asked: Seq<EffectV>) -> AppV {
    AppV { panels: PanelsV { fuzzy, ..s.panels }, effects: s.effects + asked, ..s }
}

pub open spec fn palette_is(s: AppV, palette: PaletteV, asked: Seq<EffectV>) -> AppV {
    AppV { panels: PanelsV { palette, ..s.panels }, effects: s.effects + asked, ..s }
}

pub open spec fn search_is(s: AppV, project_search: ProjectSearchV, asked: Seq<EffectV>) -> AppV {
    AppV { panels: PanelsV { project_search, ..s.panels }, effects: s.effects + asked, ..s }
}

pub open spec fn ask(effect: Effect) -> Seq<EffectV> {
    seq![EffectV::Plain(effect)]
}

pub open spec fn nothing() -> Seq<EffectV> {
    seq![]
}

/// `to` is `delta` rows from `from` in a list of `len` rows, around its ends.
pub open spec fn rows_on(from: int, delta: int, len: nat, to: int) -> bool {
    &&& 0 <= to < len
    &&& exists|turns: int| #[trigger] from_turns(from, delta, len, turns) == to
}

pub open spec fn from_turns(from: int, delta: int, len: nat, turns: int) -> int {
    from + delta + turns * len
}

proof fn lemma_rows_on(from: usize, delta: int, len: nat)
    requires
        0 < len <= usize::MAX,
    ensures
        rows_on(from as int, delta, len, crate::pickers::row_moved(from, delta, len) as int),
{
    let x = from + delta;
    let n = len as int;
    let q = x / n;
    assert(x == q * n + x % n && 0 <= x % n < n) by (nonlinear_arith)
        requires
            n > 0,
            q == x / n,
    ;
    assert((-q) * n == -(q * n)) by (nonlinear_arith);
    assert(from_turns(from as int, delta, len, -q) == x % n);
}

// ----- the file finder -----

/// Law: the finder opens with a query and no files and has them listed, takes a
/// new query and has the files ranked, and closes.
pub proof fn law_finder_opens_and_closes(s: AppV, query: String)
    ensures
        ({
            let f = s.panels.fuzzy;
            &&& s.after(EditorEvent::FuzzyFinder(Some(query))) == finder_is(
                s,
                FuzzyV { open: true, query: query@, items: seq![], ..f },
                ask(Effect::ListProjectFiles),
            )
            &&& s.after(EditorEvent::FuzzyFinder(None)) == finder_is(
                s,
                FuzzyV { open: true, query: seq![], items: seq![], ..f },
                ask(Effect::ListProjectFiles),
            )
            &&& s.after(EditorEvent::FuzzyFinderQueryChanged(query)) == finder_is(
                s,
                FuzzyV { query: query@, ..f },
                ask(Effect::RankFiles),
            )
            &&& s.after(EditorEvent::FuzzyFinderClose) == finder_is(
                s,
                FuzzyV { open: false, ..f },
                nothing(),
            )
        }),
{
    lemma_panel_event(s, EditorEvent::FuzzyFinder(Some(query)));
    lemma_panel_event(s, EditorEvent::FuzzyFinder(None));
    lemma_panel_event(s, EditorEvent::FuzzyFinderQueryChanged(query));
    lemma_panel_event(s, EditorEvent::FuzzyFinderClose);
    reveal(AppV::panel_event);
    assert(s.effects + ask(Effect::ListProjectFiles) =~= s.effects.push(
        EffectV::Plain(Effect::ListProjectFiles),
    ));
    assert(s.effects + ask(Effect::RankFiles) =~= s.effects.push(
        EffectV::Plain(Effect::RankFiles),
    ));
    assert(s.effects + nothing() =~= s.effects);
}

/// Law: the selection of each list goes around its ends, and nothing else
/// changes.
pub proof fn law_rows_go_around(s: AppV, delta: isize)
    requires
        s.panels.fuzzy.filtered.len() <= usize::MAX,
        s.panels.palette.filtered.len() <= usize::MAX,
        s.panels.project_search.results.len() <= usize::MAX,
        s.panels.tree.rows.len() <= usize::MAX,
    ensures
        ({
            let p = s.panels;
            let finder = s.after(EditorEvent::FuzzyFinderMove { delta });
            let palette = s.after(EditorEvent::CommandPaletteMove { delta });
            let search = s.after(EditorEvent::ProjectSearchMove { delta });
            let tree = s.after(EditorEvent::ProjectTreeMove { delta });
            let to_finder = finder.panels.fuzzy.selected;
            let to_palette = palette.panels.palette.selected;
            let to_search = search.panels.project_search.selected;
            let to_tree = tree.panels.tree.selected;
            &&& finder == finder_is(s, FuzzyV { selected: to_finder, ..p.fuzzy }, nothing())
            &&& palette == palette_is(s, PaletteV { selected: to_palette, ..p.palette }, nothing())
            &&& search == search_is(
                s,
                ProjectSearchV { selected: to_search, ..p.project_search },
                nothing(),
            )
            &&& tree == (AppV {
                panels: PanelsV { tree: TreeV { selected: to_tree, ..p.tree }, ..p },
                ..s
            })
            &&& p.fuzzy.filtered.len() > 0 ==> rows_on(
                p.fuzzy.selected as int,
                delta as int,
                p.fuzzy.filtered.len(),
                to_finder as int,
            )
            &&& p.palette.filtered.len() > 0 ==> rows_on(
                p.palette.selected as int,
                delta as int,
                p.palette.filtered.len(),
                to_palette as int,
            )
            &&& p.project_search.results.len() > 0 ==> rows_on(
                p.project_search.selected as int,
                delta as int,
                p.project_search.results.len(),
                to_search as int,
            )
            &&& p.tree.rows.len() > 0 ==> rows_on(
                p.tree.selected as int,
                delta as int,
                p.tree.rows.len(),
                to_tree as int,
            )
        }),
{
    lemma_panel_event(s, EditorEvent::FuzzyFinderMove { delta });
    lemma_panel_event(s, EditorEvent::CommandPaletteMove { delta });
    lemma_panel_event(s, EditorEvent::ProjectSearchMove { delta });
    lemma_panel_event(s, EditorEvent::ProjectTreeMove { delta });
    reveal(AppV::panel_event);
    let p = s.panels;
    assert(s.effects + nothing() =~= s.effects);
    if p.fuzzy.filtered.len() > 0 {
        lemma_rows_on(p.fuzzy.selected, delta as int, p.fuzzy.filtered.len());
    }
    if p.palette.filtered.len() > 0 {
        lemma_rows_on(p.palette.selected, delta as int, p.palette.filtered.len());
    }
    if p.project_search.results.len() > 0 {
        lemma_rows_on(p.project_search.selected, delta as int, p.project_search.results.len());
    }
    if p.tree.rows.len() > 0 {
        lemma_rows_on(p.tree.selected, delta as int, p.tree.rows.len());
    }
}

/// Law: choosing in the finder closes it and goes to the file of the selected
/// row; without one nothing changes.
pub proof fn law_chosen_file_is_gone_to(s: AppV)
    ensures
        ({
            let f = s.panels.fuzzy;
            let after = s.after(EditorEvent::FuzzyFinderExecute);
            let row = f.selected as int;
            if row < f.filtered.len() && f.filtered[row] < f.items.len() {
                after == finder_is(s, FuzzyV { open: false, ..f }, nothing()).switched_to(
                    f.items[f.filtered[row] as int].path,
                )
            } else {
                after == s
            }
        }),
{
    lemma_panel_event(s, EditorEvent::FuzzyFinderExecute);
    assert(s.after(EditorEvent::FuzzyFinderExecute) == s.file_chosen()) by {
        reveal(AppV::panel_event);
    }
    reveal(AppV::file_chosen);
    assert(s.effects + nothing() =~= s.effects);
    assert(s.finder_closed() == finder_is(
        s,
        FuzzyV { open: false, ..s.panels.fuzzy },
        nothing(),
    ));
}

/// Law: the finder offers the files of the project, in their order, and behind
/// them each recent file that is not among them, once.
pub proof fn law_finder_offers_recent_files(
    items: Seq<CandidateV>,
    recent: Seq<Seq<char>>,
    n: int,
)
    requires
        0 <= n <= recent.len(),
    ensures
        ({
            let all = with_recent(items, recent, n);
            &&& items.len() <= all.len()
            &&& all.take(items.len() as int) == items
            &&& forall|k: int|
                0 <= k < n ==> exists|i: int|
                    0 <= i < all.len() && (#[trigger] all[i]).path == #[trigger] recent[k]
            &&& forall|i: int|
                items.len() <= i < all.len() ==> recent.contains((#[trigger] all[i]).path)
                    && all[i].display == all[i].path
            &&& forall|i: int, j: int|
                0 <= i < j < all.len() && items.len() <= j ==> (#[trigger] all[i]).path != (
                #[trigger] all[j]).path
        }),
    decreases n,
{
    if n > 0 {
        law_finder_offers_recent_files(items, recent, n - 1);
        let before = with_recent(items, recent, n - 1);
        let all = with_recent(items, recent, n);
        let path = recent[n - 1];
        if crate::panels::has_path(before, path) {
            let i = choose|i: int| 0 <= i < before.len() && (#[trigger] before[i]).path == path;
            assert(all[i].path == recent[n - 1]);
        } else {
            assert(all.take(items.len() as int) =~= before.take(items.len() as int));
            assert(all[before.len() as int].path == path);
            assert(recent.contains(path));
            assert forall|k: int| 0 <= k < n implies exists|i: int|
                0 <= i < all.len() && (#[trigger] all[i]).path == #[trigger] recent[k] by {
                if k < n - 1 {
                    let i = choose|i: int|
                        0 <= i < before.len() && (#[trigger] before[i]).path == recent[k];
                    assert(all[i].path == recent[k]);
                }
            }
            assert forall|i: int, j: int|
                0 <= i < j < all.len() && items.len() <= j implies (#[trigger] all[i]).path != (
            #[trigger] all[j]).path by {
                if j < before.len() {
                    assert(before[i].path != before[j].path);
                } else {
                    assert(before[i].path != path);
                }
            }
        }
    } else {
        assert(items.take(items.len() as int) =~= items);
    }
}

// ----- the command palette -----

/// Law: the palette opens, takes a query and has the commands filtered, closes,
/// and runs the selected command.
pub proof fn law_palette_runs_commands(s: AppV, query: String)
    ensures
        ({
            let p = s.panels.palette;
            let run = s.after(EditorEvent::CommandPaletteExecute);
            &&& s.after(EditorEvent::CommandPalette(Some(query))) == palette_is(
                s,
                PaletteV { open: true, query: query@, ..p },
                ask(Effect::FilterCommands),
            )
            &&& s.after(EditorEvent::CommandPalette(None)) == palette_is(
                s,
                PaletteV { open: true, ..p },
                ask(Effect::FilterCommands),
            )
            &&& s.after(EditorEvent::CommandPaletteQueryChanged(query)) == palette_is(
                s,
                PaletteV { query: query@, ..p },
                ask(Effect::FilterCommands),
            )
            &&& s.after(EditorEvent::CommandPaletteClose) == palette_is(
                s,
                PaletteV { open: false, ..p },
                nothing(),
            )
            &&& p.selected < p.filtered.len() ==> run == palette_is(
                s,
                PaletteV { open: false, ..p },
                ask(Effect::Run(p.filtered[p.selected as int].event)),
            )
            &&& p.selected >= p.filtered.len() ==> run == s
        }),
{
    lemma_panel_event(s, EditorEvent::CommandPalette(Some(query)));
    lemma_panel_event(s, EditorEvent::CommandPalette(None));
    lemma_panel_event(s, EditorEvent::CommandPaletteQueryChanged(query));
    lemma_panel_event(s, EditorEvent::CommandPaletteClose);
    lemma_panel_event(s, EditorEvent::CommandPaletteExecute);
    reveal(AppV::panel_event);
    let p = s.panels.palette;
    assert(s.effects + ask(Effect::FilterCommands) =~= s.effects.push(
        EffectV::Plain(Effect::FilterCommands),
    ));
    assert(s.effects + nothing() =~= s.effects);
    if p.selected < p.filtered.len() {
        let e = Effect::Run(p.filtered[p.selected as int].event);
        assert(s.effects + ask(e) =~= s.effects.push(EffectV::Plain(e)));
    }
}

// ----- the project search -----

/// The search again, with its results asked for where there is a project, and
/// without any otherwise.
pub open spec fn searched_again(s: AppV, p: ProjectSearchV) -> AppV {
    if s.doc().info.project_root is Some {
        search_is(
            s,
            ProjectSearchV { confirm_replace: false, ..p },
            ask(Effect::RunProjectSearch),
        )
    } else {
        search_is(
            s,
            ProjectSearchV {
                confirm_replace: false,
                results: seq![],
                replace_previews: seq![],
                selected: 0,
                ..p
            },
            nothing(),
        )
    }
}

/// Law: the project search opens and takes its queries, each time searching
/// again, and closes.
pub proof fn law_project_is_searched(s: AppV, query: String)
    ensures
        ({
            let p = s.panels.project_search;
            &&& s.after(EditorEvent::ProjectSearch(Some(query))) == searched_again(
                s,
                ProjectSearchV { open: true, query: query@, ..p },
            )
            &&& s.after(EditorEvent::ProjectSearch(None)) == searched_again(
                s,
                ProjectSearchV { open: true, ..p },
            )
            &&& s.after(EditorEvent::ProjectSearchQueryChanged(query)) == searched_again(
                s,
                ProjectSearchV { query: query@, ..p },
            )
            &&& s.after(EditorEvent::ProjectSearchReplaceQueryChanged(query)) == searched_again(
                s,
                ProjectSearchV { replace_query: query@, ..p },
            )
            &&& s.after(EditorEvent::ProjectSearchClose) == search_is(
                s,
                ProjectSearchV { open: false, ..p },
                nothing(),
            )
        }),
{
    lemma_panel_event(s, EditorEvent::ProjectSearch(Some(query)));
    lemma_panel_event(s, EditorEvent::ProjectSearch(None));
    lemma_panel_event(s, EditorEvent::ProjectSearchQueryChanged(query));
    lemma_panel_event(s, EditorEvent::ProjectSearchReplaceQueryChanged(query));
    lemma_panel_event(s, EditorEvent::ProjectSearchClose);
    reveal(AppV::panel_event);
    assert(s.effects + ask(Effect::RunProjectSearch) =~= s.effects.push(
        EffectV::Plain(Effect::RunProjectSearch),
    ));
    assert(s.effects + nothing() =~= s.effects);
}

/// Law: the selected result is opened at its place; replacing in the project is
/// asked for only with a query, a replacement and something to replace, and done
/// only once it is confirmed.
pub proof fn law_project_results_are_used(s: AppV)
    ensures
        ({
            let p = s.panels.project_search;
            let opened = s.after(EditorEvent::ProjectSearchOpenResult);
            let asked = s.after(EditorEvent::ProjectSearchReplaceAll);
            let yes = s.after(EditorEvent::ProjectSearchReplaceAllConfirm);
            let no = s.after(EditorEvent::ProjectSearchReplaceAllCancel);
            let root = s.doc().info.project_root is Some;
            let r = p.results[p.selected as int];
            &&& p.selected < p.results.len() && root ==> opened == search_is(
                s,
                p,
                ask(Effect::OpenSearchResult { rel_path: r.rel_path, line: r.line, col: r.col }),
            )
            &&& !(p.selected < p.results.len() && root) ==> opened == s
            &&& p.query.len() > 0 && p.replace_query.len() > 0 && p.replace_previews.len() > 0
                ==> asked == search_is(s, ProjectSearchV { confirm_replace: true, ..p }, nothing())
            &&& !(p.query.len() > 0 && p.replace_query.len() > 0 && p.replace_previews.len() > 0)
                ==> asked == (AppV { status: asked.status, ..s }) && asked.status is Some
            &&& no == search_is(s, ProjectSearchV { confirm_replace: false, ..p }, nothing())
            &&& root ==> yes == search_is(
                s,
                ProjectSearchV { confirm_replace: false, ..p },
                ask(Effect::ReplaceInProject),
            )
            &&& !root ==> yes.effects == s.effects && yes.status is Some
        }),
{
    lemma_panel_event(s, EditorEvent::ProjectSearchOpenResult);
    lemma_panel_event(s, EditorEvent::ProjectSearchReplaceAll);
    lemma_panel_event(s, EditorEvent::ProjectSearchReplaceAllConfirm);
    lemma_panel_event(s, EditorEvent::ProjectSearchReplaceAllCancel);
    reveal(AppV::panel_event);
    let p = s.panels.project_search;
    let r = p.results[p.selected as int];
    let e = Effect::OpenSearchResult { rel_path: r.rel_path, line: r.line, col: r.col };
    assert(s.effects + ask(e) =~= s.effects.push(EffectV::Plain(e)));
    assert(s.effects + ask(Effect::ReplaceInProject) =~= s.effects.push(
        EffectV::Plain(Effect::ReplaceInProject),
    ));
    assert(s.effects + nothing() =~= s.effects);
}

/// Law: the project tree opens a file and folds a directory.
pub proof fn law_tree_row_is_opened(s: AppV)
    ensures
        ({
            let t = s.panels.tree;
            let after = s.after(EditorEvent::ProjectTreeOpen);
            let row = t.rows[t.selected as int];
            &&& t.selected >= t.rows.len() ==> after == s
            &&& t.selected < t.rows.len() && row.is_dir ==> after.effects == s.effects.push(
                EffectV::Plain(Effect::ToggleTreeNode(row.rel_path)),
            )
            &&& t.selected < t.rows.len() && !row.is_dir && s.doc().info.project_root is Some
                ==> after.effects == s.effects.push(
                EffectV::Plain(Effect::OpenProjectFile(row.rel_path)),
            )
            &&& after.documents == s.documents && after.panels == s.panels
            &&& s.after(EditorEvent::ToggleProjectTree).ui.project_tree_open
                != s.ui.project_tree_open
        }),
{
    lemma_panel_event(s, EditorEvent::ProjectTreeOpen);
    lemma_panel_event(s, EditorEvent::ToggleProjectTree);
    reveal(AppV::panel_event);
}

/// Law: new results, ranked files and filtered commands are taken over as they
/// are, and the selection stays inside the list.
pub proof fn law_lists_are_taken_over(
    s: AppV,
    results: Seq<ProjectSearchResult>,
    previews: Seq<ReplacePreview>,
    ranked: Seq<usize>,
    commands: Seq<Command>,
)
    ensures
        ({
            let a = s.project_results(results, previews).panels.project_search;
            let b = s.files_ranked(ranked).panels.fuzzy;
            let c = s.commands_filtered(commands).panels.palette;
            let p = s.panels;
            &&& a.results == results && a.replace_previews == previews && a.query
                == p.project_search.query && a.open == p.project_search.open
            &&& results.len() > 0 ==> a.selected < results.len()
            &&& p.project_search.selected < results.len() ==> a.selected
                == p.project_search.selected
            &&& b.filtered == ranked && b.items == p.fuzzy.items && b.query == p.fuzzy.query
            &&& ranked.len() > 0 ==> b.selected < ranked.len()
            &&& p.fuzzy.selected < ranked.len() ==> b.selected == p.fuzzy.selected
            &&& c.filtered == commands && c.query == p.palette.query
            &&& commands.len() > 0 ==> c.selected < commands.len()
            &&& p.palette.selected < commands.len() ==> c.selected == p.palette.selected
            &&& s.project_results(results, previews).documents == s.documents
            &&& s.files_ranked(ranked).documents == s.documents
            &&& s.commands_filtered(commands).documents == s.documents
        }),
{
}

// ----- symbols -----

/// `needle` stands somewhere in `hay`.
pub open spec fn part_of(hay: Seq<char>, needle: Seq<char>) -> bool {
    exists|at: int|
        0 <= at && at + needle.len() <= hay.len() && #[trigger] hay.subrange(
            at,
            at + needle.len(),
        ) == needle
}

proof fn lemma_part_of(hay: Seq<char>, needle: Seq<char>)
    ensures
        crate::filter::occurs_in(hay, needle) == part_of(hay, needle),
{
    if crate::filter::occurs_in(hay, needle) {
        let at = choose|at: int| #[trigger] crate::filter::stands_at(hay, needle, at);
        assert(hay.subrange(at, at + needle.len()) == needle);
    }
    if part_of(hay, needle) {
        let at = choose|at: int|
            0 <= at && at + needle.len() <= hay.len() && #[trigger] hay.subrange(
                at,
                at + needle.len(),
            ) == needle;
        assert(crate::filter::stands_at(hay, needle, at));
    }
}

proof fn lemma_rows_with(names: Seq<Seq<char>>, query: Seq<char>, n: int)
    requires
        0 <= n <= names.len(),
        n <= usize::MAX,
    ensures
        ({
            let rows = rows_with(names, query, n);
            &&& forall|k: int|
                0 <= k < rows.len() ==> (#[trigger] rows[k]) < n && part_of(
                    names[rows[k] as int],
                    query,
                )
            &&& forall|j: int, k: int| 0 <= j < k < rows.len() ==> rows[j] < rows[k]
            &&& forall|i: int|
                0 <= i < n && part_of(#[trigger] names[i], query) ==> rows.contains(i as usize)
        }),
    decreases n,
{
    if n > 0 {
        lemma_rows_with(names, query, n - 1);
        let before = rows_with(names, query, n - 1);
        let rows = rows_with(names, query, n);
        lemma_part_of(names[n - 1], query);
        assert forall|i: int|
            0 <= i < n && part_of(#[trigger] names[i], query) implies rows.contains(
            i as usize,
        ) by {
            if i < n - 1 {
                let k = choose|k: int| 0 <= k < before.len() && before[k] == i as usize;
                assert(rows[k] == i as usize);
            } else {
                assert(rows[rows.len() - 1] == i as usize);
            }
        }
    }
}

/// Law: the symbols that are offered for a query are those whose names hold it,
/// regardless of case, in their order.
pub proof fn law_symbols_are_filtered(s: AppV, query: Seq<char>)
    requires
        s.panels.symbols.items.len() <= usize::MAX,
    ensures
        ({
            let p = s.panels.symbols;
            let after = s.symbol_query(query).panels.symbols;
            let rows = after.filtered;
            &&& after.query == query && after.items == p.items && after.selected == 0
            &&& forall|k: int|
                0 <= k < rows.len() ==> (#[trigger] rows[k]) < p.items.len() && part_of(
                    lowercase_of(p.items[rows[k] as int].name@),
                    lowercase_of(query),
                )
            &&& forall|j: int, k: int| 0 <= j < k < rows.len() ==> rows[j] < rows[k]
            &&& forall|i: int|
                0 <= i < p.items.len() && part_of(
                    lowercase_of((#[trigger] p.items[i]).name@),
                    lowercase_of(query),
                ) ==> rows.contains(i as usize)
        }),
{
    let p = s.panels.symbols;
    let names = crate::filter::lowered_names(p.items);
    lemma_rows_with(names, lowercase_of(query), p.items.len() as int);
    assert forall|i: int|
        0 <= i < p.items.len() && part_of(
            lowercase_of((#[trigger] p.items[i]).name@),
            lowercase_of(query),
        ) implies s.symbol_query(query).panels.symbols.filtered.contains(i as usize) by {
        assert(part_of(names[i], lowercase_of(query)));
    }
}

/// Law: choosing a symbol goes to its line and closes the list.
pub proof fn law_symbol_is_gone_to(s: AppV)
    ensures
        ({
            let p = s.panels.symbols;
            let row = p.selected as int;
            if row < p.filtered.len() && p.filtered[row] < p.items.len() {
                let line = p.items[p.filtered[row] as int].line;
                line < usize::MAX ==> s.symbol_chosen().buf() == s.went_to_line(
                    line as int + 1,
                ).buf() && !s.symbol_chosen().panels.symbols.open
            } else {
                s.symbol_chosen() == s
            }
        }),
{
}

} // verus!

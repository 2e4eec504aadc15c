//! The texts of the window and what its parts do.

use skerry::buffer::TextBuffer;
use skerry::capture::{capture_step, own_window_id, CaptureStep, ScreenWindow};
use skerry::config::Config;
use skerry::document::{DocInfo, Document};
use skerry::event::EditorEvent;
use skerry::filter::{contains_text, filter_rows};
use skerry::help::{help_rows, is_text_less, swap_text};
use skerry::labels::{
    blame_text, close_question, command_text, completion_message, completion_text, find_text,
    finder_hint, fold_mark, format_position, go_to_line_text, header_text, palette_hint,
    preview_text, removed_mark, replace_question, result_text, search_hint, search_rows,
    server_text, symbol_text, symbols_hint, tab_text, tree_message, tree_row_text, tree_title,
    GitSummary,
};
use skerry::modes::{CsvPreviewMode, MarkdownPreviewMode};
use skerry::panels::{
    Command, CompletionItem, ProjectSearchResult, ReplacePreview, Symbol, TreeRow,
};
use skerry::state::EditorApp;

fn info(language: Option<&str>, name: Option<&str>) -> DocInfo {
    DocInfo {
        name: name.map(|n| n.to_owned()),
        language: language.map(|l| l.to_owned()),
        uri: Some("file:///p/a".to_owned()),
        project_root: None,
        rel_path: None,
        temporary: false,
    }
}

fn app_in(language: &str, content: &str) -> EditorApp {
    let doc = Document::with_info(
        TextBuffer::from_bytes(content.as_bytes().to_vec()),
        info(Some(language), None),
    );
    EditorApp::new_with_documents(vec![doc], Config::default())
}

const NO_GIT: GitSummary = GitSummary { added: 0, modified: 0, removed: 0 };

#[test]
fn headers_and_tabs_say_what_changed() {
    let buffer = TextBuffer::from_bytes_with_path(b"x".to_vec(), "/d/a.txt".to_owned());
    let mut doc = Document::with_info(buffer, info(None, Some("a.txt")));
    assert_eq!(header_text(&doc), " /d/a.txt");
    assert_eq!(tab_text(&doc), "a.txt");
    doc.buffer.insert(0, "y").unwrap();
    doc.external_change = true;
    assert_eq!(header_text(&doc), " /d/a.txt [+] [!]");
    assert_eq!(tab_text(&doc), "a.txt*!");
    assert_eq!(close_question(&doc), "'a.txt' has unsaved changes.");
    let blank = Document::new(TextBuffer::new());
    assert_eq!(header_text(&blank), " [No Name]");
}

#[test]
fn the_status_bar_has_message_place_and_git() {
    let mut app = app_in("rust", "one\ntwo");
    app.active_buffer_mut().set_cursor(5);
    app.set_status("Hi.");
    assert_eq!(app.status_text(NO_GIT), " Hi.  |  L2:2 / L2");
    app.active_doc_mut().view.git_gutter_enabled = true;
    app.gutter_refreshed(true, Vec::new());
    let git = GitSummary { added: 1, modified: 2, removed: 3 };
    assert_eq!(app.status_text(git), " Hi.  |  L2:2 / L2  |  +1 ~2 -3");
    assert_eq!(app.status_text(NO_GIT), " Hi.  |  L2:2 / L2");
    assert_eq!(format_position(0, 9, 12), "L1:10 / L12");
    assert_eq!(server_text(true, "rust-analyzer"), "● rust-analyzer");
    assert_eq!(server_text(false, "gopls"), "○ gopls");
}

#[test]
fn the_find_bar_counts() {
    let mut app = app_in("rust", "one one");
    assert_eq!(find_text(&app.search), " 0/0 ");
    app.handle_event(EditorEvent::FindQueryChanged("one".to_owned()));
    assert_eq!(find_text(&app.search), " (no matches)");
    app.set_matches(&vec![(0, 3), (4, 7)], None, true);
    assert_eq!(find_text(&app.search), " 1/2 ");
    app.set_matches(&Vec::new(), Some("unclosed group".to_owned()), true);
    assert_eq!(find_text(&app.search), " invalid regex: unclosed group ");
    assert_eq!(go_to_line_text("12"), "12█");
}

fn row(depth: usize, is_dir: bool, expanded: bool) -> TreeRow {
    TreeRow { depth, name: "x".to_owned(), rel_path: "x".to_owned(), is_dir, expanded }
}

#[test]
fn the_tree_has_a_title_and_rows() {
    assert_eq!(tree_title(Some("demo")), "📁 demo");
    assert_eq!(tree_title(None), "📁 Project");
    assert_eq!(tree_row_text(&row(2, true, true)), "    📂 x");
    assert_eq!(tree_row_text(&row(1, true, false)), "  📁 x");
    assert_eq!(tree_row_text(&row(0, false, false)), "   x");
    assert_eq!(tree_message(false, 3), Some("No project detected."));
    assert_eq!(tree_message(true, 0), Some("No files found."));
    assert_eq!(tree_message(true, 1), None);
}

fn preview(path: &str, count: usize) -> ReplacePreview {
    ReplacePreview {
        rel_path: path.to_owned(),
        line: 4,
        before: "a".to_owned(),
        after: "b".to_owned(),
        occurrence_count: count,
    }
}

#[test]
fn the_project_search_counts_lines_and_files() {
    let mut app = app_in("rust", "");
    let found = ProjectSearchResult {
        rel_path: "src/a.rs".to_owned(),
        line: 7,
        col: 1,
        text: "let a".to_owned(),
    };
    assert_eq!(result_text(&found), "src/a.rs:7:let a");
    app.project_search_finished(
        vec![found],
        vec![preview("a", 2), preview("b", 1), preview("a", 3)],
    );
    let search = &app.panels.project_search;
    assert_eq!(search_rows(search), 1);
    assert_eq!(search_hint(search), "1 results · Enter to open · Up/Down · Esc to close");
    app.handle_event(EditorEvent::ProjectSearchReplaceQueryChanged("b".to_owned()));
    app.project_search_finished(
        Vec::new(),
        vec![preview("a", 2), preview("b", 1), preview("a", 3)],
    );
    let search = &app.panels.project_search;
    assert_eq!(search_rows(search), 3);
    assert_eq!(
        search_hint(search),
        "3 lines · 6 occurrences · Ctrl+Enter to confirm · Esc to close"
    );
    assert_eq!(
        replace_question(&search.replace_previews),
        "Replace 6 occurrences in 2 files?"
    );
    assert_eq!(preview_text(&search.replace_previews[0]), "a:4  a → b");
}

fn command(label: &str, keys: &str) -> Command {
    Command {
        label: label.to_owned(),
        keybinding: keys.to_owned(),
        event: EditorEvent::SelectAll,
    }
}

#[test]
fn lists_have_labels_and_hints() {
    assert_eq!(command_text(&command("Save", "Ctrl+S")), "Save  (Ctrl+S)");
    assert_eq!(command_text(&command("Sort", "")), "Sort");
    assert_eq!(palette_hint(2), "2 commands · Enter to run · Up/Down · Esc to close");
    assert_eq!(finder_hint(10), "10 files · Enter to open · Up/Down · Esc to close");
    assert_eq!(symbols_hint(0), "0 symbols · Enter to jump · Esc to close");
    assert_eq!(symbol_text(&Symbol { name: "main".to_owned(), line: 4 }), "main  L5");
    let item = CompletionItem {
        label: "len".to_owned(),
        detail: Some("fn() -> usize".to_owned()),
        insert_text: None,
    };
    assert_eq!(completion_text(&item), "len — fn() -> usize");
    let mut app = app_in("rust", "");
    assert_eq!(completion_message(&app.lsp.completion), Some("No completions."));
    app.lsp.completion.pending = true;
    assert_eq!(completion_message(&app.lsp.completion), Some("Loading completions..."));
    app.lsp.completion.items = vec![item];
    assert_eq!(completion_message(&app.lsp.completion), None);
}

#[test]
fn marks_beside_the_text() {
    assert_eq!(blame_text("abc1234", "Ada", "2d"), "abc1234 Ada 2d");
    assert_eq!(removed_mark(0), None);
    assert_eq!(removed_mark(1).as_deref(), Some("▼"));
    assert_eq!(removed_mark(12).as_deref(), Some("▼12"));
    assert_eq!(fold_mark(true, true), Some("▼"));
    assert_eq!(fold_mark(false, true), Some("▶"));
    assert_eq!(fold_mark(false, false), None);
}

#[test]
fn the_help_is_sorted_by_action() {
    let commands = vec![command("Save", "Ctrl+S"), command("Sort", ""), command("Back", "Alt+Left")];
    let rows = help_rows(&commands, false);
    assert_eq!(rows.len(), 21);
    for w in rows.windows(2) {
        assert!(w[0].action <= w[1].action);
    }
    assert_eq!(rows[0].action, "Add cursor at click");
    assert_eq!(rows[0].keys, "Alt+Click");
    assert!(rows.iter().any(|r| r.keys == "Alt+Left" && r.action == "Back"));
    let mac = help_rows(&commands, true);
    assert!(mac.iter().any(|r| r.keys == "Opt+Left" && r.action == "Back"));
    assert!(mac.iter().any(|r| r.keys == "Cmd+S" && r.action == "Save"));
    assert!(mac.iter().any(|r| r.keys == "Opt+Click"));
}

#[test]
fn texts_are_swapped_and_compared() {
    assert_eq!(swap_text("Ctrl+Alt+X", "Ctrl+", "Cmd+"), "Cmd+Alt+X");
    assert_eq!(swap_text("aaa", "aa", "b"), "ba");
    assert_eq!(swap_text("abc", "", "x"), "abc");
    assert!(is_text_less("ab", "abc"));
    assert!(is_text_less("Z", "a"));
    assert!(!is_text_less("b", "ab"));
    assert!(!is_text_less("a", "a"));
}

#[test]
fn names_are_filtered() {
    assert!(contains_text("hello", "ell"));
    assert!(contains_text("hello", ""));
    assert!(!contains_text("he", "hello"));
    assert!(!contains_text("hello", "lle"));
    let names = vec!["main".to_owned(), "domain".to_owned(), "other".to_owned()];
    assert_eq!(filter_rows(&names, "main"), vec![0, 1]);
}

#[test]
fn symbols_are_found_whatever_their_case() {
    let mut app = app_in("rust", "a\nb\nc");
    app.handle_event(EditorEvent::GoToSymbol);
    assert!(app.panels.symbol_picker.open);
    app.symbols_listed(vec![
        Symbol { name: "ÄHNLICH".to_owned(), line: 0 },
        Symbol { name: "Parser".to_owned(), line: 2 },
        Symbol { name: "parse".to_owned(), line: 1 },
    ]);
    assert_eq!(app.panels.symbol_picker.filtered, vec![0, 1, 2]);
    app.set_symbol_query("PARSE".to_owned());
    assert_eq!(app.panels.symbol_picker.filtered, vec![1, 2]);
    app.set_symbol_query("ähn".to_owned());
    assert_eq!(app.panels.symbol_picker.filtered, vec![0]);
    app.set_symbol_query("parser".to_owned());
    app.click_symbol(0);
    assert!(!app.panels.symbol_picker.open);
    assert_eq!(app.active_buffer().cursor(), 4);
}

#[test]
fn frames_show_what_is_open() {
    let mut app = app_in("markdown", "# Hi");
    app.ui.minimap_open = true;
    let parts = app.frame_parts();
    assert!(parts.source && parts.minimap && !parts.preview && !parts.table);
    app.set_markdown_preview_mode(MarkdownPreviewMode::Split);
    assert!(app.frame_parts().source && app.frame_parts().preview);
    app.set_markdown_preview_mode(MarkdownPreviewMode::Preview);
    let parts = app.frame_parts();
    assert!(!parts.source && !parts.minimap && parts.preview);
    app.handle_event(EditorEvent::GoToLine(None));
    app.handle_event(EditorEvent::ToggleKeybindingsHelp);
    assert!(app.frame_parts().help);
    let long = app_in("rust", &"\n".repeat(5000));
    assert!(long.frame_parts().minimap_too_large);
    assert!(!app.frame_parts().minimap_too_large);
}

#[test]
fn previews_follow_the_text() {
    let mut app = app_in("markdown", "# One");
    app.refresh_markdown();
    assert!(app.previews.markdown.blocks.is_empty());
    app.set_markdown_preview_mode(MarkdownPreviewMode::Split);
    app.refresh_markdown();
    assert_eq!(app.previews.markdown.blocks[0].spans[0].text, "One");
    app.handle_event(EditorEvent::Insert('x'));
    app.refresh_markdown();
    assert_eq!(app.previews.markdown.blocks[0].spans[0].text, "x# One");
}

#[test]
fn tables_follow_the_text() {
    let mut app = app_in("csv", "a,b\n1,2\n");
    app.refresh_table();
    assert_eq!(app.previews.csv.column_count, 0);
    app.set_csv_preview_mode(CsvPreviewMode::Table);
    app.refresh_table();
    assert_eq!(app.previews.csv.column_count, 2);
    assert_eq!(app.previews.csv.cell(1, 1), "2");
}

#[test]
fn the_caret_is_drawn_at_once_or_on_its_way() {
    let mut app = app_in("rust", "a\nb");
    assert!(app.draw_caret(false));
    app.config.caret_animation = true;
    assert!(!app.draw_caret(false));
    assert!(app.draw_caret(true));
    app.snap_caret_animation();
    assert!(app.draw_caret(false));
    assert!(!app.draw_caret(false));
    app.set_viewport_lines(0);
    app.set_viewport_lines(33);
    assert_eq!(app.ui.viewport_lines, 33);
}

#[test]
fn renaming_is_submitted_or_dropped() {
    let mut app = app_in("rust", "foo");
    app.open_rename_dialog(true);
    assert!(app.dialogs.rename.is_some());
    app.set_rename_text("".to_owned());
    app.submit_rename();
    assert!(app.dialogs.rename.is_none());
    app.open_rename_dialog(true);
    app.set_rename_text("bar".to_owned());
    app.take_effects();
    app.submit_rename();
    assert!(app.dialogs.rename.is_none());
    assert!(!app.take_effects().is_empty());
    app.open_rename_dialog(true);
    app.cancel_rename();
    assert!(app.dialogs.rename.is_none());
}

#[test]
fn themes_are_picked_by_name() {
    let mut app = app_in("rust", "");
    app.pick_syntax_theme("Aubergine");
    assert_eq!(app.look.syntax.theme_name(), "Aubergine");
    assert_eq!(app.status_message.as_deref(), Some("Syntax theme: Aubergine"));
    app.pick_syntax_theme("Nope");
    assert_eq!(app.look.syntax.theme_name(), "Aubergine");
    app.pick_ui_theme("Light");
    assert_eq!(app.look.theme.name, "Light");
    assert_eq!(app.status_message.as_deref(), Some("UI theme: Light"));
}

#[test]
fn pictures_are_taken_once_the_window_is_there() {
    assert_eq!(capture_step(29), CaptureStep::Wait);
    assert_eq!(capture_step(30), CaptureStep::Try { report: false });
    assert_eq!(capture_step(60), CaptureStep::Try { report: true });
    assert_eq!(capture_step(630), CaptureStep::Try { report: false });
    assert_eq!(capture_step(631), CaptureStep::GiveUp);
    let w = |id, owner, width, height| ScreenWindow { id, owner, width, height };
    let windows = vec![w(1, 7, 300, 900), w(2, 8, 900, 900), w(3, 7, 500, 400), w(4, 7, 500, 400), w(5, 7, 800, 600)];
    assert_eq!(own_window_id(&windows, 7), Some(5));
    assert_eq!(own_window_id(&windows[..4].to_vec(), 7), Some(3));
    assert_eq!(own_window_id(&windows, 9), None);
}

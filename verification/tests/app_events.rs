//! What the editor does on its events.

use std::collections::HashMap;

use skerry::buffer::{Selection, TextBuffer};
use skerry::config::{Config, Snippet};
use skerry::document::{DocInfo, Document};
use skerry::edits::{LspEdit, LspRange, Position};
use skerry::effect::{Effect, SaveKind};
use skerry::event::{ClipboardAction, EditorEvent, KeybindingMode};
use skerry::files::FileContent;
use skerry::input::{find_bar_translate, GuiKey, Input, InputKind, InputOutcome, KeyPress};
use skerry::modes::{CsvPreviewMode, MarkdownPreviewMode};
use skerry::motion::Movement;
use skerry::panels::{
    CloseChoice, Command, FuzzyCandidate, GoToLineDialog, ProjectSearchResult, RenameDialog,
    ReplacePreview, TreeRow,
};
use skerry::state::EditorApp;

// ----- helpers -----

fn buffer(content: &str) -> TextBuffer {
    TextBuffer::from_bytes(content.as_bytes().to_vec())
}

fn app_with(content: &str) -> EditorApp {
    EditorApp::new(buffer(content))
}

fn info() -> DocInfo {
    DocInfo {
        name: None,
        language: None,
        uri: None,
        project_root: None,
        rel_path: None,
        temporary: false,
    }
}

fn app_in(language: &str, content: &str) -> EditorApp {
    let doc = Document::with_info(
        buffer(content),
        DocInfo { language: Some(language.to_owned()), ..info() },
    );
    EditorApp::new_with_documents(vec![doc], Config::default())
}

fn markdown_app(content: &str) -> EditorApp {
    app_in("markdown", content)
}

fn csv_app(content: &str) -> EditorApp {
    app_in("csv", content)
}

fn app_with_docs(contents: &[&str]) -> EditorApp {
    let docs: Vec<Document> = contents.iter().map(|c| Document::new(buffer(c))).collect();
    EditorApp::new_with_documents(docs, Config::default())
}

fn doc_at(path: &str, content: &str) -> Document {
    let name = path.rsplit('/').next().unwrap().to_owned();
    Document::with_info(
        TextBuffer::from_bytes_with_path(content.as_bytes().to_vec(), path.to_owned()),
        DocInfo { name: Some(name), project_root: Some("/p".to_owned()), ..info() },
    )
}

fn app_with_path(content: &str, path: &str) -> EditorApp {
    EditorApp::new_with_documents(vec![doc_at(path, content)], Config::default())
}

fn text_of(app: &EditorApp) -> String {
    String::from_utf8(app.active_buffer().to_bytes()).unwrap()
}

fn status(app: &EditorApp) -> &str {
    app.status_message.as_deref().unwrap_or("")
}

fn place(app: &EditorApp) -> (usize, usize) {
    app.active_buffer().pos_to_linecol(app.active_buffer().cursor()).unwrap()
}

/// Files on a disk that exists only here.
struct Disk(HashMap<String, Vec<u8>>);

fn disk(files: &[(&str, &str)]) -> Disk {
    Disk(files.iter().map(|(p, c)| (p.to_string(), c.as_bytes().to_vec())).collect())
}

fn file_info(path: &str) -> DocInfo {
    DocInfo { name: path.rsplit('/').next().map(|n| n.to_owned()), ..info() }
}

fn content_of(disk: &Disk, path: &str) -> FileContent {
    match disk.0.get(path) {
        Some(bytes) => FileContent::Bytes(bytes.clone()),
        None => FileContent::Missing,
    }
}

fn save(app: &mut EditorApp, disk: &mut Disk, kind: SaveKind) {
    let path = app.active_doc().path().unwrap().clone();
    let bytes = app.active_buffer().to_bytes();
    disk.0.insert(path, bytes);
    app.finish_save(kind, None);
}

/// Carry out what the editor has asked of the disk and the search.
fn settle(app: &mut EditorApp, disk: &mut Disk) {
    for _ in 0..20 {
        let effects = app.take_effects();
        if effects.is_empty() {
            return;
        }
        for effect in effects {
            match effect {
                Effect::Save(kind) => save(app, disk, kind),
                Effect::LoadFile(path) => {
                    let content = content_of(disk, &path);
                    let info = file_info(&path);
                    app.file_loaded(path, info, content);
                }
                Effect::ReloadFile(path) => {
                    let content = content_of(disk, &path);
                    let info = file_info(&path);
                    app.file_reloaded(path, info, content);
                }
                Effect::ReloadActive => {
                    let path = app.active_doc().path().unwrap().clone();
                    let content = content_of(disk, &path);
                    let info = file_info(&path);
                    app.file_reloaded(path, info, content);
                }
                Effect::FindMatches { follow } => {
                    let text = text_of(app);
                    let query = app.search.query.clone();
                    let found: Vec<(usize, usize)> = if query.is_empty() {
                        Vec::new()
                    } else {
                        text.match_indices(&query).map(|(i, m)| (i, i + m.len())).collect()
                    };
                    app.set_matches(&found, None, follow);
                }
                Effect::Run(event) => app.handle_event(event),
                _ => {}
            }
        }
    }
    panic!("the editor keeps asking");
}

fn run(app: &mut EditorApp) {
    settle(app, &mut disk(&[]));
}

fn key(key: GuiKey) -> KeyPress {
    KeyPress { key, pressed: true, command: false, ctrl: false, shift: false, alt: false }
}

fn primary(key_: GuiKey) -> KeyPress {
    KeyPress { command: true, ctrl: true, ..key(key_) }
}

fn input(kind: InputKind, translated: Option<EditorEvent>) -> Input {
    Input {
        kind,
        translated,
        fuzzy: None,
        palette: None,
        project_search: None,
        clipboard: false,
    }
}

/// Hand an input to the editor with the standard keyboard preset, which leaves
/// every key to the editor.
fn dispatch(app: &mut EditorApp, input: Input) {
    match app.handle_input(input) {
        InputOutcome::Keymap(Some(event)) => app.handle_event(event),
        _ => {}
    }
}

fn dispatch_key(app: &mut EditorApp, press: KeyPress, translated: Option<EditorEvent>) {
    dispatch(app, input(InputKind::Key(press), translated));
}

// ----- Markdown and CSV views -----

#[test]
fn markdown_preview_cycles_through_all_views() {
    let mut app = markdown_app("# Hello");
    assert_eq!(app.ui.markdown_preview_mode, MarkdownPreviewMode::Source);

    app.handle_event(EditorEvent::CycleMarkdownPreview);
    assert_eq!(app.ui.markdown_preview_mode, MarkdownPreviewMode::Split);
    app.handle_event(EditorEvent::CycleMarkdownPreview);
    assert_eq!(app.ui.markdown_preview_mode, MarkdownPreviewMode::Preview);
    app.handle_event(EditorEvent::CycleMarkdownPreview);
    assert_eq!(app.ui.markdown_preview_mode, MarkdownPreviewMode::Source);
}

#[test]
fn markdown_preview_rejects_non_markdown_documents() {
    let mut app = app_with("plain text");
    app.handle_event(EditorEvent::CycleMarkdownPreview);
    assert_eq!(app.ui.markdown_preview_mode, MarkdownPreviewMode::Source);
    assert_eq!(
        app.status_message.as_deref(),
        Some("Markdown preview requires a .md or .markdown file.")
    );
}

#[test]
fn rendered_preview_is_read_only_but_split_view_is_editable() {
    let mut app = markdown_app("before");
    app.set_markdown_preview_mode(MarkdownPreviewMode::Preview);
    app.handle_event(EditorEvent::Insert('!'));
    assert_eq!(app.active_doc().text().as_deref(), Some("before"));
    assert_eq!(
        app.status_message.as_deref(),
        Some("Markdown preview is read-only; switch to Source or Split to edit.")
    );

    app.set_markdown_preview_mode(MarkdownPreviewMode::Split);
    app.handle_event(EditorEvent::Insert('!'));
    assert_eq!(app.active_doc().text().as_deref(), Some("!before"));
}

fn open_overlays(app: &mut EditorApp) {
    app.search.bar_open = true;
    app.search.replace_bar_open = true;
    app.lsp.completion.open = true;
    app.lsp.hover.open = true;
    app.panels.symbol_picker.open = true;
    app.dialogs.rename = Some(RenameDialog { new_name: "after".to_owned() });
    app.dialogs.go_to_line = Some(GoToLineDialog { query: "1".to_owned() });
}

fn assert_overlays_closed(app: &EditorApp) {
    assert!(!app.search.bar_open);
    assert!(!app.search.replace_bar_open);
    assert!(!app.lsp.completion.open);
    assert!(!app.lsp.hover.open);
    assert!(!app.panels.symbol_picker.open);
    assert!(app.dialogs.rename.is_none());
    assert!(app.dialogs.go_to_line.is_none());
}

#[test]
fn entering_markdown_preview_closes_source_bound_overlays() {
    let mut app = markdown_app("before");
    open_overlays(&mut app);
    let before = app.active_buffer().to_bytes();

    app.set_markdown_preview_mode(MarkdownPreviewMode::Preview);
    dispatch_key(&mut app, key(GuiKey::Enter), Some(EditorEvent::Insert('\n')));

    assert_overlays_closed(&app);
    assert_eq!(app.active_buffer().to_bytes(), before);
}

#[test]
fn csv_table_view_updates_config_and_is_read_only() {
    let mut app = csv_app("name,count\nAlice,2\n");

    app.set_csv_preview_mode(CsvPreviewMode::Table);
    assert_eq!(app.ui.csv_preview_mode, CsvPreviewMode::Table);
    assert_eq!(app.config.csv_view.as_deref(), Some("Table"));

    app.handle_event(EditorEvent::Insert('!'));
    assert_eq!(app.active_doc().text().as_deref(), Some("name,count\nAlice,2\n"));
    assert_eq!(
        app.status_message.as_deref(),
        Some("CSV table view is read-only; switch to Source for editor commands.")
    );

    app.set_csv_preview_mode(CsvPreviewMode::Source);
    app.handle_event(EditorEvent::Insert('!'));
    assert_eq!(app.active_doc().text().as_deref(), Some("!name,count\nAlice,2\n"));
}

#[test]
fn csv_table_view_rejects_non_csv_documents() {
    let mut app = app_with("plain text");

    app.set_csv_preview_mode(CsvPreviewMode::Table);

    assert_eq!(app.ui.csv_preview_mode, CsvPreviewMode::Source);
    assert_eq!(
        app.status_message.as_deref(),
        Some("CSV table view requires a .csv file.")
    );
}

#[test]
fn csv_table_view_swallows_hidden_source_navigation_and_selection() {
    let mut app = csv_app("name,count\nAlice,2\n");
    app.set_csv_preview_mode(CsvPreviewMode::Table);
    let before = app.active_buffer().selection();

    dispatch_key(
        &mut app,
        key(GuiKey::ArrowRight),
        Some(EditorEvent::Move(Movement::Right)),
    );
    dispatch_key(&mut app, primary(GuiKey::Other), Some(EditorEvent::SelectAll));

    assert_eq!(app.active_buffer().selection(), before);
    assert_eq!(app.active_buffer().cursor(), before.head);
}

#[test]
fn csv_table_view_keeps_application_shortcuts_and_overlays_working() {
    let mut app = csv_app("name,count\nAlice,2\n");
    app.set_csv_preview_mode(CsvPreviewMode::Table);

    dispatch_key(
        &mut app,
        KeyPress { shift: true, ..primary(GuiKey::Other) },
        Some(EditorEvent::CommandPalette(None)),
    );
    assert!(app.panels.command_palette.open);
    let escape = Input {
        palette: Some(EditorEvent::CommandPaletteClose),
        ..input(InputKind::Key(key(GuiKey::Escape)), Some(EditorEvent::CollapseCursors))
    };
    dispatch(&mut app, escape);
    assert!(!app.panels.command_palette.open);

    dispatch_key(&mut app, primary(GuiKey::Other), Some(EditorEvent::NewDoc));
    assert_eq!(app.doc_count(), 2);
}

#[test]
fn entering_csv_table_view_closes_source_bound_overlays() {
    let mut app = csv_app("name,count\nAlice,2\n");
    open_overlays(&mut app);
    let before = app.active_buffer().to_bytes();

    app.set_csv_preview_mode(CsvPreviewMode::Table);
    dispatch_key(&mut app, key(GuiKey::Enter), Some(EditorEvent::Insert('\n')));

    assert_overlays_closed(&app);
    assert_eq!(app.active_buffer().to_bytes(), before);
}

#[test]
fn project_tree_focus_routes_arrow_keys() {
    let mut app = app_with("a\nb\n");
    app.ui.project_tree_open = true;
    app.panels.project_tree.focused = true;

    let down = Some(EditorEvent::Move(Movement::Down));
    dispatch_key(&mut app, key(GuiKey::ArrowDown), down);
    // Project tree consumed the event; cursor stayed put.
    assert_eq!(place(&app).0, 0);

    app.panels.project_tree.focused = false;
    let down = Some(EditorEvent::Move(Movement::Down));
    dispatch_key(&mut app, key(GuiKey::ArrowDown), down);
    assert_eq!(place(&app).0, 1);
}

// ----- typing -----

#[test]
fn insert_advances_cursor_and_marks_dirty() {
    let mut app = app_with("");
    app.handle_event(EditorEvent::Insert('h'));
    app.handle_event(EditorEvent::Insert('i'));
    assert_eq!(app.active_buffer().to_bytes(), b"hi".to_vec());
    assert_eq!(app.active_buffer().cursor(), 2);
    assert!(app.is_dirty());
}

#[test]
fn newline_keeps_cursor_at_insertion_site() {
    let mut app = app_with("first\nsecond\nthird");
    let pos = app.active_buffer().linecol_to_pos(1, 3).unwrap();
    app.active_buffer_mut().set_cursor(pos);
    app.handle_event(EditorEvent::Insert('\n'));
    assert_eq!(app.active_buffer().cursor(), pos + 1);
    assert_eq!(app.active_buffer().to_bytes(), b"first\nsec\nond\nthird");
}

#[test]
fn enter_key_keeps_cursor_at_insertion_site_in_every_keymap() {
    for mode in [KeybindingMode::Standard, KeybindingMode::Vim, KeybindingMode::Emacs] {
        let mut app = app_with("first\nsecond\nthird");
        app.set_keybinding_mode(mode);
        let pos = app.active_buffer().linecol_to_pos(1, 3).unwrap();
        app.active_buffer_mut().set_cursor(pos);
        match app.handle_input(input(
            InputKind::Key(key(GuiKey::Enter)),
            Some(EditorEvent::Insert('\n')),
        )) {
            InputOutcome::Keymap(Some(event)) => app.apply_keymap_output(vec![event], None),
            other => panic!("expected the preset to be asked, got {other:?}"),
        }
        assert_eq!(
            app.active_buffer().cursor(),
            pos + 1,
            "Enter moved the cursor incorrectly in {mode:?}"
        );
    }
}

#[test]
fn auto_save_watcher_does_not_reload_and_reset_cursor() {
    let mut app = app_with_path("[package]\nname = \"demo\"\n", "/p/Cargo.toml");
    let eof = app.active_buffer().len();
    app.active_buffer_mut().set_cursor(eof);
    app.handle_event(EditorEvent::Insert('\n'));
    let cursor_after_insert = app.active_buffer().cursor();
    let saved = app.unsaved_documents();
    assert_eq!(saved, vec![0]);
    app.take_effects();
    app.save_all_dirty(&saved, None);
    // The write is the editor's own, so the watcher has nothing to tell.
    assert!(app.take_effects().contains(&Effect::AcknowledgeWrite(0)));
    app.handle_external_changes(&Vec::new());

    assert_eq!(app.active_buffer().cursor(), cursor_after_insert);
    assert_eq!(app.status_message.as_deref(), Some("Auto-saved."));
}

#[test]
fn format_on_save_watcher_does_not_reload_and_reset_cursor() {
    let mut doc = doc_at("/p/main.rs", "fn main() {}\n");
    doc.info.uri = Some("file:///p/main.rs".to_owned());
    let mut app = EditorApp::new_with_documents(vec![doc], Config::default());
    let eof = app.active_buffer().len();
    app.active_buffer_mut().set_cursor(eof);
    app.ui.pending_format_save = true;
    let at = Position { line: 0, character: 10 };
    app.apply_pending_format(Some(vec![LspEdit {
        range: LspRange { start: at, end: at },
        new_text: " ".to_string(),
    }]));
    let cursor_after_format = app.active_buffer().cursor();
    let mut files = disk(&[]);
    settle(&mut app, &mut files);
    app.handle_external_changes(&Vec::new());

    assert_eq!(app.active_buffer().cursor(), cursor_after_format);
    assert_eq!(app.status_message.as_deref(), Some("Saved + formatted."));
    assert_eq!(files.0["/p/main.rs"], b"fn main()  {}\n".to_vec());
}

#[test]
fn earlier_auto_save_stays_acknowledged_when_a_later_save_fails() {
    let docs = vec![doc_at("/p/first.txt", "first!"), doc_at("/p/missing/second.txt", "second!")];
    let mut app = EditorApp::new_with_documents(docs, Config::default());
    app.documents[0].buffer.insert(0, "x").unwrap();
    app.documents[1].buffer.insert(0, "x").unwrap();
    app.documents[0].buffer.set_cursor(4);

    assert_eq!(app.unsaved_documents(), vec![0, 1]);
    app.take_effects();
    app.save_all_dirty(&vec![0], Some("no such directory".to_owned()));
    assert!(app.take_effects().contains(&Effect::AcknowledgeWrite(0)));
    app.handle_external_changes(&Vec::new());

    assert_eq!(app.documents[0].buffer.cursor(), 4);
    assert!(status(&app).contains("Auto-save error"));
}

#[test]
fn backspace_at_start_is_noop() {
    let mut app = app_with("abc");
    app.active_buffer_mut().set_cursor(0);
    app.handle_event(EditorEvent::DeleteLeft);
    assert_eq!(app.active_buffer().to_bytes(), b"abc".to_vec());
    assert_eq!(app.active_buffer().cursor(), 0);
}

#[test]
fn delete_right_at_end_is_noop() {
    let mut app = app_with("abc");
    app.active_buffer_mut().set_cursor(3);
    app.handle_event(EditorEvent::DeleteRight);
    assert_eq!(app.active_buffer().to_bytes(), b"abc".to_vec());
}

#[test]
fn arrow_left_right_moves_cursor() {
    let mut app = app_with("abc");
    app.active_buffer_mut().set_cursor(1);
    app.handle_event(EditorEvent::Move(Movement::Left));
    assert_eq!(app.active_buffer().cursor(), 0);
    app.handle_event(EditorEvent::Move(Movement::Right));
    assert_eq!(app.active_buffer().cursor(), 1);
}

#[test]
fn arrow_left_right_skip_over_multibyte_characters() {
    let mut app = app_with("héllo");
    app.active_buffer_mut().set_cursor(3);
    app.handle_event(EditorEvent::Move(Movement::Left));
    assert_eq!(app.active_buffer().cursor(), 1);
    app.handle_event(EditorEvent::Move(Movement::Left));
    assert_eq!(app.active_buffer().cursor(), 0);
    app.handle_event(EditorEvent::Move(Movement::Right));
    assert_eq!(app.active_buffer().cursor(), 1);
    app.handle_event(EditorEvent::Move(Movement::Right));
    assert_eq!(app.active_buffer().cursor(), 3);
}

#[test]
fn down_arrow_preserves_visual_column_on_multibyte_target_line() {
    let mut app = app_with("ab\néx");
    app.active_buffer_mut().set_cursor(2);
    app.handle_event(EditorEvent::Move(Movement::Down));
    assert_eq!(app.active_buffer().cursor(), 6);
    assert_eq!(
        app.active_buffer().pos_to_linecol(app.active_buffer().cursor()),
        Some((1, 3))
    );
}

#[test]
fn home_and_end_via_movement() {
    let mut app = app_with("hello\nworld");
    app.active_buffer_mut().set_cursor(8);
    app.handle_event(EditorEvent::Move(Movement::LineStart));
    assert_eq!(app.active_buffer().cursor(), 6);
    app.handle_event(EditorEvent::Move(Movement::LineEnd));
    assert_eq!(app.active_buffer().cursor(), 11);
}

#[test]
fn document_start_and_end() {
    let mut app = app_with("hello\nworld");
    app.active_buffer_mut().set_cursor(5);
    app.handle_event(EditorEvent::Move(Movement::DocumentStart));
    assert_eq!(app.active_buffer().cursor(), 0);
    app.handle_event(EditorEvent::Move(Movement::DocumentEnd));
    assert_eq!(app.active_buffer().cursor(), 11);
}

#[test]
fn quit_sets_flag() {
    let mut app = app_with("");
    assert!(!app.ui.should_quit);
    app.handle_event(EditorEvent::Quit);
    assert!(app.ui.should_quit);
}

#[test]
fn escape_with_single_caret_does_not_quit() {
    let mut app = app_with("hello");
    app.active_buffer_mut().set_cursor(3);

    app.handle_event(EditorEvent::CollapseCursors);

    assert!(!app.ui.should_quit);
    assert_eq!(app.active_buffer().cursor(), 3);
}

#[test]
fn escape_collapses_selection_to_its_head() {
    let mut app = app_with("hello");
    app.active_buffer_mut().set_selection(Selection { anchor: 1, head: 4 });

    app.handle_event(EditorEvent::CollapseCursors);

    assert_eq!(app.active_buffer().selection(), Selection::collapsed(4));
    assert!(!app.ui.should_quit);
}

#[test]
fn save_clears_dirty_when_path_set() {
    let mut app = EditorApp::new(TextBuffer::from_bytes_with_path(
        b"".to_vec(),
        "/tmp/x.txt".to_owned(),
    ));
    app.handle_event(EditorEvent::Insert('x'));
    assert!(app.is_dirty());
    app.handle_event(EditorEvent::Save);
    run(&mut app);
    assert!(!app.is_dirty());
}

#[test]
fn select_extend_moves_head_keeps_anchor() {
    let mut app = app_with("hello world");
    app.active_buffer_mut().set_cursor(2);
    app.active_buffer_mut().set_selection(Selection::collapsed(2));
    app.handle_event(EditorEvent::SelectExtend(Movement::Right));
    let sel = app.active_buffer().selection();
    assert_eq!(sel.anchor, 2);
    assert_eq!(sel.head, 3);
}

#[test]
fn gui_event_handling_matches_tui() {
    let mut app = app_with("");
    for ev in [
        EditorEvent::Insert('a'),
        EditorEvent::Insert('b'),
        EditorEvent::Move(Movement::Right),
        EditorEvent::DeleteLeft,
        EditorEvent::Save,
        EditorEvent::Quit,
    ] {
        app.handle_event(ev);
    }
    assert_eq!(app.active_buffer().to_bytes(), b"a".to_vec());
    assert!(app.ui.should_quit);
}

// ----- selection-aware editing -----

#[test]
fn insert_replaces_selection() {
    let mut app = app_with("hello world");
    app.active_buffer_mut().set_selection(Selection { anchor: 6, head: 11 });
    app.handle_event(EditorEvent::Insert('!'));
    assert_eq!(app.active_buffer().to_bytes(), b"hello !".to_vec());
    assert_eq!(app.active_buffer().cursor(), 7);
    assert!(app.active_buffer().selection().is_collapsed());
}

#[test]
fn multi_cursor_insert_types_at_all_cursors() {
    let mut app = app_with("a\nb");
    app.active_buffer_mut()
        .set_selections(vec![Selection::collapsed(1), Selection::collapsed(3)]);
    app.handle_event(EditorEvent::Insert('x'));
    assert_eq!(app.active_buffer().to_bytes(), b"ax\nbx".to_vec());
    assert_eq!(app.active_buffer().selections().len(), 2);
    assert_eq!(app.active_buffer().selections()[0].head, 2);
    assert_eq!(app.active_buffer().selections()[1].head, 5);
}

#[test]
fn multi_cursor_move_moves_all_cursors() {
    let mut app = app_with("hello\nworld");
    app.active_buffer_mut().set_selections(vec![
        Selection::collapsed(2), // on line 0
        Selection::collapsed(8), // on line 1
    ]);
    app.handle_event(EditorEvent::Move(Movement::Right));
    assert_eq!(app.active_buffer().selections()[0].head, 3);
    assert_eq!(app.active_buffer().selections()[1].head, 9);
}

#[test]
fn select_next_occurrence_adds_cursor() {
    let mut app = app_with("foo bar foo");
    app.active_buffer_mut().set_cursor(0);
    app.handle_event(EditorEvent::SelectNextOccurrence);
    assert_eq!(app.active_buffer().selections().len(), 2);
}

#[test]
fn select_all_occurrences_selects_every_match() {
    let mut app = app_with("cat hat cat catalog");
    app.active_buffer_mut().set_cursor(0);
    app.handle_event(EditorEvent::SelectAllOccurrences);
    let sels = app.active_buffer().selections();
    // Whole-word: the "cat" inside "catalog" must NOT match.
    assert_eq!(sels.len(), 2);
    assert_eq!(sels[0].range(), 0..3);
    assert_eq!(sels[1].range(), 8..11);
}

#[test]
fn select_all_occurrences_then_type_replaces_all() {
    let mut app = app_with("cat hat cat");
    app.active_buffer_mut().set_cursor(0);
    app.handle_event(EditorEvent::SelectAllOccurrences);
    assert_eq!(app.active_buffer().selections().len(), 2);
    app.handle_event(EditorEvent::Insert('b'));
    app.handle_event(EditorEvent::Insert('a'));
    app.handle_event(EditorEvent::Insert('t'));
    assert_eq!(app.active_buffer().to_bytes(), b"bat hat bat".to_vec());
}

#[test]
fn select_all_occurrences_explicit_selection_is_substring() {
    let mut app = app_with("cat hat catalog");
    app.active_buffer_mut().set_selection(Selection { anchor: 0, head: 3 });
    app.handle_event(EditorEvent::SelectAllOccurrences);
    let sels = app.active_buffer().selections();
    assert_eq!(sels.len(), 2);
    assert_eq!(sels[1].range(), 8..11);
}

#[test]
fn delete_left_with_selection_deletes_selection() {
    let mut app = app_with("hello world");
    app.active_buffer_mut().set_selection(Selection { anchor: 6, head: 11 });
    app.handle_event(EditorEvent::DeleteLeft);
    assert_eq!(app.active_buffer().to_bytes(), b"hello ".to_vec());
    assert_eq!(app.active_buffer().cursor(), 6);
}

#[test]
fn delete_right_with_selection_deletes_selection() {
    let mut app = app_with("hello world");
    app.active_buffer_mut().set_selection(Selection { anchor: 6, head: 11 });
    app.handle_event(EditorEvent::DeleteRight);
    assert_eq!(app.active_buffer().to_bytes(), b"hello ".to_vec());
    assert_eq!(app.active_buffer().cursor(), 6);
}

#[test]
fn delete_selection_noop_when_collapsed() {
    let mut app = app_with("hello");
    app.active_buffer_mut().set_cursor(2);
    app.active_buffer_mut().set_selection(Selection::collapsed(2));
    app.handle_event(EditorEvent::DeleteSelection);
    assert_eq!(app.active_buffer().to_bytes(), b"hello".to_vec());
    assert_eq!(app.active_buffer().cursor(), 2);
}

#[test]
fn paste_replaces_selection() {
    let mut app = app_with("hello world");
    app.active_buffer_mut().set_selection(Selection { anchor: 6, head: 11 });
    app.handle_event(EditorEvent::Paste("Rust".to_string()));
    assert_eq!(app.active_buffer().to_bytes(), b"hello Rust".to_vec());
    assert_eq!(app.active_buffer().cursor(), 10);
}

#[test]
fn paste_with_no_selection_inserts_at_cursor() {
    let mut app = app_with("hello world");
    app.active_buffer_mut().set_cursor(6);
    app.active_buffer_mut().set_selection(Selection::collapsed(6));
    app.handle_event(EditorEvent::Paste("beautiful ".to_string()));
    assert_eq!(app.active_buffer().to_bytes(), b"hello beautiful world".to_vec());
}

// ----- up, down and pages -----

#[test]
fn up_arrow_clamps_to_end_of_shorter_line_above() {
    let mut app = app_with("hello\nthis is a much longer line");
    let pos = app.active_buffer().linecol_to_pos(1, 25).unwrap();
    app.active_buffer_mut().set_cursor(pos);
    app.handle_event(EditorEvent::Move(Movement::Up));
    assert_eq!(place(&app), (0, 5));
}

#[test]
fn down_arrow_clamps_to_end_of_shorter_line_below() {
    let mut app = app_with("this is a much longer line\nhello");
    let pos = app.active_buffer().linecol_to_pos(0, 25).unwrap();
    app.active_buffer_mut().set_cursor(pos);
    app.handle_event(EditorEvent::Move(Movement::Down));
    assert_eq!(place(&app), (1, 5));
}

#[test]
fn page_up_clamps_to_target_line_length() {
    let mut app = app_with("a\nb\nc\nd\ne\nthis is a long final line");
    app.ui.viewport_lines = 5;
    let pos = app.active_buffer().linecol_to_pos(5, 25).unwrap();
    app.active_buffer_mut().set_cursor(pos);
    app.handle_event(EditorEvent::Move(Movement::PageUp));
    assert_eq!(place(&app), (0, 1));
}

#[test]
fn page_up_and_down_move_cursor_by_viewport() {
    let content: String = (0..10).map(|i| format!("line{i}\n")).collect();
    let mut app = app_with(content.trim_end_matches('\n'));
    app.ui.viewport_lines = 5;
    let pos = app.active_buffer().linecol_to_pos(9, 2).unwrap();
    app.active_buffer_mut().set_cursor(pos);
    app.handle_event(EditorEvent::Move(Movement::PageUp));
    assert_eq!(place(&app), (4, 2));
    app.handle_event(EditorEvent::Move(Movement::PageDown));
    app.handle_event(EditorEvent::Move(Movement::PageDown));
    assert_eq!(place(&app), (9, 2));
}

#[test]
fn word_right_walks_word_boundaries() {
    let mut app = app_with("hello   world foo");
    app.active_buffer_mut().set_cursor(0);
    for expected in [5, 8, 13, 14] {
        app.handle_event(EditorEvent::Move(Movement::WordRight));
        assert_eq!(app.active_buffer().cursor(), expected);
    }
}

#[test]
fn word_left_walks_word_boundaries() {
    let mut app = app_with("hello   world");
    app.active_buffer_mut().set_cursor(13);
    app.handle_event(EditorEvent::Move(Movement::WordLeft));
    assert_eq!(app.active_buffer().cursor(), 8);
    app.handle_event(EditorEvent::Move(Movement::WordLeft));
    assert_eq!(app.active_buffer().cursor(), 0);
}

#[test]
fn delete_word_left_removes_word() {
    let mut app = app_with("hello world");
    app.active_buffer_mut().set_cursor(11);
    app.handle_event(EditorEvent::DeleteWordLeft);
    assert_eq!(app.active_buffer().to_bytes(), b"hello ".to_vec());
}

#[test]
fn delete_word_right_removes_word() {
    let mut app = app_with("hello world");
    app.active_buffer_mut().set_cursor(6);
    app.handle_event(EditorEvent::DeleteWordRight);
    assert_eq!(app.active_buffer().to_bytes(), b"hello ".to_vec());
}

#[test]
fn delete_line_removes_entire_line_and_newline() {
    let mut app = app_with("alpha\nbeta\ngamma");
    app.active_buffer_mut().set_cursor(8);
    app.handle_event(EditorEvent::DeleteLine);
    assert_eq!(app.active_buffer().to_bytes(), b"alpha\ngamma".to_vec());
}

#[test]
fn duplicate_line_inserts_copy_below() {
    let mut app = app_with("alpha\nbeta\ngamma");
    app.active_buffer_mut().set_cursor(8);
    app.handle_event(EditorEvent::DuplicateLine);
    assert_eq!(app.active_buffer().to_bytes(), b"alpha\nbeta\nbeta\ngamma".to_vec());
}

#[test]
fn move_line_down_swaps_with_next() {
    let mut app = app_with("alpha\nbeta\ngamma");
    app.active_buffer_mut().set_cursor(2);
    app.handle_event(EditorEvent::MoveLineDown);
    assert_eq!(app.active_buffer().to_bytes(), b"beta\nalpha\ngamma".to_vec());
}

// ----- documents and tabs -----

#[test]
fn new_doc_appends_empty_document_and_activates_it() {
    let mut app = app_with_docs(&["alpha", "beta"]);
    assert_eq!(app.doc_count(), 2);
    assert_eq!(app.active(), 0);
    app.handle_event(EditorEvent::NewDoc);
    assert_eq!(app.doc_count(), 3);
    assert_eq!(app.active(), 2);
    // The new doc is empty and unsaved.
    assert_eq!(app.active_buffer().to_bytes(), b"".to_vec());
    assert!(!app.active_buffer().is_dirty()); // empty buffer is not dirty
}

#[test]
fn close_doc_with_multiple_docs_removes_active_and_picks_neighbour() {
    let mut app = app_with_docs(&["alpha", "beta", "gamma"]);
    assert_eq!(app.active(), 0);
    app.handle_event(EditorEvent::CloseDoc);
    assert_eq!(app.doc_count(), 2);
    assert_eq!(app.active(), 0);
    assert_eq!(app.active_buffer().to_bytes(), b"beta".to_vec());
}

#[test]
fn close_doc_at_tail_moves_active_to_new_last() {
    let mut app = app_with_docs(&["alpha", "beta", "gamma"]);
    app.active = 2;
    app.handle_event(EditorEvent::CloseDoc);
    assert_eq!(app.doc_count(), 2);
    assert_eq!(app.active(), 1, "tail close should move active back");
    assert_eq!(app.active_buffer().to_bytes(), b"beta".to_vec());
}

#[test]
fn close_last_doc_quits_editor() {
    let mut app = app_with_docs(&["only"]);
    assert!(!app.ui.should_quit);
    app.handle_event(EditorEvent::CloseDoc);
    assert!(app.ui.should_quit);
    assert_eq!(app.doc_count(), 1);
}

#[test]
fn close_inactive_tab_keeps_active_selection() {
    let mut app = app_with_docs(&["alpha", "beta", "gamma"]);
    app.active = 1; // beta is active
    app.request_close_doc(0); // close alpha
    assert_eq!(app.doc_count(), 2);
    assert_eq!(app.active(), 0, "active should shift left with closed tab");
    assert_eq!(app.active_buffer().to_bytes(), b"beta".to_vec());
}

#[test]
fn close_inactive_dirty_tab_opens_prompt_for_that_doc() {
    let mut app = app_with_docs(&["alpha", "beta"]);
    app.active = 1;
    // Make the inactive doc dirty.
    app.documents[0].buffer.insert(0, "!").unwrap();
    assert!(app.documents[0].is_dirty());
    app.request_close_doc(0);
    assert!(app.dialogs.close_confirm.is_some());
    assert_eq!(app.dialogs.close_confirm.as_ref().unwrap().doc_index, 0);
    assert_eq!(app.active(), 0, "prompt focuses the doc being closed");
}

#[test]
fn next_doc_wraps_around() {
    let mut app = app_with_docs(&["a", "b", "c"]);
    assert_eq!(app.active(), 0);
    for expected in [1, 2, 0] {
        app.handle_event(EditorEvent::NextDoc);
        assert_eq!(app.active(), expected);
    }
}

#[test]
fn prev_doc_wraps_around() {
    let mut app = app_with_docs(&["a", "b", "c"]);
    assert_eq!(app.active(), 0);
    for expected in [2, 1, 0] {
        app.handle_event(EditorEvent::PrevDoc);
        assert_eq!(app.active(), expected);
    }
}

#[test]
fn switching_docs_preserves_buffer_state() {
    let mut app = app_with_docs(&["hello", "world"]);
    app.active_buffer_mut().insert(5, "!").unwrap();
    assert_eq!(app.active_buffer().to_bytes(), b"hello!".to_vec());
    app.handle_event(EditorEvent::NextDoc);
    assert_eq!(app.active_buffer().to_bytes(), b"world".to_vec());
    app.handle_event(EditorEvent::PrevDoc);
    assert_eq!(app.active_buffer().to_bytes(), b"hello!".to_vec());
}

#[test]
fn last_seen_cursor_starts_at_zero() {
    let app = app_with("hello");
    assert_eq!(app.active_doc().view.last_seen_cursor, 0);
}

#[test]
fn handle_event_moves_cursor_without_touching_last_seen_cursor() {
    let mut app = app_with("hello");
    assert_eq!(app.active_doc().view.last_seen_cursor, 0);
    app.handle_event(EditorEvent::Insert('x'));
    assert_eq!(app.active_buffer().cursor(), 1);
    assert_eq!(
        app.active_doc().view.last_seen_cursor,
        0,
        "handle_event must not update last_seen_cursor; renderer does"
    );
    assert!(app.cursor_moved());
    app.finish_frame(1);
    assert!(!app.cursor_moved());
}

#[test]
fn last_seen_cursor_is_per_document() {
    let mut app = app_with_docs(&["alpha", "beta"]);
    app.active_doc_mut().view.last_seen_cursor = 42;
    app.handle_event(EditorEvent::NextDoc);
    assert_eq!(
        app.active_doc().view.last_seen_cursor,
        0,
        "doc 1's last_seen_cursor starts at 0"
    );
    // Switching back: doc 0's value is intact.
    app.handle_event(EditorEvent::PrevDoc);
    assert_eq!(app.active_doc().view.last_seen_cursor, 42);
}

// ----- closing with changes -----

fn choice(app: &EditorApp) -> CloseChoice {
    app.dialogs.close_confirm.as_ref().unwrap().choice
}

#[test]
fn close_doc_on_clean_buffer_quits_immediately() {
    let mut app = app_with("alpha");
    assert!(!app.active_doc().is_dirty());
    app.handle_event(EditorEvent::CloseDoc);
    assert!(app.dialogs.close_confirm.is_none(), "no prompt on clean close");
    assert!(app.ui.should_quit);
}

#[test]
fn close_doc_on_dirty_buffer_opens_prompt() {
    let mut app = app_with("hello");
    app.handle_event(EditorEvent::Insert('!'));
    assert!(app.active_doc().is_dirty());
    app.handle_event(EditorEvent::CloseDoc);
    let confirm = app.dialogs.close_confirm.as_ref().expect("prompt should be open");
    assert_eq!(confirm.doc_index, 0);
    assert_eq!(confirm.choice, CloseChoice::Save, "Save is the default");
    assert!(!app.ui.should_quit);
    assert_eq!(app.doc_count(), 1);
}

#[test]
fn cycle_close_choice_walks_save_discard_cancel() {
    let mut app = app_with("hello");
    app.handle_event(EditorEvent::Insert('!'));
    app.handle_event(EditorEvent::CloseDoc);
    app.cycle_close_choice(1);
    assert_eq!(choice(&app), CloseChoice::Discard);
    app.cycle_close_choice(1);
    assert_eq!(choice(&app), CloseChoice::Cancel);
    app.cycle_close_choice(1);
    assert_eq!(choice(&app), CloseChoice::Save);
    app.cycle_close_choice(-1);
    assert_eq!(choice(&app), CloseChoice::Cancel);
}

#[test]
fn confirm_close_choice_discard_closes_without_saving() {
    let mut app = app_with_docs(&["alpha", "beta"]);
    app.handle_event(EditorEvent::Insert('!'));
    app.handle_event(EditorEvent::CloseDoc);
    app.cycle_close_choice(1); // Save → Discard
    app.confirm_close_choice();
    assert!(app.dialogs.close_confirm.is_none());
    assert_eq!(app.doc_count(), 1);
    assert!(!app.ui.should_quit);
}

#[test]
fn confirm_close_choice_cancel_drops_prompt_only() {
    let mut app = app_with("hello");
    app.handle_event(EditorEvent::Insert('!'));
    app.handle_event(EditorEvent::CloseDoc);
    app.cycle_close_choice(1); // Save → Discard
    app.cycle_close_choice(1); // Discard → Cancel
    app.confirm_close_choice();
    assert!(app.dialogs.close_confirm.is_none());
    assert!(!app.ui.should_quit);
    assert!(app.active_doc().is_dirty(), "buffer untouched");
}

#[test]
fn confirm_close_choice_save_saves_then_closes() {
    let mut app = EditorApp::new(TextBuffer::from_bytes_with_path(
        b"hello".to_vec(),
        "/tmp/close.txt".to_owned(),
    ));
    app.handle_event(EditorEvent::Insert('!'));
    app.handle_event(EditorEvent::CloseDoc);
    app.confirm_close_choice();
    let mut files = disk(&[]);
    settle(&mut app, &mut files);
    assert!(app.dialogs.close_confirm.is_none());
    assert!(app.ui.should_quit);
    // Insert('!') at cursor 0 → "!hello".
    assert_eq!(files.0["/tmp/close.txt"], b"!hello".to_vec());
}

#[test]
fn confirm_close_choice_save_without_path_reports_error() {
    let mut app = app_with("hello");
    app.handle_event(EditorEvent::Insert('!'));
    assert!(app.active_doc().path().is_none());
    app.handle_event(EditorEvent::CloseDoc);
    app.confirm_close_choice();
    assert!(app.dialogs.close_confirm.is_none(), "prompt dropped on save failure");
    assert!(status(&app).contains("Save error"), "expected save error: {}", status(&app));
    assert!(!app.ui.should_quit);
}

#[test]
fn close_buttons_answer_the_question() {
    let mut app = app_with_docs(&["alpha", "beta"]);
    app.handle_event(EditorEvent::Insert('!'));
    app.handle_event(EditorEvent::CloseDoc);
    app.click_close_button(CloseChoice::Cancel);
    assert_eq!(status(&app), "Close cancelled.");
    assert_eq!(app.doc_count(), 2);
    app.click_close_button(CloseChoice::Discard);
    assert_eq!(app.doc_count(), 2);
    app.handle_event(EditorEvent::CloseDoc);
    app.click_close_button(CloseChoice::Discard);
    assert_eq!(app.doc_count(), 1);
    assert_eq!(text_of(&app), "beta");
}

// ----- opening files -----

#[test]
fn open_file_event_with_some_path_loads_directly() {
    let mut app = app_with("buffer");
    app.handle_event(EditorEvent::OpenFile(Some("/d/some.txt".to_owned())));
    settle(&mut app, &mut disk(&[("/d/some.txt", "hi")]));
    assert_eq!(app.active_buffer().to_bytes(), b"hi".to_vec());
    assert_eq!(app.active_doc().path().map(|p| p.as_str()), Some("/d/some.txt"));
    assert_eq!(status(&app), "Opened some.txt");
}

#[test]
fn open_file_with_nonexistent_path_creates_empty_buffer_with_path() {
    let mut app = app_with("buffer");
    app.handle_event(EditorEvent::OpenFile(Some("/d/new.txt".to_owned())));
    run(&mut app);
    assert_eq!(app.active_buffer().to_bytes(), b"".to_vec());
    assert_eq!(app.active_doc().path().map(|p| p.as_str()), Some("/d/new.txt"));
}

#[test]
fn a_file_that_cannot_be_read_leaves_the_document() {
    let mut app = app_with("buffer");
    app.handle_event(EditorEvent::OpenFile(Some("/d/locked".to_owned())));
    app.file_loaded(
        "/d/locked".to_owned(),
        file_info("/d/locked"),
        FileContent::Unreadable("permission denied".to_owned()),
    );
    assert_eq!(status(&app), "Open error: permission denied");
    assert_eq!(text_of(&app), "buffer");
}

#[test]
fn close_confirm_drops_go_to_line_dialog_when_opened() {
    let mut app = app_with("hello");
    app.handle_event(EditorEvent::Insert('!'));
    app.handle_event(EditorEvent::GoToLine(None));
    assert!(app.dialogs.go_to_line.is_some());
    app.handle_event(EditorEvent::CloseDoc);
    assert!(app.dialogs.close_confirm.is_some());
    assert!(app.dialogs.go_to_line.is_none());
}

// ----- keys in the window -----

#[test]
fn command_palette_does_not_swallow_quit_shortcut() {
    let mut app = app_with("hello");
    app.handle_event(EditorEvent::CommandPalette(None));
    assert!(app.panels.command_palette.open);

    dispatch_key(&mut app, primary(GuiKey::Other), Some(EditorEvent::Quit));

    assert!(app.ui.should_quit);
}

#[test]
fn close_confirmation_has_escape_priority_over_find_bar() {
    let mut app = app_with("hello");
    app.handle_event(EditorEvent::Insert('!'));
    app.handle_event(EditorEvent::FindOpen);
    dispatch_key(&mut app, primary(GuiKey::Other), Some(EditorEvent::CloseDoc));
    assert!(app.dialogs.close_confirm.is_some());
    assert!(app.search.bar_open);

    dispatch_key(&mut app, key(GuiKey::Escape), Some(EditorEvent::CollapseCursors));

    assert!(app.dialogs.close_confirm.is_none());
    assert!(app.search.bar_open);
    assert!(!app.ui.should_quit);
}

#[test]
fn escape_closes_settings_without_changing_editor_state() {
    let mut app = app_with("hello");
    let selection = Selection { anchor: 1, head: 4 };
    app.active_buffer_mut().set_selection(selection);
    app.ui.settings_open = true;

    dispatch_key(&mut app, key(GuiKey::Escape), Some(EditorEvent::CollapseCursors));

    assert!(!app.ui.settings_open);
    assert_eq!(app.active_buffer().selection(), selection);
    assert!(!app.ui.should_quit);
}

#[test]
fn settings_swallows_text_input_before_it_reaches_buffer() {
    let mut app = app_with("hello");
    app.ui.settings_open = true;
    let before = app.active_buffer().to_bytes();

    dispatch(
        &mut app,
        input(InputKind::Text("x".to_string()), Some(EditorEvent::Insert('x'))),
    );

    assert_eq!(app.active_buffer().to_bytes(), before);
    assert!(app.ui.settings_open);
}

#[test]
fn escape_closes_symbol_picker_without_changing_selection() {
    let mut app = app_with("hello");
    let selection = Selection { anchor: 1, head: 4 };
    app.active_buffer_mut().set_selection(selection);
    app.panels.symbol_picker.open = true;

    dispatch_key(&mut app, key(GuiKey::Escape), Some(EditorEvent::CollapseCursors));

    assert!(!app.panels.symbol_picker.open);
    assert_eq!(app.active_buffer().selection(), selection);
    assert!(!app.ui.should_quit);
}

// ----- themes -----

#[test]
fn cycle_theme_changes_theme_and_invalidates_cache() {
    let mut app = app_with("let x = 42;");
    // Pre-warm the cache.
    app.active_doc_mut().syntax.record(0);
    assert!(app.active_doc().syntax.has(0));
    assert!(!app.active_doc().syntax.lines.is_empty());

    let before = app.look.syntax.theme_name().to_string();
    app.handle_event(EditorEvent::CycleTheme);
    assert!(status(&app).contains("Theme:"), "status: {}", status(&app));

    // Every document's syntax cache should be invalidated.
    for doc in &app.documents {
        assert!(doc.syntax.dirty);
        assert!(doc.syntax.lines.is_empty());
    }

    // Theme actually changed (unless there's only one bundled theme).
    if app.look.syntax.theme_names().len() > 1 {
        assert_ne!(app.look.syntax.theme_name(), before);
    }
}

#[test]
fn default_ui_theme_is_dark() {
    let app = app_with("hello");
    assert_eq!(app.look.theme.name, "Dark");
    assert_eq!(app.config.ui_theme, None);
}

#[test]
fn set_color_theme_by_name_unknown_is_noop() {
    let mut app = app_with("hello");
    assert!(!app.set_color_theme_by_name("Neon"));
    assert_eq!(app.look.theme.name, "Dark");
    assert_eq!(app.config.ui_theme, None);
}

#[test]
fn coordinated_theme_switch_updates_ui_syntax_and_config() {
    let mut app = app_with("hello");

    assert!(app.set_color_theme_by_name("Sandstone"));

    assert_eq!(app.look.theme.name, "Sandstone");
    assert_eq!(app.look.syntax.theme_name(), "Sandstone");
    assert_eq!(app.config.ui_theme.as_deref(), Some("Sandstone"));
    assert_eq!(app.config.theme.as_deref(), Some("Sandstone"));
}

#[test]
fn app_loads_ui_theme_from_config() {
    let config = Config { ui_theme: Some("Light".to_string()), ..Config::default() };
    let app = EditorApp::new_with_documents(vec![Document::new(buffer("hi"))], config);
    assert_eq!(app.look.theme.name, "Light");
    assert_eq!(app.look.syntax.theme_name(), "Solarized Light");
}

#[test]
fn app_loads_markdown_view_from_config() {
    let config = Config { markdown_view: Some("Preview".to_string()), ..Config::default() };
    let app = EditorApp::new_with_documents(vec![Document::new(buffer("hi"))], config);
    assert_eq!(app.ui.markdown_preview_mode, MarkdownPreviewMode::Preview);
}

#[test]
fn app_loads_csv_view_from_config() {
    let config = Config { csv_view: Some("Table".to_string()), ..Config::default() };
    let app = EditorApp::new_with_documents(vec![Document::new(buffer("hi"))], config);
    assert_eq!(app.ui.csv_preview_mode, CsvPreviewMode::Table);
}

#[test]
fn caret_animation_defaults_off() {
    let app = app_with("hello");
    assert!(!app.config.caret_animation);
}

#[test]
fn toggle_caret_animation_updates_config_and_status() {
    let mut app = app_with("hello");
    app.ui.caret_snapped = false;

    app.toggle_caret_animation();
    assert!(app.config.caret_animation);
    assert!(app.ui.caret_snapped);
    assert_eq!(app.status_message, Some("Caret animation: on".to_string()));

    app.toggle_caret_animation();
    assert!(!app.config.caret_animation);
    assert!(app.ui.caret_snapped);
    assert_eq!(app.status_message, Some("Caret animation: off".to_string()));
}

// ----- go to line -----

#[test]
fn go_to_line_jumps_to_start_of_target_line() {
    let mut app = app_with("alpha\nbeta\ngamma");
    app.handle_event(EditorEvent::GoToLine(Some(2)));
    // Line 2 starts at byte 6 ("alpha\n" = 6 bytes).
    assert_eq!(app.active_buffer().cursor(), 6);
    assert!(status(&app).contains("Go to line 2"));
}

#[test]
fn go_to_line_clamps_past_end() {
    let mut app = app_with("alpha\nbeta");
    app.handle_event(EditorEvent::GoToLine(Some(100)));
    // Document has 2 lines; clamp to line 2 start.
    assert_eq!(app.active_buffer().cursor(), 6);
}

#[test]
fn go_to_line_zero_rejected() {
    let mut app = app_with("alpha\nbeta");
    app.handle_event(EditorEvent::GoToLine(Some(0)));
    assert_eq!(app.active_buffer().cursor(), 0);
    assert!(status(&app).contains("start at 1"));
}

#[test]
fn go_to_line_dialog_opens_and_accepts_input() {
    let mut app = app_with("a\nb\nc");
    app.handle_event(EditorEvent::GoToLine(None));
    assert!(app.dialogs.go_to_line.is_some());
    app.push_go_to_line_query('3');
    app.submit_go_to_line_dialog();
    assert!(app.dialogs.go_to_line.is_none());
    // Line 3 starts at byte 4 ("a\nb\n" = 4 bytes).
    assert_eq!(app.active_buffer().cursor(), 4);
}

#[test]
fn go_to_line_dialog_rejects_non_digit_input() {
    let mut app = app_with("a\nb");
    app.handle_event(EditorEvent::GoToLine(None));
    app.push_go_to_line_query('a');
    assert_eq!(app.dialogs.go_to_line.as_ref().unwrap().query, "");
}

#[test]
fn go_to_line_dialog_invalid_input_shows_error() {
    let mut app = app_with("a\nb");
    app.handle_event(EditorEvent::GoToLine(None));
    app.dialogs.go_to_line.as_mut().unwrap().query = "abc".to_string();
    app.submit_go_to_line_dialog();
    assert!(status(&app).contains("not a valid line number"));
}

// ----- project tree -----

fn row(depth: usize, name: &str, rel_path: &str, is_dir: bool) -> TreeRow {
    TreeRow {
        depth,
        name: name.to_owned(),
        rel_path: rel_path.to_owned(),
        is_dir,
        expanded: is_dir,
    }
}

#[test]
fn project_tree_shows_by_default_and_toggles() {
    let mut app = EditorApp::new_with_documents(
        vec![doc_at("/p/main.rs", "")],
        Config::default(),
    );
    assert!(app.ui.project_tree_open);
    assert!(app.take_effects().contains(&Effect::LoadTree));
    let rows = vec![row(0, "Cargo.toml", "Cargo.toml", false), row(0, "main.rs", "main.rs", false)];
    app.tree_loaded(Some(rows), None);
    let names: Vec<&str> = app.project_tree_rows().iter().map(|r| r.name.as_str()).collect();
    assert!(names.contains(&"Cargo.toml"));
    assert!(names.contains(&"main.rs"));

    app.handle_event(EditorEvent::ToggleProjectTree);
    assert!(!app.ui.project_tree_open);
}

#[test]
fn project_tree_collapses_and_opens_file() {
    let mut app = app_with_path("", "/p/main.rs");
    app.take_effects();
    let rows = vec![row(0, "src", "src", true), row(1, "lib.rs", "src/lib.rs", false)];
    app.tree_loaded(Some(rows), None);

    app.panels.project_tree.selected = 0;
    app.handle_event(EditorEvent::ProjectTreeOpen);
    assert_eq!(app.take_effects(), vec![Effect::ToggleTreeNode("src".to_owned())]);

    app.click_tree_row(1);
    assert!(app.panels.project_tree.focused);
    assert_eq!(app.take_effects(), vec![Effect::OpenProjectFile("src/lib.rs".to_owned())]);

    app.open_or_switch_to_path("/p/src/lib.rs".to_owned());
    settle(&mut app, &mut disk(&[("/p/src/lib.rs", "pub fn lib() {}")]));
    assert_eq!(app.active_doc().path().map(|p| p.as_str()), Some("/p/src/lib.rs"));
    assert_eq!(app.active_buffer().to_bytes(), b"pub fn lib() {}".to_vec());
}

#[test]
fn opening_file_reveals_it_in_project_tree() {
    let mut app = app_with_path("fn main() {}", "/p/main.rs");
    app.take_effects();
    app.tree_loaded(Some(vec![row(0, "src", "src", true)]), None);
    assert!(!app.panels.project_tree.reveal_pending);
    let rows = vec![
        row(0, "src", "src", true),
        row(1, "nested", "src/nested", true),
        row(2, "lib.rs", "src/nested/lib.rs", false),
    ];
    app.tree_revealed(rows, Some(2));
    let selected = &app.project_tree_rows()[app.panels.project_tree.selected];
    assert_eq!(selected.rel_path, "src/nested/lib.rs");
    assert!(app.panels.project_tree.reveal_pending);
    assert!(app.take_tree_reveal());
    assert!(!app.panels.project_tree.reveal_pending);
}

// ----- auto-save and reloading -----

#[test]
fn auto_save_writes_idle_dirty_buffer() {
    let mut app = app_with_path("hello", "/d/auto.txt");
    app.handle_event(EditorEvent::Insert('!'));
    assert!(app.active_doc().is_dirty());
    assert!(!app.auto_save(10));
    assert!(app.auto_save(10_000));
    let saved = app.unsaved_documents();
    assert_eq!(saved, vec![0]);
    assert_eq!(text_of(&app), "!hello");
    app.save_all_dirty(&saved, None);
    assert!(!app.active_doc().is_dirty());
}

#[test]
fn auto_save_skips_unnamed_buffers() {
    let mut app = app_with("hello");
    app.handle_event(EditorEvent::Insert('!'));
    let saved = app.unsaved_documents();
    assert!(saved.is_empty());
    app.save_all_dirty(&saved, None);
    assert!(app.active_doc().is_dirty());
}

#[test]
fn auto_save_respects_config_toggle() {
    let mut app = app_with_path("hello", "/d/off.txt");
    app.config.auto_save = false;
    app.handle_event(EditorEvent::Insert('!'));
    assert!(!app.auto_save(10_000));
    assert!(app.active_doc().is_dirty());
}

#[test]
fn reload_document_at_path_loads_new_content() {
    let mut app = app_with_path("original", "/d/reload.txt");
    assert_eq!(app.active_buffer().to_bytes(), b"original".to_vec());
    app.take_effects();
    app.reload_document_at_path("/d/reload.txt".to_owned());
    settle(&mut app, &mut disk(&[("/d/reload.txt", "updated")]));
    assert_eq!(app.active_buffer().to_bytes(), b"updated".to_vec());
    assert_eq!(status(&app), "Reloaded reload.txt.");
}

#[test]
fn reload_file_event_reloads_active_document() {
    let mut app = app_with_path("v1", "/d/event.txt");
    app.handle_event(EditorEvent::ReloadFile);
    settle(&mut app, &mut disk(&[("/d/event.txt", "v2")]));
    assert_eq!(app.active_buffer().to_bytes(), b"v2".to_vec());
}

#[test]
fn changes_by_others_reload_or_mark_a_document() {
    let mut app = app_with_path("one", "/d/a.txt");
    app.take_effects();
    app.handle_external_changes(&vec!["/d/a.txt".to_owned()]);
    settle(&mut app, &mut disk(&[("/d/a.txt", "two")]));
    assert_eq!(text_of(&app), "two");
    app.handle_event(EditorEvent::Insert('!'));
    app.handle_external_changes(&vec!["/d/a.txt".to_owned()]);
    assert!(app.active_doc().external_change);
    assert_eq!(text_of(&app), "!two");
}

// ----- find and replace -----

#[test]
fn toggle_find_regex_switches_mode_and_finds_variable_length_matches() {
    let mut app = app_with("foo bar baz");
    app.handle_event(EditorEvent::FindOpen);
    app.handle_event(EditorEvent::FindQueryChanged("b\\w+".to_string()));
    run(&mut app);
    assert!(app.search.matches.is_empty());
    app.handle_event(EditorEvent::ToggleFindRegex);
    assert!(app.search.regex_mode);
    assert!(app.take_effects().iter().any(|e| matches!(e, Effect::FindMatches { .. })));
    app.set_matches(&vec![(4, 7), (8, 11)], None, true);
    assert_eq!(app.search.matches, vec![(4, 7), (8, 11)]);
    assert_eq!(app.search.current_match(), Some(4));
}

#[test]
fn replace_one_in_regex_mode_expands_capture_groups() {
    let mut app = app_with("hello world");
    app.handle_event(EditorEvent::FindOpen);
    app.handle_event(EditorEvent::FindQueryChanged("(\\w+) (\\w+)".to_string()));
    app.handle_event(EditorEvent::ToggleFindRegex);
    app.set_matches(&vec![(0, 11)], None, true);
    app.handle_event(EditorEvent::ReplaceOpen);
    app.handle_event(EditorEvent::ReplaceQueryChanged("$2 $1".to_string()));
    app.take_effects();
    app.handle_event(EditorEvent::ReplaceOne);
    assert!(app.take_effects().contains(&Effect::FindReplacement));
    app.apply_replacement(Some((0, 11, "world hello".to_string())));
    assert_eq!(app.active_buffer().to_bytes(), b"world hello".to_vec());
}

#[test]
fn replace_all_in_regex_mode_expands_capture_groups() {
    let mut app = app_with("hello world\nfoo bar");
    app.handle_event(EditorEvent::FindOpen);
    app.handle_event(EditorEvent::FindQueryChanged("(\\w+) (\\w+)".to_string()));
    app.handle_event(EditorEvent::ToggleFindRegex);
    app.set_matches(&vec![(0, 11), (12, 19)], None, true);
    app.handle_event(EditorEvent::ReplaceOpen);
    app.handle_event(EditorEvent::ReplaceQueryChanged("$2 $1".to_string()));
    app.take_effects();
    app.handle_event(EditorEvent::ReplaceAll);
    assert!(app.take_effects().contains(&Effect::FindAllReplacements));
    app.apply_all_replacements(Some("world hello\nbar foo".to_string()));
    assert_eq!(app.active_buffer().to_bytes(), b"world hello\nbar foo".to_vec());
}

#[test]
fn backward_find_selects_last_match_and_plain_enter_stays_backward() {
    let mut app = app_with("one two one");
    app.handle_event(EditorEvent::FindOpenBackward);
    app.handle_event(EditorEvent::FindQueryChanged("one".into()));
    run(&mut app);
    assert_eq!(app.active_buffer().cursor(), 8);
    assert_eq!(
        find_bar_translate(&InputKind::Key(key(GuiKey::Enter)), app.search.backward),
        Some(EditorEvent::FindPrev)
    );
}

// ----- project-wide search -----

fn preview(count: usize) -> ReplacePreview {
    ReplacePreview {
        rel_path: "src/a.rs".to_owned(),
        line: 1,
        before: "foo foo".to_owned(),
        after: "bar bar".to_owned(),
        occurrence_count: count,
    }
}

fn search_project(app: &mut EditorApp) {
    app.handle_event(EditorEvent::ProjectSearch(Some("foo".to_string())));
    app.handle_event(EditorEvent::ProjectSearchReplaceQueryChanged("bar".to_string()));
    assert!(app.take_effects().contains(&Effect::RunProjectSearch));
    app.project_search_finished(Vec::new(), vec![preview(2)]);
    app.handle_event(EditorEvent::ProjectSearchReplaceAll);
}

#[test]
fn project_replace_all_prompts_for_confirmation() {
    let mut app = app_with_path("foo foo", "/p/src/a.rs");
    search_project(&mut app);

    assert!(app.panels.project_search.confirm_replace);
    assert_eq!(app.panels.project_search.replace_previews.len(), 1);
    assert_eq!(app.panels.project_search.replace_previews[0].occurrence_count, 2);
}

#[test]
fn project_replace_all_reloads_open_file() {
    let mut app = app_with_path("foo foo", "/p/src/a.rs");
    search_project(&mut app);
    app.handle_event(EditorEvent::ProjectSearchReplaceAllConfirm);
    assert!(app.take_effects().contains(&Effect::ReplaceInProject));
    app.project_replaced(2, &vec!["/p/src/a.rs".to_owned()]);
    settle(&mut app, &mut disk(&[("/p/src/a.rs", "bar bar")]));

    assert!(!app.panels.project_search.open);
    assert_eq!(app.active_buffer().to_bytes(), b"bar bar".to_vec());
    assert!(!app.active_doc().external_change);
}

#[test]
fn project_replace_all_marks_dirty_open_file_stale() {
    let mut app = app_with_path("foo foo", "/p/src/a.rs");
    app.handle_event(EditorEvent::Insert('!'));
    search_project(&mut app);
    app.handle_event(EditorEvent::ProjectSearchReplaceAllConfirm);
    app.project_replaced(2, &vec!["/p/src/a.rs".to_owned()]);

    assert!(!app.panels.project_search.open);
    assert!(app.active_doc().external_change);
}

#[test]
fn clicking_a_result_opens_it() {
    let mut app = app_with_path("", "/p/main.rs");
    let result = ProjectSearchResult {
        rel_path: "src/a.rs".to_owned(),
        line: 3,
        col: 2,
        text: "foo".to_owned(),
    };
    app.project_search_finished(vec![result], Vec::new());
    app.take_effects();
    app.click_search_result(0);
    assert_eq!(
        app.take_effects(),
        vec![Effect::OpenSearchResult { rel_path: "src/a.rs".to_owned(), line: 3, col: 2 }]
    );
}

// ----- file finder and command palette -----

fn candidate(rel: &str) -> FuzzyCandidate {
    FuzzyCandidate { display: rel.to_owned(), path: format!("/p/{rel}") }
}

fn open_finder(query: Option<&str>) -> EditorApp {
    let mut app = app_with("x");
    app.handle_event(EditorEvent::FuzzyFinder(query.map(|q| q.to_owned())));
    assert!(app.take_effects().contains(&Effect::ListProjectFiles));
    app.fuzzy_files_listed(vec![
        candidate("src/main.rs"),
        candidate("src/lib.rs"),
        candidate("tests/it.rs"),
    ]);
    let wanted = query.unwrap_or("").to_owned();
    let ranked: Vec<usize> = (0..app.panels.fuzzy_finder.items.len())
        .filter(|i| app.panels.fuzzy_finder.items[*i].display.contains(&wanted))
        .collect();
    app.refresh_fuzzy_finder(ranked);
    app
}

#[test]
fn fuzzy_finder_lists_project_files() {
    let app = open_finder(None);
    assert!(app.panels.fuzzy_finder.open);
    let displays: Vec<&str> =
        app.panels.fuzzy_finder.items.iter().map(|c| c.display.as_str()).collect();
    assert!(displays.contains(&"src/main.rs"));
    assert!(displays.contains(&"src/lib.rs"));
    assert!(displays.contains(&"tests/it.rs"));
}

#[test]
fn fuzzy_finder_filters_by_query() {
    let app = open_finder(Some("lib"));
    assert_eq!(app.panels.fuzzy_finder.filtered.len(), 1);
    let idx = app.panels.fuzzy_finder.filtered[0];
    assert!(app.panels.fuzzy_finder.items[idx].display.contains("lib.rs"));
}

#[test]
fn fuzzy_finder_opens_selected_file() {
    let mut app = open_finder(Some("main"));
    assert_eq!(app.documents.len(), 1);
    app.handle_event(EditorEvent::FuzzyFinderExecute);
    settle(&mut app, &mut disk(&[("/p/src/main.rs", "fn main() {}")]));

    assert!(!app.panels.fuzzy_finder.open);
    assert_eq!(app.documents.len(), 2);
    assert!(app.active_doc().path().unwrap().ends_with("main.rs"));
}

#[test]
fn fuzzy_finder_closes_on_esc() {
    let mut app = open_finder(None);
    assert!(app.panels.fuzzy_finder.open);
    app.handle_event(EditorEvent::FuzzyFinderClose);
    assert!(!app.panels.fuzzy_finder.open);
}

#[test]
fn fuzzy_finder_swallows_typed_keys() {
    let mut app = app_with("hello");
    app.handle_event(EditorEvent::FuzzyFinder(None));
    assert!(app.panels.fuzzy_finder.open);
    let typed = Input {
        fuzzy: Some(EditorEvent::FuzzyFinderQueryChanged("a".to_string())),
        ..input(InputKind::Text("a".to_string()), Some(EditorEvent::Insert('a')))
    };
    dispatch(&mut app, typed);
    assert_eq!(app.active_buffer().to_bytes(), b"hello");
    assert_eq!(app.panels.fuzzy_finder.query, "a");
}

#[test]
fn command_palette_swallows_typed_keys() {
    let mut app = app_with("hello");
    app.handle_event(EditorEvent::CommandPalette(None));
    assert!(app.panels.command_palette.open);
    let typed = Input {
        palette: Some(EditorEvent::CommandPaletteQueryChanged("a".to_string())),
        ..input(InputKind::Text("a".to_string()), Some(EditorEvent::Insert('a')))
    };
    dispatch(&mut app, typed);
    assert_eq!(app.active_buffer().to_bytes(), b"hello");
    assert_eq!(app.panels.command_palette.query, "a");
}

fn preset_command(label: &str, mode: KeybindingMode) -> Command {
    Command {
        label: label.to_owned(),
        keybinding: String::new(),
        event: EditorEvent::SetKeybindingMode(mode),
    }
}

#[test]
fn command_palette_executes_filtered_keybinding_mode_command() {
    let mut app = app_with("hello");
    app.open_command_palette(Some("keybindings_vim".into()));
    app.refresh_command_palette(vec![preset_command("keybindings_vim", KeybindingMode::Vim)]);
    assert_eq!(app.panels.command_palette.filtered.len(), 1);
    app.execute_selected_command();
    run(&mut app);
    assert_eq!(app.ui.keybinding_mode, KeybindingMode::Vim);
    assert_eq!(app.config.keybinding_mode, KeybindingMode::Vim);
    assert!(!app.panels.command_palette.open);

    let mut table = csv_app("name\nSkerry\n");
    table.set_csv_preview_mode(CsvPreviewMode::Table);
    table.open_command_palette(Some("keybindings_emacs".into()));
    table.refresh_command_palette(vec![preset_command(
        "keybindings_emacs",
        KeybindingMode::Emacs,
    )]);
    table.execute_selected_command();
    run(&mut table);
    assert_eq!(table.ui.keybinding_mode, KeybindingMode::Emacs);
}

// ----- git -----

#[test]
fn git_gutter_hunk_navigation_jumps_cursor() {
    let mut app = app_with("aaa\nbbb\nccc\n");
    // Modify the first line, then move the cursor down.
    app.handle_event(EditorEvent::Insert('z'));
    app.handle_event(EditorEvent::Move(Movement::Down));
    app.handle_event(EditorEvent::RefreshGitGutter);
    assert!(app.take_effects().contains(&Effect::RefreshGutter));
    app.gutter_refreshed(true, vec![0]);
    app.handle_event(EditorEvent::PrevHunk);
    assert_eq!(place(&app), (0, 0));
}

// ----- clipboard -----

#[test]
fn copy_and_cut_hand_out_the_selection() {
    let mut app = app_with("hello world");
    app.active_buffer_mut().set_selection(Selection { anchor: 0, head: 5 });
    app.take_effects();
    app.apply_clipboard_action(ClipboardAction::Copy("hello".to_owned()));
    assert!(app.take_effects().contains(&Effect::CopyText("hello".to_owned())));
    assert_eq!(text_of(&app), "hello world");
    app.apply_clipboard_action(ClipboardAction::Cut("hello".to_owned()));
    assert!(app.take_effects().contains(&Effect::CopyText("hello".to_owned())));
    assert_eq!(text_of(&app), " world");
    app.apply_clipboard_action(ClipboardAction::Paste);
    assert!(app.take_effects().contains(&Effect::PasteClipboard));
}

// ----- the time of the last edit -----

/// The text after an event, and whether idle time starts again.
fn after(app: &mut EditorApp, event: EditorEvent) -> (String, bool) {
    app.take_effects();
    app.handle_event(event);
    let text = String::from_utf8(app.active_buffer().to_bytes()).unwrap();
    (text, app.take_effects().contains(&Effect::EditMade))
}

#[test]
fn a_new_line_starts_idle_time() {
    let mut app = app_with("  a");
    app.active_buffer_mut().set_cursor(3);
    assert_eq!(after(&mut app, EditorEvent::Insert('\n')), ("  a\n  ".to_owned(), true));
}

#[test]
fn a_pair_starts_idle_time() {
    let mut app = app_with("a");
    assert_eq!(after(&mut app, EditorEvent::Insert('(')), ("()a".to_owned(), true));
    assert_eq!(after(&mut app, EditorEvent::DeleteLeft), ("a".to_owned(), true));
}

#[test]
fn stepping_over_a_bracket_is_no_edit() {
    let mut app = app_with(")a");
    assert_eq!(after(&mut app, EditorEvent::Insert(')')), (")a".to_owned(), false));
}

#[test]
fn deleting_a_selection_starts_idle_time() {
    let events = [
        EditorEvent::DeleteLeft,
        EditorEvent::DeleteRight,
        EditorEvent::DeleteWordLeft,
        EditorEvent::DeleteWordRight,
    ];
    for event in events {
        let mut app = app_with("one two");
        app.active_buffer_mut().set_selection(Selection { anchor: 0, head: 4 });
        assert_eq!(after(&mut app, event), ("two".to_owned(), true));
    }
}

#[test]
fn a_snippet_starts_idle_time() {
    let mut app = app_with("fn");
    app.config.snippets = vec![Snippet {
        trigger: "fn".to_owned(),
        expanded: "fn () {}".to_owned(),
        cursor_offset: 3,
    }];
    app.active_buffer_mut().set_cursor(2);
    assert_eq!(after(&mut app, EditorEvent::InsertTab), ("fn () {}".to_owned(), true));
    assert_eq!(app.active_buffer().cursor(), 3);
}

// ----- occurrences -----

#[test]
fn the_next_occurrence_is_the_next_one() {
    let mut app = app_with("foo foo foo");
    app.active_buffer_mut().set_selection(Selection { anchor: 0, head: 3 });
    app.handle_event(EditorEvent::SelectNextOccurrence);
    let ranges = |app: &EditorApp| -> Vec<(usize, usize)> {
        app.active_buffer().selections().iter().map(|s| (s.anchor, s.head)).collect()
    };
    assert_eq!(ranges(&app), vec![(0, 3), (4, 7)]);
    app.handle_event(EditorEvent::SelectNextOccurrence);
    assert_eq!(ranges(&app), vec![(0, 3), (4, 7), (8, 11)]);
}

#[test]
fn occurrences_that_touch_are_not_passed_over() {
    let mut app = app_with("foofoo");
    app.active_buffer_mut().set_selection(Selection { anchor: 0, head: 3 });
    app.handle_event(EditorEvent::SelectNextOccurrence);
    assert_eq!(app.active_buffer().selections().len(), 2);
    assert_eq!(app.active_buffer().selections()[1], Selection { anchor: 3, head: 6 });
}

#[test]
fn the_search_for_occurrences_goes_around() {
    let mut app = app_with("foo foo foo");
    app.active_buffer_mut().set_selection(Selection { anchor: 8, head: 11 });
    app.handle_event(EditorEvent::SelectNextOccurrence);
    assert_eq!(app.active_buffer().selections()[0], Selection { anchor: 0, head: 3 });
}

// ----- the question before closing -----

#[test]
fn the_question_stays_with_its_document() {
    let mut app = app_with_docs(&["alpha", "beta", "gamma"]);
    app.click_tab(1);
    app.handle_event(EditorEvent::Insert('!'));
    app.handle_event(EditorEvent::CloseDoc);
    app.click_tab(2);
    app.request_close_doc(0);
    assert_eq!(app.dialogs.close_confirm.map(|c| c.doc_index), Some(0));
    app.cycle_close_choice(1);
    app.confirm_close_choice();
    assert_eq!(app.doc_count(), 1);
    assert_eq!(app.active_buffer().to_bytes(), b"gamma".to_vec());
}

#[test]
fn replacing_one_match_colors_the_text_anew() {
    let mut app = app_with("a b a");
    app.search.query = "a".to_owned();
    app.search.replace_query = "c".to_owned();
    app.take_effects();
    app.handle_event(EditorEvent::ReplaceOne);
    app.apply_replacement(Some((0, 1, "c".to_owned())));
    app.finish_replace(0, &vec![(4, 5)], None);
    assert_eq!(
        app.take_effects(),
        vec![
            Effect::FindReplacement,
            Effect::FindAfterReplace { at: 0 },
            Effect::Reparse,
            Effect::EditMade,
        ]
    );
    assert_eq!(app.active_buffer().to_bytes(), b"c b a".to_vec());
    assert_eq!(app.active_buffer().cursor(), 4);
}

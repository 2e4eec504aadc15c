//! Talking to a language server.

use skerry::buffer::TextBuffer;
use skerry::config::Config;
use skerry::document::{DocInfo, Document};
use skerry::edits::{apply_edits, lsp_range_to_byte_range, ByteEdit, LspEdit, LspRange, Position};
use skerry::effect::Effect;
use skerry::event::EditorEvent;
use skerry::language::{
    place_to_open, FileEdits, FormatOutcome, LocalPath, LspTarget, WorkspaceEdit,
};
use skerry::panels::CompletionItem;
use skerry::state::EditorApp;

fn doc(path: &str, content: &str) -> Document {
    Document::with_info(
        TextBuffer::from_bytes_with_path(content.as_bytes().to_vec(), path.to_owned()),
        DocInfo {
            name: path.rsplit('/').next().map(|n| n.to_owned()),
            language: Some("rust".to_owned()),
            uri: Some(format!("file://{path}")),
            project_root: None,
            rel_path: None,
            temporary: false,
        },
    )
}

fn app_with(content: &str) -> EditorApp {
    EditorApp::new_with_documents(vec![doc("/p/a.rs", content)], Config::default())
}

fn at(line: u32, character: u32) -> Position {
    Position { line, character }
}

fn edit(from: Position, to: Position, text: &str) -> LspEdit {
    LspEdit { range: LspRange { start: from, end: to }, new_text: text.to_owned() }
}

fn text_of(app: &EditorApp) -> String {
    String::from_utf8(app.active_buffer().to_bytes()).unwrap()
}

fn item(label: &str, insert: Option<&str>) -> CompletionItem {
    CompletionItem {
        label: label.to_owned(),
        detail: None,
        insert_text: insert.map(|t| t.to_owned()),
    }
}

#[test]
fn completions_are_asked_for_and_inserted() {
    let mut app = app_with("let x = ");
    app.active_buffer_mut().set_cursor(8);
    app.take_effects();
    app.handle_event(EditorEvent::LspCompletion);
    assert!(app.take_effects().contains(&Effect::LspCompletion(at(0, 8))));
    assert!(app.lsp.completion.pending);
    app.completion_arrived(Some(vec![item("len", Some("len()")), item("is_empty", None)]));
    assert!(!app.lsp.completion.pending);
    assert_eq!(app.lsp.completion.items.len(), 2);
    app.click_completion(0);
    assert_eq!(text_of(&app), "let x = len()");
    assert!(!app.lsp.completion.open);
}

#[test]
fn without_an_address_there_is_nothing_to_ask() {
    let mut app = EditorApp::new(TextBuffer::from_bytes(b"x".to_vec()));
    assert_eq!(app.lsp_cursor_position(), None);
    app.take_effects();
    app.handle_event(EditorEvent::LspGoToDefinition);
    assert_eq!(app.status_message.as_deref(), Some("LSP: definition not available."));
    assert!(app.take_effects().is_empty());
}

#[test]
fn hover_texts_are_shown() {
    let mut app = app_with("foo");
    app.handle_event(EditorEvent::LspHover);
    app.hover_arrived(Some("fn foo()".to_owned()));
    assert!(app.lsp.hover.open);
    assert_eq!(app.lsp.hover.text, "fn foo()");
    app.close_hover();
    assert!(!app.lsp.hover.open);
}

#[test]
fn definitions_are_jumped_to() {
    let mut app = app_with("a\nb\nc");
    app.handle_event(EditorEvent::LspGoToDefinition);
    assert!(app.lsp.definition.pending);
    let target = LspTarget { uri: "file:///p/a.rs".to_owned(), pos: at(2, 0) };
    app.definition_arrived(Some(Some(target)), None);
    assert!(!app.lsp.definition.pending);
    assert_eq!(app.active_buffer().cursor(), 4);
}

#[test]
fn definitions_in_other_files_open_them() {
    let mut app = app_with("a");
    app.take_effects();
    app.jump_to_lsp_location(LspTarget { uri: "file:///p/b%20c.rs".to_owned(), pos: at(1, 0) });
    let effects = app.take_effects();
    // The address is turned into the path that it stands for.
    assert!(effects.contains(&Effect::LoadFile("/p/b c.rs".to_owned())), "{effects:?}");
    assert!(effects
        .contains(&Effect::FinishJump { uri: "file:///p/b%20c.rs".to_owned(), pos: at(1, 0) }));
    app.jump_to_lsp_location(LspTarget { uri: "https://example.com/x".to_owned(), pos: at(0, 0) });
    assert_eq!(
        app.status_message.as_deref(),
        Some("LSP: definition target is not a local file.")
    );
}

#[test]
fn a_caret_that_moved_on_does_not_jump() {
    let mut app = app_with("a\nb\nc");
    app.handle_event(EditorEvent::LspGoToDefinition);
    app.active_buffer_mut().set_cursor(2);
    let target = LspTarget { uri: "file:///p/a.rs".to_owned(), pos: at(2, 0) };
    app.definition_arrived(Some(Some(target)), None);
    assert_eq!(app.active_buffer().cursor(), 2);
    assert_eq!(
        app.status_message.as_deref(),
        Some("LSP: cursor moved; definition ignored.")
    );
}

#[test]
fn command_clicks_ask_for_the_definition() {
    let mut app = app_with("foo bar");
    app.take_effects();
    let press = skerry::pointer::Press { clicked: true, dragged: false, alt: false, command: true };
    app.pointer_pressed(press, Some(4));
    assert!(app.take_effects().contains(&Effect::LspDefinition(at(0, 4))));
    assert!(app.lsp.definition.from_cmd_click);
}

#[test]
fn renames_change_the_active_document() {
    let docs = vec![doc("/p/a.rs", "foo foo"), doc("/p/b.rs", "x foo")];
    let mut app = EditorApp::new_with_documents(docs, Config::default());
    let edits = WorkspaceEdit {
        changes: Some(vec![
            FileEdits {
                uri: "file:///p/a.rs".to_owned(),
                edits: vec![edit(at(0, 0), at(0, 3), "bar"), edit(at(0, 4), at(0, 7), "bar")],
            },
            FileEdits {
                uri: "file:///p/b.rs".to_owned(),
                edits: vec![edit(at(0, 2), at(0, 5), "bar")],
            },
        ]),
    };
    assert_eq!(app.apply_workspace_edit(&edits), 2);
    assert_eq!(app.documents[0].buffer.to_bytes(), b"bar bar".to_vec());
    assert_eq!(app.documents[1].buffer.to_bytes(), b"x foo".to_vec());
}

#[test]
fn formatting_takes_the_servers_edits() {
    let mut app = app_with("fn a(){}");
    app.apply_pending_format(Some(vec![edit(at(0, 6), at(0, 6), " ")]));
    assert_eq!(text_of(&app), "fn a() {}");
}

#[test]
fn formatters_replace_the_text_or_do_not() {
    let mut app = app_with("a  b");
    app.finish_formatter(FormatOutcome::Formatted("a b".to_owned()), false);
    assert_eq!(text_of(&app), "a b");
    app.finish_formatter(FormatOutcome::Failed, false);
    assert_eq!(text_of(&app), "a b");
    app.finish_formatter(FormatOutcome::NoFormatter, false);
    assert_eq!(text_of(&app), "a b");
}

#[test]
fn edits_go_from_the_right() {
    let mut buffer = TextBuffer::from_bytes(b"one two three".to_vec());
    let edits = vec![
        ByteEdit { start: 0, end: 3, text: "1".to_owned() },
        ByteEdit { start: 4, end: 7, text: "2".to_owned() },
    ];
    assert_eq!(apply_edits(&mut buffer, &edits), 2);
    assert_eq!(buffer.to_bytes(), b"1 2 three".to_vec());
}

#[test]
fn places_of_the_server_become_positions() {
    let buffer = TextBuffer::from_bytes("ab\ncdé".as_bytes().to_vec());
    let range = LspRange { start: at(0, 1), end: at(1, 2) };
    assert_eq!(lsp_range_to_byte_range(&buffer, range), Some((1, 5)));
}

#[test]
fn a_path_that_is_not_text_is_opened_by_its_address() {
    assert_eq!(
        place_to_open(LocalPath::NotText, "file:///p/%FF.rs"),
        Some("file:///p/%FF.rs".to_owned())
    );
    assert_eq!(
        place_to_open(LocalPath::Text("/p/a.rs".to_owned()), "file:///p/a.rs"),
        Some("/p/a.rs".to_owned())
    );
    assert_eq!(place_to_open(LocalPath::Elsewhere, "https://example.com/x"), None);
    let mut app = app_with("x");
    app.take_effects();
    app.jump_to_lsp_location(LspTarget { uri: "file:///p/%FF.rs".to_owned(), pos: at(0, 0) });
    assert!(app.take_effects().contains(&Effect::LoadFile("file:///p/%FF.rs".to_owned())));
}

#[test]
fn completions_renames_and_formats_start_idle_time() {
    let mut app = app_with("foo");
    app.active_buffer_mut().set_cursor(3);
    app.handle_event(EditorEvent::LspCompletion);
    app.completion_arrived(Some(vec![item("bar", None)]));
    app.take_effects();
    app.apply_lsp_completion();
    assert_eq!(text_of(&app), "foobar");
    assert!(app.take_effects().contains(&Effect::EditMade));
    let change = FileEdits {
        uri: "file:///p/a.rs".to_owned(),
        edits: vec![edit(at(0, 0), at(0, 3), "x")],
    };
    app.apply_pending_rename(Some(WorkspaceEdit { changes: Some(vec![change]) }));
    assert_eq!(text_of(&app), "xbar");
    assert!(app.take_effects().contains(&Effect::EditMade));
    app.apply_pending_format(Some(vec![edit(at(0, 0), at(0, 1), "y")]));
    assert_eq!(text_of(&app), "ybar");
    assert!(app.take_effects().contains(&Effect::EditMade));
    app.finish_formatter(FormatOutcome::Formatted("z".to_owned()), true);
    assert_eq!(text_of(&app), "z");
    assert!(app.take_effects().contains(&Effect::EditMade));
}

#[test]
fn a_text_without_a_colon_is_no_address() {
    let mut app = app_with("a");
    app.take_effects();
    app.jump_to_lsp_location(LspTarget { uri: "/p/c.rs".to_owned(), pos: at(0, 0) });
    assert_eq!(app.take_effects(), Vec::new());
    assert_eq!(
        app.status_message.as_deref(),
        Some("LSP: definition target is not a local file.")
    );
}

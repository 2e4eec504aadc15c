//! Which text a preview is of.

use skerry::buffer::TextBuffer;
use skerry::config::Config;
use skerry::document::{DocInfo, Document};
use skerry::event::EditorEvent;
use skerry::files::FileContent;
use skerry::modes::{CsvPreviewMode, MarkdownPreviewMode};
use skerry::state::EditorApp;

fn info(language: &str) -> DocInfo {
    DocInfo {
        name: None,
        language: Some(language.to_owned()),
        uri: None,
        project_root: None,
        rel_path: None,
        temporary: false,
    }
}

fn doc(language: &str, text: &str) -> Document {
    Document::with_info(TextBuffer::from_bytes(text.as_bytes().to_vec()), info(language))
}

fn ids(app: &EditorApp) -> Vec<u64> {
    app.documents.iter().map(|d| d.id()).collect()
}

fn shown(app: &mut EditorApp) -> String {
    app.refresh_markdown();
    let blocks = &app.previews.markdown.blocks;
    blocks.iter().flat_map(|b| b.spans.iter()).map(|s| s.text.as_str()).collect()
}

#[test]
fn documents_are_numbered_in_their_order() {
    let docs = vec![doc("markdown", "a"), doc("csv", "b"), doc("rust", "c")];
    let mut app = EditorApp::new_with_documents(docs, Config::default());
    assert_eq!(ids(&app), vec![0, 1, 2]);
    app.handle_event(EditorEvent::NewDoc);
    assert_eq!(ids(&app), vec![0, 1, 2, 3]);
    app.handle_event(EditorEvent::NewDoc);
    assert_eq!(ids(&app), vec![0, 1, 2, 3, 4]);
}

#[test]
fn a_preview_is_of_the_document_in_focus() {
    let docs = vec![doc("markdown", "first"), doc("markdown", "second")];
    let mut app = EditorApp::new_with_documents(docs, Config::default());
    app.set_markdown_preview_mode(MarkdownPreviewMode::Split);
    assert_eq!(shown(&mut app), "first");
    app.handle_event(EditorEvent::NextDoc);
    assert_eq!(shown(&mut app), "second");
    app.handle_event(EditorEvent::Insert('a'));
    assert_eq!(shown(&mut app), "asecond");
    app.handle_event(EditorEvent::Undo);
    assert_eq!(shown(&mut app), "second");
}

#[test]
fn the_number_of_a_previewed_document_is_not_given_again() {
    let docs = vec![doc("markdown", "first"), doc("markdown", "second")];
    let mut app = EditorApp::new_with_documents(docs, Config::default());
    app.set_markdown_preview_mode(MarkdownPreviewMode::Split);
    app.handle_event(EditorEvent::NextDoc);
    assert_eq!(shown(&mut app), "second");
    app.handle_event(EditorEvent::ForceCloseDoc);
    assert_eq!(ids(&app), vec![0]);
    app.handle_event(EditorEvent::NewDoc);
    assert_eq!(ids(&app), vec![0, 2]);
}

#[test]
fn a_file_that_is_read_again_is_shown_anew() {
    let text = TextBuffer::from_bytes_with_path(b"old".to_vec(), "/p/a.md".to_owned());
    let docs = vec![Document::with_info(text, info("markdown"))];
    let mut app = EditorApp::new_with_documents(docs, Config::default());
    app.set_markdown_preview_mode(MarkdownPreviewMode::Split);
    assert_eq!(shown(&mut app), "old");
    let new = FileContent::Bytes(b"new".to_vec());
    app.file_reloaded("/p/a.md".to_owned(), info("markdown"), new);
    assert_eq!(shown(&mut app), "new");
    let other = FileContent::Bytes(b"other".to_vec());
    app.file_loaded("/p/b.md".to_owned(), info("markdown"), other);
    assert_eq!(shown(&mut app), "other");
}

#[test]
fn a_table_is_of_the_document_in_focus() {
    let docs = vec![doc("csv", "a,b\n"), doc("csv", "c,d\n")];
    let mut app = EditorApp::new_with_documents(docs, Config::default());
    app.set_csv_preview_mode(CsvPreviewMode::Table);
    app.refresh_table();
    assert_eq!(app.previews.csv.rows[0], vec!["a".to_owned(), "b".to_owned()]);
    app.handle_event(EditorEvent::NextDoc);
    app.refresh_table();
    assert_eq!(app.previews.csv.rows[0], vec!["c".to_owned(), "d".to_owned()]);
}

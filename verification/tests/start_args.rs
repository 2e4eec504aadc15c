//! The arguments of the program.

use skerry::args::{load_document, load_documents, parse_position_arg, StartFile};
use skerry::config::Config;
use skerry::document::DocInfo;
use skerry::files::FileContent;

fn info() -> DocInfo {
    DocInfo {
        name: None,
        language: None,
        uri: None,
        project_root: None,
        rel_path: None,
        temporary: false,
    }
}

fn file(path: &str, content: FileContent, position: Option<(usize, Option<usize>)>) -> StartFile {
    StartFile { path: path.to_owned(), position, info: info(), content }
}

#[test]
fn main_plain_path_has_no_position() {
    let (path, line, col) = parse_position_arg("src/main.rs", false);
    assert_eq!(path, "src/main.rs");
    assert_eq!((line, col), (None, None));
}

#[test]
fn main_line_and_line_col_suffixes_parse() {
    let (path, line, col) = parse_position_arg("src/main.rs:42", false);
    assert_eq!(path, "src/main.rs");
    assert_eq!((line, col), (Some(42), None));

    let (path, line, col) = parse_position_arg("src/main.rs:42:7", false);
    assert_eq!(path, "src/main.rs");
    assert_eq!((line, col), (Some(42), Some(7)));
}

#[test]
fn main_existing_file_with_colon_wins_as_literal() {
    let (path, line, col) = parse_position_arg("dir/weird:12", true);
    assert_eq!(path, "dir/weird:12");
    assert_eq!((line, col), (None, None));
}

#[test]
fn main_non_numeric_suffix_stays_literal() {
    let (path, line, col) = parse_position_arg("https://example.com/x", false);
    assert_eq!(path, "https://example.com/x");
    assert_eq!((line, col), (None, None));
    let (path, line, col) = parse_position_arg("foo:", false);
    assert_eq!(path, "foo:");
    assert_eq!((line, col), (None, None));
}

#[test]
fn main_load_document_positions_cursor() {
    let defaults = Config::default().document_defaults;
    let doc = load_document(
        file("a.txt", FileContent::Bytes(b"one\ntwo\nthree".to_vec()), Some((3, None))),
        defaults,
    );
    assert_eq!(doc.buffer.line_text(2).unwrap(), "three");
    assert_eq!(doc.buffer.cursor(), doc.buffer.line_byte_range(2).unwrap().start);
}

#[test]
fn odd_suffixes_stay_literal() {
    assert_eq!(parse_position_arg(":12", false), (":12".to_owned(), None, None));
    assert_eq!(parse_position_arg("a::12", false), ("a::12".to_owned(), None, None));
    assert_eq!(parse_position_arg("a:b:12", false), ("a:b:12".to_owned(), None, None));
    assert_eq!(parse_position_arg(":1:2", false), (":1:2".to_owned(), None, None));
}

#[test]
fn numbers_that_are_too_large_count_as_one() {
    let (path, line, col) = parse_position_arg("a:99999999999999999999999:3", false);
    assert_eq!(path, "a");
    assert_eq!((line, col), (Some(1), Some(3)));
}

#[test]
fn positions_beyond_the_text_are_clamped() {
    let defaults = Config::default().document_defaults;
    let doc = load_document(
        file("a.txt", FileContent::Bytes(b"one\ntwo".to_vec()), Some((99, Some(99)))),
        defaults,
    );
    assert_eq!(doc.buffer.cursor(), 7);
    let doc = load_document(
        file("a.txt", FileContent::Bytes(b"one\ntwo".to_vec()), Some((0, Some(2)))),
        defaults,
    );
    assert_eq!(doc.buffer.cursor(), 1);
}

#[test]
fn files_that_are_missing_or_unreadable_start_empty() {
    let defaults = Config::default().document_defaults;
    let docs = load_documents(
        vec![
            file("new.txt", FileContent::Missing, None),
            file("locked.txt", FileContent::Unreadable("no".to_owned()), None),
        ],
        defaults,
    );
    assert_eq!(docs.len(), 2);
    assert_eq!(docs[0].path().map(|p| p.as_str()), Some("new.txt"));
    assert_eq!(docs[1].path(), None);
    assert!(docs[0].buffer.is_empty() && docs[1].buffer.is_empty());
    assert_eq!(docs[0].id(), 0);
}

#[test]
fn without_files_there_is_one_empty_document() {
    let docs = load_documents(Vec::new(), Config::default().document_defaults);
    assert_eq!(docs.len(), 1);
    assert!(docs[0].buffer.is_empty());
    assert_eq!(docs[0].path(), None);
}

#[test]
fn plain_path_has_no_position() {
    let (path, line, col) = parse_position_arg("src/main.rs", false);
    assert_eq!(path, "src/main.rs");
    assert_eq!((line, col), (None, None));
}

#[test]
fn line_and_line_col_suffixes_parse() {
    let (path, line, col) = parse_position_arg("src/main.rs:42", false);
    assert_eq!(path, "src/main.rs");
    assert_eq!((line, col), (Some(42), None));

    let (path, line, col) = parse_position_arg("src/main.rs:42:7", false);
    assert_eq!(path, "src/main.rs");
    assert_eq!((line, col), (Some(42), Some(7)));
}

#[test]
fn non_numeric_suffix_stays_literal() {
    // URLs contain colons but no numeric suffix.
    let (path, line, col) = parse_position_arg("https://example.com/x", false);
    assert_eq!(path, "https://example.com/x");
    assert_eq!((line, col), (None, None));
    // Trailing colon with empty line.
    let (path, line, col) = parse_position_arg("foo:", false);
    assert_eq!(path, "foo:");
    assert_eq!((line, col), (None, None));
}

//! Words in a line.

use skerry::buffer::TextBuffer;
use skerry::event::EditorEvent;
use skerry::motion::{skip_word_right, Movement};
use skerry::occurrences::word_range_at_char_col;
use skerry::state::EditorApp;

fn buffer(text: &str) -> TextBuffer {
    TextBuffer::from_bytes(text.as_bytes().to_vec())
}

#[test]
fn word_range_finds_identifier_at_col() {
    let line = "let foo_bar = 42;";
    // "foo_bar" starts at char column 4.
    assert_eq!(word_range_at_char_col(line, 6), (4, 11));
}

#[test]
fn word_range_uses_preceding_identifier_when_after_token() {
    let line = "let foo = 42;";
    // Column 7 is the space immediately after "foo".
    assert_eq!(word_range_at_char_col(line, 7), (4, 7));
}

#[test]
fn word_range_returns_empty_for_non_identifier() {
    let line = "let foo = 42;";
    // Column 9 is the space between '=' and '42'; neither side is
    // an identifier, so no token is selected.
    assert_eq!(word_range_at_char_col(line, 9), (9, 9));
}

#[test]
fn word_range_handles_empty_line() {
    assert_eq!(word_range_at_char_col("", 0), (0, 0));
}

#[test]
fn word_range_knows_letters_beyond_ascii() {
    assert_eq!(word_range_at_char_col("größe = 1", 2), (0, 5));
    assert_eq!(word_range_at_char_col("a — b", 2), (2, 2));
}

#[test]
fn a_word_is_left_at_its_end_even_at_the_end_of_the_line() {
    let b = buffer("foo\nbar");
    assert_eq!(skip_word_right(&b, 0), 3);
    assert_eq!(skip_word_right(&b, 2), 3);
    assert_eq!(skip_word_right(&b, 3), 4);
    assert_eq!(skip_word_right(&b, 4), 7);
}

#[test]
fn blanks_before_the_end_of_the_line_are_crossed() {
    let b = buffer("foo  \nbar");
    assert_eq!(skip_word_right(&b, 0), 3);
    assert_eq!(skip_word_right(&b, 3), 6);
}

#[test]
fn deleting_a_word_keeps_the_line_break() {
    let mut app = EditorApp::new(buffer("foo\nbar"));
    app.handle_event(EditorEvent::DeleteWordRight);
    assert_eq!(app.active_buffer().to_bytes(), b"\nbar".to_vec());
    let mut app = EditorApp::new(buffer("foo\nbar"));
    app.handle_event(EditorEvent::Move(Movement::WordRight));
    assert_eq!(app.active_buffer().cursor(), 3);
}

//! What holds of texts, carets and lists.

use skerry::buffer::{BufferError, Selection, TextBuffer};
use skerry::columns::{byte_to_char_col, char_col_to_byte_col};
use skerry::editing::{char_after, char_before, matching_close, matching_open};
use skerry::event::{EditorEvent, KeybindingMode};
use skerry::lines::line_count;
use skerry::modes::{CsvPreviewMode, MarkdownPreviewMode};
use skerry::motion::{move_left_by_char, move_right_by_char};
use skerry::occurrences::{find, word_at_cursor};
use skerry::order::{sorted_indices, sorted_unique};
use skerry::panels::{add_recent, clamp_row, CloseChoice, FuzzyCandidate};
use skerry::state::EditorApp;
use skerry::text::{is_word_char, parse_usize};

fn buffer(text: &str) -> TextBuffer {
    TextBuffer::from_bytes(text.as_bytes().to_vec())
}

#[test]
fn undo_takes_an_edit_back_and_redo_repeats_it() {
    let mut b = buffer("hello");
    b.insert(5, "!").unwrap();
    b.delete(0, 1).unwrap();
    assert_eq!(b.to_bytes(), b"ello!".to_vec());
    assert!(b.undo());
    assert!(b.undo());
    assert_eq!(b.to_bytes(), b"hello".to_vec());
    assert!(!b.undo());
    assert!(b.redo());
    assert!(b.redo());
    assert_eq!(b.to_bytes(), b"ello!".to_vec());
    assert!(!b.redo());
}

#[test]
fn edits_outside_the_text_are_refused() {
    let mut b = buffer("abc");
    assert_eq!(b.delete(2, 9), Err(BufferError::OutOfRange));
    assert_eq!(b.delete(2, 1), Err(BufferError::OutOfRange));
    assert_eq!(b.insert(4, "x"), Err(BufferError::OutOfRange));
    assert_eq!(b.to_bytes(), b"abc".to_vec());
    assert!(!BufferError::OutOfRange.message().is_empty());
}

#[test]
fn revisions_count_edits() {
    let mut b = buffer("");
    let before = b.revision();
    b.insert(0, "x").unwrap();
    assert_ne!(b.revision(), before);
    assert!(b.is_dirty());
    b.mark_saved();
    assert!(!b.is_dirty());
}

#[test]
fn lines_and_positions_agree() {
    let b = buffer("ab\n\ncd");
    assert_eq!(b.line_count(), 3);
    assert_eq!(line_count(&b"ab\n\ncd".to_vec()), 3);
    assert_eq!(b.line_byte_range(1), Some(3..3));
    assert_eq!(b.line_byte_range(3), None);
    assert_eq!(b.line_text(2).as_deref(), Some("cd"));
    for pos in 0..=b.len() {
        let (line, col) = b.pos_to_linecol(pos).unwrap();
        assert_eq!(b.linecol_to_pos(line, col), Some(pos));
    }
    assert_eq!(b.pos_to_linecol(7), None);
    assert_eq!(b.linecol_to_pos(0, 3), None);
}

#[test]
fn text_that_is_no_utf8_has_no_line_text() {
    let b = TextBuffer::from_bytes(b"ok\n\xFF".to_vec());
    assert_eq!(b.line_text(0).as_deref(), Some("ok"));
    assert_eq!(b.line_text(1), None);
    assert_eq!(b.shown_line(1), "\u{FFFD}");
}

#[test]
fn columns_go_there_and_back() {
    let text = "aé猫b";
    for col in 0..=4 {
        let byte = char_col_to_byte_col(text, col);
        assert_eq!(byte_to_char_col(text, byte), col);
    }
    assert_eq!(char_col_to_byte_col(text, 9), 7);
}

#[test]
fn left_and_right_undo_each_other() {
    let b = buffer("aé猫b");
    let mut pos = 0;
    while pos < b.len() {
        let next = move_right_by_char(&b, pos);
        assert_eq!(move_left_by_char(&b, next), pos);
        pos = next;
    }
    assert_eq!(move_right_by_char(&b, b.len()), b.len());
    assert_eq!(move_left_by_char(&b, 0), 0);
}

#[test]
fn pairs_match() {
    for (open, close) in [('(', ')'), ('[', ']'), ('{', '}')] {
        assert_eq!(matching_close(open), Some(close));
        assert_eq!(matching_open(close), Some(open));
    }
    assert_eq!(matching_close('x'), None);
    let b = buffer("é(");
    assert_eq!(char_before(&b, 2), Some('é'));
    assert_eq!(char_after(&b, 2), Some('('));
    assert_eq!(char_after(&b, 3), None);
}

#[test]
fn pairs_are_typed_together() {
    let mut app = EditorApp::new(buffer(""));
    app.handle_event(EditorEvent::Insert('('));
    assert_eq!(app.active_buffer().to_bytes(), b"()".to_vec());
    assert_eq!(app.active_buffer().cursor(), 1);
    app.handle_event(EditorEvent::Insert(')'));
    assert_eq!(app.active_buffer().to_bytes(), b"()".to_vec());
    assert_eq!(app.active_buffer().cursor(), 2);
}

#[test]
fn undo_takes_typing_back() {
    let mut app = EditorApp::new(buffer("ab"));
    app.handle_event(EditorEvent::Insert('x'));
    app.handle_event(EditorEvent::Undo);
    assert_eq!(app.active_buffer().to_bytes(), b"ab".to_vec());
    app.handle_event(EditorEvent::Redo);
    assert_eq!(app.active_buffer().to_bytes(), b"xab".to_vec());
}

#[test]
fn tabs_follow_the_indent_mode() {
    let mut app = EditorApp::new(buffer(""));
    app.handle_event(EditorEvent::SetIndentMode { use_spaces: true, tab_width: 2 });
    app.handle_event(EditorEvent::InsertTab);
    assert_eq!(app.active_buffer().to_bytes(), b"  ".to_vec());
    app.handle_event(EditorEvent::SetIndentMode { use_spaces: false, tab_width: 4 });
    app.handle_event(EditorEvent::InsertTab);
    assert_eq!(app.active_buffer().to_bytes(), b"  \t".to_vec());
}

#[test]
fn occurrences_are_found_from_the_left() {
    let b = buffer("abcabc");
    assert_eq!(find(&b, b"bc", 0), Some(1));
    assert_eq!(find(&b, b"bc", 2), Some(4));
    assert_eq!(find(&b, b"bc", 5), None);
    let mut b = buffer("let foo_1 = 2;");
    b.set_cursor(6);
    assert_eq!(word_at_cursor(&b).as_deref(), Some("foo_1"));
    b.set_cursor(3);
    assert_eq!(word_at_cursor(&b).as_deref(), Some("let"));
}

#[test]
fn sorting_is_stable() {
    assert_eq!(sorted_indices(&vec![5, 3, 5, 1], false), vec![3, 1, 0, 2]);
    assert_eq!(sorted_unique(&vec![4, 2, 4, 1]), vec![1, 2, 4]);
}

#[test]
fn selections_are_kept_inside_the_text() {
    let mut b = buffer("abc");
    b.set_selection(Selection { anchor: 9, head: 2 });
    assert_eq!(b.selection(), Selection { anchor: 3, head: 2 });
    assert_eq!(b.selection().range(), 2..3);
}

#[test]
fn modes_have_labels_that_read_back() {
    for mode in MarkdownPreviewMode::all() {
        assert_eq!(MarkdownPreviewMode::from_label(mode.label()), Some(mode));
        assert_eq!(mode.next().next().next(), mode);
    }
    for mode in CsvPreviewMode::all() {
        assert_eq!(CsvPreviewMode::from_label(mode.label()), Some(mode));
    }
    assert_eq!(MarkdownPreviewMode::from_label("Nope"), None);
    assert_eq!(KeybindingMode::Emacs.label(), "Emacs");
}

#[test]
fn rows_and_choices_stay_in_their_lists() {
    assert_eq!(clamp_row(5, 3), 2);
    assert_eq!(clamp_row(1, 3), 1);
    assert_eq!(clamp_row(1, 0), 0);
    assert_eq!(CloseChoice::Save.cycle(1).cycle(-1), CloseChoice::Save);
    assert_eq!(CloseChoice::Save.cycle(0), CloseChoice::Cancel);
}

#[test]
fn recent_files_are_offered_once() {
    let mut items = vec![FuzzyCandidate { display: "a".to_owned(), path: "/p/a".to_owned() }];
    add_recent(&mut items, &vec!["/p/a".to_owned(), "/q/b".to_owned(), "/q/b".to_owned()]);
    let paths: Vec<&str> = items.iter().map(|c| c.path.as_str()).collect();
    assert_eq!(paths, vec!["/p/a", "/q/b"]);
}

#[test]
fn numbers_and_words_are_read() {
    assert_eq!(parse_usize("+12"), Some(12));
    assert_eq!(parse_usize(""), None);
    assert_eq!(parse_usize("1x"), None);
    assert_eq!(parse_usize("99999999999999999999999"), None);
    assert!(is_word_char('é') && is_word_char('_') && is_word_char('7'));
    assert!(!is_word_char('-') && !is_word_char('—'));
}

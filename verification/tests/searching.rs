//! Literal search and replacement, and the start and end of a session.

use skerry::buffer::TextBuffer;
use skerry::config::Config;
use skerry::document::{DocInfo, Document};
use skerry::effect::Effect;
use skerry::event::EditorEvent;
use skerry::frame::initial_size;
use skerry::line_ops::{delete_current_line, duplicate_current_line, move_current_line};
use skerry::matching::{find_places, replace_places};
use skerry::search::Search;
use skerry::state::EditorApp;

fn buffer(text: &str) -> TextBuffer {
    TextBuffer::from_bytes(text.as_bytes().to_vec())
}

fn project_doc(name: &str) -> Document {
    let info = DocInfo {
        name: Some(name.to_owned()),
        language: None,
        uri: None,
        project_root: Some("/p".to_owned()),
        rel_path: Some(name.to_owned()),
        temporary: false,
    };
    let text = TextBuffer::from_bytes_with_path(b"x".to_vec(), format!("/p/{name}"));
    Document::with_info(text, info)
}

#[test]
fn places_are_found_from_left_to_right() {
    let b = buffer("one two One");
    assert_eq!(find_places(&b, b"one", true, false), vec![(0, 3)]);
    assert_eq!(find_places(&b, b"one", false, false), vec![(0, 3), (8, 11)]);
    assert_eq!(find_places(&b, b"", false, false), Vec::new());
    assert_eq!(find_places(&buffer(""), b"a", false, false), Vec::new());
}

#[test]
fn places_do_not_lie_inside_one_another() {
    assert_eq!(find_places(&buffer("aaaaa"), b"aa", true, false), vec![(0, 2), (2, 4)]);
}

#[test]
fn whole_words_stand_alone() {
    let b = buffer("cat concat cat_ cat");
    assert_eq!(find_places(&b, b"cat", true, true), vec![(0, 3), (16, 19)]);
    assert_eq!(find_places(&buffer("caté cat"), b"cat", true, true), vec![(6, 9)]);
}

#[test]
fn all_places_are_replaced() {
    let b = buffer("a-b-c");
    let found = find_places(&b, b"-", true, false);
    assert_eq!(replace_places(&b, &found, "::"), Some("a::b::c".to_owned()));
    assert_eq!(replace_places(&b, &Vec::new(), "x"), Some("a-b-c".to_owned()));
}

#[test]
fn text_that_is_not_utf8_is_not_replaced() {
    let b = TextBuffer::from_bytes(vec![0xff, b'a']);
    assert_eq!(replace_places(&b, &vec![(1, 2)], "b"), None);
}

#[test]
fn the_window_starts_with_the_size_it_had() {
    assert_eq!(initial_size(Some(1024), Some(768)), (1024, 768));
    assert_eq!(initial_size(Some(1024), None), (800, 600));
    assert_eq!(initial_size(None, None), (800, 600));
}

#[test]
fn the_size_of_the_window_is_noted() {
    let mut app = EditorApp::new(buffer("x"));
    app.set_window_size(640, 480);
    assert_eq!((app.config.window_width, app.config.window_height), (Some(640), Some(480)));
}

#[test]
fn leaving_remembers_the_session() {
    let mut app =
        EditorApp::new_with_documents(vec![project_doc("a.txt")], Config::default());
    app.take_effects();
    app.ui.settings_dirty = true;
    app.leave();
    assert!(!app.ui.settings_dirty);
    assert_eq!(app.config.recent_files, vec!["/p/a.txt".to_owned()]);
    assert!(app.take_effects().contains(&Effect::SaveConfig));
}

#[test]
fn the_tree_follows_the_focus() {
    let docs = vec![project_doc("a.txt"), project_doc("b.txt")];
    let mut app = EditorApp::new_with_documents(docs, Config::default());
    app.ui.project_tree_open = true;
    app.ui.prev_active = app.active();
    app.take_effects();
    app.follow_active();
    assert!(app.take_effects().is_empty());
    app.click_tab(1);
    app.follow_active();
    assert!(!app.take_effects().is_empty());
}

#[test]
fn a_moved_line_moves_back() {
    let mut b = buffer("one\ntwo\nthree\n");
    b.set_cursor(1);
    move_current_line(&mut b, false);
    assert_eq!(b.to_bytes(), b"two\none\nthree\n".to_vec());
    move_current_line(&mut b, true);
    assert_eq!(b.to_bytes(), b"one\ntwo\nthree\n".to_vec());
    assert_eq!(b.cursor(), 0);
}

#[test]
fn a_last_line_changes_places_with_its_newline() {
    let mut b = buffer("alpha\nbeta");
    b.set_cursor(2);
    move_current_line(&mut b, false);
    assert_eq!(b.to_bytes(), b"beta\nalpha".to_vec());
    assert_eq!(b.cursor(), 5);
    assert_eq!(b.line_count(), 2);
    move_current_line(&mut b, true);
    assert_eq!(b.to_bytes(), b"alpha\nbeta".to_vec());
    assert_eq!(b.cursor(), 0);
    assert!(b.undo());
    assert_eq!(b.to_bytes(), b"beta\nalpha".to_vec());
}

#[test]
fn an_empty_last_line_moves_too() {
    let mut b = buffer("one\ntwo\n");
    b.set_cursor(8);
    move_current_line(&mut b, true);
    assert_eq!(b.to_bytes(), b"one\n\ntwo".to_vec());
    assert_eq!(b.cursor(), 4);
}

#[test]
fn deleting_undoes_duplicating() {
    for pos in [0, 5, 9] {
        let mut b = buffer("one\ntwo\nthree");
        b.set_cursor(pos);
        assert!(duplicate_current_line(&mut b).is_ok());
        assert_ne!(b.to_bytes(), b"one\ntwo\nthree".to_vec());
        delete_current_line(&mut b);
        assert_eq!(b.to_bytes(), b"one\ntwo\nthree".to_vec());
    }
}

#[test]
fn matches_come_in_turn() {
    let mut s = Search::new();
    s.set_matches(&vec![(1, 2), (4, 5), (9, 10)], None);
    assert_eq!(s.next_after(1), Some(4));
    assert_eq!(s.next_after(4), Some(9));
    assert_eq!(s.next_after(9), Some(1));
    assert_eq!(s.prev_before(1), Some(9));
    assert_eq!(s.prev_before(9), Some(4));
}

#[test]
fn indents_cycle_and_wrap_switches_back() {
    let mut app = EditorApp::new(buffer("x"));
    let before = app.active_doc().view;
    let mut widths = Vec::new();
    for _ in 0..4 {
        app.handle_event(EditorEvent::CycleIndentMode);
        let view = app.active_doc().view;
        widths.push((view.use_spaces, view.tab_width));
    }
    assert_eq!(widths, vec![(true, 8), (false, 4), (true, 2), (true, 4)]);
    app.handle_event(EditorEvent::ToggleSoftWrap);
    assert_ne!(app.active_doc().view, before);
    app.handle_event(EditorEvent::ToggleSoftWrap);
    assert_eq!(app.active_doc().view, before);
}

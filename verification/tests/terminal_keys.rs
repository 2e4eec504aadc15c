//! Keys and the mouse in the terminal.

use skerry::buffer::{Selection, TextBuffer};
use skerry::event::{
    classify_clipboard_key, translate_key, translate_mouse, ClipboardAction, EditorEvent, KeyCode,
    KeyEvent, MouseKind,
};
use skerry::motion::Movement;
use skerry::state::EditorApp;

fn key(code: KeyCode) -> KeyEvent {
    KeyEvent { code, ctrl: false, shift: false, alt: false }
}

fn with_ctrl(code: KeyCode) -> KeyEvent {
    KeyEvent { ctrl: true, ..key(code) }
}

fn key_ctrl(c: char) -> KeyEvent {
    with_ctrl(KeyCode::Char(c))
}

fn key_shift(code: KeyCode) -> KeyEvent {
    KeyEvent { shift: true, ..key(code) }
}

fn key_alt(code: KeyCode) -> KeyEvent {
    KeyEvent { alt: true, ..key(code) }
}

fn buf_with(text: &str) -> TextBuffer {
    TextBuffer::from_bytes(text.as_bytes().to_vec())
}

fn app_with(content: &str) -> EditorApp {
    EditorApp::new(buf_with(content))
}

#[test]
fn printable_char_inserts() {
    assert_eq!(translate_key(key(KeyCode::Char('a')), None), Some(EditorEvent::Insert('a')));
}

#[test]
fn enter_inserts_newline() {
    assert_eq!(translate_key(key(KeyCode::Enter), None), Some(EditorEvent::Insert('\n')));
}

#[test]
fn backspace_deletes_left() {
    assert_eq!(translate_key(key(KeyCode::Backspace), None), Some(EditorEvent::DeleteLeft));
}

#[test]
fn delete_deletes_right() {
    assert_eq!(translate_key(key(KeyCode::Delete), None), Some(EditorEvent::DeleteRight));
}

#[test]
fn arrows_move() {
    assert_eq!(translate_key(key(KeyCode::Left), None), Some(EditorEvent::Move(Movement::Left)));
    assert_eq!(translate_key(key(KeyCode::Right), None), Some(EditorEvent::Move(Movement::Right)));
    assert_eq!(translate_key(key(KeyCode::Up), None), Some(EditorEvent::Move(Movement::Up)));
    assert_eq!(translate_key(key(KeyCode::Down), None), Some(EditorEvent::Move(Movement::Down)));
}

#[test]
fn shift_arrows_extend_selection() {
    assert_eq!(translate_key(key_shift(KeyCode::Up), None), Some(EditorEvent::SelectExtend(Movement::Up)));
    assert_eq!(translate_key(key_shift(KeyCode::Down), None), Some(EditorEvent::SelectExtend(Movement::Down)));
}

#[test]
fn shift_left_right_scrolls_horizontally() {
    assert_eq!(translate_key(key_shift(KeyCode::Left), None), Some(EditorEvent::ScrollLeft));
    assert_eq!(translate_key(key_shift(KeyCode::Right), None), Some(EditorEvent::ScrollRight));
}

#[test]
fn ctrl_s_saves() {
    assert_eq!(translate_key(key_ctrl('s'), None), Some(EditorEvent::Save));
}

#[test]
fn ctrl_q_quits() {
    assert_eq!(translate_key(key_ctrl('q'), None), Some(EditorEvent::Quit));
}

#[test]
fn ctrl_z_undoes() {
    assert_eq!(translate_key(key_ctrl('z'), None), Some(EditorEvent::Undo));
}

#[test]
fn ctrl_y_redoes() {
    assert_eq!(translate_key(key_ctrl('y'), None), Some(EditorEvent::Redo));
}

#[test]
fn ctrl_t_opens_new_doc() {
    assert_eq!(translate_key(key_ctrl('t'), None), Some(EditorEvent::NewDoc));
}

#[test]
fn ctrl_w_closes_active_doc() {
    assert_eq!(translate_key(key_ctrl('w'), None), Some(EditorEvent::CloseDoc));
}

#[test]
fn ctrl_i_translates_to_cycle_indent_mode() {
    assert_eq!(translate_key(key_ctrl('i'), None), Some(EditorEvent::CycleIndentMode));
}

#[test]
fn ctrl_g_opens_go_to_line() {
    assert_eq!(translate_key(key_ctrl('g'), None), Some(EditorEvent::GoToLine(None)));
}

#[test]
fn escape_collapses_cursor_state() {
    assert_eq!(translate_key(key(KeyCode::Esc), None), Some(EditorEvent::CollapseCursors));
}

#[test]
fn unmapped_key_returns_none() {
    assert_eq!(translate_key(key(KeyCode::F(1)), None), None);
}

#[test]
fn ctrl_tab_cycles_next_doc() {
    assert_eq!(translate_key(with_ctrl(KeyCode::Tab), None), Some(EditorEvent::NextDoc));
}

#[test]
fn ctrl_shift_tab_cycles_prev_doc() {
    assert_eq!(translate_key(KeyEvent { shift: true, ..with_ctrl(KeyCode::Tab) }, None), Some(EditorEvent::PrevDoc));
}

#[test]
fn plain_tab_inserts_indent_not_doc_event() {
    assert_eq!(translate_key(key(KeyCode::Tab), None), Some(EditorEvent::InsertTab));
}

#[test]
fn f5_translates_to_cycle_theme() {
    assert_eq!(translate_key(key(KeyCode::F(5)), None), Some(EditorEvent::CycleTheme));
}

#[test]
fn ctrl_arrows_move_by_word() {
    assert_eq!(translate_key(with_ctrl(KeyCode::Left), None), Some(EditorEvent::Move(Movement::WordLeft)));
    assert_eq!(translate_key(with_ctrl(KeyCode::Right), None), Some(EditorEvent::Move(Movement::WordRight)));
}

#[test]
fn ctrl_home_end_jump_to_document_edges() {
    assert_eq!(translate_key(with_ctrl(KeyCode::Home), None), Some(EditorEvent::Move(Movement::DocumentStart)));
    assert_eq!(translate_key(with_ctrl(KeyCode::End), None), Some(EditorEvent::Move(Movement::DocumentEnd)));
}

#[test]
fn alt_r_in_find_bar_toggles_regex() {
    let mut app = app_with("hello world");
    app.handle_event(EditorEvent::FindOpen);
    assert_eq!(
        translate_key(key_alt(KeyCode::Char('r')), Some(&app.key_context(false))),
        Some(EditorEvent::ToggleFindRegex)
    );
}

#[test]
fn text_dialogs_do_not_swallow_quit_or_close_shortcuts() {
    let mut app = app_with("hello world");

    app.handle_event(EditorEvent::FindOpen);
    assert_eq!(
        translate_key(key_ctrl('q'), Some(&app.key_context(false))),
        Some(EditorEvent::Quit)
    );

    app.handle_event(EditorEvent::ReplaceOpen);
    assert_eq!(
        translate_key(key_ctrl('w'), Some(&app.key_context(false))),
        Some(EditorEvent::CloseDoc)
    );

    app.handle_event(EditorEvent::FindClose);
    app.handle_event(EditorEvent::ProjectSearch(None));
    assert_eq!(
        translate_key(key_ctrl('q'), Some(&app.key_context(false))),
        Some(EditorEvent::Quit)
    );
}

#[test]
fn left_click_translates_to_set_cursor() {
    let app = app_with("hello\nworld");
    // Click on row 2 ("world"), col 4 (gutter end), expect byte 6.
    let ev = translate_mouse(MouseKind::LeftDown, app.cell_position(0, 2, 4));
    match ev {
        Some(EditorEvent::SetCursor { pos }) => assert_eq!(pos, 6),
        _ => panic!("expected SetCursor, got {ev:?}"),
    }
}

#[test]
fn left_drag_translates_to_select_extend_to() {
    let mut app = app_with("hello\nworld");
    // First click sets the anchor.
    let pos = app.cell_position(0, 2, 0).unwrap();
    app.handle_event(EditorEvent::SetCursor { pos });
    // Drag to col 8 (gutter=5 → text col 3 = 'r' in 'world' = byte 9).
    let ev = translate_mouse(MouseKind::LeftDrag, app.cell_position(0, 2, 8));
    match ev {
        Some(EditorEvent::SelectExtendTo { pos }) => assert_eq!(pos, 9),
        _ => panic!("expected SelectExtendTo, got {ev:?}"),
    }
}

#[test]
fn right_click_returns_none() {
    let app = app_with("hello");
    assert!(translate_mouse(MouseKind::Other, app.cell_position(0, 1, 5)).is_none());
}

#[test]
fn scroll_returns_none() {
    let app = app_with("hello");
    assert!(translate_mouse(MouseKind::Other, app.cell_position(0, 1, 5)).is_none());
}

#[test]
fn release_returns_none() {
    // Up is intentionally ignored — selection is finalized at last drag.
    let app = app_with("hello");
    assert!(translate_mouse(MouseKind::Other, app.cell_position(0, 1, 5)).is_none());
}

#[test]
fn the_header_row_is_no_place_in_the_text() {
    let app = app_with("hello");
    assert_eq!(app.cell_position(0, 0, 7), None);
    assert!(translate_mouse(MouseKind::LeftDown, None).is_none());
    assert_eq!(app.cell_position(0, 9, 0), Some(5));
    assert_eq!(app.cell_position(3, 1, 0), Some(5));
}

#[test]
fn ctrl_c_with_selection_returns_copy_action() {
    let mut buf = buf_with("hello world");
    buf.set_selection(Selection { anchor: 0, head: 5 });
    assert_eq!(
        classify_clipboard_key(key_ctrl('c'), &buf),
        Some(ClipboardAction::Copy("hello".to_string()))
    );
}

#[test]
fn ctrl_x_with_selection_returns_cut_action() {
    let mut buf = buf_with("hello world");
    buf.set_selection(Selection { anchor: 0, head: 5 });
    assert_eq!(
        classify_clipboard_key(key_ctrl('x'), &buf),
        Some(ClipboardAction::Cut("hello".to_string()))
    );
}

#[test]
fn ctrl_c_without_selection_returns_none() {
    let buf = buf_with("hello");
    assert_eq!(classify_clipboard_key(key_ctrl('c'), &buf), None);
}

#[test]
fn plain_c_does_not_match_clipboard_shortcut() {
    let mut buf = buf_with("hello");
    buf.set_selection(Selection { anchor: 0, head: 5 });
    assert_eq!(classify_clipboard_key(key(KeyCode::Char('c')), &buf), None);
}

#[test]
fn ctrl_shift_c_is_not_clipboard_shortcut() {
    let mut buf = buf_with("hello");
    buf.set_selection(Selection { anchor: 0, head: 5 });
    let ev = KeyEvent { shift: true, ..key_ctrl('c') };
    assert_eq!(classify_clipboard_key(ev, &buf), None);
}

#[test]
fn ctrl_v_classifies_as_paste() {
    let mut buf = buf_with("hello");
    buf.set_selection(Selection { anchor: 0, head: 5 });
    assert_eq!(classify_clipboard_key(key_ctrl('v'), &buf), Some(ClipboardAction::Paste));
    // Paste also works with a collapsed (empty) selection.
    buf.set_selection(Selection::collapsed(3));
    assert_eq!(classify_clipboard_key(key_ctrl('v'), &buf), Some(ClipboardAction::Paste));
}

#[test]
fn shortcuts_fall_through_the_find_bar() {
    let mut app = app_with("hello world");
    app.handle_event(EditorEvent::FindOpen);
    let ctx = app.key_context(false);
    assert_eq!(translate_key(key_ctrl('s'), Some(&ctx)), Some(EditorEvent::Save));
    assert_eq!(translate_key(key_ctrl('z'), Some(&ctx)), Some(EditorEvent::Undo));
    assert_eq!(
        translate_key(key(KeyCode::Char('s')), Some(&ctx)),
        Some(EditorEvent::FindQueryChanged("s".to_owned()))
    );
}

#[test]
fn shortcuts_fall_through_the_replace_bar() {
    let mut app = app_with("hello world");
    app.handle_event(EditorEvent::ReplaceOpen);
    let ctx = app.key_context(false);
    assert_eq!(translate_key(key_ctrl('s'), Some(&ctx)), Some(EditorEvent::Save));
    assert_eq!(
        translate_key(key(KeyCode::Char('s')), Some(&ctx)),
        Some(EditorEvent::ReplaceQueryChanged("s".to_owned()))
    );
}

#[test]
fn shortcuts_fall_through_the_project_search() {
    let mut app = app_with("hello world");
    app.handle_event(EditorEvent::ProjectSearch(None));
    for replace in [false, true] {
        let ctx = app.key_context(replace);
        assert_eq!(translate_key(key_ctrl('s'), Some(&ctx)), Some(EditorEvent::Save));
    }
    let ctx = app.key_context(true);
    assert_eq!(
        translate_key(key(KeyCode::Char('s')), Some(&ctx)),
        Some(EditorEvent::ProjectSearchReplaceQueryChanged("s".to_owned()))
    );
}

#[test]
fn letters_with_alt_are_typed_into_the_bars() {
    let alt_x = key_alt(KeyCode::Char('x'));
    let alt_r = key_alt(KeyCode::Char('r'));

    let mut app = app_with("hello world");
    app.handle_event(EditorEvent::FindOpen);
    let ctx = app.key_context(false);
    assert_eq!(
        translate_key(alt_x, Some(&ctx)),
        Some(EditorEvent::FindQueryChanged("x".to_owned()))
    );
    assert_eq!(translate_key(alt_r, Some(&ctx)), Some(EditorEvent::ToggleFindRegex));
    let both = KeyEvent { ctrl: true, ..alt_x };
    assert_eq!(translate_key(both, Some(&ctx)), translate_key(both, None));

    let mut app = app_with("hello world");
    app.handle_event(EditorEvent::ReplaceOpen);
    let ctx = app.key_context(false);
    assert_eq!(
        translate_key(alt_r, Some(&ctx)),
        Some(EditorEvent::ReplaceQueryChanged("r".to_owned()))
    );

    let mut app = app_with("hello world");
    app.handle_event(EditorEvent::ProjectSearch(None));
    let ctx = app.key_context(false);
    assert_eq!(
        translate_key(alt_r, Some(&ctx)),
        Some(EditorEvent::ProjectSearchQueryChanged("r".to_owned()))
    );
    let ctx = app.key_context(true);
    assert_eq!(
        translate_key(alt_x, Some(&ctx)),
        Some(EditorEvent::ProjectSearchReplaceQueryChanged("x".to_owned()))
    );
}

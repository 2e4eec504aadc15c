//! How lines are painted.

use skerry::buffer::{Selection, TextBuffer};
use skerry::edits::Position;
use skerry::event::EditorEvent;
use skerry::line_view::{
    guides, line_columns, line_number_text, line_number_width, severity_of_line, visible_lines,
    Diagnostic, LinePicture, Severity, Underline,
};
use skerry::paint::{runs_of, Run, Segment, Style};
use skerry::pointer::{
    brackets_to_draw, carets_to_draw, link_range, matching_bracket, position_at, Press,
};
use skerry::state::EditorApp;

fn app_with(content: &str) -> EditorApp {
    EditorApp::new(TextBuffer::from_bytes(content.as_bytes().to_vec()))
}

/// All places where the query stands, overlapping ones too.
fn places(text: &str, query: &str) -> Vec<(usize, usize)> {
    (0..text.len())
        .filter(|i| text.is_char_boundary(*i) && text[*i..].starts_with(query))
        .map(|i| (i, i + query.len()))
        .collect()
}

fn searched(line: &str, query: &str, next: bool) -> LinePicture {
    let mut app = app_with(line);
    app.handle_event(EditorEvent::FindQueryChanged(query.to_string()));
    app.set_matches(&places(line, query), None, true);
    if next {
        app.handle_event(EditorEvent::FindNext);
    }
    app.line_picture(0, &Vec::new(), &Vec::new())
}

fn pieces(p: &LinePicture) -> Vec<(String, Style)> {
    let chars: Vec<char> = p.text.chars().collect();
    p.runs
        .iter()
        .map(|r| (chars[r.from..r.to].iter().collect::<String>(), r.style))
        .collect()
}

fn piece(text: &str, style: Style) -> (String, Style) {
    (text.to_string(), style)
}

const CURRENT: Style = Style::Match { current: true };
const OTHER: Style = Style::Match { current: false };

#[test]
fn find_highlight_keeps_surrounding_text_in_layout_order() {
    let p = searched("猫\tprefix needle suffix", "needle", false);
    assert_eq!(
        pieces(&p),
        vec![
            piece("猫\tprefix ", Style::Plain),
            piece("needle", CURRENT),
            piece(" suffix", Style::Plain),
        ]
    );
}

#[test]
fn adjacent_find_matches_do_not_overlap() {
    let p = searched("starthithitend", "hit", false);
    assert_eq!(
        pieces(&p),
        vec![
            piece("start", Style::Plain),
            piece("hit", CURRENT),
            piece("hit", OTHER),
            piece("end", Style::Plain),
        ]
    );
}

#[test]
fn overlapping_case_insensitive_matches_do_not_duplicate_text() {
    let p = searched("aaa", "aa", false);
    assert_eq!(pieces(&p), vec![piece("aa", CURRENT), piece("a", OTHER)]);
}

#[test]
fn complete_overlapping_match_stays_current_after_navigation() {
    let p = searched("aaa", "aa", true);
    assert_eq!(pieces(&p), vec![piece("a", OTHER), piece("aa", CURRENT)]);
}

#[test]
fn selected_syntax_line_draws_segments_left_to_right() {
    let line = "let alpha = beta;";
    let mut app = app_with(line);
    app.active_buffer_mut().set_selection(Selection { anchor: 0, head: line.len() });
    let segments = vec![
        Segment { start: 0, end: 3 },
        Segment { start: 4, end: 9 },
        Segment { start: 12, end: 16 },
    ];
    let p = app.line_picture(0, &segments, &Vec::new());
    assert_eq!(p.selections, vec![(0, 17)]);
    assert_eq!(
        pieces(&p),
        vec![
            piece("let", Style::Colored(0)),
            piece(" ", Style::Plain),
            piece("alpha", Style::Colored(1)),
            piece(" = ", Style::Plain),
            piece("beta", Style::Colored(2)),
            piece(";", Style::Plain),
        ]
    );
    for w in p.runs.windows(2) {
        assert_eq!(w[0].to, w[1].from);
    }
}

#[test]
fn a_selection_goes_before_matches() {
    let mut app = app_with("one one");
    app.handle_event(EditorEvent::FindQueryChanged("one".to_string()));
    app.set_matches(&vec![(0, 3), (4, 7)], None, true);
    app.active_buffer_mut().set_selection(Selection { anchor: 4, head: 6 });
    let p = app.line_picture(0, &Vec::new(), &Vec::new());
    assert_eq!(p.selections, vec![(4, 6)]);
    assert_eq!(pieces(&p), vec![piece("one one", Style::Plain)]);
}

#[test]
fn spans_that_reach_over_the_end_are_cut() {
    let runs = runs_of(&vec![Run { from: 2, to: 9, style: Style::Colored(0) }], 4);
    assert_eq!(
        runs,
        vec![
            Run { from: 0, to: 2, style: Style::Plain },
            Run { from: 2, to: 4, style: Style::Colored(0) },
        ]
    );
    assert_eq!(runs_of(&Vec::new(), 0), Vec::new());
}

#[test]
fn line_numbers_are_aligned() {
    assert_eq!(line_number_width(5), 2);
    assert_eq!(line_number_width(1234), 4);
    assert_eq!(line_number_text(7, 3), "  7 │ ");
    assert_eq!(line_number_text(1234, 2), "1234 │ ");
}

#[test]
fn tabs_and_guides_count_columns() {
    let chars: Vec<char> = "\t\tx y".chars().collect();
    assert_eq!(line_columns(&chars, 4), 11);
    assert_eq!(guides(&chars, 4), vec![4]);
    let chars: Vec<char> = "         x".chars().collect();
    assert_eq!(guides(&chars, 4), vec![4, 8]);
    assert_eq!(guides(&chars, 0), vec![1, 2, 3, 4, 5, 6, 7, 8]);
    assert_eq!(guides(&Vec::new(), 4), Vec::<usize>::new());
}

fn diagnostic(from: (u32, u32), to: (u32, u32), severity: Option<Severity>) -> Diagnostic {
    Diagnostic {
        start: Position { line: from.0, character: from.1 },
        end: Position { line: to.0, character: to.1 },
        severity,
    }
}

#[test]
fn the_worst_diagnostic_marks_the_line() {
    let ds = vec![
        diagnostic((0, 0), (2, 1), Some(Severity::Hint)),
        diagnostic((1, 0), (1, 1), Some(Severity::Error)),
        diagnostic((1, 2), (1, 3), Some(Severity::Warning)),
        diagnostic((2, 0), (2, 1), None),
    ];
    assert_eq!(severity_of_line(&ds, 0), Some(Severity::Hint));
    assert_eq!(severity_of_line(&ds, 1), Some(Severity::Error));
    assert_eq!(severity_of_line(&ds, 2), Some(Severity::Hint));
    assert_eq!(severity_of_line(&ds, 3), None);
}

#[test]
fn diagnostics_are_underlined_on_their_lines() {
    let app = app_with("héllo\nworld");
    let ds = vec![diagnostic((0, 1), (1, 2), Some(Severity::Warning))];
    let p = app.line_picture(0, &Vec::new(), &ds);
    assert_eq!(
        p.underlines,
        vec![Underline { from: 1, to: 5, severity: Some(Severity::Warning) }]
    );
    let p = app.line_picture(1, &Vec::new(), &ds);
    assert_eq!(
        p.underlines,
        vec![Underline { from: 0, to: 2, severity: Some(Severity::Warning) }]
    );
    assert!(p.number.contains('2'));
    assert!(!p.active);
}

#[test]
fn lines_that_are_no_utf8_are_shown_all_the_same() {
    let app = EditorApp::new(TextBuffer::from_bytes(b"a\xFFb\nok".to_vec()));
    let p = app.line_picture(0, &Vec::new(), &Vec::new());
    assert_eq!(p.text, "a\u{FFFD}b");
    assert_eq!(app.line_picture(1, &Vec::new(), &Vec::new()).text, "ok");
}

#[test]
fn only_lines_in_the_window_are_drawn() {
    assert_eq!(visible_lines(-3, 7, 20), (0, 7));
    assert_eq!(visible_lines(5, 40, 20), (5, 20));
}

#[test]
fn clicks_find_their_place() {
    let buf = TextBuffer::from_bytes("a\tb\nhé".as_bytes().to_vec());
    assert_eq!(position_at(&buf, 4, 0, 0), 0);
    assert_eq!(position_at(&buf, 4, 0, 3), 1);
    assert_eq!(position_at(&buf, 4, 0, 5), 2);
    assert_eq!(position_at(&buf, 4, 0, 99), 3);
    assert_eq!(position_at(&buf, 4, 1, 2), 7);
    assert_eq!(position_at(&buf, 4, 8, 0), 7);
}

#[test]
fn links_cover_words() {
    let buf = TextBuffer::from_bytes("é foo_bar;".as_bytes().to_vec());
    assert_eq!(link_range(&buf, 0, 4), Some((3, 10)));
    assert_eq!(link_range(&buf, 5, 0), None);
    let buf = TextBuffer::from_bytes(b"; ;".to_vec());
    assert_eq!(link_range(&buf, 0, 1), None);
}

#[test]
fn carets_are_drawn_for_empty_selections_only() {
    let mut buf = TextBuffer::from_bytes("ab\ncé".as_bytes().to_vec());
    buf.set_selections(vec![
        Selection::collapsed(1),
        Selection { anchor: 3, head: 4 },
        Selection::collapsed(6),
    ]);
    assert_eq!(carets_to_draw(&buf), vec![(0, 1), (1, 2)]);
}

#[test]
fn brackets_are_matched_across_lines() {
    let mut buf = TextBuffer::from_bytes(b"f(a[1],\n(b))".to_vec());
    assert_eq!(matching_bracket(&buf, 1), Some((1, 11)));
    assert_eq!(matching_bracket(&buf, 12), Some((11, 1)));
    assert_eq!(matching_bracket(&buf, 4), Some((3, 5)));
    assert_eq!(matching_bracket(&buf, 0), None);
    buf.set_cursor(1);
    assert_eq!(brackets_to_draw(&buf), Some(((0, 1), (1, 3))));
    buf.set_selection(Selection { anchor: 0, head: 1 });
    assert_eq!(brackets_to_draw(&buf), None);
    let open = TextBuffer::from_bytes(b"(((".to_vec());
    assert_eq!(matching_bracket(&open, 0), None);
}

fn press(clicked: bool, dragged: bool, alt: bool, command: bool) -> Press {
    Press { clicked, dragged, alt, command }
}

#[test]
fn pressing_the_mouse_moves_and_selects() {
    let mut app = app_with("hello\nworld");
    app.panels.project_tree.focused = true;
    app.pointer_pressed(press(true, false, false, false), Some(3));
    assert_eq!(app.active_buffer().cursor(), 3);
    assert!(!app.panels.project_tree.focused);
    app.pointer_pressed(press(false, true, false, false), Some(5));
    assert_eq!(app.active_buffer().selection(), Selection { anchor: 3, head: 5 });
    app.pointer_pressed(press(true, false, false, false), None);
    assert_eq!(app.active_buffer().selection(), Selection { anchor: 3, head: 5 });
}

#[test]
fn alt_adds_carets_and_selects_columns() {
    let mut app = app_with("hello\nworld");
    app.pointer_pressed(press(true, false, true, false), Some(1));
    assert_eq!(app.active_buffer().selections().len(), 2);
    assert_eq!(app.ui.column_select_start, Some((0, 1)));
    app.pointer_pressed(press(false, true, true, false), Some(9));
    let sels = app.active_buffer().selections();
    assert_eq!(sels.len(), 2);
    assert_eq!(sels[0].range(), 1..3);
    assert_eq!(sels[1].range(), 7..9);
}

#[test]
fn links_and_sideways_scrolling_are_kept() {
    let mut app = app_with("foo bar");
    app.point_link(Some((0, 5)));
    assert_eq!(app.lsp.cmd_link.range, Some((4, 7)));
    let p = app.line_picture(0, &Vec::new(), &Vec::new());
    assert_eq!(p.link, Some((4, 7)));
    app.point_link(None);
    assert_eq!(app.lsp.cmd_link.range, None);
    app.scroll_columns(5);
    app.scroll_columns(-2);
    assert_eq!(app.active_doc().view.scroll_x_cols, 3);
    app.scroll_columns(-9);
    assert_eq!(app.active_doc().view.scroll_x_cols, 0);
}

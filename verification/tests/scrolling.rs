//! Scrolling: the caret stays in view.

use skerry::frame::effective_margin;
use skerry::scroll::{compute_desired_scroll_offset, project_tree_reveal_offset};

/// Lines of 16 units, as a helper to write rows down.
const LINE: u32 = 16;

fn to_row(offset: u64, caret: usize, viewport: usize, margin: usize) -> u128 {
    compute_desired_scroll_offset(offset * LINE as u64, caret, LINE, viewport, margin) / LINE as u128
}

#[test]
fn project_tree_reveal_offset_accounts_for_virtual_row_spacing() {
    let offset = project_tree_reveal_offset(100, 18, 6, 240);
    assert_eq!(offset, 2 * 2_292);
}

#[test]
fn reveal_offset_never_goes_above_the_list() {
    assert_eq!(project_tree_reveal_offset(0, 18, 6, 240), 0);
}

#[test]
fn caret_going_down_in_the_middle_does_not_scroll() {
    assert_eq!(to_row(100, 120, 40, 3), 100);
    assert_eq!(to_row(100, 121, 40, 3), 100);
}

#[test]
fn caret_going_up_in_the_middle_does_not_scroll() {
    assert_eq!(to_row(100, 119, 40, 3), 100);
}

#[test]
fn caret_below_the_window_is_scrolled_to() {
    let top = to_row(0, 60, 20, 3);
    assert_eq!(top, 44);
    assert!(60 - top < 20);
}

#[test]
fn caret_above_the_window_is_scrolled_to() {
    assert_eq!(to_row(50, 10, 20, 3), 7);
    assert_eq!(to_row(50, 1, 20, 3), 0);
}

#[test]
fn each_line_down_at_the_edge_scrolls_one_line() {
    let mut top: u64 = 0;
    for caret in 17..30 {
        let next = to_row(top, caret, 20, 3) as u64;
        assert_eq!(next, top + 1);
        top = next;
    }
}

#[test]
fn scrolling_starts_at_the_margin() {
    assert_eq!(to_row(0, 16, 20, 3), 0);
    assert_eq!(to_row(0, 17, 20, 3), 1);
    assert_eq!(to_row(0, 14, 20, 5), 0);
    assert_eq!(to_row(0, 15, 20, 5), 1);
}

#[test]
fn without_a_margin_the_caret_goes_to_the_edge() {
    assert_eq!(to_row(0, 19, 20, 0), 0);
    assert_eq!(to_row(0, 20, 20, 0), 1);
    assert_eq!(to_row(5, 5, 20, 0), 5);
    assert_eq!(to_row(5, 4, 20, 0), 4);
}

#[test]
fn a_low_window_has_no_margin() {
    assert_eq!(effective_margin(7, 3), 0);
    assert_eq!(effective_margin(8, 3), 3);
    assert_eq!(to_row(0, 6, 7, 3), 0);
    assert_eq!(to_row(0, 7, 7, 3), 1);
}

#[test]
fn the_lowest_windows_show_the_caret_line() {
    assert_eq!(effective_margin(0, 3), 0);
    assert_eq!(effective_margin(1, 3), 0);
    assert_eq!(to_row(0, 4, 1, 3), 4);
    assert_eq!(to_row(0, 4, 0, 3), 4);
}

#[test]
fn scrolling_settles() {
    let to = compute_desired_scroll_offset(7, 60, LINE, 20, 3);
    assert_eq!(compute_desired_scroll_offset(to as u64, 60, LINE, 20, 3), to);
}

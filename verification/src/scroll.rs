//! Scrolling: keeping the caret in view and rows in the middle. Heights and
//! offsets are counted in whole units of length, which the window chooses.

use vstd::prelude::*;

use crate::frame::margin_for;

verus! {

/// The height of the window, for at least one line.
pub open spec fn window_lines(viewport_lines: nat) -> int {
    if viewport_lines == 0 { 1 } else { viewport_lines as int }
}

/// The offset at which the caret stays at least `margin` lines away from the
/// upper and the lower edge. As long as it is, the offset stays; else the text
/// moves just as far as it has to.
pub open spec fn desired_offset(
    offset: int,
    caret_line: int,
    line_height: int,
    viewport_lines: nat,
    margin: int,
) -> int {
    let lines = window_lines(viewport_lines);
    let height = lines * line_height;
    let edge = margin_for(lines, margin) * line_height;
    let top = caret_line * line_height;
    if top + line_height > offset + height - edge {
        top - (height - line_height - edge)
    } else if top < offset + edge {
        if top < edge { 0 } else { top - edge }
    } else {
        offset
    }
}

/// The window holds the caret line and the margins.
proof fn lemma_window(line_height: int, viewport_lines: nat, margin: int)
    requires
        line_height >= 0,
        margin >= 0,
    ensures
        window_lines(viewport_lines) * line_height >= line_height + 2 * (margin_for(
            window_lines(viewport_lines),
            margin,
        ) * line_height),
        margin_for(window_lines(viewport_lines), margin) * line_height >= 0,
{
    let n = window_lines(viewport_lines);
    let m = margin_for(n, margin);
    assert(n >= 2 * m + 1);
    assert(n * line_height >= line_height + 2 * (m * line_height) && m * line_height >= 0)
        by (nonlinear_arith)
        requires
            n >= 2 * m + 1,
            m >= 0,
            line_height >= 0,
    ;
}

/// Law: after scrolling the whole caret line is inside the window, and the
/// margins above and below it are kept, except at the start of the text.
pub proof fn law_caret_stays_visible(
    offset: int,
    caret_line: int,
    line_height: int,
    viewport_lines: nat,
    margin: int,
)
    requires
        offset >= 0,
        caret_line >= 0,
        line_height >= 0,
        margin >= 0,
    ensures
        ({
            let to = desired_offset(offset, caret_line, line_height, viewport_lines, margin);
            let lines = window_lines(viewport_lines);
            let edge = margin_for(lines, margin) * line_height;
            &&& 0 <= to <= caret_line * line_height
            &&& caret_line * line_height + line_height <= to + lines * line_height - edge
            &&& to == 0 || to + edge <= caret_line * line_height
        }),
{
    lemma_window(line_height, viewport_lines, margin);
    assert(caret_line * line_height >= 0) by (nonlinear_arith)
        requires
            caret_line >= 0,
            line_height >= 0,
    ;
}

/// Law: an offset that was just chosen is kept as long as the caret does not
/// move.
pub proof fn law_scrolling_settles(
    offset: int,
    caret_line: int,
    line_height: int,
    viewport_lines: nat,
    margin: int,
)
    requires
        offset >= 0,
        caret_line >= 0,
        line_height >= 0,
        margin >= 0,
    ensures
        ({
            let to = desired_offset(offset, caret_line, line_height, viewport_lines, margin);
            desired_offset(to, caret_line, line_height, viewport_lines, margin) == to
        }),
{
    law_caret_stays_visible(offset, caret_line, line_height, viewport_lines, margin);
}

/// Law: with the caret at the lower margin, one line further down scrolls by
/// exactly one line.
pub proof fn law_one_line_down_scrolls_one_line(
    offset: int,
    caret_line: int,
    line_height: int,
    viewport_lines: nat,
    margin: int,
)
    requires
        offset >= 0,
        caret_line >= 0,
        line_height > 0,
        margin >= 0,
        caret_line * line_height + line_height == offset + window_lines(viewport_lines)
            * line_height - margin_for(window_lines(viewport_lines), margin) * line_height,
    ensures
        desired_offset(offset, caret_line, line_height, viewport_lines, margin) == offset,
        desired_offset(offset, caret_line + 1, line_height, viewport_lines, margin) == offset
            + line_height,
{
    lemma_window(line_height, viewport_lines, margin);
    assert((caret_line + 1) * line_height == caret_line * line_height + line_height)
        by (nonlinear_arith);
}

/// Law: with the caret at the upper margin, one line further up scrolls by
/// exactly one line.
pub proof fn law_one_line_up_scrolls_one_line(
    offset: int,
    caret_line: int,
    line_height: int,
    viewport_lines: nat,
    margin: int,
)
    requires
        offset >= line_height,
        caret_line >= 1,
        line_height > 0,
        margin >= 0,
        caret_line * line_height == offset + margin_for(window_lines(viewport_lines), margin)
            * line_height,
    ensures
        desired_offset(offset, caret_line - 1, line_height, viewport_lines, margin) == offset
            - line_height,
{
    lemma_window(line_height, viewport_lines, margin);
    assert((caret_line - 1) * line_height == caret_line * line_height - line_height)
        by (nonlinear_arith);
}

fn product(a: usize, b: u32) -> (r: i128)
    ensures
        r == a * b,
        0 <= r < 0x1_0000_0000_0000_0000_0000_0000,
{
    assert(0 <= a * b < 0x1_0000_0000_0000_0000_0000_0000) by (nonlinear_arith)
        requires
            0 <= a <= 0xffff_ffff_ffff_ffff,
            0 <= b <= 0xffff_ffff,
    ;
    (a as i128) * (b as i128)
}

/// The offset that keeps the caret in view.
pub fn compute_desired_scroll_offset(
    offset: u64,
    caret_line: usize,
    line_height: u32,
    viewport_lines: usize,
    margin: usize,
) -> (r: u128)
    ensures
        r == desired_offset(
            offset as int,
            caret_line as int,
            line_height as int,
            viewport_lines as nat,
            margin as int,
        ),
{
    let lines: usize = if viewport_lines == 0 { 1 } else { viewport_lines };
    let kept: usize = crate::frame::effective_margin(viewport_lines, margin);
    let height: i128 = product(lines, line_height);
    let edge: i128 = product(kept, line_height);
    let top: i128 = product(caret_line, line_height);
    let line: i128 = line_height as i128;
    let at: i128 = offset as i128;
    proof {
        law_caret_stays_visible(
            offset as int,
            caret_line as int,
            line_height as int,
            viewport_lines as nat,
            margin as int,
        );
    }
    let to: i128 = if top + line > at + height - edge {
        top - (height - line - edge)
    } else if top < at + edge {
        if top < edge { 0 } else { top - edge }
    } else {
        at
    };
    to as u128
}

/// The offset at which a row of a list is in the middle of the window, in half
/// units of length. `stride` is the height of a row and the space behind it.
pub open spec fn reveal_offset(row: int, stride: int, window: int) -> int {
    let middle = (2 * row + 1) * stride - window;
    if middle < 0 { 0 } else { middle }
}

/// The offset, in half units of length, that brings a row into the middle of
/// the window, or as near as the start of the list allows.
pub fn project_tree_reveal_offset(
    selected: usize,
    row_height: u32,
    row_spacing: u32,
    window: u32,
) -> (r: u128)
    requires
        row_height + row_spacing <= u32::MAX,
    ensures
        r == reveal_offset(
            selected as int,
            row_height + row_spacing,
            window as int,
        ),
{
    let stride: u32 = row_height + row_spacing;
    let rows: i128 = product(selected, stride);
    assert((2 * selected + 1) * stride == 2 * (selected * stride) + stride) by (nonlinear_arith);
    let middle: i128 = 2 * rows + stride as i128 - window as i128;
    if middle < 0 { 0 } else { middle as u128 }
}

} // verus!

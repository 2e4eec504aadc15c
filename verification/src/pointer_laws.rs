//! Brackets and columns, seen from outside.

use vstd::prelude::*;

use crate::line_view::text_cols;
use crate::pointer::{char_at_col, closing_from, opening_before, partner_at};

verus! {

/// How often `x` stands from `from` up to `to`.
pub open spec fn times(b: Seq<u8>, x: u8, from: int, to: int) -> int
    decreases to - from,
{
    if to <= from {
        0
    } else {
        times(b, x, from, to - 1) + (if b[to - 1] == x { 1int } else { 0int })
    }
}

/// Up to `to`, no more is closed than was opened behind `at`.
pub open spec fn still_open(b: Seq<u8>, open: u8, close: u8, at: int, to: int) -> bool {
    forall|r: int|
        at < r <= to ==> #[trigger] times(b, close, at + 1, r) <= times(b, open, at + 1, r)
}

/// From `from` on, no more is opened than is closed before `at`.
pub open spec fn still_closed(b: Seq<u8>, open: u8, close: u8, from: int, at: int) -> bool {
    forall|r: int| from <= r <= at ==> #[trigger] times(b, open, r, at) <= times(b, close, r, at)
}

proof fn lemma_times_left(b: Seq<u8>, x: u8, from: int, to: int)
    requires
        from < to,
    ensures
        times(b, x, from, to) == times(b, x, from + 1, to) + (if b[from] == x { 1int } else { 0int }),
    decreases to - from,
{
    if from + 1 < to {
        lemma_times_left(b, x, from, to - 1);
    } else {
        assert(times(b, x, from, to - 1) == 0);
        assert(times(b, x, from + 1, to) == 0);
    }
}

proof fn lemma_closing(b: Seq<u8>, open: u8, close: u8, at: int, pos: int, depth: nat)
    requires
        0 <= at < pos <= b.len(),
        open != close,
        depth == times(b, open, at + 1, pos) - times(b, close, at + 1, pos),
        still_open(b, open, close, at, pos),
    ensures
        match closing_from(b, open, close, pos, depth) {
            Some(q) => pos <= q < b.len() && b[q] == close && still_open(b, open, close, at, q)
                && times(b, open, at + 1, q) == times(b, close, at + 1, q),
            None => still_open(b, open, close, at, b.len() as int),
        },
    decreases b.len() - pos,
{
    if pos < b.len() {
        if b[pos] == close {
            if depth > 0 {
                assert(still_open(b, open, close, at, pos + 1)) by {
                    assert forall|r: int| at < r <= pos + 1 implies #[trigger] times(
                        b,
                        close,
                        at + 1,
                        r,
                    ) <= times(b, open, at + 1, r) by {
                        if r == pos + 1 {
                            assert(times(b, close, at + 1, r) == times(b, close, at + 1, pos) + 1);
                            assert(times(b, open, at + 1, r) == times(b, open, at + 1, pos));
                        }
                    }
                }
                lemma_closing(b, open, close, at, pos + 1, (depth - 1) as nat);
            }
        } else {
            let next = if b[pos] == open { depth + 1 } else { depth };
            assert(still_open(b, open, close, at, pos + 1)) by {
                assert forall|r: int| at < r <= pos + 1 implies #[trigger] times(
                    b,
                    close,
                    at + 1,
                    r,
                ) <= times(b, open, at + 1, r) by {
                    if r == pos + 1 {
                        assert(times(b, close, at + 1, r) == times(b, close, at + 1, pos));
                        assert(times(b, open, at + 1, r) >= times(b, open, at + 1, pos));
                    }
                }
            }
            lemma_closing(b, open, close, at, pos + 1, next);
        }
    }
}

proof fn lemma_opening(b: Seq<u8>, open: u8, close: u8, at: int, pos: int, depth: nat)
    requires
        0 <= pos <= at < b.len(),
        open != close,
        depth == times(b, close, pos, at) - times(b, open, pos, at),
        still_closed(b, open, close, pos, at),
    ensures
        match opening_before(b, open, close, pos, depth) {
            Some(q) => 0 <= q < pos && b[q] == open && still_closed(b, open, close, q + 1, at)
                && times(b, open, q + 1, at) == times(b, close, q + 1, at),
            None => still_closed(b, open, close, 0, at),
        },
    decreases pos,
{
    if pos > 0 {
        lemma_times_left(b, open, pos - 1, at);
        lemma_times_left(b, close, pos - 1, at);
        if b[pos - 1] == open {
            if depth > 0 {
                assert(still_closed(b, open, close, pos - 1, at));
                lemma_opening(b, open, close, at, pos - 1, (depth - 1) as nat);
            }
        } else {
            let next = if b[pos - 1] == close { depth + 1 } else { depth };
            assert(still_closed(b, open, close, pos - 1, at));
            lemma_opening(b, open, close, at, pos - 1, next);
        }
    }
}

/// The pairs of brackets.
pub open spec fn are_brackets(open: u8, close: u8) -> bool {
    open == 40 && close == 41 || open == 91 && close == 93 || open == 123 && close == 125
}

/// Law: the partner of an opening bracket is the closing one up to which as many
/// are opened as closed, and before which never more are closed; without a
/// partner never more are closed to the end.
pub proof fn law_opening_bracket_has_its_partner(b: Seq<u8>, at: int, close: u8)
    requires
        0 <= at < b.len(),
        are_brackets(b[at], close),
    ensures
        match partner_at(b, at) {
            Some(q) => at < q < b.len() && b[q] == close && still_open(b, b[at], close, at, q)
                && times(b, b[at], at + 1, q) == times(b, close, at + 1, q),
            None => still_open(b, b[at], close, at, b.len() as int),
        },
{
    lemma_closing(b, b[at], close, at, at + 1, 0);
}

/// Law: the partner of a closing bracket is the opening one from which on as
/// many are opened as closed, and behind which never more are opened.
pub proof fn law_closing_bracket_has_its_partner(b: Seq<u8>, at: int, open: u8)
    requires
        0 <= at < b.len(),
        are_brackets(open, b[at]),
    ensures
        match partner_at(b, at) {
            Some(q) => 0 <= q < at && b[q] == open && still_closed(b, open, b[at], q + 1, at)
                && times(b, open, q + 1, at) == times(b, b[at], q + 1, at),
            None => still_closed(b, open, b[at], 0, at),
        },
{
    lemma_opening(b, open, b[at], at, at, 0);
}

/// Law: what is not a bracket has no partner.
pub proof fn law_only_brackets_have_partners(b: Seq<u8>, at: int)
    requires
        0 <= at < b.len(),
        !are_brackets(b[at], 41) && !are_brackets(b[at], 93) && !are_brackets(b[at], 125),
        !are_brackets(40, b[at]) && !are_brackets(91, b[at]) && !are_brackets(123, b[at]),
    ensures
        partner_at(b, at) is None,
{
}

proof fn lemma_char_at_col(chars: Seq<char>, tab_width: nat, col: int, i: int)
    requires
        0 <= i <= chars.len(),
        text_cols(chars, tab_width, i) <= col,
    ensures
        ({
            let k = char_at_col(chars, tab_width, col, i);
            &&& i <= k <= chars.len()
            &&& text_cols(chars, tab_width, k) <= col
            &&& k < chars.len() ==> col < text_cols(chars, tab_width, k + 1)
        }),
    decreases chars.len() - i,
{
    if i < chars.len() && text_cols(chars, tab_width, i + 1) <= col {
        lemma_char_at_col(chars, tab_width, col, i + 1);
    }
}

/// Law: the character at a column is the one that covers it: what stands before
/// it takes no more columns, and with it there are more.
pub proof fn law_column_hits_its_character(chars: Seq<char>, tab_width: nat, col: int)
    requires
        0 <= col,
    ensures
        ({
            let k = char_at_col(chars, tab_width, col, 0);
            &&& 0 <= k <= chars.len()
            &&& text_cols(chars, tab_width, k) <= col
            &&& k < chars.len() ==> col < text_cols(chars, tab_width, k + 1)
        }),
{
    lemma_char_at_col(chars, tab_width, col, 0);
}

} // verus!

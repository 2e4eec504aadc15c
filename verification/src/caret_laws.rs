//! Where carets go, seen from outside.

use vstd::prelude::*;
use vstd::utf8::*;

use crate::buffer::{BufferV, Selection};
use crate::carets::{extended, moved};
use crate::columns::{byte_col_of, char_col_of};
use crate::edit_laws::plain_at;
use crate::event::EditorEvent;
use crate::find_laws::other_documents_same;
use crate::laws::takes_edits;
use crate::line_laws::{law_line_number, law_lines_of_text, lines_of};
use crate::lines::{
    lemma_line_at, lemma_line_end_from, lemma_line_start, line_at, line_bytes, line_end, line_start,
    line_total,
};
use crate::motion::{
    char_ceil, char_col_at, char_floor, char_index, char_start, clamped_pos, leading_blanks,
    lemma_char_ceil, lemma_char_floor, next_char, page_lines, prev_char, skip_ahead, skip_back,
    smart_home, target, word_left, word_left_index, word_right, word_right_index, Movement,
};
use crate::routes::lemma_caret_event;
use crate::state::AppV;
use crate::text::word_char;

verus! {

// ----- characters -----

/// A byte that goes on with a character.
pub open spec fn goes_on(b: u8) -> bool {
    128 <= b <= 191
}

/// How many characters begin from `from` up to `to`.
pub open spec fn chars_between(t: Seq<u8>, from: int, to: int) -> nat
    decreases to - from,
{
    if to <= from {
        0
    } else {
        chars_between(t, from, to - 1) + (if goes_on(t[to - 1]) { 0nat } else { 1nat })
    }
}

/// `to` is one character to the left of `from`.
pub open spec fn one_left(t: Seq<u8>, from: int, to: int) -> bool {
    if from == 0 {
        to == 0
    } else {
        &&& 0 <= to < from
        &&& to == 0 || !goes_on(t[to])
        &&& forall|k: int| to < k < from ==> goes_on(#[trigger] t[k])
    }
}

/// `to` is one character to the right of `from`.
pub open spec fn one_right(t: Seq<u8>, from: int, to: int) -> bool {
    if from == t.len() {
        to == from
    } else {
        &&& from < to <= t.len()
        &&& to == t.len() || !goes_on(t[to])
        &&& forall|k: int| from < k < to ==> goes_on(#[trigger] t[k])
    }
}

// ----- lines -----

/// `start` is where the line of `pos` begins.
pub open spec fn begins_line(t: Seq<u8>, pos: int, start: int) -> bool {
    &&& 0 <= start <= pos
    &&& start == 0 || t[start - 1] == 10
    &&& forall|k: int| start <= k < pos ==> t[k] != 10
}

/// `end` is where the line of `pos` ends.
pub open spec fn ends_line(t: Seq<u8>, pos: int, end: int) -> bool {
    &&& pos <= end <= t.len()
    &&& end == t.len() || t[end] == 10
    &&& forall|k: int| pos <= k < end ==> t[k] != 10
}

/// The number of the line of `pos`.
pub open spec fn line_number(t: Seq<u8>, pos: int) -> int {
    lines_of(t.take(pos)).len() - 1
}

/// `to` is on line `line`, as many characters from its start as `col` says; or
/// at its end, where it has no more.
pub open spec fn at_column(t: Seq<u8>, line: int, col: nat, to: int) -> bool {
    &&& 0 <= to <= t.len()
    &&& line_number(t, to) == line
    &&& exists|start: int| #[trigger]
        begins_line(t, to, start) && (chars_between(t, start, to) == col || ends_line(t, to, to)
            && chars_between(t, start, to) <= col)
}

/// No line begins inside a character.
pub open spec fn lines_begin_well(t: Seq<u8>) -> bool {
    (t.len() > 0 ==> !goes_on(t[0])) && forall|k: int|
        0 < k < t.len() && t[k - 1] == 10 ==> !goes_on(#[trigger] t[k])
}

pub proof fn lemma_line_bounds(t: Seq<u8>, pos: int)
    requires
        0 <= pos <= t.len(),
    ensures
        begins_line(t, pos, line_start(t, line_at(t, pos))),
        ends_line(t, pos, line_end(t, line_at(t, pos))),
        line_number(t, pos) == line_at(t, pos),
        line_at(t, pos) < line_total(t),
{
    let line = line_at(t, pos);
    lemma_line_at(t, pos);
    lemma_line_start(t, line);
    lemma_line_end_from(t, line_start(t, line));
    law_line_number(t, pos);
}

proof fn lemma_char_index(t: Seq<u8>, start: int, line: Seq<u8>, n: int)
    requires
        0 <= n <= line.len(),
        0 <= start,
        start + line.len() <= t.len(),
        line == t.subrange(start, start + line.len()),
    ensures
        char_index(line, n) == chars_between(t, start, start + n),
    decreases n,
{
    if n > 0 {
        lemma_char_index(t, start, line, n - 1);
        assert(line[n - 1] == t[start + n - 1]);
    }
}

proof fn lemma_index_over(b: Seq<u8>, from: int, to: int)
    requires
        0 <= from <= to <= b.len(),
        forall|k: int| from <= k < to ==> is_continuation_byte(#[trigger] b[k]),
    ensures
        char_index(b, to) == char_index(b, from),
    decreases to - from,
{
    if from < to {
        lemma_index_over(b, from, to - 1);
    }
}

proof fn lemma_char_start(b: Seq<u8>, col: nat)
    requires
        b.len() > 0 ==> !is_continuation_byte(b[0]),
    ensures
        0 <= char_start(b, col) <= b.len(),
        char_start(b, col) < b.len() ==> !is_continuation_byte(b[char_start(b, col)])
            && char_index(b, char_start(b, col)) == col,
        char_start(b, col) == b.len() ==> char_index(b, b.len() as int) <= col,
    decreases col,
{
    if col > 0 {
        lemma_char_start(b, (col - 1) as nat);
        let p = char_start(b, (col - 1) as nat);
        if p < b.len() {
            lemma_char_ceil(b, p + 1);
            let q = char_ceil(b, p + 1);
            lemma_index_over(b, p + 1, q);
        }
    }
}

pub proof fn lemma_clamped(t: Seq<u8>, line: int, col: nat)
    requires
        0 <= line,
        lines_begin_well(t),
    ensures
        at_column(
            t,
            if line < line_total(t) { line } else { line_total(t) - 1 },
            col,
            clamped_pos(t, line, col),
        ),
{
    let l = (if line < line_total(t) - 1 { line } else { line_total(t) - 1 }) as nat;
    let start = line_start(t, l);
    let bytes = line_bytes(t, l);
    lemma_line_start(t, l);
    lemma_line_end_from(t, start);
    if bytes.len() > 0 {
        assert(bytes[0] == t[start]);
        assert(!goes_on(t[start]));
    }
    lemma_char_start(bytes, col);
    let p = char_start(bytes, col);
    let to = start + p;
    assert(bytes == t.subrange(start, start + bytes.len()));
    lemma_char_index(t, start, bytes, p);
    crate::lines::lemma_newlines_grow(t, start, to);
    law_line_number(t, to);
    assert(line_at(t, to) == l);
    assert(begins_line(t, to, start));
}

proof fn lemma_column(t: Seq<u8>, pos: int)
    requires
        0 <= pos <= t.len(),
    ensures
        char_col_at(t, pos) == chars_between(t, line_start(t, line_at(t, pos)), pos),
{
    let line = line_at(t, pos);
    lemma_line_at(t, pos);
    let start = line_start(t, line);
    let bytes = line_bytes(t, line);
    assert(bytes == t.subrange(start, start + bytes.len()));
    lemma_char_index(t, start, bytes, pos - start);
}

// ----- words -----

/// From `i` to the left in a line: over what is no word and then over a word,
/// to its start.
pub open spec fn to_word_start(chars: Seq<char>, i: int, to: int) -> bool {
    exists|m: int|
        {
            &&& 0 <= to <= m <= i
            &&& #[trigger] over_chars(chars, to, m, true)
            &&& over_chars(chars, m, i, false)
            &&& to == 0 || !word_char(chars[to - 1])
            &&& m == to ==> to == 0
        }
}

/// The characters from `from` to `to` all belong to words, or none does.
pub open spec fn over_chars(chars: Seq<char>, from: int, to: int, word: bool) -> bool {
    forall|k: int| from <= k < to ==> word_char(#[trigger] chars[k]) == word
}

/// From `i` to the right in a line: inside a word to its end, elsewhere to the
/// start of the next one.
pub open spec fn to_word_end(chars: Seq<char>, i: int, to: int) -> bool {
    let word = i < chars.len() && word_char(chars[i]);
    &&& i <= to <= chars.len()
    &&& over_chars(chars, i, to, word)
    &&& to < chars.len() ==> word_char(chars[to]) != word
}

proof fn lemma_back(chars: Seq<char>, i: int, word: bool)
    requires
        0 <= i <= chars.len(),
    ensures
        0 <= skip_back(chars, i, word) <= i,
        over_chars(chars, skip_back(chars, i, word), i, word),
        skip_back(chars, i, word) > 0 ==> word_char(chars[skip_back(chars, i, word) - 1]) != word,
    decreases i,
{
    if i > 0 && word_char(chars[i - 1]) == word {
        lemma_back(chars, i - 1, word);
    }
}

proof fn lemma_ahead(chars: Seq<char>, i: int, word: bool)
    requires
        0 <= i <= chars.len(),
    ensures
        i <= skip_ahead(chars, i, word) <= chars.len(),
        over_chars(chars, i, skip_ahead(chars, i, word), word),
        skip_ahead(chars, i, word) < chars.len() ==> word_char(
            chars[skip_ahead(chars, i, word)],
        ) != word,
    decreases chars.len() - i,
{
    if i < chars.len() && word_char(chars[i]) == word {
        lemma_ahead(chars, i + 1, word);
    }
}

/// Law: going left over a word stops where one begins, and going right where
/// one ends or the next begins.
pub proof fn law_words_are_gone_over(chars: Seq<char>, i: int)
    requires
        0 <= i <= chars.len(),
    ensures
        to_word_start(chars, i, word_left_index(chars, i)),
        to_word_end(chars, i, word_right_index(chars, i)),
{
    let left = word_left_index(chars, i);
    if i == 0 {
        assert(over_chars(chars, 0, 0, true));
    } else if word_char(chars[i - 1]) {
        lemma_back(chars, i, true);
        assert(over_chars(chars, left, i, true));
        assert(over_chars(chars, i, i, false));
    } else {
        lemma_back(chars, i, false);
        let m = skip_back(chars, i, false);
        lemma_back(chars, m, true);
        assert(over_chars(chars, left, m, true));
    }
    lemma_ahead(chars, i, true);
    lemma_ahead(chars, i, false);
}

/// The characters of the line of `pos`, which is text.
pub open spec fn line_chars(t: Seq<u8>, pos: int) -> Seq<char> {
    decode_utf8(lines_of(t)[line_number(t, pos)])
}

/// Byte position `pos` is where character `i` of its line begins.
pub open spec fn at_char(t: Seq<u8>, start: int, chars: Seq<char>, i: int, pos: int) -> bool {
    0 <= i <= chars.len() && pos == start + encode_utf8(chars.take(i)).len()
}

proof fn lemma_char_col(chars: Seq<char>, i: int)
    requires
        0 <= i <= chars.len(),
    ensures
        char_col_of(chars, encode_utf8(chars.take(i)).len() as int) == i,
        byte_col_of(chars, i) == encode_utf8(chars.take(i)).len(),
{
    crate::columns::law_columns_round_trip(chars, i);
    assert(chars.take(chars.len() as int) =~= chars);
}

/// Law: on a line that is text, from the start of a character, the caret goes
/// left to where a word begins and right to where one ends or the next begins;
/// behind the last word of a line it goes to the next line.
pub proof fn law_caret_goes_over_words(t: Seq<u8>, pos: int, start: int, i: int)
    requires
        0 < pos < t.len(),
        begins_line(t, pos, start),
        valid_utf8(lines_of(t)[line_number(t, pos)]),
        at_char(t, start, line_chars(t, pos), i, pos),
    ensures
        ({
            let chars = line_chars(t, pos);
            &&& exists|j: int| #[trigger]
                to_word_start(chars, i, j) && at_char(t, start, chars, j, word_left(t, pos))
            &&& exists|j: int| #[trigger]
                to_word_end(chars, i, j) && {
                    ||| at_char(t, start, chars, j, word_right(t, pos))
                    ||| j == chars.len() && !(i < chars.len() && word_char(chars[i]))
                        && word_right(t, pos) == start + encode_utf8(chars).len() + 1
                }
        }),
{
    let line = line_at(t, pos);
    lemma_line_bounds(t, pos);
    law_lines_of_text(t, line);
    let bytes = line_bytes(t, line);
    let chars = decode_utf8(bytes);
    lemma_same_start(t, pos, start, line_start(t, line));
    lemma_char_col(chars, i);
    law_words_are_gone_over(chars, i);
    let l = word_left_index(chars, i);
    let r = word_right_index(chars, i);
    lemma_char_col(chars, l);
    lemma_char_col(chars, r);
    assert(to_word_start(chars, i, l) && at_char(t, start, chars, l, word_left(t, pos)));
    decode_utf8_encode_utf8(bytes);
    lemma_line_start(t, line);
    assert(bytes.len() == line_end(t, line) - start);
    if !at_char(t, start, chars, r, word_right(t, pos)) {
        assert(encode_utf8(chars.take(r)).len() >= bytes.len());
        if r < chars.len() {
            crate::columns::lemma_byte_len_grows(chars, r, chars.len() as int);
            assert(chars.take(chars.len() as int) =~= chars);
        }
    }
    assert(to_word_end(chars, i, r));
}

proof fn lemma_same_start(t: Seq<u8>, pos: int, a: int, b: int)
    requires
        begins_line(t, pos, a),
        begins_line(t, pos, b),
    ensures
        a == b,
{
    if a < b {
        assert(t[b - 1] == 10);
    }
    if b < a {
        assert(t[a - 1] == 10);
    }
}

// ----- movements -----

/// A movement takes a caret from `from` to `to`, `page` lines being a page.
pub open spec fn goes_to(t: Seq<u8>, movement: Movement, from: int, to: int, page: int) -> bool {
    let line = line_number(t, from);
    let last = lines_of(t).len() - 1;
    match movement {
        Movement::Left => one_left(t, from, to),
        Movement::Right => one_right(t, from, to),
        Movement::Up => if line == 0 { to == 0 } else { same_column(t, from, line - 1, to) },
        Movement::Down => if line == last { to == from } else {
            same_column(t, from, line + 1, to)
        },
        Movement::PageUp => same_column(t, from, if line < page { 0 } else { line - page }, to),
        Movement::PageDown => same_column(
            t,
            from,
            if line + page < last { line + page } else { last },
            to,
        ),
        Movement::LineStart => exists|start: int| #[trigger]
            begins_line(t, from, start) && (if from == start && valid_utf8(lines_of(t)[line]) {
                blanks_between(t, start, to)
            } else {
                to == start
            }),
        Movement::LineEnd => ends_line(t, from, to),
        Movement::DocumentStart => to == 0,
        Movement::DocumentEnd => to == t.len(),
        Movement::WordLeft => to == word_left(t, from),
        Movement::WordRight => to == word_right(t, from),
    }
}

/// `to` is on line `line`, in the column of `from` as far as the line goes.
pub open spec fn same_column(t: Seq<u8>, from: int, line: int, to: int) -> bool {
    exists|start: int| #[trigger]
        begins_line(t, from, start) && at_column(t, line, chars_between(t, start, from), to)
}

/// There is nothing but blanks from `start` to `to`, and no blank behind.
pub open spec fn blanks_between(t: Seq<u8>, start: int, to: int) -> bool {
    &&& start <= to <= t.len()
    &&& forall|k: int| start <= k < to ==> #[trigger] t[k] == 32 || t[k] == 9
    &&& to < t.len() ==> t[to] != 32 && t[to] != 9
}

proof fn lemma_blanks(b: Seq<u8>)
    ensures
        leading_blanks(b) <= b.len(),
        forall|k: int| 0 <= k < leading_blanks(b) ==> #[trigger] b[k] == 32 || b[k] == 9,
        leading_blanks(b) < b.len() ==> b[leading_blanks(b) as int] != 32
            && b[leading_blanks(b) as int] != 9,
    decreases b.len(),
{
    if b.len() > 0 && (b[0] == 32 || b[0] == 9) {
        let rest = b.drop_first();
        lemma_blanks(rest);
        assert forall|k: int| 0 <= k < leading_blanks(b) implies #[trigger] b[k] == 32 || b[k]
            == 9 by {
            if k > 0 {
                assert(rest[k - 1] == b[k]);
            }
        }
    }
}

proof fn lemma_vertical(t: Seq<u8>, from: int, line: int)
    requires
        0 <= from <= t.len(),
        0 <= line,
        lines_begin_well(t),
    ensures
        same_column(
            t,
            from,
            if line < lines_of(t).len() { line } else { lines_of(t).len() - 1 },
            clamped_pos(t, line, char_col_at(t, from)),
        ),
{
    lemma_line_bounds(t, from);
    lemma_column(t, from);
    lemma_clamped(t, line, char_col_at(t, from));
    law_lines_of_text(t, 0);
    let start = line_start(t, line_at(t, from));
    assert(begins_line(t, from, start));
}

proof fn lemma_home(t: Seq<u8>, from: int)
    requires
        0 <= from <= t.len(),
    ensures
        goes_to(t, Movement::LineStart, from, smart_home(t, from), 1),
        0 <= smart_home(t, from) <= t.len(),
{
    lemma_line_bounds(t, from);
    let line = line_at(t, from);
    let start = line_start(t, line);
    let bytes = line_bytes(t, line);
    lemma_blanks(bytes);
    lemma_line_start(t, line);
    let to = smart_home(t, from);
    assert(begins_line(t, from, start));
    law_lines_of_text(t, line);
    if from == start && valid_utf8(bytes) {
        assert forall|k: int| start <= k < to implies #[trigger] t[k] == 32 || t[k] == 9 by {
            assert(bytes[k - start] == t[k]);
        }
        if to < t.len() && to < line_end(t, line) {
            assert(bytes[to - start] == t[to]);
        }
        assert(blanks_between(t, start, to));
    }
}

proof fn lemma_left(t: Seq<u8>, from: int)
    requires
        0 <= from <= t.len(),
    ensures
        one_left(t, from, prev_char(t, from)),
{
    if from > 0 {
        lemma_char_floor(t, from - 1);
        let p = char_floor(t, from - 1);
        assert forall|k: int| p < k < from implies goes_on(#[trigger] t[k]) by {
            assert(is_continuation_byte(t[k]));
        }
    }
}

proof fn lemma_right(t: Seq<u8>, from: int)
    requires
        0 <= from <= t.len(),
    ensures
        one_right(t, from, next_char(t, from)),
{
    if from < t.len() {
        lemma_char_ceil(t, from + 1);
        let p = char_ceil(t, from + 1);
        assert forall|k: int| from < k < p implies goes_on(#[trigger] t[k]) by {
            assert(is_continuation_byte(t[k]));
        }
    }
}

/// Law: where each movement takes a caret: one character to the side; up and
/// down a line or a page, in the same column as far as the line goes; to an end
/// of the line, of the text, or over a word.
pub proof fn law_movements(t: Seq<u8>, movement: Movement, from: int, page: int)
    requires
        0 <= from <= t.len(),
        1 <= page,
        lines_begin_well(t),
    ensures
        goes_to(t, movement, from, target(t, movement, from, page), page),
{
    lemma_line_bounds(t, from);
    law_lines_of_text(t, 0);
    let line = line_at(t, from) as int;
    match movement {
        Movement::Left => lemma_left(t, from),
        Movement::Right => lemma_right(t, from),
        Movement::Up => {
            if line > 0 {
                lemma_vertical(t, from, line - 1);
            }
        },
        Movement::Down => lemma_vertical(t, from, line + 1),
        Movement::PageUp => lemma_vertical(t, from, if line <= page { 0 } else { line - page }),
        Movement::PageDown => lemma_vertical(t, from, line + page),
        Movement::LineStart => lemma_home(t, from),
        _ => {},
    }
}

proof fn lemma_words_inside(t: Seq<u8>, pos: int)
    requires
        0 <= pos <= t.len(),
    ensures
        0 <= word_left(t, pos) <= t.len(),
        0 <= word_right(t, pos) <= t.len(),
{
    let line = line_at(t, pos);
    lemma_line_at(t, pos);
    lemma_line_start(t, line);
    if line + 1 < line_total(t) {
        lemma_line_start(t, line + 1);
    }
    let start = line_start(t, line);
    let bytes = line_bytes(t, line);
    let chars = decode_utf8(bytes);
    if valid_utf8(bytes) {
        decode_utf8_encode_utf8(bytes);
        let i = char_col_of(chars, pos - start) as int;
        crate::columns::lemma_char_col_bound(chars, pos - start);
        law_words_are_gone_over(chars, i);
        let l = word_left_index(chars, i);
        let r = word_right_index(chars, i);
        assert(chars.take(chars.len() as int) =~= chars);
        crate::columns::lemma_byte_len_grows(chars, l, chars.len() as int);
        crate::columns::lemma_byte_len_grows(chars, r, chars.len() as int);
    }
}

proof fn lemma_target_inside(t: Seq<u8>, movement: Movement, from: int, page: int)
    requires
        0 <= from <= t.len(),
        1 <= page,
        lines_begin_well(t),
    ensures
        0 <= target(t, movement, from, page) <= t.len(),
{
    law_movements(t, movement, from, page);
    match movement {
        Movement::WordLeft => lemma_words_inside(t, from),
        Movement::WordRight => lemma_words_inside(t, from),
        Movement::LineStart => lemma_home(t, from),
        _ => {},
    }
}

/// Law: a movement event takes every caret where the movement goes, a selecting
/// one leaves the anchors; the text stays.
pub proof fn law_every_caret_moves(s: AppV, movement: Movement)
    requires
        s.wf(),
        takes_edits(s),
        lines_begin_well(s.buf().text),
    ensures
        ({
            let t = s.buf().text;
            let old = s.buf().selections;
            let page = if s.ui.viewport_lines == 0 { 1 } else { s.ui.viewport_lines as int };
            let moves = s.after(EditorEvent::Move(movement));
            let extends = s.after(EditorEvent::SelectExtend(movement));
            &&& moves.buf() == (BufferV { selections: moves.buf().selections, ..s.buf() })
            &&& extends.buf() == (BufferV { selections: extends.buf().selections, ..s.buf() })
            &&& moves.buf().selections.len() == old.len()
            &&& extends.buf().selections.len() == old.len()
            &&& forall|i: int|
                0 <= i < old.len() ==> {
                    let now = #[trigger] moves.buf().selections[i];
                    now.anchor == now.head && goes_to(
                        t,
                        movement,
                        old[i].head as int,
                        now.head as int,
                        page,
                    )
                }
            &&& forall|i: int|
                0 <= i < old.len() ==> {
                    let now = #[trigger] extends.buf().selections[i];
                    now.anchor == old[i].anchor && goes_to(
                        t,
                        movement,
                        old[i].head as int,
                        now.head as int,
                        page,
                    )
                }
            &&& other_documents_same(s, moves)
            &&& other_documents_same(s, extends)
        }),
{
    lemma_caret_event(s, EditorEvent::Move(movement));
    lemma_caret_event(s, EditorEvent::SelectExtend(movement));
    reveal(AppV::caret_event);
    let t = s.buf().text;
    let old = s.buf().selections;
    let page = page_lines(s.ui.viewport_lines);
    assert forall|i: int| 0 <= i < old.len() implies ({
        let to = target(t, movement, old[i].head as int, page);
        0 <= to <= t.len() && goes_to(t, movement, (#[trigger] old[i]).head as int, to, page)
    }) by {
        law_movements(t, movement, old[i].head as int, page);
        lemma_target_inside(t, movement, old[i].head as int, page);
    }
    let m = moved(s.buf(), movement, page).selections;
    let e = extended(s.buf(), movement, page).selections;
    assert forall|i: int| 0 <= i < old.len() implies (#[trigger] m[i]).head == target(
        t,
        movement,
        old[i].head as int,
        page,
    ) by {
        assert(old[i].head <= t.len());
    }
    assert forall|i: int| 0 <= i < old.len() implies (#[trigger] e[i]).head == target(
        t,
        movement,
        old[i].head as int,
        page,
    ) && e[i].anchor == old[i].anchor by {
        assert(old[i].head <= t.len());
    }
}

// ----- placing carets -----

/// A position as far as the text goes.
pub open spec fn within(s: AppV, pos: int) -> int {
    if pos <= s.buf().text.len() { pos } else { s.buf().text.len() as int }
}

/// Only the selections of the active document have changed, to these.
pub open spec fn selects(s: AppV, after: AppV, selections: Seq<Selection>) -> bool {
    &&& after.buf() == (BufferV { selections, ..s.buf() })
    &&& other_documents_same(s, after)
    &&& after.effects == s.effects
}

/// Law: where carets are put by the pointer, by selecting all and by dropping
/// all but the primary one.
pub proof fn law_carets_are_placed(s: AppV, pos: usize)
    requires
        s.wf(),
        takes_edits(s),
    ensures
        selects(
            s,
            s.after(EditorEvent::SetCursor { pos }),
            seq![plain_at(within(s, pos as int))],
        ),
        selects(
            s,
            s.after(EditorEvent::SelectExtendTo { pos }),
            seq![
                Selection {
                    anchor: s.buf().selections[0].anchor,
                    head: within(s, pos as int) as usize,
                },
            ],
        ),
        selects(
            s,
            s.after(EditorEvent::SelectAll),
            seq![Selection { anchor: 0, head: s.buf().text.len() as usize }],
        ),
        selects(
            s,
            s.after(EditorEvent::CollapseCursors),
            seq![plain_at(s.buf().selections[0].head as int)],
        ),
{
    lemma_caret_event(s, EditorEvent::SetCursor { pos });
    lemma_caret_event(s, EditorEvent::SelectExtendTo { pos });
    lemma_caret_event(s, EditorEvent::SelectAll);
    lemma_caret_event(s, EditorEvent::CollapseCursors);
    reveal(AppV::caret_event);
    let b = s.buf();
    assert(b.selections[0].anchor <= b.text.len() && b.selections[0].head <= b.text.len());
    assert(crate::carets::selected_to(b, pos as int).selections =~= seq![
        Selection { anchor: b.selections[0].anchor, head: within(s, pos as int) as usize },
    ]);
    assert(crate::carets::all_selected(b).selections =~= seq![
        Selection { anchor: 0, head: b.text.len() as usize },
    ]);
    assert(crate::carets::collapsed_carets(b).selections =~= seq![
        plain_at(b.selections[0].head as int),
    ]);
}

/// `b` holds what `a` holds, in the order of the heads.
pub open spec fn sorted_of(a: Seq<Selection>, b: Seq<Selection>) -> bool {
    &&& b.len() == a.len()
    &&& forall|i: int, j: int| 0 <= i < j < b.len() ==> (#[trigger] b[i]).head <= (#[trigger] b[j]).head
    &&& forall|i: int| 0 <= i < b.len() ==> a.contains(#[trigger] b[i])
    &&& forall|i: int| 0 <= i < a.len() ==> b.contains(#[trigger] a[i])
}

proof fn lemma_by_head(a: Seq<Selection>)
    requires
        a.len() <= usize::MAX,
    ensures
        sorted_of(a, crate::occurrences::by_head(a)),
{
    let keys = crate::editing::heads(a);
    let n = a.len() as int;
    crate::order::law_stable_order(keys, n, false);
    let places = crate::order::stable_order(keys, n, false);
    let b = crate::occurrences::by_head(a);
    assert forall|i: int, j: int| 0 <= i < j < b.len() implies (#[trigger] b[i]).head <= (
    #[trigger] b[j]).head by {
        assert(!crate::order::goes_before(
            keys[places[j] as int],
            keys[places[i] as int],
            false,
        ));
    }
    assert forall|i: int| 0 <= i < b.len() implies a.contains(#[trigger] b[i]) by {
        assert(a[places[i] as int] == b[i]);
    }
    assert forall|i: int| 0 <= i < a.len() implies b.contains(#[trigger] a[i]) by {
        crate::multi_laws::lemma_order_has_index(keys, n, i, false);
        let k = choose|k: int| 0 <= k < places.len() && places[k] == i as usize;
        assert(b[k] == a[i]);
    }
}

/// Law: adding a caret keeps all that are there and adds one at the position,
/// in their order, unless one is there already.
pub proof fn law_caret_is_added(s: AppV, pos: usize)
    requires
        s.wf(),
        takes_edits(s),
        s.buf().selections.len() < usize::MAX,
    ensures
        ({
            let old = s.buf().selections;
            let caret = plain_at(within(s, pos as int));
            let after = s.after(EditorEvent::AddCursor { pos });
            &&& old.contains(caret) ==> after.buf() == s.buf()
            &&& !old.contains(caret) ==> sorted_of(old.push(caret), after.buf().selections)
            &&& after.buf().text == s.buf().text
            &&& other_documents_same(s, after)
        }),
{
    lemma_caret_event(s, EditorEvent::AddCursor { pos });
    reveal(AppV::caret_event);
    let b = s.buf();
    let caret = plain_at(within(s, pos as int));
    let all = b.selections.push(caret);
    lemma_by_head(all);
    let sorted = crate::occurrences::by_head(all);
    assert(crate::buffer::clamp_selections(sorted, b.len()) =~= sorted) by {
        assert forall|i: int| 0 <= i < sorted.len() implies sorted[i].anchor <= b.len()
            && sorted[i].head <= b.len() by {
            assert(all.contains(sorted[i]));
            let k = choose|k: int| 0 <= k < all.len() && all[k] == sorted[i];
            if k < b.selections.len() {
                assert(b.selections[k].anchor <= b.text.len());
            }
        }
    }
}

/// Law: going to a line puts the caret where it begins, counted from 1; past
/// the last one, where the last begins. Line 0 is refused.
pub proof fn law_line_is_gone_to(s: AppV, line: usize)
    requires
        s.wf(),
        takes_edits(s),
    ensures
        ({
            let after = s.after(EditorEvent::GoToLine(Some(line)));
            let last = lines_of(s.buf().text).len();
            &&& line == 0 ==> after.buf() == s.buf() && after.status is Some
            &&& line > 0 ==> crate::line_laws::caret_at_line(
                after.buf(),
                if line <= last { line - 1 } else { last - 1 },
            ) && after.buf().text == s.buf().text
            &&& other_documents_same(s, after)
            &&& s.after(EditorEvent::GoToLine(None)).dialogs.go_to_line == Some(
                Seq::<char>::empty(),
            )
        }),
{
    lemma_caret_event(s, EditorEvent::GoToLine(Some(line)));
    lemma_caret_event(s, EditorEvent::GoToLine(None));
    reveal(AppV::caret_event);
    let t = s.buf().text;
    law_lines_of_text(t, 0);
    if line > 0 {
        let n = (if line - 1 < line_total(t) { line - 1 } else { line_total(t) - 1 }) as nat;
        crate::line_laws::lemma_start_is_line(t, n);
    }
}

/// Law: selecting columns puts a selection on each line from the first to the
/// last, from the one column to the other as far as the line goes.
pub proof fn law_columns_are_selected(
    s: AppV,
    from_line: usize,
    from_col: usize,
    to_line: usize,
    to_col: usize,
)
    requires
        s.wf(),
        takes_edits(s),
        lines_begin_well(s.buf().text),
        from_line < lines_of(s.buf().text).len(),
        to_line < lines_of(s.buf().text).len(),
    ensures
        ({
            let t = s.buf().text;
            let after = s.after(
                EditorEvent::ColumnSelect { from_line, from_col, to_line, to_col },
            );
            let first = if from_line < to_line { from_line as int } else { to_line as int };
            let last = if from_line < to_line { to_line as int } else { from_line as int };
            let now = after.buf().selections;
            &&& after.buf() == (BufferV { selections: now, ..s.buf() })
            &&& other_documents_same(s, after)
            &&& now.len() == last - first + 1
            &&& forall|i: int|
                0 <= i < now.len() ==> at_column(
                    t,
                    first + i,
                    from_col as nat,
                    (#[trigger] now[i]).anchor as int,
                ) && at_column(t, first + i, to_col as nat, now[i].head as int)
        }),
{
    let event = EditorEvent::ColumnSelect { from_line, from_col, to_line, to_col };
    lemma_caret_event(s, event);
    reveal(AppV::caret_event);
    let b = s.buf();
    let t = b.text;
    law_lines_of_text(t, 0);
    let first = if from_line < to_line { from_line as int } else { to_line as int };
    let last = if from_line < to_line { to_line as int } else { from_line as int };
    let spec = crate::carets::column_spec(t, first, last, from_col as nat, to_col as nat);
    assert forall|i: int| 0 <= i < spec.len() implies at_column(
        t,
        first + i,
        from_col as nat,
        (#[trigger] spec[i]).anchor as int,
    ) && at_column(t, first + i, to_col as nat, spec[i].head as int) by {
        lemma_clamped(t, first + i, from_col as nat);
        lemma_clamped(t, first + i, to_col as nat);
    }
    assert(crate::buffer::clamp_selections(spec, b.len()) =~= spec);
}

// ----- occurrences -----

/// Law: selecting the next occurrence keeps all selections and adds one of the
/// wanted text that overlaps none of them.
pub proof fn law_next_occurrence_is_added(s: AppV, needle: Seq<u8>)
    requires
        s.wf(),
        takes_edits(s),
        s.buf().selections.len() < usize::MAX,
        crate::carets::wanted(s.buf()) == Some(needle),
    ensures
        ({
            let old = s.buf().selections;
            let t = s.buf().text;
            let after = s.after(EditorEvent::SelectNextOccurrence);
            ||| after.buf() == s.buf() && after.status == Some("No more occurrences."@)
            ||| exists|p: int|
                {
                    &&& 0 <= p && p + needle.len() <= t.len()
                    &&& t.subrange(p, p + needle.len()) == needle
                    &&& forall|i: int|
                        0 <= i < old.len() ==> {
                            let o = #[trigger] old[i];
                            crate::multi_laws::high_end(o) <= p || p + needle.len()
                                <= crate::multi_laws::low_end(o)
                        }
                    &&& sorted_of(
                        #[trigger] old.push(new_selection(p, needle)),
                        after.buf().selections,
                    )
                    &&& after.buf().text == t
                }
        }),
{
    lemma_caret_event(s, EditorEvent::SelectNextOccurrence);
    reveal(AppV::caret_event);
    let b = s.buf();
    crate::occurrences::law_next_occurrence_follows(b, needle);
    if let Some(p) = crate::occurrences::next_occurrence(b, needle) {
        let added = new_selection(p, needle);
        let all = b.selections.push(added);
        lemma_by_head(all);
        let sorted = crate::occurrences::by_head(all);
        assert(crate::buffer::clamp_selections(sorted, b.len()) =~= sorted) by {
            assert forall|i: int| 0 <= i < sorted.len() implies sorted[i].anchor <= b.len()
                && sorted[i].head <= b.len() by {
                assert(all.contains(sorted[i]));
                let k = choose|k: int| 0 <= k < all.len() && all[k] == sorted[i];
                if k < b.selections.len() {
                    assert(b.selections[k].anchor <= b.text.len());
                }
            }
        }
        assert forall|i: int| 0 <= i < b.selections.len() implies ({
            let o = #[trigger] b.selections[i];
            crate::multi_laws::high_end(o) <= p || p + needle.len()
                <= crate::multi_laws::low_end(o)
        }) by {
            let o = b.selections[i];
            assert(!(p < o.end() && p + needle.len() > o.start()));
        }
        assert(sorted_of(
            b.selections.push(new_selection(p, needle)),
            s.after(EditorEvent::SelectNextOccurrence).buf().selections,
        ));
    }
}

pub open spec fn new_selection(p: int, needle: Seq<u8>) -> Selection {
    Selection { anchor: p as usize, head: (p + needle.len()) as usize }
}

/// Law: what is looked for is the selected text, where it is valid; without a
/// selection it is the word at the caret.
pub proof fn law_selected_text_is_wanted(b: BufferV)
    requires
        b.wf(),
    ensures
        ({
            let low = crate::multi_laws::low_end(b.selections[0]);
            let high = crate::multi_laws::high_end(b.selections[0]);
            let part = b.text.subrange(low, high);
            low < high ==> crate::carets::wanted(b) == (if valid_utf8(part) {
                Some(part)
            } else {
                None
            })
        }),
{
}

/// The text stands from `p` on.
pub open spec fn stands_from(t: Seq<u8>, needle: Seq<u8>, p: int) -> bool {
    0 <= p && p + needle.len() <= t.len() && t.subrange(p, p + needle.len()) == needle
}

/// The selection is a place where the text stands, from `from` on.
pub open spec fn is_place(t: Seq<u8>, needle: Seq<u8>, from: int, s: Selection) -> bool {
    from <= s.anchor && s.head == s.anchor + needle.len() && stands_from(t, needle, s.anchor as int)
}

/// `p` lies in one of the selections.
pub open spec fn lies_in(found: Seq<Selection>, p: int) -> bool {
    exists|i: int| 0 <= i < found.len() && (#[trigger] found[i]).anchor <= p < found[i].head
}

/// The selections are all places of the text from `from` on, one behind the
/// other, and wherever it stands one of them is.
pub open spec fn all_places(t: Seq<u8>, needle: Seq<u8>, from: int, found: Seq<Selection>) -> bool {
    &&& forall|i: int| 0 <= i < found.len() ==> is_place(t, needle, from, #[trigger] found[i])
    &&& forall|i: int, j: int|
        0 <= i < j < found.len() ==> (#[trigger] found[i]).head <= (#[trigger] found[j]).anchor
    &&& forall|p: int| from <= p && #[trigger] stands_from(t, needle, p) ==> lies_in(found, p)
}

proof fn lemma_first_place(t: Seq<u8>, needle: Seq<u8>, from: int, q: int, rest: Seq<Selection>)
    requires
        needle.len() > 0,
        0 <= from <= q,
        t.len() <= usize::MAX,
        stands_from(t, needle, q),
        forall|p: int| from <= p < q ==> !#[trigger] stands_from(t, needle, p),
        all_places(t, needle, q + needle.len(), rest),
    ensures
        all_places(t, needle, from, seq![new_selection(q, needle)] + rest),
{
    let end = q + needle.len();
    let first = new_selection(q, needle);
    let found = seq![first] + rest;
    assert forall|i: int| 0 <= i < found.len() implies is_place(
        t,
        needle,
        from,
        #[trigger] found[i],
    ) by {
        if i > 0 {
            assert(found[i] == rest[i - 1]);
            assert(is_place(t, needle, end, rest[i - 1]));
        }
    }
    assert forall|i: int, j: int| 0 <= i < j < found.len() implies (#[trigger] found[i]).head <= (
    #[trigger] found[j]).anchor by {
        assert(found[j] == rest[j - 1]);
        assert(is_place(t, needle, end, rest[j - 1]));
        if i > 0 {
            assert(found[i] == rest[i - 1]);
        }
    }
    assert forall|p: int| from <= p && #[trigger] stands_from(t, needle, p) implies lies_in(
        found,
        p,
    ) by {
        if p >= end {
            assert(lies_in(rest, p));
            let k = choose|k: int|
                0 <= k < rest.len() && (#[trigger] rest[k]).anchor <= p < rest[k].head;
            assert(found[k + 1] == rest[k]);
        } else {
            assert(found[0].anchor <= p < found[0].head);
        }
    }
}

proof fn lemma_occurrences(t: Seq<u8>, needle: Seq<u8>, from: int)
    requires
        needle.len() > 0,
        0 <= from,
        t.len() <= usize::MAX,
    ensures
        all_places(t, needle, from, crate::occurrences::occurrences(t, needle, false, from)),
    decreases t.len() - from,
{
    crate::occurrences::law_find_is_first(t, needle, from);
    assert forall|p: int| #[trigger]
        stands_from(t, needle, p) == crate::occurrences::occurs_at(t, needle, p) by {}
    if let Some(q) = crate::occurrences::find_from(t, needle, from) {
        assert(crate::occurrences::occurs_at(t, needle, q));
        lemma_occurrences(t, needle, q + needle.len());
        lemma_first_place(
            t,
            needle,
            from,
            q,
            crate::occurrences::occurrences(t, needle, false, q + needle.len()),
        );
    }
}

/// Law: with a text selected, selecting all occurrences selects every place
/// where it stands, from left to right and none inside another.
pub proof fn law_all_occurrences_are_selected(s: AppV)
    requires
        s.wf(),
        takes_edits(s),
        s.buf().selections[0].anchor != s.buf().selections[0].head,
        valid_utf8(
            s.buf().text.subrange(
                crate::multi_laws::low_end(s.buf().selections[0]),
                crate::multi_laws::high_end(s.buf().selections[0]),
            ),
        ),
    ensures
        ({
            let t = s.buf().text;
            let needle = t.subrange(
                crate::multi_laws::low_end(s.buf().selections[0]),
                crate::multi_laws::high_end(s.buf().selections[0]),
            );
            let after = s.after(EditorEvent::SelectAllOccurrences);
            let found = after.buf().selections;
            &&& after.buf() == (BufferV { selections: found, ..s.buf() })
            &&& other_documents_same(s, after)
            &&& all_places(t, needle, 0, found)
        }),
{
    let b = s.buf();
    let t = b.text;
    let low = crate::multi_laws::low_end(b.selections[0]);
    let high = crate::multi_laws::high_end(b.selections[0]);
    let needle = t.subrange(low, high);
    assert(b.selections[0].anchor <= t.len() && b.selections[0].head <= t.len());
    lemma_occurrences(t, needle, 0);
    let found = crate::occurrences::occurrences(t, needle, false, 0);
    assert(crate::carets::all_wanted(b) == found);
    assert(t.subrange(low, low + needle.len()) == needle);
    assert(stands_from(t, needle, low));
    assert(lies_in(found, low));
    assert(found.len() > 0);
    lemma_places_inside(t, needle, found);
    lemma_all_selected(s);
}

proof fn lemma_places_inside(t: Seq<u8>, needle: Seq<u8>, found: Seq<Selection>)
    requires
        all_places(t, needle, 0, found),
    ensures
        crate::buffer::clamp_selections(found, t.len() as int) == found,
{
    assert forall|i: int| 0 <= i < found.len() implies found[i].head <= t.len() && found[i].anchor
        <= t.len() by {
        assert(is_place(t, needle, 0, found[i]));
    }
    assert(crate::buffer::clamp_selections(found, t.len() as int) =~= found);
}

proof fn lemma_all_selected(s: AppV)
    requires
        takes_edits(s),
    ensures
        s.after(EditorEvent::SelectAllOccurrences) == s.all_occurrences_selected(),
{
    lemma_caret_event(s, EditorEvent::SelectAllOccurrences);
    reveal(AppV::caret_event);
}

} // verus!

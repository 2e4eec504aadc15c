//! Where a caret goes: by character, word, line, page and document.

use vstd::prelude::*;
use vstd::utf8::*;

use crate::buffer::TextBuffer;
use crate::columns::{
    byte_col_in, byte_col_of, byte_len, char_bytes, char_col_in, char_col_of, lemma_char_col_bound,
};
use crate::lines::{
    lemma_line_at, lemma_line_start, line_at, line_bytes, line_end, line_start, line_total,
};
use crate::text::{chars_of, is_word_char, word_char};

verus! {

/// A caret movement.
#[derive(Debug, Clone, Copy, PartialEq, Eq, Structural)]
pub enum Movement {
    Left,
    Right,
    Up,
    Down,
    PageUp,
    PageDown,
    WordLeft,
    WordRight,
    LineStart,
    LineEnd,
    DocumentStart,
    DocumentEnd,
}

// ----- characters -----

/// The nearest position at or before `p` where a character can start.
pub open spec fn char_floor(b: Seq<u8>, p: int) -> int
    decreases p,
{
    if p > 0 && is_continuation_byte(b[p]) {
        char_floor(b, p - 1)
    } else {
        p
    }
}

/// The nearest position at or after `p` where a character can start.
pub open spec fn char_ceil(b: Seq<u8>, p: int) -> int
    decreases b.len() - p,
{
    if p < b.len() && is_continuation_byte(b[p]) {
        char_ceil(b, p + 1)
    } else {
        p
    }
}

/// One character to the left.
pub open spec fn prev_char(b: Seq<u8>, pos: int) -> int {
    if pos <= 0 { 0 } else { char_floor(b, pos - 1) }
}

/// One character to the right.
pub open spec fn next_char(b: Seq<u8>, pos: int) -> int {
    if pos >= b.len() { b.len() as int } else { char_ceil(b, pos + 1) }
}

pub proof fn lemma_char_floor(b: Seq<u8>, p: int)
    requires
        0 <= p < b.len(),
    ensures
        0 <= char_floor(b, p) <= p,
        forall|k: int| char_floor(b, p) < k <= p ==> is_continuation_byte(#[trigger] b[k]),
        char_floor(b, p) > 0 ==> !is_continuation_byte(b[char_floor(b, p)]),
    decreases p,
{
    if p > 0 && is_continuation_byte(b[p]) {
        lemma_char_floor(b, p - 1);
    }
}

proof fn lemma_char_floor_is(b: Seq<u8>, p: int, r: int)
    requires
        0 <= r <= p < b.len(),
        forall|k: int| r < k <= p ==> is_continuation_byte(#[trigger] b[k]),
        r == 0 || !is_continuation_byte(b[r]),
    ensures
        char_floor(b, p) == r,
    decreases p,
{
    if r < p {
        lemma_char_floor_is(b, p - 1, r);
    }
}

pub proof fn lemma_char_ceil(b: Seq<u8>, p: int)
    requires
        0 <= p <= b.len(),
    ensures
        p <= char_ceil(b, p) <= b.len(),
        forall|k: int| p <= k < char_ceil(b, p) ==> is_continuation_byte(#[trigger] b[k]),
        char_ceil(b, p) < b.len() ==> !is_continuation_byte(b[char_ceil(b, p)]),
    decreases b.len() - p,
{
    if p < b.len() && is_continuation_byte(b[p]) {
        lemma_char_ceil(b, p + 1);
    }
}

/// Law: a step right and a step left end where they began, from the start of
/// any character.
pub proof fn law_left_undoes_right(b: Seq<u8>, pos: int)
    requires
        0 <= pos < b.len(),
        !is_continuation_byte(b[pos]),
    ensures
        prev_char(b, next_char(b, pos)) == pos,
{
    lemma_char_ceil(b, pos + 1);
    let n = next_char(b, pos);
    lemma_char_floor_is(b, n - 1, pos);
}

/// Law: a step left and a step right end where they began, from the end of any
/// character that starts with a leading byte.
pub proof fn law_right_undoes_left(b: Seq<u8>, pos: int)
    requires
        0 < pos <= b.len(),
        pos < b.len() ==> !is_continuation_byte(b[pos]),
    ensures
        next_char(b, prev_char(b, pos)) == pos,
{
    lemma_char_floor(b, pos - 1);
    let p = prev_char(b, pos);
    lemma_char_ceil(b, p + 1);
    let n = char_ceil(b, p + 1);
    if n < pos {
        assert(is_continuation_byte(b[n]));
    }
    if n > pos {
        assert(is_continuation_byte(b[pos]));
    }
}

/// How many characters start in the first `n` bytes.
pub open spec fn char_index(b: Seq<u8>, n: int) -> nat
    decreases n,
{
    if n <= 0 {
        0
    } else {
        char_index(b, n - 1) + (if is_continuation_byte(b[n - 1]) { 0nat } else { 1nat })
    }
}

/// Where character number `col` starts; past the last one, the end.
pub open spec fn char_start(b: Seq<u8>, col: nat) -> int
    decreases col,
{
    if col == 0 {
        0
    } else {
        next_char(b, char_start(b, (col - 1) as nat))
    }
}

/// The position of character column `col` on line `line`. A line past the last
/// one means the last one, a column past the end of the line its end.
pub open spec fn clamped_pos(b: Seq<u8>, line: int, col: nat) -> int {
    let last = line_total(b) - 1;
    let l = (if line < last { line } else { last }) as nat;
    line_start(b, l) + char_start(line_bytes(b, l), col)
}

/// The character column of a position on its line.
pub open spec fn char_col_at(b: Seq<u8>, pos: int) -> nat {
    let line = line_at(b, pos);
    char_index(line_bytes(b, line), pos - line_start(b, line))
}

// ----- words -----

/// Left over the characters that are word characters, or that are not.
pub open spec fn skip_back(chars: Seq<char>, i: int, word: bool) -> int
    decreases i,
{
    if i > 0 && word_char(chars[i - 1]) == word {
        skip_back(chars, i - 1, word)
    } else {
        i
    }
}

/// Right over the characters that are word characters, or that are not.
pub open spec fn skip_ahead(chars: Seq<char>, i: int, word: bool) -> int
    decreases chars.len() - i,
{
    if i < chars.len() && word_char(chars[i]) == word {
        skip_ahead(chars, i + 1, word)
    } else {
        i
    }
}

/// The start of the word at or before `i`.
pub open spec fn word_left_index(chars: Seq<char>, i: int) -> int {
    if i <= 0 {
        0
    } else if word_char(chars[i - 1]) {
        skip_back(chars, i, true)
    } else {
        skip_back(chars, skip_back(chars, i, false), true)
    }
}

/// The end of the word at `i`, or the start of the next one.
pub open spec fn word_right_index(chars: Seq<char>, i: int) -> int {
    if i < chars.len() && word_char(chars[i]) {
        skip_ahead(chars, i, true)
    } else {
        skip_ahead(chars, i, false)
    }
}

proof fn lemma_skip_back(chars: Seq<char>, i: int, word: bool)
    requires
        0 <= i <= chars.len(),
    ensures
        0 <= skip_back(chars, i, word) <= i,
    decreases i,
{
    if i > 0 && word_char(chars[i - 1]) == word {
        lemma_skip_back(chars, i - 1, word);
    }
}

proof fn lemma_skip_ahead(chars: Seq<char>, i: int, word: bool)
    requires
        0 <= i <= chars.len(),
    ensures
        i <= skip_ahead(chars, i, word) <= chars.len(),
    decreases chars.len() - i,
{
    if i < chars.len() && word_char(chars[i]) == word {
        lemma_skip_ahead(chars, i + 1, word);
    }
}

/// The start of the previous word on the line of `pos`, or the start of the
/// line. On a line that is not text, one byte to the left.
pub open spec fn word_left(b: Seq<u8>, pos: int) -> int {
    let line = line_at(b, pos);
    let start = line_start(b, line);
    let chars = decode_utf8(line_bytes(b, line));
    if pos == 0 {
        0
    } else if !valid_utf8(line_bytes(b, line)) {
        pos - 1
    } else {
        start + byte_col_of(chars, word_left_index(chars, char_col_of(chars, pos - start) as int))
    }
}

/// The next word boundary to the right of `pos`: inside a word its end, even
/// where the line ends there, and elsewhere the start of the next word. Where
/// no word follows on the line, the start of the next line. On a line that is
/// not text, one byte to the right.
pub open spec fn word_right(b: Seq<u8>, pos: int) -> int {
    let line = line_at(b, pos);
    let start = line_start(b, line);
    let chars = decode_utf8(line_bytes(b, line));
    let from = char_col_of(chars, pos - start) as int;
    let there = start + byte_col_of(chars, word_right_index(chars, from));
    let in_word = from < chars.len() && word_char(chars[from]);
    if pos >= b.len() {
        b.len() as int
    } else if !valid_utf8(line_bytes(b, line)) {
        pos + 1
    } else if !in_word && there >= line_end(b, line) && line + 1 < line_total(b) {
        line_start(b, line + 1)
    } else {
        there
    }
}

// ----- lines -----

/// How many spaces and tabs a line begins with.
pub open spec fn leading_blanks(b: Seq<u8>) -> nat
    decreases b.len(),
{
    if b.len() > 0 && (b[0] == 32 || b[0] == 9) {
        1 + leading_blanks(b.drop_first())
    } else {
        0
    }
}

/// Column 0, or from there the first character that is no blank.
pub open spec fn smart_home(b: Seq<u8>, pos: int) -> int {
    let line = line_at(b, pos);
    let start = line_start(b, line);
    if pos == start && valid_utf8(line_bytes(b, line)) {
        start + leading_blanks(line_bytes(b, line))
    } else {
        start
    }
}

/// Where a movement from `pos` ends. A page is `page` lines.
pub open spec fn target(b: Seq<u8>, movement: Movement, pos: int, page: int) -> int {
    let line = line_at(b, pos) as int;
    let col = char_col_at(b, pos);
    match movement {
        Movement::Left => prev_char(b, pos),
        Movement::Right => next_char(b, pos),
        Movement::Up => if line == 0 { 0 } else { clamped_pos(b, line - 1, col) },
        Movement::Down => if line + 1 >= line_total(b) {
            pos
        } else {
            clamped_pos(b, line + 1, col)
        },
        Movement::PageUp => clamped_pos(b, if line <= page { 0 } else { line - page }, col),
        Movement::PageDown => clamped_pos(b, line + page, col),
        Movement::WordLeft => word_left(b, pos),
        Movement::WordRight => word_right(b, pos),
        Movement::LineStart => smart_home(b, pos),
        Movement::LineEnd => line_end(b, line as nat),
        Movement::DocumentStart => 0,
        Movement::DocumentEnd => b.len() as int,
    }
}

/// The number of lines a page movement covers in a viewport.
pub open spec fn page_lines(viewport: usize) -> int {
    if viewport < 1 { 1 } else { viewport as int }
}

proof fn lemma_leading_blanks(b: Seq<u8>, n: int)
    requires
        0 <= n <= b.len(),
        forall|k: int| 0 <= k < n ==> #[trigger] b[k] == 32 || b[k] == 9,
        n < b.len() ==> b[n] != 32 && b[n] != 9,
    ensures
        leading_blanks(b) == n,
    decreases b.len(),
{
    if n > 0 {
        assert(b[0] == 32 || b[0] == 9);
        lemma_leading_blanks(b.drop_first(), n - 1);
    }
}

/// Skip left over word characters, or over others.
fn back_over(chars: &Vec<char>, from: usize, word: bool) -> (r: usize)
    requires
        from <= chars.len(),
    ensures
        r == skip_back(chars@, from as int, word),
        r <= from,
{
    let mut i: usize = from;
    while i > 0 && is_word_char(chars[i - 1]) == word
        invariant
            i <= from <= chars.len(),
            skip_back(chars@, i as int, word) == skip_back(chars@, from as int, word),
        decreases i,
    {
        i -= 1;
    }
    i
}

/// Skip right over word characters, or over others.
fn ahead_over(chars: &Vec<char>, from: usize, word: bool) -> (r: usize)
    requires
        from <= chars.len(),
    ensures
        r == skip_ahead(chars@, from as int, word),
        from <= r <= chars.len(),
{
    let mut i: usize = from;
    while i < chars.len() && is_word_char(chars[i]) == word
        invariant
            from <= i <= chars.len(),
            skip_ahead(chars@, i as int, word) == skip_ahead(chars@, from as int, word),
        decreases chars.len() - i,
    {
        i += 1;
    }
    i
}

/// One character to the left of `pos`.
pub fn move_left_by_char(buffer: &TextBuffer, pos: usize) -> (r: usize)
    requires
        pos <= buffer@.len(),
    ensures
        r == prev_char(buffer@.text, pos as int),
        r <= pos,
{
    if pos == 0 {
        return 0;
    }
    let mut p: usize = pos - 1;
    while p > 0 && is_continuation(buffer.byte(p))
        invariant
            p < pos <= buffer@.len(),
            char_floor(buffer@.text, p as int) == char_floor(buffer@.text, pos - 1),
        decreases p,
    {
        p -= 1;
    }
    p
}

/// One character to the right of `pos`.
pub fn move_right_by_char(buffer: &TextBuffer, pos: usize) -> (r: usize)
    ensures
        r == next_char(buffer@.text, pos as int),
        r <= buffer@.len(),
{
    let len: usize = buffer.len();
    if pos >= len {
        return len;
    }
    let mut p: usize = pos + 1;
    while p < len && is_continuation(buffer.byte(p))
        invariant
            p <= len == buffer@.len(),
            char_ceil(buffer@.text, p as int) == char_ceil(buffer@.text, pos + 1),
        decreases len - p,
    {
        p += 1;
    }
    p
}

fn is_continuation(byte: u8) -> (r: bool)
    ensures
        r == is_continuation_byte(byte),
{
    0x80 <= byte && byte <= 0xbf
}

/// The line and the character column of a position.
pub fn cursor_char_linecol(buffer: &TextBuffer, pos: usize) -> (r: (usize, usize))
    requires
        buffer@.wf(),
        pos <= buffer@.len(),
    ensures
        r.0 == line_at(buffer@.text, pos as int),
        r.1 == char_col_at(buffer@.text, pos as int),
        r.0 < line_total(buffer@.text),
{
    let ghost b = buffer@.text;
    proof {
        lemma_line_at(b, pos as int);
    }
    match buffer.pos_to_linecol(pos) {
        Some((line, col)) => {
            let start: usize = pos - col;
            let ghost lb = line_bytes(b, line as nat);
            let mut n: usize = 0;
            let mut i: usize = 0;
            while i < col
                invariant
                    i <= col,
                    n <= i,
                    start + col == pos <= buffer@.len(),
                    b == buffer@.text,
                    lb == line_bytes(b, line as nat),
                    start == line_start(b, line as nat),
                    col <= lb.len(),
                    lb.len() == line_end(b, line as nat) - start,
                    line_end(b, line as nat) <= b.len(),
                    n == char_index(lb, i as int),
                decreases col - i,
            {
                assert(lb[i as int] == b[start + i]);
                if !is_continuation(buffer.byte(start + i)) {
                    n += 1;
                }
                i += 1;
            }
            (line, n)
        },
        None => (0, 0),
    }
}

/// The position of a character column on a line; both are clamped to what
/// exists.
pub fn clamped_line_charcol_to_pos(buffer: &TextBuffer, line: usize, col: usize) -> (r: usize)
    requires
        buffer@.wf(),
    ensures
        r == clamped_pos(buffer@.text, line as int, col as nat),
        r <= buffer@.len(),
{
    let ghost b = buffer@.text;
    let last: usize = buffer.line_count() - 1;
    let l: usize = if line < last { line } else { last };
    proof {
        lemma_line_start(b, l as nat);
    }
    match buffer.line_byte_range(l) {
        Some(range) => {
            let start: usize = range.start;
            let end: usize = range.end;
            let ghost lb = line_bytes(b, l as nat);
            let mut p: usize = start;
            let mut i: usize = 0;
            while i < col && p < end
                invariant
                    i <= col,
                    start <= p <= end <= buffer@.len(),
                    b == buffer@.text,
                    lb == b.subrange(start as int, end as int),
                    p - start == char_start(lb, i as nat),
                decreases end - p,
            {
                let ghost from = p - start;
                p += 1;
                while p < end && is_continuation(buffer.byte(p))
                    invariant
                        0 <= from,
                        start + from < p <= end <= buffer@.len(),
                        b == buffer@.text,
                        lb == b.subrange(start as int, end as int),
                        char_ceil(lb, p - start) == char_ceil(lb, from + 1),
                    decreases end - p,
                {
                    assert(lb[p - start] == b[p as int]);
                    p += 1;
                }
                assert(p < end ==> lb[p - start] == b[p as int]);
                i += 1;
            }
            proof {
                if i < col {
                    lemma_char_start_end(lb, i as nat, col as nat);
                }
            }
            p
        },
        None => 0,
    }
}

/// Once the end is reached, more columns stay there.
proof fn lemma_char_start_end(b: Seq<u8>, i: nat, j: nat)
    requires
        i <= j,
        char_start(b, i) == b.len(),
    ensures
        char_start(b, j) == b.len(),
    decreases j - i,
{
    if i < j {
        lemma_char_start_end(b, i, (j - 1) as nat);
    }
}

/// The start of the previous word, or the start of the line.
pub fn skip_word_left(buffer: &TextBuffer, pos: usize) -> (r: usize)
    requires
        pos <= buffer@.len(),
    ensures
        r == word_left(buffer@.text, pos as int),
        r <= pos,
{
    let len: usize = buffer.len();
    if pos == 0 {
        return 0;
    }
    let ghost b = buffer@.text;
    assert(b.len() == len);
    proof {
        lemma_line_at(b, pos as int);
    }
    match buffer.pos_to_linecol(pos) {
        None => pos - 1,
        Some((line, col)) => {
            let start: usize = pos - col;
            proof {
                lemma_line_start(b, line as nat);
            }
            match line_chars(buffer, line) {
                None => pos - 1,
                Some(chars) => {
                    let from: usize = char_col_in(&chars, col);
                    let i: usize = if from > 0 && !is_word_char(chars[from - 1]) {
                        back_over(&chars, back_over(&chars, from, false), true)
                    } else {
                        back_over(&chars, from, true)
                    };
                    let bytes: usize = byte_col_in(&chars, i);
                    proof {
                        assert(chars@.take(0) =~= seq![]);
                        if i < from {
                            lemma_starts_before(chars@, i as int, col as int);
                        } else if from > 0 {
                            lemma_skip_back(chars@, from - 1, word_char(chars@[from - 1]));
                        }
                    }
                    start + bytes
                },
            }
        },
    }
}

/// A character counted by `char_col_of` starts before `byte`.
proof fn lemma_starts_before(s: Seq<char>, i: int, byte: int)
    requires
        0 <= i < char_col_of(s, byte),
    ensures
        byte_col_of(s, i) < byte,
    decreases s.len(),
{
    lemma_char_col_bound(s, byte);
    assert(s.take(0) =~= seq![]);
    if i > 0 {
        let rest = s.drop_first();
        assert(s.take(i).drop_first() =~= rest.take(i - 1));
        lemma_char_col_bound(rest, byte - char_bytes(s[0]));
        lemma_starts_before(rest, i - 1, byte - char_bytes(s[0]));
    }
}

/// The characters of a line, where it is text.
fn line_chars(buffer: &TextBuffer, line: usize) -> (r: Option<Vec<char>>)
    ensures
        r is Some <==> line < line_total(buffer@.text) && valid_utf8(
            line_bytes(buffer@.text, line as nat),
        ),
        r matches Some(chars) ==> chars@ == decode_utf8(line_bytes(buffer@.text, line as nat))
            && encode_utf8(chars@) == line_bytes(buffer@.text, line as nat)
            && byte_len(chars@) == line_end(buffer@.text, line as nat) - line_start(
            buffer@.text,
            line as nat,
        ),
{
    match buffer.line_text(line) {
        Some(text) => {
            let chars: Vec<char> = chars_of(text.as_str());
            proof {
                encode_utf8_decode_utf8(chars@);
                lemma_line_start(buffer@.text, line as nat);
            }
            Some(chars)
        },
        None => None,
    }
}

/// The next word boundary: the end of the word under the caret, or the start
/// of the next word. From outside a word it crosses line ends.
pub fn skip_word_right(buffer: &TextBuffer, pos: usize) -> (r: usize)
    requires
        buffer@.wf(),
    ensures
        r == word_right(buffer@.text, pos as int),
        r <= buffer@.len(),
{
    let len: usize = buffer.len();
    if pos >= len {
        return len;
    }
    let ghost b = buffer@.text;
    proof {
        lemma_line_at(b, pos as int);
    }
    match buffer.pos_to_linecol(pos) {
        None => pos + 1,
        Some((line, col)) => {
            let start: usize = pos - col;
            proof {
                lemma_line_start(b, line as nat);
            }
            match line_chars(buffer, line) {
                None => pos + 1,
                Some(chars) => {
                    let from: usize = char_col_in(&chars, col);
                    let in_word: bool = from < chars.len() && is_word_char(chars[from]);
                    let i: usize = if in_word {
                        ahead_over(&chars, from, true)
                    } else {
                        ahead_over(&chars, from, false)
                    };
                    let there: usize = start + byte_col_in(&chars, i);
                    let count: usize = buffer.line_count();
                    if !in_word && line + 1 < count {
                        match (buffer.line_byte_range(line), buffer.line_byte_range(line + 1)) {
                            (Some(this), Some(next)) => {
                                if there >= this.end {
                                    return next.start;
                                }
                            },
                            _ => {},
                        }
                    }
                    there
                },
            }
        },
    }
}

/// Where a movement from `pos` ends, in a viewport of `viewport` lines.
pub fn compute_target_from(
    buffer: &TextBuffer,
    movement: Movement,
    pos: usize,
    viewport: usize,
) -> (r: usize)
    requires
        buffer@.wf(),
        pos <= buffer@.len(),
    ensures
        r == target(buffer@.text, movement, pos as int, page_lines(viewport)),
        r <= buffer@.len(),
{
    let ghost b = buffer@.text;
    proof {
        lemma_line_at(b, pos as int);
        lemma_line_start(b, line_at(b, pos as int));
    }
    let page: usize = if viewport < 1 { 1 } else { viewport };
    match movement {
        Movement::Left => move_left_by_char(buffer, pos),
        Movement::Right => move_right_by_char(buffer, pos),
        Movement::Up => {
            let (line, col) = cursor_char_linecol(buffer, pos);
            if line == 0 {
                0
            } else {
                clamped_line_charcol_to_pos(buffer, line - 1, col)
            }
        },
        Movement::Down => {
            let (line, col) = cursor_char_linecol(buffer, pos);
            let count: usize = buffer.line_count();
            if line + 1 >= count {
                pos
            } else {
                clamped_line_charcol_to_pos(buffer, line + 1, col)
            }
        },
        Movement::PageUp => {
            let (line, col) = cursor_char_linecol(buffer, pos);
            clamped_line_charcol_to_pos(buffer, line.saturating_sub(page), col)
        },
        Movement::PageDown => {
            let (line, col) = cursor_char_linecol(buffer, pos);
            let last: usize = buffer.line_count() - 1;
            let wanted: usize = line.saturating_add(page);
            let there: usize = if wanted < last { wanted } else { last };
            clamped_line_charcol_to_pos(buffer, there, col)
        },
        Movement::WordLeft => skip_word_left(buffer, pos),
        Movement::WordRight => skip_word_right(buffer, pos),
        Movement::LineStart => line_home(buffer, pos),
        Movement::LineEnd => {
            match buffer.pos_to_linecol(pos) {
                Some((line, _)) => match buffer.line_byte_range(line) {
                    Some(range) => range.end,
                    None => buffer.len(),
                },
                None => buffer.len(),
            }
        },
        Movement::DocumentStart => 0,
        Movement::DocumentEnd => buffer.len(),
    }
}

/// The start of the line, or from there the first character that is no blank.
fn line_home(buffer: &TextBuffer, pos: usize) -> (r: usize)
    requires
        pos <= buffer@.len(),
    ensures
        r == smart_home(buffer@.text, pos as int),
        r <= buffer@.len(),
{
    let ghost b = buffer@.text;
    proof {
        lemma_line_at(b, pos as int);
    }
    match buffer.pos_to_linecol(pos) {
        None => 0,
        Some((line, col)) => {
            let start: usize = pos - col;
            if col != 0 {
                return start;
            }
            match (buffer.line_text(line), buffer.line_byte_range(line)) {
                (Some(_), Some(range)) => {
                    let ghost lb = line_bytes(b, line as nat);
                    let mut i: usize = start;
                    while i < range.end && (buffer.byte(i) == 32 || buffer.byte(i) == 9)
                        invariant
                            start <= i <= range.end <= buffer@.len(),
                            b == buffer@.text,
                            lb == b.subrange(start as int, range.end as int),
                            forall|k: int| 0 <= k < i - start ==> #[trigger] lb[k] == 32 || lb[k] == 9,
                        decreases range.end - i,
                    {
                        assert(lb[i - start] == b[i as int]);
                        i += 1;
                    }
                    proof {
                        assert(i < range.end ==> lb[i - start] == b[i as int]);
                        lemma_leading_blanks(lb, i - start);
                    }
                    i
                },
                _ => start,
            }
        },
    }
}

} // verus!

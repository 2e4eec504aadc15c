//! Edits at the carets: deleting selections, typing, pairs and indentation.

use vstd::prelude::*;
use vstd::utf8::*;

use crate::buffer::{
    caret, clamp_selections, lemma_replaced_wf, BufferError, BufferV, Selection, TextBuffer,
};
use crate::columns::byte_len;
use crate::lines::{line_bytes, line_total};
use crate::motion::{leading_blanks, move_left_by_char, move_right_by_char, next_char, prev_char};
use crate::order::{
    in_order, law_sorted_set, sorted_indices, sorted_set, sorted_unique, stable_order,
};
use crate::text::chars_of;

verus! {

// ----- deleting selections -----

/// The selections that select something.
pub open spec fn selected(s: Seq<Selection>) -> Seq<Selection>
    decreases s.len(),
{
    if s.len() == 0 {
        seq![]
    } else if s.last().anchor != s.last().head {
        selected(s.drop_last()).push(s.last())
    } else {
        selected(s.drop_last())
    }
}

/// The positions of the plain carets.
pub open spec fn plain_carets(s: Seq<Selection>) -> Seq<usize>
    decreases s.len(),
{
    if s.len() == 0 {
        seq![]
    } else if s.last().anchor == s.last().head {
        plain_carets(s.drop_last()).push(s.last().head)
    } else {
        plain_carets(s.drop_last())
    }
}

pub open spec fn starts(s: Seq<Selection>) -> Seq<usize> {
    Seq::new(s.len(), |i: int| s[i].start() as usize)
}

pub open spec fn heads(s: Seq<Selection>) -> Seq<usize> {
    Seq::new(s.len(), |i: int| s[i].head)
}

pub open spec fn carets(positions: Seq<usize>) -> Seq<Selection> {
    Seq::new(positions.len(), |i: int| caret(positions[i]))
}

/// Positions after `width` bytes before them are gone.
pub open spec fn shift_left(positions: Seq<usize>, width: int) -> Seq<usize> {
    Seq::new(
        positions.len(),
        |i: int| if positions[i] >= width { (positions[i] - width) as usize } else { 0usize },
    )
}

/// The selections in the order in which they are deleted: from the right, so
/// that what is still to be deleted does not move.
pub open spec fn deletion_order(s: Seq<Selection>) -> Seq<Selection> {
    let sel = selected(s);
    in_order(sel, stable_order(starts(sel), sel.len() as int, true))
}

/// What some deletions have done so far.
pub struct Deletions {
    pub buffer: BufferV,
    /// Where the deleted parts were.
    pub carets: Seq<usize>,
    /// One of them was no longer inside the text.
    pub failed: bool,
}

/// The first `n` deletions of `order`, one after another.
pub open spec fn deletions(b: BufferV, order: Seq<Selection>, n: int) -> Deletions
    decreases n,
{
    if n <= 0 {
        Deletions { buffer: b, carets: seq![], failed: false }
    } else {
        let d = deletions(b, order, n - 1);
        let s = order[n - 1];
        if s.end() <= d.buffer.len() {
            Deletions {
                buffer: d.buffer.deleted(s.start(), s.end()),
                carets: shift_left(d.carets, s.end() - s.start()).push(s.start() as usize),
                failed: d.failed,
            }
        } else {
            Deletions { failed: true, ..d }
        }
    }
}

/// All selected text deleted. A caret stays where each part was, and the plain
/// carets stay.
pub open spec fn selections_deleted(b: BufferV) -> Deletions {
    let order = deletion_order(b.selections);
    let d = deletions(b, order, order.len() as int);
    if d.carets.len() == 0 {
        d
    } else {
        let positions = sorted_set(d.carets + plain_carets(b.selections));
        Deletions { buffer: d.buffer.with_selections(carets(positions)), ..d }
    }
}

/// What became of the selected text.
#[derive(Debug, Clone, Copy, PartialEq, Eq, Structural)]
pub struct DeleteOutcome {
    /// Something was deleted.
    pub deleted: bool,
    /// A selection was no longer inside the text.
    pub failed: bool,
}

/// Delete all selected text, from the right. Reports whether anything was
/// deleted and whether a selection had to be left out.
pub fn delete_selections(buffer: &mut TextBuffer) -> (r: DeleteOutcome)
    requires
        old(buffer)@.wf(),
    ensures
        final(buffer)@.wf(),
        final(buffer)@ == selections_deleted(old(buffer)@).buffer,
        r.deleted == (selections_deleted(old(buffer)@).carets.len() > 0),
        r.failed == selections_deleted(old(buffer)@).failed,
{
    let ghost b = buffer@;
    let mut sel: Vec<Selection> = Vec::new();
    let mut plain: Vec<usize> = Vec::new();
    let mut keys: Vec<usize> = Vec::new();
    let mut i: usize = 0;
    let count: usize = buffer.selections().len();
    assert(b.selections.take(0) =~= seq![]);
    while i < count
        invariant
            b == buffer@,
            i <= count == b.selections.len(),
            sel@ == selected(b.selections.take(i as int)),
            plain@ == plain_carets(b.selections.take(i as int)),
            keys@ == starts(sel@),
        decreases count - i,
    {
        let s: Selection = buffer.selections()[i];
        proof {
            assert(b.selections.take(i + 1).drop_last() =~= b.selections.take(i as int));
        }
        if s.is_collapsed() {
            plain.push(s.head);
        } else {
            sel.push(s);
            keys.push(s.range().start);
            assert(keys@ =~= starts(sel@));
        }
        i += 1;
    }
    assert(b.selections.take(i as int) =~= b.selections);
    let order: Vec<usize> = sorted_indices(&keys, true);
    let ghost ordered = deletion_order(b.selections);
    assert(ordered =~= in_order(sel@, order@));

    let mut positions: Vec<usize> = Vec::new();
    let mut failed: bool = false;
    let mut n: usize = 0;
    while n < order.len()
        invariant
            n <= order.len() == sel.len(),
            forall|k: int| 0 <= k < order.len() ==> (#[trigger] order@[k]) < sel.len(),
            ordered == in_order(sel@, order@),
            buffer@.wf(),
            buffer@ == deletions(b, ordered, n as int).buffer,
            positions@ == deletions(b, ordered, n as int).carets,
            failed == deletions(b, ordered, n as int).failed,
        decreases order.len() - n,
    {
        let s: Selection = sel[order[n]];
        assert(s == ordered[n as int]);
        let range = s.range();
        match buffer.delete(range.start, range.end) {
            Ok(at) => {
                let width: usize = range.end - range.start;
                positions = shifted_left(&positions, width);
                positions.push(at);
            },
            Err(_) => {
                failed = true;
            },
        }
        n += 1;
    }
    if positions.len() == 0 {
        return DeleteOutcome { deleted: false, failed };
    }
    let ghost before = positions@;
    positions.append(&mut plain);
    assert(positions@ =~= before + plain_carets(b.selections));
    let all: Vec<usize> = sorted_unique(&positions);
    let new_selections: Vec<Selection> = carets_at(&all);
    proof {
        law_sorted_set(positions@);
    }
    buffer.set_selections(new_selections);
    DeleteOutcome { deleted: true, failed }
}

fn shifted_left(positions: &Vec<usize>, width: usize) -> (r: Vec<usize>)
    ensures
        r@ == shift_left(positions@, width as int),
{
    let mut out: Vec<usize> = Vec::new();
    let mut i: usize = 0;
    while i < positions.len()
        invariant
            i <= positions.len(),
            out@ == shift_left(positions@.take(i as int), width as int),
        decreases positions.len() - i,
    {
        out.push(positions[i].saturating_sub(width));
        i += 1;
        assert(out@ =~= shift_left(positions@.take(i as int), width as int));
    }
    assert(positions@.take(i as int) =~= positions@);
    out
}

fn carets_at(positions: &Vec<usize>) -> (r: Vec<Selection>)
    ensures
        r@ == carets(positions@),
{
    let mut out: Vec<Selection> = Vec::new();
    let mut i: usize = 0;
    while i < positions.len()
        invariant
            i <= positions.len(),
            out@ == carets(positions@.take(i as int)),
        decreases positions.len() - i,
    {
        out.push(Selection::collapsed(positions[i]));
        i += 1;
        assert(out@ =~= carets(positions@.take(i as int)));
    }
    assert(positions@.take(i as int) =~= positions@);
    out
}

// ----- typing -----

/// `with` inserted at each of `positions`, the last one first.
pub open spec fn inserted_at_all(b: BufferV, positions: Seq<usize>, with: Seq<u8>) -> BufferV
    decreases positions.len(),
{
    if positions.len() == 0 {
        b
    } else {
        inserted_at_all(b.inserted(positions.last() as int, with), positions.drop_last(), with)
    }
}

/// The carets behind the insertions: each insertion moves those to its right.
pub open spec fn carets_behind(positions: Seq<usize>, len: int) -> Seq<Selection> {
    Seq::new(positions.len(), |i: int| caret((positions[i] + (i + 1) * len) as usize))
}

/// Whether the text still has a possible size with `n` insertions.
pub open spec fn room_for(b: BufferV, n: int, len: int) -> bool {
    b.len() + n * len <= isize::MAX
}

/// `with` typed at every caret of `b`.
pub open spec fn typed(b: BufferV, with: Seq<u8>) -> BufferV {
    let positions = sorted_set(heads(b.selections));
    BufferV {
        selections: carets_behind(positions, with.len() as int),
        ..inserted_at_all(b, positions, with)
    }
}

/// Typing at carets inside the text keeps the buffer well formed and makes it
/// longer by what was typed.
proof fn lemma_inserted_at_all(b: BufferV, positions: Seq<usize>, with: Seq<u8>)
    requires
        b.wf(),
        forall|i: int| 0 <= i < positions.len() ==> (#[trigger] positions[i]) <= b.len(),
        room_for(b, positions.len() as int, with.len() as int),
    ensures
        inserted_at_all(b, positions, with).wf(),
        inserted_at_all(b, positions, with).len() == b.len() + positions.len() * with.len(),
    decreases positions.len(),
{
    let len = with.len() as int;
    let n = positions.len() as int;
    if n > 0 {
        let at = positions.last() as int;
        assert(n * len == (n - 1) * len + len) by (nonlinear_arith);
        assert((n - 1) * len >= 0) by (nonlinear_arith)
            requires
                n >= 1,
                len >= 0,
        ;
        lemma_replaced_wf(b, at, at, with);
        let next = b.inserted(at, with);
        assert(next.len() == b.len() + len);
        assert forall|i: int| 0 <= i < next.selections.len() implies (
        #[trigger] next.selections[i]).anchor <= next.text.len() && next.selections[i].head
            <= next.text.len() by {}
        lemma_inserted_at_all(next, positions.drop_last(), with);
    }
}

/// Type `text` at every caret. The carets end up behind what was typed.
pub fn type_at_carets(buffer: &mut TextBuffer, text: &str) -> (r: Result<(), BufferError>)
    requires
        old(buffer)@.wf(),
    ensures
        final(buffer)@.wf(),
        r == (if room_for(
            old(buffer)@,
            sorted_set(heads(old(buffer)@.selections)).len() as int,
            byte_len(text@) as int,
        ) {
            Ok::<(), BufferError>(())
        } else {
            Err(BufferError::TooLarge)
        }),
        r is Ok ==> final(buffer)@ == typed(old(buffer)@, encode_utf8(text@)),
        r is Err ==> final(buffer)@ == old(buffer)@,
{
    let ghost b = buffer@;
    let ghost with = encode_utf8(text@);
    let mut raw: Vec<usize> = Vec::new();
    let mut i: usize = 0;
    let count: usize = buffer.selections().len();
    while i < count
        invariant
            b == buffer@,
            i <= count == b.selections.len(),
            raw@ == heads(b.selections.take(i as int)),
        decreases count - i,
    {
        raw.push(buffer.selections()[i].head);
        i += 1;
        assert(raw@ =~= heads(b.selections.take(i as int)));
    }
    assert(b.selections.take(i as int) =~= b.selections);
    let positions: Vec<usize> = sorted_unique(&raw);
    let n: usize = positions.len();
    let text_len: usize = text.as_bytes().len();
    let room: usize = isize::MAX as usize - buffer.len();
    let fits: bool = match n.checked_mul(text_len) {
        Some(growth) => growth <= room,
        None => false,
    };
    if !fits {
        return Err(BufferError::TooLarge);
    }
    assert forall|k: int| 0 <= k < positions.len() implies (#[trigger] positions@[k])
        <= b.len() by {
        assert(positions@.contains(positions@[k]));
        assert(raw@.contains(positions@[k]));
        let m = choose|m: int| 0 <= m < raw@.len() && raw@[m] == positions@[k];
        assert(b.selections[m].head == positions@[k]);
    }
    proof {
        lemma_inserted_at_all(b, positions@, with);
        assert(positions@.take(n as int) =~= positions@);
    }
    let mut left: usize = n;
    while left > 0
        invariant
            left <= n == positions.len(),
            with == encode_utf8(text@),
            buffer@.wf(),
            room_for(buffer@, left as int, with.len() as int),
            forall|k: int| 0 <= k < left ==> (#[trigger] positions@[k]) <= buffer@.len(),
            inserted_at_all(buffer@, positions@.take(left as int), with) == inserted_at_all(
                b,
                positions@,
                with,
            ),
        decreases left,
    {
        let pos: usize = positions[left - 1];
        proof {
            let len = with.len() as int;
            assert(left * len == (left - 1) * len + len) by (nonlinear_arith);
            assert((left - 1) * len >= 0) by (nonlinear_arith)
                requires
                    left >= 1,
                    len >= 0,
            ;
            lemma_replaced_wf(buffer@, pos as int, pos as int, with);
            assert(positions@.take(left as int).drop_last() =~= positions@.take(left - 1));
            assert(positions@.take(left as int).last() == pos);
        }
        let _ = buffer.insert(pos, text);
        left -= 1;
    }
    assert(positions@.take(0) =~= seq![]);
    let behind: Vec<Selection> = behind_insertions(&positions, text_len, Ghost(b.len()));
    proof {
        law_sorted_set(raw@);
        lemma_behind_in_bounds(positions@, text_len as int, b.len(), buffer@.len());
        assert(behind@ =~= clamp_selections(behind@, buffer@.len()));
    }
    buffer.set_selections(behind);
    assert(buffer@ =~= typed(b, with));
    Ok(())
}

/// The carets behind the insertions lie inside the longer text.
proof fn lemma_behind_in_bounds(positions: Seq<usize>, len: int, before: int, after: int)
    requires
        0 <= len,
        after == before + positions.len() * len,
        after <= isize::MAX,
        forall|k: int| 0 <= k < positions.len() ==> (#[trigger] positions[k]) <= before,
    ensures
        forall|k: int|
            0 <= k < positions.len() ==> (#[trigger] carets_behind(positions, len)[k]).head <= after,
{
    assert forall|k: int| 0 <= k < positions.len() implies (#[trigger] carets_behind(
        positions,
        len,
    )[k]).head <= after by {
        let n = positions.len() as int;
        assert((k + 1) * len <= n * len) by (nonlinear_arith)
            requires
                0 <= k < n,
                0 <= len,
        ;
        assert((k + 1) * len >= 0) by (nonlinear_arith)
            requires
                0 <= k,
                0 <= len,
        ;
    }
}

fn behind_insertions(positions: &Vec<usize>, len: usize, before: Ghost<int>) -> (r: Vec<Selection>)
    requires
        before@ + positions.len() * len <= isize::MAX,
        forall|k: int| 0 <= k < positions.len() ==> (#[trigger] positions@[k]) <= before@,
    ensures
        r@ == carets_behind(positions@, len as int),
{
    let mut out: Vec<Selection> = Vec::new();
    let mut shift: usize = 0;
    let mut i: usize = 0;
    while i < positions.len()
        invariant
            i <= positions.len(),
            before@ + positions.len() * len <= isize::MAX,
            forall|k: int| 0 <= k < positions.len() ==> (#[trigger] positions@[k]) <= before@,
            shift == i * len,
            out@ == carets_behind(positions@.take(i as int), len as int),
        decreases positions.len() - i,
    {
        assert(positions@[i as int] <= before@);
        proof {
            assert((i + 1) * len <= positions.len() * len) by (nonlinear_arith)
                requires
                    i < positions.len(),
                    0 <= len,
            ;
            assert((i + 1) * len == i * len + len) by (nonlinear_arith);
            assert(i * len >= 0) by (nonlinear_arith)
                requires
                    0 <= i,
                    0 <= len,
            ;
        }
        shift += len;
        out.push(Selection::collapsed(positions[i] + shift));
        i += 1;
        assert(out@ =~= carets_behind(positions@.take(i as int), len as int));
    }
    assert(positions@.take(i as int) =~= positions@);
    out
}

// ----- characters at the caret -----

/// The one character that `part` encodes.
pub open spec fn one_char(part: Seq<u8>) -> Option<char> {
    if part.len() > 0 && valid_utf8(part) {
        Some(decode_utf8(part)[0])
    } else {
        None
    }
}

/// The character that ends at `pos`.
pub open spec fn char_before_spec(b: Seq<u8>, pos: int) -> Option<char> {
    if 0 < pos <= b.len() { one_char(b.subrange(prev_char(b, pos), pos)) } else { None }
}

/// The character that starts at `pos`.
pub open spec fn char_after_spec(b: Seq<u8>, pos: int) -> Option<char> {
    if 0 <= pos < b.len() { one_char(b.subrange(pos, next_char(b, pos))) } else { None }
}

fn first_char(buffer: &TextBuffer, start: usize, end: usize) -> (r: Option<char>)
    requires
        start < end <= buffer@.len(),
    ensures
        r == one_char(buffer@.text.subrange(start as int, end as int)),
{
    match buffer.slice(start, end) {
        Some(text) => {
            let chars: Vec<char> = chars_of(text.as_str());
            proof {
                encode_utf8_decode_utf8(text@);
            }
            if chars.len() > 0 {
                Some(chars[0])
            } else {
                None
            }
        },
        None => None,
    }
}

pub fn char_before(buffer: &TextBuffer, pos: usize) -> (r: Option<char>)
    requires
        pos <= buffer@.len(),
    ensures
        r == char_before_spec(buffer@.text, pos as int),
{
    if pos == 0 {
        return None;
    }
    let start: usize = move_left_by_char(buffer, pos);
    proof {
        lemma_prev_char_before(buffer@.text, pos as int);
    }
    first_char(buffer, start, pos)
}

pub fn char_after(buffer: &TextBuffer, pos: usize) -> (r: Option<char>)
    ensures
        r == char_after_spec(buffer@.text, pos as int),
{
    if pos >= buffer.len() {
        return None;
    }
    let end: usize = move_right_by_char(buffer, pos);
    proof {
        lemma_next_char_after(buffer@.text, pos as int);
    }
    first_char(buffer, pos, end)
}

/// A step left from inside the text really goes left.
pub proof fn lemma_prev_char_before(b: Seq<u8>, pos: int)
    requires
        0 < pos <= b.len(),
    ensures
        0 <= prev_char(b, pos) < pos,
{
    lemma_floor_bound(b, pos - 1);
}

proof fn lemma_floor_bound(b: Seq<u8>, p: int)
    requires
        0 <= p,
    ensures
        0 <= crate::motion::char_floor(b, p) <= p,
    decreases p,
{
    if p > 0 && is_continuation_byte(b[p]) {
        lemma_floor_bound(b, p - 1);
    }
}

/// A step right from inside the text really goes right.
pub proof fn lemma_next_char_after(b: Seq<u8>, pos: int)
    requires
        0 <= pos < b.len(),
    ensures
        pos < next_char(b, pos) <= b.len(),
{
    lemma_ceil_bound(b, pos + 1);
}

proof fn lemma_ceil_bound(b: Seq<u8>, p: int)
    requires
        0 <= p <= b.len(),
    ensures
        p <= crate::motion::char_ceil(b, p) <= b.len(),
    decreases b.len() - p,
{
    if p < b.len() && is_continuation_byte(b[p]) {
        lemma_ceil_bound(b, p + 1);
    }
}

/// The character that closes what `open` opens. Quotes close themselves.
pub open spec fn close_of(open: char) -> Option<char> {
    if open == '(' {
        Some(')')
    } else if open == '[' {
        Some(']')
    } else if open == '{' {
        Some('}')
    } else if open == '"' || open == '\'' {
        Some(open)
    } else {
        None
    }
}

/// The character that opens what `close` closes.
pub open spec fn open_of(close: char) -> Option<char> {
    if close == ')' {
        Some('(')
    } else if close == ']' {
        Some('[')
    } else if close == '}' {
        Some('{')
    } else if close == '"' || close == '\'' {
        Some(close)
    } else {
        None
    }
}

/// Law: opening and closing characters belong to each other.
pub proof fn law_pairs_match(open: char, close: char)
    ensures
        close_of(open) == Some(close) <==> open_of(close) == Some(open),
{
}

pub fn matching_close(open: char) -> (r: Option<char>)
    ensures
        r == close_of(open),
{
    if open == '(' {
        Some(')')
    } else if open == '[' {
        Some(']')
    } else if open == '{' {
        Some('}')
    } else if open == '"' || open == '\'' {
        Some(open)
    } else {
        None
    }
}

pub fn matching_open(close: char) -> (r: Option<char>)
    ensures
        r == open_of(close),
{
    if close == ')' {
        Some('(')
    } else if close == ']' {
        Some('[')
    } else if close == '}' {
        Some('{')
    } else if close == '"' || close == '\'' {
        Some(close)
    } else {
        None
    }
}

/// A range deleted and the caret left where it was.
pub open spec fn cut_out(b: BufferV, start: int, end: int) -> BufferV {
    b.deleted(start, end).with_cursor(start)
}

/// The text left of the caret deleted: one byte, or both characters of an
/// empty pair.
pub open spec fn backspaced(b: BufferV) -> BufferV {
    let pos = b.cursor() as int;
    if pos == 0 {
        b
    } else {
        match (char_before_spec(b.text, pos), char_after_spec(b.text, pos)) {
            (Some(open), Some(close)) => if close_of(open) == Some(close) {
                cut_out(b, prev_char(b.text, pos), pos + 1)
            } else {
                cut_out(b, pos - 1, pos)
            },
            _ => cut_out(b, pos - 1, pos),
        }
    }
}

/// Delete a range and leave the caret there.
pub fn delete_range(buffer: &mut TextBuffer, start: usize, end: usize)
    requires
        old(buffer)@.wf(),
        start <= end <= old(buffer)@.len(),
    ensures
        final(buffer)@.wf(),
        final(buffer)@ == cut_out(old(buffer)@, start as int, end as int),
{
    let _ = buffer.delete(start, end);
    buffer.set_cursor(start);
}

/// Delete to the left of the caret.
pub fn delete_left(buffer: &mut TextBuffer)
    requires
        old(buffer)@.wf(),
    ensures
        final(buffer)@.wf(),
        final(buffer)@ == backspaced(old(buffer)@),
{
    let pos: usize = buffer.cursor();
    if pos == 0 {
        return;
    }
    let before: Option<char> = char_before(buffer, pos);
    let after: Option<char> = char_after(buffer, pos);
    if let (Some(open), Some(close)) = (before, after) {
        if let Some(expected) = matching_close(open) {
            if expected == close {
                let left: usize = move_left_by_char(buffer, pos);
                delete_range(buffer, left, pos + 1);
                return;
            }
        }
    }
    delete_range(buffer, pos - 1, pos);
}

/// The byte right of the caret deleted.
pub open spec fn deleted_right(b: BufferV) -> BufferV {
    let pos = b.cursor() as int;
    if pos < b.len() { cut_out(b, pos, pos + 1) } else { b }
}

/// Delete to the right of the caret.
pub fn delete_right(buffer: &mut TextBuffer)
    requires
        old(buffer)@.wf(),
    ensures
        final(buffer)@.wf(),
        final(buffer)@ == deleted_right(old(buffer)@),
{
    let pos: usize = buffer.cursor();
    if pos < buffer.len() {
        delete_range(buffer, pos, pos + 1);
    }
}

/// A pair typed at the caret, the caret between its two characters.
pub open spec fn paired(b: BufferV, open: char, close: char) -> BufferV {
    let pos = b.cursor() as int;
    let pair = encode_utf8(seq![open, close]);
    let after = b.inserted(pos, pair);
    after.with_cursor(prev_char(after.text, pos + pair.len()))
}

/// Type an opening character and its closing one, leaving the caret between
/// them. Refused only where the text would become too large.
pub fn insert_pair(buffer: &mut TextBuffer, open: char, close: char) -> (r: bool)
    requires
        old(buffer)@.wf(),
    ensures
        final(buffer)@.wf(),
        r == room_for(old(buffer)@, 1, byte_len(seq![open, close]) as int),
        r ==> final(buffer)@ == paired(old(buffer)@, open, close),
        !r ==> final(buffer)@ == old(buffer)@,
{
    let pos: usize = buffer.cursor();
    let mut pair: String = String::new();
    pair.push(open);
    pair.push(close);
    assert(pair@ =~= seq![open, close]);
    match buffer.insert(pos, pair.as_str()) {
        Ok(after) => {
            let between: usize = move_left_by_char(buffer, after);
            buffer.set_cursor(between);
            true
        },
        Err(_) => false,
    }
}

/// The caret moved over the character right of it.
pub open spec fn stepped_over(b: BufferV) -> BufferV {
    b.with_cursor(next_char(b.text, b.cursor() as int))
}

pub fn step_over(buffer: &mut TextBuffer)
    requires
        old(buffer)@.wf(),
    ensures
        final(buffer)@.wf(),
        final(buffer)@ == stepped_over(old(buffer)@),
{
    let pos: usize = buffer.cursor();
    let to: usize = move_right_by_char(buffer, pos);
    buffer.set_cursor(to);
}

// ----- indentation -----

/// One level of indentation.
pub open spec fn indent_unit(use_spaces: bool, tab_width: nat) -> Seq<char> {
    if use_spaces { Seq::new(tab_width, |i: int| ' ') } else { seq!['\t'] }
}

/// The line ends with an opening bracket or an arrow.
pub open spec fn opens_block(line: Seq<u8>) -> bool {
    ||| line.len() > 0 && (line.last() == 0x7b || line.last() == 0x28 || line.last() == 0x5b)
    ||| line.len() > 1 && line.last() == 0x3e && line[line.len() - 2] == 0x3d
}

/// What a new line after `line` begins with: the blanks of `line`, and one
/// level more behind an opening.
pub open spec fn indent_after(line: Seq<u8>, use_spaces: bool, tab_width: nat) -> Seq<char> {
    let blanks = Seq::new(
        leading_blanks(line),
        |i: int| if line[i] == 32 { ' ' } else { '\t' },
    );
    if opens_block(line) { blanks + indent_unit(use_spaces, tab_width) } else { blanks }
}

pub fn push_indent(out: &mut String, use_spaces: bool, tab_width: usize)
    ensures
        final(out)@ == old(out)@ + indent_unit(use_spaces, tab_width as nat),
{
    if !use_spaces {
        out.push('\t');
        assert(out@ =~= old(out)@ + seq!['\t']);
        return;
    }
    let ghost before = out@;
    let mut i: usize = 0;
    while i < tab_width
        invariant
            i <= tab_width,
            out@ == before + indent_unit(true, i as nat),
        decreases tab_width - i,
    {
        out.push(' ');
        i += 1;
        assert(out@ =~= before + indent_unit(true, i as nat));
    }
}

pub proof fn lemma_blanks_step(line: Seq<u8>, n: int)
    requires
        0 <= n <= line.len(),
        forall|k: int| 0 <= k < n ==> #[trigger] line[k] == 32 || line[k] == 9,
        n < line.len() ==> line[n] != 32 && line[n] != 9,
    ensures
        leading_blanks(line) == n,
    decreases line.len(),
{
    if n > 0 {
        assert(line[0] == 32 || line[0] == 9);
        lemma_blanks_step(line.drop_first(), n - 1);
    }
}

/// The indentation of a new line after line `line`.
pub fn auto_indent(buffer: &TextBuffer, line: usize, use_spaces: bool, tab_width: usize) -> (r: String)
    requires
        line < line_total(buffer@.text),
    ensures
        r@ == indent_after(line_bytes(buffer@.text, line as nat), use_spaces, tab_width as nat),
{
    let ghost lb = line_bytes(buffer@.text, line as nat);
    let mut out: String = String::new();
    if let Some(range) = buffer.line_byte_range(line) {
        let start: usize = range.start;
        let end: usize = range.end;
        let mut i: usize = start;
        while i < end && (buffer.byte(i) == 32 || buffer.byte(i) == 9)
            invariant
                start <= i <= end <= buffer@.len(),
                lb == buffer@.text.subrange(start as int, end as int),
                forall|k: int| 0 <= k < i - start ==> #[trigger] lb[k] == 32 || lb[k] == 9,
                out@ == Seq::new((i - start) as nat, |k: int| if lb[k] == 32 { ' ' } else { '\t' }),
            decreases end - i,
        {
            assert(lb[i - start] == buffer@.text[i as int]);
            if buffer.byte(i) == 32 {
                out.push(' ');
            } else {
                out.push('\t');
            }
            i += 1;
            assert(out@ =~= Seq::new(
                (i - start) as nat,
                |k: int| if lb[k] == 32 { ' ' } else { '\t' },
            ));
        }
        proof {
            assert(i < end ==> lb[i - start] == buffer@.text[i as int]);
            lemma_blanks_step(lb, i - start);
        }
        let mut opens: bool = false;
        if end > start {
            let last: u8 = buffer.byte(end - 1);
            assert(last == lb.last());
            opens = last == 0x7b || last == 0x28 || last == 0x5b;
            if end - start > 1 && last == 0x3e {
                assert(lb[lb.len() - 2] == buffer@.text[end - 2]);
                opens = opens || buffer.byte(end - 2) == 0x3d;
            }
        }
        if opens {
            push_indent(&mut out, use_spaces, tab_width);
        }
    }
    out
}

} // verus!

//! Edits of whole lines: delete, duplicate and move.

use vstd::prelude::*;

use crate::buffer::{replace_result, splice, BufferError, BufferV, TextBuffer};
use crate::editing::{cut_out, delete_range};
use crate::lines::{
    lemma_line_at, lemma_line_end_from, lemma_line_end_from_is, lemma_line_start,
    lemma_newlines_grow, lemma_newlines_step, line_at, newlines, line_bytes, line_end, line_start, line_total,
    NEWLINE,
};

verus! {

/// The line that the caret is on.
pub open spec fn caret_line(b: BufferV) -> nat {
    line_at(b.text, b.cursor() as int)
}

/// The caret's line deleted with its newline; the last line goes with the
/// newline before it.
#[verifier::opaque]
pub open spec fn line_deleted(b: BufferV) -> BufferV {
    let line = caret_line(b);
    let t = b.text;
    if line + 1 < line_total(t) {
        cut_out(b, line_start(t, line), line_start(t, line + 1))
    } else if line > 0 {
        cut_out(b, line_end(t, (line - 1) as nat), line_end(t, line))
    } else {
        cut_out(b, 0, line_end(t, line))
    }
}

/// Where a copy of the caret's line goes, and with which newline.
pub open spec fn duplicate_at(b: BufferV) -> int {
    let line = caret_line(b);
    if line + 1 < line_total(b.text) { line_start(b.text, line + 1) } else { b.len() }
}

pub open spec fn duplicate_text(b: BufferV) -> Seq<u8> {
    let line = caret_line(b);
    if line + 1 < line_total(b.text) {
        line_bytes(b.text, line).push(NEWLINE)
    } else {
        seq![NEWLINE] + line_bytes(b.text, line)
    }
}

/// A copy of the caret's line below it. The caret goes to the start of the
/// copy; where the line was the last one, to the end of the text.
pub open spec fn line_duplicated(b: BufferV) -> BufferV {
    let at = duplicate_at(b);
    let after = b.replaced(at, at, duplicate_text(b));
    if caret_line(b) + 1 < line_total(b.text) {
        after.with_cursor(at)
    } else {
        after.with_cursor(after.len())
    }
}

/// Lines `upper` and `upper + 1` exchanged. The newline between them stays
/// between them, and one behind the lower line stays behind it.
pub open spec fn swapped_lines(t: Seq<u8>, upper: nat) -> Seq<u8> {
    line_bytes(t, upper + 1) + seq![NEWLINE] + line_bytes(t, upper)
}

/// The caret's line exchanged with its neighbour above or below, the caret at
/// the start of the line number that it has moved to. At the edge of the text
/// nothing changes.
#[verifier::opaque]
pub open spec fn line_moved(b: BufferV, up: bool) -> BufferV {
    let line = caret_line(b);
    let t = b.text;
    if up && line == 0 || !up && line + 1 >= line_total(t) {
        b
    } else {
        let upper = (if up { line - 1 } else { line as int }) as nat;
        let to = if up { upper } else { upper + 1 };
        let after = b.replaced(
            line_start(t, upper),
            line_end(t, upper + 1),
            swapped_lines(t, upper),
        );
        after.with_cursor(line_start(after.text, to))
    }
}

/// Delete the line that the caret is on.
pub fn delete_current_line(buffer: &mut TextBuffer)
    requires
        old(buffer)@.wf(),
    ensures
        final(buffer)@.wf(),
        final(buffer)@ == line_deleted(old(buffer)@),
{
    proof {
        reveal(line_deleted);
    }
    let ghost t = buffer@.text;
    let pos: usize = buffer.cursor();
    proof {
        lemma_line_at(t, pos as int);
        lemma_line_start(t, line_at(t, pos as int));
    }
    if let Some((line, _)) = buffer.pos_to_linecol(pos) {
        if let Some(range) = buffer.line_byte_range(line) {
            let count: usize = buffer.line_count();
            if line + 1 < count {
                if let Some(next) = buffer.line_byte_range(line + 1) {
                    delete_range(buffer, range.start, next.start);
                }
            } else if line > 0 {
                proof {
                    lemma_line_start(t, (line - 1) as nat);
                }
                if let Some(prev) = buffer.line_byte_range(line - 1) {
                    delete_range(buffer, prev.end, range.end);
                }
            } else {
                delete_range(buffer, 0, range.end);
            }
        }
    }
}

/// Put a copy of the caret's line below it. Refused only where the text would
/// become too large.
pub fn duplicate_current_line(buffer: &mut TextBuffer) -> (r: Result<(), BufferError>)
    requires
        old(buffer)@.wf(),
    ensures
        final(buffer)@.wf(),
        r == replace_result(
            old(buffer)@,
            duplicate_at(old(buffer)@),
            duplicate_at(old(buffer)@),
            duplicate_text(old(buffer)@),
        ),
        r is Ok ==> final(buffer)@ == line_duplicated(old(buffer)@),
        r is Err ==> final(buffer)@ == old(buffer)@,
{
    let ghost b = buffer@;
    let ghost t = buffer@.text;
    let pos: usize = buffer.cursor();
    proof {
        lemma_line_at(t, pos as int);
        lemma_line_start(t, line_at(t, pos as int));
    }
    let line: usize = match buffer.pos_to_linecol(pos) {
        Some((line, _)) => line,
        None => 0,
    };
    let (start, end): (usize, usize) = match buffer.line_byte_range(line) {
        Some(range) => (range.start, range.end),
        None => (0, 0),
    };
    let count: usize = buffer.line_count();
    let mut copy: Vec<u8> = buffer.copy_range(start, end);
    if line + 1 < count {
        let at: usize = end + 1;
        copy.push(NEWLINE);
        match buffer.replace_bytes(at, at, copy.as_slice()) {
            Ok(()) => {
                buffer.set_cursor(at);
                Ok(())
            },
            Err(e) => Err(e),
        }
    } else {
        let at: usize = buffer.len();
        let mut text: Vec<u8> = Vec::new();
        text.push(NEWLINE);
        text.append(&mut copy);
        assert(text@ =~= duplicate_text(b));
        match buffer.replace_bytes(at, at, text.as_slice()) {
            Ok(()) => {
                let len: usize = buffer.len();
                buffer.set_cursor(len);
                Ok(())
            },
            Err(e) => Err(e),
        }
    }
}

/// Exchange a line with the one below. Returns where the two lines start then.
fn exchange_lines(buffer: &mut TextBuffer, upper: usize) -> (r: (usize, usize))
    requires
        old(buffer)@.wf(),
        upper + 1 < line_total(old(buffer)@.text),
    ensures
        final(buffer)@.wf(),
        final(buffer)@ == old(buffer)@.replaced(
            line_start(old(buffer)@.text, upper as nat),
            line_end(old(buffer)@.text, (upper + 1) as nat),
            swapped_lines(old(buffer)@.text, upper as nat),
        ),
        r.0 == line_start(final(buffer)@.text, upper as nat),
        r.1 == line_start(final(buffer)@.text, (upper + 1) as nat),
        r.0 <= final(buffer)@.len(),
        r.1 <= final(buffer)@.len(),
{
    let ghost t = buffer@.text;
    proof {
        lemma_line_start(t, upper as nat);
        lemma_line_start(t, (upper + 1) as nat);
        lemma_swapped(t, upper as nat);
    }
    let count: usize = buffer.line_count();
    assert(upper + 1 < count);
    let (start, first_end): (usize, usize) = match buffer.line_byte_range(upper) {
        Some(range) => (range.start, range.end),
        None => (0, 0),
    };
    let (middle, end): (usize, usize) = match buffer.line_byte_range(upper + 1) {
        Some(range) => (range.start, range.end),
        None => (0, 0),
    };
    let mut swapped: Vec<u8> = buffer.copy_range(middle, end);
    let mut first: Vec<u8> = buffer.copy_range(start, first_end);
    swapped.push(NEWLINE);
    swapped.append(&mut first);
    assert(swapped@ =~= swapped_lines(t, upper as nat));
    let _ = buffer.replace_bytes(start, end, swapped.as_slice());
    (start, start + (end - middle) + 1)
}

/// Exchange the caret's line with the one above or below.
pub fn move_current_line(buffer: &mut TextBuffer, up: bool)
    requires
        old(buffer)@.wf(),
    ensures
        final(buffer)@.wf(),
        final(buffer)@ == line_moved(old(buffer)@, up),
{
    proof {
        reveal(line_moved);
    }
    let pos: usize = buffer.cursor();
    proof {
        lemma_line_at(buffer@.text, pos as int);
    }
    let line: usize = match buffer.pos_to_linecol(pos) {
        Some((line, _)) => line,
        None => 0,
    };
    let count: usize = buffer.line_count();
    if up && line == 0 || !up && line + 1 >= count {
        return;
    }
    let upper: usize = if up { line - 1 } else { line };
    let (first, second): (usize, usize) = exchange_lines(buffer, upper);
    buffer.set_cursor(if up { first } else { second });
}

/// Law: deleting a line that is not the only one leaves one line less.
pub proof fn law_delete_line_drops_one(b: BufferV)
    requires
        b.wf(),
        line_total(b.text) > 1,
    ensures
        line_total(line_deleted(b).text) == line_total(b.text) - 1,
{
    reveal(line_deleted);
    let t = b.text;
    let pos = b.cursor() as int;
    let line = caret_line(b);
    lemma_line_at(t, pos);
    lemma_line_start(t, line);
    if line + 1 < line_total(t) {
        lemma_line_start(t, line + 1);
        lemma_cut_newlines(t, line_start(t, line), line_start(t, line + 1));
    } else {
        lemma_line_start(t, (line - 1) as nat);
        lemma_cut_newlines(t, line_end(t, (line - 1) as nat), line_end(t, line));
    }
}

/// Where a line starts is decided by what stands before it.
proof fn lemma_start_from_prefix(a: Seq<u8>, b: Seq<u8>, line: nat)
    requires
        line < line_total(a),
        line_start(a, line) <= b.len(),
        a.take(line_start(a, line)) == b.take(line_start(a, line)),
    ensures
        line_start(b, line) == line_start(a, line),
    decreases line,
{
    if line > 0 {
        let from = line_start(a, (line - 1) as nat);
        let start = line_start(a, line);
        lemma_line_start(a, (line - 1) as nat);
        lemma_line_start(a, line);
        assert(a.take(from) =~= a.take(start).take(from));
        assert(b.take(from) =~= b.take(start).take(from));
        lemma_start_from_prefix(a, b, (line - 1) as nat);
        lemma_line_end_from(a, from);
        assert forall|k: int| from <= k < start implies a[k] == #[trigger] b[k] by {
            assert(a.take(start)[k] == b.take(start)[k]);
        }
        lemma_line_end_from_is(b, from, start - 1);
    }
}

/// Two lines exchanged: where the lines are afterwards.
proof fn lemma_swapped(t: Seq<u8>, upper: nat)
    requires
        upper + 1 < line_total(t),
    ensures
        ({
            let s = line_start(t, upper);
            let m = line_start(t, upper + 1);
            let e = line_end(t, upper + 1);
            let after = splice(t, s, e, swapped_lines(t, upper));
            &&& 0 <= s < m <= e <= t.len()
            &&& after.len() == t.len()
            &&& upper + 1 < line_total(after)
            &&& line_start(after, upper) == s
            &&& line_end(after, upper) == s + (e - m)
            &&& line_start(after, upper + 1) == s + (e - m) + 1
            &&& line_end(after, upper + 1) == e
            &&& line_at(after, s) == upper
            &&& line_at(after, s + (e - m) + 1) == upper + 1
            &&& splice(after, s, e, swapped_lines(after, upper)) == t
        }),
{
    let s = line_start(t, upper);
    let m = line_start(t, upper + 1);
    let e = line_end(t, upper + 1);
    lemma_line_start(t, upper);
    lemma_line_start(t, upper + 1);
    lemma_line_end_from(t, s);
    lemma_line_end_from(t, m);
    let after = splice(t, s, e, swapped_lines(t, upper));
    let mid = s + (e - m);
    assert(after.len() == t.len());
    assert(after.take(s) =~= t.take(s));
    lemma_start_from_prefix(t, after, upper);
    assert forall|k: int| s <= k < mid implies #[trigger] after[k] == t[k - s + m] by {}
    assert(after[mid] == NEWLINE);
    assert forall|k: int| mid < k < e implies #[trigger] after[k] == t[k - mid - 1 + s] by {}
    assert(e < t.len() ==> after[e] == t[e]);
    lemma_line_end_from_is(after, s, mid);
    lemma_line_end_from_is(after, mid + 1, e);
    lemma_newlines_grow(after, s, mid);
    lemma_newlines_step(after, mid);
    lemma_line_at(after, mid + 1);
    assert(swapped_lines(after, upper) =~= t.subrange(s, e)) by {
        assert(t[m - 1] == NEWLINE);
    }
    assert(splice(after, s, e, swapped_lines(after, upper)) =~= t);
}

/// What moving one of two lines does.
proof fn lemma_moved_once(b: BufferV, up: bool, upper: nat)
    requires
        b.text.len() <= isize::MAX,
        caret_line(b) == (if up { upper + 1 } else { upper }),
        upper + 1 < line_total(b.text),
    ensures
        ({
            let after = line_moved(b, up);
            let s = line_start(b.text, upper);
            let e = line_end(b.text, upper + 1);
            &&& after.text == splice(b.text, s, e, swapped_lines(b.text, upper))
            &&& after.text.len() == b.text.len()
            &&& line_start(after.text, upper) == s
            &&& line_end(after.text, upper + 1) == e
            &&& upper + 1 < line_total(after.text)
            &&& caret_line(after) == (if up { upper } else { upper + 1 })
        }),
{
    let t = b.text;
    let s = line_start(t, upper);
    let e = line_end(t, upper + 1);
    let with = swapped_lines(t, upper);
    let text = splice(t, s, e, with);
    let to = if up { upper } else { upper + 1 };
    lemma_swapped(t, upper);
    lemma_line_start(text, to);
    lemma_replaced_text(b, up, upper, with, text, line_start(text, to));
}

/// Moving a line once it is known where it goes.
proof fn lemma_replaced_text(
    b: BufferV,
    up: bool,
    upper: nat,
    with: Seq<u8>,
    text: Seq<u8>,
    at: int,
)
    requires
        b.text.len() <= isize::MAX,
        caret_line(b) == (if up { upper + 1 } else { upper }),
        upper + 1 < line_total(b.text),
        with == swapped_lines(b.text, upper),
        text == splice(b.text, line_start(b.text, upper), line_end(b.text, upper + 1), with),
        line_start(text, if up { upper } else { upper + 1 }) == at,
        0 <= at <= text.len() <= isize::MAX,
    ensures
        line_moved(b, up).text == text,
        line_moved(b, up).cursor() == at,
{
    reveal(line_moved);
    let after = b.replaced(line_start(b.text, upper), line_end(b.text, upper + 1), with);
    assert(after.text == text);
    assert(line_moved(b, up) == after.with_cursor(at));
}

/// Law: a line that is moved and then moved the other way is where it was, and
/// so is all other text.
pub proof fn law_moved_line_moves_back(b: BufferV, up: bool)
    requires
        b.wf(),
        up ==> 0 < caret_line(b),
        !up ==> caret_line(b) + 1 < line_total(b.text),
    ensures
        line_moved(line_moved(b, up), !up).text == b.text,
        caret_line(line_moved(line_moved(b, up), !up)) == caret_line(b),
{
    let line = caret_line(b);
    let upper = (if up { line - 1 } else { line as int }) as nat;
    lemma_line_at(b.text, b.cursor() as int);
    lemma_moved_once(b, up, upper);
    lemma_moved_once(line_moved(b, up), !up, upper);
    lemma_swapped(b.text, upper);
}

/// Two lines of a text have changed places, nothing else has, and there are as
/// many lines as before.
pub open spec fn lines_exchanged(before: Seq<u8>, after: Seq<u8>, upper: nat) -> bool {
    &&& line_bytes(after, upper) == line_bytes(before, upper + 1)
    &&& line_bytes(after, upper + 1) == line_bytes(before, upper)
    &&& line_start(after, upper) == line_start(before, upper)
    &&& line_end(after, upper + 1) == line_end(before, upper + 1)
    &&& after.take(line_start(after, upper)) == before.take(line_start(before, upper))
    &&& after.skip(line_end(after, upper + 1)) == before.skip(line_end(before, upper + 1))
    &&& line_total(after) == line_total(before)
}

proof fn lemma_exchanged(t: Seq<u8>, upper: nat)
    requires
        upper + 1 < line_total(t),
    ensures
        lines_exchanged(
            t,
            splice(t, line_start(t, upper), line_end(t, upper + 1), swapped_lines(t, upper)),
            upper,
        ),
{
    let start = line_start(t, upper);
    let end = line_end(t, upper + 1);
    let after = splice(t, start, end, swapped_lines(t, upper));
    lemma_swapped(t, upper);
    lemma_line_start(t, upper);
    lemma_line_start(t, upper + 1);
    lemma_line_start(after, upper + 1);
    assert(line_bytes(after, upper) =~= line_bytes(t, upper + 1));
    assert(line_bytes(after, upper + 1) =~= line_bytes(t, upper));
    assert(after.take(start) =~= t.take(start));
    assert(after.skip(end) =~= t.skip(end));
    lemma_cut_newlines(t, 0, end);
    lemma_cut_newlines(after, 0, end);
    assert(t.take(0) =~= seq![]);
    assert(after.take(0) =~= seq![]);
}

/// Law: moving a line keeps the lines of the text, but for the two that change
/// places.
pub proof fn law_moved_lines_change_places(b: BufferV, up: bool)
    requires
        b.wf(),
        up ==> 0 < caret_line(b),
        !up ==> caret_line(b) + 1 < line_total(b.text),
    ensures
        lines_exchanged(
            b.text,
            line_moved(b, up).text,
            (if up { caret_line(b) - 1 } else { caret_line(b) as int }) as nat,
        ),
{
    let upper = (if up { caret_line(b) - 1 } else { caret_line(b) as int }) as nat;
    lemma_line_at(b.text, b.cursor() as int);
    lemma_moved_once(b, up, upper);
    lemma_exchanged(b.text, upper);
}

/// A line inserted where a line starts: where the lines are afterwards.
proof fn lemma_inserted_line(t: Seq<u8>, line: nat, body: Seq<u8>)
    requires
        line < line_total(t),
        forall|k: int| 0 <= k < body.len() ==> body[k] != NEWLINE,
    ensures
        ({
            let at = line_start(t, line);
            let after = splice(t, at, at, body.push(NEWLINE));
            &&& 0 <= at <= t.len()
            &&& after.len() == t.len() + body.len() + 1
            &&& line + 1 < line_total(after)
            &&& line_at(after, at) == line
            &&& line_start(after, line) == at
            &&& line_start(after, line + 1) == at + body.len() + 1
            &&& splice(after, at, at + body.len() + 1, seq![]) == t
        }),
{
    let at = line_start(t, line);
    lemma_line_start(t, line);
    let after = splice(t, at, at, body.push(NEWLINE));
    let end = at + body.len() as int;
    assert(after.take(at) =~= t.take(at));
    lemma_start_from_prefix(t, after, line);
    assert forall|k: int| at <= k < end implies #[trigger] after[k] == body[k - at] by {}
    assert(after[end] == NEWLINE);
    lemma_line_end_from_is(after, at, end);
    lemma_newlines_grow(after, at, end);
    lemma_newlines_step(after, end);
    lemma_line_at(after, end + 1);
    assert(splice(after, at, end + 1, seq![]) =~= t);
}

/// A line put behind the last one: where the lines are afterwards.
proof fn lemma_appended_line(t: Seq<u8>, body: Seq<u8>)
    requires
        forall|k: int| 0 <= k < body.len() ==> body[k] != NEWLINE,
    ensures
        ({
            let after = t + seq![NEWLINE] + body;
            let last = line_total(after) - 1;
            &&& last == line_total(t)
            &&& line_at(after, after.len() as int) == last
            &&& line_end(after, (last - 1) as nat) == t.len()
            &&& line_end(after, last as nat) == after.len()
            &&& splice(after, t.len() as int, after.len() as int, seq![]) == t
        }),
{
    let after = t + seq![NEWLINE] + body;
    let last = newlines(t);
    let len = after.len() as int;
    let start = line_start(t, last);
    lemma_line_start(t, last);
    lemma_line_end_from(t, start);
    assert(after.take(start) =~= t.take(start));
    lemma_start_from_prefix(t, after, last);
    assert forall|k: int| start <= k < t.len() implies #[trigger] after[k] != NEWLINE by {
        assert(after[k] == t[k]);
    }
    lemma_line_end_from_is(after, start, t.len() as int);
    assert(after.take(t.len() as int) =~= t);
    assert(after.take(len) =~= after);
    lemma_newlines_step(after, t.len() as int);
    lemma_newlines_grow(after, t.len() as int + 1, len);
    lemma_line_start(after, last + 1);
    assert(splice(after, t.len() as int, len, seq![]) =~= t);
}

/// Law: a line that is duplicated and then deleted leaves the text as it was.
pub proof fn law_delete_undoes_duplicate(b: BufferV)
    requires
        b.wf(),
        b.can_replace(duplicate_at(b), duplicate_at(b), duplicate_text(b)),
    ensures
        line_deleted(line_duplicated(b)).text == b.text,
{
    reveal(line_deleted);
    let t = b.text;
    let line = caret_line(b);
    let body = line_bytes(t, line);
    lemma_line_at(t, b.cursor() as int);
    lemma_line_start(t, line);
    lemma_line_end_from(t, line_start(t, line));
    let after = line_duplicated(b);
    if line + 1 < line_total(t) {
        lemma_inserted_line(t, line + 1, body);
        assert(after.text == splice(t, duplicate_at(b), duplicate_at(b), body.push(NEWLINE)));
        assert(after.cursor() == duplicate_at(b));
    } else {
        lemma_appended_line(t, body);
        assert(after.text =~= t + seq![NEWLINE] + body);
        assert(after.cursor() == after.text.len());
    }
}

/// Cutting a part out takes the newlines that lie in it.
proof fn lemma_cut_newlines(t: Seq<u8>, start: int, end: int)
    requires
        0 <= start <= end <= t.len(),
    ensures
        newlines(t.take(start) + seq![] + t.skip(end)) == newlines(t)
            - line_at(t, end) + line_at(t, start),
    decreases t.len() - end,
{
    let cut = t.take(start) + seq![] + t.skip(end);
    if end == t.len() {
        assert(cut =~= t.take(start));
        assert(t.take(end) =~= t);
    } else {
        let short = t.drop_last();
        lemma_cut_newlines(short, start, end);
        assert(short.take(end) =~= t.take(end));
        assert(short.take(start) =~= t.take(start));
        assert(cut.drop_last() =~= short.take(start) + seq![] + short.skip(end));
        assert(cut.last() == t.last());
    }
}

} // verus!

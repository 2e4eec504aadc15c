//! What working on whole lines does to the lines of a text.

use vstd::prelude::*;

use crate::buffer::BufferV;
use crate::edit_laws::lemma_finished;
use crate::event::EditorEvent;
use crate::find_laws::other_documents_same;
use crate::laws::takes_edits;
use crate::line_ops::{caret_line, line_deleted, line_duplicated, line_moved};
use crate::lines::{
    lemma_line_at, lemma_line_end_from, lemma_line_start, line_at, line_bytes, line_end, line_start,
    line_total, newlines, NEWLINE,
};
use crate::routes::{
    lemma_delete_line, lemma_duplicate_line, lemma_move_line_down, lemma_move_line_up,
};
use crate::state::AppV;

verus! {

// ----- the lines of a text -----

/// The lines of a text: what stands before, between and behind its newlines.
pub open spec fn lines_of(t: Seq<u8>) -> Seq<Seq<u8>>
    decreases t.len(),
{
    if t.len() == 0 {
        seq![Seq::<u8>::empty()]
    } else {
        let before = lines_of(t.drop_last());
        if t.last() == 10 {
            before.push(Seq::<u8>::empty())
        } else {
            before.update(before.len() - 1, before.last().push(t.last()))
        }
    }
}

proof fn lemma_lines_count(t: Seq<u8>)
    ensures
        lines_of(t).len() == newlines(t) + 1,
    decreases t.len(),
{
    if t.len() > 0 {
        lemma_lines_count(t.drop_last());
    }
}

proof fn lemma_lines_joined(a: Seq<u8>, b: Seq<u8>)
    ensures
        lines_of(a + seq![10u8] + b) == lines_of(a) + lines_of(b),
    decreases b.len(),
{
    let t = a + seq![10u8] + b;
    lemma_lines_count(b);
    if b.len() == 0 {
        assert(t.drop_last() =~= a);
        assert(lines_of(t) =~= lines_of(a) + lines_of(b));
    } else {
        lemma_lines_joined(a, b.drop_last());
        lemma_lines_count(b.drop_last());
        assert(t.drop_last() =~= a + seq![10u8] + b.drop_last());
        assert(lines_of(t) =~= lines_of(a) + lines_of(b));
    }
}

proof fn lemma_single_line(t: Seq<u8>)
    requires
        forall|k: int| 0 <= k < t.len() ==> t[k] != 10,
    ensures
        lines_of(t) == seq![t],
    decreases t.len(),
{
    if t.len() > 0 {
        lemma_single_line(t.drop_last());
        assert(t.drop_last().push(t.last()) =~= t);
        assert(lines_of(t) =~= seq![t]);
    } else {
        assert(t =~= Seq::<u8>::empty());
    }
}

/// The lines before line `n`, and those behind it.
spec fn lines_before(t: Seq<u8>, n: nat) -> Seq<Seq<u8>> {
    if n == 0 { seq![] } else { lines_of(t.take(line_start(t, n) - 1)) }
}

spec fn lines_behind(t: Seq<u8>, n: nat) -> Seq<Seq<u8>> {
    if n + 1 >= line_total(t) { seq![] } else { lines_of(t.skip(line_end(t, n) + 1)) }
}

proof fn lemma_no_newline_in_line(t: Seq<u8>, n: nat)
    requires
        n < line_total(t),
    ensures
        0 <= line_start(t, n) <= line_end(t, n) <= t.len(),
        forall|k: int| 0 <= k < line_bytes(t, n).len() ==> line_bytes(t, n)[k] != 10,
        lines_of(line_bytes(t, n)) == seq![line_bytes(t, n)],
{
    lemma_line_start(t, n);
    lemma_line_end_from(t, line_start(t, n));
    lemma_single_line(line_bytes(t, n));
}

/// The lines before a part of a text and those behind it stay as they are,
/// whatever takes its place.
proof fn lemma_middle(t: Seq<u8>, from: nat, to: nat, middle: Seq<u8>)
    requires
        from <= to < line_total(t),
    ensures
        lines_of(t.take(line_start(t, from)) + middle + t.skip(line_end(t, to))) == lines_before(
            t,
            from,
        ) + lines_of(middle) + lines_behind(t, to),
        0 <= line_start(t, from),
        line_end(t, to) <= t.len(),
        lines_before(t, from).len() == from,
{
    lemma_line_start(t, from);
    lemma_line_start(t, to);
    let start = line_start(t, from);
    let end = line_end(t, to);
    let all = t.take(start) + middle + t.skip(end);
    let tail = if to + 1 < line_total(t) {
        let rest = t.skip(end + 1);
        assert(t.skip(end) =~= seq![10u8] + rest);
        assert(middle + t.skip(end) =~= middle + seq![10u8] + rest);
        lemma_lines_joined(middle, rest);
        lines_of(middle) + lines_of(rest)
    } else {
        assert(middle + t.skip(end) =~= middle);
        lines_of(middle)
    };
    assert(lines_of(middle + t.skip(end)) == tail);
    assert(tail =~= lines_of(middle) + lines_behind(t, to));
    if from > 0 {
        let head = t.take(start - 1);
        assert(t.take(start) =~= head + seq![10u8]);
        assert(all =~= head + seq![10u8] + (middle + t.skip(end)));
        lemma_lines_joined(head, middle + t.skip(end));
        lemma_lines_count(head);
        lemma_line_start(t, (from - 1) as nat);
        assert(line_at(t, start - 1) == from - 1);
    } else {
        assert(t.take(0) =~= seq![]);
        assert(all =~= middle + t.skip(end));
    }
    assert(lines_of(all) =~= lines_before(t, from) + lines_of(middle) + lines_behind(t, to));
}

proof fn lemma_around_line(t: Seq<u8>, n: nat)
    requires
        n < line_total(t),
    ensures
        lines_of(t) == lines_before(t, n) + seq![line_bytes(t, n)] + lines_behind(t, n),
        lines_before(t, n).len() == n,
{
    lemma_no_newline_in_line(t, n);
    lemma_middle(t, n, n, line_bytes(t, n));
    assert(t.take(line_start(t, n)) + line_bytes(t, n) + t.skip(line_end(t, n)) =~= t);
}

/// Law: a text has the lines that it is counted to have, and each has the bytes
/// that stand on it.
pub proof fn law_lines_of_text(t: Seq<u8>, n: nat)
    ensures
        lines_of(t).len() == line_total(t),
        n < line_total(t) ==> lines_of(t)[n as int] == line_bytes(t, n),
{
    lemma_lines_count(t);
    if n < line_total(t) {
        lemma_around_line(t, n);
    }
}

/// Law: a position is on the line with as many lines before it as newlines
/// stand before the position.
pub proof fn law_line_number(t: Seq<u8>, pos: int)
    requires
        0 <= pos <= t.len(),
    ensures
        line_at(t, pos) == lines_of(t.take(pos)).len() - 1,
{
    lemma_lines_count(t.take(pos));
}

// ----- moving -----

/// The line that the caret is on.
pub open spec fn line_of_caret(s: AppV) -> int {
    lines_of(s.buf().text.take(s.buf().selections[0].head as int)).len() - 1
}

proof fn lemma_two_lines(t: Seq<u8>, upper: nat)
    requires
        upper + 1 < line_total(t),
    ensures
        ({
            let new = t.take(line_start(t, upper)) + (line_bytes(t, upper + 1) + seq![NEWLINE]
                + line_bytes(t, upper)) + t.skip(line_end(t, upper + 1));
            let old = lines_of(t);
            &&& lines_of(new) == old.update(upper as int, old[upper as int + 1]).update(
                upper as int + 1,
                old[upper as int],
            )
            &&& new.len() == t.len()
        }),
{
    let first = line_bytes(t, upper);
    let second = line_bytes(t, upper + 1);
    lemma_no_newline_in_line(t, upper);
    lemma_no_newline_in_line(t, upper + 1);
    lemma_lines_joined(second, first);
    lemma_lines_joined(first, second);
    lemma_line_start(t, upper);
    lemma_middle(t, upper, upper + 1, second + seq![10u8] + first);
    lemma_middle(t, upper, upper + 1, first + seq![10u8] + second);
    assert(t.take(line_start(t, upper)) + (first + seq![10u8] + second) + t.skip(
        line_end(t, upper + 1),
    ) =~= t);
    let old = lines_of(t);
    let new = lines_of(
        t.take(line_start(t, upper)) + (second + seq![10u8] + first) + t.skip(
            line_end(t, upper + 1),
        ),
    );
    assert(new =~= old.update(upper as int, old[upper as int + 1]).update(upper as int + 1, old[upper as int]));
}

proof fn lemma_moved_lines(b: BufferV, up: bool)
    requires
        b.wf(),
    ensures
        ({
            let n = caret_line(b) as int;
            let old = lines_of(b.text);
            let new = line_moved(b, up);
            &&& n < old.len()
            &&& up && n == 0 || !up && n + 1 >= old.len() ==> new == b
            &&& up && n > 0 ==> lines_of(new.text) == old.update(n - 1, old[n]).update(
                n,
                old[n - 1],
            )
            &&& !up && n + 1 < old.len() ==> lines_of(new.text) == old.update(
                n,
                old[n + 1],
            ).update(n + 1, old[n])
        }),
{
    reveal(line_moved);
    let n = caret_line(b);
    lemma_line_at(b.text, b.cursor() as int);
    lemma_lines_count(b.text);
    if up && n > 0 {
        lemma_two_lines(b.text, (n - 1) as nat);
    } else if !up && n + 1 < line_total(b.text) {
        lemma_two_lines(b.text, n);
    }
}

/// Law: moving a line up exchanges it with the line above it, and no other line
/// changes. The first line stays.
pub proof fn law_move_line_up(s: AppV)
    requires
        s.wf(),
        takes_edits(s),
    ensures
        ({
            let n = line_of_caret(s);
            let old = lines_of(s.buf().text);
            let after = s.after(EditorEvent::MoveLineUp);
            &&& n == 0 ==> after.buf() == s.buf()
            &&& n > 0 ==> lines_of(after.buf().text) == old.update(n - 1, old[n]).update(
                n,
                old[n - 1],
            )
            &&& other_documents_same(s, after)
        }),
{
    lemma_move_line_up(s);
    lemma_moved_lines(s.buf(), true);
    law_line_number(s.buf().text, s.buf().cursor() as int);
    lemma_finished(s, s.with_buf(line_moved(s.buf(), true)));
}

/// Law: moving a line down exchanges it with the line below it, and no other
/// line changes. The last line stays.
pub proof fn law_move_line_down(s: AppV)
    requires
        s.wf(),
        takes_edits(s),
    ensures
        ({
            let n = line_of_caret(s);
            let old = lines_of(s.buf().text);
            let after = s.after(EditorEvent::MoveLineDown);
            &&& n + 1 == old.len() ==> after.buf() == s.buf()
            &&& n + 1 < old.len() ==> lines_of(after.buf().text) == old.update(
                n,
                old[n + 1],
            ).update(n + 1, old[n])
            &&& other_documents_same(s, after)
        }),
{
    lemma_move_line_down(s);
    lemma_moved_lines(s.buf(), false);
    law_line_number(s.buf().text, s.buf().cursor() as int);
    lemma_finished(s, s.with_buf(line_moved(s.buf(), false)));
}

/// The caret stands at the start of line `n`.
pub open spec fn caret_at_line(b: BufferV, n: int) -> bool {
    &&& b.selections.len() == 1
    &&& b.selections[0].anchor == b.selections[0].head
    &&& 0 <= b.selections[0].head <= b.text.len()
    &&& lines_of(b.text.take(b.selections[0].head as int)).len() == n + 1
    &&& lines_of(b.text.take(b.selections[0].head as int)).last().len() == 0
}

pub proof fn lemma_start_is_line(t: Seq<u8>, n: nat)
    requires
        n < line_total(t),
    ensures
        0 <= line_start(t, n) <= t.len(),
        lines_of(t.take(line_start(t, n))).len() == n + 1,
        lines_of(t.take(line_start(t, n))).last().len() == 0,
{
    lemma_line_start(t, n);
    let start = line_start(t, n);
    lemma_lines_count(t.take(start));
    if n > 0 {
        assert(t.take(start).last() == 10);
    } else {
        assert(t.take(0) =~= seq![]);
    }
}

/// Law: the caret goes with a line that is moved, to the line's start.
pub proof fn law_caret_goes_with_line(s: AppV)
    requires
        s.wf(),
        takes_edits(s),
    ensures
        line_of_caret(s) > 0 ==> caret_at_line(
            s.after(EditorEvent::MoveLineUp).buf(),
            line_of_caret(s) - 1,
        ),
        line_of_caret(s) + 1 < lines_of(s.buf().text).len() ==> caret_at_line(
            s.after(EditorEvent::MoveLineDown).buf(),
            line_of_caret(s) + 1,
        ),
{
    let t = s.buf().text;
    lemma_move_line_up(s);
    lemma_move_line_down(s);
    law_line_number(t, s.buf().cursor() as int);
    lemma_line_at(t, s.buf().cursor() as int);
    lemma_lines_count(t);
    reveal(line_moved);
    let n = caret_line(s.buf());
    if n > 0 {
        let new = line_moved(s.buf(), true);
        lemma_moved_lines(s.buf(), true);
        lemma_two_lines(t, (n - 1) as nat);
        lemma_lines_count(new.text);
        lemma_start_is_line(new.text, (n - 1) as nat);
        lemma_finished(s, s.with_buf(new));
    }
    if n + 1 < line_total(t) {
        let new = line_moved(s.buf(), false);
        lemma_moved_lines(s.buf(), false);
        lemma_two_lines(t, n);
        lemma_lines_count(new.text);
        lemma_start_is_line(new.text, n + 1);
        lemma_finished(s, s.with_buf(new));
    }
}

// ----- deleting and duplicating -----

proof fn lemma_deleted_lines(b: BufferV)
    requires
        b.wf(),
    ensures
        ({
            let n = caret_line(b);
            let old = lines_of(b.text);
            let new = lines_of(line_deleted(b).text);
            &&& n < old.len()
            &&& old.len() > 1 ==> new == old.remove(n as int)
            &&& old.len() == 1 ==> line_deleted(b).text == Seq::<u8>::empty()
        }),
{
    reveal(line_deleted);
    let t = b.text;
    let n = caret_line(b);
    lemma_line_at(t, b.cursor() as int);
    lemma_lines_count(t);
    lemma_line_start(t, n);
    lemma_around_line(t, n);
    let old = lines_of(t);
    let new = line_deleted(b).text;
    if n + 1 < line_total(t) {
        lemma_line_start(t, n + 1);
        let rest = t.skip(line_end(t, n) + 1);
        assert(new =~= t.take(line_start(t, n)) + rest);
        if n > 0 {
            let head = t.take(line_start(t, n) - 1);
            assert(new =~= head + seq![10u8] + rest);
            lemma_lines_joined(head, rest);
        } else {
            assert(new =~= rest);
        }
        assert(lines_of(new) =~= old.remove(n as int));
    } else if n > 0 {
        lemma_line_start(t, (n - 1) as nat);
        assert(line_end(t, n) == t.len());
        assert(new =~= t.take(line_start(t, n) - 1));
        assert(lines_of(new) =~= old.remove(n as int));
    } else {
        assert(line_end(t, n) == t.len());
        assert(new =~= Seq::<u8>::empty());
    }
}

/// Law: deleting a line takes it out of the lines, and no other line changes.
/// An only line leaves an empty text.
pub proof fn law_delete_line(s: AppV)
    requires
        s.wf(),
        takes_edits(s),
    ensures
        ({
            let n = line_of_caret(s);
            let old = lines_of(s.buf().text);
            let after = s.after(EditorEvent::DeleteLine);
            &&& old.len() > 1 ==> lines_of(after.buf().text) == old.remove(n)
            &&& old.len() == 1 ==> after.buf().text == Seq::<u8>::empty()
            &&& other_documents_same(s, after)
        }),
{
    lemma_delete_line(s);
    lemma_deleted_lines(s.buf());
    law_line_number(s.buf().text, s.buf().cursor() as int);
    lemma_finished(s, s.with_buf(line_deleted(s.buf())));
}

/// A text with its line `n` twice.
proof fn lemma_line_twice(t: Seq<u8>, n: nat)
    requires
        n < line_total(t),
    ensures
        ({
            let line = line_bytes(t, n);
            let old = lines_of(t);
            lines_of(
                t.take(line_start(t, n)) + (line + seq![10u8] + line) + t.skip(line_end(t, n)),
            ) == old.insert(n as int + 1, old[n as int])
        }),
{
    lemma_no_newline_in_line(t, n);
    lemma_around_line(t, n);
    let old = lines_of(t);
    let line = line_bytes(t, n);
    lemma_lines_joined(line, line);
    lemma_middle(t, n, n, line + seq![10u8] + line);
    let before = lines_before(t, n);
    let behind = lines_behind(t, n);
    assert(old == before + seq![line] + behind);
    assert(before + (seq![line] + seq![line]) + behind =~= old.insert(
        n as int + 1,
        old[n as int],
    ));
}

/// Where the copy of a line is put, the line stands twice.
proof fn lemma_copy_below(t: Seq<u8>, n: nat)
    requires
        n < line_total(t),
    ensures
        ({
            let line = line_bytes(t, n);
            let twice = t.take(line_start(t, n)) + (line + seq![10u8] + line) + t.skip(
                line_end(t, n),
            );
            &&& n + 1 < line_total(t) ==> {
                let at = line_start(t, n + 1);
                t.take(at) + line.push(10u8) + t.skip(at) == twice
            }
            &&& n + 1 >= line_total(t) ==> {
                let at = t.len() as int;
                t.take(at) + (seq![10u8] + line) + t.skip(at) == twice
            }
        }),
{
    lemma_line_start(t, n);
    let start = line_start(t, n);
    let end = line_end(t, n);
    let line = line_bytes(t, n);
    let twice = t.take(start) + (line + seq![10u8] + line) + t.skip(end);
    assert(t.take(end) =~= t.take(start) + line);
    if n + 1 < line_total(t) {
        let at = line_start(t, n + 1);
        assert(t.take(at) =~= t.take(end) + seq![10u8]);
        assert(t.skip(end) =~= seq![10u8] + t.skip(at));
        assert(t.take(at) + line.push(10u8) + t.skip(at) =~= twice);
    } else {
        assert(end == t.len());
        assert(t.take(end) =~= t);
        assert(t.take(end) + (seq![10u8] + line) + t.skip(end) =~= twice);
    }
}

proof fn lemma_duplicated_lines(b: BufferV)
    requires
        b.wf(),
    ensures
        ({
            let n = caret_line(b) as int;
            let old = lines_of(b.text);
            n < old.len() && lines_of(line_duplicated(b).text) == old.insert(
                n + 1,
                old[n],
            )
        }),
{
    let t = b.text;
    let n = caret_line(b);
    lemma_line_at(t, b.cursor() as int);
    lemma_lines_count(t);
    lemma_line_twice(t, n);
    lemma_copy_below(t, n);
}

/// Law: duplicating a line puts a copy of it below it, and no other line
/// changes. Where the text would become too large, nothing does.
pub proof fn law_duplicate_line(s: AppV)
    requires
        s.wf(),
        takes_edits(s),
    ensures
        ({
            let n = line_of_caret(s);
            let old = lines_of(s.buf().text);
            let after = s.after(EditorEvent::DuplicateLine);
            let fits = s.buf().text.len() + old[n].len() + 1 <= isize::MAX;
            &&& fits ==> lines_of(after.buf().text) == old.insert(n + 1, old[n])
            &&& !fits ==> after.buf() == s.buf() && after.status is Some
            &&& other_documents_same(s, after)
        }),
{
    let t = s.buf().text;
    lemma_duplicate_line(s);
    lemma_duplicated_lines(s.buf());
    law_line_number(t, s.buf().cursor() as int);
    lemma_line_at(t, s.buf().cursor() as int);
    law_lines_of_text(t, caret_line(s.buf()));
    lemma_line_start(t, caret_line(s.buf()));
    reveal(AppV::duplicated);
    lemma_finished(s, s.duplicated());
}

} // verus!

//! Lines of a byte text: where they start, where they end, and which line a
//! position is on. A line ends before its newline byte; the text after the
//! last newline is a line too, so there is always at least one.

use vstd::prelude::*;

verus! {

/// The byte that ends a line.
pub const NEWLINE: u8 = 10;

/// How many newline bytes `b` holds.
pub open spec fn newlines(b: Seq<u8>) -> nat
    decreases b.len(),
{
    if b.len() == 0 {
        0
    } else {
        newlines(b.drop_last()) + (if b.last() == NEWLINE { 1nat } else { 0nat })
    }
}

/// How many lines `b` has.
pub open spec fn line_total(b: Seq<u8>) -> nat {
    newlines(b) + 1
}

/// The first newline at or after `from`, or the end of the text.
pub open spec fn line_end_from(b: Seq<u8>, from: int) -> int
    decreases b.len() - from,
{
    if from >= b.len() {
        b.len() as int
    } else if b[from] == NEWLINE {
        from
    } else {
        line_end_from(b, from + 1)
    }
}

/// Where line `line` (counted from 0) starts.
pub open spec fn line_start(b: Seq<u8>, line: nat) -> int
    decreases line,
{
    if line == 0 {
        0
    } else {
        line_end_from(b, line_start(b, (line - 1) as nat)) + 1
    }
}

/// Where line `line` ends, its newline not counted.
pub open spec fn line_end(b: Seq<u8>, line: nat) -> int {
    line_end_from(b, line_start(b, line))
}

/// The line that position `pos` is on.
pub open spec fn line_at(b: Seq<u8>, pos: int) -> nat {
    newlines(b.take(pos))
}

/// The byte range of a line, for a line that exists.
pub open spec fn line_range_spec(b: Seq<u8>, line: nat) -> Option<(int, int)> {
    if line < line_total(b) {
        Some((line_start(b, line), line_end(b, line)))
    } else {
        None
    }
}

/// The bytes of a line without its newline.
pub open spec fn line_bytes(b: Seq<u8>, line: nat) -> Seq<u8> {
    b.subrange(line_start(b, line), line_end(b, line))
}

/// The line and the byte column of a position inside the text.
pub open spec fn linecol_spec(b: Seq<u8>, pos: int) -> Option<(int, int)> {
    if 0 <= pos <= b.len() {
        Some((line_at(b, pos) as int, pos - line_start(b, line_at(b, pos))))
    } else {
        None
    }
}

/// The position of a line and byte column that exist.
pub open spec fn pos_spec(b: Seq<u8>, line: nat, col: int) -> Option<int> {
    if line < line_total(b) && 0 <= col <= line_end(b, line) - line_start(b, line) {
        Some(line_start(b, line) + col)
    } else {
        None
    }
}

/// `line_end_from` stops at the first newline: nothing between is one.
pub proof fn lemma_line_end_from(b: Seq<u8>, from: int)
    requires
        0 <= from <= b.len(),
    ensures
        from <= line_end_from(b, from) <= b.len(),
        forall|k: int| from <= k < line_end_from(b, from) ==> b[k] != NEWLINE,
        line_end_from(b, from) < b.len() ==> b[line_end_from(b, from)] == NEWLINE,
    decreases b.len() - from,
{
    if from < b.len() && b[from] != NEWLINE {
        lemma_line_end_from(b, from + 1);
    }
}

/// A position with these properties is the end of the line.
pub proof fn lemma_line_end_from_is(b: Seq<u8>, from: int, end: int)
    requires
        0 <= from <= end <= b.len(),
        forall|k: int| from <= k < end ==> b[k] != NEWLINE,
        end < b.len() ==> b[end] == NEWLINE,
    ensures
        line_end_from(b, from) == end,
    decreases end - from,
{
    if from < end {
        lemma_line_end_from_is(b, from + 1, end);
    }
}

/// Going one byte further counts the newline passed, if it was one.
pub proof fn lemma_newlines_step(b: Seq<u8>, n: int)
    requires
        0 <= n < b.len(),
    ensures
        newlines(b.take(n + 1)) == newlines(b.take(n)) + (if b[n] == NEWLINE { 1nat } else { 0nat }),
{
    assert(b.take(n + 1).drop_last() =~= b.take(n));
    assert(b.take(n + 1).last() == b[n]);
}

/// The newlines before a position are no more than those of a longer part.
pub proof fn lemma_newlines_grow(b: Seq<u8>, i: int, j: int)
    requires
        0 <= i <= j <= b.len(),
    ensures
        newlines(b.take(i)) <= newlines(b.take(j)),
        (forall|k: int| i <= k < j ==> b[k] != NEWLINE) ==> newlines(b.take(i)) == newlines(
            b.take(j),
        ),
    decreases j - i,
{
    if i < j {
        lemma_newlines_grow(b, i, j - 1);
        lemma_newlines_step(b, j - 1);
    }
}

/// The line of a position really holds it.
pub proof fn lemma_line_at(b: Seq<u8>, pos: int)
    requires
        0 <= pos <= b.len(),
    ensures
        line_at(b, pos) < line_total(b),
        0 <= line_start(b, line_at(b, pos)) <= pos <= line_end(b, line_at(b, pos)) <= b.len(),
    decreases pos,
{
    assert(b.take(b.len() as int) =~= b);
    lemma_newlines_grow(b, pos, b.len() as int);
    if pos == 0 {
        assert(b.take(0) =~= seq![]);
        lemma_line_end_from(b, 0);
    } else {
        lemma_line_at(b, pos - 1);
        lemma_newlines_step(b, pos - 1);
        let start = line_start(b, line_at(b, pos - 1));
        lemma_line_end_from(b, start);
        if b[pos - 1] == NEWLINE {
            lemma_line_end_from(b, pos);
            assert(line_end_from(b, start) == pos - 1);
        }
    }
}

/// An existing line starts inside the text, right after the newline of the
/// line before it.
pub proof fn lemma_line_start(b: Seq<u8>, line: nat)
    requires
        line < line_total(b),
    ensures
        0 <= line_start(b, line) <= line_end(b, line) <= b.len(),
        line_at(b, line_start(b, line)) == line,
        line_at(b, line_end(b, line)) == line,
        line > 0 ==> b[line_start(b, line) - 1] == NEWLINE,
        line_end(b, line) < b.len() ==> b[line_end(b, line)] == NEWLINE,
        line + 1 < line_total(b) <==> line_end(b, line) < b.len(),
        line + 1 < line_total(b) ==> line_start(b, line + 1) == line_end(b, line) + 1,
    decreases line,
{
    let len = b.len() as int;
    assert(b.take(len) =~= b);
    if line == 0 {
        assert(b.take(0) =~= seq![]);
    } else {
        let prev = (line - 1) as nat;
        lemma_line_start(b, prev);
        lemma_newlines_step(b, line_end(b, prev));
    }
    let start = line_start(b, line);
    lemma_line_end_from(b, start);
    lemma_newlines_grow(b, start, line_end(b, line));
    if line_end(b, line) < len {
        lemma_newlines_step(b, line_end(b, line));
        lemma_newlines_grow(b, line_end(b, line) + 1, len);
    }
}

/// Lines before come earlier.
pub proof fn lemma_line_order(b: Seq<u8>, i: nat, j: nat)
    requires
        i < j < line_total(b),
    ensures
        line_end(b, i) < line_start(b, j),
    decreases j,
{
    lemma_line_start(b, i);
    if i + 1 < j {
        lemma_line_order(b, i, (j - 1) as nat);
        lemma_line_start(b, (j - 1) as nat);
    }
}

/// How many lines the text has.
pub fn line_count(b: &Vec<u8>) -> (r: usize)
    requires
        b.len() < usize::MAX,
    ensures
        r == line_total(b@),
{
    let mut n: usize = 0;
    let mut i: usize = 0;
    assert(b@.take(0) =~= seq![]);
    while i < b.len()
        invariant
            i <= b.len(),
            n <= i,
            b.len() < usize::MAX,
            n == newlines(b@.take(i as int)),
        decreases b.len() - i,
    {
        proof {
            lemma_newlines_step(b@, i as int);
        }
        if b[i] == NEWLINE {
            n += 1;
        }
        i += 1;
    }
    assert(b@.take(i as int) =~= b@);
    n + 1
}

/// The end of the line that starts, or goes on, at `from`.
pub fn find_line_end(b: &Vec<u8>, from: usize) -> (r: usize)
    requires
        from <= b.len(),
    ensures
        r == line_end_from(b@, from as int),
        from <= r <= b.len(),
{
    let mut i: usize = from;
    while i < b.len() && b[i] != NEWLINE
        invariant
            from <= i <= b.len(),
            forall|k: int| from <= k < i ==> b@[k] != NEWLINE,
        decreases b.len() - i,
    {
        i += 1;
    }
    proof {
        lemma_line_end_from_is(b@, from as int, i as int);
    }
    i
}

/// The byte range of a line, its newline not counted.
pub fn line_range(b: &Vec<u8>, line: usize) -> (r: Option<(usize, usize)>)
    ensures
        r matches Some(p) ==> line_range_spec(b@, line as nat) == Some((p.0 as int, p.1 as int)),
        r is None ==> line_range_spec(b@, line as nat) is None,
        r matches Some(p) ==> p.0 <= p.1 <= b.len(),
{
    let mut start: usize = 0;
    let mut n: usize = 0;
    assert(b@.take(0) =~= seq![]);
    while n < line
        invariant
            n <= line,
            n < line_total(b@),
            start == line_start(b@, n as nat),
            start <= b.len(),
        decreases line - n,
    {
        let end: usize = find_line_end(b, start);
        proof {
            lemma_line_start(b@, n as nat);
        }
        if end == b.len() {
            return None;
        }
        start = end + 1;
        n += 1;
    }
    let end: usize = find_line_end(b, start);
    proof {
        lemma_line_start(b@, n as nat);
    }
    Some((start, end))
}

/// The line and byte column of `pos`, or nothing past the end of the text.
pub fn pos_to_linecol(b: &Vec<u8>, pos: usize) -> (r: Option<(usize, usize)>)
    ensures
        r is Some <==> pos <= b.len(),
        r matches Some(p) ==> linecol_spec(b@, pos as int) == Some((p.0 as int, p.1 as int)),
        r matches Some(p) ==> p.0 <= pos && p.1 <= pos,
{
    if pos > b.len() {
        return None;
    }
    let mut line: usize = 0;
    let mut start: usize = 0;
    let mut i: usize = 0;
    assert(b@.take(0) =~= seq![]);
    while i < pos
        invariant
            i <= pos <= b.len(),
            line <= i,
            start <= i,
            line == line_at(b@, i as int),
            start == line_start(b@, line as nat),
        decreases pos - i,
    {
        proof {
            lemma_line_at(b@, i as int);
            lemma_newlines_step(b@, i as int);
            lemma_line_end_from(b@, start as int);
        }
        if b[i] == NEWLINE {
            assert(line_end_from(b@, start as int) == i);
            line += 1;
            start = i + 1;
        }
        i += 1;
    }
    proof {
        lemma_line_at(b@, pos as int);
    }
    Some((line, pos - start))
}

/// The position of a line and byte column, or nothing where they do not exist.
pub fn linecol_to_pos(b: &Vec<u8>, line: usize, col: usize) -> (r: Option<usize>)
    ensures
        r matches Some(p) ==> pos_spec(b@, line as nat, col as int) == Some(p as int) && p
            <= b.len(),
        r is None ==> pos_spec(b@, line as nat, col as int) is None,
{
    match line_range(b, line) {
        Some((start, end)) => {
            if col <= end - start {
                Some(start + col)
            } else {
                None
            }
        },
        None => None,
    }
}

} // verus!

//! How a line of text is painted: which stretches of it get which look.

use vstd::prelude::*;

use crate::buffer::Selection;
use crate::columns::{char_col_in, char_col_of};

verus! {

/// The look of a stretch of text.
#[derive(Debug, Clone, Copy, PartialEq, Eq, Structural)]
pub enum Style {
    Plain,
    /// The color of the syntax segment with this index.
    Colored(usize),
    /// A match of the search; the current one stands out.
    Match { current: bool },
}

/// The characters from `from` up to `to` of a line in one look.
#[derive(Debug, Clone, Copy, PartialEq, Eq, Structural)]
pub struct Run {
    pub from: usize,
    pub to: usize,
    pub style: Style,
}

/// Where the runs so far end.
pub open spec fn painted_to(runs: Seq<Run>) -> int {
    if runs.len() == 0 { 0 } else { runs.last().to as int }
}

/// The runs so far, and plain text up to `to`.
pub open spec fn plain_up_to(runs: Seq<Run>, to: int) -> Seq<Run> {
    if painted_to(runs) < to {
        runs.push(Run { from: painted_to(runs) as usize, to: to as usize, style: Style::Plain })
    } else {
        runs
    }
}

/// The first `n` spans laid out from left to right on a line of `len`
/// characters. What an earlier span has taken, a later one does not get.
pub open spec fn laid_out(spans: Seq<Run>, n: int, len: int) -> Seq<Run>
    decreases n,
{
    if n <= 0 {
        seq![]
    } else {
        let before = laid_out(spans, n - 1, len);
        let span = spans[n - 1];
        let from = if span.from < painted_to(before) { painted_to(before) } else { span.from as int };
        let to = if span.to < len { span.to as int } else { len };
        if from < to {
            plain_up_to(before, from).push(
                Run { from: from as usize, to: to as usize, style: span.style },
            )
        } else {
            before
        }
    }
}

/// The runs of a whole line of `len` characters.
pub open spec fn line_runs(spans: Seq<Run>, len: int) -> Seq<Run> {
    plain_up_to(laid_out(spans, spans.len() as int, len), len)
}

/// Runs that follow each other from the start of the line on, none of them
/// empty.
pub open spec fn in_order(runs: Seq<Run>) -> bool {
    &&& runs.len() > 0 ==> runs[0].from == 0
    &&& forall|i: int| 0 <= i < runs.len() ==> (#[trigger] runs[i]).from < runs[i].to
    &&& forall|i: int, j: int|
        0 <= i < runs.len() - 1 && j == i + 1 ==> (#[trigger] runs[j]).from == (#[trigger] runs[i]).to
}

proof fn lemma_plain_in_order(runs: Seq<Run>, to: int)
    requires
        in_order(runs),
        0 <= painted_to(runs) <= to <= usize::MAX,
    ensures
        in_order(plain_up_to(runs, to)),
        painted_to(plain_up_to(runs, to)) == to,
{
}

proof fn lemma_laid_out(spans: Seq<Run>, n: int, len: int)
    requires
        0 <= n <= spans.len(),
        0 <= len <= usize::MAX,
    ensures
        in_order(laid_out(spans, n, len)),
        0 <= painted_to(laid_out(spans, n, len)) <= len,
    decreases n,
{
    if n > 0 {
        lemma_laid_out(spans, n - 1, len);
        let before = laid_out(spans, n - 1, len);
        let span = spans[n - 1];
        let from = if span.from < painted_to(before) { painted_to(before) } else { span.from as int };
        let to = if span.to < len { span.to as int } else { len };
        if from < to {
            lemma_plain_in_order(before, from);
        }
    }
}

/// The text of some runs of a line, one after the other.
pub open spec fn painted_text(chars: Seq<char>, runs: Seq<Run>) -> Seq<char>
    decreases runs.len(),
{
    if runs.len() == 0 {
        seq![]
    } else {
        painted_text(chars, runs.drop_last()) + chars.subrange(
            runs.last().from as int,
            runs.last().to as int,
        )
    }
}

proof fn lemma_painted_text(chars: Seq<char>, runs: Seq<Run>)
    requires
        in_order(runs),
        painted_to(runs) <= chars.len(),
    ensures
        painted_text(chars, runs) == chars.take(painted_to(runs)),
    decreases runs.len(),
{
    if runs.len() == 0 {
        assert(chars.take(0) =~= seq![]);
    } else {
        let before = runs.drop_last();
        assert(in_order(before)) by {
            assert forall|i: int| 0 <= i < before.len() implies (#[trigger] before[i]).from
                < before[i].to by {
                assert(before[i] == runs[i]);
            }
            assert forall|i: int, j: int| 0 <= i < before.len() - 1 && j == i + 1 implies (
            #[trigger] before[j]).from == (#[trigger] before[i]).to by {
                assert(before[i] == runs[i] && before[j] == runs[j]);
            }
            if before.len() > 0 {
                assert(before[0] == runs[0]);
            }
        }
        if before.len() > 0 {
            assert(runs[runs.len() - 1].from == runs[runs.len() - 2].to);
        }
        assert(runs[runs.len() - 1].from < runs[runs.len() - 1].to);
        lemma_painted_text(chars, before);
        assert(chars.take(painted_to(before)) + chars.subrange(
            runs.last().from as int,
            runs.last().to as int,
        ) =~= chars.take(painted_to(runs)));
    }
}

/// Law: a line is painted from left to right, without gaps and without painting
/// anything twice: the texts of its runs, one after the other, are the line.
pub proof fn law_line_painted_once(chars: Seq<char>, spans: Seq<Run>)
    requires
        chars.len() <= usize::MAX,
    ensures
        in_order(line_runs(spans, chars.len() as int)),
        painted_text(chars, line_runs(spans, chars.len() as int)) == chars,
{
    let len = chars.len() as int;
    lemma_laid_out(spans, spans.len() as int, len);
    lemma_plain_in_order(laid_out(spans, spans.len() as int, len), len);
    lemma_painted_text(chars, line_runs(spans, len));
    assert(chars.take(len) =~= chars);
}

fn push_plain(out: &mut Vec<Run>, to: usize)
    ensures
        final(out)@ == plain_up_to(old(out)@, to as int),
{
    let end: usize = if out.len() == 0 { 0 } else { out[out.len() - 1].to };
    if end < to {
        out.push(Run { from: end, to, style: Style::Plain });
    }
}

/// Split a line of `len` characters into runs: the spans, and plain text
/// between them.
pub fn runs_of(spans: &Vec<Run>, len: usize) -> (r: Vec<Run>)
    ensures
        r@ == line_runs(spans@, len as int),
{
    let mut out: Vec<Run> = Vec::new();
    let mut i: usize = 0;
    assert(out@ =~= laid_out(spans@, 0, len as int));
    while i < spans.len()
        invariant
            i <= spans.len(),
            out@ == laid_out(spans@, i as int, len as int),
        decreases spans.len() - i,
    {
        proof {
            lemma_laid_out(spans@, i as int, len as int);
        }
        let span: Run = spans[i];
        let end: usize = if out.len() == 0 { 0 } else { out[out.len() - 1].to };
        let from: usize = if span.from < end { end } else { span.from };
        let to: usize = if span.to < len { span.to } else { len };
        if from < to {
            push_plain(&mut out, from);
            out.push(Run { from, to, style: span.style });
        }
        i += 1;
    }
    push_plain(&mut out, len);
    out
}

// ----- matches -----

/// A span that starts where the current match may be covered.
pub open spec fn is_current(span: Run) -> bool {
    span.style == Style::Match { current: true }
}

/// Where the first current match from index `i` on starts, or `limit`.
pub open spec fn next_current(spans: Seq<Run>, i: int, limit: int) -> int
    decreases spans.len() - i,
{
    if i >= spans.len() || i < 0 {
        limit
    } else if is_current(spans[i]) {
        spans[i].from as int
    } else {
        next_current(spans, i + 1, limit)
    }
}

/// A match that gives way to the current match behind it.
pub open spec fn giving_way(spans: Seq<Run>, i: int) -> Run {
    let stop = next_current(spans, i + 1, spans[i].to as int);
    if is_current(spans[i]) || spans[i].to <= stop {
        spans[i]
    } else {
        Run { to: stop as usize, ..spans[i] }
    }
}

/// The matches of a line, the current one uncovered.
pub open spec fn uncovered(spans: Seq<Run>) -> Seq<Run> {
    Seq::new(spans.len(), |i: int| giving_way(spans, i))
}

/// Cut the matches of a line so that none reaches into the current one behind
/// it.
pub fn uncover_current(spans: &Vec<Run>) -> (r: Vec<Run>)
    ensures
        r@ == uncovered(spans@),
{
    let mut out: Vec<Run> = Vec::new();
    let mut i: usize = 0;
    while i < spans.len()
        invariant
            i <= spans.len(),
            out.len() == i,
            forall|k: int| 0 <= k < i ==> out[k] == giving_way(spans@, k),
        decreases spans.len() - i,
    {
        let span: Run = spans[i];
        let mut stop: usize = span.to;
        let mut j: usize = i + 1;
        let mut found: bool = false;
        while j < spans.len() && !found
            invariant
                i < j <= spans.len(),
                !found ==> stop == span.to && next_current(spans@, i + 1, span.to as int)
                    == next_current(spans@, j as int, span.to as int),
                found ==> stop == next_current(spans@, i + 1, span.to as int),
            decreases spans.len() - j, if found { 0int } else { 1int },
        {
            match spans[j].style {
                Style::Match { current: true } => {
                    stop = spans[j].from;
                    found = true;
                },
                _ => {
                    j += 1;
                },
            }
        }
        let whole: bool = match span.style {
            Style::Match { current: true } => true,
            _ => span.to <= stop,
        };
        let to: usize = if whole { span.to } else { stop };
        out.push(Run { from: span.from, to, style: span.style });
        i += 1;
    }
    assert(out@ =~= uncovered(spans@));
    out
}

proof fn lemma_next_current(spans: Seq<Run>, i: int, k: int, limit: int)
    requires
        0 <= i <= k < spans.len(),
        is_current(spans[k]),
        forall|j: int| i <= j < k ==> !is_current(#[trigger] spans[j]),
    ensures
        next_current(spans, i, limit) == spans[k].from,
    decreases k - i,
{
    if i < k {
        assert(!is_current(spans[i]));
        lemma_next_current(spans, i + 1, k, limit);
    }
}

proof fn lemma_painted_before(spans: Seq<Run>, k: int, n: int, len: int)
    requires
        0 <= n <= k < spans.len(),
        is_current(spans[k]),
        forall|j: int| 0 <= j < k ==> !is_current(#[trigger] spans[j]),
        spans[k].to <= len <= usize::MAX,
    ensures
        painted_to(laid_out(uncovered(spans), n, len)) <= spans[k].from,
    decreases n,
{
    if n > 0 {
        lemma_painted_before(spans, k, n - 1, len);
        let i = n - 1;
        assert(!is_current(spans[i]));
        lemma_next_current(spans, i + 1, k, spans[i].to as int);
        assert(uncovered(spans)[i] == giving_way(spans, i));
        assert(uncovered(spans)[i].to <= spans[k].from);
    }
}

proof fn lemma_laid_out_keeps(spans: Seq<Run>, m: int, n: int, len: int)
    requires
        0 <= m <= n,
    ensures
        laid_out(spans, m, len).len() <= laid_out(spans, n, len).len(),
        forall|i: int|
            0 <= i < laid_out(spans, m, len).len() ==> laid_out(spans, n, len)[i]
                == #[trigger] laid_out(spans, m, len)[i],
    decreases n - m,
{
    if m < n {
        lemma_laid_out_keeps(spans, m, n - 1, len);
    }
}

/// Law: the current match is painted whole and in its own look, even where
/// other matches overlap it.
pub proof fn law_current_match_whole(spans: Seq<Run>, k: int, len: int)
    requires
        0 <= k < spans.len(),
        is_current(spans[k]),
        forall|j: int| 0 <= j < k ==> !is_current(#[trigger] spans[j]),
        spans[k].from < spans[k].to <= len <= usize::MAX,
    ensures
        line_runs(uncovered(spans), len).contains(spans[k]),
{
    let cut = uncovered(spans);
    assert(cut[k] == spans[k]);
    lemma_painted_before(spans, k, k, len);
    lemma_laid_out(cut, k, len);
    let upto = laid_out(cut, k + 1, len);
    assert(upto.last() == spans[k]);
    lemma_laid_out_keeps(cut, k + 1, cut.len() as int, len);
    let all = laid_out(cut, cut.len() as int, len);
    assert(all[upto.len() - 1] == upto[upto.len() - 1]);
    assert(line_runs(cut, len)[upto.len() - 1] == spans[k]);
}

// ----- byte ranges of a document as columns of a line -----

/// The character columns that a byte range takes of a line, which is
/// `chars` and reaches from `start` to `end`.
pub open spec fn cols_in_line(chars: Seq<char>, start: int, end: int, from: int, to: int) -> (nat, nat) {
    let a = if from < start { start } else { from };
    let b = if to > end { end } else { to };
    (char_col_of(chars, a - start), char_col_of(chars, b - start))
}

/// The same, computed; nothing where the range takes no character.
pub fn columns_of(chars: &Vec<char>, start: usize, end: usize, from: usize, to: usize) -> (r: Option<
    (usize, usize),
>)
    requires
        start <= end,
    ensures
        r matches Some(p) ==> (p.0 as nat, p.1 as nat) == cols_in_line(
            chars@,
            start as int,
            end as int,
            from as int,
            to as int,
        ) && p.0 < p.1 <= chars.len(),
        r is None <==> cols_in_line(chars@, start as int, end as int, from as int, to as int).0
            >= cols_in_line(chars@, start as int, end as int, from as int, to as int).1,
{
    let a: usize = if from < start { start } else { from };
    let b: usize = if to > end { end } else { to };
    let lo: usize = char_col_in(chars, a - start);
    if b <= start {
        assert(char_col_of(chars@, b - start) == 0);
        return None;
    }
    let hi: usize = char_col_in(chars, b - start);
    if lo < hi { Some((lo, hi)) } else { None }
}

/// The matches among the first `n` that show on a line. The one that starts at
/// `current` is the current one.
pub open spec fn match_spans(
    chars: Seq<char>,
    start: int,
    end: int,
    matches: Seq<(usize, usize)>,
    current: Option<usize>,
    n: int,
) -> Seq<Run>
    decreases n,
{
    if n <= 0 {
        seq![]
    } else {
        let before = match_spans(chars, start, end, matches, current, n - 1);
        let m = matches[n - 1];
        let c = cols_in_line(chars, start, end, m.0 as int, m.1 as int);
        if c.0 < c.1 {
            before.push(
                Run {
                    from: c.0 as usize,
                    to: c.1 as usize,
                    style: Style::Match { current: current == Some(m.0) },
                },
            )
        } else {
            before
        }
    }
}

/// The matches that show on a line, as spans of characters.
pub fn spans_of_matches(
    chars: &Vec<char>,
    start: usize,
    end: usize,
    matches: &Vec<(usize, usize)>,
    current: Option<usize>,
) -> (r: Vec<Run>)
    requires
        start <= end,
    ensures
        r@ == match_spans(
            chars@,
            start as int,
            end as int,
            matches@,
            current,
            matches.len() as int,
        ),
{
    let mut out: Vec<Run> = Vec::new();
    let mut i: usize = 0;
    assert(out@ =~= seq![]);
    while i < matches.len()
        invariant
            i <= matches.len(),
            start <= end,
            out@ == match_spans(chars@, start as int, end as int, matches@, current, i as int),
        decreases matches.len() - i,
    {
        let (from, to): (usize, usize) = matches[i];
        match columns_of(chars, start, end, from, to) {
            Some((lo, hi)) => {
                let is_it: bool = match current {
                    Some(c) => c == from,
                    None => false,
                };
                out.push(Run { from: lo, to: hi, style: Style::Match { current: is_it } });
            },
            None => {},
        }
        i += 1;
    }
    out
}

/// The columns that the first `n` selections take of a line.
pub open spec fn selected_cols(
    chars: Seq<char>,
    start: int,
    end: int,
    selections: Seq<Selection>,
    n: int,
) -> Seq<(usize, usize)>
    decreases n,
{
    if n <= 0 {
        seq![]
    } else {
        let before = selected_cols(chars, start, end, selections, n - 1);
        let s = selections[n - 1];
        let c = cols_in_line(chars, start, end, s.start(), s.end());
        if s.start() < s.end() && c.0 < c.1 {
            before.push((c.0 as usize, c.1 as usize))
        } else {
            before
        }
    }
}

/// The columns that the selections take of a line.
pub fn columns_of_selections(
    chars: &Vec<char>,
    start: usize,
    end: usize,
    selections: &Vec<Selection>,
) -> (r: Vec<(usize, usize)>)
    requires
        start <= end,
    ensures
        r@ == selected_cols(
            chars@,
            start as int,
            end as int,
            selections@,
            selections.len() as int,
        ),
{
    let mut out: Vec<(usize, usize)> = Vec::new();
    let mut i: usize = 0;
    assert(out@ =~= seq![]);
    while i < selections.len()
        invariant
            i <= selections.len(),
            start <= end,
            out@ == selected_cols(chars@, start as int, end as int, selections@, i as int),
        decreases selections.len() - i,
    {
        let s: Selection = selections[i];
        if !s.is_collapsed() {
            let range: core::ops::Range<usize> = s.range();
            match columns_of(chars, start, end, range.start, range.end) {
                Some(c) => out.push(c),
                None => {},
            }
        }
        i += 1;
    }
    out
}

// ----- syntax colors -----

/// The bytes of a line that get one color.
#[derive(Debug, Clone, Copy, PartialEq, Eq, Structural)]
pub struct Segment {
    pub start: usize,
    pub end: usize,
}

/// The syntax segments of a line as spans of characters, each with its own
/// color.
pub open spec fn segment_spans(chars: Seq<char>, segments: Seq<Segment>) -> Seq<Run> {
    Seq::new(
        segments.len(),
        |i: int|
            Run {
                from: char_col_of(chars, segments[i].start as int) as usize,
                to: char_col_of(chars, segments[i].end as int) as usize,
                style: Style::Colored(i as usize),
            },
    )
}

pub fn spans_of_segments(chars: &Vec<char>, segments: &Vec<Segment>) -> (r: Vec<Run>)
    ensures
        r@ == segment_spans(chars@, segments@),
{
    let mut out: Vec<Run> = Vec::new();
    let mut i: usize = 0;
    while i < segments.len()
        invariant
            i <= segments.len(),
            out.len() == i,
            forall|k: int| 0 <= k < i ==> out[k] == segment_spans(chars@, segments@)[k],
        decreases segments.len() - i,
    {
        let s: Segment = segments[i];
        out.push(
            Run {
                from: char_col_in(chars, s.start),
                to: char_col_in(chars, s.end),
                style: Style::Colored(i),
            },
        );
        i += 1;
    }
    assert(out@ =~= segment_spans(chars@, segments@));
    out
}

} // verus!

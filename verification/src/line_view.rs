//! What a frame shows of one line: its number, its text and everything that is
//! drawn on and under it.

use vstd::prelude::*;
use vstd::utf8::*;

use crate::buffer::{BufferV, TextBuffer};
use crate::columns::{byte_col_in, byte_col_of, byte_len, char_col_in, char_col_of};
use crate::edits::Position;
use crate::lines::{line_at, line_bytes, line_end, line_start, line_total};
use crate::paint::{
    cols_in_line, columns_of, columns_of_selections, line_runs, match_spans, runs_of, segment_spans,
    selected_cols, spans_of_matches, spans_of_segments, uncover_current, uncovered, Run, Segment,
};
use crate::search::{Search, SearchV};
use crate::state::{AppV, EditorApp};
use crate::text::{chars_of, decimal, lossy_utf8, push_decimal};

verus! {

// ----- the line number -----

/// How many digits line numbers get: those of the last one, but two at least.
pub open spec fn number_width(lines: nat) -> nat {
    if decimal(lines).len() < 2 { 2 } else { decimal(lines).len() }
}

/// A line number, right-aligned, and the bar behind it.
pub open spec fn gutter_text(number: nat, width: nat) -> Seq<char> {
    let digits = decimal(number);
    let pad = if digits.len() < width { (width - digits.len()) as nat } else { 0 };
    Seq::new(pad, |i: int| ' ') + digits + " │ "@
}

/// How many columns the numbers and the bar take.
pub open spec fn gutter_cols(lines: nat) -> nat {
    number_width(lines) + 3
}

/// Numbers with more digits are not smaller.
proof fn lemma_decimal_len(a: nat, b: nat)
    requires
        a <= b,
    ensures
        1 <= decimal(a).len() <= decimal(b).len(),
        decimal(b).len() <= b + 1,
    decreases b,
{
    if b >= 10 {
        lemma_decimal_len(if a >= 10 { a / 10 } else { 0 }, b / 10);
    }
}

/// Law: the numbers of all lines take the same columns.
pub proof fn law_gutters_align(number: nat, lines: nat)
    requires
        number <= lines,
    ensures
        gutter_text(number, number_width(lines)).len() == gutter_cols(lines),
{
    lemma_decimal_len(number, lines);
    reveal_strlit(" │ ");
}

pub fn digits_of(n: u64) -> (r: usize)
    ensures
        r == decimal(n as nat).len(),
        1 <= r <= 20,
    decreases n,
{
    proof {
        lemma_decimal_len(n as nat, u64::MAX as nat);
        assert(decimal(u64::MAX as nat).len() == 20) by {
            reveal_with_fuel(decimal, 21);
        }
    }
    let mut rest: u64 = n;
    let mut count: usize = 1;
    while rest >= 10
        invariant
            count >= 1,
            count + decimal(rest as nat).len() == decimal(n as nat).len() + 1,
            decimal(n as nat).len() <= 20,
            decimal(rest as nat).len() >= 1,
        decreases rest,
    {
        proof {
            lemma_decimal_len((rest / 10) as nat, (rest / 10) as nat);
        }
        rest = rest / 10;
        count += 1;
    }
    count
}

/// The width of the line numbers of a text with this many lines.
pub fn line_number_width(lines: usize) -> (r: usize)
    ensures
        r == number_width(lines as nat),
        2 <= r <= 20,
{
    let n: usize = digits_of(lines as u64);
    if n < 2 { 2 } else { n }
}

/// The number of a line, counted from 1, as it is shown.
pub fn line_number_text(number: usize, width: usize) -> (r: String)
    ensures
        r@ == gutter_text(number as nat, width as nat),
{
    let digits: usize = digits_of(number as u64);
    let pad: usize = if digits < width { width - digits } else { 0 };
    let mut out: String = String::new();
    let mut i: usize = 0;
    assert(out@ =~= Seq::new(0, |i: int| ' '));
    while i < pad
        invariant
            i <= pad,
            out@ == Seq::new(i as nat, |i: int| ' '),
        decreases pad - i,
    {
        out.push(' ');
        i += 1;
        assert(out@ =~= Seq::new(i as nat, |i: int| ' '));
    }
    push_decimal(&mut out, number as u64);
    out.append(" │ ");
    out
}

// ----- columns and indentation -----

/// How many columns a character takes.
pub open spec fn char_cols(c: char, tab_width: nat) -> nat {
    if c == '\t' { tab_width } else { 1 }
}

/// How many columns the first `n` characters take.
pub open spec fn text_cols(chars: Seq<char>, tab_width: nat, n: int) -> nat
    decreases n,
{
    if n <= 0 {
        0
    } else {
        text_cols(chars, tab_width, n - 1) + char_cols(chars[n - 1], tab_width)
    }
}

/// How many characters from `from` on are spaces or tabs.
pub open spec fn blanks_from(chars: Seq<char>, from: int) -> nat
    decreases chars.len() - from,
{
    if 0 <= from < chars.len() && (chars[from] == ' ' || chars[from] == '\t') {
        1 + blanks_from(chars, from + 1)
    } else {
        0
    }
}

/// A number of columns, as far as a `usize` counts.
pub open spec fn counted(n: nat) -> usize {
    if n < usize::MAX { n as usize } else { usize::MAX }
}

/// The columns that `chars[..n]` takes.
fn cols_of(chars: &Vec<char>, tab_width: usize, n: usize) -> (r: usize)
    requires
        n <= chars.len(),
    ensures
        r == counted(text_cols(chars@, tab_width as nat, n as int)),
{
    let mut cols: usize = 0;
    let mut i: usize = 0;
    while i < n
        invariant
            i <= n <= chars.len(),
            cols == counted(text_cols(chars@, tab_width as nat, i as int)),
        decreases n - i,
    {
        let w: usize = if chars[i] == '\t' { tab_width } else { 1 };
        cols = cols.saturating_add(w);
        i += 1;
    }
    cols
}

/// How many columns a line takes.
pub fn line_columns(chars: &Vec<char>, tab_width: usize) -> (r: usize)
    ensures
        r == counted(text_cols(chars@, tab_width as nat, chars.len() as int)),
{
    cols_of(chars, tab_width, chars.len())
}

/// The columns of the indentation guides: every whole indentation step that
/// lies inside the blanks at the start of the line.
pub open spec fn guide_cols(leading: usize, step: int) -> Seq<usize>
    recommends
        step > 0,
{
    Seq::new(
        (if leading == 0 || step <= 0 { 0 } else { (leading - 1) / step }) as nat,
        |i: int| ((i + 1) * step) as usize,
    )
}

/// The tab width, never 0.
pub open spec fn indent_step(tab_width: usize) -> usize {
    if tab_width == 0 { 1 } else { tab_width }
}

/// How many columns the blanks at the start of a line take.
pub open spec fn leading_cols(chars: Seq<char>, tab_width: usize) -> usize {
    counted(text_cols(chars, indent_step(tab_width) as nat, blanks_from(chars, 0) as int))
}

/// The indentation guides of a line.
pub fn guides(chars: &Vec<char>, tab_width: usize) -> (r: Vec<usize>)
    ensures
        r@ == guide_cols(leading_cols(chars@, tab_width), indent_step(tab_width) as int),
{
    let step: usize = if tab_width == 0 { 1 } else { tab_width };
    let mut n: usize = 0;
    while n < chars.len() && (chars[n] == ' ' || chars[n] == '\t')
        invariant
            n <= chars.len(),
            blanks_from(chars@, 0) == n + blanks_from(chars@, n as int),
        decreases chars.len() - n,
    {
        n += 1;
    }
    let leading: usize = cols_of(chars, step, n);
    let mut out: Vec<usize> = Vec::new();
    if leading == 0 {
        assert(out@ =~= guide_cols(leading, step as int));
        return out;
    }
    let count: usize = (leading - 1) / step;
    let mut i: usize = 0;
    while i < count
        invariant
            i <= count,
            step > 0,
            leading > 0,
            count == (leading - 1) / (step as int),
            out.len() == i,
            forall|k: int| 0 <= k < i ==> out[k] == ((k + 1) * step) as usize,
        decreases count - i,
    {
        assert((i + 1) * step <= leading - 1) by (nonlinear_arith)
            requires
                i + 1 <= count,
                count == (leading - 1) / (step as int),
                step > 0,
                leading > 0,
        ;
        out.push((i + 1) * step);
        i += 1;
    }
    assert(out@ =~= guide_cols(leading, step as int));
    out
}

// ----- diagnostics -----

/// How bad a diagnostic is.
#[derive(Debug, Clone, Copy, PartialEq, Eq, Structural)]
pub enum Severity {
    Error,
    Warning,
    Information,
    Hint,
}

/// What a language server says of a stretch of text.
#[derive(Debug, Clone, Copy, PartialEq, Eq, Structural)]
pub struct Diagnostic {
    pub start: Position,
    pub end: Position,
    pub severity: Option<Severity>,
}

/// A diagnostic that touches a line.
pub open spec fn on_line(d: Diagnostic, line: int) -> bool {
    d.start.line <= line <= d.end.line
}

/// The worse of two severities. Errors are worst, then warnings; of the rest
/// the one seen last counts.
pub open spec fn worse(max: Option<Severity>, next: Option<Severity>) -> Option<Severity> {
    if max == Some(Severity::Error) || next == Some(Severity::Error) {
        Some(Severity::Error)
    } else if max == Some(Severity::Warning) || next == Some(Severity::Warning) {
        Some(Severity::Warning)
    } else if next is Some {
        next
    } else {
        max
    }
}

/// The severity that the first `n` diagnostics give a line.
pub open spec fn line_severity(diagnostics: Seq<Diagnostic>, line: int, n: int) -> Option<Severity>
    decreases n,
{
    if n <= 0 {
        None
    } else if on_line(diagnostics[n - 1], line) {
        worse(line_severity(diagnostics, line, n - 1), diagnostics[n - 1].severity)
    } else {
        line_severity(diagnostics, line, n - 1)
    }
}

/// Law: a line is marked as an error exactly where an error touches it, and as
/// a warning exactly where a warning does and no error.
pub proof fn law_worst_severity_wins(diagnostics: Seq<Diagnostic>, line: int, n: int)
    requires
        0 <= n <= diagnostics.len(),
    ensures
        line_severity(diagnostics, line, n) == Some(Severity::Error) <==> exists|i: int|
            0 <= i < n && on_line(#[trigger] diagnostics[i], line) && diagnostics[i].severity
                == Some(Severity::Error),
        line_severity(diagnostics, line, n) == Some(Severity::Warning) <==> (exists|i: int|
            0 <= i < n && on_line(#[trigger] diagnostics[i], line) && diagnostics[i].severity
                == Some(Severity::Warning)) && !(exists|i: int|
            0 <= i < n && on_line(#[trigger] diagnostics[i], line) && diagnostics[i].severity
                == Some(Severity::Error)),
    decreases n,
{
    if n > 0 {
        law_worst_severity_wins(diagnostics, line, n - 1);
        let d = diagnostics[n - 1];
        if line_severity(diagnostics, line, n - 1) == Some(Severity::Error) {
            let i = choose|i: int|
                0 <= i < n - 1 && on_line(#[trigger] diagnostics[i], line)
                    && diagnostics[i].severity == Some(Severity::Error);
            assert(on_line(diagnostics[i], line));
        }
        if line_severity(diagnostics, line, n - 1) == Some(Severity::Warning) {
            let i = choose|i: int|
                0 <= i < n - 1 && on_line(#[trigger] diagnostics[i], line)
                    && diagnostics[i].severity == Some(Severity::Warning);
            assert(on_line(diagnostics[i], line));
        }
    }
}

/// The worst that the diagnostics say of a line.
pub fn severity_of_line(diagnostics: &Vec<Diagnostic>, line: usize) -> (r: Option<Severity>)
    ensures
        r == line_severity(diagnostics@, line as int, diagnostics.len() as int),
{
    let mut worst: Option<Severity> = None;
    let mut i: usize = 0;
    while i < diagnostics.len()
        invariant
            i <= diagnostics.len(),
            worst == line_severity(diagnostics@, line as int, i as int),
        decreases diagnostics.len() - i,
    {
        let d: Diagnostic = diagnostics[i];
        if d.start.line as u64 <= line as u64 && line as u64 <= d.end.line as u64 {
            worst =
            match (worst, d.severity) {
                (Some(Severity::Error), _) => worst,
                (_, Some(Severity::Error)) => Some(Severity::Error),
                (Some(Severity::Warning), _) => worst,
                (_, Some(Severity::Warning)) => Some(Severity::Warning),
                (_, Some(s)) => Some(s),
                (_, None) => worst,
            };
        }
        i += 1;
    }
    worst
}

/// The columns under which a diagnostic is marked.
#[derive(Debug, Clone, Copy, PartialEq, Eq, Structural)]
pub struct Underline {
    pub from: usize,
    pub to: usize,
    pub severity: Option<Severity>,
}

/// The bytes of a line of `bytes` bytes that a diagnostic marks.
pub open spec fn marked_bytes(chars: Seq<char>, bytes: int, line: int, d: Diagnostic) -> (int, int) {
    let from = if d.start.line < line { 0 } else {
        byte_col_of(chars, d.start.character as int) as int
    };
    let to = if d.end.line > line { bytes } else {
        byte_col_of(chars, d.end.character as int) as int
    };
    (if from > bytes { bytes } else { from }, if to > bytes { bytes } else { to })
}

/// What is marked of a line by the first `n` diagnostics.
pub open spec fn underlines(
    chars: Seq<char>,
    bytes: int,
    line: int,
    diagnostics: Seq<Diagnostic>,
    n: int,
) -> Seq<Underline>
    decreases n,
{
    if n <= 0 {
        seq![]
    } else {
        let before = underlines(chars, bytes, line, diagnostics, n - 1);
        let d = diagnostics[n - 1];
        let m = marked_bytes(chars, bytes, line, d);
        if on_line(d, line) && m.0 < m.1 {
            before.push(
                Underline {
                    from: char_col_of(chars, m.0) as usize,
                    to: char_col_of(chars, m.1) as usize,
                    severity: d.severity,
                },
            )
        } else {
            before
        }
    }
}

/// What the diagnostics mark of a line.
pub fn underlines_of(
    chars: &Vec<char>,
    bytes: usize,
    line: usize,
    diagnostics: &Vec<Diagnostic>,
) -> (r: Vec<Underline>)
    requires
        byte_len(chars@) <= usize::MAX,
    ensures
        r@ == underlines(
            chars@,
            bytes as int,
            line as int,
            diagnostics@,
            diagnostics.len() as int,
        ),
{
    let mut out: Vec<Underline> = Vec::new();
    let mut i: usize = 0;
    assert(out@ =~= seq![]);
    while i < diagnostics.len()
        invariant
            i <= diagnostics.len(),
            byte_len(chars@) <= usize::MAX,
            out@ == underlines(chars@, bytes as int, line as int, diagnostics@, i as int),
        decreases diagnostics.len() - i,
    {
        let d: Diagnostic = diagnostics[i];
        let first: usize = d.start.line as usize;
        let last: usize = d.end.line as usize;
        if first <= line && line <= last {
            let from: usize = if first < line {
                0
            } else {
                byte_col_in(chars, d.start.character as usize)
            };
            let to: usize = if last > line {
                bytes
            } else {
                byte_col_in(chars, d.end.character as usize)
            };
            let a: usize = if from > bytes { bytes } else { from };
            let b: usize = if to > bytes { bytes } else { to };
            if a < b {
                out.push(
                    Underline {
                        from: char_col_in(chars, a),
                        to: char_col_in(chars, b),
                        severity: d.severity,
                    },
                );
            }
        }
        i += 1;
    }
    out
}

// ----- the picture of a line -----

/// The characters that a line of `b` is shown as.
pub open spec fn shown_chars(b: BufferV, line: int) -> Seq<char> {
    lossy_utf8(line_bytes(b.text, line as nat))
}

/// The stretches of a line with a look of their own. Matches of the search go
/// before the colors of the syntax, except where something is selected.
pub open spec fn look_spans(b: BufferV, search: SearchV, line: int, segments: Seq<Segment>) -> Seq<Run> {
    let chars = shown_chars(b, line);
    let start = line_start(b.text, line as nat);
    let end = line_end(b.text, line as nat);
    let found = match_spans(
        chars,
        start,
        end,
        search.matches,
        search.current_start(),
        search.matches.len() as int,
    );
    if search.query.len() > 0 && found.len() > 0 && selected_cols(
        chars,
        start,
        end,
        b.selections,
        b.selections.len() as int,
    ).len() == 0 {
        uncovered(found)
    } else {
        segment_spans(chars, segments)
    }
}

/// The columns of a line that a byte range takes, if it takes any.
pub open spec fn range_cols(b: BufferV, line: int, range: Option<(usize, usize)>) -> Option<(nat, nat)> {
    match range {
        None => None,
        Some(r) => {
            let c = cols_in_line(
                shown_chars(b, line),
                line_start(b.text, line as nat),
                line_end(b.text, line as nat),
                r.0 as int,
                r.1 as int,
            );
            if c.0 < c.1 { Some(c) } else { None }
        },
    }
}

/// Everything that is drawn of one line.
pub struct LinePicture {
    pub text: String,
    /// The line number and the bar behind it.
    pub number: String,
    /// The caret is on this line.
    pub active: bool,
    /// How many columns the text takes.
    pub columns: usize,
    /// The columns of the indentation guides.
    pub guides: Vec<usize>,
    /// The worst diagnostic of the line.
    pub stripe: Option<Severity>,
    /// The columns that are selected.
    pub selections: Vec<(usize, usize)>,
    pub runs: Vec<Run>,
    pub underlines: Vec<Underline>,
    /// The columns of the link under the pointer.
    pub link: Option<(usize, usize)>,
}

impl LinePicture {
    /// The picture shows line `line` of the active document.
    pub open spec fn shows(
        self,
        s: AppV,
        line: int,
        segments: Seq<Segment>,
        diagnostics: Seq<Diagnostic>,
    ) -> bool {
        let b = s.buf();
        let chars = shown_chars(b, line);
        let start = line_start(b.text, line as nat);
        let end = line_end(b.text, line as nat);
        &&& self.text@ == chars
        &&& self.number@ == gutter_text((line + 1) as nat, number_width(line_total(b.text)))
        &&& self.active == (line == line_at(b.text, b.cursor() as int))
        &&& self.columns == counted(
            text_cols(chars, s.doc().view.tab_width as nat, chars.len() as int),
        )
        &&& self.guides@ == guide_cols(
            leading_cols(chars, s.doc().view.tab_width),
            indent_step(s.doc().view.tab_width) as int,
        )
        &&& self.stripe == line_severity(diagnostics, line, diagnostics.len() as int)
        &&& self.selections@ == selected_cols(
            chars,
            start,
            end,
            b.selections,
            b.selections.len() as int,
        )
        &&& self.runs@ == line_runs(look_spans(b, s.search, line, segments), chars.len() as int)
        &&& self.underlines@ == underlines(
            chars,
            end - start,
            line,
            diagnostics,
            diagnostics.len() as int,
        )
        &&& match self.link {
            Some(l) => range_cols(b, line, s.lsp.cmd_link.range) == Some((l.0 as nat, l.1 as nat)),
            None => range_cols(b, line, s.lsp.cmd_link.range) is None,
        }
    }
}

/// The looks of a line of the buffer.
fn look_of(
    chars: &Vec<char>,
    buffer: &TextBuffer,
    search: &Search,
    line: usize,
    range: core::ops::Range<usize>,
    segments: &Vec<Segment>,
) -> (r: (Vec<(usize, usize)>, Vec<Run>))
    requires
        buffer@.wf(),
        line < line_total(buffer@.text),
        chars@ == shown_chars(buffer@, line as int),
        range.start == line_start(buffer@.text, line as nat),
        range.end == line_end(buffer@.text, line as nat),
        range.start <= range.end,
    ensures
        r.0@ == selected_cols(
            chars@,
            range.start as int,
            range.end as int,
            buffer@.selections,
            buffer@.selections.len() as int,
        ),
        r.1@ == line_runs(
            look_spans(buffer@, search@, line as int, segments@),
            chars.len() as int,
        ),
{
    let selected: Vec<(usize, usize)> = columns_of_selections(
        chars,
        range.start,
        range.end,
        buffer.selections(),
    );
    if selected.len() == 0 && search.query.as_str().as_bytes().len() > 0 {
        proof {
            lemma_empty_text(search.query@);
        }
        let found: Vec<Run> = spans_of_matches(
            chars,
            range.start,
            range.end,
            &search.matches,
            search.current_match(),
        );
        if found.len() > 0 {
            return (selected, runs_of(&uncover_current(&found), chars.len()));
        }
    }
    proof {
        lemma_empty_text(search.query@);
    }
    (selected, runs_of(&spans_of_segments(chars, segments), chars.len()))
}

/// Only the empty text takes no bytes.
proof fn lemma_empty_text(s: Seq<char>)
    ensures
        encode_utf8(s).len() == 0 <==> s.len() == 0,
{
    crate::columns::lemma_byte_len_grows(s, 0, s.len() as int);
    assert(s.take(s.len() as int) =~= s);
    assert(s.take(0) =~= seq![]);
    if s.len() == 0 {
        assert(s =~= seq![]);
        assert(encode_utf8(s) =~= seq![]);
    }
}

/// The line that the caret is on.
pub fn caret_line(buffer: &TextBuffer) -> (r: usize)
    requires
        buffer@.wf(),
    ensures
        r == line_at(buffer@.text, buffer@.cursor() as int),
        r < line_total(buffer@.text),
{
    match buffer.pos_to_linecol(buffer.cursor()) {
        Some((line, _)) => line,
        None => 0,
    }
}

impl EditorApp {
    /// What is drawn of a line of the active document. Colors and diagnostics
    /// come from outside.
    pub fn line_picture(
        &self,
        line: usize,
        segments: &Vec<Segment>,
        diagnostics: &Vec<Diagnostic>,
    ) -> (r: LinePicture)
        requires
            self@.wf(),
            line < line_total(self@.buf().text),
        ensures
            r.shows(self@, line as int, segments@, diagnostics@),
    {
        let buffer: &TextBuffer = self.active_buffer();
        let tab_width: usize = self.active_doc().view.tab_width;
        let total: usize = buffer.line_count();
        let text: String = buffer.shown_line(line);
        let chars: Vec<char> = chars_of(text.as_str());
        let bytes: usize = text.as_str().as_bytes().len();
        assert(byte_len(chars@) <= usize::MAX);
        let range: core::ops::Range<usize> = match buffer.line_byte_range(line) {
            Some(r) => r,
            None => 0..0,
        };
        let (start, end): (usize, usize) = (range.start, range.end);
        let (selections, runs): (Vec<(usize, usize)>, Vec<Run>) = look_of(
            &chars,
            buffer,
            self.search(),
            line,
            range,
            segments,
        );
        let link: Option<(usize, usize)> = match self.lsp().cmd_link.range {
            Some((from, to)) => columns_of(&chars, start, end, from, to),
            None => None,
        };
        LinePicture {
            number: line_number_text(line + 1, line_number_width(total)),
            active: line == caret_line(buffer),
            columns: line_columns(&chars, tab_width),
            guides: guides(&chars, tab_width),
            stripe: severity_of_line(diagnostics, line),
            selections,
            runs,
            underlines: underlines_of(&chars, end - start, line, diagnostics),
            link,
            text,
        }
    }
}

/// The lines that show between two edges of the window, both counted in lines
/// from the start of the text.
pub open spec fn visible_span(first: int, last: int, total: int) -> (int, int) {
    (if first < 0 { 0 } else { first }, if 0 <= last < total { last } else { total })
}

/// The lines to draw.
pub fn visible_lines(first: isize, last: isize, total: usize) -> (r: (usize, usize))
    ensures
        (r.0 as int, r.1 as int) == visible_span(first as int, last as int, total as int),
{
    let start: usize = if first < 0 { 0 } else { first as usize };
    let end: usize = if last >= 0 && (last as usize) < total { last as usize } else { total };
    (start, end)
}

} // verus!

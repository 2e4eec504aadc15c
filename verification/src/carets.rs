//! Moving, adding and dropping carets and selections.

use vstd::prelude::*;
use vstd::utf8::*;

use crate::buffer::{caret, BufferV, Selection, TextBuffer};
use crate::lines::line_total;
use crate::motion::{
    clamped_line_charcol_to_pos, clamped_pos, compute_target_from, page_lines, target, Movement,
};
use crate::occurrences::{
    all_occurrence_selections, by_head, caret_word, copy_selections, occurrences, sort_by_head,
    word_at_cursor,
};

verus! {

/// Every caret moved, all selections gone.
pub open spec fn moved(b: BufferV, movement: Movement, page: int) -> BufferV {
    b.with_selections(
        Seq::new(
            b.selections.len(),
            |i: int| caret(target(b.text, movement, b.selections[i].head as int, page) as usize),
        ),
    )
}

/// The head of every selection moved, the anchors left.
pub open spec fn extended(b: BufferV, movement: Movement, page: int) -> BufferV {
    b.with_selections(
        Seq::new(
            b.selections.len(),
            |i: int|
                Selection {
                    anchor: b.selections[i].anchor,
                    head: target(b.text, movement, b.selections[i].head as int, page) as usize,
                },
        ),
    )
}

/// Move every caret. Selections stay anchored where they are, if `extend`.
pub fn move_carets(buffer: &mut TextBuffer, movement: Movement, viewport: usize, extend: bool)
    requires
        old(buffer)@.wf(),
    ensures
        final(buffer)@.wf(),
        !extend ==> final(buffer)@ == moved(old(buffer)@, movement, page_lines(viewport)),
        extend ==> final(buffer)@ == extended(old(buffer)@, movement, page_lines(viewport)),
{
    let ghost b = buffer@;
    let page = Ghost(page_lines(viewport));
    let mut out: Vec<Selection> = Vec::new();
    let mut i: usize = 0;
    let n: usize = buffer.selections().len();
    while i < n
        invariant
            i <= n == b.selections.len(),
            buffer@ == b,
            b.wf(),
            page@ == page_lines(viewport),
            out@.len() == i,
            forall|k: int|
                0 <= k < i ==> (#[trigger] out@[k]) == (Selection {
                    anchor: if extend {
                        b.selections[k].anchor
                    } else {
                        target(b.text, movement, b.selections[k].head as int, page@) as usize
                    },
                    head: target(b.text, movement, b.selections[k].head as int, page@) as usize,
                }),
        decreases n - i,
    {
        let s: Selection = buffer.selections()[i];
        assert(b.selections[i as int] == s);
        let head: usize = compute_target_from(buffer, movement, s.head, viewport);
        let anchor: usize = if extend { s.anchor } else { head };
        out.push(Selection { anchor, head });
        i += 1;
    }
    proof {
        let m = Seq::new(
            b.selections.len(),
            |i: int| caret(target(b.text, movement, b.selections[i].head as int, page@) as usize),
        );
        let e = Seq::new(
            b.selections.len(),
            |i: int|
                Selection {
                    anchor: b.selections[i].anchor,
                    head: target(b.text, movement, b.selections[i].head as int, page@) as usize,
                },
        );
        if extend {
            assert(out@ =~= e);
        } else {
            assert(out@ =~= m);
        }
    }
    buffer.set_selections(out);
}

/// Everything up to `pos` selected, from where the selection began.
pub open spec fn selected_to(b: BufferV, pos: int) -> BufferV {
    b.with_selections(
        seq![
            Selection {
                anchor: b.primary().anchor,
                head: (if pos < b.len() { pos } else { b.len() }) as usize,
            },
        ],
    )
}

pub fn select_to(buffer: &mut TextBuffer, pos: usize)
    requires
        old(buffer)@.wf(),
    ensures
        final(buffer)@.wf(),
        final(buffer)@ == selected_to(old(buffer)@, pos as int),
{
    let len: usize = buffer.len();
    let head: usize = if pos < len { pos } else { len };
    let anchor: usize = buffer.selection().anchor;
    buffer.set_selection(Selection { anchor, head });
}

/// There is a plain caret at `pos`.
pub open spec fn has_caret(s: Seq<Selection>, pos: usize) -> bool {
    s.contains(caret(pos))
}

/// A caret added at `pos`, in the order of the heads; where there already is
/// one, nothing changes.
pub open spec fn caret_added(b: BufferV, pos: int) -> BufferV {
    let at = (if pos < b.len() { pos } else { b.len() }) as usize;
    if has_caret(b.selections, at) {
        b
    } else {
        b.with_selections(by_head(b.selections.push(caret(at))))
    }
}

pub fn add_caret(buffer: &mut TextBuffer, pos: usize)
    requires
        old(buffer)@.wf(),
    ensures
        final(buffer)@.wf(),
        final(buffer)@ == caret_added(old(buffer)@, pos as int),
{
    let len: usize = buffer.len();
    let at: usize = if pos < len { pos } else { len };
    let mut all: Vec<Selection> = copy_selections(buffer);
    let mut i: usize = 0;
    while i < all.len()
        invariant
            i <= all.len(),
            all@ == buffer@.selections,
            buffer@ == old(buffer)@,
            buffer@.wf(),
            at == (if pos < buffer@.len() { pos as int } else { buffer@.len() }),
            forall|k: int| 0 <= k < i ==> (#[trigger] all@[k]) != caret(at),
        decreases all.len() - i,
    {
        if all[i].head == at && all[i].anchor == at {
            assert(all@[i as int] == caret(at));
            return;
        }
        i += 1;
    }
    assert(!has_caret(buffer@.selections, at));
    all.push(Selection::collapsed(at));
    let sorted: Vec<Selection> = sort_by_head(&all);
    buffer.set_selections(sorted);
}

/// A selection between two columns on each of the lines from `first` to
/// `last`, both included.
pub open spec fn column_spec(b: Seq<u8>, first: int, last: int, from_col: nat, to_col: nat) -> Seq<
    Selection,
> {
    Seq::new(
        (if first <= last { last - first + 1 } else { 0 }) as nat,
        |i: int|
            Selection {
                anchor: clamped_pos(b, first + i, from_col) as usize,
                head: clamped_pos(b, first + i, to_col) as usize,
            },
    )
}

/// A rectangle selected: the lines between two places that exist, on each the
/// text between the two columns.
pub open spec fn column_selected(
    b: BufferV,
    from_line: int,
    from_col: nat,
    to_line: int,
    to_col: nat,
) -> BufferV {
    let first = if from_line < to_line { from_line } else { to_line };
    let last = if from_line < to_line { to_line } else { from_line };
    let end = if last < line_total(b.text) { last } else { line_total(b.text) - 1 };
    let s = column_spec(b.text, first, end, from_col, to_col);
    if s.len() == 0 {
        b
    } else {
        b.with_selections(s)
    }
}

pub fn select_columns(
    buffer: &mut TextBuffer,
    from_line: usize,
    from_col: usize,
    to_line: usize,
    to_col: usize,
)
    requires
        old(buffer)@.wf(),
    ensures
        final(buffer)@.wf(),
        final(buffer)@ == column_selected(
            old(buffer)@,
            from_line as int,
            from_col as nat,
            to_line as int,
            to_col as nat,
        ),
{
    let ghost b = buffer@.text;
    let first: usize = if from_line < to_line { from_line } else { to_line };
    let last: usize = if from_line < to_line { to_line } else { from_line };
    let count: usize = buffer.line_count();
    let end: usize = if last < count { last } else { count - 1 };
    let mut out: Vec<Selection> = Vec::new();
    let mut line: usize = first;
    assert(out@ =~= column_spec(b, first as int, line - 1, from_col as nat, to_col as nat));
    while line <= end
        invariant
            first <= line,
            end < count,
            line <= end + 1 || line == first,
            count == line_total(b),
            b == buffer@.text,
            buffer@ == old(buffer)@,
            buffer@.wf(),
            out@ == column_spec(b, first as int, line - 1, from_col as nat, to_col as nat),
        decreases end + 1 - line,
    {
        let anchor: usize = clamped_line_charcol_to_pos(buffer, line, from_col);
        let head: usize = clamped_line_charcol_to_pos(buffer, line, to_col);
        out.push(Selection { anchor, head });
        assert(out@ =~= column_spec(b, first as int, line as int, from_col as nat, to_col as nat));
        line += 1;
    }
    assert(out@ =~= column_spec(b, first as int, end as int, from_col as nat, to_col as nat));
    buffer.set_selections(out);
}

/// Everything selected.
pub open spec fn all_selected(b: BufferV) -> BufferV {
    b.with_selections(seq![Selection { anchor: 0, head: b.len() as usize }])
}

pub fn select_all(buffer: &mut TextBuffer)
    requires
        old(buffer)@.wf(),
    ensures
        final(buffer)@.wf(),
        final(buffer)@ == all_selected(old(buffer)@),
{
    let len: usize = buffer.len();
    buffer.set_selection(Selection { anchor: 0, head: len });
}

/// Only the primary caret left, nothing selected.
pub open spec fn collapsed_carets(b: BufferV) -> BufferV {
    b.with_selections(seq![caret(b.primary().head)])
}

pub fn collapse_carets(buffer: &mut TextBuffer)
    requires
        old(buffer)@.wf(),
    ensures
        final(buffer)@.wf(),
        final(buffer)@ == collapsed_carets(old(buffer)@),
{
    let primary: Selection = buffer.selection();
    if buffer.selections().len() > 1 || !primary.is_collapsed() {
        buffer.set_selection(Selection::collapsed(primary.head));
    } else {
        assert(collapsed_carets(buffer@).selections =~= buffer@.selections);
        assert(collapsed_carets(buffer@) =~= buffer@);
    }
}

/// What further occurrences are looked for: the word at the caret or, where
/// something is selected, that text.
pub open spec fn wanted(b: BufferV) -> Option<Seq<u8>> {
    let s = b.primary();
    if s.anchor == s.head {
        match caret_word(b) {
            Some(w) => Some(encode_utf8(w)),
            None => None,
        }
    } else if valid_utf8(b.text.subrange(s.start(), s.end())) {
        Some(b.text.subrange(s.start(), s.end()))
    } else {
        None
    }
}

/// The text that further occurrences are looked for.
pub fn wanted_text(buffer: &TextBuffer) -> (r: Option<String>)
    requires
        buffer@.wf(),
    ensures
        r is Some <==> wanted(buffer@) is Some,
        r matches Some(w) ==> wanted(buffer@) == Some(encode_utf8(w@)) && w@.len() > 0,
{
    let s: Selection = buffer.selection();
    if s.is_collapsed() {
        word_at_cursor(buffer)
    } else {
        let range = s.range();
        let r = buffer.slice(range.start, range.end);
        proof {
            if r is Some && r->0@.len() == 0 {
                assert(r->0@ =~= seq![]);
                assert(encode_utf8(r->0@) =~= seq![]);
            }
        }
        r
    }
}

/// Every occurrence of what is wanted selected; at a caret, of whole words.
pub open spec fn all_wanted(b: BufferV) -> Seq<Selection> {
    match wanted(b) {
        Some(needle) => occurrences(b.text, needle, b.primary().anchor == b.primary().head, 0),
        None => seq![],
    }
}

/// All places where what is wanted stands.
pub fn wanted_places(buffer: &TextBuffer, needle: &str) -> (r: Vec<Selection>)
    requires
        buffer@.wf(),
        needle@.len() > 0,
        wanted(buffer@) == Some(encode_utf8(needle@)),
    ensures
        r@ == all_wanted(buffer@),
{
    let whole: bool = buffer.selection().is_collapsed();
    all_occurrence_selections(buffer, needle, whole)
}

} // verus!

//! Lists of edits that arrive together, such as those of a rename or of a
//! formatter. They all speak of the text before any of them is made, so they
//! are made from the right.

use vstd::prelude::*;
use vstd::utf8::*;

use crate::buffer::{replace_result, BufferV, TextBuffer};
use crate::columns::{byte_col_of, byte_len, char_col_to_byte_col};
use crate::lines::{lemma_line_start, line_bytes, line_start, line_total};
use crate::order::{in_order, sorted_indices, stable_order};

verus! {

/// A place in a document as a language server gives it: line and character,
/// both counted from 0.
#[derive(Debug, Clone, Copy, PartialEq, Eq, Structural)]
pub struct Position {
    pub line: u32,
    pub character: u32,
}

/// A stretch of a document between two places.
#[derive(Debug, Clone, Copy, PartialEq, Eq, Structural)]
pub struct LspRange {
    pub start: Position,
    pub end: Position,
}

/// An edit as a language server gives it.
#[derive(Debug)]
pub struct LspEdit {
    pub range: LspRange,
    pub new_text: String,
}

/// An edit of a byte range.
#[derive(Debug)]
pub struct ByteEdit {
    pub start: usize,
    pub end: usize,
    pub text: String,
}

/// What an edit does.
#[verifier::ext_equal]
pub struct ByteEditV {
    pub start: int,
    pub end: int,
    pub with: Seq<u8>,
}

impl View for ByteEdit {
    type V = ByteEditV;

    open spec fn view(&self) -> ByteEditV {
        ByteEditV {
            start: self.start as int,
            end: self.end as int,
            with: encode_utf8(self.text@),
        }
    }
}

pub open spec fn byte_edits_view(s: Seq<ByteEdit>) -> Seq<ByteEditV> {
    Seq::new(s.len(), |i: int| s[i]@)
}

/// Where the edits start.
pub open spec fn edit_starts(s: Seq<ByteEditV>) -> Seq<usize> {
    Seq::new(s.len(), |i: int| s[i].start as usize)
}

/// The edits with the rightmost first.
pub open spec fn from_the_right(s: Seq<ByteEditV>) -> Seq<ByteEditV> {
    in_order(s, stable_order(edit_starts(s), s.len() as int, true))
}

/// The buffer after the first `n` edits of `s`, made one after another. One
/// that does not fit the text is left out.
pub open spec fn edits_made(b: BufferV, s: Seq<ByteEditV>, n: int) -> BufferV
    decreases n,
{
    if n <= 0 {
        b
    } else {
        let before = edits_made(b, s, n - 1);
        let e = s[n - 1];
        if replace_result(before, e.start, e.end, e.with) is Ok {
            before.replaced(e.start, e.end, e.with)
        } else {
            before
        }
    }
}

/// How many of the first `n` edits fitted.
pub open spec fn edits_counted(b: BufferV, s: Seq<ByteEditV>, n: int) -> nat
    decreases n,
{
    if n <= 0 {
        0
    } else {
        let e = s[n - 1];
        edits_counted(b, s, n - 1) + (if replace_result(
            edits_made(b, s, n - 1),
            e.start,
            e.end,
            e.with,
        ) is Ok {
            1nat
        } else {
            0nat
        })
    }
}

/// Make all edits, from the right. Returns how many fitted the text.
pub fn apply_edits(buffer: &mut TextBuffer, edits: &Vec<ByteEdit>) -> (r: usize)
    requires
        old(buffer)@.wf(),
    ensures
        final(buffer)@.wf(),
        final(buffer)@ == edits_made(
            old(buffer)@,
            from_the_right(byte_edits_view(edits@)),
            edits@.len() as int,
        ),
        r == edits_counted(
            old(buffer)@,
            from_the_right(byte_edits_view(edits@)),
            edits@.len() as int,
        ),
        r <= edits@.len(),
{
    let ghost b = buffer@;
    let ghost views = byte_edits_view(edits@);
    let mut keys: Vec<usize> = Vec::new();
    let mut i: usize = 0;
    while i < edits.len()
        invariant
            i <= edits.len(),
            keys@ == edit_starts(byte_edits_view(edits@.take(i as int))),
        decreases edits.len() - i,
    {
        keys.push(edits[i].start);
        i += 1;
        assert(keys@ =~= edit_starts(byte_edits_view(edits@.take(i as int))));
    }
    assert(edits@.take(i as int) =~= edits@);
    let order: Vec<usize> = sorted_indices(&keys, true);
    let ghost sorted = from_the_right(views);
    assert(sorted =~= in_order(views, order@));
    let mut count: usize = 0;
    let mut n: usize = 0;
    while n < order.len()
        invariant
            n <= order.len() == edits.len(),
            count <= n,
            forall|k: int| 0 <= k < order.len() ==> (#[trigger] order@[k]) < edits.len(),
            views == byte_edits_view(edits@),
            sorted == in_order(views, order@),
            buffer@.wf(),
            buffer@ == edits_made(b, sorted, n as int),
            count == edits_counted(b, sorted, n as int),
        decreases order.len() - n,
    {
        let e: &ByteEdit = &edits[order[n]];
        assert(sorted[n as int] == e@);
        if buffer.replace(e.start, e.end, e.text.as_str()).is_ok() {
            count += 1;
        }
        n += 1;
    }
    count
}

/// The edits lie inside a text of `len` bytes, from left to right, none over
/// another.
pub open spec fn disjoint_from_left(s: Seq<ByteEditV>, len: int) -> bool {
    &&& forall|i: int|
        0 <= i < s.len() ==> 0 <= (#[trigger] s[i]).start <= s[i].end <= len
    &&& forall|i: int, j: int| 0 <= i < j < s.len() ==> (#[trigger] s[i]).end <= (#[trigger] s[j]).start
}

/// `text` with every range replaced at once. The edits go from left to right.
pub open spec fn rewritten(text: Seq<u8>, s: Seq<ByteEditV>) -> Seq<u8>
    decreases s.len(),
{
    if s.len() == 0 {
        text
    } else {
        rewritten(text.take(s.last().start), s.drop_last()) + s.last().with + text.skip(
            s.last().end,
        )
    }
}

/// The bytes that a list of edits adds at most.
pub open spec fn growth(s: Seq<ByteEditV>) -> nat
    decreases s.len(),
{
    if s.len() == 0 { 0 } else { growth(s.drop_last()) + s.last().with.len() }
}

/// Law: edits that do not overlap, made from the right, all fit, and give the
/// text with every range replaced at once: no edit moves another's place.
pub proof fn law_edits_from_the_right(b: BufferV, s: Seq<ByteEditV>)
    requires
        b.wf(),
        disjoint_from_left(s, b.len()),
        b.len() + growth(s) <= isize::MAX,
    ensures
        edits_made(b, s.reverse(), s.len() as int).text == rewritten(b.text, s),
        edits_counted(b, s.reverse(), s.len() as int) == s.len(),
    decreases s.len(),
{
    if s.len() > 0 {
        let e = s.last();
        let rest = s.drop_last();
        let b1 = b.replaced(e.start, e.end, e.with);
        crate::buffer::lemma_replaced_wf(b, e.start, e.end, e.with);
        assert forall|i: int| 0 <= i < rest.len() implies 0 <= (#[trigger] rest[i]).start
            <= rest[i].end <= e.start by {
            assert(rest[i] == s[i]);
            assert(s[s.len() - 1] == e);
        }
        assert(disjoint_from_left(rest, b1.len()));
        law_edits_from_the_right(b1, rest);
        lemma_rewritten_prefix(b1.text, rest, e.start);
        assert(b1.text.take(e.start) =~= b.text.take(e.start));
        assert(b1.text.skip(e.start) =~= e.with + b.text.skip(e.end));
        lemma_edits_shift(b, s, s.len() as int);
        assert(rewritten(b.text, s) =~= rewritten(b1.text, rest));
    }
}

/// Making the last edit first and then the others is making all of them from
/// the right.
proof fn lemma_edits_shift(b: BufferV, s: Seq<ByteEditV>, n: int)
    requires
        s.len() > 0,
        1 <= n <= s.len(),
        replace_result(b, s.last().start, s.last().end, s.last().with) is Ok,
    ensures
        edits_made(b, s.reverse(), n) == edits_made(
            b.replaced(s.last().start, s.last().end, s.last().with),
            s.drop_last().reverse(),
            n - 1,
        ),
        edits_counted(b, s.reverse(), n) == 1 + edits_counted(
            b.replaced(s.last().start, s.last().end, s.last().with),
            s.drop_last().reverse(),
            n - 1,
        ),
    decreases n,
{
    assert(s.reverse()[0] == s.last());
    reveal_with_fuel(edits_made, 2);
    reveal_with_fuel(edits_counted, 2);
    if n > 1 {
        lemma_edits_shift(b, s, n - 1);
        assert(s.reverse()[n - 1] == s.drop_last().reverse()[n - 2]);
    }
}

/// Edits that stay before `at` leave the rest of the text alone.
proof fn lemma_rewritten_prefix(text: Seq<u8>, s: Seq<ByteEditV>, at: int)
    requires
        0 <= at <= text.len(),
        disjoint_from_left(s, at),
    ensures
        rewritten(text, s) == rewritten(text.take(at), s) + text.skip(at),
    decreases s.len(),
{
    if s.len() == 0 {
        assert(text =~= text.take(at) + text.skip(at));
    } else {
        let e = s.last();
        assert(s[s.len() - 1] == e);
        assert(text.take(at).take(e.start) =~= text.take(e.start));
        assert(text.skip(e.end) =~= text.take(at).skip(e.end) + text.skip(at));
        let head = rewritten(text.take(e.start), s.drop_last()) + e.with;
        assert(head + (text.take(at).skip(e.end) + text.skip(at)) =~= (head + text.take(at).skip(
            e.end,
        )) + text.skip(at));
    }
}

/// The byte range that a language server's range means, where its lines exist
/// and are text.
pub open spec fn byte_range_of(b: Seq<u8>, range: LspRange) -> Option<(int, int)> {
    let first = range.start.line as nat;
    let last = range.end.line as nat;
    if first < line_total(b) && last < line_total(b) && valid_utf8(line_bytes(b, first))
        && valid_utf8(line_bytes(b, last)) {
        Some(
            (
                line_start(b, first) + byte_col_of(
                    decode_utf8(line_bytes(b, first)),
                    range.start.character as int,
                ),
                line_start(b, last) + byte_col_of(
                    decode_utf8(line_bytes(b, last)),
                    range.end.character as int,
                ),
            ),
        )
    } else {
        None
    }
}

/// The position of a character of a line, where the line is text.
fn byte_of_place(buffer: &TextBuffer, line: usize, character: usize) -> (r: Option<usize>)
    ensures
        r is Some <==> line < line_total(buffer@.text) && valid_utf8(
            line_bytes(buffer@.text, line as nat),
        ),
        r matches Some(p) ==> p == line_start(buffer@.text, line as nat) + byte_col_of(
            decode_utf8(line_bytes(buffer@.text, line as nat)),
            character as int,
        ),
{
    let len: usize = buffer.len();
    match (buffer.line_text(line), buffer.line_byte_range(line)) {
        (Some(text), Some(range)) => {
            proof {
                encode_utf8_decode_utf8(text@);
                lemma_line_start(buffer@.text, line as nat);
                assert(byte_len(text@) <= len);
            }
            Some(range.start + char_col_to_byte_col(text.as_str(), character))
        },
        _ => None,
    }
}

/// Convert a language server's range into bytes.
pub fn lsp_range_to_byte_range(buffer: &TextBuffer, range: LspRange) -> (r: Option<(usize, usize)>)
    ensures
        r matches Some(p) ==> byte_range_of(buffer@.text, range) == Some((p.0 as int, p.1 as int)),
        r is None ==> byte_range_of(buffer@.text, range) is None,
{
    let start: Option<usize> = byte_of_place(
        buffer,
        range.start.line as usize,
        range.start.character as usize,
    );
    let end: Option<usize> = byte_of_place(
        buffer,
        range.end.line as usize,
        range.end.character as usize,
    );
    match (start, end) {
        (Some(s), Some(e)) => Some((s, e)),
        _ => None,
    }
}

/// The edits that can be placed, in their order.
pub open spec fn placed_edits(b: Seq<u8>, edits: Seq<LspEdit>) -> Seq<ByteEditV>
    decreases edits.len(),
{
    if edits.len() == 0 {
        seq![]
    } else {
        let before = placed_edits(b, edits.drop_last());
        match byte_range_of(b, edits.last().range) {
            Some(p) => before.push(
                ByteEditV { start: p.0, end: p.1, with: encode_utf8(edits.last().new_text@) },
            ),
            None => before,
        }
    }
}

/// Convert a language server's edits into bytes. Those whose lines do not
/// exist are left out.
pub fn place_edits(buffer: &TextBuffer, edits: &Vec<LspEdit>) -> (r: Vec<ByteEdit>)
    ensures
        byte_edits_view(r@) == placed_edits(buffer@.text, edits@),
{
    let mut out: Vec<ByteEdit> = Vec::new();
    let mut i: usize = 0;
    assert(edits@.take(0) =~= seq![]);
    assert(byte_edits_view(out@) =~= seq![]);
    while i < edits.len()
        invariant
            i <= edits.len(),
            byte_edits_view(out@) == placed_edits(buffer@.text, edits@.take(i as int)),
        decreases edits.len() - i,
    {
        let ghost before = out@;
        assert(edits@.take(i + 1).drop_last() =~= edits@.take(i as int));
        if let Some((start, end)) = lsp_range_to_byte_range(buffer, edits[i].range) {
            out.push(ByteEdit { start, end, text: edits[i].new_text.clone() });
            assert(byte_edits_view(out@) =~= byte_edits_view(before).push(out@.last()@));
        }
        i += 1;
    }
    assert(edits@.take(i as int) =~= edits@);
    out
}

} // verus!

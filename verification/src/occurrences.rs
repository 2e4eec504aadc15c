//! Words under the caret and the places where a text occurs.

use vstd::prelude::*;
use vstd::utf8::*;

use crate::buffer::{BufferV, Selection, TextBuffer};
use crate::editing::{char_after, char_after_spec, char_before, char_before_spec, heads};
use crate::lines::{line_at, line_bytes};
use crate::motion::{char_col_at, cursor_char_linecol, skip_ahead, skip_back};
use crate::order::{in_order, sorted_indices, stable_order};
use crate::text::{chars_of, is_word_char, string_of, word_char};

verus! {

// ----- words -----

/// The first index of the word that holds `i`, and the index behind its last.
pub open spec fn word_span(chars: Seq<char>, i: int) -> (int, int) {
    (skip_back(chars, i, true), skip_ahead(chars, i, true))
}

/// The word at a column: the column is first pulled back onto the line, then
/// onto a word that ends right before it. Off any word the span is empty.
pub open spec fn word_range_spec(chars: Seq<char>, col: int) -> (int, int) {
    if chars.len() == 0 {
        (0, 0)
    } else {
        let c = if col < chars.len() { col } else { chars.len() - 1 };
        let at = if !word_char(chars[c]) && c > 0 && word_char(chars[c - 1]) { c - 1 } else { c };
        if word_char(chars[at]) { word_span(chars, at) } else { (at, at) }
    }
}

/// The bounds of the word around index `at`.
fn span_at(chars: &Vec<char>, at: usize) -> (r: (usize, usize))
    requires
        at < chars.len(),
        word_char(chars@[at as int]),
    ensures
        (r.0 as int, r.1 as int) == word_span(chars@, at as int),
        r.0 <= at < r.1 <= chars.len(),
{
    let mut start: usize = at;
    while start > 0 && is_word_char(chars[start - 1])
        invariant
            start <= at < chars.len(),
            skip_back(chars@, start as int, true) == skip_back(chars@, at as int, true),
        decreases start,
    {
        start -= 1;
    }
    let mut end: usize = at + 1;
    while end < chars.len() && is_word_char(chars[end])
        invariant
            at < end <= chars.len(),
            word_char(chars@[at as int]),
            skip_ahead(chars@, end as int, true) == skip_ahead(chars@, at as int, true),
        decreases chars.len() - end,
    {
        end += 1;
    }
    (start, end)
}

/// The bounds of the identifier at a character column of a line. Right behind
/// an identifier that one is meant.
pub fn word_range_at_char_col(line_text: &str, char_col: usize) -> (r: (usize, usize))
    ensures
        (r.0 as int, r.1 as int) == word_range_spec(line_text@, char_col as int),
        r.0 <= r.1 <= line_text@.len(),
{
    let chars: Vec<char> = chars_of(line_text);
    if chars.len() == 0 {
        return (0, 0);
    }
    let mut col: usize = if char_col < chars.len() { char_col } else { chars.len() - 1 };
    if !is_word_char(chars[col]) && col > 0 && is_word_char(chars[col - 1]) {
        col -= 1;
    }
    if !is_word_char(chars[col]) {
        return (col, col);
    }
    span_at(&chars, col)
}

/// The word under character column `col`, or ending right before it.
pub open spec fn word_at_spec(chars: Seq<char>, col: int) -> Option<Seq<char>> {
    let at = if 0 < col <= chars.len() && word_char(chars[col - 1]) { col - 1 } else { col };
    if 0 <= at < chars.len() && word_char(chars[at]) {
        Some(chars.subrange(word_span(chars, at).0, word_span(chars, at).1))
    } else {
        None
    }
}

/// The word under the caret of `b`, or ending right before it.
pub open spec fn caret_word(b: BufferV) -> Option<Seq<char>> {
    let line = line_bytes(b.text, line_at(b.text, b.cursor() as int));
    if valid_utf8(line) {
        word_at_spec(decode_utf8(line), char_col_at(b.text, b.cursor() as int) as int)
    } else {
        None
    }
}

/// The identifier under the caret, or right before it.
pub fn word_at_cursor(buffer: &TextBuffer) -> (r: Option<String>)
    requires
        buffer@.wf(),
    ensures
        r is Some <==> caret_word(buffer@) is Some,
        r matches Some(w) ==> caret_word(buffer@) == Some(w@),
        r matches Some(w) ==> w@.len() > 0,
{
    let pos: usize = buffer.cursor();
    let (line, char_col) = cursor_char_linecol(buffer, pos);
    match buffer.line_text(line) {
        None => None,
        Some(text) => {
            let chars: Vec<char> = chars_of(text.as_str());
            proof {
                encode_utf8_decode_utf8(text@);
            }
            let mut at: usize = char_col;
            if at > 0 && at <= chars.len() && is_word_char(chars[at - 1]) {
                at -= 1;
            }
            if at >= chars.len() || !is_word_char(chars[at]) {
                return None;
            }
            let (start, end) = span_at(&chars, at);
            Some(string_of(&chars, start, end))
        },
    }
}

// ----- occurrences -----

/// `needle` stands in `b` at `p`.
pub open spec fn occurs_at(b: Seq<u8>, needle: Seq<u8>, p: int) -> bool {
    0 <= p && p + needle.len() <= b.len() && b.subrange(p, p + needle.len()) == needle
}

/// The first place at or after `from` where `needle` stands.
pub open spec fn find_from(b: Seq<u8>, needle: Seq<u8>, from: int) -> Option<int>
    decreases b.len() + 1 - from,
{
    if from + needle.len() > b.len() || from < 0 {
        None
    } else if occurs_at(b, needle, from) {
        Some(from)
    } else {
        find_from(b, needle, from + 1)
    }
}

/// Law: a place that is found holds the needle, and none before it does.
pub proof fn law_find_is_first(b: Seq<u8>, needle: Seq<u8>, from: int)
    requires
        0 <= from,
    ensures
        find_from(b, needle, from) matches Some(p) ==> p >= from && occurs_at(b, needle, p) && (
        forall|q: int| from <= q < p ==> !#[trigger] occurs_at(b, needle, q)),
        find_from(b, needle, from) is None ==> (forall|q: int|
            from <= q ==> !#[trigger] occurs_at(b, needle, q)),
    decreases b.len() + 1 - from,
{
    if from + needle.len() <= b.len() && !occurs_at(b, needle, from) {
        law_find_is_first(b, needle, from + 1);
    }
}

/// Whether `needle` stands at `p`.
fn stands_at(buffer: &TextBuffer, needle: &[u8], p: usize) -> (r: bool)
    requires
        p + needle@.len() <= buffer@.len(),
    ensures
        r == occurs_at(buffer@.text, needle@, p as int),
{
    let ghost part = buffer@.text.subrange(p as int, p + needle@.len());
    let len: usize = buffer.len();
    let mut i: usize = 0;
    while i < needle.len()
        invariant
            i <= needle.len(),
            p + needle@.len() <= buffer@.len() == len,
            part == buffer@.text.subrange(p as int, p + needle@.len()),
            forall|k: int| 0 <= k < i ==> part[k] == needle@[k],
        decreases needle.len() - i,
    {
        assert(part[i as int] == buffer@.text[p + i]);
        if buffer.byte(p + i) != needle[i] {
            return false;
        }
        i += 1;
    }
    assert(part =~= needle@);
    true
}

/// The first place at or after `from` where `needle` stands.
pub fn find(buffer: &TextBuffer, needle: &[u8], from: usize) -> (r: Option<usize>)
    ensures
        r matches Some(p) ==> find_from(buffer@.text, needle@, from as int) == Some(p as int) && p
            >= from && p + needle@.len() <= buffer@.len(),
        r is None ==> find_from(buffer@.text, needle@, from as int) is None,
{
    let len: usize = buffer.len();
    let n: usize = needle.len();
    let mut p: usize = from;
    while p <= len && n <= len - p
        invariant
            from <= p,
            len == buffer@.len(),
            n == needle@.len(),
            find_from(buffer@.text, needle@, p as int) == find_from(
                buffer@.text,
                needle@,
                from as int,
            ),
        decreases len + 1 - p,
    {
        if stands_at(buffer, needle, p) {
            return Some(p);
        }
        if p == len {
            assert(find_from(buffer@.text, needle@, p + 1) is None);
            return None;
        }
        p += 1;
    }
    None
}

/// A place for one more selection: it overlaps none of `taken`, and where the
/// last of them is a plain caret, it is not the occurrence that begins there.
pub open spec fn is_free(taken: Seq<Selection>, start: int, end: int) -> bool {
    &&& !(taken.len() > 0 && taken.last().anchor == taken.last().head == start)
    &&& forall|i: int|
        0 <= i < taken.len() ==> !(start < (#[trigger] taken[i]).end() && end > taken[i].start())
}

/// The first free occurrence at or after `from`; each one tried is stepped
/// over.
pub open spec fn free_occurrence(
    b: Seq<u8>,
    needle: Seq<u8>,
    taken: Seq<Selection>,
    from: int,
) -> Option<int>
    decreases b.len() - from,
{
    match find_from(b, needle, from) {
        None => None,
        Some(p) => if is_free(taken, p, p + needle.len()) {
            Some(p)
        } else if needle.len() == 0 || p < from || p + needle.len() >= b.len() {
            None
        } else {
            free_occurrence(b, needle, taken, p + needle.len())
        },
    }
}

/// The occurrence that is selected next: the first free one behind the head of
/// the last selection or, where there is none, from the start of the text.
pub open spec fn next_occurrence(b: BufferV, needle: Seq<u8>) -> Option<int> {
    match free_occurrence(b.text, needle, b.selections, b.selections.last().head as int) {
        Some(p) => Some(p),
        None => free_occurrence(b.text, needle, b.selections, 0),
    }
}

proof fn lemma_free_occurrence(b: Seq<u8>, needle: Seq<u8>, taken: Seq<Selection>, from: int)
    requires
        0 <= from,
    ensures
        free_occurrence(b, needle, taken, from) matches Some(p) ==> from <= p && occurs_at(
            b,
            needle,
            p,
        ) && is_free(taken, p, p + needle.len()),
    decreases b.len() - from,
{
    law_find_is_first(b, needle, from);
    match find_from(b, needle, from) {
        Some(p) => if !is_free(taken, p, p + needle.len()) && needle.len() > 0 && p + needle.len()
            < b.len() {
            lemma_free_occurrence(b, needle, taken, p + needle.len());
        },
        None => {},
    }
}

/// Law: what is selected next is an occurrence that overlaps no selection, and
/// the first one behind the head of the last selection is it, where it is free.
pub proof fn law_next_occurrence_follows(b: BufferV, needle: Seq<u8>)
    requires
        b.wf(),
    ensures
        next_occurrence(b, needle) matches Some(p) ==> occurs_at(b.text, needle, p) && is_free(
            b.selections,
            p,
            p + needle.len(),
        ),
        find_from(b.text, needle, b.selections.last().head as int) matches Some(q) && is_free(
            b.selections,
            q,
            q + needle.len(),
        ) ==> next_occurrence(b, needle) == find_from(
            b.text,
            needle,
            b.selections.last().head as int,
        ),
{
    lemma_free_occurrence(b.text, needle, b.selections, b.selections.last().head as int);
    lemma_free_occurrence(b.text, needle, b.selections, 0);
}

/// Selections in the order of their heads.
pub open spec fn by_head(s: Seq<Selection>) -> Seq<Selection> {
    in_order(s, stable_order(heads(s), s.len() as int, false))
}

/// `s` sorted by head, equal heads in their old order.
pub fn sort_by_head(s: &Vec<Selection>) -> (r: Vec<Selection>)
    ensures
        r@ == by_head(s@),
        r.len() == s.len(),
{
    let mut keys: Vec<usize> = Vec::new();
    let mut i: usize = 0;
    while i < s.len()
        invariant
            i <= s.len(),
            keys@ == heads(s@.take(i as int)),
        decreases s.len() - i,
    {
        keys.push(s[i].head);
        i += 1;
        assert(keys@ =~= heads(s@.take(i as int)));
    }
    assert(s@.take(i as int) =~= s@);
    let order: Vec<usize> = sorted_indices(&keys, false);
    let mut out: Vec<Selection> = Vec::new();
    let mut k: usize = 0;
    while k < order.len()
        invariant
            k <= order.len() == s.len(),
            forall|j: int| 0 <= j < order.len() ==> (#[trigger] order@[j]) < s.len(),
            out@ == in_order(s@, order@.take(k as int)),
        decreases order.len() - k,
    {
        out.push(s[order[k]]);
        k += 1;
        assert(out@ =~= in_order(s@, order@.take(k as int)));
    }
    assert(order@.take(k as int) =~= order@);
    out
}

/// A copy of all selections.
pub fn copy_selections(buffer: &TextBuffer) -> (r: Vec<Selection>)
    ensures
        r@ == buffer@.selections,
{
    let mut out: Vec<Selection> = Vec::new();
    let mut i: usize = 0;
    let n: usize = buffer.selections().len();
    while i < n
        invariant
            i <= n == buffer@.selections.len(),
            out@ == buffer@.selections.take(i as int),
        decreases n - i,
    {
        out.push(buffer.selections()[i]);
        i += 1;
    }
    assert(buffer@.selections.take(n as int) =~= buffer@.selections);
    out
}

/// Whether a place is free for one more selection.
fn free(buffer: &TextBuffer, start: usize, end: usize) -> (r: bool)
    ensures
        r == is_free(buffer@.selections, start as int, end as int),
{
    let mut i: usize = 0;
    let n: usize = buffer.selections().len();
    if n > 0 {
        let last: Selection = buffer.selections()[n - 1];
        if last.anchor == last.head && last.head == start {
            return false;
        }
    }
    while i < n
        invariant
            i <= n == buffer@.selections.len(),
            forall|k: int|
                0 <= k < i ==> !(start < (#[trigger] buffer@.selections[k]).end() && end
                    > buffer@.selections[k].start()),
        decreases n - i,
    {
        let taken = buffer.selections()[i].range();
        if start < taken.end && end > taken.start {
            return false;
        }
        i += 1;
    }
    true
}

/// `b` with the next occurrence of `needle` selected as well, if there is one.
pub open spec fn next_selected(b: BufferV, needle: Seq<u8>) -> BufferV {
    match next_occurrence(b, needle) {
        Some(p) => b.with_selections(
            by_head(
                b.selections.push(
                    Selection { anchor: p as usize, head: (p + needle.len()) as usize },
                ),
            ),
        ),
        None => b,
    }
}

/// Select the next occurrence of `needle` too. Says whether there was one.
pub fn select_next(buffer: &mut TextBuffer, needle: &str) -> (r: bool)
    requires
        old(buffer)@.wf(),
        needle@.len() > 0,
    ensures
        final(buffer)@.wf(),
        r == (next_occurrence(old(buffer)@, encode_utf8(needle@)) is Some),
        final(buffer)@ == next_selected(old(buffer)@, encode_utf8(needle@)),
{
    let ghost b = buffer@;
    let bytes: &[u8] = needle.as_bytes();
    let n: usize = bytes.len();
    proof {
        crate::columns::lemma_byte_len_grows(needle@, 0, needle@.len() as int);
        assert(needle@.take(needle@.len() as int) =~= needle@);
    }
    let total: usize = buffer.len();
    if n > total {
        proof {
            assert(find_from(b.text, bytes@, 0) is None);
            assert(find_from(b.text, bytes@, b.selections.last().head as int) is None);
        }
        return false;
    }
    let count: usize = buffer.selections().len();
    let last_head: usize = buffer.selections()[count - 1].head;
    assert(last_head == b.selections.last().head);
    let next: Option<usize> = match first_free(buffer, bytes, last_head) {
        Some(p) => Some(p),
        None => first_free(buffer, bytes, 0),
    };
    match next {
        Some(p) => {
            let mut all: Vec<Selection> = copy_selections(buffer);
            all.push(Selection { anchor: p, head: p + n });
            let sorted: Vec<Selection> = sort_by_head(&all);
            buffer.set_selections(sorted);
            true
        },
        None => false,
    }
}

/// The first free occurrence at or after `from`.
fn first_free(buffer: &TextBuffer, needle: &[u8], from: usize) -> (r: Option<usize>)
    requires
        needle@.len() > 0,
    ensures
        r matches Some(p) ==> p + needle@.len() <= buffer@.len() && free_occurrence(
            buffer@.text,
            needle@,
            buffer@.selections,
            from as int,
        ) == Some(p as int),
        r is None ==> free_occurrence(
            buffer@.text,
            needle@,
            buffer@.selections,
            from as int,
        ) is None,
{
    let n: usize = needle.len();
    let total: usize = buffer.len();
    let ghost wanted = free_occurrence(buffer@.text, needle@, buffer@.selections, from as int);
    let mut at: usize = from;
    loop
        invariant
            n == needle@.len() > 0,
            total == buffer@.len(),
            wanted == free_occurrence(
                buffer@.text,
                needle@,
                buffer@.selections,
                at as int,
            ),
            wanted == free_occurrence(
                buffer@.text,
                needle@,
                buffer@.selections,
                from as int,
            ),
        decreases usize::MAX - at,
    {
        match find(buffer, needle, at) {
            None => {
                return None;
            },
            Some(p) => {
                let end: usize = p + n;
                if free(buffer, p, end) {
                    return Some(p);
                }
                if end >= total {
                    return None;
                }
                at = end;
            },
        }
    }
}

/// No word character touches the stretch from `start` to `end`.
pub open spec fn is_whole_word(b: Seq<u8>, start: int, end: int) -> bool {
    &&& !(char_before_spec(b, start) matches Some(c) && word_char(c))
    &&& !(char_after_spec(b, end) matches Some(c) && word_char(c))
}

/// Every occurrence of `needle` from `from` on, from left to right and without
/// overlap; of whole words only, where asked.
pub open spec fn occurrences(b: Seq<u8>, needle: Seq<u8>, whole: bool, from: int) -> Seq<Selection>
    decreases b.len() - from,
{
    match find_from(b, needle, from) {
        None => seq![],
        Some(p) => if needle.len() == 0 || p < from || p + needle.len() > b.len() {
            seq![]
        } else {
            let end = p + needle.len();
            let rest = occurrences(b, needle, whole, end);
            if !whole || is_whole_word(b, p, end) {
                seq![Selection { anchor: p as usize, head: end as usize }] + rest
            } else {
                rest
            }
        },
    }
}

/// Every occurrence of `needle` as a selection.
pub fn all_occurrence_selections(buffer: &TextBuffer, needle: &str, whole: bool) -> (r: Vec<
    Selection,
>)
    requires
        needle@.len() > 0,
    ensures
        r@ == occurrences(buffer@.text, encode_utf8(needle@), whole, 0),
{
    let bytes: &[u8] = needle.as_bytes();
    let n: usize = bytes.len();
    proof {
        crate::columns::lemma_byte_len_grows(needle@, 0, needle@.len() as int);
        assert(needle@.take(needle@.len() as int) =~= needle@);
    }
    let ghost b = buffer@.text;
    let ghost all = occurrences(b, bytes@, whole, 0);
    let total: usize = buffer.len();
    let mut out: Vec<Selection> = Vec::new();
    let mut from: usize = 0;
    loop
        invariant
            b == buffer@.text,
            b.len() == total,
            n == bytes@.len() > 0,
            from <= buffer@.len(),
            all == out@ + occurrences(b, bytes@, whole, from as int),
        ensures
            all == out@,
        decreases buffer@.len() - from,
    {
        match find(buffer, bytes, from) {
            None => {
                assert(out@ + seq![] =~= out@);
                break ;
            },
            Some(p) => {
                let end: usize = p + n;
                let ghost rest = occurrences(b, bytes@, whole, end as int);
                if !whole || whole_word(buffer, p, end) {
                    let s = Selection { anchor: p, head: end };
                    assert(out@ + (seq![s] + rest) =~= out@.push(s) + rest);
                    out.push(s);
                }
                from = end;
            },
        }
    }
    out
}

fn whole_word(buffer: &TextBuffer, start: usize, end: usize) -> (r: bool)
    requires
        start <= buffer@.len(),
    ensures
        r == is_whole_word(buffer@.text, start as int, end as int),
{
    if let Some(c) = char_before(buffer, start) {
        if is_word_char(c) {
            return false;
        }
    }
    if let Some(c) = char_after(buffer, end) {
        if is_word_char(c) {
            return false;
        }
    }
    true
}

} // verus!

//! Where a query stands in a text, letter for letter.

use vstd::prelude::*;

use crate::buffer::TextBuffer;
use crate::text::decode_bytes;

verus! {

/// A letter in lower case, where it is one of ASCII.
pub open spec fn lowered(b: u8) -> u8 {
    if 65 <= b <= 90 { (b + 32) as u8 } else { b }
}

/// Two bytes that count as the same.
pub open spec fn same_byte(a: u8, b: u8, case_sensitive: bool) -> bool {
    if case_sensitive { a == b } else { lowered(a) == lowered(b) }
}

/// A byte that belongs to a word: an ASCII letter or digit, an underscore, or
/// part of a character beyond ASCII.
pub open spec fn word_byte(b: u8) -> bool {
    48 <= b <= 57 || 65 <= b <= 90 || 97 <= b <= 122 || b == 95 || b >= 128
}

/// The query stands at `at`; for whole words, with no word byte on either side.
#[verifier::opaque]
pub open spec fn query_at(
    text: Seq<u8>,
    query: Seq<u8>,
    at: int,
    case_sensitive: bool,
    whole_word: bool,
) -> bool {
    &&& 0 <= at
    &&& at + query.len() <= text.len()
    &&& forall|k: int|
        0 <= k < query.len() ==> same_byte(#[trigger] text[at + k], query[k], case_sensitive)
    &&& whole_word ==> (at == 0 || !word_byte(text[at - 1])) && (at + query.len() == text.len()
        || !word_byte(text[at + query.len()]))
}

/// Where the query stands, it fits.
proof fn lemma_query_fits(
    text: Seq<u8>,
    query: Seq<u8>,
    at: int,
    case_sensitive: bool,
    whole_word: bool,
)
    ensures
        query_at(text, query, at, case_sensitive, whole_word) ==> 0 <= at && at + query.len()
            <= text.len(),
{
    reveal(query_at);
}

/// The places among the first `n` at which the query stands, taken from left to
/// right. One that begins inside the place before it does not count.
pub open spec fn places(
    text: Seq<u8>,
    query: Seq<u8>,
    case_sensitive: bool,
    whole_word: bool,
    n: int,
) -> Seq<(usize, usize)>
    decreases n,
{
    if n <= 0 || query.len() == 0 {
        seq![]
    } else {
        let before = places(text, query, case_sensitive, whole_word, n - 1);
        let free = before.len() == 0 || before.last().1 <= n - 1;
        if free && query_at(text, query, n - 1, case_sensitive, whole_word) {
            before.push(((n - 1) as usize, (n - 1 + query.len()) as usize))
        } else {
            before
        }
    }
}

/// A place that begins at or before `at` ends behind it.
pub open spec fn covered(found: Seq<(usize, usize)>, at: int) -> bool {
    exists|k: int| 0 <= k < found.len() && (#[trigger] found[k]).0 <= at < found[k].1
}

/// The query stands at every place, each place lies behind the one before it,
/// and wherever the query stands among the first `n` positions, a place begins
/// or one is not over.
pub open spec fn are_matches(
    found: Seq<(usize, usize)>,
    text: Seq<u8>,
    query: Seq<u8>,
    case_sensitive: bool,
    whole_word: bool,
    n: int,
) -> bool {
    &&& forall|i: int|
        0 <= i < found.len() ==> (#[trigger] found[i]).0 < n && found[i].1 == found[i].0
            + query.len() && query_at(text, query, found[i].0 as int, case_sensitive, whole_word)
    &&& forall|i: int, j: int|
        0 <= i < j < found.len() ==> (#[trigger] found[i]).1 <= (#[trigger] found[j]).0
    &&& forall|at: int|
        0 <= at < n && #[trigger] query_at(text, query, at, case_sensitive, whole_word) ==> covered(
            found,
            at,
        )
}

proof fn lemma_passed_over(
    found: Seq<(usize, usize)>,
    text: Seq<u8>,
    query: Seq<u8>,
    case_sensitive: bool,
    whole_word: bool,
    n: int,
)
    requires
        n > 0,
        are_matches(found, text, query, case_sensitive, whole_word, n - 1),
        query_at(text, query, n - 1, case_sensitive, whole_word) ==> found.len() > 0
            && found.last().1 > n - 1,
    ensures
        are_matches(found, text, query, case_sensitive, whole_word, n),
{
    if query_at(text, query, n - 1, case_sensitive, whole_word) {
        let k = found.len() - 1;
        assert(found[k].0 <= n - 1 < found[k].1);
        assert(covered(found, n - 1));
    }
}

proof fn lemma_taken(
    found: Seq<(usize, usize)>,
    text: Seq<u8>,
    query: Seq<u8>,
    case_sensitive: bool,
    whole_word: bool,
    n: int,
)
    requires
        n > 0,
        query.len() > 0,
        n - 1 + query.len() <= usize::MAX,
        are_matches(found, text, query, case_sensitive, whole_word, n - 1),
        query_at(text, query, n - 1, case_sensitive, whole_word),
        found.len() > 0 ==> found.last().1 <= n - 1,
    ensures
        are_matches(
            found.push(((n - 1) as usize, (n - 1 + query.len()) as usize)),
            text,
            query,
            case_sensitive,
            whole_word,
            n,
        ),
{
    let more = found.push(((n - 1) as usize, (n - 1 + query.len()) as usize));
    assert forall|i: int, j: int| 0 <= i < j < more.len() implies (#[trigger] more[i]).1 <= (
    #[trigger] more[j]).0 by {
        if j < found.len() {
            assert(found[i].1 <= found[j].0);
        } else {
            assert(i == found.len() - 1 || found[i].1 <= found[found.len() - 1].0);
        }
    }
    assert forall|at: int|
        0 <= at < n && #[trigger] query_at(
            text,
            query,
            at,
            case_sensitive,
            whole_word,
        ) implies covered(more, at) by {
        if at < n - 1 {
            assert(covered(found, at));
            let k = choose|k: int|
                0 <= k < found.len() && (#[trigger] found[k]).0 <= at < found[k].1;
            assert(more[k] == found[k]);
        } else {
            assert(more[found.len() as int].0 <= at < more[found.len() as int].1);
        }
    }
}

/// Law: the places that are found are the matches of the query.
pub proof fn law_places_are_the_matches(
    text: Seq<u8>,
    query: Seq<u8>,
    case_sensitive: bool,
    whole_word: bool,
    n: int,
)
    requires
        query.len() > 0,
        0 <= n <= text.len() + 1,
        text.len() <= isize::MAX,
    ensures
        are_matches(
            places(text, query, case_sensitive, whole_word, n),
            text,
            query,
            case_sensitive,
            whole_word,
            n,
        ),
    decreases n,
{
    if n > 0 {
        let before = places(text, query, case_sensitive, whole_word, n - 1);
        law_places_are_the_matches(text, query, case_sensitive, whole_word, n - 1);
        lemma_query_fits(text, query, n - 1, case_sensitive, whole_word);
        if query_at(text, query, n - 1, case_sensitive, whole_word) && (before.len() == 0
            || before.last().1 <= n - 1) {
            lemma_taken(before, text, query, case_sensitive, whole_word, n);
        } else {
            lemma_passed_over(before, text, query, case_sensitive, whole_word, n);
        }
    }
}

fn lower(b: u8) -> (r: u8)
    ensures
        r == lowered(b),
{
    if 65 <= b && b <= 90 { b + 32 } else { b }
}

fn is_word_byte(b: u8) -> (r: bool)
    ensures
        r == word_byte(b),
{
    (48 <= b && b <= 57) || (65 <= b && b <= 90) || (97 <= b && b <= 122) || b == 95 || b >= 128
}

fn stands_at(
    buffer: &TextBuffer,
    query: &[u8],
    at: usize,
    case_sensitive: bool,
    whole_word: bool,
) -> (r: bool)
    requires
        buffer@.wf(),
        at + query.len() <= buffer@.len(),
    ensures
        r == query_at(buffer@.text, query@, at as int, case_sensitive, whole_word),
{
    let mut k: usize = 0;
    while k < query.len()
        invariant
            k <= query.len(),
            buffer@.wf(),
            at + query.len() <= buffer@.len(),
            forall|j: int|
                0 <= j < k ==> same_byte(
                    #[trigger] buffer@.text[at + j],
                    query@[j],
                    case_sensitive,
                ),
        decreases query.len() - k,
    {
        let a: u8 = buffer.byte(at + k);
        let same: bool = if case_sensitive {
            a == query[k]
        } else {
            lower(a) == lower(query[k])
        };
        if !same {
            assert(!same_byte(buffer@.text[at + k], query@[k as int], case_sensitive));
            reveal(query_at);
            return false;
        }
        k += 1;
    }
    reveal(query_at);
    if !whole_word {
        return true;
    }
    let end: usize = at + query.len();
    (at == 0 || !is_word_byte(buffer.byte(at - 1))) && (end == buffer.len() || !is_word_byte(
        buffer.byte(end),
    ))
}

/// All places at which the query stands, from left to right and none inside
/// another.
pub fn find_places(buffer: &TextBuffer, query: &[u8], case_sensitive: bool, whole_word: bool) -> (r:
    Vec<(usize, usize)>)
    requires
        buffer@.wf(),
    ensures
        r@ == places(buffer@.text, query@, case_sensitive, whole_word, buffer@.len() + 1),
{
    let mut out: Vec<(usize, usize)> = Vec::new();
    assert(out@ =~= seq![]);
    let n: usize = buffer.len();
    if query.len() == 0 {
        return out;
    }
    let mut i: usize = 0;
    let mut free: usize = 0;
    while i <= n
        invariant
            i <= n + 1,
            buffer@.wf(),
            n == buffer@.len(),
            n < usize::MAX,
            query.len() > 0,
            out@ == places(buffer@.text, query@, case_sensitive, whole_word, i as int),
            free == (if out.len() == 0 { 0 } else { out@.last().1 }),
        decreases n + 1 - i,
    {
        proof {
            lemma_query_fits(buffer@.text, query@, i as int, case_sensitive, whole_word);
        }
        if free <= i && query.len() <= n - i && stands_at(
            buffer,
            query,
            i,
            case_sensitive,
            whole_word,
        ) {
            free = i + query.len();
            out.push((i, free));
        }
        i += 1;
    }
    out
}

/// Where the text is copied up to once the first `n` matches are replaced.
/// Matches that begin before that are left out.
pub open spec fn copied_to(matches: Seq<(usize, usize)>, n: int) -> int
    decreases n,
{
    if n <= 0 {
        0
    } else {
        let before = copied_to(matches, n - 1);
        let m = matches[n - 1];
        if before <= m.0 <= m.1 { m.1 as int } else { before }
    }
}

/// The text with the first `n` matches replaced, as far as it is copied.
pub open spec fn with_replaced(
    text: Seq<u8>,
    matches: Seq<(usize, usize)>,
    with: Seq<u8>,
    n: int,
) -> Seq<u8>
    decreases n,
{
    if n <= 0 {
        seq![]
    } else {
        let before = with_replaced(text, matches, with, n - 1);
        let m = matches[n - 1];
        if copied_to(matches, n - 1) <= m.0 <= m.1 {
            before + text.subrange(copied_to(matches, n - 1), m.0 as int) + with
        } else {
            before
        }
    }
}

/// The whole text with the matches replaced from left to right.
pub open spec fn all_replaced(text: Seq<u8>, matches: Seq<(usize, usize)>, with: Seq<u8>) -> Seq<u8> {
    let n = matches.len() as int;
    with_replaced(text, matches, with, n) + text.skip(copied_to(matches, n))
}

/// All matches inside the text.
pub open spec fn inside(matches: Seq<(usize, usize)>, len: int) -> bool {
    forall|i: int| 0 <= i < matches.len() ==> (#[trigger] matches[i]).1 <= len
}

fn push_bytes(out: &mut Vec<u8>, bytes: &[u8])
    ensures
        final(out)@ == old(out)@ + bytes@,
{
    out.extend_from_slice(bytes);
}

/// Replace the matches; nothing where the text is then not valid UTF-8. A match
/// that begins inside one that was replaced stays as it is.
pub fn replace_places(buffer: &TextBuffer, matches: &Vec<(usize, usize)>, with: &str) -> (r: Option<
    String,
>)
    requires
        buffer@.wf(),
        inside(matches@, buffer@.len()),
    ensures
        r is Some <==> vstd::utf8::valid_utf8(
            all_replaced(buffer@.text, matches@, vstd::utf8::encode_utf8(with@)),
        ),
        r matches Some(s) ==> vstd::utf8::encode_utf8(s@) == all_replaced(
            buffer@.text,
            matches@,
            vstd::utf8::encode_utf8(with@),
        ),
{
    let ghost text = buffer@.text;
    let ghost bytes = vstd::utf8::encode_utf8(with@);
    let mut out: Vec<u8> = Vec::new();
    let mut at: usize = 0;
    let mut i: usize = 0;
    assert(out@ =~= seq![]);
    while i < matches.len()
        invariant
            i <= matches.len(),
            text == buffer@.text,
            bytes == vstd::utf8::encode_utf8(with@),
            inside(matches@, buffer@.len()),
            at == copied_to(matches@, i as int),
            at <= buffer@.len(),
            out@ == with_replaced(text, matches@, bytes, i as int),
        decreases matches.len() - i,
    {
        let (from, to): (usize, usize) = matches[i];
        assert(matches@[i as int].1 <= buffer@.len());
        if at <= from && from <= to {
            push_bytes(&mut out, buffer.copy_range(at, from).as_slice());
            push_bytes(&mut out, with.as_bytes());
            at = to;
        }
        i += 1;
    }
    push_bytes(&mut out, buffer.copy_range(at, buffer.len()).as_slice());
    assert(text.subrange(at as int, text.len() as int) =~= text.skip(at as int));
    decode_bytes(out)
}

} // verus!

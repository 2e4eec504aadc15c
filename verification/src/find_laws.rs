//! What finding, replacing and commenting do to a text, seen from outside.

use vstd::prelude::*;
use vstd::utf8::*;

use crate::buffer::{BufferV, Selection};
use crate::effect::{Effect, EffectV};
use crate::event::EditorEvent;
use crate::laws::takes_edits;
use crate::lines::{
    lemma_line_at, lemma_line_end_from, lemma_line_start, lemma_newlines_grow, lemma_newlines_step,
    line_at, line_end, line_start,
};
use crate::matching::{
    all_replaced, copied_to, law_places_are_the_matches, places, query_at, with_replaced,
};
use crate::routes::{lemma_find_event, lemma_replace_all, lemma_replace_one, lemma_toggle_comment};
use crate::search::{index_after, index_before, matches_in, SearchV};
use crate::state::AppV;

verus! {

// ----- replacing every match -----

/// Matches inside a text of `len` bytes, in order and apart from each other.
pub open spec fn apart(matches: Seq<(usize, usize)>, len: nat) -> bool {
    &&& forall|i: int|
        0 <= i < matches.len() ==> (#[trigger] matches[i]).0 <= matches[i].1 <= len
    &&& forall|i: int, j: int|
        0 <= i < j < matches.len() ==> (#[trigger] matches[i]).1 <= (#[trigger] matches[j]).0
}

/// How many bytes the first `n` matches cover.
pub open spec fn bytes_matched(matches: Seq<(usize, usize)>, n: int) -> int
    decreases n,
{
    if n <= 0 {
        0
    } else {
        bytes_matched(matches, n - 1) + (matches[n - 1].1 - matches[n - 1].0)
    }
}

/// Where the replacement of match `i` begins in the new text.
pub open spec fn lands_at(matches: Seq<(usize, usize)>, width: nat, i: int) -> int {
    matches[i].0 - bytes_matched(matches, i) + i * width
}

/// The replacement of match `i` stands in the new text.
pub open spec fn put_in(matches: Seq<(usize, usize)>, with: Seq<u8>, done: Seq<u8>, i: int) -> bool {
    let at = lands_at(matches, with.len(), i);
    0 <= at && at + with.len() <= done.len() && done.subrange(at, at + with.len()) == with
}

/// What stood between match `i` and the next one stands between their
/// replacements.
pub open spec fn gap_kept(
    text: Seq<u8>,
    matches: Seq<(usize, usize)>,
    with: Seq<u8>,
    done: Seq<u8>,
    i: int,
) -> bool {
    let from = lands_at(matches, with.len(), i) + with.len();
    let to = lands_at(matches, with.len(), i + 1);
    from <= to && done.subrange(from, to) == text.subrange(
        matches[i].1 as int,
        matches[i + 1].0 as int,
    )
}

/// `done` is the text with every match replaced whole and nothing else
/// changed.
pub open spec fn replaced_whole(
    text: Seq<u8>,
    matches: Seq<(usize, usize)>,
    with: Seq<u8>,
    done: Seq<u8>,
) -> bool {
    let n = matches.len();
    &&& done.len() == text.len() - bytes_matched(matches, n as int) + n * with.len()
    &&& n == 0 ==> done == text
    &&& forall|i: int| 0 <= i < n ==> #[trigger] put_in(matches, with, done, i)
    &&& forall|i: int| 0 <= i < n - 1 ==> #[trigger] gap_kept(text, matches, with, done, i)
    &&& n > 0 ==> done.take(matches[0].0 as int) == text.take(matches[0].0 as int)
    &&& n > 0 ==> done.skip(lands_at(matches, with.len(), n - 1) + with.len()) == text.skip(
        matches[n - 1].1 as int,
    )
}

/// What is known of the text as far as the first `n` matches are replaced.
spec fn replaced_so_far(
    text: Seq<u8>,
    matches: Seq<(usize, usize)>,
    with: Seq<u8>,
    n: int,
    done: Seq<u8>,
) -> bool {
    &&& done.len() == (if n == 0 { 0 } else { matches[n - 1].1 as int }) - bytes_matched(matches, n)
        + n * with.len()
    &&& forall|i: int| 0 <= i < n ==> #[trigger] put_in(matches, with, done, i)
    &&& forall|i: int| 0 <= i < n - 1 ==> #[trigger] gap_kept(text, matches, with, done, i)
    &&& n > 0 ==> done.len() >= matches[0].0 && done.take(matches[0].0 as int) == text.take(
        matches[0].0 as int,
    )
    &&& n > 0 ==> lands_at(matches, with.len(), n - 1) + with.len() == done.len()
}

/// More text at the end leaves the replacements where they are.
proof fn lemma_put_in_longer(
    text: Seq<u8>,
    matches: Seq<(usize, usize)>,
    with: Seq<u8>,
    before: Seq<u8>,
    done: Seq<u8>,
    n: int,
)
    requires
        before.is_prefix_of(done),
        forall|i: int| 0 <= i < n ==> #[trigger] put_in(matches, with, before, i),
        forall|i: int| 0 <= i < n - 1 ==> #[trigger] gap_kept(text, matches, with, before, i),
    ensures
        forall|i: int| 0 <= i < n ==> #[trigger] put_in(matches, with, done, i),
        forall|i: int| 0 <= i < n - 1 ==> #[trigger] gap_kept(text, matches, with, done, i),
{
    let w = with.len();
    assert forall|i: int| 0 <= i < n implies #[trigger] put_in(matches, with, done, i) by {
        assert(put_in(matches, with, before, i));
        let p = lands_at(matches, w, i);
        assert(done.subrange(p, p + w) =~= before.subrange(p, p + w));
    }
    assert forall|i: int| 0 <= i < n - 1 implies #[trigger] gap_kept(
        text,
        matches,
        with,
        done,
        i,
    ) by {
        assert(gap_kept(text, matches, with, before, i));
        assert(put_in(matches, with, before, i));
        assert(put_in(matches, with, before, i + 1));
        let p = lands_at(matches, w, i) + w;
        let q = lands_at(matches, w, i + 1);
        assert(done.subrange(p, q) =~= before.subrange(p, q));
    }
}

proof fn lemma_replaced_next(
    text: Seq<u8>,
    matches: Seq<(usize, usize)>,
    with: Seq<u8>,
    n: int,
    before: Seq<u8>,
    done: Seq<u8>,
)
    requires
        apart(matches, text.len()),
        0 < n <= matches.len(),
        replaced_so_far(text, matches, with, n - 1, before),
        ({
            let from = if n == 1 { 0 } else { matches[n - 2].1 as int };
            done == before + text.subrange(from, matches[n - 1].0 as int) + with
        }),
    ensures
        replaced_so_far(text, matches, with, n, done),
{
    let w = with.len();
    let m = matches[n - 1];
    let from = if n == 1 { 0 } else { matches[n - 2].1 as int };
    if n > 1 {
        assert(matches[n - 2].1 <= matches[n - 1].0);
    }
    assert(m.0 <= m.1 <= text.len());
    assert((n - 1) * w + w == n * w) by (nonlinear_arith);
    let at = lands_at(matches, w, n - 1);
    assert(at == before.len() + (m.0 - from));
    assert(done.len() == at + w);
    assert(done.subrange(at, at + w) =~= with);
    assert(put_in(matches, with, done, n - 1));
    lemma_put_in_longer(text, matches, with, before, done, n - 1);
    if n == 1 {
        assert(done.take(m.0 as int) =~= text.take(m.0 as int));
    } else {
        let p = lands_at(matches, w, n - 2) + w;
        assert(p == before.len());
        assert(done.subrange(p, at) =~= text.subrange(from, m.0 as int));
        assert(gap_kept(text, matches, with, done, n - 2));
        assert(done.take(matches[0].0 as int) =~= before.take(matches[0].0 as int));
    }
}

proof fn lemma_replaced_so_far(text: Seq<u8>, matches: Seq<(usize, usize)>, with: Seq<u8>, n: int)
    requires
        apart(matches, text.len()),
        0 <= n <= matches.len(),
    ensures
        copied_to(matches, n) == (if n == 0 { 0 } else { matches[n - 1].1 as int }),
        replaced_so_far(text, matches, with, n, with_replaced(text, matches, with, n)),
    decreases n,
{
    if n > 0 {
        lemma_replaced_so_far(text, matches, with, n - 1);
        if n > 1 {
            assert(matches[n - 2].1 <= matches[n - 1].0);
        }
        assert(matches[n - 1].0 <= matches[n - 1].1);
        lemma_replaced_next(
            text,
            matches,
            with,
            n,
            with_replaced(text, matches, with, n - 1),
            with_replaced(text, matches, with, n),
        );
    } else {
        assert(0 * with.len() == 0) by (nonlinear_arith);
    }
}

/// Law: every match is replaced whole and at once. The replacement stands where
/// each match stood, the text before the first match, between any two and
/// behind the last is as it was, and the length is that of the text without
/// the matches and with the replacements.
pub proof fn law_matches_are_replaced_whole(
    text: Seq<u8>,
    matches: Seq<(usize, usize)>,
    with: Seq<u8>,
)
    requires
        apart(matches, text.len()),
    ensures
        replaced_whole(text, matches, with, all_replaced(text, matches, with)),
{
    let n = matches.len() as int;
    let most = with_replaced(text, matches, with, n);
    let done = all_replaced(text, matches, with);
    lemma_replaced_so_far(text, matches, with, n);
    if n == 0 {
        assert(done =~= text);
        assert(0 * with.len() == 0) by (nonlinear_arith);
    } else {
        assert(matches[n - 1].1 <= text.len());
        assert(done.take(matches[0].0 as int) =~= most.take(matches[0].0 as int));
        assert(done.skip(most.len() as int) =~= text.skip(matches[n - 1].1 as int));
    }
    lemma_put_in_longer(text, matches, with, most, done, n);
}

/// Law: the text with every match replaced takes the place of the text, as one
/// step of the history, where it is of a possible size. The query is then
/// looked for again, and as many matches are reported as there were.
pub proof fn law_replace_all_puts_text_in(s: AppV, with: Seq<char>)
    requires
        s.wf(),
        encode_utf8(with).len() <= isize::MAX,
    ensures
        ({
            let after = s.text_replaced(with);
            &&& after.buf().text == encode_utf8(with)
            &&& after.buf().undo.len() == s.buf().undo.len() + 1
            &&& after.effects == s.effects.push(
                EffectV::Plain(
                    Effect::FindAfterReplaceAll { count: s.search.matches.len() as usize },
                ),
            )
            &&& after.search == s.search
            &&& after.status == s.status
            &&& other_documents_same(s, after)
        }),
{
    let t = s.buf().text;
    let bytes = encode_utf8(with);
    assert(t.take(0) + bytes + t.skip(t.len() as int) =~= bytes);
}

/// Law: where the text with every match replaced is too large, nothing changes
/// in it.
pub proof fn law_replace_all_refuses_large_text(s: AppV, with: Seq<char>)
    requires
        s.wf(),
        encode_utf8(with).len() > isize::MAX,
    ensures
        s.text_replaced(with).buf() == s.buf(),
        s.text_replaced(with).status is Some,
{
}

/// All documents but the active one are as they were, and the same one is
/// active.
pub open spec fn other_documents_same(s: AppV, after: AppV) -> bool {
    &&& after.active == s.active
    &&& after.documents.len() == s.documents.len()
    &&& forall|i: int|
        0 <= i < s.documents.len() && i != s.active ==> #[trigger] after.documents[i]
            == s.documents[i]
}

/// Law: the current match is replaced whole and nothing else in the text. The
/// query is then looked for again, from where the match began.
pub proof fn law_replace_one_replaces_the_match(s: AppV, start: int, end: int, with: Seq<char>)
    requires
        s.wf(),
        0 <= start <= end <= s.buf().text.len(),
        s.buf().text.len() - (end - start) + encode_utf8(with).len() <= isize::MAX,
    ensures
        ({
            let t = s.buf().text;
            let after = s.match_replaced(start, end, with);
            &&& after.buf().text == t.take(start) + encode_utf8(with) + t.skip(end)
            &&& after.buf().undo.len() == s.buf().undo.len() + 1
            &&& after.effects == s.effects.push(
                EffectV::Plain(Effect::FindAfterReplace { at: start as usize }),
            )
            &&& after.search == s.search
            &&& other_documents_same(s, after)
        }),
{
}

/// Law: a match that does not lie in the text is not replaced.
pub proof fn law_replace_one_needs_the_match(s: AppV, start: int, end: int, with: Seq<char>)
    requires
        s.wf(),
        !(0 <= start <= end <= s.buf().text.len()),
        0 <= start,
    ensures
        s.match_replaced(start, end, with).buf() == s.buf(),
        s.match_replaced(start, end, with).status is Some,
        s.nothing_to_replace().buf() == s.buf(),
        s.nothing_to_replace().status is Some,
{
}

/// Law: after a match was replaced, the search goes on at the first match that
/// begins behind where it was, or else at the first of all; without matches
/// the caret stays where the match was.
pub proof fn law_replace_one_goes_on(s: AppV, at: int)
    requires
        s.wf(),
        0 <= at <= s.buf().text.len(),
        s.search.matches.len() <= usize::MAX,
    ensures
        s.search.matches.len() == 0 ==> s.advanced_from(at).buf().selections == seq![
            Selection { anchor: at as usize, head: at as usize },
        ],
        s.search.matches.len() > 0 ==> comes_next(s, s.advanced_from(at), at),
        s.advanced_from(at).buf().text == s.buf().text,
        s.advanced_from(at).status is Some,
        s.advanced_from(at).effects == s.effects,
{
    if s.search.matches.len() > 0 {
        lemma_index_after_is_first(s.search.matches, at, 0);
    }
    let c = s.with_cursor(at);
    assert(c.buf().text == s.buf().text);
    assert(other_documents_same(s, s.advanced_from(at)));
}

// ----- whether replacing is asked for -----

/// Law: replacing is asked for where there is a query, a replacement, a valid
/// expression and a text; for all matches, also at least one match. Otherwise
/// it is said why not. No text changes yet either way.
pub proof fn law_replacing_is_asked_for(s: AppV)
    requires
        s.wf(),
        takes_edits(s),
    ensures
        ({
            let q = s.search;
            let may = q.query.len() > 0 && q.replace_query.len() > 0 && !(q.regex_mode
                && q.regex_error is Some) && valid_utf8(s.buf().text);
            let one = s.after(EditorEvent::ReplaceOne);
            let all = s.after(EditorEvent::ReplaceAll);
            &&& one.buf() == s.buf() && all.buf() == s.buf()
            &&& may ==> one == (AppV {
                effects: s.effects.push(EffectV::Plain(Effect::FindReplacement)),
                ..s
            })
            &&& !may ==> one.status is Some
            &&& may && q.matches.len() > 0 ==> all == (AppV {
                effects: s.effects.push(EffectV::Plain(Effect::FindAllReplacements)),
                ..s
            })
            &&& !(may && q.matches.len() > 0) ==> all.status is Some
            &&& q.query.len() == 0 ==> one.status == Some("Replace: nothing to find."@)
                && all.status == Some("Replace all: nothing to find."@)
        }),
{
    lemma_replace_one(s);
    lemma_replace_all(s);
    reveal(AppV::replace_asked);
    reveal(AppV::replace_all_asked);
}

// ----- the find bar -----

/// Law: what each event of the find and replace bars changes, and that it
/// changes nothing else. A new query and new options have the matches looked
/// for again.
pub proof fn law_find_bar(s: AppV, text: String)
    requires
        takes_edits(s),
    ensures
        s.after(EditorEvent::FindClose) == (AppV {
            search: SearchV {
                bar_open: false,
                replace_bar_open: false,
                selection_range: None,
                ..s.search
            },
            ..s
        }),
        s.after(EditorEvent::ReplaceOpen) == (AppV {
            search: SearchV { bar_open: true, replace_bar_open: true, ..s.search },
            ..s
        }),
        s.after(EditorEvent::ReplaceClose) == (AppV {
            search: SearchV { replace_bar_open: false, ..s.search },
            ..s
        }),
        s.after(EditorEvent::ReplaceQueryChanged(text)) == (AppV {
            search: SearchV { replace_query: text@, ..s.search },
            ..s
        }),
        s.after(EditorEvent::FindQueryChanged(text)) == looked_for(
            s,
            SearchV { query: text@, ..s.search },
        ),
        s.after(EditorEvent::ToggleFindRegex) == looked_for(
            s,
            SearchV { regex_mode: !s.search.regex_mode, ..s.search },
        ),
        s.after(EditorEvent::ToggleFindCaseSensitive) == looked_for(
            s,
            SearchV { case_sensitive: !s.search.case_sensitive, ..s.search },
        ),
        s.after(EditorEvent::ToggleFindWholeWord) == looked_for(
            s,
            SearchV { whole_word: !s.search.whole_word, ..s.search },
        ),
{
    lemma_find_event(s, EditorEvent::FindClose);
    lemma_find_event(s, EditorEvent::ReplaceOpen);
    lemma_find_event(s, EditorEvent::ReplaceClose);
    lemma_find_event(s, EditorEvent::ReplaceQueryChanged(text));
    lemma_find_event(s, EditorEvent::FindQueryChanged(text));
    lemma_find_event(s, EditorEvent::ToggleFindRegex);
    lemma_find_event(s, EditorEvent::ToggleFindCaseSensitive);
    lemma_find_event(s, EditorEvent::ToggleFindWholeWord);
    reveal(AppV::find_event);
}

/// The search is this, its matches are asked for, and all else is as it was.
pub open spec fn looked_for(s: AppV, search: SearchV) -> AppV {
    AppV {
        search,
        effects: s.effects.push(EffectV::Plain(Effect::FindMatches { follow: true })),
        ..s
    }
}

/// Law: opening the find bar confines the search to a selection that spans more
/// than one line, lower end first, and to nothing otherwise.
pub proof fn law_find_opens(s: AppV, backward: bool)
    requires
        s.wf(),
        takes_edits(s),
    ensures
        ({
            let event = if backward {
                EditorEvent::FindOpenBackward
            } else {
                EditorEvent::FindOpen
            };
            let after = s.after(event);
            let sel = s.buf().selections[0];
            let low = if sel.anchor < sel.head { sel.anchor } else { sel.head };
            let high = if sel.anchor < sel.head { sel.head } else { sel.anchor };
            let spans = exists|k: int| low <= k < high && s.buf().text[k] == 10;
            after == (AppV {
                search: SearchV {
                    bar_open: true,
                    backward,
                    selection_range: if spans { Some((low, high)) } else { None },
                    ..s.search
                },
                ..s
            })
        }),
{
    lemma_find_event(s, EditorEvent::FindOpenBackward);
    lemma_find_event(s, EditorEvent::FindOpen);
    reveal(AppV::find_event);
    let t = s.buf().text;
    let sel = s.buf().selections[0];
    let low = if sel.anchor < sel.head { sel.anchor } else { sel.head };
    let high = if sel.anchor < sel.head { sel.head } else { sel.anchor };
    lemma_lines_apart(t, low as int, high as int);
}

/// Two positions are on different lines just where a newline is between them.
pub proof fn lemma_lines_apart(t: Seq<u8>, low: int, high: int)
    requires
        0 <= low <= high <= t.len(),
    ensures
        line_at(t, low) <= line_at(t, high),
        line_at(t, low) != line_at(t, high) <==> exists|k: int| low <= k < high && t[k] == 10,
    decreases high - low,
{
    if low < high {
        lemma_lines_apart(t, low, high - 1);
        lemma_newlines_step(t, high - 1);
        if t[high - 1] == 10 {
            assert(low <= high - 1 < high && t[high - 1] == 10);
        }
    }
}

// ----- matches -----

proof fn lemma_index_after_is_first(m: Seq<(usize, usize)>, pos: int, from: int)
    requires
        0 < m.len() <= usize::MAX,
        0 <= from <= m.len(),
        forall|i: int| 0 <= i < from ==> (#[trigger] m[i]).0 <= pos,
    ensures
        index_after(m, pos, from) matches Some(k) && is_first_behind(m, pos, k as int),
    decreases m.len() - from,
{
    if from < m.len() && m[from].0 <= pos {
        lemma_index_after_is_first(m, pos, from + 1);
    }
}

proof fn lemma_index_before_is_last(m: Seq<(usize, usize)>, pos: int, n: int)
    requires
        0 < m.len() <= usize::MAX,
        0 <= n <= m.len(),
        forall|i: int| n <= i < m.len() ==> (#[trigger] m[i]).0 >= pos,
    ensures
        index_before(m, pos, n) matches Some(k) && is_last_before(m, pos, k as int),
    decreases n,
{
    if n > 0 && m[n - 1].0 >= pos {
        lemma_index_before_is_last(m, pos, n - 1);
    }
}

/// Match `k` is the first that begins behind `pos`; or none does and it is the
/// first of all.
pub open spec fn is_first_behind(m: Seq<(usize, usize)>, pos: int, k: int) -> bool {
    &&& 0 <= k < m.len()
    &&& if m[k].0 > pos {
        forall|i: int| 0 <= i < k ==> (#[trigger] m[i]).0 <= pos
    } else {
        k == 0 && forall|i: int| 0 <= i < m.len() ==> (#[trigger] m[i]).0 <= pos
    }
}

/// Match `k` is the last that begins before `pos`; or none does and it is the
/// last of all.
pub open spec fn is_last_before(m: Seq<(usize, usize)>, pos: int, k: int) -> bool {
    &&& 0 <= k < m.len()
    &&& if m[k].0 < pos {
        forall|i: int| k < i < m.len() ==> (#[trigger] m[i]).0 >= pos
    } else {
        k == m.len() - 1 && forall|i: int| 0 <= i < m.len() ==> (#[trigger] m[i]).0 >= pos
    }
}

/// A single caret at the start of match `k`, as far as the text goes.
pub open spec fn caret_at_match(s: AppV, after: AppV, k: int) -> bool {
    let start = s.search.matches[k].0;
    let at = if start <= s.buf().text.len() { start } else { s.buf().text.len() as usize };
    after.buf() == (BufferV { selections: seq![Selection { anchor: at, head: at }], ..s.buf() })
}

/// The first match behind `pos` has become the current one, the caret is at
/// it, and the matches are the same.
pub open spec fn comes_next(s: AppV, after: AppV, pos: int) -> bool {
    exists|k: int|
        #[trigger] is_first_behind(s.search.matches, pos, k) && after.search == (SearchV {
            current: Some(k as usize),
            ..s.search
        }) && caret_at_match(s, after, k)
}

/// The last match before `pos` has become the current one, the caret is at it,
/// and the matches are the same.
pub open spec fn comes_before(s: AppV, after: AppV, pos: int) -> bool {
    exists|k: int|
        #[trigger] is_last_before(s.search.matches, pos, k) && after.search == (SearchV {
            current: Some(k as usize),
            ..s.search
        }) && caret_at_match(s, after, k)
}

/// Law: going to the next match takes the caret to the first one behind it, and
/// from behind the last to the first; going back to the last one before it, and
/// from before the first to the last. Without matches nothing changes.
pub proof fn law_find_goes_from_match_to_match(s: AppV)
    requires
        s.wf(),
        takes_edits(s),
        s.search.matches.len() <= usize::MAX,
    ensures
        s.search.matches.len() == 0 ==> s.after(EditorEvent::FindNext) == s && s.after(
            EditorEvent::FindPrev,
        ) == s,
        s.search.matches.len() > 0 ==> comes_next(
            s,
            s.after(EditorEvent::FindNext),
            s.buf().selections[0].head as int,
        ) && comes_before(
            s,
            s.after(EditorEvent::FindPrev),
            s.buf().selections[0].head as int,
        ),
        other_documents_same(s, s.after(EditorEvent::FindNext)),
        other_documents_same(s, s.after(EditorEvent::FindPrev)),
{
    lemma_find_event(s, EditorEvent::FindNext);
    lemma_find_event(s, EditorEvent::FindPrev);
    reveal(AppV::find_event);
    let m = s.search.matches;
    let pos = s.buf().selections[0].head as int;
    if m.len() > 0 {
        lemma_index_after_is_first(m, pos, 0);
        lemma_index_before_is_last(m, pos, m.len() as int);
        let k = index_after(m, pos, 0)->0 as int;
        assert(is_first_behind(m, pos, k) && caret_at_match(s, s.after(EditorEvent::FindNext), k));
        let j = index_before(m, pos, m.len() as int)->0 as int;
        assert(is_last_before(m, pos, j) && caret_at_match(s, s.after(EditorEvent::FindPrev), j));
    }
}

proof fn lemma_matches_in(m: Seq<(usize, usize)>, range: (usize, usize))
    ensures
        matches_in(m, Some(range)) == m.filter(
            |x: (usize, usize)| range.0 <= x.0 && x.1 <= range.1,
        ),
    decreases m.len(),
{
    reveal(Seq::filter);
    if m.len() > 0 {
        lemma_matches_in(m.drop_last(), range);
    }
}

/// Law: of the matches that were found those count that lie in the range that
/// the search is confined to, all of them without one. The first becomes the
/// current one, backwards the last, and the caret follows where it is to.
pub proof fn law_found_matches_are_taken_over(
    s: AppV,
    found: Seq<(usize, usize)>,
    error: Option<Seq<char>>,
    follow: bool,
)
    requires
        s.wf(),
    ensures
        ({
            let after = s.matches_found(found, error, follow);
            let kept = match s.search.selection_range {
                Some(r) => found.filter(|x: (usize, usize)| r.0 <= x.0 && x.1 <= r.1),
                None => found,
            };
            let current = if kept.len() == 0 {
                None
            } else if s.search.backward {
                Some((kept.len() - 1) as usize)
            } else {
                Some(0usize)
            };
            &&& after.search == (SearchV { matches: kept, current, regex_error: error, ..s.search })
            &&& after.effects == s.effects && after.status == s.status
            &&& other_documents_same(s, after)
            &&& !follow || kept.len() == 0 ==> after.buf() == s.buf()
            &&& follow && 0 < kept.len() <= usize::MAX ==> caret_at_match(
                AppV { search: after.search, ..s },
                after,
                current->0 as int,
            )
        }),
{
    if let Some(r) = s.search.selection_range {
        lemma_matches_in(found, r);
    }
}

// ----- where a query stands -----

/// The same letter, in upper or lower case.
pub open spec fn same_letter(a: u8, b: u8) -> bool {
    a == b || (65 <= a <= 90 && b == a + 32) || (65 <= b <= 90 && a == b + 32)
}

/// A letter, a digit, an underscore or part of a character beyond ASCII.
pub open spec fn in_word(b: u8) -> bool {
    (48 <= b <= 57) || (65 <= b <= 90) || b == 95 || (97 <= b <= 122) || b >= 128
}

/// The query stands in the text from `at` on: byte by byte or, regardless of
/// case, letter by letter; and by itself, where whole words are meant.
pub open spec fn stands(
    text: Seq<u8>,
    query: Seq<u8>,
    at: int,
    case_sensitive: bool,
    whole_word: bool,
) -> bool {
    let end = at + query.len();
    &&& 0 <= at && end <= text.len()
    &&& case_sensitive ==> text.subrange(at, end) == query
    &&& !case_sensitive ==> forall|k: int|
        0 <= k < query.len() ==> same_letter(#[trigger] text[at + k], query[k])
    &&& whole_word && at > 0 ==> !in_word(text[at - 1])
    &&& whole_word && end < text.len() ==> !in_word(text[end])
}

proof fn lemma_stands(
    text: Seq<u8>,
    query: Seq<u8>,
    at: int,
    case_sensitive: bool,
    whole_word: bool,
)
    ensures
        query_at(text, query, at, case_sensitive, whole_word) == stands(
            text,
            query,
            at,
            case_sensitive,
            whole_word,
        ),
{
    reveal(query_at);
    let end = at + query.len();
    if 0 <= at && end <= text.len() {
        if case_sensitive {
            if query_at(text, query, at, case_sensitive, whole_word) {
                assert forall|k: int| 0 <= k < query.len() implies text.subrange(at, end)[k]
                    == query[k] by {
                    assert(text[at + k] == query[k]);
                }
                assert(text.subrange(at, end) =~= query);
            }
            if stands(text, query, at, case_sensitive, whole_word) {
                assert forall|k: int| 0 <= k < query.len() implies #[trigger] text[at + k]
                    == query[k] by {
                    assert(text.subrange(at, end)[k] == text[at + k]);
                }
            }
        } else {
            assert forall|k: int| 0 <= k < query.len() implies same_letter(
                #[trigger] text[at + k],
                query[k],
            ) == crate::matching::same_byte(text[at + k], query[k], false) by {}
        }
    }
}

/// Law: the places that are found are where the query stands, from left to
/// right and none inside another; and wherever it stands, one of them begins
/// or is not over.
pub proof fn law_query_is_found(
    text: Seq<u8>,
    query: Seq<u8>,
    case_sensitive: bool,
    whole_word: bool,
)
    requires
        query.len() > 0,
        text.len() <= isize::MAX,
    ensures
        ({
            let found = places(text, query, case_sensitive, whole_word, text.len() as int + 1);
            &&& apart(found, text.len())
            &&& forall|i: int|
                0 <= i < found.len() ==> (#[trigger] found[i]).1 == found[i].0 + query.len()
                    && stands(text, query, found[i].0 as int, case_sensitive, whole_word)
            &&& forall|at: int| #[trigger]
                stands(text, query, at, case_sensitive, whole_word) ==> exists|k: int|
                    0 <= k < found.len() && (#[trigger] found[k]).0 <= at < found[k].1
        }),
{
    let n = text.len() + 1;
    let found = places(text, query, case_sensitive, whole_word, n as int);
    law_places_are_the_matches(text, query, case_sensitive, whole_word, n as int);
    assert forall|i: int| 0 <= i < found.len() implies (#[trigger] found[i]).1 == found[i].0
        + query.len() && stands(text, query, found[i].0 as int, case_sensitive, whole_word) by {
        lemma_stands(text, query, found[i].0 as int, case_sensitive, whole_word);
    }
    assert forall|at: int| #[trigger]
        stands(text, query, at, case_sensitive, whole_word) implies exists|k: int|
        0 <= k < found.len() && (#[trigger] found[k]).0 <= at < found[k].1 by {
        lemma_stands(text, query, at, case_sensitive, whole_word);
        assert(crate::matching::covered(found, at));
    }
}

// ----- comments -----

/// Law: the lines that are to be commented in or out are those that the primary
/// selection touches: the line of every position in it is among them, and they
/// begin with the line of its lower end and end with that of its higher one.
/// Without a language nothing is asked for.
pub proof fn law_selected_lines_are_commented(s: AppV)
    requires
        s.wf(),
        takes_edits(s),
    ensures
        ({
            let after = s.after(EditorEvent::ToggleComment);
            let t = s.buf().text;
            let sel = s.buf().selections[0];
            let low = if sel.anchor < sel.head { sel.anchor } else { sel.head };
            let high = if sel.anchor < sel.head { sel.head } else { sel.anchor };
            &&& s.doc().info.language is None ==> after == s
            &&& s.doc().info.language is Some ==> exists|start_line: usize, end_line: usize|
                {
                    &&& after == (AppV {
                        effects: s.effects.push(
                            EffectV::Plain(
                                #[trigger] comment_request(start_line, end_line),
                            ),
                        ),
                        ..s
                    })
                    &&& start_line == line_at(t, low as int)
                    &&& end_line == line_at(t, high as int) + 1
                    &&& forall|p: int|
                        low <= p <= high ==> start_line <= #[trigger] line_at(t, p) < end_line
                }
        }),
{
    lemma_toggle_comment(s);
    reveal(AppV::comment_asked);
    let t = s.buf().text;
    let sel = s.buf().selections[0];
    let low = if sel.anchor < sel.head { sel.anchor } else { sel.head };
    let high = if sel.anchor < sel.head { sel.head } else { sel.anchor };
    lemma_line_at(t, low as int);
    lemma_line_at(t, high as int);
    lemma_lines_fit(t, low as int);
    lemma_lines_fit(t, high as int);
    let start_line = line_at(t, low as int) as usize;
    let end_line = (line_at(t, high as int) + 1) as usize;
    assert forall|p: int| low <= p <= high implies start_line <= #[trigger] line_at(t, p)
        < end_line by {
        lemma_newlines_grow(t, low as int, p);
        lemma_newlines_grow(t, p, high as int);
    }
    if s.doc().info.language is Some {
        assert(s.after(EditorEvent::ToggleComment).effects == s.effects.push(
            EffectV::Plain(comment_request(start_line, end_line)),
        ));
    }
}

/// No line has a number beyond the length of the text.
pub proof fn lemma_lines_fit(t: Seq<u8>, pos: int)
    requires
        0 <= pos <= t.len(),
    ensures
        line_at(t, pos) <= pos,
    decreases pos,
{
    if pos > 0 {
        lemma_lines_fit(t, pos - 1);
        lemma_newlines_step(t, pos - 1);
    } else {
        assert(t.take(0) =~= seq![]);
    }
}

/// The lines from `start_line` up to `end_line` are to be commented in or out.
pub open spec fn comment_request(start_line: usize, end_line: usize) -> Effect {
    Effect::ToggleComment { start_line, end_line }
}

/// Law: a position is on the line that it lies on: from the line's start, which
/// is the start of the text or behind a newline, up to its end, which is the end
/// of the text or at a newline, with no newline between.
pub proof fn law_position_is_on_its_line(t: Seq<u8>, pos: int)
    requires
        0 <= pos <= t.len(),
    ensures
        ({
            let start = line_start(t, line_at(t, pos));
            let end = line_end(t, line_at(t, pos));
            &&& 0 <= start <= pos <= end <= t.len()
            &&& start == 0 || t[start - 1] == 10
            &&& end == t.len() || t[end] == 10
            &&& forall|k: int| start <= k < end ==> t[k] != 10
            &&& line_at(t, pos) == 0 <==> start == 0
            &&& pos < t.len() && t[pos] == 10 ==> line_at(t, pos + 1) == line_at(t, pos) + 1
            &&& pos < t.len() && t[pos] != 10 ==> line_at(t, pos + 1) == line_at(t, pos)
        }),
{
    lemma_line_at(t, pos);
    lemma_line_start(t, line_at(t, pos));
    lemma_line_end_from(t, line_start(t, line_at(t, pos)));
    if pos < t.len() {
        lemma_newlines_step(t, pos);
    }
    if line_at(t, pos) > 0 {
        let prev = (line_at(t, pos) - 1) as nat;
        lemma_line_start(t, prev);
    }
}

} // verus!

//! What typing and deleting do at several carets and selections at once.

use vstd::prelude::*;
use vstd::utf8::*;

use crate::buffer::{BufferV, Selection};
use crate::edit_laws::{lemma_finished, plain_at};
use crate::editing::{
    deletion_order, deletions, heads, inserted_at_all, selected, selections_deleted, starts, typed,
};
use crate::event::EditorEvent;
use crate::find_laws::{law_matches_are_replaced_whole, other_documents_same, replaced_whole};
use crate::laws::takes_edits;
use crate::matching::{all_replaced, copied_to, with_replaced};
use crate::order::{
    in_order, increasing, insert_index, law_sorted_set, law_stable_order, sorted_set, stable_order,
};
use crate::routes::{lemma_delete_left, lemma_delete_right, lemma_delete_selection, lemma_paste};
use crate::state::AppV;

verus! {

// ----- typing at several carets -----

/// The places of carets, as ranges that hold nothing.
pub open spec fn empty_ranges(positions: Seq<usize>) -> Seq<(usize, usize)> {
    Seq::new(positions.len(), |i: int| (positions[i], positions[i]))
}

proof fn lemma_same_prefix(
    a: Seq<u8>,
    b: Seq<u8>,
    matches: Seq<(usize, usize)>,
    with: Seq<u8>,
    n: int,
    bound: int,
)
    requires
        0 <= n <= matches.len(),
        0 <= bound <= a.len(),
        bound <= b.len(),
        a.take(bound) == b.take(bound),
        forall|i: int| 0 <= i < n ==> (#[trigger] matches[i]).0 <= bound && matches[i].1 <= bound,
    ensures
        with_replaced(a, matches, with, n) == with_replaced(b, matches, with, n),
        0 <= copied_to(matches, n) <= bound,
    decreases n,
{
    if n > 0 {
        lemma_same_prefix(a, b, matches, with, n - 1, bound);
        let c = copied_to(matches, n - 1);
        let m = matches[n - 1].0 as int;
        if c <= m {
            assert(a.subrange(c, m) =~= a.take(bound).subrange(c, m));
            assert(b.subrange(c, m) =~= b.take(bound).subrange(c, m));
        }
    }
}

proof fn lemma_prefix_of_matches(
    text: Seq<u8>,
    matches: Seq<(usize, usize)>,
    with: Seq<u8>,
    n: int,
)
    requires
        0 <= n < matches.len(),
    ensures
        with_replaced(text, matches, with, n) == with_replaced(text, matches.drop_last(), with, n),
        copied_to(matches, n) == copied_to(matches.drop_last(), n),
    decreases n,
{
    if n > 0 {
        lemma_prefix_of_matches(text, matches, with, n - 1);
        assert(matches[n - 1] == matches.drop_last()[n - 1]);
    }
}

/// Inserting at each place, the last one first, replaces what is between
/// nothing and nothing at all of them.
proof fn lemma_insertions(b: BufferV, positions: Seq<usize>, with: Seq<u8>)
    requires
        increasing(positions),
        forall|i: int| 0 <= i < positions.len() ==> (#[trigger] positions[i]) <= b.text.len(),
    ensures
        inserted_at_all(b, positions, with).text == all_replaced(
            b.text,
            empty_ranges(positions),
            with,
        ),
    decreases positions.len(),
{
    let m = empty_ranges(positions);
    let n = positions.len() as int;
    let t = b.text;
    if n == 0 {
        assert(all_replaced(t, m, with) =~= t);
    } else {
        let at = positions.last() as int;
        let rest = positions.drop_last();
        let next = b.inserted(at, with);
        let t2 = next.text;
        assert(t2 == t.take(at) + with + t.skip(at));
        assert forall|i: int| 0 <= i < rest.len() implies (#[trigger] rest[i]) <= t2.len() by {
            assert(rest[i] == positions[i]);
            assert(positions[i] <= t.len());
        }
        lemma_insertions(next, rest, with);
        let m2 = empty_ranges(rest);
        assert(m.drop_last() =~= m2);
        lemma_prefix_of_matches(t, m, with, n - 1);
        assert(t.take(at) =~= t2.take(at));
        assert forall|i: int| 0 <= i < n - 1 implies (#[trigger] m2[i]).0 <= at && m2[i].1
            <= at by {
            assert(positions[i] < positions[n - 1]);
        }
        lemma_same_prefix(t, t2, m2, with, n - 1, at);
        let c = copied_to(m2, n - 1);
        assert(t2.skip(c) =~= t.subrange(c, at) + with + t.skip(at));
        assert(all_replaced(t2, m2, with) =~= all_replaced(t, m, with));
    }
}

proof fn lemma_increasing_same(a: Seq<usize>, b: Seq<usize>)
    requires
        increasing(a),
        increasing(b),
        forall|x: usize| a.contains(x) <==> b.contains(x),
    ensures
        a == b,
    decreases a.len(),
{
    if a.len() == 0 {
        if b.len() > 0 {
            assert(b.contains(b[0]));
        }
        assert(a =~= b);
    } else {
        assert(a.contains(a[0]));
        assert(b.contains(a[0]));
        assert(b.len() > 0);
        let x = a.last();
        let y = b.last();
        assert(a.contains(a[a.len() - 1]));
        assert(b.contains(b[b.len() - 1]));
        assert(x == y) by {
            let i = choose|i: int| 0 <= i < b.len() && b[i] == x;
            let j = choose|j: int| 0 <= j < a.len() && a[j] == y;
            if i < b.len() - 1 {
                assert(b[i] < b[b.len() - 1]);
            }
            if j < a.len() - 1 {
                assert(a[j] < a[a.len() - 1]);
            }
        }
        let c = a.drop_last();
        let d = b.drop_last();
        assert forall|z: usize| c.contains(z) <==> d.contains(z) by {
            if c.contains(z) {
                let i = choose|i: int| 0 <= i < c.len() && c[i] == z;
                assert(a[i] == z && a[i] < a[a.len() - 1]);
                assert(a.contains(z));
                let j = choose|j: int| 0 <= j < b.len() && b[j] == z;
                assert(d[j] == z);
            }
            if d.contains(z) {
                let i = choose|i: int| 0 <= i < d.len() && d[i] == z;
                assert(b[i] == z && b[i] < b[b.len() - 1]);
                assert(b.contains(z));
                let j = choose|j: int| 0 <= j < a.len() && a[j] == z;
                assert(c[j] == z);
            }
        }
        lemma_increasing_same(c, d);
        assert(a =~= c.push(x));
        assert(b =~= d.push(y));
    }
}

/// The carets stand at these places, from left to right, and nothing is
/// selected.
pub open spec fn carets_at(b: BufferV, positions: Seq<usize>) -> bool {
    &&& forall|i: int, j: int| 0 <= i < j < positions.len() ==> positions[i] < positions[j]
    &&& forall|i: int|
        0 <= i < b.selections.len() ==> (#[trigger] b.selections[i]).anchor == b.selections[i].head
    &&& forall|x: usize|
        positions.contains(x) <==> exists|i: int|
            0 <= i < b.selections.len() && (#[trigger] b.selections[i]).head == x
}

proof fn lemma_carets_at(b: BufferV, positions: Seq<usize>)
    requires
        carets_at(b, positions),
    ensures
        sorted_set(heads(b.selections)) == positions,
{
    let h = heads(b.selections);
    law_sorted_set(h);
    assert forall|x: usize| h.contains(x) <==> positions.contains(x) by {
        if h.contains(x) {
            let i = choose|i: int| 0 <= i < h.len() && h[i] == x;
            assert(b.selections[i].head == x);
        }
        if positions.contains(x) {
            let i = choose|i: int|
                0 <= i < b.selections.len() && (#[trigger] b.selections[i]).head == x;
            assert(h[i] == x);
        }
    }
    lemma_increasing_same(sorted_set(h), positions);
}

proof fn lemma_none_selected(s: Seq<Selection>)
    requires
        forall|i: int| 0 <= i < s.len() ==> (#[trigger] s[i]).anchor == s[i].head,
    ensures
        selected(s) == Seq::<Selection>::empty(),
    decreases s.len(),
{
    if s.len() > 0 {
        lemma_none_selected(s.drop_last());
    }
}

/// Law: what is typed or pasted is put in at every caret, and nothing else
/// changes; each caret goes behind what was put in at it.
pub proof fn law_every_caret_types(s: AppV, positions: Seq<usize>, text: String)
    requires
        s.wf(),
        takes_edits(s),
        carets_at(s.buf(), positions),
        s.buf().text.len() + positions.len() * encode_utf8(text@).len() <= isize::MAX,
    ensures
        ({
            let with = encode_utf8(text@);
            let after = s.after(EditorEvent::Paste(text));
            &&& replaced_whole(s.buf().text, empty_ranges(positions), with, after.buf().text)
            &&& after.buf().selections == Seq::new(
                positions.len(),
                |i: int| plain_at(positions[i] + (i + 1) * with.len()),
            )
            &&& other_documents_same(s, after)
        }),
{
    let with = encode_utf8(text@);
    let b = s.buf();
    let failure = "paste error: "@;
    lemma_paste(s, text);
    lemma_none_selected(b.selections);
    let order = deletion_order(b.selections);
    assert(order =~= seq![]);
    assert(selections_deleted(b).buffer == b);
    reveal(AppV::text_inserted);
    reveal(AppV::selection_deleted);
    lemma_carets_at(b, positions);
    assert forall|i: int| 0 <= i < positions.len() implies (#[trigger] positions[i])
        <= b.text.len() by {
        assert(positions.contains(positions[i]));
    }
    lemma_insertions(b, positions, with);
    law_matches_are_replaced_whole(b.text, empty_ranges(positions), with);
    assert(typed(b, with).selections =~= Seq::new(
        positions.len(),
        |i: int| plain_at(positions[i] + (i + 1) * with.len()),
    ));
    assert(s.has_room(text@));
    let put = s.text_inserted(text@, failure);
    assert(put.buf() == typed(b, with));
    lemma_finished(s, put);
}

// ----- deleting several selections -----

pub open spec fn low_end(s: Selection) -> int {
    if s.anchor < s.head { s.anchor as int } else { s.head as int }
}

pub open spec fn high_end(s: Selection) -> int {
    if s.anchor < s.head { s.head as int } else { s.anchor as int }
}

/// The byte at `p` is selected.
pub open spec fn is_selected(s: Seq<Selection>, p: int) -> bool {
    exists|i: int| 0 <= i < s.len() && low_end(#[trigger] s[i]) <= p < high_end(s[i])
}

/// The bytes from `from` to `to` that are not selected.
pub open spec fn unselected(t: Seq<u8>, s: Seq<Selection>, from: int, to: int) -> Seq<u8>
    decreases to - from,
{
    if to <= from {
        seq![]
    } else if is_selected(s, to - 1) {
        unselected(t, s, from, to - 1)
    } else {
        unselected(t, s, from, to - 1).push(t[to - 1])
    }
}

/// No two selections overlap.
pub open spec fn disjoint(s: Seq<Selection>) -> bool {
    forall|i: int, j: int|
        0 <= i < j < s.len() ==> high_end(#[trigger] s[i]) <= low_end(#[trigger] s[j]) || high_end(
            s[j],
        ) <= low_end(s[i])
}

proof fn lemma_unselected_same(
    t: Seq<u8>,
    a: Seq<Selection>,
    b: Seq<Selection>,
    from: int,
    to: int,
)
    requires
        forall|p: int| from <= p < to ==> is_selected(a, p) == is_selected(b, p),
    ensures
        unselected(t, a, from, to) == unselected(t, b, from, to),
    decreases to - from,
{
    if from < to {
        lemma_unselected_same(t, a, b, from, to - 1);
    }
}

proof fn lemma_unselected_all(t: Seq<u8>, s: Seq<Selection>, from: int, to: int)
    requires
        0 <= from <= to <= t.len(),
        forall|p: int| from <= p < to ==> !is_selected(s, p),
    ensures
        unselected(t, s, from, to) == t.subrange(from, to),
    decreases to - from,
{
    if from < to {
        lemma_unselected_all(t, s, from, to - 1);
        assert(t.subrange(from, to) =~= t.subrange(from, to - 1).push(t[to - 1]));
    } else {
        assert(t.subrange(from, to) =~= seq![]);
    }
}

proof fn lemma_unselected_none(t: Seq<u8>, s: Seq<Selection>, from: int, to: int)
    requires
        forall|p: int| from <= p < to ==> is_selected(s, p),
    ensures
        unselected(t, s, from, to) == Seq::<u8>::empty(),
    decreases to - from,
{
    if from < to {
        lemma_unselected_none(t, s, from, to - 1);
    }
}

proof fn lemma_unselected_split(t: Seq<u8>, s: Seq<Selection>, from: int, mid: int, to: int)
    requires
        from <= mid <= to,
    ensures
        unselected(t, s, from, to) == unselected(t, s, from, mid) + unselected(t, s, mid, to),
    decreases to - mid,
{
    if mid < to {
        lemma_unselected_split(t, s, from, mid, to - 1);
        assert(unselected(t, s, from, to) =~= unselected(t, s, from, mid) + unselected(
            t,
            s,
            mid,
            to,
        ));
    } else {
        assert(unselected(t, s, from, to) =~= unselected(t, s, from, mid) + unselected(
            t,
            s,
            mid,
            to,
        ));
    }
}

/// The selections go from right to left.
spec fn leftwards(order: Seq<Selection>, len: int) -> bool {
    &&& forall|i: int|
        0 <= i < order.len() ==> low_end(#[trigger] order[i]) < high_end(order[i]) <= len
    &&& forall|i: int, j: int|
        0 <= i < j < order.len() ==> high_end(#[trigger] order[j]) <= low_end(#[trigger] order[i])
}

proof fn lemma_deleted_leftwards(b: BufferV, order: Seq<Selection>, n: int)
    requires
        leftwards(order, b.text.len() as int),
        0 <= n <= order.len(),
    ensures
        ({
            let d = deletions(b, order, n);
            let t = b.text;
            let done = order.take(n);
            &&& d.buffer.text == unselected(t, done, 0, t.len() as int)
            &&& !d.failed
            &&& n > 0 ==> d.carets.len() > 0
        }),
    decreases n,
{
    let t = b.text;
    let len = t.len() as int;
    if n == 0 {
        assert forall|p: int| 0 <= p < len implies !is_selected(order.take(0), p) by {}
        lemma_unselected_all(t, order.take(0), 0, len);
        assert(t.subrange(0, len) =~= t);
    } else {
        lemma_deleted_leftwards(b, order, n - 1);
        let before = order.take(n - 1);
        let after = order.take(n);
        let sel = order[n - 1];
        let low = low_end(sel);
        let high = high_end(sel);
        let d = deletions(b, order, n - 1).buffer.text;
        assert(low < high <= len);
        assert forall|p: int| 0 <= p < high implies !is_selected(before, p) by {
            if is_selected(before, p) {
                let i = choose|i: int|
                    0 <= i < before.len() && low_end(#[trigger] before[i]) <= p < high_end(
                        before[i],
                    );
                assert(before[i] == order[i]);
                assert(high_end(order[n - 1]) <= low_end(order[i]));
            }
        }
        lemma_unselected_all(t, before, 0, high);
        lemma_unselected_split(t, before, 0, high, len);
        assert(d.take(high) =~= t.subrange(0, high));
        assert(d.skip(high) =~= unselected(t, before, high, len));
        assert forall|p: int| 0 <= p < low implies !is_selected(after, p) by {
            if is_selected(after, p) {
                let i = choose|i: int|
                    0 <= i < after.len() && low_end(#[trigger] after[i]) <= p < high_end(after[i]);
                assert(after[i] == order[i]);
                if i < n - 1 {
                    assert(before[i] == order[i]);
                    assert(is_selected(before, p));
                }
            }
        }
        assert forall|p: int| low <= p < high implies is_selected(after, p) by {
            assert(low_end(after[n - 1]) <= p < high_end(after[n - 1]));
        }
        assert forall|p: int| high <= p < len implies is_selected(before, p) == is_selected(
            after,
            p,
        ) by {
            if is_selected(before, p) {
                let i = choose|i: int|
                    0 <= i < before.len() && low_end(#[trigger] before[i]) <= p < high_end(
                        before[i],
                    );
                assert(after[i] == before[i]);
            }
            if is_selected(after, p) {
                let i = choose|i: int|
                    0 <= i < after.len() && low_end(#[trigger] after[i]) <= p < high_end(after[i]);
                assert(i < n - 1);
                assert(before[i] == after[i]);
            }
        }
        lemma_unselected_all(t, after, 0, low);
        lemma_unselected_none(t, after, low, high);
        lemma_unselected_same(t, before, after, high, len);
        lemma_unselected_split(t, after, 0, low, high);
        lemma_unselected_split(t, after, 0, high, len);
        assert(d.take(low) =~= t.subrange(0, low));
        let s = order[n - 1];
        assert(s.start() == low && s.end() == high);
        assert(d.len() >= high);
        assert(deletions(b, order, n).buffer.text =~= d.take(low) + d.skip(high));
        assert(deletions(b, order, n).buffer.text =~= unselected(t, after, 0, len));
    }
}

proof fn lemma_insert_index_has(
    order: Seq<usize>,
    keys: Seq<usize>,
    i: usize,
    descending: bool,
    x: usize,
)
    ensures
        order.contains(x) || x == i ==> insert_index(order, keys, i, descending).contains(x),
    decreases order.len(),
{
    let r = insert_index(order, keys, i, descending);
    if order.len() == 0 {
        assert(r[0] == i);
    } else if crate::order::goes_before(keys[i as int], keys[order[0] as int], descending) {
        assert(r[0] == i);
        if order.contains(x) {
            let k = choose|k: int| 0 <= k < order.len() && order[k] == x;
            assert(r[k + 1] == x);
        }
    } else {
        let rest = order.drop_first();
        let inner = insert_index(rest, keys, i, descending);
        lemma_insert_index_has(rest, keys, i, descending, x);
        if order.contains(x) && order[0] != x {
            let k = choose|k: int| 0 <= k < order.len() && order[k] == x;
            assert(rest[k - 1] == x);
        }
        if inner.contains(x) {
            let k = choose|k: int| 0 <= k < inner.len() && inner[k] == x;
            assert(r[k + 1] == x);
        }
        assert(r[0] == order[0]);
    }
}

pub proof fn lemma_order_has_index(keys: Seq<usize>, n: int, i: int, descending: bool)
    requires
        0 <= i < n <= usize::MAX,
    ensures
        stable_order(keys, n, descending).contains(i as usize),
    decreases n,
{
    let before = stable_order(keys, n - 1, descending);
    if i < n - 1 {
        lemma_order_has_index(keys, n - 1, i, descending);
    }
    lemma_insert_index_has(before, keys, (n - 1) as usize, descending, i as usize);
}

proof fn lemma_selected_has(s: Seq<Selection>)
    ensures
        forall|k: int|
            0 <= k < selected(s).len() ==> s.contains(#[trigger] selected(s)[k]) && selected(
                s,
            )[k].anchor != selected(s)[k].head,
        forall|i: int|
            0 <= i < s.len() && (#[trigger] s[i]).anchor != s[i].head ==> selected(s).contains(
                s[i],
            ),
        disjoint(s) ==> disjoint(selected(s)),
        selected(s).len() <= s.len(),
    decreases s.len(),
{
    if s.len() > 0 {
        let rest = s.drop_last();
        lemma_selected_has(rest);
        let r = selected(s);
        let q = selected(rest);
        assert forall|k: int| 0 <= k < r.len() implies s.contains(#[trigger] r[k]) && r[k].anchor
            != r[k].head by {
            if k < q.len() {
                assert(rest.contains(q[k]));
                let i = choose|i: int| 0 <= i < rest.len() && rest[i] == q[k];
                assert(s[i] == r[k]);
            } else {
                assert(s[s.len() - 1] == r[k]);
            }
        }
        assert forall|i: int|
            0 <= i < s.len() && (#[trigger] s[i]).anchor != s[i].head implies r.contains(s[i]) by {
            if i < rest.len() {
                assert(rest[i] == s[i]);
                let k = choose|k: int| 0 <= k < q.len() && q[k] == s[i];
                assert(r[k] == s[i]);
            } else {
                assert(r[r.len() - 1] == s[i]);
            }
        }
        if disjoint(s) {
            assert forall|i: int, j: int| 0 <= i < j < rest.len() implies high_end(
                #[trigger] rest[i],
            ) <= low_end(#[trigger] rest[j]) || high_end(rest[j]) <= low_end(rest[i]) by {
                assert(high_end(s[i]) <= low_end(s[j]) || high_end(s[j]) <= low_end(s[i]));
            }
            assert forall|i: int, j: int| 0 <= i < j < r.len() implies high_end(#[trigger] r[i])
                <= low_end(#[trigger] r[j]) || high_end(r[j]) <= low_end(r[i]) by {
                if j < q.len() {
                    assert(high_end(q[i]) <= low_end(q[j]) || high_end(q[j]) <= low_end(q[i]));
                } else {
                    assert(rest.contains(q[i]));
                    let m = choose|m: int| 0 <= m < rest.len() && rest[m] == q[i];
                    assert(s[m] == r[i] && s[s.len() - 1] == r[j]);
                }
            }
        }
    }
}

proof fn lemma_order_leftwards(b: BufferV)
    requires
        b.wf(),
        disjoint(b.selections),
        b.selections.len() <= usize::MAX,
    ensures
        leftwards(deletion_order(b.selections), b.text.len() as int),
        forall|p: int| is_selected(deletion_order(b.selections), p) == is_selected(b.selections, p),
        deletion_order(b.selections).len() == selected(b.selections).len(),
{
    let s = b.selections;
    let sel = selected(s);
    let keys = starts(sel);
    let n = sel.len() as int;
    lemma_selected_has(s);
    law_stable_order(keys, n, true);
    let places = stable_order(keys, n, true);
    let order = deletion_order(s);
    assert(order == in_order(sel, places));
    assert forall|i: int| 0 <= i < order.len() implies low_end(#[trigger] order[i]) < high_end(
        order[i],
    ) <= b.text.len() by {
        let x = sel[places[i] as int];
        assert(s.contains(x));
        let k = choose|k: int| 0 <= k < s.len() && s[k] == x;
        assert(s[k].anchor <= b.text.len());
    }
    assert forall|i: int, j: int| 0 <= i < j < order.len() implies high_end(#[trigger] order[j])
        <= low_end(#[trigger] order[i]) by {
        let x = places[i] as int;
        let y = places[j] as int;
        assert(places[i] != places[j]);
        assert(!crate::order::goes_before(keys[y], keys[x], true));
        assert(low_end(order[j]) < high_end(order[j]));
        assert(low_end(order[i]) < high_end(order[i]));
        if x < y {
            assert(high_end(sel[x]) <= low_end(sel[y]) || high_end(sel[y]) <= low_end(sel[x]));
        } else {
            assert(high_end(sel[y]) <= low_end(sel[x]) || high_end(sel[x]) <= low_end(sel[y]));
        }
    }
    assert forall|p: int| is_selected(order, p) == is_selected(s, p) by {
        if is_selected(order, p) {
            let i = choose|i: int|
                0 <= i < order.len() && low_end(#[trigger] order[i]) <= p < high_end(order[i]);
            let x = sel[places[i] as int];
            assert(s.contains(x));
            let k = choose|k: int| 0 <= k < s.len() && s[k] == x;
            assert(low_end(s[k]) <= p < high_end(s[k]));
        }
        if is_selected(s, p) {
            let i = choose|i: int|
                0 <= i < s.len() && low_end(#[trigger] s[i]) <= p < high_end(s[i]);
            assert(s[i].anchor != s[i].head);
            let k = choose|k: int| 0 <= k < sel.len() && sel[k] == s[i];
            lemma_order_has_index(keys, n, k, true);
            let m = choose|m: int| 0 <= m < places.len() && places[m] == k as usize;
            assert(order[m] == s[i]);
        }
    }
}

/// Law: with something selected, deleting leaves exactly the bytes that are not
/// selected, whatever the number of selections and in whatever order they are.
pub proof fn law_every_selection_is_deleted(s: AppV)
    requires
        s.wf(),
        takes_edits(s),
        disjoint(s.buf().selections),
        s.buf().selections.len() <= usize::MAX,
        exists|i: int|
            0 <= i < s.buf().selections.len() && (#[trigger] s.buf().selections[i]).anchor
                != s.buf().selections[i].head,
    ensures
        ({
            let t = s.buf().text;
            let left = unselected(t, s.buf().selections, 0, t.len() as int);
            &&& s.after(EditorEvent::DeleteSelection).buf().text == left
            &&& s.after(EditorEvent::DeleteLeft).buf().text == left
            &&& s.after(EditorEvent::DeleteRight).buf().text == left
            &&& other_documents_same(s, s.after(EditorEvent::DeleteSelection))
            &&& other_documents_same(s, s.after(EditorEvent::DeleteLeft))
            &&& other_documents_same(s, s.after(EditorEvent::DeleteRight))
        }),
{
    let b = s.buf();
    let t = b.text;
    let order = deletion_order(b.selections);
    let n = order.len() as int;
    lemma_order_leftwards(b);
    lemma_selected_has(b.selections);
    lemma_deleted_leftwards(b, order, n);
    assert(order.take(n) =~= order);
    lemma_unselected_same(t, order, b.selections, 0, t.len() as int);
    let i = choose|i: int|
        0 <= i < b.selections.len() && (#[trigger] b.selections[i]).anchor
            != b.selections[i].head;
    assert(selected(b.selections).contains(b.selections[i]));
    reveal(AppV::selection_deleted);
    reveal(AppV::left_deleted);
    reveal(AppV::right_deleted);
    lemma_delete_left(s);
    lemma_delete_right(s);
    lemma_delete_selection(s);
    lemma_finished(s, s.selection_deleted());
}

} // verus!

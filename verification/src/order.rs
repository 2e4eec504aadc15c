//! Orders: a stable sort by key, and the sorted set of some positions.

use vstd::prelude::*;

verus! {

/// Whether key `a` goes strictly before key `b`.
pub open spec fn goes_before(a: usize, b: usize, descending: bool) -> bool {
    if descending { a > b } else { a < b }
}

/// `order` with `i` put in its place: behind everything that does not have to
/// come after it.
pub open spec fn insert_index(
    order: Seq<usize>,
    keys: Seq<usize>,
    i: usize,
    descending: bool,
) -> Seq<usize>
    decreases order.len(),
{
    if order.len() == 0 {
        seq![i]
    } else if goes_before(keys[i as int], keys[order[0] as int], descending) {
        seq![i] + order
    } else {
        seq![order[0]] + insert_index(order.drop_first(), keys, i, descending)
    }
}

/// The indices of the first `n` keys in the order of a stable sort.
pub open spec fn stable_order(keys: Seq<usize>, n: int, descending: bool) -> Seq<usize>
    decreases n,
{
    if n <= 0 {
        seq![]
    } else {
        insert_index(stable_order(keys, n - 1, descending), keys, (n - 1) as usize, descending)
    }
}

/// `s` in the order of its keys.
pub open spec fn in_order<T>(s: Seq<T>, order: Seq<usize>) -> Seq<T> {
    Seq::new(order.len(), |i: int| s[order[i] as int])
}

/// Putting an index at place `p` is what `insert_index` does, if everything
/// before may stay before and what follows has to come after.
proof fn lemma_insert_index(
    order: Seq<usize>,
    keys: Seq<usize>,
    i: usize,
    descending: bool,
    p: int,
)
    requires
        0 <= p <= order.len(),
        forall|k: int|
            0 <= k < p ==> !goes_before(keys[i as int], keys[#[trigger] order[k] as int], descending),
        p < order.len() ==> goes_before(keys[i as int], keys[order[p] as int], descending),
    ensures
        insert_index(order, keys, i, descending) == order.insert(p, i),
    decreases p,
{
    if p == 0 {
        assert(order.insert(0, i) =~= seq![i] + order);
    } else {
        assert(!goes_before(keys[i as int], keys[order[0] as int], descending));
        lemma_insert_index(order.drop_first(), keys, i, descending, p - 1);
        assert(order.insert(p, i) =~= seq![order[0]] + order.drop_first().insert(p - 1, i));
    }
}

/// Law: a stable order holds every index once, and its keys never go back.
pub proof fn law_stable_order(keys: Seq<usize>, n: int, descending: bool)
    requires
        0 <= n <= keys.len(),
        keys.len() <= usize::MAX,
    ensures
        stable_order(keys, n, descending).len() == n,
        forall|k: int|
            0 <= k < n ==> (#[trigger] stable_order(keys, n, descending)[k]) < n,
        forall|j: int, k: int|
            0 <= j < k < n ==> stable_order(keys, n, descending)[j] != stable_order(
                keys,
                n,
                descending,
            )[k],
        forall|j: int, k: int|
            0 <= j < k < n ==> !goes_before(
                keys[#[trigger] stable_order(keys, n, descending)[k] as int],
                keys[#[trigger] stable_order(keys, n, descending)[j] as int],
                descending,
            ),
    decreases n,
{
    if n > 0 {
        law_stable_order(keys, n - 1, descending);
        let prev = stable_order(keys, n - 1, descending);
        let i = (n - 1) as usize;
        let p = lemma_place(prev, keys, i, descending);
        lemma_insert_index(prev, keys, i, descending, p);
        let next = stable_order(keys, n, descending);
        assert(next == prev.insert(p, i));
        assert forall|j: int, k: int| 0 <= j < k < n implies !goes_before(
            keys[#[trigger] next[k] as int],
            keys[#[trigger] next[j] as int],
            descending,
        ) by {
            let pj = if j < p { j } else { j - 1 };
            let pk = if k < p { k } else { k - 1 };
            if j == p {
                assert(next[k] == prev[k - 1]);
                assert(goes_before(keys[i as int], keys[prev[p] as int], descending));
                if p < k - 1 {
                    assert(!goes_before(
                        keys[prev[k - 1] as int],
                        keys[prev[p] as int],
                        descending,
                    ));
                }
            } else if k == p {
                assert(next[j] == prev[j]);
                assert(!goes_before(keys[i as int], keys[prev[j] as int], descending));
            } else {
                assert(next[j] == prev[pj]);
                assert(next[k] == prev[pk]);
            }
        }
        assert forall|k: int| 0 <= k < n implies (#[trigger] next[k]) < n by {
            if k < p {
                assert(next[k] == prev[k]);
            } else if k > p {
                assert(next[k] == prev[k - 1]);
            }
        }
    }
}

/// The place where an index belongs.
proof fn lemma_place(order: Seq<usize>, keys: Seq<usize>, i: usize, descending: bool) -> (p: int)
    ensures
        0 <= p <= order.len(),
        forall|k: int|
            0 <= k < p ==> !goes_before(keys[i as int], keys[#[trigger] order[k] as int], descending),
        p < order.len() ==> goes_before(keys[i as int], keys[order[p] as int], descending),
    decreases order.len(),
{
    if order.len() == 0 || goes_before(keys[i as int], keys[order[0] as int], descending) {
        0
    } else {
        let rest = order.drop_first();
        let q = lemma_place(rest, keys, i, descending);
        assert forall|k: int| 0 <= k < q + 1 implies !goes_before(
            keys[i as int],
            keys[#[trigger] order[k] as int],
            descending,
        ) by {
            if k > 0 {
                assert(order[k] == rest[k - 1]);
            }
        }
        q + 1
    }
}

fn precedes(a: usize, b: usize, descending: bool) -> (r: bool)
    ensures
        r == goes_before(a, b, descending),
{
    if descending {
        a > b
    } else {
        a < b
    }
}

/// The indices of `keys` in the order of a stable sort.
pub fn sorted_indices(keys: &Vec<usize>, descending: bool) -> (r: Vec<usize>)
    ensures
        r@ == stable_order(keys@, keys@.len() as int, descending),
        r.len() == keys.len(),
        forall|k: int| 0 <= k < r.len() ==> (#[trigger] r@[k]) < keys.len(),
{
    let mut order: Vec<usize> = Vec::new();
    let mut i: usize = 0;
    while i < keys.len()
        invariant
            i <= keys.len(),
            order@ == stable_order(keys@, i as int, descending),
        decreases keys.len() - i,
    {
        proof {
            law_stable_order(keys@, i as int, descending);
        }
        let key: usize = keys[i];
        let mut p: usize = 0;
        while p < order.len() && !precedes(key, keys[order[p]], descending)
            invariant
                p <= order.len(),
                i < keys.len(),
                key == keys@[i as int],
                forall|k: int| 0 <= k < order.len() ==> (#[trigger] order@[k]) < i,
                forall|k: int|
                    0 <= k < p ==> !goes_before(
                        key,
                        keys@[#[trigger] order@[k] as int],
                        descending,
                    ),
            decreases order.len() - p,
        {
            p += 1;
        }
        proof {
            lemma_insert_index(order@, keys@, i, descending, p as int);
        }
        order.insert(p, i);
        i += 1;
    }
    proof {
        law_stable_order(keys@, keys@.len() as int, descending);
    }
    order
}

/// `set` with `x` put in its place, unless it is there already.
pub open spec fn insert_unique(set: Seq<usize>, x: usize) -> Seq<usize>
    decreases set.len(),
{
    if set.len() == 0 {
        seq![x]
    } else if x < set[0] {
        seq![x] + set
    } else if x == set[0] {
        set
    } else {
        seq![set[0]] + insert_unique(set.drop_first(), x)
    }
}

/// The values of `s`, each once, in increasing order.
pub open spec fn sorted_set(s: Seq<usize>) -> Seq<usize>
    decreases s.len(),
{
    if s.len() == 0 {
        seq![]
    } else {
        insert_unique(sorted_set(s.drop_last()), s.last())
    }
}

/// Each value is larger than the one before it.
pub open spec fn increasing(s: Seq<usize>) -> bool {
    forall|i: int, j: int| 0 <= i < j < s.len() ==> s[i] < s[j]
}

proof fn lemma_insert_unique(set: Seq<usize>, x: usize, p: int)
    requires
        increasing(set),
        0 <= p <= set.len(),
        forall|k: int| 0 <= k < p ==> #[trigger] set[k] < x,
        p < set.len() ==> set[p] >= x,
    ensures
        p < set.len() && set[p] == x ==> insert_unique(set, x) == set,
        !(p < set.len() && set[p] == x) ==> insert_unique(set, x) == set.insert(p, x),
    decreases p,
{
    if p == 0 {
        assert(set.insert(0, x) =~= seq![x] + set);
    } else {
        let rest = set.drop_first();
        assert(set[0] < x);
        lemma_insert_unique(rest, x, p - 1);
        assert(set.insert(p, x) =~= seq![set[0]] + rest.insert(p - 1, x));
        assert(set =~= seq![set[0]] + rest);
    }
}

proof fn lemma_unique_place(set: Seq<usize>, x: usize) -> (p: int)
    ensures
        0 <= p <= set.len(),
        forall|k: int| 0 <= k < p ==> #[trigger] set[k] < x,
        p < set.len() ==> set[p] >= x,
    decreases set.len(),
{
    if set.len() == 0 || set[0] >= x {
        0
    } else {
        let q = lemma_unique_place(set.drop_first(), x);
        assert forall|k: int| 0 <= k < q + 1 implies #[trigger] set[k] < x by {
            if k > 0 {
                assert(set[k] == set.drop_first()[k - 1]);
            }
        }
        q + 1
    }
}

/// Law: the sorted set of some values is increasing and holds exactly them.
pub proof fn law_sorted_set(s: Seq<usize>)
    ensures
        increasing(sorted_set(s)),
        forall|x: usize| sorted_set(s).contains(x) <==> s.contains(x),
        sorted_set(s).len() <= s.len(),
        s.len() > 0 ==> sorted_set(s).len() > 0,
    decreases s.len(),
{
    if s.len() > 0 {
        let prev = sorted_set(s.drop_last());
        let x = s.last();
        law_sorted_set(s.drop_last());
        let p = lemma_unique_place(prev, x);
        lemma_insert_unique(prev, x, p);
        let next = sorted_set(s);
        assert(s =~= s.drop_last().push(x));
        assert(s.contains(x)) by {
            assert(s[s.len() - 1] == x);
        }
        assert forall|y: usize| next.contains(y) <==> s.contains(y) by {
            if next.contains(y) {
                let k = choose|k: int| 0 <= k < next.len() && next[k] == y;
                if next == prev {
                    assert(s.drop_last().contains(y));
                    let m = choose|m: int| 0 <= m < s.drop_last().len() && s.drop_last()[m] == y;
                    assert(s[m] == y);
                } else if k != p {
                    let q = if k < p { k } else { k - 1 };
                    assert(prev[q] == y);
                    assert(s.drop_last().contains(y));
                    let m = choose|m: int| 0 <= m < s.drop_last().len() && s.drop_last()[m] == y;
                    assert(s[m] == y);
                }
            }
            if s.contains(y) {
                if y == x {
                    assert(next[p] == y);
                } else {
                    let m = choose|m: int| 0 <= m < s.len() && s[m] == y;
                    assert(s.drop_last()[m] == y);
                    assert(s.drop_last().contains(y));
                    assert(prev.contains(y));
                    let q = choose|q: int| 0 <= q < prev.len() && prev[q] == y;
                    if next != prev {
                        assert(next[if q < p { q } else { q + 1 }] == y);
                    }
                }
            }
        }
    }
}

/// The values of `s`, each once, in increasing order.
pub fn sorted_unique(s: &Vec<usize>) -> (r: Vec<usize>)
    ensures
        r@ == sorted_set(s@),
        increasing(r@),
        forall|x: usize| r@.contains(x) <==> s@.contains(x),
        r.len() <= s.len(),
{
    let mut set: Vec<usize> = Vec::new();
    let mut i: usize = 0;
    assert(s@.take(0) =~= seq![]);
    while i < s.len()
        invariant
            i <= s.len(),
            set@ == sorted_set(s@.take(i as int)),
        decreases s.len() - i,
    {
        proof {
            law_sorted_set(s@.take(i as int));
            assert(s@.take(i + 1).drop_last() =~= s@.take(i as int));
        }
        let x: usize = s[i];
        let mut p: usize = 0;
        while p < set.len() && set[p] < x
            invariant
                p <= set.len(),
                forall|k: int| 0 <= k < p ==> #[trigger] set@[k] < x,
            decreases set.len() - p,
        {
            p += 1;
        }
        proof {
            lemma_insert_unique(set@, x, p as int);
        }
        if p == set.len() || set[p] != x {
            set.insert(p, x);
        }
        i += 1;
    }
    assert(s@.take(i as int) =~= s@);
    proof {
        law_sorted_set(s@);
    }
    set
}

} // verus!

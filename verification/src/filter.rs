//! Narrowing a list of names down to those that hold what was typed.

use vstd::prelude::*;

use crate::panels::{texts, Symbol, SymbolsV};
use crate::state::{AppV, EditorApp};
use crate::text::chars_of;

verus! {

/// A text in lower case, as the Unicode tables have it.
pub uninterp spec fn lowercase_of(text: Seq<char>) -> Seq<char>;

/// `str::to_lowercase` of std: a function of the text alone.
#[verifier::external_body]
pub(crate) fn lowercase(text: &str) -> (r: String)
    ensures
        r@ == lowercase_of(text@),
{
    text.to_lowercase()
}

/// `needle` stands in `hay` at `at`.
pub open spec fn stands_at(hay: Seq<char>, needle: Seq<char>, at: int) -> bool {
    0 <= at && at + needle.len() <= hay.len() && hay.subrange(at, at + needle.len()) == needle
}

/// `needle` stands somewhere in `hay`.
pub open spec fn occurs_in(hay: Seq<char>, needle: Seq<char>) -> bool {
    exists|at: int| stands_at(hay, needle, at)
}

fn check_at(hay: &Vec<char>, needle: &Vec<char>, at: usize) -> (r: bool)
    requires
        at + needle.len() <= hay.len(),
    ensures
        r == stands_at(hay@, needle@, at as int),
{
    let mut k: usize = 0;
    let ghost part = hay@.subrange(at as int, at + needle.len());
    while k < needle.len()
        invariant
            k <= needle.len(),
            at + needle.len() <= hay.len(),
            part == hay@.subrange(at as int, at + needle.len()),
            forall|j: int| 0 <= j < k ==> part[j] == needle@[j],
        decreases needle.len() - k,
    {
        assert(part[k as int] == hay@[at + k]);
        if hay[at + k] != needle[k] {
            return false;
        }
        k += 1;
    }
    assert(part =~= needle@);
    true
}

/// Whether `needle` stands in `hay`.
pub fn contains_text(hay: &str, needle: &str) -> (r: bool)
    ensures
        r == occurs_in(hay@, needle@),
{
    let h: Vec<char> = chars_of(hay);
    let n: Vec<char> = chars_of(needle);
    if n.len() > h.len() {
        return false;
    }
    let last: usize = h.len() - n.len();
    let mut at: usize = 0;
    loop
        invariant
            h@ == hay@,
            n@ == needle@,
            n.len() <= h.len(),
            last == h.len() - n.len(),
            at <= last,
            forall|k: int| 0 <= k < at ==> !stands_at(hay@, needle@, k),
        decreases last - at,
    {
        if check_at(&h, &n, at) {
            assert(stands_at(hay@, needle@, at as int));
            return true;
        }
        if at == last {
            assert forall|k: int| !stands_at(hay@, needle@, k) by {
                if 0 <= k <= last {
                }
            }
            return false;
        }
        at += 1;
    }
}

/// The rows of the first `n` names that hold `query`.
pub open spec fn rows_with(names: Seq<Seq<char>>, query: Seq<char>, n: int) -> Seq<usize>
    decreases n,
{
    if n <= 0 {
        seq![]
    } else if occurs_in(names[n - 1], query) {
        rows_with(names, query, n - 1).push((n - 1) as usize)
    } else {
        rows_with(names, query, n - 1)
    }
}

/// Law: the rows that are left are in their order, and exactly those whose name
/// holds the query.
pub proof fn law_rows_are_those_that_match(names: Seq<Seq<char>>, query: Seq<char>, n: int)
    requires
        0 <= n <= names.len() <= usize::MAX,
    ensures
        forall|i: int, j: int|
            0 <= i < j < rows_with(names, query, n).len() ==> rows_with(names, query, n)[i]
                < rows_with(names, query, n)[j],
        forall|i: int|
            0 <= i < n ==> (rows_with(names, query, n).contains(i as usize) <==> occurs_in(
                #[trigger] names[i],
                query,
            )),
        forall|i: int|
            0 <= i < rows_with(names, query, n).len() ==> (#[trigger] rows_with(names, query, n)[i])
                < n,
    decreases n,
{
    if n > 0 {
        law_rows_are_those_that_match(names, query, n - 1);
        let before = rows_with(names, query, n - 1);
        let after = rows_with(names, query, n);
        assert forall|i: int| 0 <= i < n implies (after.contains(i as usize) <==> occurs_in(
            #[trigger] names[i],
            query,
        )) by {
            if occurs_in(names[n - 1], query) {
                assert(after[before.len() as int] == (n - 1) as usize);
                if i < n - 1 {
                    if before.contains(i as usize) {
                        let k = choose|k: int| 0 <= k < before.len() && before[k] == i as usize;
                        assert(after[k] == i as usize);
                    }
                    if after.contains(i as usize) {
                        let k = choose|k: int| 0 <= k < after.len() && after[k] == i as usize;
                        assert(before[k] == i as usize);
                    }
                }
            } else if i == n - 1 && before.contains(i as usize) {
                let k = choose|k: int| 0 <= k < before.len() && before[k] == i as usize;
                assert(before[k] < n - 1);
            }
        }
    }
}

/// The names in lower case.
pub open spec fn lowered_names(items: Seq<Symbol>) -> Seq<Seq<char>> {
    Seq::new(items.len(), |i: int| lowercase_of(items[i].name@))
}

/// The rows of the names that hold `query`.
pub fn filter_rows(names: &Vec<String>, query: &str) -> (r: Vec<usize>)
    ensures
        r@ == rows_with(texts(names@), query@, names.len() as int),
{
    let ghost views = texts(names@);
    let mut out: Vec<usize> = Vec::new();
    let mut i: usize = 0;
    assert(out@ =~= seq![]);
    while i < names.len()
        invariant
            i <= names.len(),
            views == texts(names@),
            out@ == rows_with(views, query@, i as int),
        decreases names.len() - i,
    {
        assert(views[i as int] == names@[i as int]@);
        if contains_text(names[i].as_str(), query) {
            out.push(i);
        }
        i += 1;
    }
    out
}

fn lower_names(items: &Vec<Symbol>) -> (r: Vec<String>)
    ensures
        texts(r@) == lowered_names(items@),
        r.len() == items.len(),
{
    let mut out: Vec<String> = Vec::new();
    let mut i: usize = 0;
    while i < items.len()
        invariant
            i <= items.len(),
            out.len() == i,
            forall|k: int| 0 <= k < i ==> (#[trigger] out[k])@ == lowercase_of(items[k].name@),
        decreases items.len() - i,
    {
        out.push(lowercase(items[i].name.as_str()));
        i += 1;
    }
    assert(texts(out@) =~= lowered_names(items@));
    out
}

impl AppV {
    /// The symbols whose name holds the query, upper and lower case the same.
    pub open spec fn symbol_query(self, query: Seq<char>) -> AppV {
        let p = self.panels.symbols;
        self.with_symbols(
            SymbolsV {
                query,
                filtered: rows_with(
                    lowered_names(p.items),
                    lowercase_of(query),
                    p.items.len() as int,
                ),
                selected: 0,
                ..p
            },
        )
    }
}

impl EditorApp {
    /// Look for symbols whose name holds `query`.
    pub fn set_symbol_query(&mut self, query: String)
        requires
            old(self)@.wf(),
        ensures
            final(self)@ == old(self)@.symbol_query(query@),
            final(self)@.wf(),
    {
        let wanted: String = lowercase(query.as_str());
        let names: Vec<String> = lower_names(&self.panels().symbol_picker.items);
        let rows: Vec<usize> = filter_rows(&names, wanted.as_str());
        let picker = &mut self.panels_mut().symbol_picker;
        picker.query = query;
        picker.filtered = rows;
        picker.selected = 0;
    }
}

} // verus!

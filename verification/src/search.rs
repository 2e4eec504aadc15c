//! The state of find and replace: the queries, the matches and the current
//! one. Finding the matches is the caller's part.

use vstd::prelude::*;

use crate::buffer::opt_text;

verus! {

/// Find and replace in the active document.
#[derive(Debug)]
pub struct Search {
    pub query: String,
    pub replace_query: String,
    /// Byte ranges of the matches, from left to right.
    pub matches: Vec<(usize, usize)>,
    /// Index of the current match.
    pub current: Option<usize>,
    pub bar_open: bool,
    pub replace_bar_open: bool,
    pub regex_mode: bool,
    pub case_sensitive: bool,
    pub whole_word: bool,
    /// The search began backwards: the last match comes first.
    pub backward: bool,
    /// Only matches inside this range count.
    pub selection_range: Option<(usize, usize)>,
    /// Why the query is no regular expression.
    pub regex_error: Option<String>,
}

/// The matches that lie inside a range, if there is one.
pub open spec fn matches_in(m: Seq<(usize, usize)>, range: Option<(usize, usize)>) -> Seq<
    (usize, usize),
>
    decreases m.len(),
{
    match range {
        None => m,
        Some(r) => if m.len() == 0 {
            m
        } else if r.0 <= m.last().0 && m.last().1 <= r.1 {
            matches_in(m.drop_last(), range).push(m.last())
        } else {
            matches_in(m.drop_last(), range)
        },
    }
}

/// The match that becomes current when the matches are new.
pub open spec fn first_current(count: nat, backward: bool) -> Option<usize> {
    if count == 0 {
        None
    } else if backward {
        Some((count - 1) as usize)
    } else {
        Some(0)
    }
}

/// The first of the matches that starts behind `pos`; around the end, the
/// first of all.
pub open spec fn index_after(m: Seq<(usize, usize)>, pos: int, from: int) -> Option<usize>
    decreases m.len() - from,
{
    if m.len() == 0 {
        None
    } else if from >= m.len() {
        Some(0)
    } else if from >= 0 && m[from].0 > pos {
        Some(from as usize)
    } else {
        index_after(m, pos, from + 1)
    }
}

/// The last of the first `n` matches that starts before `pos`; around the
/// start, the last of all.
pub open spec fn index_before(m: Seq<(usize, usize)>, pos: int, n: int) -> Option<usize>
    decreases n,
{
    if m.len() == 0 {
        None
    } else if n <= 0 {
        Some((m.len() - 1) as usize)
    } else if m[n - 1].0 < pos {
        Some((n - 1) as usize)
    } else {
        index_before(m, pos, n - 1)
    }
}

/// Each match starts behind the one before it.
pub open spec fn in_order(m: Seq<(usize, usize)>) -> bool {
    forall|i: int, j: int| 0 <= i < j < m.len() ==> (#[trigger] m[i]).0 < (#[trigger] m[j]).0
}

proof fn lemma_index_after(m: Seq<(usize, usize)>, i: int, from: int)
    requires
        in_order(m),
        0 <= i < m.len() <= usize::MAX,
        0 <= from <= i + 1,
    ensures
        index_after(m, m[i].0 as int, from) == Some(
            (if i + 1 < m.len() { i + 1 } else { 0 }) as usize,
        ),
    decreases i + 1 - from,
{
    if from <= i {
        assert(m[from].0 <= m[i].0);
        lemma_index_after(m, i, from + 1);
    } else if i + 1 < m.len() {
        assert(m[i].0 < m[i + 1].0);
    }
}

proof fn lemma_index_before(m: Seq<(usize, usize)>, i: int, n: int)
    requires
        in_order(m),
        0 <= i < m.len() <= usize::MAX,
        i <= n <= m.len(),
    ensures
        index_before(m, m[i].0 as int, n) == Some(
            (if i > 0 { i - 1 } else { m.len() - 1 }) as usize,
        ),
    decreases n,
{
    if n > i {
        assert(m[i].0 <= m[n - 1].0);
        lemma_index_before(m, i, n - 1);
    } else if i > 0 {
        assert(m[i - 1].0 < m[i].0);
    }
}

/// Law: from the start of a match the search goes to the next one and, the
/// other way, to the one before; behind the last comes the first, and before
/// the first the last.
pub proof fn law_matches_in_turn(s: SearchV, i: int)
    requires
        in_order(s.matches),
        0 <= i < s.matches.len() <= usize::MAX,
    ensures
        s.moved_after(s.matches[i].0 as int).current == Some(
            (if i + 1 < s.matches.len() { i + 1 } else { 0 }) as usize,
        ),
        s.moved_before(s.matches[i].0 as int).current == Some(
            (if i > 0 { i - 1 } else { s.matches.len() - 1 }) as usize,
        ),
{
    lemma_index_after(s.matches, i, 0);
    lemma_index_before(s.matches, i, s.matches.len() as int);
}

/// Where the match with an index starts.
pub open spec fn start_of(m: Seq<(usize, usize)>, i: Option<usize>) -> Option<usize> {
    match i {
        Some(k) => if k < m.len() { Some(m[k as int].0) } else { None },
        None => None,
    }
}

/// What a search holds.
#[verifier::ext_equal]
pub struct SearchV {
    pub query: Seq<char>,
    pub replace_query: Seq<char>,
    pub matches: Seq<(usize, usize)>,
    pub current: Option<usize>,
    pub bar_open: bool,
    pub replace_bar_open: bool,
    pub regex_mode: bool,
    pub case_sensitive: bool,
    pub whole_word: bool,
    pub backward: bool,
    pub selection_range: Option<(usize, usize)>,
    pub regex_error: Option<Seq<char>>,
}

impl View for Search {
    type V = SearchV;

    open spec fn view(&self) -> SearchV {
        SearchV {
            query: self.query@,
            replace_query: self.replace_query@,
            matches: self.matches@,
            current: self.current,
            bar_open: self.bar_open,
            replace_bar_open: self.replace_bar_open,
            regex_mode: self.regex_mode,
            case_sensitive: self.case_sensitive,
            whole_word: self.whole_word,
            backward: self.backward,
            selection_range: self.selection_range,
            regex_error: opt_text(self.regex_error),
        }
    }
}

pub open spec fn empty_search() -> SearchV {
    SearchV {
        query: seq![],
        replace_query: seq![],
        matches: seq![],
        current: None,
        bar_open: false,
        replace_bar_open: false,
        regex_mode: false,
        case_sensitive: false,
        whole_word: false,
        backward: false,
        selection_range: None,
        regex_error: None,
    }
}

impl SearchV {
    /// New matches taken over.
    pub open spec fn with_matches(
        self,
        found: Seq<(usize, usize)>,
        error: Option<Seq<char>>,
    ) -> SearchV {
        let matches = matches_in(found, self.selection_range);
        SearchV {
            matches,
            current: first_current(matches.len(), self.backward),
            regex_error: error,
            ..self
        }
    }

    /// The next match behind `pos` made current.
    pub open spec fn moved_after(self, pos: int) -> SearchV {
        if self.matches.len() == 0 {
            self
        } else {
            SearchV { current: index_after(self.matches, pos, 0), ..self }
        }
    }

    /// The last match before `pos` made current.
    pub open spec fn moved_before(self, pos: int) -> SearchV {
        if self.matches.len() == 0 {
            self
        } else {
            SearchV {
                current: index_before(self.matches, pos, self.matches.len() as int),
                ..self
            }
        }
    }

    /// Where the current match starts.
    pub open spec fn current_start(self) -> Option<usize> {
        start_of(self.matches, self.current)
    }
}

impl Search {
    /// A search for nothing.
    pub fn new() -> (r: Search)
        ensures
            r@ == empty_search(),
    {
        let r = Search {
            query: String::new(),
            replace_query: String::new(),
            matches: Vec::new(),
            current: None,
            bar_open: false,
            replace_bar_open: false,
            regex_mode: false,
            case_sensitive: false,
            whole_word: false,
            backward: false,
            selection_range: None,
            regex_error: None,
        };
        assert(r@ =~= empty_search());
        r
    }

    /// Where the current match starts.
    pub fn current_match(&self) -> (r: Option<usize>)
        ensures
            r == self@.current_start(),
    {
        match self.current {
            Some(i) => {
                if i < self.matches.len() {
                    Some(self.matches[i].0)
                } else {
                    None
                }
            },
            None => None,
        }
    }

    /// Take over new matches, those outside the searched range left out. The
    /// first of them becomes current, backwards the last.
    pub fn set_matches(&mut self, found: &Vec<(usize, usize)>, error: Option<String>)
        ensures
            final(self)@ == old(self)@.with_matches(found@, opt_text(error)),
    {
        let range: Option<(usize, usize)> = self.selection_range;
        let mut kept: Vec<(usize, usize)> = Vec::new();
        let mut i: usize = 0;
        assert(found@.take(0) =~= seq![]);
        while i < found.len()
            invariant
                i <= found.len(),
                kept@ == matches_in(found@.take(i as int), range),
            decreases found.len() - i,
        {
            let m: (usize, usize) = found[i];
            assert(found@.take(i + 1).drop_last() =~= found@.take(i as int));
            let inside: bool = match range {
                Some(r) => r.0 <= m.0 && m.1 <= r.1,
                None => true,
            };
            if inside {
                kept.push(m);
                assert(range is None ==> kept@ =~= found@.take(i + 1));
            }
            i += 1;
        }
        assert(found@.take(i as int) =~= found@);
        let count: usize = kept.len();
        self.current = if count == 0 {
            None
        } else if self.backward {
            Some(count - 1)
        } else {
            Some(0)
        };
        self.matches = kept;
        self.regex_error = error;
    }

    /// Make the next match behind `pos` current and say where it starts.
    pub fn next_after(&mut self, pos: usize) -> (r: Option<usize>)
        ensures
            final(self)@ == old(self)@.moved_after(pos as int),
            r is None <==> old(self)@.matches.len() == 0,
            r == (if old(self)@.matches.len() == 0 {
                None
            } else {
                final(self)@.current_start()
            }),
    {
        let n: usize = self.matches.len();
        if n == 0 {
            return None;
        }
        let mut i: usize = 0;
        while i < n && self.matches[i].0 <= pos
            invariant
                i <= n == self.matches@.len(),
                index_after(self.matches@, pos as int, i as int) == index_after(
                    self.matches@,
                    pos as int,
                    0,
                ),
            decreases n - i,
        {
            i += 1;
        }
        let k: usize = if i < n { i } else { 0 };
        self.current = Some(k);
        Some(self.matches[k].0)
    }

    /// Make the last match before `pos` current and say where it starts.
    pub fn prev_before(&mut self, pos: usize) -> (r: Option<usize>)
        ensures
            final(self)@ == old(self)@.moved_before(pos as int),
            r is None <==> old(self)@.matches.len() == 0,
            r == (if old(self)@.matches.len() == 0 {
                None
            } else {
                final(self)@.current_start()
            }),
    {
        let n: usize = self.matches.len();
        if n == 0 {
            return None;
        }
        let mut i: usize = n;
        while i > 0 && self.matches[i - 1].0 >= pos
            invariant
                i <= n == self.matches@.len(),
                index_before(self.matches@, pos as int, i as int) == index_before(
                    self.matches@,
                    pos as int,
                    n as int,
                ),
            decreases i,
        {
            i -= 1;
        }
        let k: usize = if i > 0 { i - 1 } else { n - 1 };
        self.current = Some(k);
        Some(self.matches[k].0)
    }
}

} // verus!

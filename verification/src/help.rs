//! The list of keyboard shortcuts.

use vstd::prelude::*;

use crate::panels::Command;
use crate::text::{chars_of, string_of};

verus! {

/// A row of the list: keys, and what they do.
#[derive(Debug)]
pub struct HelpRow {
    pub keys: String,
    pub action: String,
}

#[verifier::ext_equal]
pub struct HelpV {
    pub keys: Seq<char>,
    pub action: Seq<char>,
}

impl View for HelpRow {
    type V = HelpV;

    open spec fn view(&self) -> HelpV {
        HelpV { keys: self.keys@, action: self.action@ }
    }
}

pub open spec fn help_view(rows: Seq<HelpRow>) -> Seq<HelpV> {
    Seq::new(rows.len(), |i: int| rows[i]@)
}

// ----- key names -----

/// `s` with every `from` replaced by `to`, from left to right.
pub open spec fn swapped(s: Seq<char>, from: Seq<char>, to: Seq<char>) -> Seq<char>
    decreases s.len(),
{
    if from.len() == 0 || s.len() < from.len() {
        s
    } else if s.take(from.len() as int) == from {
        to + swapped(s.skip(from.len() as int), from, to)
    } else {
        seq![s[0]] + swapped(s.skip(1), from, to)
    }
}

fn starts_at(s: &Vec<char>, at: usize, part: &Vec<char>) -> (r: bool)
    requires
        at + part.len() <= s.len(),
    ensures
        r == (s@.skip(at as int).take(part.len() as int) == part@),
{
    let ghost here = s@.skip(at as int).take(part.len() as int);
    let mut k: usize = 0;
    while k < part.len()
        invariant
            k <= part.len(),
            at + part.len() <= s.len(),
            here == s@.skip(at as int).take(part.len() as int),
            forall|j: int| 0 <= j < k ==> here[j] == part@[j],
        decreases part.len() - k,
    {
        assert(here[k as int] == s@[at + k]);
        if s[at + k] != part[k] {
            return false;
        }
        k += 1;
    }
    assert(here =~= part@);
    true
}

/// Replace every `from` by `to`.
pub fn swap_text(text: &str, from: &str, to: &str) -> (r: String)
    ensures
        r@ == swapped(text@, from@, to@),
{
    let s: Vec<char> = chars_of(text);
    let f: Vec<char> = chars_of(from);
    if f.len() == 0 {
        return text.to_owned();
    }
    let mut out: String = String::new();
    let mut i: usize = 0;
    assert(s@.skip(0) =~= s@);
    assert(out@ + swapped(s@, from@, to@) =~= swapped(s@, from@, to@));
    while f.len() <= s.len() - i
        invariant
            i <= s.len(),
            f.len() > 0,
            s@ == text@,
            f@ == from@,
            swapped(text@, from@, to@) == out@ + swapped(s@.skip(i as int), from@, to@),
        decreases s.len() - i,
    {
        let ghost rest = s@.skip(i as int);
        let ghost before = out@;
        if starts_at(&s, i, &f) {
            out.append(to);
            assert(rest.skip(f.len() as int) =~= s@.skip(i + f.len()));
            assert(before + (to@ + swapped(rest.skip(f.len() as int), from@, to@)) =~= (before
                + to@) + swapped(rest.skip(f.len() as int), from@, to@));
            i += f.len();
        } else {
            out.push(s[i]);
            assert(rest[0] == s@[i as int]);
            assert(rest.skip(1) =~= s@.skip(i + 1));
            assert(before + (seq![rest[0]] + swapped(rest.skip(1), from@, to@)) =~= before.push(
                s@[i as int],
            ) + swapped(rest.skip(1), from@, to@));
            i += 1;
        }
    }
    let tail: String = string_of(&s, i, s.len());
    assert(tail@ =~= s@.skip(i as int));
    out.append(tail.as_str());
    out
}

/// Keys as they are named on a Mac.
pub open spec fn mac_keys(keys: Seq<char>) -> Seq<char> {
    swapped(swapped(keys, "Ctrl+"@, "Cmd+"@), "Alt+"@, "Opt+"@)
}

fn mac_keys_of(keys: &str) -> (r: String)
    ensures
        r@ == mac_keys(keys@),
{
    swap_text(swap_text(keys, "Ctrl+", "Cmd+").as_str(), "Alt+", "Opt+")
}

// ----- the rows -----

pub open spec fn row(keys: Seq<char>, action: Seq<char>) -> HelpV {
    HelpV { keys, action }
}

/// The shortcuts that no command of the palette stands for.
pub open spec fn fixed_rows(mac: bool) -> Seq<HelpV> {
    if mac {
        seq![
            row("Cmd+← / Cmd+→"@, "Line start / end"@),
            row("Cmd+↑ / Cmd+↓"@, "Document start / end"@),
            row("Opt+← / Opt+→"@, "Word left / right"@),
            row("Opt+Delete"@, "Delete word right"@),
            row("Opt+Backspace"@, "Delete word left"@),
            row("↑ / ↓ / ← / →"@, "Move cursor"@),
            row("Shift + arrows"@, "Select text"@),
            row("PageUp / PageDown"@, "Page up / down"@),
            row("Cmd+D"@, "Select next occurrence"@),
            row("Cmd+A"@, "Select all"@),
            row("Opt+Click"@, "Add cursor at click"@),
            row("Shift+Cmd+D"@, "Duplicate line"@),
            row("Cmd+K"@, "Hover documentation"@),
            row("F2"@, "Rename symbol"@),
            row("F12"@, "Go to definition"@),
            row("( ) [ ] { } \" '"@, "Auto-pair brackets/quotes"@),
            row("Enter after {"@, "Auto-indent"@),
            row("Home"@, "Smart Home (toggle col 0 / first non-WS)"@),
            row("Cmd+/"@, "Toggle comment"@),
        ]
    } else {
        seq![
            row("Home / End"@, "Line start / end"@),
            row("Ctrl+Home / Ctrl+End"@, "Document start / end"@),
            row("Ctrl+← / Ctrl+→"@, "Word left / right"@),
            row("Ctrl+Delete"@, "Delete word right"@),
            row("Ctrl+Backspace"@, "Delete word left"@),
            row("↑ / ↓ / ← / →"@, "Move cursor"@),
            row("Shift + arrows"@, "Select text"@),
            row("PageUp / PageDown"@, "Page up / down"@),
            row("Ctrl+D"@, "Select next occurrence"@),
            row("Ctrl+A"@, "Select all"@),
            row("Alt+Click"@, "Add cursor at click"@),
            row("Shift+Ctrl+D"@, "Duplicate line"@),
            row("Ctrl+K"@, "Hover documentation"@),
            row("F2"@, "Rename symbol"@),
            row("F12"@, "Go to definition"@),
            row("( ) [ ] { } \" '"@, "Auto-pair brackets/quotes"@),
            row("Enter after {"@, "Auto-indent"@),
            row("Home"@, "Smart Home (toggle col 0 / first non-WS)"@),
            row("Ctrl+/"@, "Toggle comment"@),
        ]
    }
}

/// The rows of the first `n` commands that have keys.
pub open spec fn command_rows(commands: Seq<Command>, mac: bool, n: int) -> Seq<HelpV>
    decreases n,
{
    if n <= 0 {
        seq![]
    } else {
        let c = commands[n - 1];
        if c.keybinding@.len() == 0 {
            command_rows(commands, mac, n - 1)
        } else {
            command_rows(commands, mac, n - 1).push(
                row(if mac { mac_keys(c.keybinding@) } else { c.keybinding@ }, c.label@),
            )
        }
    }
}

/// One text stands before another in the alphabet of character codes.
pub open spec fn text_less(a: Seq<char>, b: Seq<char>) -> bool
    decreases a.len(),
{
    if b.len() == 0 {
        false
    } else if a.len() == 0 {
        true
    } else if a[0] != b[0] {
        a[0] < b[0]
    } else {
        text_less(a.skip(1), b.skip(1))
    }
}

/// A row put in its place among rows that are in order, behind those with the
/// same action.
pub open spec fn put_in(rows: Seq<HelpV>, new: HelpV) -> Seq<HelpV>
    decreases rows.len(),
{
    if rows.len() == 0 || !text_less(new.action, rows.last().action) {
        rows.push(new)
    } else {
        put_in(rows.drop_last(), new).push(rows.last())
    }
}

/// The first `n` rows in the order of their actions.
pub open spec fn by_action(rows: Seq<HelpV>, n: int) -> Seq<HelpV>
    decreases n,
{
    if n <= 0 {
        seq![]
    } else {
        put_in(by_action(rows, n - 1), rows[n - 1])
    }
}

/// All shortcuts, in the order of what they do.
pub open spec fn help_spec(commands: Seq<Command>, mac: bool) -> Seq<HelpV> {
    let rows = fixed_rows(mac) + command_rows(commands, mac, commands.len() as int);
    by_action(rows, rows.len() as int)
}

proof fn lemma_less_not_both(a: Seq<char>, b: Seq<char>)
    ensures
        !(text_less(a, b) && text_less(b, a)),
    decreases a.len(),
{
    if a.len() > 0 && b.len() > 0 && a[0] == b[0] {
        lemma_less_not_both(a.skip(1), b.skip(1));
    }
}

proof fn lemma_less_chain(a: Seq<char>, b: Seq<char>, c: Seq<char>)
    requires
        !text_less(b, a),
        !text_less(c, b),
    ensures
        !text_less(c, a),
    decreases a.len(),
{
    if a.len() > 0 && b.len() > 0 && c.len() > 0 && a[0] == b[0] && b[0] == c[0] {
        lemma_less_chain(a.skip(1), b.skip(1), c.skip(1));
    }
}

/// No row stands behind one whose action comes later.
pub open spec fn in_action_order(rows: Seq<HelpV>) -> bool {
    forall|i: int, j: int|
        0 <= i < j < rows.len() ==> !text_less(
            (#[trigger] rows[j]).action,
            (#[trigger] rows[i]).action,
        )
}

proof fn lemma_put_in(rows: Seq<HelpV>, new: HelpV)
    requires
        in_action_order(rows),
    ensures
        in_action_order(put_in(rows, new)),
        put_in(rows, new).to_multiset() == rows.to_multiset().insert(new),
        put_in(rows, new).len() == rows.len() + 1,
        forall|i: int|
            0 <= i < put_in(rows, new).len() ==> (#[trigger] put_in(rows, new)[i]) == new
                || rows.contains(put_in(rows, new)[i]),
    decreases rows.len(),
{
    broadcast use vstd::seq_lib::group_to_multiset_ensures;

    let out = put_in(rows, new);
    if rows.len() == 0 || !text_less(new.action, rows.last().action) {
        assert forall|i: int, j: int| 0 <= i < j < out.len() implies !text_less(
            (#[trigger] out[j]).action,
            (#[trigger] out[i]).action,
        ) by {
            if j == rows.len() {
                assert(out[i] == rows[i]);
                if i < rows.len() - 1 {
                    assert(!text_less(rows[rows.len() - 1].action, rows[i].action));
                    lemma_less_chain(rows[i].action, rows.last().action, new.action);
                }
            } else {
                assert(out[i] == rows[i] && out[j] == rows[j]);
            }
        }
    } else {
        let front = rows.drop_last();
        assert(in_action_order(front)) by {
            assert forall|i: int, j: int| 0 <= i < j < front.len() implies !text_less(
                (#[trigger] front[j]).action,
                (#[trigger] front[i]).action,
            ) by {
                assert(front[i] == rows[i] && front[j] == rows[j]);
            }
        }
        lemma_put_in(front, new);
        let inner = put_in(front, new);
        assert forall|i: int, j: int| 0 <= i < j < out.len() implies !text_less(
            (#[trigger] out[j]).action,
            (#[trigger] out[i]).action,
        ) by {
            if j == inner.len() {
                assert(out[i] == inner[i]);
                if inner[i] == new {
                    lemma_less_not_both(new.action, rows.last().action);
                } else {
                    assert(front.contains(inner[i]));
                    let k = choose|k: int| 0 <= k < front.len() && front[k] == inner[i];
                    assert(rows[k] == front[k]);
                    assert(!text_less(rows[rows.len() - 1].action, rows[k].action));
                }
            } else {
                assert(out[i] == inner[i] && out[j] == inner[j]);
            }
        }
        assert(rows =~= front.push(rows.last()));
        assert(out.to_multiset() =~= rows.to_multiset().insert(new));
        assert forall|i: int| 0 <= i < out.len() implies (#[trigger] out[i]) == new
            || rows.contains(out[i]) by {
            if i < inner.len() {
                assert(out[i] == inner[i]);
                if inner[i] != new {
                    assert(front.contains(inner[i]));
                    let k = choose|k: int| 0 <= k < front.len() && front[k] == inner[i];
                    assert(rows[k] == inner[i]);
                }
            } else {
                assert(rows[rows.len() - 1] == out[i]);
            }
        }
    }
}

proof fn lemma_by_action(rows: Seq<HelpV>, n: int)
    requires
        0 <= n <= rows.len(),
    ensures
        in_action_order(by_action(rows, n)),
        by_action(rows, n).to_multiset() == rows.take(n).to_multiset(),
    decreases n,
{
    broadcast use vstd::seq_lib::group_to_multiset_ensures;

    if n > 0 {
        lemma_by_action(rows, n - 1);
        lemma_put_in(by_action(rows, n - 1), rows[n - 1]);
        assert(rows.take(n) =~= rows.take(n - 1).push(rows[n - 1]));
    } else {
        assert(rows.take(0) =~= seq![]);
    }
}

/// Law: the list is in the order of its actions, and holds every shortcut
/// exactly as often as it was given.
pub proof fn law_help_sorted(commands: Seq<Command>, mac: bool)
    ensures
        in_action_order(help_spec(commands, mac)),
        help_spec(commands, mac).to_multiset() == (fixed_rows(mac) + command_rows(
            commands,
            mac,
            commands.len() as int,
        )).to_multiset(),
{
    let rows = fixed_rows(mac) + command_rows(commands, mac, commands.len() as int);
    lemma_by_action(rows, rows.len() as int);
    assert(rows.take(rows.len() as int) =~= rows);
}

/// Whether `a` stands before `b`.
pub fn is_text_less(a: &str, b: &str) -> (r: bool)
    ensures
        r == text_less(a@, b@),
{
    let x: Vec<char> = chars_of(a);
    let y: Vec<char> = chars_of(b);
    let mut i: usize = 0;
    assert(x@.skip(0) =~= x@);
    assert(y@.skip(0) =~= y@);
    while i < x.len() && i < y.len()
        invariant
            i <= x.len(),
            i <= y.len(),
            x@ == a@,
            y@ == b@,
            text_less(a@, b@) == text_less(x@.skip(i as int), y@.skip(i as int)),
        decreases x.len() - i,
    {
        if x[i] != y[i] {
            return x[i] < y[i];
        }
        assert(x@.skip(i as int).skip(1) =~= x@.skip(i + 1));
        assert(y@.skip(i as int).skip(1) =~= y@.skip(i + 1));
        i += 1;
    }
    i < y.len()
}

fn put_row(rows: &mut Vec<HelpRow>, keys: &str, action: &str)
    ensures
        help_view(final(rows)@) == help_view(old(rows)@).push(row(keys@, action@)),
{
    rows.push(HelpRow { keys: keys.to_owned(), action: action.to_owned() });
    assert(help_view(rows@) =~= help_view(old(rows)@).push(row(keys@, action@)));
}

fn mac_rows() -> (r: Vec<HelpRow>)
    ensures
        help_view(r@) == fixed_rows(true),
{
    let mut rows: Vec<HelpRow> = Vec::new();
    assert(help_view(rows@) =~= seq![]);
    put_row(&mut rows, "Cmd+← / Cmd+→", "Line start / end");
    put_row(&mut rows, "Cmd+↑ / Cmd+↓", "Document start / end");
    put_row(&mut rows, "Opt+← / Opt+→", "Word left / right");
    put_row(&mut rows, "Opt+Delete", "Delete word right");
    put_row(&mut rows, "Opt+Backspace", "Delete word left");
    put_row(&mut rows, "↑ / ↓ / ← / →", "Move cursor");
    put_row(&mut rows, "Shift + arrows", "Select text");
    put_row(&mut rows, "PageUp / PageDown", "Page up / down");
    put_row(&mut rows, "Cmd+D", "Select next occurrence");
    put_row(&mut rows, "Cmd+A", "Select all");
    put_row(&mut rows, "Opt+Click", "Add cursor at click");
    put_row(&mut rows, "Shift+Cmd+D", "Duplicate line");
    put_row(&mut rows, "Cmd+K", "Hover documentation");
    put_row(&mut rows, "F2", "Rename symbol");
    put_row(&mut rows, "F12", "Go to definition");
    put_row(&mut rows, "( ) [ ] { } \" '", "Auto-pair brackets/quotes");
    put_row(&mut rows, "Enter after {", "Auto-indent");
    put_row(&mut rows, "Home", "Smart Home (toggle col 0 / first non-WS)");
    put_row(&mut rows, "Cmd+/", "Toggle comment");
    assert(help_view(rows@) =~= fixed_rows(true));
    rows
}

fn other_rows() -> (r: Vec<HelpRow>)
    ensures
        help_view(r@) == fixed_rows(false),
{
    let mut rows: Vec<HelpRow> = Vec::new();
    assert(help_view(rows@) =~= seq![]);
    put_row(&mut rows, "Home / End", "Line start / end");
    put_row(&mut rows, "Ctrl+Home / Ctrl+End", "Document start / end");
    put_row(&mut rows, "Ctrl+← / Ctrl+→", "Word left / right");
    put_row(&mut rows, "Ctrl+Delete", "Delete word right");
    put_row(&mut rows, "Ctrl+Backspace", "Delete word left");
    put_row(&mut rows, "↑ / ↓ / ← / →", "Move cursor");
    put_row(&mut rows, "Shift + arrows", "Select text");
    put_row(&mut rows, "PageUp / PageDown", "Page up / down");
    put_row(&mut rows, "Ctrl+D", "Select next occurrence");
    put_row(&mut rows, "Ctrl+A", "Select all");
    put_row(&mut rows, "Alt+Click", "Add cursor at click");
    put_row(&mut rows, "Shift+Ctrl+D", "Duplicate line");
    put_row(&mut rows, "Ctrl+K", "Hover documentation");
    put_row(&mut rows, "F2", "Rename symbol");
    put_row(&mut rows, "F12", "Go to definition");
    put_row(&mut rows, "( ) [ ] { } \" '", "Auto-pair brackets/quotes");
    put_row(&mut rows, "Enter after {", "Auto-indent");
    put_row(&mut rows, "Home", "Smart Home (toggle col 0 / first non-WS)");
    put_row(&mut rows, "Ctrl+/", "Toggle comment");
    assert(help_view(rows@) =~= fixed_rows(false));
    rows
}

fn put_command_rows(rows: &mut Vec<HelpRow>, commands: &Vec<Command>, mac: bool)
    ensures
        help_view(final(rows)@) == help_view(old(rows)@) + command_rows(
            commands@,
            mac,
            commands.len() as int,
        ),
{
    let ghost start = help_view(rows@);
    let mut i: usize = 0;
    assert(start + command_rows(commands@, mac, 0) =~= start);
    while i < commands.len()
        invariant
            i <= commands.len(),
            help_view(rows@) == start + command_rows(commands@, mac, i as int),
        decreases commands.len() - i,
    {
        let c: &Command = &commands[i];
        if !c.keybinding.as_str().is_empty() {
            let ghost before = help_view(rows@);
            if mac {
                put_row(rows, mac_keys_of(c.keybinding.as_str()).as_str(), c.label.as_str());
            } else {
                put_row(rows, c.keybinding.as_str(), c.label.as_str());
            }
            assert(help_view(rows@) =~= start + command_rows(commands@, mac, i + 1));
        }
        i += 1;
    }
}

/// Put a row in its place.
fn insert_row(rows: &mut Vec<HelpRow>, new: HelpRow)
    ensures
        help_view(final(rows)@) == put_in(help_view(old(rows)@), new@),
{
    let ghost all = help_view(rows@);
    let mut k: usize = rows.len();
    assert(all.take(k as int) =~= all);
    assert(put_in(all, new@) + all.skip(k as int) =~= put_in(all, new@));
    while k > 0 && is_text_less(new.action.as_str(), rows[k - 1].action.as_str())
        invariant
            k <= rows.len(),
            all == help_view(rows@),
            put_in(all, new@) == put_in(all.take(k as int), new@) + all.skip(k as int),
        decreases k,
    {
        proof {
            assert(all[k - 1] == rows@[k - 1]@);
            let part = all.take(k as int);
            assert(part.last() == all[k - 1]);
            assert(part.drop_last() =~= all.take(k - 1));
            assert(put_in(all.take(k - 1), new@).push(all[k - 1]) + all.skip(k as int) =~= put_in(
                all.take(k - 1),
                new@,
            ) + all.skip(k - 1));
        }
        k -= 1;
    }
    proof {
        if k > 0 {
            assert(all[k - 1] == rows@[k - 1]@);
            assert(all.take(k as int).last() == all[k - 1]);
        }
    }
    let ghost before = rows@;
    rows.insert(k, new);
    assert(help_view(rows@) =~= all.take(k as int).push(new@) + all.skip(k as int));
}

/// The list of shortcuts: those of the text, and those of the commands that
/// have keys. On a Mac the keys have other names.
pub fn help_rows(commands: &Vec<Command>, mac: bool) -> (r: Vec<HelpRow>)
    ensures
        help_view(r@) == help_spec(commands@, mac),
{
    let mut rest: Vec<HelpRow> = if mac { mac_rows() } else { other_rows() };
    put_command_rows(&mut rest, commands, mac);
    let ghost all = help_view(rest@);
    let mut out: Vec<HelpRow> = Vec::new();
    assert(help_view(out@) =~= seq![]);
    while rest.len() > 0
        invariant
            out.len() + rest.len() == all.len(),
            help_view(rest@) == all.skip(all.len() - rest.len()),
            help_view(out@) == by_action(all, all.len() - rest.len()),
        decreases rest.len(),
    {
        let ghost k = all.len() - rest.len();
        let ghost was = rest@;
        assert(all.skip(k)[0] == all[k]);
        assert(help_view(rest@)[0] == rest@[0]@);
        let new: HelpRow = rest.remove(0);
        assert(help_view(rest@) =~= all.skip(k + 1)) by {
            assert forall|i: int| 0 <= i < rest@.len() implies rest@[i]@ == all[k + 1 + i] by {
                assert(help_view(was)[i + 1] == all.skip(k)[i + 1]);
            }
        }
        insert_row(&mut out, new);
        assert(out.len() == help_view(out@).len());
        proof {
            lemma_put_in_len(by_action(all, k), new@);
        }
    }
    out
}

proof fn lemma_put_in_len(rows: Seq<HelpV>, new: HelpV)
    ensures
        put_in(rows, new).len() == rows.len() + 1,
    decreases rows.len(),
{
    if rows.len() != 0 && text_less(new.action, rows.last().action) {
        lemma_put_in_len(rows.drop_last(), new);
    }
}

} // verus!

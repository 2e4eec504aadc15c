//! What typing and deleting do to a text, seen from outside.

use vstd::prelude::*;
use vstd::utf8::*;

use crate::buffer::{BufferV, Selection};
use crate::editing::{
    backspaced, char_after_spec, char_before_spec, close_of, deleted_right, deletion_order,
    deletions, heads, lemma_next_char_after, lemma_prev_char_before, one_char, paired,
    plain_carets, selected, selections_deleted, starts, stepped_over, typed,
};
use crate::event::EditorEvent;
use crate::find_laws::other_documents_same;
use crate::laws::{lemma_kept_without_selection, takes_edits};
use crate::line_laws::{law_line_number, law_lines_of_text, lines_of};
use crate::motion::{next_char, prev_char};
use crate::order::sorted_set;
use crate::routes::{
    lemma_delete_left, lemma_delete_right, lemma_delete_selection, lemma_delete_word_left,
    lemma_delete_word_right, lemma_insert, lemma_paste,
};
use crate::state::AppV;
use crate::typing::mark_of;

verus! {

// ----- carets and texts -----

/// A caret at `pos` without a selection.
pub open spec fn plain_at(pos: int) -> Selection {
    Selection { anchor: pos as usize, head: pos as usize }
}

/// There is one caret, at `pos`, and nothing is selected.
pub open spec fn one_caret(s: AppV, pos: int) -> bool {
    0 <= pos <= s.buf().text.len() && s.buf().selections == seq![plain_at(pos)]
}

/// The bytes from `low` to `high` are selected and nothing else.
pub open spec fn one_selection(s: AppV, low: int, high: int) -> bool {
    &&& 0 <= low < high <= s.buf().text.len()
    &&& s.buf().selections == seq![Selection { anchor: low as usize, head: high as usize }]
        || s.buf().selections == seq![Selection { anchor: high as usize, head: low as usize }]
}

/// The active document has this text now and one caret at `pos`; the others
/// are as they were.
pub open spec fn became(s: AppV, after: AppV, text: Seq<u8>, pos: int) -> bool {
    &&& after.buf().text == text
    &&& after.buf().selections == seq![plain_at(pos)]
    &&& other_documents_same(s, after)
}

/// Nothing but what belongs to the active document has changed.
pub proof fn lemma_finished(s: AppV, t: AppV)
    requires
        s.wf(),
        other_documents_same(s, t),
    ensures
        other_documents_same(s, t.edit_finished(mark_of(s.buf()))),
        t.edit_finished(mark_of(s.buf())).buf() == t.buf(),
        other_documents_same(s, t.rewrite_finished()),
        t.rewrite_finished().buf() == t.buf(),
{
}

proof fn lemma_nothing_selected(s: AppV, pos: int)
    requires
        s.wf(),
        one_caret(s, pos),
    ensures
        s.selection_deleted().buf() == s.buf(),
        other_documents_same(s, s.selection_deleted()),
        !s.deletes_selection(),
        s.single_caret(),
        s.buf().cursor() == pos,
{
    lemma_kept_without_selection(s);
    reveal(AppV::selection_deleted);
}

// ----- Delete -----

/// Law: with a plain caret, Delete takes out exactly the byte behind it and
/// leaves the caret; at the end of the text nothing changes.
pub proof fn law_delete_takes_byte_behind(s: AppV, pos: int)
    requires
        s.wf(),
        takes_edits(s),
        one_caret(s, pos),
    ensures
        ({
            let t = s.buf().text;
            let after = s.after(EditorEvent::DeleteRight);
            &&& pos < t.len() ==> became(s, after, t.take(pos) + t.skip(pos + 1), pos)
            &&& pos == t.len() ==> became(s, after, t, pos)
        }),
{
    lemma_delete_right(s);
    lemma_nothing_selected(s, pos);
    reveal(AppV::right_deleted);
    let d = s.selection_deleted();
    lemma_right(s.buf(), pos);
    lemma_finished(s, d.with_buf(deleted_right(d.buf())));
}

proof fn lemma_right(b: BufferV, pos: int)
    requires
        b.wf(),
        0 <= pos <= b.text.len(),
        b.selections == seq![plain_at(pos)],
    ensures
        pos < b.text.len() ==> deleted_right(b).text == b.text.take(pos) + b.text.skip(pos + 1),
        pos == b.text.len() ==> deleted_right(b).text == b.text,
        deleted_right(b).selections == seq![plain_at(pos)],
{
    let t = b.text;
    if pos < t.len() {
        assert(t.take(pos) + Seq::<u8>::empty() + t.skip(pos + 1) =~= t.take(pos) + t.skip(pos + 1));
        assert(deleted_right(b).text =~= t.take(pos) + t.skip(pos + 1));
    }
}

// ----- pairs -----

/// `close` closes what `open` opens.
pub open spec fn is_pair(open: u8, close: u8) -> bool {
    ||| open == 40 && close == 41
    ||| open == 91 && close == 93
    ||| open == 123 && close == 125
    ||| open == 34 && close == 34
    ||| open == 39 && close == 39
}

proof fn lemma_ascii_char(x: u8)
    requires
        x < 128,
    ensures
        valid_utf8(seq![x]),
        decode_utf8(seq![x]) == seq![x as char],
        encode_utf8(seq![x as char]) == seq![x],
        one_char(seq![x]) == Some(x as char),
{
    let chars = seq![x as char];
    assert(is_ascii_chars(chars));
    is_ascii_chars_encode_utf8(chars);
    assert(encode_utf8(chars) =~= seq![x]);
    encode_utf8_valid_utf8(chars);
    encode_utf8_decode_utf8(chars);
}

/// A part of a text whose first character is one of ASCII begins with its byte.
proof fn lemma_first_char_ascii(part: Seq<u8>, c: char)
    requires
        one_char(part) == Some(c),
        c as u32 <= 127,
    ensures
        part.len() > 0,
        part[0] == c as u8,
        part.len() > 1 ==> !is_continuation_byte(part[1]),
{
    let chars = decode_utf8(part);
    decode_utf8_encode_utf8(part);
    encode_utf8_first_scalar(chars);
    assert(chars[0] == c);
    assert(encode_utf8(chars) == part);
    reveal_with_fuel(valid_utf8, 2);
    reveal_with_fuel(encode_utf8, 2);
    assert(chars =~= seq![c] + chars.drop_first());
    assert(is_ascii_chars(seq![c]));
    is_ascii_chars_encode_utf8(seq![c]);
    assert(encode_scalar(c as u32) =~= seq![c as u8]);
    assert(part[0] == c as u8);
    if part.len() > 1 {
        assert(length_of_first_scalar(part) == 1);
        assert(pop_first_scalar(part)[0] == part[1]);
    }
}

/// The byte at `pos` is a whole character.
pub open spec fn stands_alone(t: Seq<u8>, pos: int) -> bool {
    0 <= pos < t.len() && t[pos] < 128 && (pos + 1 < t.len() ==> !(128 <= t[pos + 1] <= 191))
}

proof fn lemma_after_is_byte(t: Seq<u8>, pos: int, c: char)
    requires
        0 <= pos <= t.len(),
        c as u32 <= 127,
    ensures
        char_after_spec(t, pos) == Some(c) ==> pos < t.len() && t[pos] == c as u8,
        stands_alone(t, pos) && t[pos] == c as u8 ==> char_after_spec(t, pos) == Some(c)
            && next_char(t, pos) == pos + 1,
{
    if pos < t.len() {
        lemma_next_char_after(t, pos);
        let part = t.subrange(pos, next_char(t, pos));
        if one_char(part) == Some(c) {
            lemma_first_char_ascii(part, c);
        }
        if stands_alone(t, pos) {
            assert(next_char(t, pos) == pos + 1);
            assert(part =~= seq![t[pos]]);
            lemma_ascii_char(t[pos]);
        }
    }
}

proof fn lemma_before_is_byte(t: Seq<u8>, pos: int, c: char)
    requires
        0 < pos <= t.len(),
        c as u32 <= 127,
    ensures
        char_before_spec(t, pos) == Some(c) ==> t[pos - 1] == c as u8 && prev_char(t, pos) == pos
            - 1,
        t[pos - 1] == c as u8 ==> char_before_spec(t, pos) == Some(c) && prev_char(t, pos) == pos
            - 1,
{
    lemma_prev_char_before(t, pos);
    let part = t.subrange(prev_char(t, pos), pos);
    if one_char(part) == Some(c) {
        lemma_first_char_ascii(part, c);
        crate::motion::lemma_char_floor(t, pos - 1);
        if part.len() > 1 {
            assert(part[1] == t[prev_char(t, pos) + 1]);
        }
    }
    if t[pos - 1] == c as u8 {
        assert(prev_char(t, pos) == pos - 1);
        assert(part =~= seq![t[pos - 1]]);
        lemma_ascii_char(t[pos - 1]);
        assert((c as u8) as char == c);
    }
}

/// Law: with a plain caret, Backspace takes out the byte before it or, in an
/// empty pair, both of its characters; at the start of the text nothing
/// changes.
pub proof fn law_backspace_takes_byte_before(s: AppV, pos: int)
    requires
        s.wf(),
        takes_edits(s),
        one_caret(s, pos),
    ensures
        ({
            let t = s.buf().text;
            let after = s.after(EditorEvent::DeleteLeft);
            let in_pair = 0 < pos < t.len() && is_pair(t[pos - 1], t[pos]);
            &&& pos == 0 ==> became(s, after, t, 0)
            &&& in_pair && stands_alone(t, pos) ==> became(
                s,
                after,
                t.take(pos - 1) + t.skip(pos + 1),
                pos - 1,
            )
            &&& pos > 0 && !in_pair ==> became(s, after, t.take(pos - 1) + t.skip(pos), pos - 1)
        }),
{
    lemma_delete_left(s);
    lemma_nothing_selected(s, pos);
    reveal(AppV::left_deleted);
    let d = s.selection_deleted();
    lemma_left(s.buf(), pos);
    lemma_finished(s, d.with_buf(backspaced(d.buf())));
}

proof fn lemma_left(b: BufferV, pos: int)
    requires
        b.wf(),
        0 <= pos <= b.text.len(),
        b.selections == seq![plain_at(pos)],
    ensures
        ({
            let t = b.text;
            let r = backspaced(b);
            let in_pair = 0 < pos < t.len() && is_pair(t[pos - 1], t[pos]);
            &&& pos == 0 ==> r == b
            &&& in_pair && stands_alone(t, pos) ==> r.text == t.take(pos - 1) + t.skip(pos + 1)
                && r.selections == seq![plain_at(pos - 1)]
            &&& pos > 0 && !in_pair ==> r.text == t.take(pos - 1) + t.skip(pos) && r.selections
                == seq![plain_at(pos - 1)]
        }),
{
    let t = b.text;
    let r = backspaced(b);
    let in_pair = 0 < pos < t.len() && is_pair(t[pos - 1], t[pos]);
    if pos > 0 {
        if in_pair {
            lemma_before_is_byte(t, pos, t[pos - 1] as char);
            lemma_after_is_byte(t, pos, t[pos] as char);
            if stands_alone(t, pos) {
                assert(r.text =~= t.take(pos - 1) + t.skip(pos + 1));
            }
        } else {
            if let (Some(open), Some(close)) = (char_before_spec(t, pos), char_after_spec(t, pos)) {
                if close_of(open) == Some(close) {
                    lemma_before_is_byte(t, pos, open);
                    lemma_after_is_byte(t, pos, close);
                    assert(is_pair(t[pos - 1], t[pos]));
                }
            }
            assert(r.text =~= t.take(pos - 1) + t.skip(pos));
        }
    }
}

// ----- selected text -----

proof fn lemma_one_deleted(b: BufferV, low: int, high: int)
    requires
        b.wf(),
        0 <= low < high <= b.text.len(),
        b.selections == seq![Selection { anchor: low as usize, head: high as usize }]
            || b.selections == seq![Selection { anchor: high as usize, head: low as usize }],
    ensures
        ({
            let d = selections_deleted(b);
            &&& d.carets.len() == 1
            &&& !d.failed
            &&& d.buffer.text == b.text.take(low) + b.text.skip(high)
            &&& d.buffer.selections == seq![plain_at(low)]
        }),
{
    let sel = b.selections[0];
    let t = b.text;
    assert(b.selections.drop_last() =~= seq![]);
    reveal_with_fuel(selected, 2);
    reveal_with_fuel(plain_carets, 2);
    assert(selected(b.selections) =~= seq![sel]);
    assert(plain_carets(b.selections) =~= seq![]);
    reveal_with_fuel(crate::order::stable_order, 2);
    reveal_with_fuel(crate::order::insert_index, 2);
    let keys = starts(seq![sel]);
    assert(crate::order::stable_order(keys, 1, true) =~= seq![0usize]);
    let order = deletion_order(b.selections);
    assert(order =~= seq![sel]);
    reveal_with_fuel(deletions, 2);
    let d = deletions(b, order, 1);
    assert(d.carets =~= seq![low as usize]);
    assert(d.buffer.text =~= t.take(low) + t.skip(high));
    assert(d.carets + plain_carets(b.selections) =~= seq![low as usize]);
    lemma_one_sorted(low as usize);
    let all = selections_deleted(b);
    assert(all.buffer.selections =~= seq![plain_at(low)]);
}

proof fn lemma_one_sorted(x: usize)
    ensures
        sorted_set(seq![x]) == seq![x],
{
    reveal_with_fuel(sorted_set, 2);
    reveal_with_fuel(crate::order::insert_unique, 2);
    assert(seq![x].drop_last() =~= seq![]);
    assert(sorted_set(seq![x]) =~= seq![x]);
}

proof fn lemma_selection_gone(s: AppV, low: int, high: int)
    requires
        s.wf(),
        one_selection(s, low, high),
    ensures
        s.deletes_selection(),
        !s.single_caret(),
        became(
            s,
            s.selection_deleted(),
            s.buf().text.take(low) + s.buf().text.skip(high),
            low,
        ),
        s.selection_deleted().status == s.status,
{
    lemma_one_deleted(s.buf(), low, high);
    reveal(AppV::selection_deleted);
}

/// Law: with something selected, every key that deletes takes out exactly the
/// selected text and leaves the caret there.
pub proof fn law_deleting_takes_selection(s: AppV, low: int, high: int)
    requires
        s.wf(),
        takes_edits(s),
        one_selection(s, low, high),
    ensures
        ({
            let left = s.buf().text.take(low) + s.buf().text.skip(high);
            &&& became(s, s.after(EditorEvent::DeleteLeft), left, low)
            &&& became(s, s.after(EditorEvent::DeleteRight), left, low)
            &&& became(s, s.after(EditorEvent::DeleteSelection), left, low)
            &&& became(s, s.after(EditorEvent::DeleteWordLeft), left, low)
            &&& became(s, s.after(EditorEvent::DeleteWordRight), left, low)
        }),
{
    lemma_selection_gone(s, low, high);
    lemma_finished(s, s.selection_deleted());
    lemma_delete_left(s);
    lemma_delete_right(s);
    lemma_delete_selection(s);
    lemma_delete_word_left(s);
    lemma_delete_word_right(s);
    reveal(AppV::left_deleted);
    reveal(AppV::right_deleted);
    reveal(AppV::word_left_deleted);
    reveal(AppV::word_right_deleted);
}

// ----- typing -----

/// The text with what stood between `low` and `high` replaced.
pub open spec fn put_between(t: Seq<u8>, low: int, high: int, with: Seq<u8>) -> Seq<u8> {
    t.take(low) + with + t.skip(high)
}

proof fn lemma_typed_once(b: BufferV, pos: int, with: Seq<u8>)
    requires
        0 <= pos <= b.text.len(),
        b.selections == seq![plain_at(pos)],
        pos + with.len() <= usize::MAX,
    ensures
        typed(b, with).text == put_between(b.text, pos, pos, with),
        typed(b, with).selections == seq![plain_at(pos + with.len())],
        sorted_set(heads(b.selections)).len() == 1,
{
    assert(heads(b.selections) =~= seq![pos as usize]);
    lemma_one_sorted(pos as usize);
    let positions = seq![pos as usize];
    reveal_with_fuel(crate::editing::inserted_at_all, 2);
    assert(positions.drop_last() =~= seq![]);
    assert(typed(b, with).text =~= put_between(b.text, pos, pos, with));
    assert(typed(b, with).selections =~= seq![plain_at(pos + with.len())]);
}

/// What is put in stands where the selection was, or at the caret.
proof fn lemma_text_put_in(s: AppV, low: int, high: int, text: Seq<char>, failure: Seq<char>)
    requires
        s.wf(),
        low == high && one_caret(s, low) || one_selection(s, low, high),
        s.buf().text.len() - (high - low) + encode_utf8(text).len() <= isize::MAX,
    ensures
        became(
            s,
            s.text_inserted(text, failure),
            put_between(s.buf().text, low, high, encode_utf8(text)),
            low + encode_utf8(text).len(),
        ),
        s.text_inserted(text, failure).status is None,
        s.has_room(text),
{
    reveal(AppV::text_inserted);
    let t = s.buf().text;
    let with = encode_utf8(text);
    if low == high {
        lemma_nothing_selected(s, low);
        reveal(AppV::selection_deleted);
    } else {
        lemma_selection_gone(s, low, high);
        reveal(AppV::selection_deleted);
    }
    let d = s.selection_deleted();
    assert(d.buf() == selections_deleted(s.buf()).buffer);
    lemma_typed_once(d.buf(), low, with);
    assert(put_between(d.buf().text, low, low, with) =~= put_between(t, low, high, with));
    assert(sorted_set(heads(d.buf().selections)).len() * with.len() == with.len()) by {
        assert(1 * with.len() == with.len());
    }
}

/// Law: pasting puts exactly the pasted text at the caret, or in the place of
/// the selected text, and the caret behind it.
pub proof fn law_paste_puts_text_in(s: AppV, low: int, high: int, text: String)
    requires
        s.wf(),
        takes_edits(s),
        low == high && one_caret(s, low) || one_selection(s, low, high),
        s.buf().text.len() - (high - low) + encode_utf8(text@).len() <= isize::MAX,
    ensures
        became(
            s,
            s.after(EditorEvent::Paste(text)),
            put_between(s.buf().text, low, high, encode_utf8(text@)),
            low + encode_utf8(text@).len(),
        ),
{
    lemma_paste(s, text);
    lemma_text_put_in(s, low, high, text@, "paste error: "@);
    lemma_finished(s, s.text_inserted(text@, "paste error: "@));
}

/// Law: a character that is typed over selected text takes its place.
pub proof fn law_typing_replaces_selection(s: AppV, low: int, high: int, ch: char)
    requires
        s.wf(),
        takes_edits(s),
        one_selection(s, low, high),
        s.buf().text.len() - (high - low) + encode_utf8(seq![ch]).len() <= isize::MAX,
    ensures
        became(
            s,
            s.after(EditorEvent::Insert(ch)),
            put_between(s.buf().text, low, high, encode_utf8(seq![ch])),
            low + encode_utf8(seq![ch]).len(),
        ),
{
    lemma_insert(s, ch);
    lemma_selection_gone(s, low, high);
    lemma_text_put_in(s, low, high, seq![ch], "insert error: "@);
    lemma_finished(s, s.text_inserted(seq![ch], "insert error: "@));
    reveal(AppV::char_typed);
}

/// A character that closes a pair, as a byte.
pub open spec fn closes(ch: char) -> bool {
    ch == ')' || ch == ']' || ch == '}' || ch == '"' || ch == '\''
}

/// A character that opens a pair.
pub open spec fn opens(ch: char) -> bool {
    ch == '(' || ch == '[' || ch == '{' || ch == '"' || ch == '\''
}

/// Law: a character that neither opens a pair nor ends the line is put at the
/// caret, and the caret behind it. One that closes a pair too, unless the same
/// stands there already.
pub proof fn law_typing_puts_character_in(s: AppV, pos: int, ch: char)
    requires
        s.wf(),
        takes_edits(s),
        one_caret(s, pos),
        !opens(ch),
        ch != '\n',
        closes(ch) && pos < s.buf().text.len() ==> s.buf().text[pos] != ch as u8,
        s.buf().text.len() + encode_utf8(seq![ch]).len() <= isize::MAX,
    ensures
        became(
            s,
            s.after(EditorEvent::Insert(ch)),
            put_between(s.buf().text, pos, pos, encode_utf8(seq![ch])),
            pos + encode_utf8(seq![ch]).len(),
        ),
{
    lemma_insert(s, ch);
    lemma_nothing_selected(s, pos);
    lemma_text_put_in(s, pos, pos, seq![ch], "insert error: "@);
    lemma_finished(s, s.text_inserted(seq![ch], "insert error: "@));
    if closes(ch) {
        lemma_after_is_byte(s.buf().text, pos, ch);
    }
    reveal(AppV::char_typed);
}

/// Law: a closing character that already stands at the caret is stepped over:
/// the text stays and the caret goes behind it.
pub proof fn law_typing_steps_over(s: AppV, pos: int, ch: char)
    requires
        s.wf(),
        takes_edits(s),
        one_caret(s, pos),
        closes(ch),
        stands_alone(s.buf().text, pos),
        s.buf().text[pos] == ch as u8,
    ensures
        became(s, s.after(EditorEvent::Insert(ch)), s.buf().text, pos + 1),
{
    lemma_insert(s, ch);
    lemma_nothing_selected(s, pos);
    lemma_after_is_byte(s.buf().text, pos, ch);
    reveal(AppV::char_typed);
    assert(s.steps_over(ch));
    assert(stepped_over(s.buf()).selections =~= seq![plain_at(pos + 1)]);
}

/// Law: an opening character brings the one that closes it, and the caret goes
/// between them.
pub proof fn law_typing_opens_pair(s: AppV, pos: int, open: char, close: char)
    requires
        s.wf(),
        takes_edits(s),
        one_caret(s, pos),
        open as u32 <= 127 && close as u32 <= 127,
        is_pair(open as u8, close as u8),
        closes(open) && pos < s.buf().text.len() ==> s.buf().text[pos] != open as u8,
        s.buf().text.len() + 2 <= isize::MAX,
    ensures
        became(
            s,
            s.after(EditorEvent::Insert(open)),
            put_between(s.buf().text, pos, pos, seq![open as u8, close as u8]),
            pos + 1,
        ),
{
    let t = s.buf().text;
    lemma_insert(s, open);
    lemma_nothing_selected(s, pos);
    if closes(open) {
        lemma_after_is_byte(t, pos, open);
    }
    let chars = seq![open, close];
    let pair = encode_utf8(chars);
    assert(is_ascii_chars(chars));
    is_ascii_chars_encode_utf8(chars);
    assert(pair =~= seq![open as u8, close as u8]);
    assert(close_of(open) == Some(close));
    assert(!s.steps_over(open));
    reveal(AppV::char_typed);
    let after = paired(s.buf(), open, close);
    let inner = s.buf().inserted(pos, pair);
    assert(inner.text =~= put_between(t, pos, pos, pair));
    assert(inner.text[pos + 1] == close as u8);
    assert(prev_char(inner.text, pos + 2) == pos + 1);
    assert(after.selections =~= seq![plain_at(pos + 1)]);
    assert(1 * pair.len() == pair.len());
    lemma_finished(s, AppV { status: None, ..s.with_buf(after) });
}

// ----- new lines and tabs -----

/// Law: with a plain caret, Enter puts in a newline and the blanks that the
/// caret's line begins with; where that line ends with an opening bracket or an
/// arrow, one level of indentation more.
pub proof fn law_enter_keeps_indentation(s: AppV, pos: int, line: Seq<u8>, blanks: int)
    requires
        s.wf(),
        takes_edits(s),
        one_caret(s, pos),
        line == lines_of(s.buf().text)[lines_of(s.buf().text.take(pos)).len() - 1],
        0 <= blanks <= line.len(),
        forall|k: int| 0 <= k < blanks ==> #[trigger] line[k] == 32 || line[k] == 9,
        blanks < line.len() ==> line[blanks] != 32 && line[blanks] != 9,
        s.buf().text.len() + 1 + blanks + s.doc().view.tab_width + 1 <= isize::MAX,
    ensures
        ({
            let n = line.len();
            let opening = n > 0 && (line[n - 1] == 123 || line[n - 1] == 40 || line[n - 1] == 91)
                || n > 1 && line[n - 2] == 61 && line[n - 1] == 62;
            let level = if opening {
                indentation(s.doc().view.use_spaces, s.doc().view.tab_width as nat)
            } else {
                Seq::<u8>::empty()
            };
            let with = seq![10u8] + line.take(blanks) + level;
            became(
                s,
                s.after(EditorEvent::Insert('\n')),
                put_between(s.buf().text, pos, pos, with),
                pos + with.len(),
            )
        }),
{
    let t = s.buf().text;
    let view = s.doc().view;
    lemma_insert(s, '\n');
    lemma_nothing_selected(s, pos);
    law_line_number(t, pos);
    crate::lines::lemma_line_at(t, pos);
    law_lines_of_text(t, crate::lines::line_at(t, pos));
    crate::editing::lemma_blanks_step(line, blanks);
    let n = line.len();
    let opening = n > 0 && (line[n - 1] == 123 || line[n - 1] == 40 || line[n - 1] == 91) || n > 1
        && line[n - 2] == 61 && line[n - 1] == 62;
    let level = if opening {
        indentation(view.use_spaces, view.tab_width as nat)
    } else {
        Seq::<u8>::empty()
    };
    let with = seq![10u8] + line.take(blanks) + level;
    let chars = s.line_break();
    assert(chars.len() == with.len());
    assert(is_ascii_chars(chars));
    is_ascii_chars_encode_utf8(chars);
    assert(encode_utf8(chars) =~= with);
    lemma_text_put_in(s, pos, pos, chars, "insert error: "@);
    lemma_finished(s, s.text_inserted(chars, "insert error: "@));
    reveal(AppV::char_typed);
}

/// One level of indentation: as many spaces as a tab is wide, or a tab.
pub open spec fn indentation(use_spaces: bool, tab_width: nat) -> Seq<u8> {
    if use_spaces { Seq::new(tab_width, |i: int| 32u8) } else { seq![9u8] }
}

proof fn lemma_indentation(use_spaces: bool, tab_width: nat)
    ensures
        encode_utf8(crate::editing::indent_unit(use_spaces, tab_width)) == indentation(
            use_spaces,
            tab_width,
        ),
{
    let chars = crate::editing::indent_unit(use_spaces, tab_width);
    assert(is_ascii_chars(chars));
    is_ascii_chars_encode_utf8(chars);
    assert(encode_utf8(chars) =~= indentation(use_spaces, tab_width));
}

/// Law: Tab puts one level of indentation at the caret or in the place of the
/// selected text, where no snippet can be expanded.
pub proof fn law_tab_indents(s: AppV, low: int, high: int)
    requires
        s.wf(),
        takes_edits(s),
        low == high && one_caret(s, low) || one_selection(s, low, high),
        s.buf().text.len() + s.doc().view.tab_width + 1 <= isize::MAX,
        s.config.snippets.len() == 0 || low < high,
    ensures
        ({
            let with = indentation(s.doc().view.use_spaces, s.doc().view.tab_width as nat);
            became(
                s,
                s.after(EditorEvent::InsertTab),
                put_between(s.buf().text, low, high, with),
                low + with.len(),
            )
        }),
{
    let view = s.doc().view;
    crate::routes::lemma_insert_tab(s);
    lemma_indentation(view.use_spaces, view.tab_width as nat);
    if low < high {
        lemma_selection_gone(s, low, high);
    } else {
        lemma_nothing_selected(s, low);
    }
    let unit = crate::editing::indent_unit(view.use_spaces, view.tab_width as nat);
    lemma_text_put_in(s, low, high, unit, "insert error: "@);
    lemma_finished(s, s.text_inserted(unit, "insert error: "@));
    assert(s.snippet() is None);
    reveal(AppV::tab_typed);
}

/// Law: a trigger before the caret gives way to what it stands for: the text
/// between the trigger's start and the caret is replaced by it, and the caret
/// goes to the snippet's own place.
pub proof fn law_snippet_is_expanded(s: AppV, pos: int, snippet: crate::config::Snippet, start: int)
    requires
        s.wf(),
        takes_edits(s),
        one_caret(s, pos),
        s.snippet() == Some((snippet, start)),
        0 <= start <= pos,
        s.buf().text.len() - (pos - start) + encode_utf8(snippet.expanded@).len() <= isize::MAX,
        snippet.cursor_offset <= encode_utf8(snippet.expanded@).len(),
    ensures
        became(
            s,
            s.after(EditorEvent::InsertTab),
            put_between(s.buf().text, start, pos, encode_utf8(snippet.expanded@)),
            start + snippet.cursor_offset,
        ),
{
    crate::routes::lemma_insert_tab(s);
    reveal(AppV::tab_typed);
    lemma_nothing_selected(s, pos);
    let put = s.snippet_put(snippet, start);
    let bytes = encode_utf8(snippet.expanded@);
    let r = s.buf().replaced(start, pos, bytes);
    assert(r.text =~= put_between(s.buf().text, start, pos, bytes));
    assert(put.buf().selections =~= seq![plain_at(start + snippet.cursor_offset)]);
    lemma_finished(s, put);
}

/// Law: the snippet that Tab expands is the first one whose trigger is the word
/// that ends at the caret, and its place is where that word starts.
pub proof fn law_snippet_is_the_word_before(
    s: AppV,
    pos: int,
    start: int,
    chars: Seq<char>,
    i: int,
    j: int,
)
    requires
        s.wf(),
        one_caret(s, pos),
        crate::caret_laws::begins_line(s.buf().text, pos, start),
        valid_utf8(lines_of(s.buf().text)[lines_of(s.buf().text.take(pos)).len() - 1]),
        chars == crate::caret_laws::line_chars(s.buf().text, pos),
        0 <= j < i <= chars.len(),
        crate::caret_laws::over_chars(chars, j, i, true),
        j > 0 ==> !crate::text::word_char(chars[j - 1]),
        crate::motion::char_col_at(s.buf().text, pos) == i,
    ensures
        s.snippet() matches Some(found) ==> found.0.trigger@ == chars.subrange(j, i)
            && s.config.snippets.contains(found.0),
        s.snippet() is None ==> forall|k: int|
            0 <= k < s.config.snippets.len() ==> (#[trigger] s.config.snippets[k]).trigger@
                != chars.subrange(j, i),
{
    let t = s.buf().text;
    let b = s.buf();
    law_line_number(t, pos);
    crate::lines::lemma_line_at(t, pos);
    law_lines_of_text(t, crate::lines::line_at(t, pos));
    lemma_word_back(chars, i, j);
    assert(crate::finding::word_before(b) == Some((j, i)));
    lemma_find_snippet(s.config.snippets, chars.subrange(j, i), 0);
}

proof fn lemma_word_back(chars: Seq<char>, i: int, j: int)
    requires
        0 <= j <= i <= chars.len(),
        crate::caret_laws::over_chars(chars, j, i, true),
        j > 0 ==> !crate::text::word_char(chars[j - 1]),
    ensures
        crate::motion::skip_back(chars, i, true) == j,
    decreases i,
{
    if j < i {
        assert(crate::text::word_char(chars[i - 1]));
        lemma_word_back(chars, i - 1, j);
    }
}

proof fn lemma_find_snippet(snippets: Seq<crate::config::Snippet>, trigger: Seq<char>, from: int)
    requires
        0 <= from <= snippets.len(),
        forall|k: int| 0 <= k < from ==> (#[trigger] snippets[k]).trigger@ != trigger,
    ensures
        crate::finding::find_snippet(snippets, trigger, from) matches Some(x) ==> x.trigger@
            == trigger && snippets.contains(x),
        crate::finding::find_snippet(snippets, trigger, from) is None ==> forall|k: int|
            0 <= k < snippets.len() ==> (#[trigger] snippets[k]).trigger@ != trigger,
    decreases snippets.len() - from,
{
    if from < snippets.len() && snippets[from].trigger@ != trigger {
        lemma_find_snippet(snippets, trigger, from + 1);
    }
}

// ----- words -----

/// Law: with a plain caret, deleting a word takes out exactly the text from the
/// caret to where the caret would go over the word.
pub proof fn law_words_are_deleted(s: AppV, pos: int)
    requires
        s.wf(),
        takes_edits(s),
        one_caret(s, pos),
    ensures
        ({
            let t = s.buf().text;
            let left = crate::motion::word_left(t, pos);
            let right = crate::motion::word_right(t, pos);
            &&& 0 <= left <= pos ==> became(
                s,
                s.after(EditorEvent::DeleteWordLeft),
                t.take(left) + t.skip(pos),
                left,
            )
            &&& pos <= right <= t.len() ==> became(
                s,
                s.after(EditorEvent::DeleteWordRight),
                t.take(pos) + t.skip(right),
                pos,
            )
        }),
{
    let t = s.buf().text;
    let left = crate::motion::word_left(t, pos);
    let right = crate::motion::word_right(t, pos);
    lemma_delete_word_left(s);
    lemma_delete_word_right(s);
    lemma_nothing_selected(s, pos);
    reveal(AppV::word_left_deleted);
    reveal(AppV::word_right_deleted);
    let d = s.selection_deleted();
    assert(t.take(pos) + t.skip(pos) =~= t);
    if 0 <= left < pos {
        let cut = crate::editing::cut_out(d.buf(), left, pos);
        assert(cut.text =~= t.take(left) + t.skip(pos));
        lemma_finished(s, d.with_buf(cut));
    }
    if pos < right <= t.len() {
        let cut = crate::editing::cut_out(d.buf(), pos, right);
        assert(cut.text =~= t.take(pos) + t.skip(right));
        lemma_finished(s, d.with_buf(cut));
    }
}

// ----- history -----

/// Law: undoing takes the last edit back, whatever it was: what it put in gives
/// way to what it took out, nothing else changes in the text, and the edit can
/// be made again. Without an edit the text stays.
pub proof fn law_undo_takes_edit_back(s: AppV)
    requires
        s.wf(),
        takes_edits(s),
    ensures
        ({
            let b = s.buf();
            let after = s.after(EditorEvent::Undo).buf();
            let e = b.undo.last();
            &&& b.undo.len() == 0 ==> after.text == b.text && after.redo == b.redo
            &&& b.undo.len() > 0 ==> after.text == b.text.take(e.at) + e.removed + b.text.skip(
                e.at + e.inserted.len(),
            ) && after.undo == b.undo.drop_last() && after.redo == b.redo.push(e)
            &&& other_documents_same(s, s.after(EditorEvent::Undo))
        }),
{
    crate::routes::lemma_undo(s);
    reveal(AppV::undid);
    lemma_finished(s, s.undid());
}

/// Law: redoing makes the edit that was taken back last again. Without one the
/// text stays.
pub proof fn law_redo_makes_edit_again(s: AppV)
    requires
        s.wf(),
        takes_edits(s),
    ensures
        ({
            let b = s.buf();
            let after = s.after(EditorEvent::Redo).buf();
            let e = b.redo.last();
            &&& b.redo.len() == 0 ==> after.text == b.text && after.undo == b.undo
            &&& b.redo.len() > 0 ==> after.text == b.text.take(e.at) + e.inserted + b.text.skip(
                e.at + e.removed.len(),
            ) && after.redo == b.redo.drop_last() && after.undo == b.undo.push(e)
            &&& other_documents_same(s, s.after(EditorEvent::Redo))
        }),
{
    crate::routes::lemma_redo(s);
    reveal(AppV::redid);
    lemma_finished(s, s.redid());
}

/// Law: an edit replaces the bytes of its range and nothing else, is kept with
/// what it took out and put in, and leaves nothing to be made again. The text
/// counts as changed from then on.
pub proof fn law_edit_is_kept(b: BufferV, start: int, end: int, with: Seq<u8>)
    requires
        0 <= start <= end <= b.text.len(),
    ensures
        ({
            let after = b.replaced(start, end, with);
            &&& after.text == b.text.take(start) + with + b.text.skip(end)
            &&& after.undo.len() == b.undo.len() + 1
            &&& after.undo.drop_last() == b.undo
            &&& after.undo.last().at == start
            &&& after.undo.last().removed == b.text.subrange(start, end)
            &&& after.undo.last().inserted == with
            &&& after.redo.len() == 0
            &&& after.dirty
            &&& after.path == b.path
        }),
{
    assert(b.replaced(start, end, with).undo.drop_last() =~= b.undo);
}

} // verus!

//! What keys and arguments mean, seen from outside.

use vstd::prelude::*;

use crate::args::{last_colon, place_of, start_docs, StartFile};
use crate::buffer::BufferV;
use crate::caret_laws::{at_column, lines_begin_well};
use crate::document::ViewDefaults;
use crate::edit_laws::plain_at;
use crate::event::{key_spec, EditorEvent, EventV, KeyCode, KeyContext, KeyEvent};
use crate::files::FileContent;
use crate::line_laws::{law_lines_of_text, lines_of};
use crate::motion::Movement;
use crate::text::{all_digits, decimal, digits_value};

verus! {

// ----- fields -----

/// What is typed in the overlay in front, where it has a field.
pub open spec fn field_of(ctx: KeyContext) -> Option<Seq<char>> {
    if ctx.fuzzy_open {
        Some(ctx.fuzzy_query@)
    } else if ctx.palette_open {
        Some(ctx.palette_query@)
    } else if ctx.project_search_open {
        if ctx.project_search_confirm {
            None
        } else if ctx.project_search_replace_focused {
            Some(ctx.project_search_replace_query@)
        } else {
            Some(ctx.project_search_query@)
        }
    } else if ctx.find_open {
        if ctx.replace_open { Some(ctx.replace_query@) } else { Some(ctx.find_query@) }
    } else {
        None
    }
}

/// The event gives the field in front this text.
pub open spec fn sets_field(ctx: KeyContext, event: Option<EventV>, text: Seq<char>) -> bool {
    if ctx.fuzzy_open {
        event == Some(EventV::FuzzyFinderQueryChanged(text))
    } else if ctx.palette_open {
        event == Some(EventV::CommandPaletteQueryChanged(text))
    } else if ctx.project_search_open {
        if ctx.project_search_replace_focused {
            event == Some(EventV::ProjectSearchReplaceQueryChanged(text))
        } else {
            event == Some(EventV::ProjectSearchQueryChanged(text))
        }
    } else if ctx.replace_open {
        event == Some(EventV::ReplaceQueryChanged(text))
    } else {
        event == Some(EventV::FindQueryChanged(text))
    }
}

/// Law: a character without Control is put behind what is typed in the field in
/// front, and Backspace takes the last one away. The one exception is Alt+R in
/// the find bar.
pub proof fn law_fields_are_typed_in(
    ctx: KeyContext,
    c: char,
    shift: bool,
    alt: bool,
    text: Seq<char>,
)
    requires
        field_of(ctx) == Some(text),
        ctx.fuzzy_open || ctx.palette_open || ctx.project_search_open || ctx.replace_open || !(c
            == 'r' && alt),
    ensures
        sets_field(
            ctx,
            key_spec(KeyEvent { code: KeyCode::Char(c), ctrl: false, shift, alt }, Some(ctx)),
            text + seq![c],
        ),
        text.len() > 0 ==> sets_field(
            ctx,
            key_spec(KeyEvent { code: KeyCode::Backspace, ctrl: false, shift, alt }, Some(ctx)),
            text.take(text.len() - 1),
        ),
{
    assert(text.push(c) =~= text + seq![c]);
    if text.len() > 0 {
        assert(text.drop_last() =~= text.take(text.len() - 1));
    }
}

/// Law: Escape closes the overlay in front, and Enter chooses in it.
pub proof fn law_overlays_are_left_and_used(ctx: KeyContext)
    ensures
        ({
            let esc = KeyEvent { code: KeyCode::Esc, ctrl: false, shift: false, alt: false };
            let enter = KeyEvent { code: KeyCode::Enter, ctrl: false, shift: false, alt: false };
            let e = key_spec(esc, Some(ctx));
            let r = key_spec(enter, Some(ctx));
            if ctx.fuzzy_open {
                e == Some(EventV::Plain(EditorEvent::FuzzyFinderClose)) && r == Some(
                    EventV::Plain(EditorEvent::FuzzyFinderExecute),
                )
            } else if ctx.palette_open {
                e == Some(EventV::Plain(EditorEvent::CommandPaletteClose)) && r == Some(
                    EventV::Plain(EditorEvent::CommandPaletteExecute),
                )
            } else if ctx.project_search_open && ctx.project_search_confirm {
                e == Some(EventV::Plain(EditorEvent::ProjectSearchReplaceAllCancel)) && r == Some(
                    EventV::Plain(EditorEvent::ProjectSearchReplaceAllConfirm),
                )
            } else if ctx.project_search_open {
                e == Some(EventV::Plain(EditorEvent::ProjectSearchClose)) && r == Some(
                    EventV::Plain(EditorEvent::ProjectSearchOpenResult),
                )
            } else if ctx.find_open && ctx.replace_open {
                e == Some(EventV::Plain(EditorEvent::ReplaceClose)) && r == Some(
                    EventV::Plain(EditorEvent::ReplaceOne),
                )
            } else if ctx.find_open {
                e == Some(EventV::Plain(EditorEvent::FindClose)) && r == Some(
                    EventV::Plain(EditorEvent::FindNext),
                )
            } else if ctx.tree_open && ctx.tree_loaded {
                e == Some(EventV::Plain(EditorEvent::ToggleProjectTree)) && r == Some(
                    EventV::Plain(EditorEvent::ProjectTreeOpen),
                )
            } else {
                e == Some(EventV::Plain(EditorEvent::CollapseCursors)) && r == Some(
                    EventV::Plain(EditorEvent::Insert('\n')),
                )
            }
        }),
{
}

/// Law: without an overlay a character types itself, and the keys that move the
/// caret select with Shift where they go without it.
pub proof fn law_keys_for_the_text(c: char)
    ensures
        ({
            let key = |code: KeyCode, shift: bool| KeyEvent { code, ctrl: false, shift, alt: false };
            let means = |code: KeyCode, m: Movement|
                key_spec(key(code, false), None) == Some(EventV::Plain(EditorEvent::Move(m)))
                    && key_spec(key(code, true), None) == Some(
                    EventV::Plain(EditorEvent::SelectExtend(m)),
                );
            &&& key_spec(key(KeyCode::Char(c), false), None) == Some(
                EventV::Plain(EditorEvent::Insert(c)),
            )
            &&& means(KeyCode::Up, Movement::Up)
            &&& means(KeyCode::Down, Movement::Down)
            &&& means(KeyCode::Home, Movement::LineStart)
            &&& means(KeyCode::End, Movement::LineEnd)
            &&& means(KeyCode::PageUp, Movement::PageUp)
            &&& means(KeyCode::PageDown, Movement::PageDown)
            &&& key_spec(key(KeyCode::Left, false), None) == Some(
                EventV::Plain(EditorEvent::Move(Movement::Left)),
            )
            &&& key_spec(key(KeyCode::Right, false), None) == Some(
                EventV::Plain(EditorEvent::Move(Movement::Right)),
            )
            &&& key_spec(key(KeyCode::Backspace, false), None) == Some(
                EventV::Plain(EditorEvent::DeleteLeft),
            )
            &&& key_spec(key(KeyCode::Delete, false), None) == Some(
                EventV::Plain(EditorEvent::DeleteRight),
            )
            &&& key_spec(key(KeyCode::Tab, false), None) == Some(
                EventV::Plain(EditorEvent::InsertTab),
            )
        }),
{
}

// ----- arguments -----

proof fn lemma_no_colon(s: Seq<char>)
    requires
        forall|i: int| 0 <= i < s.len() ==> s[i] != ':',
    ensures
        last_colon(s) == -1,
    decreases s.len(),
{
    if s.len() > 0 {
        lemma_no_colon(s.drop_last());
    }
}

proof fn lemma_colon_before(head: Seq<char>, tail: Seq<char>)
    requires
        forall|i: int| 0 <= i < tail.len() ==> tail[i] != ':',
    ensures
        last_colon(head + seq![':'] + tail) == head.len(),
    decreases tail.len(),
{
    let s = head + seq![':'] + tail;
    if tail.len() > 0 {
        lemma_colon_before(head, tail.drop_last());
        assert(s.drop_last() =~= head + seq![':'] + tail.drop_last());
    }
}

pub proof fn lemma_decimal(n: nat)
    ensures
        all_digits(decimal(n)),
        digits_value(decimal(n)) == n,
        forall|i: int| 0 <= i < decimal(n).len() ==> decimal(n)[i] != ':',
    decreases n,
{
    reveal_with_fuel(digits_value, 2);
    if n < 10 {
        assert(decimal(n).drop_last() =~= seq![]);
        assert(decimal(n)[0] == (48 + n) as char);
        assert(((48 + n) as char) as nat == 48 + n);
    } else {
        lemma_decimal(n / 10);
        let d = decimal(n);
        let last = (48 + n % 10) as char;
        assert(last as nat == 48 + n % 10);
        assert(d.drop_last() =~= decimal(n / 10));
        assert forall|i: int| 0 <= i < d.len() implies '0' <= #[trigger] d[i] <= '9' && d[i]
            != ':' by {
            if i < d.len() - 1 {
                assert(d[i] == decimal(n / 10)[i]);
            }
        }
    }
}

/// Law: a path that is no file itself may carry a line behind a colon, and a
/// column behind another: they are the place to start at, and the path is what
/// stands before them.
pub proof fn law_argument_names_a_place(path: Seq<char>, line: usize, col: usize)
    requires
        path.len() > 0,
        forall|i: int| 0 <= i < path.len() ==> path[i] != ':',
    ensures
        place_of(path + seq![':'] + decimal(line as nat), false) == (path, Some(line), None::<usize>),
        place_of(
            path + seq![':'] + decimal(line as nat) + seq![':'] + decimal(col as nat),
            false,
        ) == (path, Some(line), Some(col)),
{
    let l = decimal(line as nat);
    let c = decimal(col as nat);
    lemma_decimal(line as nat);
    lemma_decimal(col as nat);
    lemma_no_colon(path);
    let one = path + seq![':'] + l;
    lemma_colon_before(path, l);
    assert(one.take(path.len() as int) =~= path);
    assert(one.skip(path.len() as int + 1) =~= l);
    let two = one + seq![':'] + c;
    lemma_colon_before(one, c);
    assert(two.take(one.len() as int) =~= one);
    assert(two.skip(one.len() as int + 1) =~= c);
}

/// A line that was counted from 1, counted from 0.
pub open spec fn named_line(line: usize) -> int {
    if line == 0 { 0 } else { line - 1 }
}

/// A column that was counted from 1, counted from 0; the first without one.
pub open spec fn named_col(col: Option<usize>) -> nat {
    match col {
        Some(c) => if c == 0 { 0 } else { (c - 1) as nat },
        None => 0,
    }
}

/// The caret is at this line and column, as far as the text has them.
pub open spec fn starts_at(b: BufferV, line: int, col: nat) -> bool {
    let last = lines_of(b.text).len() - 1;
    let shown = if line < last { line } else { last };
    lines_begin_well(b.text) && b.text.len() <= isize::MAX ==> {
        &&& b.selections.len() == 1
        &&& b.selections[0].anchor == b.selections[0].head
        &&& at_column(b.text, shown, col, b.selections[0].head as int)
    }
}

/// Law: the editor starts with a document for each file, in order, that shows
/// exactly its bytes, with the caret at the line and column that were named;
/// without files with an empty one.
pub proof fn law_files_are_opened_at_the_start(
    files: Seq<StartFile>,
    defaults: ViewDefaults,
    i: int,
)
    requires
        0 <= i < files.len(),
    ensures
        ({
            let docs = start_docs(files, defaults);
            let d = docs[i];
            let f = files[i];
            &&& docs.len() == files.len()
            &&& f.content matches FileContent::Bytes(b) ==> d.buffer.text == b@
            &&& !(f.content is Bytes) ==> d.buffer.text.len() == 0
            &&& !(f.content is Unreadable) ==> d.buffer.path == Some(f.path@)
            &&& f.content is Unreadable ==> d.buffer.path is None
            &&& !d.buffer.dirty
            &&& d.info == f.info
            &&& f.position is None ==> d.buffer.selections == seq![plain_at(0)]
            &&& f.position matches Some(p) ==> starts_at(d.buffer, named_line(p.0), named_col(p.1))
        }),
{
    let d = start_docs(files, defaults)[i];
    let f = files[i];
    let t = d.buffer.text;
    if let Some(p) = f.position {
        if lines_begin_well(t) && t.len() <= isize::MAX {
            law_lines_of_text(t, 0);
            crate::caret_laws::lemma_clamped(t, named_line(p.0), named_col(p.1));
        }
    }
}

} // verus!

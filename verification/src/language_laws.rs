//! What is asked of language servers and what their answers do, seen from
//! outside.

use vstd::prelude::*;
use vstd::utf8::*;

use crate::app::{topic_of, Topic};
use crate::buffer::BufferV;
use crate::caret_laws::{begins_line, line_number};
use crate::columns::byte_col_of;
use crate::edit_laws::{became, lemma_finished, plain_at, put_between};
use crate::edits::{
    byte_range_of, edits_made, from_the_right, growth, law_edits_from_the_right, placed_edits,
    rewritten, ByteEditV, LspEdit, LspRange, Position,
};
use crate::effect::{Effect, EffectV, SaveKind};
use crate::event::EditorEvent;
use crate::find_laws::{lemma_lines_fit, other_documents_same};
use crate::language::{FormatOutcome, LspTarget};
use crate::laws::takes_edits;
use crate::line_laws::{law_lines_of_text, lines_of};
use crate::lines::{
    lemma_line_end_from, lemma_line_start, line_bytes, line_end, line_start, line_total,
};
use crate::multi_laws::{high_end, low_end};
use crate::panels::{CompletionItem, CompletionV, HoverV, LspDefinitionState};
use crate::state::{AppV, LspV};

verus! {

// ----- places -----

/// The place of the caret: its line, and how many bytes it is from the start of
/// it.
pub open spec fn is_caret_place(s: AppV, place: Position) -> bool {
    let t = s.buf().text;
    let pos = s.buf().selections[0].head as int;
    exists|start: int| #[trigger]
        begins_line(t, pos, start) && place.line == line_number(t, pos) && place.character == pos
            - start
}

proof fn lemma_place(s: AppV)
    requires
        s.wf(),
        s.buf().text.len() <= u32::MAX,
        s.doc().info.uri is Some,
    ensures
        s.lsp_cursor() is Some,
        is_caret_place(s, s.lsp_cursor()->0),
{
    let t = s.buf().text;
    let pos = s.buf().selections[0].head as int;
    assert(s.buf().selections[0].head <= t.len());
    crate::caret_laws::lemma_line_bounds(t, pos);
    lemma_lines_fit(t, pos);
    let start = crate::lines::line_start(t, crate::lines::line_at(t, pos));
    assert(begins_line(t, pos, start));
}

proof fn lemma_language_event(s: AppV, event: EditorEvent)
    requires
        takes_edits(s),
        topic_of(event) == Topic::Language,
    ensures
        s.after(event) == s.language_event(event),
{
    reveal(AppV::after);
}

/// Law: completions, a hover text and a definition are asked for at the place of
/// the caret, where the document has an address; otherwise it is said that they
/// are not to be had. No text changes.
pub proof fn law_server_is_asked_at_caret(s: AppV)
    requires
        s.wf(),
        takes_edits(s),
        s.buf().text.len() <= u32::MAX,
    ensures
        ({
            let completion = s.after(EditorEvent::LspCompletion);
            let hover = s.after(EditorEvent::LspHover);
            let definition = s.after(EditorEvent::LspGoToDefinition);
            let address = s.doc().info.uri is Some;
            &&& completion.documents == s.documents && hover.documents == s.documents
                && definition.documents == s.documents
            &&& !address ==> completion.effects == s.effects && hover.effects == s.effects
                && definition.effects == s.effects && completion.status is Some
            &&& address ==> exists|place: Position| #[trigger]
                is_caret_place(s, place) && {
                    &&& completion.effects == s.effects.push(
                        EffectV::Plain(Effect::LspCompletion(place)),
                    )
                    &&& completion.lsp.completion == (CompletionV {
                        open: true,
                        pending: true,
                        selected: 0,
                        items: seq![],
                    })
                    &&& hover.effects == s.effects.push(EffectV::Plain(Effect::LspHover(place)))
                    &&& hover.lsp.hover == (HoverV {
                        open: false,
                        text: seq![],
                        request_pos: Some(place),
                    })
                    &&& definition.effects == s.effects.push(
                        EffectV::Plain(Effect::LspDefinition(place)),
                    )
                    &&& definition.lsp.definition == (LspDefinitionState {
                        pending: true,
                        request_pos: Some(place),
                        from_cmd_click: false,
                    })
                }
        }),
{
    lemma_language_event(s, EditorEvent::LspCompletion);
    lemma_language_event(s, EditorEvent::LspHover);
    lemma_language_event(s, EditorEvent::LspGoToDefinition);
    reveal(AppV::language_event);
    if s.doc().info.uri is Some {
        lemma_place(s);
        assert(is_caret_place(s, s.lsp_cursor()->0));
    }
}

// ----- completion -----

/// Law: the completion that is applied takes the place of the selected text or
/// stands at the caret: the text of the item or else its label. The caret goes
/// behind it and the popup closes.
pub proof fn law_completion_is_put_in(s: AppV, item: CompletionItem)
    requires
        s.wf(),
        s.lsp.completion.open,
        s.lsp.completion.selected < s.lsp.completion.items.len(),
        s.lsp.completion.items[s.lsp.completion.selected as int] == item,
        s.buf().text.len() + encode_utf8(chosen_text(item)).len() <= isize::MAX,
    ensures
        ({
            let low = low_end(s.buf().selections[0]);
            let high = high_end(s.buf().selections[0]);
            let with = encode_utf8(chosen_text(item));
            let after = s.completion_applied();
            &&& became(
                s,
                after,
                put_between(s.buf().text, low, high, with),
                low + with.len(),
            )
            &&& !after.lsp.completion.open && !after.lsp.completion.pending
        }),
{
    let b = s.buf();
    let low = low_end(b.selections[0]);
    let high = high_end(b.selections[0]);
    let with = encode_utf8(chosen_text(item));
    assert(b.selections[0].anchor <= b.text.len() && b.selections[0].head <= b.text.len());
    assert(b.primary().start() == low && b.primary().end() == high);
    let r = b.replaced(low, high, with);
    assert(r.text =~= put_between(b.text, low, high, with));
    let put = s.with_buf(r).with_cursor(low + with.len());
    assert(put.buf().selections =~= seq![plain_at(low + with.len())]);
    lemma_finished(s, put.with_status("Completed: "@ + item.label@));
}

/// What an item puts in.
pub open spec fn chosen_text(item: CompletionItem) -> Seq<char> {
    match item.insert_text {
        Some(text) => text@,
        None => item.label@,
    }
}

/// Law: items that arrive while they are waited for are offered; others are
/// not.
pub proof fn law_completions_are_offered(s: AppV, items: Seq<CompletionItem>)
    requires
        s.wf(),
        s.doc().info.uri is Some,
    ensures
        ({
            let c = s.lsp.completion;
            let after = s.completion_answered(Some(items));
            &&& c.pending ==> after == (AppV {
                lsp: LspV { completion: CompletionV { items, pending: false, ..c }, ..s.lsp },
                ..s
            })
            &&& !c.pending ==> after == s
            &&& s.completion_answered(None) == s
        }),
{
    assert(s.buf().selections[0].head <= s.buf().text.len());
}

/// Law: a hover text that was asked for is shown unless it is empty.
pub proof fn law_hover_is_shown(s: AppV, text: Seq<char>)
    requires
        s.wf(),
        s.doc().info.uri is Some,
        s.lsp.hover.request_pos is Some,
    ensures
        s.hover_answered(Some(text)) == (AppV {
            lsp: LspV {
                hover: HoverV { open: text.len() > 0, text, request_pos: None },
                ..s.lsp
            },
            ..s
        }),
        s.hover_answered(None) == s,
        !s.hover_closed().lsp.hover.open,
{
    assert(s.buf().selections[0].head <= s.buf().text.len());
}

// ----- definitions -----

/// Law: a target in the active document is gone to there; in another open one
/// that gets the focus; one that is not open is opened by its path, and without
/// a path nothing changes but the message.
pub proof fn law_target_is_gone_to(s: AppV, target: LspTarget, place: Option<Seq<char>>)
    requires
        s.wf(),
        s.documents.len() <= usize::MAX,
    ensures
        ({
            let after = s.jumped_to(target, place);
            let here = address_is(s.doc(), target.uri@);
            let open = exists|i: int|
                0 <= i < s.documents.len() && #[trigger] address_is(
                    s.documents[i],
                    target.uri@,
                );
            &&& here ==> after == s.at_place(target.pos)
            &&& !here && place is None ==> after.documents == s.documents && after.active
                == s.active && after.effects == s.effects && after.status is Some
            &&& !here && place is Some && open ==> address_is(
                after.documents[after.active as int],
                target.uri@,
            ) && after.documents.len() == s.documents.len()
            &&& !here && place is Some && !open ==> after == (AppV {
                effects: s.switched_to(place->0).effects.push(
                    EffectV::Plain(Effect::FinishJump { uri: target.uri, pos: target.pos }),
                ),
                ..s.switched_to(place->0)
            })
        }),
{
    lemma_uri_index(s.documents, target.uri@, 0);
}

/// The document has this address.
pub open spec fn address_is(d: crate::document::DocV, uri: Seq<char>) -> bool {
    d.info.uri matches Some(u) && u@ == uri
}

proof fn lemma_uri_index(docs: Seq<crate::document::DocV>, uri: Seq<char>, from: int)
    requires
        0 <= from <= docs.len(),
        forall|i: int| 0 <= i < from ==> !#[trigger] address_is(docs[i], uri),
    ensures
        crate::language::uri_index(docs, uri, from) matches Some(i) ==> 0 <= i < docs.len()
            && address_is(docs[i], uri),
        crate::language::uri_index(docs, uri, from) is None ==> forall|i: int|
            0 <= i < docs.len() ==> !#[trigger] address_is(docs[i], uri),
    decreases docs.len() - from,
{
    if from < docs.len() {
        assert(crate::language::has_uri(docs[from], uri) == address_is(docs[from], uri));
        if !address_is(docs[from], uri) {
            lemma_uri_index(docs, uri, from + 1);
        }
    }
}

// ----- edits of a server -----

proof fn lemma_descending(keys: Seq<usize>, n: int)
    requires
        0 <= n <= keys.len(),
        n <= usize::MAX,
        forall|i: int, j: int| 0 <= i < j < keys.len() ==> keys[i] < keys[j],
    ensures
        crate::order::stable_order(keys, n, true) == Seq::new(
            n as nat,
            |i: int| (n - 1 - i) as usize,
        ),
    decreases n,
{
    if n > 0 {
        lemma_descending(keys, n - 1);
        let before = crate::order::stable_order(keys, n - 1, true);
        if n > 1 {
            assert(before[0] == n - 2);
            assert(keys[n - 2] < keys[n - 1]);
        }
        let now = crate::order::stable_order(keys, n, true);
        assert(now =~= Seq::new(n as nat, |i: int| (n - 1 - i) as usize));
    } else {
        assert(crate::order::stable_order(keys, n, true) =~= Seq::new(
            n as nat,
            |i: int| (n - 1 - i) as usize,
        ));
    }
}

/// Law: edits of a server that do not overlap are all made, each at the place
/// that it had in the text before them.
pub proof fn law_server_edits_are_made(b: BufferV, s: Seq<ByteEditV>)
    requires
        b.wf(),
        s.len() <= usize::MAX,
        crate::edits::disjoint_from_left(s, b.len()),
        forall|i: int, j: int| 0 <= i < j < s.len() ==> (#[trigger] s[i]).start < (
        #[trigger] s[j]).start,
        b.len() + growth(s) <= isize::MAX,
    ensures
        edits_made(b, from_the_right(s), s.len() as int).text == rewritten(b.text, s),
{
    let keys = crate::edits::edit_starts(s);
    assert forall|i: int, j: int| 0 <= i < j < keys.len() implies keys[i] < keys[j] by {
        assert(s[i].start < s[j].start);
        assert(0 <= s[i].start <= s[i].end <= b.len());
        assert(0 <= s[j].start <= s[j].end <= b.len());
    }
    lemma_descending(keys, s.len() as int);
    assert(from_the_right(s) =~= s.reverse());
    law_edits_from_the_right(b, s);
}

/// `pos` is where character `col` of line `line` begins, or the end of the line
/// where it has no more.
pub open spec fn at_character(t: Seq<u8>, line: int, col: int, pos: int) -> bool {
    let chars = decode_utf8(lines_of(t)[line]);
    let part = if col < chars.len() { chars.take(col) } else { chars };
    &&& 0 <= pos <= t.len()
    &&& line_number(t, pos) == line
    &&& exists|start: int| #[trigger]
        begins_line(t, pos, start) && pos == start + encode_utf8(part).len()
}

proof fn lemma_at_character(t: Seq<u8>, line: nat, col: int)
    requires
        line < line_total(t),
        0 <= col,
        valid_utf8(line_bytes(t, line)),
    ensures
        at_character(
            t,
            line as int,
            col,
            line_start(t, line) + byte_col_of(decode_utf8(line_bytes(t, line)), col),
        ),
{
    let bytes = line_bytes(t, line);
    let chars = decode_utf8(bytes);
    let start = line_start(t, line);
    let pos = start + byte_col_of(chars, col);
    law_lines_of_text(t, line);
    lemma_line_start(t, line);
    lemma_line_end_from(t, start);
    decode_utf8_encode_utf8(bytes);
    assert(chars.take(chars.len() as int) =~= chars);
    let k = if col < chars.len() { col } else { chars.len() as int };
    crate::columns::lemma_byte_len_grows(chars, k, chars.len() as int);
    assert(pos <= line_end(t, line));
    crate::lines::lemma_newlines_grow(t, start, pos);
    crate::line_laws::law_line_number(t, pos);
    assert(begins_line(t, pos, start));
}

/// Law: the range of an edit of a server is from the one character to the other,
/// counted on their lines; an edit whose lines do not exist is left out, and so
/// is one on lines that are not text.
pub proof fn law_server_ranges(t: Seq<u8>, range: LspRange)
    ensures
        ({
            let first = range.start.line as int;
            let last = range.end.line as int;
            let total = lines_of(t).len();
            match byte_range_of(t, range) {
                Some(r) => first < total && last < total && at_character(
                    t,
                    first,
                    range.start.character as int,
                    r.0,
                ) && at_character(t, last, range.end.character as int, r.1),
                None => first >= total || last >= total || !valid_utf8(lines_of(t)[first])
                    || !valid_utf8(lines_of(t)[last]),
            }
        }),
{
    let first = range.start.line as nat;
    let last = range.end.line as nat;
    law_lines_of_text(t, first);
    law_lines_of_text(t, last);
    if byte_range_of(t, range) is Some {
        lemma_at_character(t, first, range.start.character as int);
        lemma_at_character(t, last, range.end.character as int);
    }
}

/// Law: the edits of a server are placed in their order, each with its text.
pub proof fn law_server_edits_are_placed(t: Seq<u8>, edits: Seq<LspEdit>, last: LspEdit)
    ensures
        placed_edits(t, Seq::<LspEdit>::empty()) == Seq::<ByteEditV>::empty(),
        placed_edits(t, edits.push(last)) == (match byte_range_of(t, last.range) {
            Some(r) => placed_edits(t, edits).push(
                ByteEditV { start: r.0, end: r.1, with: encode_utf8(last.new_text@) },
            ),
            None => placed_edits(t, edits),
        }),
{
    assert(edits.push(last).drop_last() =~= edits);
}

// ----- formatting -----

/// Law: what a formatter gives takes the place of the text, and a failure leaves
/// it; after a save the formatted text is written again.
pub proof fn law_formatted_text_is_put_in(s: AppV, outcome: FormatOutcome, after_save: bool)
    requires
        s.wf(),
    ensures
        ({
            let after = s.formatter_finished(outcome, after_save);
            &&& outcome matches FormatOutcome::Formatted(text) ==> (s.doc().info.language is Some
                && encode_utf8(text@).len() <= isize::MAX ==> after.buf().text == encode_utf8(
                text@,
            ))
            &&& !(outcome is Formatted) || s.doc().info.language is None ==> after.buf().text
                == s.buf().text
            &&& after_save && outcome is Formatted && s.doc().info.language is Some
                && s.buf().path is Some ==> after.effects.last() == EffectV::Plain(
                Effect::Save(SaveKind::AfterFormatter),
            )
            &&& other_documents_same(s, after)
        }),
{
    let t = s.buf().text;
    let r = s.formatter_result(outcome);
    if let FormatOutcome::Formatted(text) = outcome {
        let bytes = encode_utf8(text@);
        assert(t.take(0) + bytes + t.skip(t.len() as int) =~= bytes);
    }
    lemma_finished(s, r);
}

/// Law: formatting and renaming are asked of the server of a document with an
/// address.
pub proof fn law_format_and_rename_are_asked_for(s: AppV, name: String)
    requires
        s.wf(),
        takes_edits(s),
        s.doc().info.uri is Some,
        s.buf().text.len() <= u32::MAX,
    ensures
        s.after(EditorEvent::FormatDocument) == (AppV {
            effects: s.effects.push(EffectV::Plain(Effect::LspCanFormat { after_save: false })),
            ..s
        }),
        s.format_answered(true, true).effects == s.effects.push(EffectV::Plain(Effect::LspFormat)),
        s.format_answered(true, true).ui.pending_format_save,
        s.format_answered(false, true).effects == s.effects.push(
            EffectV::Plain(Effect::RunFormatter { after_save: true }),
        ),
        ({
            let after = s.after(EditorEvent::RenameApply { new_name: name });
            &&& after.buf() == s.buf()
            &&& after.dialogs.rename is None
            &&& exists|place: Position| #[trigger]
                is_caret_place(s, place) && after.effects[s.effects.len() as int]
                    == EffectV::Plain(Effect::LspRename { pos: place, new_name: name })
        }),
{
    crate::routes::lemma_format(s);
    reveal(AppV::format_asked);
    crate::routes::lemma_rename(s, name);
    reveal(AppV::rename_asked);
    lemma_place(s);
    assert(is_caret_place(s, s.lsp_cursor()->0));
    lemma_finished(s, s.rename_asked(name));
}

} // verus!

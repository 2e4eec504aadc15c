//! The text of a document: its bytes, its carets and its undo history.

use vstd::prelude::*;
use vstd::slice::slice_to_vec;
use vstd::utf8::*;

use crate::lines;
use crate::lines::{line_at, line_bytes, line_end, line_start, line_total};
use crate::text::{decode_bytes, lossy_utf8, show_bytes};

verus! {

/// A selected stretch of text. The head is where the caret is; the anchor is
/// where the selection began. They are equal for a plain caret.
#[derive(Debug, Clone, Copy, PartialEq, Eq, Structural)]
pub struct Selection {
    pub anchor: usize,
    pub head: usize,
}

impl Selection {
    /// The lower end.
    pub open spec fn start(self) -> int {
        if self.anchor <= self.head { self.anchor as int } else { self.head as int }
    }

    /// The upper end.
    pub open spec fn end(self) -> int {
        if self.anchor <= self.head { self.head as int } else { self.anchor as int }
    }

    /// A caret without a selection.
    pub fn collapsed(pos: usize) -> (r: Selection)
        ensures
            r == caret(pos),
    {
        Selection { anchor: pos, head: pos }
    }

    pub fn is_collapsed(self) -> (r: bool)
        ensures
            r == (self.anchor == self.head),
    {
        self.anchor == self.head
    }

    /// The selected bytes, lower end first.
    pub fn range(self) -> (r: core::ops::Range<usize>)
        ensures
            r.start == self.start(),
            r.end == self.end(),
    {
        if self.anchor <= self.head {
            self.anchor..self.head
        } else {
            self.head..self.anchor
        }
    }
}

/// A caret at `pos`.
pub open spec fn caret(pos: usize) -> Selection {
    Selection { anchor: pos, head: pos }
}

/// Both ends of a selection pulled back into a text of `len` bytes.
pub open spec fn clamp_selection(s: Selection, len: int) -> Selection {
    Selection {
        anchor: if s.anchor <= len { s.anchor } else { len as usize },
        head: if s.head <= len { s.head } else { len as usize },
    }
}

pub open spec fn clamp_selections(s: Seq<Selection>, len: int) -> Seq<Selection> {
    Seq::new(s.len(), |i: int| clamp_selection(s[i], len))
}

/// Why an edit was refused.
#[derive(Debug, Clone, Copy, PartialEq, Eq, Structural)]
pub enum BufferError {
    /// The range does not lie inside the text.
    OutOfRange,
    /// The text would become larger than memory can address.
    TooLarge,
}

impl BufferError {
    pub fn message(self) -> (r: &'static str)
        ensures
            r@ == self.message_spec(),
    {
        match self {
            BufferError::OutOfRange => "position is out of range",
            BufferError::TooLarge => "text is too large",
        }
    }

    pub open spec fn message_spec(self) -> Seq<char> {
        match self {
            BufferError::OutOfRange => "position is out of range"@,
            BufferError::TooLarge => "text is too large"@,
        }
    }
}

/// A change of the text: at `at`, `removed` gave way to `inserted`.
#[verifier::ext_equal]
pub struct EditV {
    pub at: int,
    pub removed: Seq<u8>,
    pub inserted: Seq<u8>,
}

/// `text` with the bytes from `start` to `end` replaced by `with`.
pub open spec fn splice(text: Seq<u8>, start: int, end: int, with: Seq<u8>) -> Seq<u8> {
    text.take(start) + with + text.skip(end)
}

impl EditV {
    /// The edit can be made on `text`.
    pub open spec fn fits(self, text: Seq<u8>) -> bool {
        &&& 0 <= self.at
        &&& self.at + self.removed.len() <= text.len()
        &&& text.subrange(self.at, self.at + self.removed.len()) == self.removed
    }

    pub open spec fn apply(self, text: Seq<u8>) -> Seq<u8> {
        splice(text, self.at, self.at + self.removed.len(), self.inserted)
    }

    /// The edit that takes this one back.
    pub open spec fn inverse(self) -> EditV {
        EditV { at: self.at, removed: self.inserted, inserted: self.removed }
    }
}

/// Every edit of `undo`, from the last one on, can be taken back from `text`.
pub open spec fn undo_ok(text: Seq<u8>, undo: Seq<EditV>) -> bool
    decreases undo.len(),
{
    &&& text.len() <= isize::MAX
    &&& undo.len() > 0 ==> undo.last().inverse().fits(text) && undo_ok(
        undo.last().inverse().apply(text),
        undo.drop_last(),
    )
}

/// Every edit of `redo`, from the last one on, can be made again on `text`.
pub open spec fn redo_ok(text: Seq<u8>, redo: Seq<EditV>) -> bool
    decreases redo.len(),
{
    &&& text.len() <= isize::MAX
    &&& redo.len() > 0 ==> redo.last().fits(text) && redo_ok(
        redo.last().apply(text),
        redo.drop_last(),
    )
}

/// What a buffer holds.
#[verifier::ext_equal]
pub struct BufferV {
    pub text: Seq<u8>,
    pub selections: Seq<Selection>,
    pub dirty: bool,
    pub revision: u64,
    pub path: Option<Seq<char>>,
    pub undo: Seq<EditV>,
    pub redo: Seq<EditV>,
}

pub open spec fn next_revision(r: u64) -> u64 {
    if r == u64::MAX { 0 } else { (r + 1) as u64 }
}

impl BufferV {
    /// There is at least one caret, every selection lies inside the text, and
    /// the history belongs to it.
    pub open spec fn wf(self) -> bool {
        &&& self.text.len() <= isize::MAX
        &&& self.selections.len() > 0
        &&& forall|i: int|
            0 <= i < self.selections.len() ==> (#[trigger] self.selections[i]).anchor
                <= self.text.len() && self.selections[i].head <= self.text.len()
        &&& undo_ok(self.text, self.undo)
        &&& redo_ok(self.text, self.redo)
    }

    pub open spec fn len(self) -> int {
        self.text.len() as int
    }

    /// The first selection is the primary one; its head is the caret.
    pub open spec fn primary(self) -> Selection {
        self.selections[0]
    }

    pub open spec fn cursor(self) -> usize {
        self.selections[0].head
    }

    /// Whether the edit would leave a text of a possible size.
    pub open spec fn can_replace(self, start: int, end: int, with: Seq<u8>) -> bool {
        &&& 0 <= start <= end <= self.len()
        &&& self.len() - (end - start) + with.len() <= isize::MAX
    }

    /// The bytes from `start` to `end` replaced by `with`, as one step of the
    /// history. Selections stay where they are, pulled back into the text.
    pub open spec fn replaced(self, start: int, end: int, with: Seq<u8>) -> BufferV {
        let edit = EditV { at: start, removed: self.text.subrange(start, end), inserted: with };
        let text = splice(self.text, start, end, with);
        BufferV {
            text,
            selections: clamp_selections(self.selections, text.len() as int),
            dirty: true,
            revision: next_revision(self.revision),
            undo: self.undo.push(edit),
            redo: seq![],
            ..self
        }
    }

    pub open spec fn deleted(self, start: int, end: int) -> BufferV {
        self.replaced(start, end, seq![])
    }

    /// `with` inserted at `pos`, a single caret behind it.
    pub open spec fn inserted(self, pos: int, with: Seq<u8>) -> BufferV {
        BufferV {
            selections: seq![caret((pos + with.len()) as usize)],
            ..self.replaced(pos, pos, with)
        }
    }

    pub open spec fn with_selections(self, s: Seq<Selection>) -> BufferV {
        BufferV { selections: clamp_selections(s, self.len()), ..self }
    }

    pub open spec fn with_cursor(self, pos: int) -> BufferV {
        BufferV {
            selections: seq![caret(if pos <= self.len() { pos as usize } else { self.len() as usize })],
            ..self
        }
    }

    /// The last edit taken back.
    pub open spec fn undone(self) -> BufferV {
        if self.undo.len() == 0 {
            self
        } else {
            let text = self.undo.last().inverse().apply(self.text);
            BufferV {
                text,
                selections: clamp_selections(self.selections, text.len() as int),
                dirty: true,
                revision: next_revision(self.revision),
                undo: self.undo.drop_last(),
                redo: self.redo.push(self.undo.last()),
                ..self
            }
        }
    }

    /// The edit taken back last, made again.
    pub open spec fn redone(self) -> BufferV {
        if self.redo.len() == 0 {
            self
        } else {
            let text = self.redo.last().apply(self.text);
            BufferV {
                text,
                selections: clamp_selections(self.selections, text.len() as int),
                dirty: true,
                revision: next_revision(self.revision),
                undo: self.undo.push(self.redo.last()),
                redo: self.redo.drop_last(),
                ..self
            }
        }
    }
}

/// Whether replacing succeeds, and if not, why.
pub open spec fn replace_result(b: BufferV, start: int, end: int, with: Seq<u8>) -> Result<
    (),
    BufferError,
> {
    if !(start <= end <= b.len()) {
        Err(BufferError::OutOfRange)
    } else if !b.can_replace(start, end, with) {
        Err(BufferError::TooLarge)
    } else {
        Ok(())
    }
}

/// An edit and its inverse cancel out.
pub proof fn lemma_inverse(text: Seq<u8>, e: EditV)
    requires
        e.fits(text),
    ensures
        e.inverse().fits(e.apply(text)),
        e.inverse().apply(e.apply(text)) == text,
        e.apply(text).len() == text.len() - e.removed.len() + e.inserted.len(),
{
    let out = e.apply(text);
    assert(out.subrange(e.at, e.at + e.inserted.len()) =~= e.inserted);
    let back = e.inverse().apply(out);
    assert forall|i: int| 0 <= i < text.len() implies #[trigger] back[i] == text[i] by {
        if e.at <= i < e.at + e.removed.len() {
            assert(e.removed[i - e.at] == text.subrange(e.at, e.at + e.removed.len())[i - e.at]);
        }
    }
    assert(back =~= text);
}

/// Replacing keeps a buffer well formed.
pub proof fn lemma_replaced_wf(b: BufferV, start: int, end: int, with: Seq<u8>)
    requires
        b.wf(),
        b.can_replace(start, end, with),
    ensures
        b.replaced(start, end, with).wf(),
        b.replaced(start, end, with).len() == b.len() - (end - start) + with.len(),
{
    let e = EditV { at: start, removed: b.text.subrange(start, end), inserted: with };
    assert(e.fits(b.text));
    lemma_inverse(b.text, e);
    let r = b.replaced(start, end, with);
    assert(e.at + e.removed.len() == end);
    assert(r.undo.drop_last() =~= b.undo);
    assert(r.undo.last() == e);
}

/// Law: taking an edit back gives the text before it, whatever was edited.
pub proof fn law_undo_restores_text(b: BufferV, start: int, end: int, with: Seq<u8>)
    requires
        b.wf(),
        b.can_replace(start, end, with),
    ensures
        b.replaced(start, end, with).undone().text == b.text,
        b.replaced(start, end, with).undone().undo == b.undo,
{
    let e = EditV { at: start, removed: b.text.subrange(start, end), inserted: with };
    assert(e.fits(b.text));
    lemma_inverse(b.text, e);
    assert(b.replaced(start, end, with).undo.last() == e);
    assert(e.at + e.removed.len() == end);
    assert(b.replaced(start, end, with).undone().undo =~= b.undo);
}

/// Law: making an edit again after taking it back gives the text it had made,
/// and the history as it was.
pub proof fn law_redo_after_undo(b: BufferV)
    requires
        b.wf(),
        b.undo.len() > 0,
    ensures
        b.undone().wf(),
        b.undone().redone().text == b.text,
        b.undone().redone().undo == b.undo,
        b.undone().redone().redo == b.redo,
{
    reveal_with_fuel(undo_ok, 2);
    let e = b.undo.last();
    lemma_inverse(b.text, e.inverse());
    assert(e.inverse().inverse() == e);
    assert(b.undone().redo.drop_last() =~= b.redo);
    assert(b.undone().redo.last() == e);
    assert(b.undone().redone().undo =~= b.undo);
}

/// Law: taking back what was made again gives the text before it.
pub proof fn law_undo_after_redo(b: BufferV)
    requires
        b.wf(),
        b.redo.len() > 0,
    ensures
        b.redone().wf(),
        b.redone().undone().text == b.text,
        b.redone().undone().undo == b.undo,
        b.redone().undone().redo == b.redo,
{
    reveal_with_fuel(redo_ok, 2);
    let e = b.redo.last();
    lemma_inverse(b.text, e);
    assert(b.redone().undo.drop_last() =~= b.undo);
    assert(b.redone().undo.last() == e);
    assert(b.redone().undone().redo =~= b.redo);
}

/// One step of the history.
pub struct Edit {
    at: usize,
    removed: Vec<u8>,
    inserted: Vec<u8>,
}

impl View for Edit {
    type V = EditV;

    closed spec fn view(&self) -> EditV {
        EditV { at: self.at as int, removed: self.removed@, inserted: self.inserted@ }
    }
}

pub open spec fn edits_view(s: Seq<Edit>) -> Seq<EditV> {
    Seq::new(s.len(), |i: int| s[i]@)
}

/// The text of a document with its carets and its history.
pub struct TextBuffer {
    bytes: Vec<u8>,
    selections: Vec<Selection>,
    dirty: bool,
    revision: u64,
    path: Option<String>,
    undo: Vec<Edit>,
    redo: Vec<Edit>,
}

/// The characters of an optional string.
pub open spec fn opt_text(s: Option<String>) -> Option<Seq<char>> {
    match s {
        Some(t) => Some(t@),
        None => None,
    }
}

impl View for TextBuffer {
    type V = BufferV;

    closed spec fn view(&self) -> BufferV {
        BufferV {
            text: self.bytes@,
            selections: self.selections@,
            dirty: self.dirty,
            revision: self.revision,
            path: opt_text(self.path),
            undo: edits_view(self.undo@),
            redo: edits_view(self.redo@),
        }
    }
}

/// `bytes` with the part from `start` to `end` replaced; the part is returned.
fn splice_bytes(bytes: &mut Vec<u8>, start: usize, end: usize, with: &[u8]) -> (removed: Vec<u8>)
    requires
        start <= end <= old(bytes).len(),
    ensures
        final(bytes)@ == splice(old(bytes)@, start as int, end as int, with@),
        removed@ == old(bytes)@.subrange(start as int, end as int),
{
    let mut tail: Vec<u8> = bytes.split_off(end);
    let removed: Vec<u8> = bytes.split_off(start);
    let mut middle: Vec<u8> = slice_to_vec(with);
    bytes.append(&mut middle);
    bytes.append(&mut tail);
    removed
}

impl TextBuffer {
    /// A buffer over `bytes`, not yet changed, with one caret at the start.
    pub fn from_bytes(bytes: Vec<u8>) -> (r: TextBuffer)
        requires
            bytes.len() <= isize::MAX,
        ensures
            r@ == (BufferV {
                text: bytes@,
                selections: seq![caret(0)],
                dirty: false,
                revision: 0,
                path: None,
                undo: seq![],
                redo: seq![],
            }),
            r@.wf(),
    {
        let mut selections: Vec<Selection> = Vec::new();
        selections.push(Selection::collapsed(0));
        let r = TextBuffer {
            bytes,
            selections,
            dirty: false,
            revision: 0,
            path: None,
            undo: Vec::new(),
            redo: Vec::new(),
        };
        assert(r@.selections =~= seq![caret(0)]);
        assert(r@.undo =~= seq![]);
        assert(r@.redo =~= seq![]);
        r
    }

    /// A buffer over `bytes` that is saved to `path`.
    pub fn from_bytes_with_path(bytes: Vec<u8>, path: String) -> (r: TextBuffer)
        requires
            bytes.len() <= isize::MAX,
        ensures
            r@ == (BufferV {
                text: bytes@,
                selections: seq![caret(0)],
                dirty: false,
                revision: 0,
                path: Some(path@),
                undo: seq![],
                redo: seq![],
            }),
            r@.wf(),
    {
        let mut r = TextBuffer::from_bytes(bytes);
        r.path = Some(path);
        r
    }

    /// An empty buffer without a path.
    pub fn new() -> (r: TextBuffer)
        ensures
            r@ == (BufferV {
                text: seq![],
                selections: seq![caret(0)],
                dirty: false,
                revision: 0,
                path: None,
                undo: seq![],
                redo: seq![],
            }),
            r@.wf(),
    {
        let bytes: Vec<u8> = Vec::new();
        TextBuffer::from_bytes(bytes)
    }

    pub fn len(&self) -> (r: usize)
        ensures
            r == self@.len(),
    {
        self.bytes.len()
    }

    pub fn is_empty(&self) -> (r: bool)
        ensures
            r == (self@.text.len() == 0),
    {
        self.bytes.len() == 0
    }

    /// A copy of the text.
    pub fn to_bytes(&self) -> (r: Vec<u8>)
        ensures
            r@ == self@.text,
    {
        slice_to_vec(self.bytes.as_slice())
    }

    pub fn is_dirty(&self) -> (r: bool)
        ensures
            r == self@.dirty,
    {
        self.dirty
    }

    pub fn revision(&self) -> (r: u64)
        ensures
            r == self@.revision,
    {
        self.revision
    }

    /// Where the buffer is saved to, if anywhere.
    pub fn source_path(&self) -> (r: Option<&String>)
        ensures
            r matches Some(p) ==> self@.path == Some(p@),
            r is None <==> self@.path is None,
    {
        self.path.as_ref()
    }

    pub fn set_source_path(&mut self, path: String)
        ensures
            final(self)@ == (BufferV { path: Some(path@), ..old(self)@ }),
    {
        self.path = Some(path);
    }

    /// Record that the text is now what is on disk.
    pub fn mark_saved(&mut self)
        ensures
            final(self)@ == (BufferV { dirty: false, ..old(self)@ }),
    {
        self.dirty = false;
    }

    /// The byte at `i`.
    pub fn byte(&self, i: usize) -> (r: u8)
        requires
            i < self@.len(),
        ensures
            r == self@.text[i as int],
    {
        self.bytes[i]
    }

    /// A copy of the bytes from `start` to `end`.
    pub fn copy_range(&self, start: usize, end: usize) -> (r: Vec<u8>)
        requires
            start <= end <= self@.len(),
        ensures
            r@ == self@.text.subrange(start as int, end as int),
    {
        slice_to_vec(vstd::slice::slice_subrange(self.bytes.as_slice(), start, end))
    }

    // ----- carets -----

    /// All selections; the first is the primary one.
    pub fn selections(&self) -> (r: &Vec<Selection>)
        ensures
            r@ == self@.selections,
    {
        &self.selections
    }

    /// The primary selection.
    pub fn selection(&self) -> (r: Selection)
        requires
            self@.wf(),
        ensures
            r == self@.primary(),
    {
        self.selections[0]
    }

    /// The caret: the head of the primary selection.
    pub fn cursor(&self) -> (r: usize)
        requires
            self@.wf(),
        ensures
            r == self@.cursor(),
            r <= self@.len(),
    {
        self.selections[0].head
    }

    /// Replace the selections, each pulled back into the text. An empty list
    /// changes nothing.
    pub fn set_selections(&mut self, selections: Vec<Selection>)
        requires
            old(self)@.wf(),
        ensures
            final(self)@ == (if selections@.len() == 0 {
                old(self)@
            } else {
                old(self)@.with_selections(selections@)
            }),
            final(self)@.wf(),
    {
        if selections.len() == 0 {
            return;
        }
        self.selections = selections;
        self.clamp();
        assert(self@ =~= old(self)@.with_selections(selections@));
    }

    /// Select one stretch of text.
    pub fn set_selection(&mut self, selection: Selection)
        requires
            old(self)@.wf(),
        ensures
            final(self)@ == old(self)@.with_selections(seq![selection]),
            final(self)@.wf(),
    {
        let mut one: Vec<Selection> = Vec::new();
        one.push(selection);
        assert(one@ =~= seq![selection]);
        self.set_selections(one);
    }

    /// Leave a single caret at `pos`, or at the end of the text if it is
    /// shorter.
    pub fn set_cursor(&mut self, pos: usize)
        requires
            old(self)@.wf(),
        ensures
            final(self)@ == old(self)@.with_cursor(pos as int),
            final(self)@.wf(),
    {
        self.set_selection(Selection::collapsed(pos));
        assert(self@ =~= old(self)@.with_cursor(pos as int));
    }

    /// Pull every selection back into the text.
    fn clamp(&mut self)
        ensures
            final(self).selections@ == clamp_selections(
                old(self).selections@,
                old(self).bytes@.len() as int,
            ),
            final(self).bytes == old(self).bytes,
            final(self).dirty == old(self).dirty,
            final(self).revision == old(self).revision,
            final(self).path == old(self).path,
            final(self).undo == old(self).undo,
            final(self).redo == old(self).redo,
    {
        let len: usize = self.bytes.len();
        let mut out: Vec<Selection> = Vec::new();
        let mut i: usize = 0;
        while i < self.selections.len()
            invariant
                i <= self.selections.len(),
                len == self.bytes@.len(),
                out@ == clamp_selections(self.selections@.take(i as int), len as int),
            decreases self.selections.len() - i,
        {
            let s: Selection = self.selections[i];
            let anchor: usize = if s.anchor <= len { s.anchor } else { len };
            let head: usize = if s.head <= len { s.head } else { len };
            out.push(Selection { anchor, head });
            i += 1;
            assert(out@ =~= clamp_selections(self.selections@.take(i as int), len as int));
        }
        assert(self.selections@.take(i as int) =~= self.selections@);
        self.selections = out;
    }

    // ----- edits -----

    /// Replace the bytes from `start` to `end` by `with`, as one step of the
    /// history.
    pub fn replace_bytes(&mut self, start: usize, end: usize, with: &[u8]) -> (r: Result<
        (),
        BufferError,
    >)
        requires
            old(self)@.wf(),
        ensures
            final(self)@.wf(),
            r == replace_result(old(self)@, start as int, end as int, with@),
            r is Ok ==> final(self)@ == old(self)@.replaced(start as int, end as int, with@),
            r is Err ==> final(self)@ == old(self)@,
    {
        let len: usize = self.bytes.len();
        if start > end || end > len {
            return Err(BufferError::OutOfRange);
        }
        let kept: usize = len - (end - start);
        if with.len() > isize::MAX as usize - kept {
            return Err(BufferError::TooLarge);
        }
        proof {
            lemma_replaced_wf(self@, start as int, end as int, with@);
        }
        let removed: Vec<u8> = splice_bytes(&mut self.bytes, start, end, with);
        self.undo.push(Edit { at: start, removed, inserted: slice_to_vec(with) });
        self.redo = Vec::new();
        self.dirty = true;
        self.revision = self.revision.wrapping_add(1);
        self.clamp();
        assert(self@ =~= old(self)@.replaced(start as int, end as int, with@)) by {
            assert(self@.undo =~= old(self)@.undo.push(
                EditV {
                    at: start as int,
                    removed: old(self)@.text.subrange(start as int, end as int),
                    inserted: with@,
                },
            ));
            assert(self@.redo =~= seq![]);
        }
        Ok(())
    }

    /// Replace the bytes from `start` to `end` by `text`, as one step of the
    /// history.
    pub fn replace(&mut self, start: usize, end: usize, text: &str) -> (r: Result<(), BufferError>)
        requires
            old(self)@.wf(),
        ensures
            final(self)@.wf(),
            r == replace_result(old(self)@, start as int, end as int, encode_utf8(text@)),
            r is Ok ==> final(self)@ == old(self)@.replaced(
                start as int,
                end as int,
                encode_utf8(text@),
            ),
            r is Err ==> final(self)@ == old(self)@,
    {
        self.replace_bytes(start, end, text.as_bytes())
    }

    /// Delete the bytes from `start` to `end`; the answer is where they were.
    pub fn delete(&mut self, start: usize, end: usize) -> (r: Result<usize, BufferError>)
        requires
            old(self)@.wf(),
        ensures
            final(self)@.wf(),
            r == (if start <= end && end <= old(self)@.len() {
                Ok::<usize, BufferError>(start)
            } else {
                Err(BufferError::OutOfRange)
            }),
            r is Ok ==> final(self)@ == old(self)@.deleted(start as int, end as int),
            r is Err ==> final(self)@ == old(self)@,
    {
        proof {
            reveal_strlit("");
            assert(""@ =~= seq![]);
            assert(encode_utf8(""@) =~= seq![]);
        }
        match self.replace(start, end, "") {
            Ok(()) => Ok(start),
            Err(e) => Err(e),
        }
    }

    /// Insert `text` at `pos` and leave the caret behind it; the answer is
    /// where that is.
    pub fn insert(&mut self, pos: usize, text: &str) -> (r: Result<usize, BufferError>)
        requires
            old(self)@.wf(),
        ensures
            final(self)@.wf(),
            r == (if pos > old(self)@.len() {
                Err::<usize, BufferError>(BufferError::OutOfRange)
            } else if !old(self)@.can_replace(pos as int, pos as int, encode_utf8(text@)) {
                Err(BufferError::TooLarge)
            } else {
                Ok((pos + encode_utf8(text@).len()) as usize)
            }),
            r is Ok ==> final(self)@ == old(self)@.inserted(pos as int, encode_utf8(text@)),
            r is Err ==> final(self)@ == old(self)@,
    {
        let before: usize = self.bytes.len();
        match self.replace(pos, pos, text) {
            Ok(()) => {
                proof {
                    lemma_replaced_wf(old(self)@, pos as int, pos as int, encode_utf8(text@));
                }
                let after: usize = pos + (self.bytes.len() - before);
                self.set_cursor(after);
                assert(self@ =~= old(self)@.inserted(pos as int, encode_utf8(text@)));
                Ok(after)
            },
            Err(e) => Err(e),
        }
    }

    /// Take the last edit back. Says whether there was one.
    pub fn undo(&mut self) -> (r: bool)
        requires
            old(self)@.wf(),
        ensures
            final(self)@.wf(),
            r == (old(self)@.undo.len() > 0),
            final(self)@ == old(self)@.undone(),
    {
        match self.undo.pop() {
            None => false,
            Some(e) => {
                proof {
                    assert(e@ == old(self)@.undo.last());
                    law_redo_after_undo(old(self)@);
                }
                let end: usize = e.at + e.inserted.len();
                let _ = splice_bytes(&mut self.bytes, e.at, end, e.removed.as_slice());
                self.redo.push(e);
                self.dirty = true;
                self.revision = self.revision.wrapping_add(1);
                self.clamp();
                assert(self@ =~= old(self)@.undone()) by {
                    assert(self@.undo =~= old(self)@.undo.drop_last());
                    assert(self@.redo =~= old(self)@.redo.push(e@));
                }
                true
            },
        }
    }

    /// Make the edit taken back last again. Says whether there was one.
    pub fn redo(&mut self) -> (r: bool)
        requires
            old(self)@.wf(),
        ensures
            final(self)@.wf(),
            r == (old(self)@.redo.len() > 0),
            final(self)@ == old(self)@.redone(),
    {
        match self.redo.pop() {
            None => false,
            Some(e) => {
                proof {
                    assert(e@ == old(self)@.redo.last());
                    law_undo_after_redo(old(self)@);
                }
                let end: usize = e.at + e.removed.len();
                let _ = splice_bytes(&mut self.bytes, e.at, end, e.inserted.as_slice());
                self.undo.push(e);
                self.dirty = true;
                self.revision = self.revision.wrapping_add(1);
                self.clamp();
                assert(self@ =~= old(self)@.redone()) by {
                    assert(self@.redo =~= old(self)@.redo.drop_last());
                    assert(self@.undo =~= old(self)@.undo.push(e@));
                }
                true
            },
        }
    }

    // ----- lines -----

    pub fn line_count(&self) -> (r: usize)
        requires
            self@.wf(),
        ensures
            r == line_total(self@.text),
            r >= 1,
    {
        lines::line_count(&self.bytes)
    }

    /// The byte range of a line, its newline not counted.
    pub fn line_byte_range(&self, line: usize) -> (r: Option<core::ops::Range<usize>>)
        ensures
            r is Some <==> line < line_total(self@.text),
            r matches Some(p) ==> p.start == line_start(self@.text, line as nat) && p.end
                == line_end(self@.text, line as nat) && p.start <= p.end <= self@.len(),
    {
        match lines::line_range(&self.bytes, line) {
            Some((start, end)) => Some(start..end),
            None => None,
        }
    }

    /// The line and the byte column of a position.
    pub fn pos_to_linecol(&self, pos: usize) -> (r: Option<(usize, usize)>)
        ensures
            r is Some <==> pos <= self@.len(),
            r matches Some(p) ==> p.0 == line_at(self@.text, pos as int) && p.1 == pos - line_start(
                self@.text,
                line_at(self@.text, pos as int),
            ) && p.0 < line_total(self@.text),
    {
        proof {
            if pos <= self@.len() {
                lines::lemma_line_at(self@.text, pos as int);
            }
        }
        lines::pos_to_linecol(&self.bytes, pos)
    }

    /// The position of a line and byte column.
    pub fn linecol_to_pos(&self, line: usize, col: usize) -> (r: Option<usize>)
        ensures
            r matches Some(p) ==> lines::pos_spec(self@.text, line as nat, col as int) == Some(
                p as int,
            ) && p <= self@.len(),
            r is None ==> lines::pos_spec(self@.text, line as nat, col as int) is None,
    {
        lines::linecol_to_pos(&self.bytes, line, col)
    }

    /// The text from `start` to `end`, where that is a valid range of valid
    /// UTF-8.
    pub fn slice(&self, start: usize, end: usize) -> (r: Option<String>)
        ensures
            r is Some <==> start <= end && end <= self@.len() && valid_utf8(
                self@.text.subrange(start as int, end as int),
            ),
            r matches Some(s) ==> encode_utf8(s@) == self@.text.subrange(start as int, end as int),
    {
        if start > end || end > self.bytes.len() {
            return None;
        }
        decode_bytes(self.copy_range(start, end))
    }

    /// The text of a line without its newline, where it is valid UTF-8.
    pub fn line_text(&self, line: usize) -> (r: Option<String>)
        ensures
            r is Some <==> line < line_total(self@.text) && valid_utf8(
                line_bytes(self@.text, line as nat),
            ),
            r matches Some(s) ==> encode_utf8(s@) == line_bytes(self@.text, line as nat),
    {
        match self.line_byte_range(line) {
            Some(p) => self.slice(p.start, p.end),
            None => None,
        }
    }

    /// The text that a line is shown as, whether it is valid UTF-8 or not.
    pub fn shown_line(&self, line: usize) -> (r: String)
        requires
            line < line_total(self@.text),
        ensures
            r@ == lossy_utf8(line_bytes(self@.text, line as nat)),
            valid_utf8(line_bytes(self@.text, line as nat)) ==> encode_utf8(r@) == line_bytes(
                self@.text,
                line as nat,
            ),
    {
        match self.line_byte_range(line) {
            Some(p) => show_bytes(self.copy_range(p.start, p.end).as_slice()),
            None => String::new(),
        }
    }
}

} // verus!

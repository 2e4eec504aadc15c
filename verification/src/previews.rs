//! What tells one document from another, and the previews that are known by it.
//!
//! A preview is kept until another document or another revision is shown. It
//! is known by the number of the document and the revision of the text, so
//! numbers are given by the editor: no two open documents share one, and none
//! is given anew while a preview is still known by it.

use vstd::prelude::*;

use crate::buffer::BufferV;
use crate::csv_preview::{
    csv_records, error_preview, oversized_message, preview_spec, CsvPreview, MAX_PREVIEW_BYTES,
};
use crate::document::{DocInfo, DocV};
use crate::edits::{edits_made, ByteEditV};
use crate::files::{content_bytes, doc_at_path, FileContent};
use crate::markdown::{
    blocks_of, blocks_view, markdown_events, preview_extensions, MarkdownPreview,
};
use crate::modes::MarkdownPreviewMode;
use crate::state::{AppV, EditorApp};
use crate::text::{lossy_utf8, show_bytes};

verus! {

// ----- numbers of documents -----

/// No two documents have the same number.
pub open spec fn ids_differ(docs: Seq<DocV>) -> bool {
    forall|i: int, j: int|
        0 <= i < j < docs.len() ==> (#[trigger] docs[i]).id != (#[trigger] docs[j]).id
}

/// The highest number among the first `n` documents and `least`.
pub open spec fn highest_id(docs: Seq<DocV>, n: int, least: u64) -> u64
    decreases n,
{
    if n <= 0 {
        least
    } else {
        larger(docs[n - 1].id, highest_id(docs, n - 1, least))
    }
}

pub open spec fn larger(a: u64, b: u64) -> u64 {
    if a > b { a } else { b }
}

/// The number in what a preview is known by.
pub open spec fn key_id(key: Option<(u64, u64)>) -> u64 {
    match key {
        Some(k) => k.0,
        None => 0,
    }
}

impl AppV {
    /// The highest number of a document, open or shown in a preview.
    pub open spec fn last_id(self) -> u64 {
        highest_id(
            self.documents,
            self.documents.len() as int,
            larger(key_id(self.previews.markdown.key), key_id(self.previews.csv@.key)),
        )
    }

    /// The number for a new document: above all others while there is one.
    #[verifier::opaque]
    pub open spec fn fresh_id(self) -> u64 {
        if self.last_id() == u64::MAX { 0 } else { (self.last_id() + 1) as u64 }
    }
}

proof fn lemma_highest(docs: Seq<DocV>, n: int, least: u64)
    requires
        0 <= n <= docs.len(),
    ensures
        least <= highest_id(docs, n, least),
        forall|i: int| 0 <= i < n ==> (#[trigger] docs[i]).id <= highest_id(docs, n, least),
    decreases n,
{
    if n > 0 {
        lemma_highest(docs, n - 1, least);
    }
}

/// Law: while numbers are left, the one for a new document is that of no open
/// document and of no preview.
pub proof fn law_fresh_id_is_unused(s: AppV)
    requires
        s.last_id() < u64::MAX,
    ensures
        forall|i: int| 0 <= i < s.documents.len() ==> (#[trigger] s.documents[i]).id < s.fresh_id(),
        s.previews.markdown.key matches Some(k) ==> k.0 < s.fresh_id(),
        s.previews.csv@.key matches Some(k) ==> k.0 < s.fresh_id(),
{
    reveal(AppV::fresh_id);
    lemma_highest(
        s.documents,
        s.documents.len() as int,
        larger(key_id(s.previews.markdown.key), key_id(s.previews.csv@.key)),
    );
}

impl EditorApp {
    /// The number for a new document.
    pub(crate) fn fresh_id(&self) -> (r: u64)
        ensures
            r == self@.fresh_id(),
    {
        proof {
            reveal(AppV::fresh_id);
        }
        let markdown: u64 = match self.previews().markdown.key {
            Some(k) => k.0,
            None => 0,
        };
        let table: u64 = match self.previews().csv.key {
            Some(k) => k.0,
            None => 0,
        };
        let mut highest: u64 = if markdown > table { markdown } else { table };
        let ghost least = highest;
        let count: usize = self.doc_count();
        let mut i: usize = 0;
        while i < count
            invariant
                i <= count == self@.documents.len(),
                highest == highest_id(self@.documents, i as int, least),
            decreases count - i,
        {
            let id: u64 = self.document(i).id();
            if id > highest {
                highest = id;
            }
            i += 1;
        }
        if highest == u64::MAX { 0 } else { highest + 1 }
    }
}

// ----- refreshing -----

/// The preview shows this text.
pub open spec fn markdown_shows(preview: MarkdownPreview, text: Seq<u8>) -> bool {
    blocks_view(preview.blocks@) == blocks_of(
        markdown_events(lossy_utf8(text), preview_extensions()),
    )
}

/// The preview shows the table in this text, or that it is too large for one.
pub open spec fn table_shows(preview: CsvPreview, key: (u64, u64), text: Seq<u8>) -> bool {
    preview@ == (if text.len() > MAX_PREVIEW_BYTES {
        error_preview(key, oversized_message(text.len()))
    } else {
        preview_spec(key, text, csv_records(text))
    })
}

impl AppV {
    /// What a preview of the active document is known by.
    pub open spec fn preview_key(self) -> (u64, u64) {
        (self.doc().id, self.buf().revision)
    }

    /// `after` is the editor once the active document was read as Markdown,
    /// where it is shown so and was not read yet.
    pub open spec fn markdown_refreshed(self, after: AppV) -> bool {
        let stale = self.markdown_view() != MarkdownPreviewMode::Source
            && self.previews.markdown.key != Some(self.preview_key());
        let preview = after.previews.markdown;
        &&& after == (AppV { previews: after.previews, ..self })
        &&& after.previews.csv == self.previews.csv
        &&& !stale ==> preview == self.previews.markdown
        &&& stale ==> preview.key == Some(self.preview_key()) && markdown_shows(
            preview,
            self.buf().text,
        )
    }

    /// `after` is the editor once the active document was read as a table,
    /// where it is shown so and was not read yet.
    pub open spec fn table_refreshed(self, after: AppV) -> bool {
        let stale = self.shows_table() && self.previews.csv@.key != Some(self.preview_key());
        &&& after == (AppV { previews: after.previews, ..self })
        &&& after.previews.markdown == self.previews.markdown
        &&& !stale ==> after.previews.csv == self.previews.csv
        &&& stale ==> table_shows(after.previews.csv, self.preview_key(), self.buf().text)
    }
}

impl EditorApp {
    fn preview_key(&self) -> (r: (u64, u64))
        requires
            self@.wf(),
        ensures
            r == self@.preview_key(),
    {
        (self.active_doc().id(), self.active_buffer().revision())
    }

    /// Read the active document as Markdown, where it is shown so and was not
    /// read yet.
    pub fn refresh_markdown(&mut self)
        requires
            old(self)@.wf(),
        ensures
            old(self)@.markdown_refreshed(final(self)@),
            final(self)@.wf(),
    {
        let source: bool = match self.markdown_shown_as() {
            MarkdownPreviewMode::Source => true,
            _ => false,
        };
        let key: (u64, u64) = self.preview_key();
        if source || !self.previews().markdown.needs_refresh(key) {
            return;
        }
        let text: String = show_bytes(self.active_buffer().to_bytes().as_slice());
        self.previews_mut().markdown.refresh(key, text.as_str());
    }

    /// Read the active document as a table, where it is shown so and was not
    /// read yet. One that is too large is refused unread.
    pub fn refresh_table(&mut self)
        requires
            old(self)@.wf(),
        ensures
            old(self)@.table_refreshed(final(self)@),
            final(self)@.wf(),
    {
        let key: (u64, u64) = self.preview_key();
        if !self.shows_table() || !self.previews().csv.needs_refresh(key) {
            return;
        }
        let len: usize = self.active_buffer().len();
        if len > MAX_PREVIEW_BYTES {
            self.previews_mut().csv.reject_oversized(key, len);
        } else {
            let bytes: Vec<u8> = self.active_buffer().to_bytes();
            self.previews_mut().csv.refresh(key, bytes.as_slice());
        }
    }
}

// ----- what previews show -----

/// What is known by this document's number was made of its text, or of an
/// earlier revision of it.
pub open spec fn markdown_true(doc: DocV, preview: MarkdownPreview) -> bool {
    preview.key matches Some(k) ==> k.0 == doc.id ==> {
        &&& k.1 <= doc.buffer.revision
        &&& k.1 == doc.buffer.revision ==> markdown_shows(preview, doc.buffer.text)
    }
}

/// As `markdown_true`, of the table.
pub open spec fn table_true(doc: DocV, preview: CsvPreview) -> bool {
    preview@.key matches Some(k) ==> k.0 == doc.id ==> {
        &&& k.1 <= doc.buffer.revision
        &&& k.1 == doc.buffer.revision ==> table_shows(preview, k, doc.buffer.text)
    }
}

impl AppV {
    /// No two documents share a number, and no preview is taken for one of a
    /// text that it was not made of.
    pub open spec fn previews_true(self) -> bool {
        &&& ids_differ(self.documents)
        &&& forall|i: int|
            0 <= i < self.documents.len() ==> markdown_true(
                #[trigger] self.documents[i],
                self.previews.markdown,
            ) && table_true(self.documents[i], self.previews.csv)
    }
}

/// Law: once refreshed, the Markdown preview that is shown is that of the text
/// of the active document.
pub proof fn law_markdown_preview_is_of_active_text(s: AppV, after: AppV)
    requires
        s.wf(),
        s.previews_true(),
        s.markdown_refreshed(after),
    ensures
        s.markdown_view() != MarkdownPreviewMode::Source ==> after.previews.markdown.key == Some(
            s.preview_key(),
        ) && markdown_shows(after.previews.markdown, s.buf().text),
        after.previews_true(),
{
    assert(markdown_true(s.documents[s.active as int], s.previews.markdown));
}

/// Law: once refreshed, the table that is shown is that of the text of the
/// active document.
pub proof fn law_table_is_of_active_text(s: AppV, after: AppV)
    requires
        s.wf(),
        s.previews_true(),
        s.table_refreshed(after),
    ensures
        s.shows_table() ==> table_shows(after.previews.csv, s.preview_key(), s.buf().text),
        after.previews_true(),
{
    assert(table_true(s.documents[s.active as int], s.previews.csv));
}

/// `after` is the same text, or a later revision.
pub open spec fn moved_on(before: BufferV, after: BufferV) -> bool {
    ||| after.revision == before.revision && after.text == before.text
    ||| after.revision > before.revision
}

/// Law: every way to change a text moves it on, while revisions are left.
pub proof fn law_changes_move_text_on(b: BufferV, start: int, end: int, with: Seq<u8>, pos: int)
    requires
        b.revision < u64::MAX,
    ensures
        moved_on(b, b.replaced(start, end, with)),
        moved_on(b, b.deleted(start, end)),
        moved_on(b, b.inserted(pos, with)),
        moved_on(b, b.undone()),
        moved_on(b, b.redone()),
        moved_on(b, b.with_cursor(pos)),
{
}

/// Law: so does a number of edits, while revisions are left.
pub proof fn law_edits_move_text_on(b: BufferV, edits: Seq<ByteEditV>, n: int)
    requires
        0 <= n,
        b.revision + n <= u64::MAX,
    ensures
        moved_on(b, edits_made(b, edits, n)),
        edits_made(b, edits, n).revision <= b.revision + n,
    decreases n,
{
    if n > 0 {
        law_edits_move_text_on(b, edits, n - 1);
    }
}

/// Law: previews stay true while texts move on, whatever else changes in the
/// documents and wherever the focus goes.
pub proof fn law_moving_on_keeps_previews_true(s: AppV, after: AppV)
    requires
        s.previews_true(),
        after.previews == s.previews,
        after.documents.len() == s.documents.len(),
        forall|i: int|
            0 <= i < s.documents.len() ==> (#[trigger] after.documents[i]).id == s.documents[i].id
                && moved_on(s.documents[i].buffer, after.documents[i].buffer),
    ensures
        after.previews_true(),
{
    assert forall|i: int| 0 <= i < after.documents.len() implies markdown_true(
        #[trigger] after.documents[i],
        after.previews.markdown,
    ) && table_true(after.documents[i], after.previews.csv) by {
        assert(markdown_true(s.documents[i], s.previews.markdown));
    }
    assert forall|i: int, j: int| 0 <= i < j < after.documents.len() implies (
    #[trigger] after.documents[i]).id != (#[trigger] after.documents[j]).id by {
        assert(s.documents[i].id != s.documents[j].id);
    }
}

/// A number that no open document and no preview has.
spec fn unused(s: AppV, id: u64) -> bool {
    &&& forall|i: int| 0 <= i < s.documents.len() ==> (#[trigger] s.documents[i]).id != id
    &&& s.previews.markdown.key matches Some(k) ==> k.0 != id
    &&& s.previews.csv@.key matches Some(k) ==> k.0 != id
}

proof fn lemma_document_added(s: AppV, after: AppV, doc: DocV)
    requires
        s.previews_true(),
        unused(s, doc.id),
        after.previews == s.previews,
        after.documents == s.documents.push(doc),
    ensures
        after.previews_true(),
{
    assert forall|i: int| 0 <= i < after.documents.len() implies markdown_true(
        #[trigger] after.documents[i],
        after.previews.markdown,
    ) && table_true(after.documents[i], after.previews.csv) by {
        if i < s.documents.len() {
            assert(markdown_true(s.documents[i], s.previews.markdown));
        }
    }
}

proof fn lemma_document_replaced(s: AppV, after: AppV, at: int, doc: DocV)
    requires
        s.previews_true(),
        unused(s, doc.id),
        0 <= at < s.documents.len(),
        after.previews == s.previews,
        after.documents == s.documents.update(at, doc),
    ensures
        after.previews_true(),
{
    assert forall|i: int| 0 <= i < after.documents.len() implies markdown_true(
        #[trigger] after.documents[i],
        after.previews.markdown,
    ) && table_true(after.documents[i], after.previews.csv) by {
        if i != at {
            assert(markdown_true(s.documents[i], s.previews.markdown));
        }
    }
}

proof fn lemma_document_removed(s: AppV, after: AppV, at: int)
    requires
        s.previews_true(),
        0 <= at < s.documents.len(),
        after.previews == s.previews,
        after.documents == s.documents.remove(at),
    ensures
        after.previews_true(),
{
    let from = |i: int| if i < at { i } else { i + 1 };
    assert forall|i: int| 0 <= i < after.documents.len() implies #[trigger] after.documents[i]
        == s.documents[from(i)] by {}
    assert forall|i: int| 0 <= i < after.documents.len() implies markdown_true(
        #[trigger] after.documents[i],
        after.previews.markdown,
    ) && table_true(after.documents[i], after.previews.csv) by {
        assert(markdown_true(s.documents[from(i)], s.previews.markdown));
    }
    assert forall|i: int, j: int| 0 <= i < j < after.documents.len() implies (
    #[trigger] after.documents[i]).id != (#[trigger] after.documents[j]).id by {
        assert(s.documents[from(i)].id != s.documents[from(j)].id);
    }
}

/// Law: previews stay true when an empty document is opened: it has a number of
/// its own.
pub proof fn law_new_document_keeps_previews_true(s: AppV)
    requires
        s.previews_true(),
        s.last_id() < u64::MAX,
    ensures
        s.doc_created().previews_true(),
{
    law_fresh_id_is_unused(s);
    reveal(AppV::fresh_id);
    lemma_document_added(s, s.doc_created(), s.doc_created().documents.last());
}

/// Law: previews stay true when the document of a path gets the focus, in a new
/// tab where it is not open.
pub proof fn law_switching_keeps_previews_true(s: AppV, path: Seq<char>)
    requires
        s.previews_true(),
        s.last_id() < u64::MAX,
    ensures
        s.switched_to(path).previews_true(),
{
    law_fresh_id_is_unused(s);
    if doc_at_path(s.documents, path, 0) is None {
        lemma_document_added(s, s.switched_to(path), s.switched_to(path).documents.last());
    }
}

/// Law: previews stay true when a file is shown in the active document.
pub proof fn law_opened_file_keeps_previews_true(
    s: AppV,
    path: Seq<char>,
    info: DocInfo,
    content: FileContent,
)
    requires
        s.wf(),
        s.previews_true(),
        s.last_id() < u64::MAX,
    ensures
        s.file_arrived(path, info, content).previews_true(),
{
    law_fresh_id_is_unused(s);
    if !(content is Unreadable) {
        lemma_document_replaced(
            s,
            s.file_arrived(path, info, content),
            s.active as int,
            s.read_doc(path, info, content_bytes(content)),
        );
    }
}

/// Law: previews stay true when the file of a document is read again.
pub proof fn law_reread_file_keeps_previews_true(
    s: AppV,
    path: Seq<char>,
    info: DocInfo,
    content: FileContent,
)
    requires
        s.previews_true(),
        s.last_id() < u64::MAX,
    ensures
        s.file_reread(path, info, content).previews_true(),
{
    law_fresh_id_is_unused(s);
    if let Some(i) = doc_at_path(s.documents, path, 0) {
        lemma_found(s.documents, path, 0);
        if !(content is Unreadable) {
            lemma_document_replaced(
                s,
                s.file_reread(path, info, content),
                i,
                s.read_doc(path, info, content_bytes(content)),
            );
        }
    }
}

proof fn lemma_found(docs: Seq<DocV>, path: Seq<char>, from: int)
    requires
        0 <= from,
    ensures
        doc_at_path(docs, path, from) matches Some(i) ==> from <= i < docs.len(),
    decreases docs.len() - from,
{
    if from < docs.len() {
        lemma_found(docs, path, from + 1);
    }
}

/// Law: previews stay true when the active document is closed.
pub proof fn law_closed_document_keeps_previews_true(s: AppV)
    requires
        s.wf(),
        s.previews_true(),
    ensures
        s.doc_closed().previews_true(),
{
    if s.documents.len() > 1 {
        lemma_document_removed(s, s.doc_closed(), s.active as int);
    }
}

} // verus!

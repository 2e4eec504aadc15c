//! What happens to the open documents, seen from outside.

use vstd::prelude::*;

use crate::app::{topic_of, Topic};
use crate::buffer::BufferV;
use crate::document::{DocInfo, DocV};
use crate::edit_laws::plain_at;
use crate::effect::{Effect, EffectV, SaveKind};
use crate::event::EditorEvent;
use crate::files::{doc_at_path, FileContent};
use crate::find_laws::other_documents_same;
use crate::panels::{CloseChoice, CloseConfirm};
use crate::state::AppV;
use crate::upkeep::unsaved;

verus! {

proof fn lemma_file_event(s: AppV, event: EditorEvent)
    requires
        topic_of(event) == Topic::Files,
    ensures
        s.after(event) == s.file_event(event),
{
    reveal(AppV::after);
}

/// A request was added, and those before it are still there.
pub open spec fn asks_for(s: AppV, after: AppV, effect: Effect) -> bool {
    &&& s.effects.len() < after.effects.len()
    &&& after.effects.take(s.effects.len() as int) == s.effects
    &&& exists|i: int|
        s.effects.len() <= i < after.effects.len() && #[trigger] after.effects[i]
            == EffectV::Plain(effect)
}

// ----- new documents and tabs -----

/// An empty text without a file, unchanged, with the caret at its start.
pub open spec fn is_blank(d: DocV) -> bool {
    &&& d.buffer.text.len() == 0
    &&& d.buffer.path is None
    &&& !d.buffer.dirty
    &&& d.buffer.selections == seq![plain_at(0)]
    &&& d.buffer.undo.len() == 0 && d.buffer.redo.len() == 0
    &&& d.info.uri is None && d.info.language is None
    &&& !d.external_change
}

/// Law: a new document is empty, comes behind all others and gets the focus;
/// the others stay.
pub proof fn law_new_document(s: AppV)
    requires
        s.documents.len() < usize::MAX,
    ensures
        ({
            let after = s.after(EditorEvent::NewDoc);
            &&& after.documents.len() == s.documents.len() + 1
            &&& after.documents.drop_last() == s.documents
            &&& is_blank(after.documents.last())
            &&& after.active == s.documents.len()
        }),
{
    lemma_file_event(s, EditorEvent::NewDoc);
    reveal(AppV::file_event);
    assert(s.after(EditorEvent::NewDoc).documents.drop_last() =~= s.documents);
}

/// Law: the next tab is the one to the right and behind the last the first; the
/// previous one goes the other way. No document changes.
pub proof fn law_tabs_go_around(s: AppV)
    requires
        s.wf(),
        s.documents.len() <= usize::MAX,
    ensures
        s.after(EditorEvent::NextDoc).active == (if s.active + 1 < s.documents.len() {
            s.active + 1
        } else {
            0
        }),
        s.after(EditorEvent::PrevDoc).active == (if s.active > 0 {
            s.active - 1
        } else {
            s.documents.len() - 1
        }),
        s.after(EditorEvent::NextDoc).documents == s.documents,
        s.after(EditorEvent::PrevDoc).documents == s.documents,
{
    lemma_file_event(s, EditorEvent::NextDoc);
    lemma_file_event(s, EditorEvent::PrevDoc);
    reveal(AppV::file_event);
    let n = s.documents.len() as int;
    let a = s.active as int;
    assert((a + 1) % n == if a + 1 < n { a + 1 } else { 0 }) by (nonlinear_arith)
        requires
            0 <= a < n,
    ;
    assert((a - 1) % n == if a > 0 { a - 1 } else { n - 1 }) by (nonlinear_arith)
        requires
            0 <= a < n,
    ;
}

// ----- closing -----

/// The document at `i` is gone and all others are there; the editor ends with
/// the last one.
pub open spec fn closed(s: AppV, after: AppV, i: int) -> bool {
    &&& s.documents.len() > 1 ==> after.documents == s.documents.remove(i) && after.ui.should_quit
        == s.ui.should_quit && after.active < after.documents.len()
    &&& s.documents.len() == 1 ==> after.documents == s.documents && after.ui.should_quit
}

proof fn lemma_close_event(s: AppV)
    ensures
        s.after(EditorEvent::CloseDoc) == s.close_requested(s.active).config_synced().with_effect(
            Effect::WatchFiles,
        ),
{
    lemma_file_event(s, EditorEvent::CloseDoc);
    reveal(AppV::file_event);
}

proof fn lemma_force_close_event(s: AppV)
    ensures
        s.after(EditorEvent::ForceCloseDoc) == s.doc_closed(),
{
    lemma_file_event(s, EditorEvent::ForceCloseDoc);
    reveal(AppV::file_event);
}

proof fn lemma_doc_closed(s: AppV)
    requires
        s.wf(),
    ensures
        closed(s, s.doc_closed(), s.active as int),
        s.documents.len() > 1 ==> s.doc_closed().active == (if s.active + 1 < s.documents.len() {
            s.active as int
        } else {
            s.documents.len() - 2
        }),
{
}

proof fn lemma_close_requested(s: AppV)
    requires
        s.wf(),
    ensures
        !s.buf().dirty ==> closed(s, s.close_requested(s.active), s.active as int),
        s.buf().dirty ==> s.close_requested(s.active).documents == s.documents
            && s.close_requested(s.active).active == s.active && s.close_requested(
            s.active,
        ).ui.should_quit == s.ui.should_quit && s.close_requested(
            s.active,
        ).dialogs.close_confirm == Some(
            CloseConfirm { doc_index: s.active, choice: CloseChoice::Save },
        ),
{
    let same = AppV { active: s.active, ..s };
    assert(same == s);
    lemma_doc_closed(s);
}

/// Law: closing a document without changes takes it out; with changes the user
/// is asked first, and nothing is taken out.
pub proof fn law_document_is_closed(s: AppV)
    requires
        s.wf(),
    ensures
        ({
            let after = s.after(EditorEvent::CloseDoc);
            &&& !s.buf().dirty ==> closed(s, after, s.active as int)
            &&& s.buf().dirty ==> after.documents == s.documents && after.active == s.active
                && after.ui.should_quit == s.ui.should_quit && after.dialogs.close_confirm == Some(
                CloseConfirm { doc_index: s.active, choice: CloseChoice::Save },
            )
        }),
{
    lemma_close_event(s);
    lemma_close_requested(s);
    let t = s.close_requested(s.active);
    assert(t.config_synced().documents == t.documents);
}

/// Law: closing by force does not ask. The focus goes to the document behind,
/// or else to the last.
pub proof fn law_document_is_closed_by_force(s: AppV)
    requires
        s.wf(),
    ensures
        ({
            let forced = s.after(EditorEvent::ForceCloseDoc);
            &&& closed(s, forced, s.active as int)
            &&& s.documents.len() > 1 ==> forced.active == (if s.active + 1
                < s.documents.len() {
                s.active as int
            } else {
                s.documents.len() - 2
            })
        }),
{
    lemma_force_close_event(s);
    lemma_doc_closed(s);
}

/// Law: closing a tab that is not in focus keeps the focus on its document.
pub proof fn law_closing_other_tab_keeps_focus(s: AppV, i: usize)
    requires
        s.wf(),
        i < s.documents.len(),
        i != s.active,
        !s.documents[i as int].buffer.dirty,
    ensures
        closed(s, s.close_requested(i), i as int),
        s.close_requested(i).doc() == s.doc(),
{
    let after = s.close_requested(i);
    assert(after.documents == s.documents.remove(i as int));
}

/// Law: the answer to the question before closing: saving asks for the
/// document to be written and then closed, discarding closes it, cancelling
/// leaves it. The question is gone either way.
pub proof fn law_question_is_answered(s: AppV, c: CloseConfirm)
    requires
        s.wf(),
        s.dialogs.close_confirm == Some(c),
        c.doc_index < s.documents.len(),
    ensures
        ({
            let after = s.choice_confirmed();
            let path = s.documents[c.doc_index as int].buffer.path;
            &&& after.dialogs.close_confirm is None
            &&& c.choice == CloseChoice::Save ==> after.documents == s.documents && after.active
                == c.doc_index && (path is Some ==> asks_for(
                s,
                after,
                Effect::Save(SaveKind::ThenClose),
            ))
            &&& c.choice == CloseChoice::Discard ==> closed(s, after, c.doc_index as int)
            &&& c.choice == CloseChoice::Cancel ==> after.documents == s.documents && after.active
                == s.active && after.effects == s.effects
        }),
{
    let after = s.choice_confirmed();
    if c.choice == CloseChoice::Save {
        assert(after.effects.take(s.effects.len() as int) =~= s.effects);
        if s.documents[c.doc_index as int].buffer.path is Some {
            assert(after.effects[s.effects.len() as int] == EffectV::Plain(
                Effect::Save(SaveKind::ThenClose),
            ));
        }
    }
}

/// Law: the three answers follow one another, forwards and backwards.
pub proof fn law_answers_follow_one_another(s: AppV, c: CloseConfirm)
    requires
        s.dialogs.close_confirm == Some(c),
    ensures
        s.choice_cycled(1).dialogs.close_confirm == Some(
            CloseConfirm {
                choice: match c.choice {
                    CloseChoice::Save => CloseChoice::Discard,
                    CloseChoice::Discard => CloseChoice::Cancel,
                    CloseChoice::Cancel => CloseChoice::Save,
                },
                ..c
            },
        ),
        s.choice_cycled(-1).dialogs.close_confirm == Some(
            CloseConfirm {
                choice: match c.choice {
                    CloseChoice::Save => CloseChoice::Cancel,
                    CloseChoice::Discard => CloseChoice::Save,
                    CloseChoice::Cancel => CloseChoice::Discard,
                },
                ..c
            },
        ),
{
}

// ----- saving -----

/// Law: a document with a file is asked to be written, and one without is not:
/// it is said why. Under a new path it has that path first. The text stays.
pub proof fn law_saving_is_asked_for(s: AppV, path: String)
    requires
        s.wf(),
    ensures
        ({
            let after = s.after(EditorEvent::Save);
            let other = s.after(EditorEvent::SaveAs(Some(path)));
            &&& s.buf().path is Some ==> after == (AppV {
                effects: s.effects.push(EffectV::Plain(Effect::Save(SaveKind::Plain))),
                ..s
            })
            &&& s.buf().path is None ==> after == (AppV {
                status: Some("Save error: no file path"@),
                ..s
            })
            &&& other.buf() == (BufferV { path: Some(path@), ..s.buf() })
            &&& other_documents_same(s, other)
            &&& asks_for(s, other, Effect::Save(SaveKind::Plain))
        }),
{
    lemma_file_event(s, EditorEvent::Save);
    lemma_file_event(s, EditorEvent::SaveAs(Some(path)));
    reveal(AppV::file_event);
    let other = s.after(EditorEvent::SaveAs(Some(path)));
    assert(other.effects.take(s.effects.len() as int) =~= s.effects);
    assert(other.effects[s.effects.len() as int + 1] == EffectV::Plain(
        Effect::Save(SaveKind::Plain),
    ));
}

/// Law: a document that was written has no changes any more and the same text;
/// one that could not be written keeps its change mark.
pub proof fn law_written_document_has_no_changes(s: AppV, error: Seq<char>)
    requires
        s.wf(),
    ensures
        ({
            let done = s.save_finished(SaveKind::Plain, None);
            let failed = s.save_finished(SaveKind::Plain, Some(error));
            let closes = s.save_finished(SaveKind::ThenClose, None);
            &&& done.buf() == (BufferV { dirty: false, ..s.buf() })
            &&& other_documents_same(s, done)
            &&& failed == (AppV { status: Some("Save error: "@ + error), ..s })
            &&& s.documents.len() > 1 ==> closes.documents == s.documents.remove(s.active as int)
            &&& s.save_finished(SaveKind::ThenClose, Some(error)).documents == s.documents
            &&& s.save_finished(SaveKind::AfterFormatter, None).buf() == (BufferV {
                dirty: false,
                ..s.buf()
            })
            &&& s.save_finished(SaveKind::AfterServerFormat, None).buf() == (BufferV {
                dirty: false,
                ..s.buf()
            })
            &&& s.save_finished(SaveKind::AfterFormatter, Some(error)) == s
            &&& s.save_finished(SaveKind::AfterServerFormat, Some(error)).documents
                == s.documents
        }),
{
    let closes = s.save_finished(SaveKind::ThenClose, None);
    if s.documents.len() > 1 {
        assert(closes.documents =~= s.documents.remove(s.active as int));
    }
}

// ----- opening -----

/// Law: a file is asked for by its path.
pub proof fn law_file_is_asked_for(s: AppV, path: String)
    requires
        s.wf(),
    ensures
        ({
            let after = s.after(EditorEvent::OpenFile(Some(path)));
            &&& after.documents == s.documents && after.active == s.active
            &&& after.effects.take(s.effects.len() as int) == s.effects
            &&& after.effects.contains(EffectV::LoadFile(path@))
            &&& s.after(EditorEvent::OpenFile(None)).effects.last() == EffectV::Plain(
                Effect::PickOpenPath,
            )
            &&& s.after(EditorEvent::ReloadFile) == (if s.buf().path is Some {
                AppV { effects: s.effects.push(EffectV::Plain(Effect::ReloadActive)), ..s }
            } else {
                AppV { status: Some("No file to reload."@), ..s }
            })
        }),
{
    lemma_file_event(s, EditorEvent::OpenFile(Some(path)));
    lemma_file_event(s, EditorEvent::OpenFile(None));
    lemma_file_event(s, EditorEvent::ReloadFile);
    reveal(AppV::file_event);
    let after = s.after(EditorEvent::OpenFile(Some(path)));
    assert(after.effects.take(s.effects.len() as int) =~= s.effects);
    assert(after.effects[s.effects.len() as int + 1] == EffectV::LoadFile(path@));
}

/// The document shows these bytes as they are in the file at `path`.
pub open spec fn shows_file(d: DocV, path: Seq<char>, info: DocInfo, bytes: Seq<u8>) -> bool {
    &&& d.buffer.text == bytes
    &&& d.buffer.path == Some(path)
    &&& !d.buffer.dirty
    &&& d.buffer.selections == seq![plain_at(0)]
    &&& d.buffer.undo.len() == 0 && d.buffer.redo.len() == 0
    &&& d.info == info
    &&& !d.external_change
}

/// Law: a file that was read is shown in the active document, exactly its
/// bytes, and a missing one as an empty text; one that could not be read
/// leaves the documents and says so.
pub proof fn law_file_is_shown(s: AppV, path: Seq<char>, info: DocInfo, content: FileContent)
    requires
        s.wf(),
    ensures
        ({
            let after = s.file_arrived(path, info, content);
            &&& content matches FileContent::Bytes(b) ==> shows_file(
                after.documents[s.active as int],
                path,
                info,
                b@,
            )
            &&& content is Missing ==> shows_file(
                after.documents[s.active as int],
                path,
                info,
                Seq::<u8>::empty(),
            )
            &&& content matches FileContent::Unreadable(e) ==> after == (AppV {
                status: Some("Open error: "@ + e@),
                ..s
            })
            &&& after.documents.len() == s.documents.len() && after.active == s.active
            &&& forall|i: int|
                0 <= i < s.documents.len() && i != s.active ==> #[trigger] after.documents[i]
                    == s.documents[i]
        }),
{
}

/// Document `i` is the first with this path.
pub open spec fn is_first_at(docs: Seq<DocV>, path: Seq<char>, i: int) -> bool {
    &&& 0 <= i < docs.len()
    &&& docs[i].buffer.path == Some(path)
    &&& forall|j: int| 0 <= j < i ==> (#[trigger] docs[j]).buffer.path != Some(path)
}

proof fn lemma_doc_at_path(docs: Seq<DocV>, path: Seq<char>, from: int)
    requires
        0 <= from <= docs.len(),
        forall|j: int| 0 <= j < from ==> (#[trigger] docs[j]).buffer.path != Some(path),
    ensures
        doc_at_path(docs, path, from) matches Some(i) ==> is_first_at(docs, path, i),
        doc_at_path(docs, path, from) is None ==> forall|j: int|
            0 <= j < docs.len() ==> (#[trigger] docs[j]).buffer.path != Some(path),
    decreases docs.len() - from,
{
    if from < docs.len() && docs[from].buffer.path != Some(path) {
        lemma_doc_at_path(docs, path, from + 1);
    }
}

/// Law: a path that is open gets the focus; another is opened in a tab of its
/// own and its file asked for.
pub proof fn law_path_gets_the_focus(s: AppV, path: Seq<char>)
    requires
        s.wf(),
        s.documents.len() < usize::MAX,
    ensures
        ({
            let after = s.switched_to(path);
            let open = exists|i: int|
                0 <= i < s.documents.len() && (#[trigger] s.documents[i]).buffer.path == Some(path);
            &&& open ==> after.documents == s.documents && is_first_at(
                s.documents,
                path,
                after.active as int,
            )
            &&& !open ==> after.documents.drop_last() == s.documents && is_blank(
                after.documents.last(),
            ) && after.active == s.documents.len() && after.effects.contains(
                EffectV::LoadFile(path),
            )
        }),
{
    lemma_doc_at_path(s.documents, path, 0);
    let after = s.switched_to(path);
    if doc_at_path(s.documents, path, 0) is None {
        assert(after.documents.drop_last() =~= s.documents);
        assert(after.effects[s.effects.len() as int] == EffectV::LoadFile(path));
    }
}

/// Law: a file that was read again takes the place of the document with its
/// path, and no other document changes.
pub proof fn law_file_is_shown_again(
    s: AppV,
    path: Seq<char>,
    info: DocInfo,
    content: FileContent,
    i: int,
)
    requires
        s.wf(),
        is_first_at(s.documents, path, i),
    ensures
        ({
            let after = s.file_reread(path, info, content);
            &&& content matches FileContent::Bytes(b) ==> shows_file(
                after.documents[i],
                path,
                info,
                b@,
            )
            &&& content is Missing ==> shows_file(
                after.documents[i],
                path,
                info,
                Seq::<u8>::empty(),
            )
            &&& content is Unreadable ==> after.documents == s.documents && after.status is Some
            &&& after.documents.len() == s.documents.len() && after.active == s.active
            &&& forall|j: int|
                0 <= j < s.documents.len() && j != i ==> #[trigger] after.documents[j]
                    == s.documents[j]
        }),
{
    lemma_doc_at_path(s.documents, path, 0);
    let found = doc_at_path(s.documents, path, 0);
    if let Some(k) = found {
        if k < i {
            assert(s.documents[k].buffer.path != Some(path));
        } else if i < k {
            assert(s.documents[i].buffer.path != Some(path));
        }
    } else {
        assert(s.documents[i].buffer.path != Some(path));
    }
}

// ----- changes by other programs -----

/// Law: when another program changes the file of a document, a document without
/// changes is read again; one with changes keeps them, is marked, and the user
/// is told.
pub proof fn law_changed_file_is_noted(s: AppV, path: Seq<char>, i: int)
    requires
        is_first_at(s.documents, path, i),
    ensures
        ({
            let after = s.change_noted(path);
            &&& !s.documents[i].buffer.dirty ==> after == (AppV {
                effects: s.effects.push(EffectV::ReloadFile(path)),
                ..s
            })
            &&& s.documents[i].buffer.dirty ==> {
                &&& after.documents == s.documents.update(
                    i,
                    DocV { external_change: true, ..s.documents[i] },
                )
                &&& after.effects == s.effects
                &&& after.status is Some
            }
        }),
{
    lemma_doc_at_path(s.documents, path, 0);
    let found = doc_at_path(s.documents, path, 0);
    if let Some(k) = found {
        if k < i {
            assert(s.documents[k].buffer.path != Some(path));
        } else if i < k {
            assert(s.documents[i].buffer.path != Some(path));
        }
    } else {
        assert(s.documents[i].buffer.path != Some(path));
    }
}

/// Law: the documents that are saved by themselves are those with a file and
/// changes, each once and in order.
pub proof fn law_unsaved_documents(docs: Seq<DocV>, n: int)
    requires
        0 <= n <= docs.len(),
        n <= usize::MAX,
    ensures
        ({
            let found = unsaved(docs, n);
            &&& forall|k: int|
                0 <= k < found.len() ==> (#[trigger] found[k]) < n && docs[found[k] as int].buffer.dirty
                    && docs[found[k] as int].buffer.path is Some
            &&& forall|j: int, k: int| 0 <= j < k < found.len() ==> found[j] < found[k]
            &&& forall|i: int|
                0 <= i < n && (#[trigger] docs[i]).buffer.dirty && docs[i].buffer.path is Some
                    ==> found.contains(i as usize)
        }),
    decreases n,
{
    if n > 0 {
        law_unsaved_documents(docs, n - 1);
        let before = unsaved(docs, n - 1);
        let found = unsaved(docs, n);
        assert forall|i: int|
            0 <= i < n && (#[trigger] docs[i]).buffer.dirty && docs[i].buffer.path
                is Some implies found.contains(i as usize) by {
            if i < n - 1 {
                let k = choose|k: int| 0 <= k < before.len() && before[k] == i as usize;
                assert(found[k] == i as usize);
            } else {
                assert(found[found.len() - 1] == i as usize);
            }
        }
    }
}

/// Law: a document that was saved by itself has no changes any more; its text
/// and the other documents stay.
pub proof fn law_saved_document_stays(s: AppV, i: usize)
    requires
        i < s.documents.len(),
    ensures
        ({
            let d = s.documents[i as int];
            s.written(i).documents == s.documents.update(
                i as int,
                DocV { buffer: BufferV { dirty: false, ..d.buffer }, ..d },
            )
        }),
{
}

} // verus!

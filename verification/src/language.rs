//! What is asked of language servers and formatters, and what their answers
//! do.

use vstd::prelude::*;
use vstd::utf8::*;

use crate::buffer::{replace_result, BufferV, Selection, TextBuffer};
use crate::document::{DocV, Document};
use crate::edits::{
    apply_edits, byte_edits_view, edits_counted, from_the_right, place_edits, placed_edits,
    ByteEdit, ByteEditV, LspEdit, Position,
};
use crate::effect::{EditMark, Effect, SaveKind};
use crate::lines::{line_at, line_start, pos_spec};
use crate::motion::{clamped_line_charcol_to_pos, clamped_pos};
use crate::occurrences::{caret_word, word_at_cursor};
use crate::panels::{CompletionItem, CompletionV, HoverV, LspDefinitionState, RenameDialog};
use crate::state::{lemma_same_buf, AppV, DialogsV, EditorApp, LspV, Ui};
use crate::text::{decimal, push_decimal, same_text};
use crate::typing::{error_text, mark_of};

verus! {

// ----- places -----

/// A byte position as a language server wants it.
pub open spec fn lsp_place(b: BufferV, pos: int) -> Position {
    let line = line_at(b.text, pos);
    Position {
        line: (line as usize) as u32,
        character: ((pos - line_start(b.text, line)) as usize) as u32,
    }
}

impl AppV {
    /// Where a byte position is, if the document has an address.
    pub open spec fn lsp_at(self, pos: int) -> Option<Position> {
        if self.doc().info.uri is Some && pos <= self.buf().len() {
            Some(lsp_place(self.buf(), pos))
        } else {
            None
        }
    }

    /// Where the caret is, if the document has an address.
    pub open spec fn lsp_cursor(self) -> Option<Position> {
        self.lsp_at(self.buf().cursor() as int)
    }

    pub open spec fn with_lsp(self, lsp: LspV) -> AppV {
        AppV { lsp, ..self }
    }

    /// The caret at a place that a language server names.
    pub open spec fn at_place(self, pos: Position) -> AppV {
        self.with_cursor(
            clamped_pos(self.buf().text, pos.line as int, pos.character as nat),
        )
    }
}

impl EditorApp {
    /// A byte position of the active document as a language server wants it.
    pub fn lsp_position_for_byte(&self, pos: usize) -> (r: Option<Position>)
        requires
            self@.wf(),
        ensures
            r == self@.lsp_at(pos as int),
    {
        if self.active_doc().info.uri.is_none() {
            return None;
        }
        match self.active_buffer().pos_to_linecol(pos) {
            Some((line, col)) => Some(Position { line: line as u32, character: col as u32 }),
            None => None,
        }
    }

    /// The place of the caret as a language server wants it.
    pub fn lsp_cursor_position(&self) -> (r: Option<Position>)
        requires
            self@.wf(),
        ensures
            r == self@.lsp_cursor(),
            r is Some <==> self@.doc().info.uri is Some,
    {
        let pos: usize = self.active_buffer().cursor();
        self.lsp_position_for_byte(pos)
    }

    /// Put the caret at a place that a language server names.
    pub fn set_cursor_lsp_position(&mut self, pos: Position)
        requires
            old(self)@.wf(),
        ensures
            final(self)@ == old(self)@.at_place(pos),
            final(self)@.wf(),
    {
        let to: usize = clamped_line_charcol_to_pos(
            self.active_buffer(),
            pos.line as usize,
            pos.character as usize,
        );
        self.place_cursor(to);
    }
}

// ----- completion -----

impl AppV {
    pub open spec fn with_completion(self, completion: CompletionV) -> AppV {
        self.with_lsp(LspV { completion, ..self.lsp })
    }

    pub open spec fn completion_asked(self) -> AppV {
        match self.lsp_cursor() {
            None => self.with_status("LSP: no file URI."@),
            Some(pos) => self.with_completion(
                CompletionV { open: true, pending: true, selected: 0, items: seq![] },
            ).with_effect(Effect::LspCompletion(pos)).with_status(
                "LSP: requesting completions..."@,
            ),
        }
    }

    /// Completions taken over, if they are still waited for.
    pub open spec fn completion_answered(self, items: Option<Seq<CompletionItem>>) -> AppV {
        let c = self.lsp.completion;
        if !c.pending {
            self
        } else if self.lsp_cursor() is None {
            self.with_completion(CompletionV { pending: false, ..c })
        } else {
            match items {
                Some(items) => self.with_completion(CompletionV { items, pending: false, ..c }),
                None => self,
            }
        }
    }

    pub open spec fn completion_closed(self) -> AppV {
        self.with_completion(CompletionV { open: false, ..self.lsp.completion })
    }

    /// The text of a completion put in place of the selected text.
    pub open spec fn completed(self, text: Seq<char>, label: Seq<char>) -> AppV {
        let b = self.buf();
        let start = b.primary().start();
        let bytes = encode_utf8(text);
        match replace_result(b, start, b.primary().end(), bytes) {
            Ok(_) => self.with_buf(
                b.replaced(start, b.primary().end(), bytes),
            ).with_cursor(start + bytes.len()).with_status("Completed: "@ + label).edit_finished(
                mark_of(b),
            ),
            Err(e) => self.with_status("Completion insert error: "@ + e.message_spec()),
        }
    }

    /// The selected completion put in, and the popup closed. With nothing
    /// selected it is only closed.
    pub open spec fn completion_applied(self) -> AppV {
        let c = self.lsp.completion;
        if !c.open || c.selected >= c.items.len() {
            self.completion_closed()
        } else {
            let item = c.items[c.selected as int];
            let text = match item.insert_text {
                Some(t) => t@,
                None => item.label@,
            };
            let s = self.completed(text, item.label@);
            s.with_completion(CompletionV { open: false, pending: false, ..s.lsp.completion })
        }
    }

    pub open spec fn completion_row(self, row: usize) -> AppV {
        self.with_completion(CompletionV { selected: row, ..self.lsp.completion })
    }
}

/// The completions of an answer.
pub open spec fn items_view(items: Option<Vec<CompletionItem>>) -> Option<Seq<CompletionItem>> {
    match items {
        Some(i) => Some(i@),
        None => None,
    }
}

impl EditorApp {
    /// Ask the language server for completions.
    pub fn request_completion(&mut self)
        requires
            old(self)@.wf(),
        ensures
            final(self)@ == old(self)@.completion_asked(),
            final(self)@.wf(),
    {
        match self.lsp_cursor_position() {
            None => self.set_status("LSP: no file URI."),
            Some(pos) => {
                let completion = &mut self.lsp_mut().completion;
                completion.open = true;
                completion.pending = true;
                completion.selected = 0;
                completion.items = Vec::new();
                assert(completion@.items =~= seq![]);
                self.push_effect(Effect::LspCompletion(pos));
                self.set_status("LSP: requesting completions...");
            },
        }
    }

    /// Take over completions, if there are any yet.
    pub fn completion_arrived(&mut self, items: Option<Vec<CompletionItem>>)
        requires
            old(self)@.wf(),
        ensures
            final(self)@ == old(self)@.completion_answered(items_view(items)),
            final(self)@.wf(),
    {
        if !self.lsp().completion.pending {
            return;
        }
        if self.lsp_cursor_position().is_none() {
            self.lsp_mut().completion.pending = false;
            return;
        }
        match items {
            Some(items) => {
                let completion = &mut self.lsp_mut().completion;
                completion.items = items;
                completion.pending = false;
            },
            None => {},
        }
    }

    pub fn close_completion(&mut self)
        requires
            old(self)@.wf(),
        ensures
            final(self)@ == old(self)@.completion_closed(),
            final(self)@.wf(),
    {
        self.lsp_mut().completion.open = false;
    }

    pub fn select_completion(&mut self, row: usize)
        requires
            old(self)@.wf(),
        ensures
            final(self)@ == old(self)@.completion_row(row),
            final(self)@.wf(),
    {
        self.lsp_mut().completion.selected = row;
    }

    fn put_completion(&mut self, text: &str, label: &str)
        requires
            old(self)@.wf(),
        ensures
            final(self)@ == old(self)@.completed(text@, label@),
            final(self)@.wf(),
    {
        let mark: EditMark = self.edit_mark();
        let s: Selection = self.active_buffer().selection();
        let range = s.range();
        match self.active_buffer_mut().replace(range.start, range.end, text) {
            Ok(()) => {
                let len: usize = text.as_bytes().len();
                proof {
                    crate::buffer::lemma_replaced_wf(
                        old(self)@.buf(),
                        range.start as int,
                        range.end as int,
                        encode_utf8(text@),
                    );
                }
                let now: usize = self.active_buffer().len();
                assert(range.start + len <= now);
                self.place_cursor(range.start + len);
                let mut status: String = "Completed: ".to_owned();
                status.append(label);
                self.set_status_text(status);
                self.finish_edit(mark);
            },
            Err(e) => {
                proof {
                    lemma_same_buf(old(self)@);
                }
                let status: String = error_text("Completion insert error: ", e);
                self.set_status_text(status);
            },
        }
    }

    /// The text and the label of the selected completion.
    fn chosen_completion(&self) -> (r: Option<(String, String)>)
        ensures
            r is Some <==> self@.lsp.completion.open && self@.lsp.completion.selected
                < self@.lsp.completion.items.len(),
            r matches Some((text, label)) ==> ({
                let item = self@.lsp.completion.items[self@.lsp.completion.selected as int];
                &&& label@ == item.label@
                &&& text@ == (match item.insert_text {
                    Some(t) => t@,
                    None => item.label@,
                })
            }),
    {
        let completion = &self.lsp().completion;
        if !completion.open || completion.selected >= completion.items.len() {
            return None;
        }
        let item: &CompletionItem = &completion.items[completion.selected];
        let text: String = match &item.insert_text {
            Some(t) => t.clone(),
            None => item.label.clone(),
        };
        Some((text, item.label.clone()))
    }

    fn end_completion(&mut self)
        requires
            old(self)@.wf(),
        ensures
            final(self)@ == old(self)@.with_completion(
                CompletionV { open: false, pending: false, ..old(self)@.lsp.completion },
            ),
            final(self)@.wf(),
    {
        let completion = &mut self.lsp_mut().completion;
        completion.open = false;
        completion.pending = false;
    }

    /// Put the selected completion in and close the popup.
    pub fn apply_lsp_completion(&mut self)
        requires
            old(self)@.wf(),
        ensures
            final(self)@ == old(self)@.completion_applied(),
            final(self)@.wf(),
    {
        match self.chosen_completion() {
            None => self.close_completion(),
            Some((text, label)) => {
                self.put_completion(text.as_str(), label.as_str());
                self.end_completion();
            },
        }
    }
}

// ----- hover -----

impl AppV {
    pub open spec fn with_hover(self, hover: HoverV) -> AppV {
        self.with_lsp(LspV { hover, ..self.lsp })
    }

    pub open spec fn hover_asked(self) -> AppV {
        match self.lsp_cursor() {
            Some(pos) => self.with_hover(
                HoverV { open: false, text: seq![], request_pos: Some(pos) },
            ).with_effect(Effect::LspHover(pos)).with_status("LSP: requesting hover..."@),
            None => self.with_status("LSP: hover not available."@),
        }
    }

    /// A documentation taken over, if it is still waited for.
    pub open spec fn hover_answered(self, text: Option<Seq<char>>) -> AppV {
        let h = self.lsp.hover;
        if h.request_pos is None {
            self
        } else if self.lsp_cursor() is None {
            self.with_hover(HoverV { request_pos: None, ..h })
        } else {
            match text {
                Some(text) => self.with_hover(
                    HoverV { open: text.len() > 0, text, request_pos: None },
                ),
                None => self,
            }
        }
    }

    pub open spec fn hover_closed(self) -> AppV {
        self.with_hover(HoverV { open: false, ..self.lsp.hover })
    }
}

impl EditorApp {
    /// Ask the language server what is known of the place at the caret.
    pub fn request_hover(&mut self)
        requires
            old(self)@.wf(),
        ensures
            final(self)@ == old(self)@.hover_asked(),
            final(self)@.wf(),
    {
        match self.lsp_cursor_position() {
            Some(pos) => {
                let hover = &mut self.lsp_mut().hover;
                hover.open = false;
                hover.text = String::new();
                hover.request_pos = Some(pos);
                assert(hover@.text =~= seq![]);
                self.push_effect(Effect::LspHover(pos));
                self.set_status("LSP: requesting hover...");
            },
            None => self.set_status("LSP: hover not available."),
        }
    }

    /// Take over what the language server says, if it has said it yet.
    pub fn hover_arrived(&mut self, text: Option<String>)
        requires
            old(self)@.wf(),
        ensures
            final(self)@ == old(self)@.hover_answered(crate::buffer::opt_text(text)),
            final(self)@.wf(),
    {
        if self.lsp().hover.request_pos.is_none() {
            return;
        }
        if self.lsp_cursor_position().is_none() {
            self.lsp_mut().hover.request_pos = None;
            return;
        }
        match text {
            Some(text) => {
                let hover = &mut self.lsp_mut().hover;
                hover.open = !text.as_str().is_empty();
                hover.text = text;
                hover.request_pos = None;
            },
            None => {},
        }
    }

    pub fn close_hover(&mut self)
        requires
            old(self)@.wf(),
        ensures
            final(self)@ == old(self)@.hover_closed(),
            final(self)@.wf(),
    {
        self.lsp_mut().hover.open = false;
    }
}

// ----- definitions -----

/// Where a definition was found.
#[derive(Debug)]
pub struct LspTarget {
    pub uri: String,
    pub pos: Position,
}

impl AppV {
    pub open spec fn with_definition(self, definition: LspDefinitionState) -> AppV {
        self.with_lsp(LspV { definition, ..self.lsp })
    }

    pub open spec fn definition_asked(self) -> AppV {
        match self.lsp_cursor() {
            Some(pos) => self.definition_asked_at(pos, false),
            None => self.with_status("LSP: definition not available."@),
        }
    }

    pub open spec fn definition_asked_at(self, pos: Position, from_cmd_click: bool) -> AppV {
        self.with_definition(
            LspDefinitionState { pending: true, request_pos: Some(pos), from_cmd_click },
        ).with_effect(Effect::LspDefinition(pos)).with_status("LSP: requesting definition..."@)
    }

    /// A definition taken over, if it is still waited for. `place` says what
    /// the address of the target is on disk.
    pub open spec fn definition_answered(
        self,
        answer: Option<Option<LspTarget>>,
        place: Option<Seq<char>>,
    ) -> AppV {
        let d = self.lsp.definition;
        let idle = LspDefinitionState { pending: false, request_pos: None, from_cmd_click: false };
        if !d.pending {
            self
        } else {
            match self.lsp_cursor() {
                None => self.with_definition(
                    LspDefinitionState { pending: false, request_pos: None, ..d },
                ),
                Some(here) => match (d.request_pos, answer) {
                    (Some(asked), Some(target)) => if !d.from_cmd_click && asked != here {
                        self.with_definition(idle).with_status(
                            "LSP: cursor moved; definition ignored."@,
                        )
                    } else {
                        match target {
                            Some(t) => self.with_definition(idle).jumped_to(t, place),
                            None => self.with_definition(idle).with_status(
                                "LSP: no definition found."@,
                            ),
                        }
                    },
                    _ => self,
                },
            }
        }
    }

    /// The document of an address.
    pub open spec fn doc_with_uri(self, uri: Seq<char>) -> Option<int> {
        uri_index(self.documents, uri, 0)
    }

    /// The caret at a target: in the active document, in another open one, or
    /// in one that is asked for by its path on disk.
    pub open spec fn jumped_to(self, target: LspTarget, place: Option<Seq<char>>) -> AppV {
        if has_uri(self.doc(), target.uri@) {
            self.at_place(target.pos)
        } else {
            match place {
                None => self.with_status("LSP: definition target is not a local file."@),
                Some(path) => match self.doc_with_uri(target.uri@) {
                    Some(i) => AppV { active: i as usize, ..self }.tree_synced().at_place(
                        target.pos,
                    ),
                    None => self.switched_to(path).with_effect(
                        Effect::FinishJump { uri: target.uri, pos: target.pos },
                    ),
                },
            }
        }
    }

    pub open spec fn jump_finished(self, target: LspTarget) -> AppV {
        if has_uri(self.doc(), target.uri@) {
            self.at_place(target.pos)
        } else {
            self.with_status("LSP: could not open definition file."@)
        }
    }
}

/// The document has this address.
pub open spec fn has_uri(d: DocV, uri: Seq<char>) -> bool {
    crate::buffer::opt_text(d.info.uri) == Some(uri)
}

/// The first document from `from` on with this address.
pub open spec fn uri_index(docs: Seq<DocV>, uri: Seq<char>, from: int) -> Option<int>
    decreases docs.len() - from,
{
    if from >= docs.len() || from < 0 {
        None
    } else if has_uri(docs[from], uri) {
        Some(from)
    } else {
        uri_index(docs, uri, from + 1)
    }
}

/// What an address stands for on disk.
#[derive(Debug)]
pub enum LocalPath {
    /// Nothing.
    Elsewhere,
    /// A path that is text.
    Text(String),
    /// A path that is not.
    NotText,
}

impl View for LocalPath {
    type V = Option<Option<Seq<char>>>;

    open spec fn view(&self) -> Option<Option<Seq<char>>> {
        match self {
            LocalPath::Elsewhere => None,
            LocalPath::Text(path) => Some(Some(path@)),
            LocalPath::NotText => Some(None),
        }
    }
}

/// What is opened for an address: its path or, where that is not text, the
/// address itself.
pub open spec fn place_of(found: LocalPath, uri: Seq<char>) -> Option<Seq<char>> {
    match found {
        LocalPath::Elsewhere => None,
        LocalPath::Text(path) => Some(path@),
        LocalPath::NotText => Some(uri),
    }
}

/// What is opened for an address, once it is known what it stands for.
pub fn place_to_open(found: LocalPath, uri: &str) -> (r: Option<String>)
    ensures
        crate::buffer::opt_text(r) == place_of(found, uri@),
{
    match found {
        LocalPath::Elsewhere => None,
        LocalPath::Text(path) => Some(path),
        LocalPath::NotText => Some(uri.to_owned()),
    }
}

/// `found` is something that the url crate may make of the address `uri`, on one
/// machine or another: nothing (`None`), a path that is not text, or a path.
pub uninterp spec fn made_of(uri: Seq<char>, found: Option<Option<Seq<char>>>) -> bool;

/// `found` is what the address `uri` stands for. One without a colon is no
/// address, and a path is never empty.
pub open spec fn stands_for(uri: Seq<char>, found: LocalPath) -> bool {
    &&& made_of(uri, found@)
    &&& !uri.contains(':') ==> found is Elsewhere
    &&& found matches LocalPath::Text(path) ==> path@.len() > 0
}

/// Wraps `url::Url::parse` and `url::Url::to_file_path`: the path on disk that
/// an address stands for, where it is an address and stands for a local path.
/// Claimed is that it was made of this address, that a text without a colon is
/// no address, and that a path is not empty. Which path an address becomes is
/// left unsaid: paths are spelled differently from one operating system to
/// another, so `made_of` relates the two and is no function of the address.
#[verifier::external_body]
fn local_path(uri: &str) -> (r: LocalPath)
    ensures
        made_of(uri@, r@),
        !uri@.contains(':') ==> r is Elsewhere,
        r matches LocalPath::Text(p) ==> p@.len() > 0,
{
    match url::Url::parse(uri).ok().and_then(|address| address.to_file_path().ok()) {
        None => LocalPath::Elsewhere,
        Some(path) => match path.to_str() {
            Some(text) => LocalPath::Text(text.to_owned()),
            None => LocalPath::NotText,
        },
    }
}

fn doc_has_uri(doc: &Document, uri: &str) -> (r: bool)
    ensures
        r == has_uri(doc@, uri@),
{
    match &doc.info.uri {
        Some(u) => same_text(u.as_str(), uri),
        None => false,
    }
}

/// What is opened for an answer, as far as it names a target.
pub open spec fn answered_place(answer: Option<Option<LspTarget>>, found: LocalPath) -> Option<
    Seq<char>,
> {
    match answer {
        Some(Some(target)) => place_of(found, target.uri@),
        _ => None,
    }
}

/// `found` is what the target of an answer stands for, as far as it names one.
pub open spec fn answer_stands_for(answer: Option<Option<LspTarget>>, found: LocalPath) -> bool {
    answer matches Some(Some(target)) ==> stands_for(target.uri@, found)
}

impl EditorApp {
    /// Ask the language server where the thing at the caret is defined.
    pub fn request_definition(&mut self)
        requires
            old(self)@.wf(),
        ensures
            final(self)@ == old(self)@.definition_asked(),
            final(self)@.wf(),
    {
        match self.lsp_cursor_position() {
            Some(pos) => self.request_definition_at(pos, false),
            None => self.set_status("LSP: definition not available."),
        }
    }

    /// Ask the language server where the thing at a place is defined.
    pub fn request_definition_at(&mut self, pos: Position, from_cmd_click: bool)
        requires
            old(self)@.wf(),
        ensures
            final(self)@ == old(self)@.definition_asked_at(pos, from_cmd_click),
            final(self)@.wf(),
    {
        self.lsp_mut().definition = LspDefinitionState {
            pending: true,
            request_pos: Some(pos),
            from_cmd_click,
        };
        self.push_effect(Effect::LspDefinition(pos));
        self.set_status("LSP: requesting definition...");
    }

    fn find_uri(&self, uri: &str) -> (r: Option<usize>)
        ensures
            r is None <==> self@.doc_with_uri(uri@) is None,
            r matches Some(i) ==> self@.doc_with_uri(uri@) == Some(i as int) && i
                < self@.documents.len(),
    {
        let count: usize = self.doc_count();
        let mut i: usize = 0;
        while i < count
            invariant
                i <= count == self@.documents.len(),
                uri_index(self@.documents, uri@, i as int) == uri_index(self@.documents, uri@, 0),
            decreases count - i,
        {
            if doc_has_uri(self.document(i), uri) {
                return Some(i);
            }
            i += 1;
        }
        None
    }

    fn show_place(&mut self, index: usize, pos: Position)
        requires
            old(self)@.wf(),
            index < old(self)@.documents.len(),
        ensures
            final(self)@ == (AppV { active: index, ..old(self)@ }.tree_synced().at_place(pos)),
            final(self)@.wf(),
    {
        self.set_active(index);
        self.sync_project_tree_to_active();
        self.set_cursor_lsp_position(pos);
    }

    fn open_place(&mut self, target: LspTarget, path: String)
        requires
            old(self)@.wf(),
        ensures
            final(self)@ == old(self)@.switched_to(path@).with_effect(
                Effect::FinishJump { uri: target.uri, pos: target.pos },
            ),
            final(self)@.wf(),
    {
        self.open_or_switch_to_path(path);
        self.push_effect(Effect::FinishJump { uri: target.uri, pos: target.pos });
    }

    /// Go to a target whose path on disk is known.
    pub fn jump_to_place(&mut self, target: LspTarget, place: Option<String>)
        requires
            old(self)@.wf(),
        ensures
            final(self)@ == old(self)@.jumped_to(target, crate::buffer::opt_text(place)),
            final(self)@.wf(),
    {
        if doc_has_uri(self.active_doc(), target.uri.as_str()) {
            self.set_cursor_lsp_position(target.pos);
            return;
        }
        match place {
            None => self.set_status("LSP: definition target is not a local file."),
            Some(path) => match self.find_uri(target.uri.as_str()) {
                Some(i) => self.show_place(i, target.pos),
                None => self.open_place(target, path),
            },
        }
    }

    /// Go to a target.
    pub fn jump_to_lsp_location(&mut self, target: LspTarget)
        requires
            old(self)@.wf(),
        ensures
            exists|found: LocalPath| #[trigger]
                stands_for(target.uri@, found) && final(self)@ == old(self)@.jumped_to(
                    target,
                    place_of(found, target.uri@),
                ),
            final(self)@.wf(),
    {
        let found: LocalPath = local_path(target.uri.as_str());
        let ghost what = found;
        let place: Option<String> = place_to_open(found, target.uri.as_str());
        assert(stands_for(target.uri@, what));
        self.jump_to_place(target, place);
    }

    /// Go to a target, now that its file was asked for.
    pub fn finish_jump(&mut self, target: LspTarget)
        requires
            old(self)@.wf(),
        ensures
            final(self)@ == old(self)@.jump_finished(target),
            final(self)@.wf(),
    {
        if doc_has_uri(self.active_doc(), target.uri.as_str()) {
            self.set_cursor_lsp_position(target.pos);
        } else {
            self.set_status("LSP: could not open definition file.");
        }
    }

    fn end_definition(&mut self, keep_click: bool)
        requires
            old(self)@.wf(),
        ensures
            final(self)@ == old(self)@.with_definition(
                LspDefinitionState {
                    pending: false,
                    request_pos: None,
                    from_cmd_click: keep_click && old(self)@.lsp.definition.from_cmd_click,
                },
            ),
            final(self)@.wf(),
    {
        let click: bool = self.lsp().definition.from_cmd_click;
        self.lsp_mut().definition = LspDefinitionState {
            pending: false,
            request_pos: None,
            from_cmd_click: keep_click && click,
        };
    }

    fn follow_definition(&mut self, target: Option<LspTarget>, place: Option<String>)
        requires
            old(self)@.wf(),
        ensures
            final(self)@ == (match target {
                Some(t) => old(self)@.with_definition(
                    LspDefinitionState { pending: false, request_pos: None, from_cmd_click: false },
                ).jumped_to(t, crate::buffer::opt_text(place)),
                None => old(self)@.with_definition(
                    LspDefinitionState { pending: false, request_pos: None, from_cmd_click: false },
                ).with_status("LSP: no definition found."@),
            }),
            final(self)@.wf(),
    {
        self.end_definition(false);
        match target {
            Some(t) => self.jump_to_place(t, place),
            None => self.set_status("LSP: no definition found."),
        }
    }

    /// Take over where a definition is, if the server has said it yet. `place`
    /// is the path of the target on disk.
    pub fn definition_arrived(
        &mut self,
        answer: Option<Option<LspTarget>>,
        place: Option<String>,
    )
        requires
            old(self)@.wf(),
        ensures
            final(self)@ == old(self)@.definition_answered(answer, crate::buffer::opt_text(place)),
            final(self)@.wf(),
    {
        let d: LspDefinitionState = self.lsp().definition;
        if !d.pending {
            return;
        }
        match self.lsp_cursor_position() {
            None => self.end_definition(true),
            Some(here) => match (d.request_pos, answer) {
                (Some(asked), Some(target)) => {
                    if !d.from_cmd_click && asked != here {
                        self.end_definition(false);
                        self.set_status("LSP: cursor moved; definition ignored.");
                    } else {
                        self.follow_definition(target, place);
                    }
                },
                _ => {},
            },
        }
    }

    /// Take over what the language server has answered by now.
    pub fn process_lsp_responses(
        &mut self,
        completion: Option<Vec<CompletionItem>>,
        hover: Option<String>,
        definition: Option<Option<LspTarget>>,
    )
        requires
            old(self)@.wf(),
        ensures
            exists|found: LocalPath| #[trigger]
                answer_stands_for(definition, found) && final(self)@
                    == old(self)@.completion_answered(items_view(completion)).hover_answered(
                    crate::buffer::opt_text(hover),
                ).definition_answered(definition, answered_place(definition, found)),
            final(self)@.wf(),
    {
        self.completion_arrived(completion);
        self.hover_arrived(hover);
        let place: Option<String> = EditorApp::target_path(&definition);
        let ghost found = choose|found: LocalPath| #[trigger]
            answer_stands_for(definition, found) && crate::buffer::opt_text(place)
                == answered_place(definition, found);
        assert(answer_stands_for(definition, found));
        self.definition_arrived(definition, place);
    }

    /// The path on disk of a target, as far as an answer names one.
    fn target_path(answer: &Option<Option<LspTarget>>) -> (r: Option<String>)
        ensures
            exists|found: LocalPath| #[trigger]
                answer_stands_for(*answer, found) && crate::buffer::opt_text(r)
                    == answered_place(*answer, found),
    {
        match answer {
            Some(Some(target)) => {
                let found: LocalPath = local_path(target.uri.as_str());
                let ghost what = found;
                let place: Option<String> = place_to_open(found, target.uri.as_str());
                assert(answer_stands_for(*answer, what));
                place
            },
            _ => {
                assert(answer_stands_for(*answer, LocalPath::Elsewhere));
                None
            },
        }
    }
}

// ----- rename -----

impl AppV {
    pub open spec fn with_rename(self, rename: Option<Seq<char>>) -> AppV {
        AppV { dialogs: DialogsV { rename, ..self.dialogs }, ..self }
    }

    /// The new name asked for, the word at the caret to begin with.
    pub open spec fn rename_opened(self, possible: bool) -> AppV {
        if possible {
            self.with_rename(
                Some(
                    match caret_word(self.buf()) {
                        Some(w) => w,
                        None => seq![],
                    },
                ),
            )
        } else {
            self.with_status("LSP: rename not supported."@)
        }
    }

    /// The language server asked to rename.
    #[verifier::opaque]
    pub open spec fn rename_asked(self, new_name: String) -> AppV {
        let s = self.with_rename(None);
        match self.lsp_cursor() {
            Some(pos) => s.with_effect(Effect::LspRename { pos, new_name }).with_status(
                "LSP: requesting rename..."@,
            ),
            None => s,
        }
    }
}

/// The edits of one file.
#[derive(Debug)]
pub struct FileEdits {
    pub uri: String,
    pub edits: Vec<LspEdit>,
}

/// Edits of several files, no file twice.
#[derive(Debug)]
pub struct WorkspaceEdit {
    pub changes: Option<Vec<FileEdits>>,
}

/// The edits of the file with an address, from `from` on.
pub open spec fn edits_of(changes: Seq<FileEdits>, uri: Seq<char>, from: int) -> Option<
    Seq<LspEdit>,
>
    decreases changes.len() - from,
{
    if from >= changes.len() || from < 0 {
        None
    } else if changes[from].uri@ == uri {
        Some(changes[from].edits@)
    } else {
        edits_of(changes, uri, from + 1)
    }
}

impl AppV {
    /// The edits of the active document out of those of many.
    pub open spec fn own_edits(self, edit: WorkspaceEdit) -> Option<Seq<ByteEditV>> {
        match (edit.changes, self.doc().info.uri) {
            (Some(changes), Some(uri)) => match edits_of(changes@, uri@, 0) {
                Some(edits) => Some(placed_edits(self.buf().text, edits)),
                None => None,
            },
            _ => None,
        }
    }

    /// How many of the edits fit the active document.
    pub open spec fn edits_fitting(self, edits: Seq<ByteEditV>) -> nat {
        edits_counted(self.buf(), from_the_right(edits), edits.len() as int)
    }

    /// The active document after the edits of a language server. Where none
    /// fitted, it is only colored anew.
    #[verifier::opaque]
    pub open spec fn edits_taken(self, edits: Seq<ByteEditV>) -> AppV {
        if self.edits_fitting(edits) > 0 {
            self.edited(edits).rewrite_finished()
        } else {
            self.edited(edits).uncolored()
        }
    }

    pub open spec fn workspace_edited(self, edit: WorkspaceEdit) -> AppV {
        match self.own_edits(edit) {
            Some(edits) => self.edits_taken(edits),
            None => self,
        }
    }

    /// How many edits of the active document fitted.
    pub open spec fn workspace_count(self, edit: WorkspaceEdit) -> nat {
        match self.own_edits(edit) {
            Some(edits) => self.edits_fitting(edits),
            None => 0,
        }
    }

    pub open spec fn renamed(self, edit: WorkspaceEdit) -> AppV {
        self.workspace_edited(edit).with_status(
            "Renamed ("@ + decimal(self.workspace_count(edit)) + " edits)."@,
        )
    }
}

impl EditorApp {
    /// Ask whether the language server can rename.
    pub fn request_rename(&mut self)
        requires
            old(self)@.wf(),
        ensures
            final(self)@ == (if old(self)@.doc().info.uri is Some {
                old(self)@.with_effect(Effect::LspCanRename)
            } else {
                old(self)@
            }),
            final(self)@.wf(),
    {
        if self.active_doc().info.uri.is_some() {
            self.push_effect(Effect::LspCanRename);
        }
    }

    /// Ask for the new name, if the language server can rename.
    pub fn open_rename_dialog(&mut self, possible: bool)
        requires
            old(self)@.wf(),
        ensures
            final(self)@ == old(self)@.rename_opened(possible),
            final(self)@.wf(),
    {
        if !possible {
            self.set_status("LSP: rename not supported.");
            return;
        }
        let new_name: String = match word_at_cursor(self.active_buffer()) {
            Some(w) => w,
            None => String::new(),
        };
        assert(caret_word(self@.buf()) is None ==> new_name@ =~= seq![]);
        self.dialogs_mut().rename = Some(RenameDialog { new_name });
    }

    fn send_rename(&mut self, new_name: String)
        requires
            old(self)@.wf(),
        ensures
            final(self)@ == old(self)@.rename_asked(new_name),
            final(self)@.wf(),
    {
        proof {
            reveal(AppV::rename_asked);
        }
        self.dialogs_mut().rename = None;
        match self.lsp_cursor_position() {
            Some(pos) => {
                self.push_effect(Effect::LspRename { pos, new_name });
                self.set_status("LSP: requesting rename...");
            },
            None => {},
        }
    }

    /// Close the dialog and have the thing at the caret renamed.
    pub fn apply_rename(&mut self, new_name: String)
        requires
            old(self)@.wf(),
        ensures
            final(self)@ == old(self)@.rename_asked(new_name).edit_finished(
                mark_of(old(self)@.buf()),
            ),
            final(self)@.wf(),
    {
        let mark: EditMark = self.edit_mark();
        self.send_rename(new_name);
        self.finish_edit(mark);
    }

    /// The edits of the active document out of those of many.
    fn own_edits(&self, edit: &WorkspaceEdit) -> (r: Option<Vec<ByteEdit>>)
        requires
            self@.wf(),
        ensures
            r is Some <==> self@.own_edits(*edit) is Some,
            r matches Some(e) ==> self@.own_edits(*edit) == Some(byte_edits_view(e@)),
    {
        let doc: &Document = self.active_doc();
        match (&edit.changes, &doc.info.uri) {
            (Some(changes), Some(uri)) => {
                let mut i: usize = 0;
                while i < changes.len()
                    invariant
                        i <= changes.len(),
                        doc@ == self@.doc(),
                        doc@.buffer.wf(),
                        doc.info.uri == Some(*uri),
                        edit.changes == Some(*changes),
                        edits_of(changes@, uri@, i as int) == edits_of(changes@, uri@, 0),
                    decreases changes.len() - i,
                {
                    if same_text(changes[i].uri.as_str(), uri.as_str()) {
                        return Some(place_edits(&doc.buffer, &changes[i].edits));
                    }
                    i += 1;
                }
                None
            },
            _ => None,
        }
    }

    fn edit_active(&mut self, edits: &Vec<ByteEdit>) -> (r: usize)
        requires
            old(self)@.wf(),
        ensures
            final(self)@ == old(self)@.edited(byte_edits_view(edits@)),
            r == old(self)@.edits_fitting(byte_edits_view(edits@)),
            final(self)@.wf(),
    {
        apply_edits(self.active_buffer_mut(), edits)
    }

    /// Make the edits of a language server. Returns how many fitted.
    fn take_edits(&mut self, edits: &Vec<ByteEdit>) -> (r: usize)
        requires
            old(self)@.wf(),
        ensures
            final(self)@ == old(self)@.edits_taken(byte_edits_view(edits@)),
            r == old(self)@.edits_fitting(byte_edits_view(edits@)),
            final(self)@.wf(),
    {
        proof {
            reveal(AppV::edits_taken);
        }
        let count: usize = self.edit_active(edits);
        if count > 0 {
            self.finish_rewrite();
        } else {
            self.uncolor_active();
        }
        count
    }

    /// Make the edits of the active document. Returns how many fitted.
    pub fn apply_workspace_edit(&mut self, edit: &WorkspaceEdit) -> (r: usize)
        requires
            old(self)@.wf(),
        ensures
            final(self)@ == old(self)@.workspace_edited(*edit),
            r == old(self)@.workspace_count(*edit),
            final(self)@.wf(),
    {
        match self.own_edits(edit) {
            None => 0,
            Some(edits) => self.take_edits(&edits),
        }
    }

    /// Take over a rename, if the server has answered yet.
    pub fn apply_pending_rename(&mut self, edit: Option<WorkspaceEdit>)
        requires
            old(self)@.wf(),
        ensures
            final(self)@ == (match edit {
                Some(e) => if old(self)@.doc().info.uri is Some {
                    old(self)@.renamed(e)
                } else {
                    old(self)@
                },
                None => old(self)@,
            }),
            final(self)@.wf(),
    {
        if self.active_doc().info.uri.is_none() {
            return;
        }
        match edit {
            None => {},
            Some(edit) => {
                let count: usize = self.apply_workspace_edit(&edit);
                let mut text: String = "Renamed (".to_owned();
                push_decimal(&mut text, count as u64);
                text.append(" edits).");
                self.set_status_text(text);
            },
        }
    }
}

// ----- formatting -----

/// What the configured formatter gave.
#[derive(Debug)]
pub enum FormatOutcome {
    /// None is configured for the language.
    NoFormatter,
    /// It failed, or had nothing to change.
    Failed,
    Formatted(String),
}

impl AppV {
    #[verifier::opaque]
    pub open spec fn format_asked(self) -> AppV {
        if self.doc().info.uri is Some {
            self.with_effect(Effect::LspCanFormat { after_save: false })
        } else {
            self.edit_finished(mark_of(self.buf()))
        }
    }

    /// It is known whether the language server can format; if not, the
    /// configured formatter is run.
    pub open spec fn format_answered(self, possible: bool, after_save: bool) -> AppV {
        if !possible {
            self.with_effect(Effect::RunFormatter { after_save })
        } else if after_save {
            AppV { ui: Ui { pending_format_save: true, ..self.ui }, ..self }.with_effect(
                Effect::LspFormat,
            )
        } else {
            self.with_effect(Effect::LspFormat).with_status("Formatting..."@).edit_finished(
                mark_of(self.buf()),
            )
        }
    }

    /// The text replaced by a formatted one, the caret on the same line and
    /// column, or else at the end.
    pub open spec fn reformatted(self, text: Seq<char>) -> AppV {
        let b = self.buf();
        let bytes = encode_utf8(text);
        let after = if replace_result(b, 0, b.len(), bytes) is Ok {
            b.replaced(0, b.len(), bytes)
        } else {
            b
        };
        let m = mark_of(b);
        let pos = match pos_spec(after.text, m.line as nat, m.col as int) {
            Some(p) => p,
            None => after.len(),
        };
        self.with_buf(after.with_cursor(pos)).uncolored().with_status("Formatted."@)
    }

    /// The formatter has given a text.
    pub open spec fn was_formatted(self, outcome: FormatOutcome) -> bool {
        self.doc().info.language is Some && outcome is Formatted
    }

    pub open spec fn formatter_result(self, outcome: FormatOutcome) -> AppV {
        match self.doc().info.language {
            None => self.with_status("Formatting not available."@),
            Some(lang) => match outcome {
                FormatOutcome::NoFormatter => self.with_status(
                    "No formatter configured for "@ + lang@ + "."@,
                ),
                FormatOutcome::Failed => self.with_status("Formatter failed or no changes."@),
                FormatOutcome::Formatted(text) => self.reformatted(text@),
            },
        }
    }

    /// What follows the run of the formatter: after a save the formatted text
    /// is written too.
    pub open spec fn formatter_finished(self, outcome: FormatOutcome, after_save: bool) -> AppV {
        let s = self.formatter_result(outcome);
        let finished = s.edit_finished(mark_of(self.buf()));
        if !after_save {
            finished
        } else if self.was_formatted(outcome) && s.buf().path is Some {
            finished.with_effect(Effect::Save(SaveKind::AfterFormatter))
        } else if self.was_formatted(outcome) {
            finished
        } else {
            s
        }
    }

    /// Edits of a language server that format the active document. After a
    /// save the formatted text is written too.
    pub open spec fn format_edits_made(self, edits: Seq<LspEdit>) -> AppV {
        self.edits_taken(placed_edits(self.buf().text, edits)).format_shown()
    }

    /// The document is formatted: it is written, where a save waits for that.
    pub open spec fn format_shown(self) -> AppV {
        if self.ui.pending_format_save {
            self.with_pending_format(false).resave_asked()
        } else {
            self.with_status("Formatted."@)
        }
    }

    pub open spec fn with_pending_format(self, pending: bool) -> AppV {
        AppV { ui: Ui { pending_format_save: pending, ..self.ui }, ..self }
    }

    pub open spec fn resave_asked(self) -> AppV {
        if self.buf().path is Some {
            self.with_effect(Effect::Save(SaveKind::AfterServerFormat))
        } else {
            self.with_status("Formatted (re-save failed)."@)
        }
    }
}

impl EditorApp {
    /// Ask whether the language server can format the active document.
    pub fn format_active_document(&mut self)
        requires
            old(self)@.wf(),
        ensures
            final(self)@ == old(self)@.format_asked(),
            final(self)@.wf(),
    {
        proof {
            reveal(AppV::format_asked);
        }
        if self.active_doc().info.uri.is_some() {
            self.push_effect(Effect::LspCanFormat { after_save: false });
        } else {
            let mark: EditMark = self.edit_mark();
            self.finish_edit(mark);
        }
    }

    fn format_now(&mut self)
        requires
            old(self)@.wf(),
        ensures
            final(self)@ == old(self)@.format_answered(true, false),
            final(self)@.wf(),
    {
        let mark: EditMark = self.edit_mark();
        self.push_effect(Effect::LspFormat);
        self.set_status("Formatting...");
        self.finish_edit(mark);
    }

    fn format_after_save(&mut self)
        requires
            old(self)@.wf(),
        ensures
            final(self)@ == old(self)@.format_answered(true, true),
            final(self)@.wf(),
    {
        self.ui_mut().pending_format_save = true;
        self.push_effect(Effect::LspFormat);
    }

    /// Format the active document, by the language server if it can.
    pub fn start_format(&mut self, possible: bool, after_save: bool)
        requires
            old(self)@.wf(),
        ensures
            final(self)@ == old(self)@.format_answered(possible, after_save),
            final(self)@.wf(),
    {
        if !possible {
            self.push_effect(Effect::RunFormatter { after_save });
        } else if after_save {
            self.format_after_save();
        } else {
            self.format_now();
        }
    }

    fn replace_by_formatted(&mut self, text: &str)
        requires
            old(self)@.wf(),
        ensures
            final(self)@ == old(self)@.reformatted(text@),
            final(self)@.wf(),
    {
        let mark: EditMark = self.edit_mark();
        put_formatted(self.active_buffer_mut(), mark, text);
        self.uncolor_active();
        self.set_status("Formatted.");
    }

    fn no_formatter(&mut self, language: &str)
        requires
            old(self)@.wf(),
        ensures
            final(self)@ == old(self)@.with_status(
                "No formatter configured for "@ + language@ + "."@,
            ),
            final(self)@.wf(),
    {
        let mut text: String = "No formatter configured for ".to_owned();
        text.append(language);
        text.append(".");
        self.set_status_text(text);
    }

    /// Take over what the formatter gave. Says whether it was a text.
    pub fn try_external_format(&mut self, outcome: FormatOutcome) -> (r: bool)
        requires
            old(self)@.wf(),
        ensures
            r == old(self)@.was_formatted(outcome),
            final(self)@ == old(self)@.formatter_result(outcome),
            final(self)@.wf(),
    {
        let language: Option<String> = match &self.active_doc().info.language {
            Some(l) => Some(l.clone()),
            None => None,
        };
        match language {
            None => {
                self.set_status("Formatting not available.");
                false
            },
            Some(language) => match outcome {
                FormatOutcome::NoFormatter => {
                    self.no_formatter(language.as_str());
                    false
                },
                FormatOutcome::Failed => {
                    self.set_status("Formatter failed or no changes.");
                    false
                },
                FormatOutcome::Formatted(text) => {
                    self.replace_by_formatted(text.as_str());
                    true
                },
            },
        }
    }

    /// Go on after the formatter was run.
    pub fn finish_formatter(&mut self, outcome: FormatOutcome, after_save: bool)
        requires
            old(self)@.wf(),
        ensures
            final(self)@ == old(self)@.formatter_finished(outcome, after_save),
            final(self)@.wf(),
    {
        let mark: EditMark = self.edit_mark();
        let formatted: bool = self.try_external_format(outcome);
        if !after_save || formatted {
            self.finish_edit(mark);
        }
        if after_save && formatted && self.active_doc().path().is_some() {
            self.push_effect(Effect::Save(SaveKind::AfterFormatter));
        }
    }

    fn resave(&mut self)
        requires
            old(self)@.wf(),
        ensures
            final(self)@ == old(self)@.with_pending_format(false).resave_asked(),
            final(self)@.wf(),
    {
        self.forget_pending_format();
        if self.active_doc().path().is_some() {
            self.push_effect(Effect::Save(SaveKind::AfterServerFormat));
        } else {
            self.set_status("Formatted (re-save failed).");
        }
    }

    fn show_format(&mut self)
        requires
            old(self)@.wf(),
        ensures
            final(self)@ == old(self)@.format_shown(),
            final(self)@.wf(),
    {
        if self.ui().pending_format_save {
            self.resave();
        } else {
            self.set_status("Formatted.");
        }
    }

    fn make_format_edits(&mut self, edits: &Vec<LspEdit>)
        requires
            old(self)@.wf(),
        ensures
            final(self)@ == old(self)@.format_edits_made(edits@),
            final(self)@.wf(),
    {
        let placed: Vec<ByteEdit> = place_edits(self.active_buffer(), edits);
        self.take_edits(&placed);
        self.show_format();
    }

    fn forget_pending_format(&mut self)
        requires
            old(self)@.wf(),
        ensures
            final(self)@ == old(self)@.with_pending_format(false),
            final(self)@.wf(),
    {
        self.ui_mut().pending_format_save = false;
    }

    /// Take over the language server's formatting, if it has answered yet.
    pub fn apply_pending_format(&mut self, edits: Option<Vec<LspEdit>>)
        requires
            old(self)@.wf(),
        ensures
            final(self)@ == (match edits {
                Some(e) => if old(self)@.doc().info.uri is None {
                    old(self)@
                } else if e@.len() == 0 {
                    old(self)@.with_pending_format(false)
                } else {
                    old(self)@.format_edits_made(e@)
                },
                None => old(self)@,
            }),
            final(self)@.wf(),
    {
        if self.active_doc().info.uri.is_none() {
            return;
        }
        match edits {
            None => {},
            Some(edits) => {
                if edits.len() == 0 {
                    self.forget_pending_format();
                } else {
                    self.make_format_edits(&edits);
                }
            },
        }
    }
}

/// Replace the whole text and put the caret where it was by line and column.
fn put_formatted(buffer: &mut TextBuffer, mark: EditMark, text: &str)
    requires
        old(buffer)@.wf(),
    ensures
        final(buffer)@.wf(),
        ({
            let b = old(buffer)@;
            let bytes = encode_utf8(text@);
            let after = if replace_result(b, 0, b.len(), bytes) is Ok {
                b.replaced(0, b.len(), bytes)
            } else {
                b
            };
            let pos = match pos_spec(after.text, mark.line as nat, mark.col as int) {
                Some(p) => p,
                None => after.len(),
            };
            final(buffer)@ == after.with_cursor(pos)
        }),
{
    let len: usize = buffer.len();
    let _ = buffer.replace(0, len, text);
    let pos: usize = match buffer.linecol_to_pos(mark.line, mark.col) {
        Some(p) => p,
        None => buffer.len(),
    };
    buffer.set_cursor(pos);
}

} // verus!

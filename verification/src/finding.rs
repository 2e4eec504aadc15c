//! The find bar, replacing, comments and snippets.

use vstd::prelude::*;
use vstd::utf8::*;

use crate::buffer::{replace_result, BufferV, Selection, TextBuffer};
use crate::config::Snippet;
use crate::editing::{indent_unit, push_indent};
use crate::edits::{apply_edits, byte_edits_view, edits_made, from_the_right, ByteEdit, ByteEditV};
use crate::effect::{EditMark, Effect};
use crate::lines::{line_at, line_bytes};
use crate::motion::{
    char_col_at, clamped_line_charcol_to_pos, clamped_pos, cursor_char_linecol, skip_back,
};
use crate::search::{Search, SearchV};
use crate::state::{lemma_same_buf, AppV, EditorApp};
use crate::text::{chars_of, decimal, is_word_char, push_decimal, same_text, string_of};
use crate::typing::{error_text, mark_of};

verus! {

// ----- the find bar -----

/// The range that a search is confined to: a selection over several lines.
pub open spec fn search_range(b: BufferV) -> Option<(usize, usize)> {
    let s = b.primary();
    if s.anchor != s.head && line_at(b.text, s.start()) != line_at(b.text, s.end()) {
        Some((s.start() as usize, s.end() as usize))
    } else {
        None
    }
}

impl AppV {
    pub open spec fn with_search(self, search: SearchV) -> AppV {
        AppV { search, ..self }
    }

    pub open spec fn find_opened(self, backward: bool) -> AppV {
        self.with_search(
            SearchV {
                backward,
                bar_open: true,
                selection_range: search_range(self.buf()),
                ..self.search
            },
        )
    }

    pub open spec fn find_closed(self) -> AppV {
        self.with_search(
            SearchV {
                bar_open: false,
                replace_bar_open: false,
                selection_range: None,
                ..self.search
            },
        )
    }

    /// The caret at the current match, if there is one.
    pub open spec fn at_current_match(self) -> AppV {
        match self.search.current_start() {
            Some(pos) => self.with_cursor(pos as int),
            None => self,
        }
    }

    /// New matches taken over, and the caret at the current one if `follow`.
    pub open spec fn matches_found(
        self,
        found: Seq<(usize, usize)>,
        error: Option<Seq<char>>,
        follow: bool,
    ) -> AppV {
        let s = self.with_search(self.search.with_matches(found, error));
        if follow { s.at_current_match() } else { s }
    }

    /// The caret at the next match behind it.
    pub open spec fn at_next_match(self) -> AppV {
        if self.search.matches.len() == 0 {
            self
        } else {
            self.with_search(self.search.moved_after(self.buf().cursor() as int)).at_current_match()
        }
    }

    /// The caret at the last match before it.
    pub open spec fn at_prev_match(self) -> AppV {
        if self.search.matches.len() == 0 {
            self
        } else {
            self.with_search(
                self.search.moved_before(self.buf().cursor() as int),
            ).at_current_match()
        }
    }
}

impl EditorApp {
    /// Open the find bar. A selection over several lines confines the search.
    pub fn open_find(&mut self, backward: bool)
        requires
            old(self)@.wf(),
        ensures
            final(self)@ == old(self)@.find_opened(backward),
            final(self)@.wf(),
    {
        let buffer: &TextBuffer = self.active_buffer();
        let s: Selection = buffer.selection();
        let range = s.range();
        let mut confined: Option<(usize, usize)> = None;
        if !s.is_collapsed() {
            assert(s == self@.buf().selections[0]);
            if let (Some((first, _)), Some((last, _))) = (
                buffer.pos_to_linecol(range.start),
                buffer.pos_to_linecol(range.end),
            ) {
                if first != last {
                    confined = Some((range.start, range.end));
                }
            }
        }
        let search = self.search_mut();
        search.backward = backward;
        search.bar_open = true;
        search.selection_range = confined;
    }

    /// Close the find bar, and the replace bar with it.
    pub fn close_find(&mut self)
        ensures
            final(self)@ == old(self)@.find_closed(),
    {
        let search = self.search_mut();
        search.bar_open = false;
        search.selection_range = None;
        search.replace_bar_open = false;
    }

    fn go_to_current_match(&mut self)
        requires
            old(self)@.wf(),
        ensures
            final(self)@ == old(self)@.at_current_match(),
            final(self)@.wf(),
    {
        match self.search().current_match() {
            Some(pos) => self.place_cursor(pos),
            None => {},
        }
    }

    /// Take over the matches of the query. The caret goes to the current one,
    /// if `follow`.
    pub fn set_matches(
        &mut self,
        found: &Vec<(usize, usize)>,
        error: Option<String>,
        follow: bool,
    )
        requires
            old(self)@.wf(),
        ensures
            final(self)@ == old(self)@.matches_found(
                found@,
                crate::buffer::opt_text(error),
                follow,
            ),
            final(self)@.wf(),
    {
        self.search_mut().set_matches(found, error);
        if follow {
            self.go_to_current_match();
        }
    }

    pub fn find_next(&mut self)
        requires
            old(self)@.wf(),
        ensures
            final(self)@ == old(self)@.at_next_match(),
            final(self)@.wf(),
    {
        let pos: usize = self.active_buffer().cursor();
        match self.search_mut().next_after(pos) {
            Some(to) => self.place_cursor(to),
            None => {},
        }
    }

    pub fn find_prev(&mut self)
        requires
            old(self)@.wf(),
        ensures
            final(self)@ == old(self)@.at_prev_match(),
            final(self)@.wf(),
    {
        let pos: usize = self.active_buffer().cursor();
        match self.search_mut().prev_before(pos) {
            Some(to) => self.place_cursor(to),
            None => {},
        }
    }
}

// ----- replacing -----

/// Why nothing can be replaced, as far as the queries tell. `all` says whether
/// every match is meant.
pub open spec fn replace_refusal(s: SearchV, all: bool) -> Option<Seq<char>> {
    if s.query.len() == 0 {
        Some(if all { "Replace all: nothing to find."@ } else { "Replace: nothing to find."@ })
    } else if s.replace_query.len() == 0 {
        Some(
            if all {
                "Replace all: replacement is empty — type something first."@
            } else {
                "Replace: replacement is empty — type something first."@
            },
        )
    } else if s.regex_mode && s.regex_error is Some {
        Some(if all { "Replace all: invalid regex."@ } else { "Replace: invalid regex."@ })
    } else if all && s.matches.len() == 0 {
        Some("Replace all: no matches."@)
    } else {
        None
    }
}

pub open spec fn not_text_refusal(all: bool) -> Seq<char> {
    if all {
        "Replace all: buffer is not valid UTF-8."@
    } else {
        "Replace: buffer is not valid UTF-8."@
    }
}

impl AppV {
    /// Replacing the current match asked for; or why not.
    #[verifier::opaque]
    pub open spec fn replace_asked(self) -> AppV {
        match replace_refusal(self.search, false) {
            Some(text) => self.with_status(text).rewrite_finished(),
            None => if valid_utf8(self.buf().text) {
                self.with_effect(Effect::FindReplacement)
            } else {
                self.with_status(not_text_refusal(false)).rewrite_finished()
            },
        }
    }

    /// Replacing every match asked for; or why not.
    #[verifier::opaque]
    pub open spec fn replace_all_asked(self) -> AppV {
        match replace_refusal(self.search, true) {
            Some(text) => self.with_status(text).rewrite_finished(),
            None => if valid_utf8(self.buf().text) {
                self.with_effect(Effect::FindAllReplacements)
            } else {
                self.with_status(not_text_refusal(true)).rewrite_finished()
            },
        }
    }

    /// The current match replaced and the query looked for again.
    pub open spec fn match_replaced(self, start: int, end: int, with: Seq<char>) -> AppV {
        let bytes = encode_utf8(with);
        match replace_result(self.buf(), start, end, bytes) {
            Ok(_) => self.with_buf(self.buf().replaced(start, end, bytes)).with_effect(
                Effect::FindAfterReplace { at: start as usize },
            ),
            Err(e) => self.with_status("Replace error: "@ + e.message_spec()).rewrite_finished(),
        }
    }

    pub open spec fn nothing_to_replace(self) -> AppV {
        self.with_status("Replace: no current match."@).rewrite_finished()
    }

    /// After a match at `at` was replaced: the caret there, then at the next
    /// match.
    pub open spec fn advanced_from(self, at: int) -> AppV {
        let s = self.with_cursor(at);
        if s.search.matches.len() == 0 {
            s.with_status("Replaced 1; no more matches."@)
        } else {
            let m = s.with_search(s.search.moved_after(at)).at_current_match();
            m.with_status(
                "Replaced 1; advanced to match "@ + decimal(
                    (m.search.current->0 + 1) as nat,
                ) + "/"@ + decimal(m.search.matches.len()) + "."@,
            )
        }
    }

    /// The whole text replaced and the query looked for again.
    pub open spec fn text_replaced(self, with: Seq<char>) -> AppV {
        let bytes = encode_utf8(with);
        match replace_result(self.buf(), 0, self.buf().len(), bytes) {
            Ok(_) => self.with_buf(self.buf().replaced(0, self.buf().len(), bytes)).with_effect(
                Effect::FindAfterReplaceAll { count: self.search.matches.len() as usize },
            ),
            Err(e) => self.with_status("Replace error: "@ + e.message_spec()).rewrite_finished(),
        }
    }
}

impl EditorApp {
    fn replace_refusal(&self, all: bool) -> (r: Option<&'static str>)
        ensures
            r is None <==> replace_refusal(self@.search, all) is None,
            r matches Some(t) ==> replace_refusal(self@.search, all) == Some(t@),
    {
        let s: &Search = self.search();
        if s.query.as_str().is_empty() {
            if all {
                Some("Replace all: nothing to find.")
            } else {
                Some("Replace: nothing to find.")
            }
        } else if s.replace_query.as_str().is_empty() {
            if all {
                Some("Replace all: replacement is empty — type something first.")
            } else {
                Some("Replace: replacement is empty — type something first.")
            }
        } else if s.regex_mode && s.regex_error.is_some() {
            if all {
                Some("Replace all: invalid regex.")
            } else {
                Some("Replace: invalid regex.")
            }
        } else if all && s.matches.len() == 0 {
            Some("Replace all: no matches.")
        } else {
            None
        }
    }

    fn refuse_replace(&mut self, text: &str)
        requires
            old(self)@.wf(),
        ensures
            final(self)@ == old(self)@.with_status(text@).rewrite_finished(),
            final(self)@.wf(),
    {
        self.set_status(text);
        self.finish_rewrite();
    }

    /// Replace the current match; the replacement is asked for.
    pub fn replace_one(&mut self)
        requires
            old(self)@.wf(),
        ensures
            final(self)@ == old(self)@.replace_asked(),
            final(self)@.wf(),
    {
        proof {
            reveal(AppV::replace_asked);
        }
        match self.replace_refusal(false) {
            Some(text) => self.refuse_replace(text),
            None => {
                if self.active_doc().text().is_some() {
                    self.push_effect(Effect::FindReplacement);
                } else {
                    self.refuse_replace("Replace: buffer is not valid UTF-8.");
                }
            },
        }
    }

    /// Replace every match; the new text is asked for.
    pub fn replace_all(&mut self)
        requires
            old(self)@.wf(),
        ensures
            final(self)@ == old(self)@.replace_all_asked(),
            final(self)@.wf(),
    {
        proof {
            reveal(AppV::replace_all_asked);
        }
        match self.replace_refusal(true) {
            Some(text) => self.refuse_replace(text),
            None => {
                if self.active_doc().text().is_some() {
                    self.push_effect(Effect::FindAllReplacements);
                } else {
                    self.refuse_replace("Replace all: buffer is not valid UTF-8.");
                }
            },
        }
    }

    /// Put a replacement for the current match in, if there is one.
    pub fn apply_replacement(&mut self, found: Option<(usize, usize, String)>)
        requires
            old(self)@.wf(),
        ensures
            final(self)@ == (match found {
                Some((start, end, with)) => old(self)@.match_replaced(
                    start as int,
                    end as int,
                    with@,
                ),
                None => old(self)@.nothing_to_replace(),
            }),
            final(self)@.wf(),
    {
        match found {
            Some((start, end, with)) => self.replace_match(start, end, with),
            None => self.refuse_replace("Replace: no current match."),
        }
    }

    fn replace_match(&mut self, start: usize, end: usize, with: String)
        requires
            old(self)@.wf(),
        ensures
            final(self)@ == old(self)@.match_replaced(start as int, end as int, with@),
            final(self)@.wf(),
    {
        match self.active_buffer_mut().replace(start, end, with.as_str()) {
            Ok(()) => self.push_effect(Effect::FindAfterReplace { at: start }),
            Err(e) => {
                proof {
                    lemma_same_buf(old(self)@);
                }
                let text: String = error_text("Replace error: ", e);
                self.refuse_replace(text.as_str());
            },
        }
    }

    /// Go on after a match at `at` was replaced and the query looked for again.
    pub fn finish_replace(
        &mut self,
        at: usize,
        found: &Vec<(usize, usize)>,
        error: Option<String>,
    )
        requires
            old(self)@.wf(),
        ensures
            final(self)@ == old(self)@.matches_found(
                found@,
                crate::buffer::opt_text(error),
                false,
            ).advanced_from(at as int).rewrite_finished(),
            final(self)@.wf(),
    {
        self.search_mut().set_matches(found, error);
        self.advance_from(at);
        self.finish_rewrite();
    }

    fn advance_from(&mut self, at: usize)
        requires
            old(self)@.wf(),
        ensures
            final(self)@ == old(self)@.advanced_from(at as int),
            final(self)@.wf(),
    {
        self.place_cursor(at);
        match self.search_mut().next_after(at) {
            None => self.set_status("Replaced 1; no more matches."),
            Some(next) => {
                self.place_cursor(next);
                let text: String = self.progress_text();
                self.set_status_text(text);
            },
        }
    }

    /// Which match is current, out of how many.
    fn progress_text(&self) -> (r: String)
        requires
            self@.search.matches.len() > 0,
            self@.search.current matches Some(k) && k < self@.search.matches.len(),
        ensures
            r@ == "Replaced 1; advanced to match "@ + decimal(
                (self@.search.current->0 + 1) as nat,
            ) + "/"@ + decimal(self@.search.matches.len()) + "."@,
    {
        let search: &Search = self.search();
        let mut text: String = "Replaced 1; advanced to match ".to_owned();
        let total: usize = search.matches.len();
        let current: usize = match search.current {
            Some(k) => k,
            None => 0,
        };
        push_decimal(&mut text, (current + 1) as u64);
        text.append("/");
        push_decimal(&mut text, total as u64);
        text.append(".");
        text
    }

    /// Put the text with every match replaced in.
    pub fn apply_all_replacements(&mut self, new_text: Option<String>)
        requires
            old(self)@.wf(),
        ensures
            final(self)@ == (match new_text {
                Some(with) => old(self)@.text_replaced(with@),
                None => old(self)@.with_status("Replace all: invalid regex."@).rewrite_finished(),
            }),
            final(self)@.wf(),
    {
        match new_text {
            Some(with) => self.replace_text(with),
            None => self.refuse_replace("Replace all: invalid regex."),
        }
    }

    fn replace_text(&mut self, with: String)
        requires
            old(self)@.wf(),
        ensures
            final(self)@ == old(self)@.text_replaced(with@),
            final(self)@.wf(),
    {
        let count: usize = self.search().matches.len();
        let len: usize = self.active_buffer().len();
        match self.active_buffer_mut().replace(0, len, with.as_str()) {
            Ok(()) => self.push_effect(Effect::FindAfterReplaceAll { count }),
            Err(e) => {
                proof {
                    lemma_same_buf(old(self)@);
                }
                let text: String = error_text("Replace error: ", e);
                self.refuse_replace(text.as_str());
            },
        }
    }

    /// Go on after `count` matches were replaced and the query looked for
    /// again.
    pub fn finish_replace_all(
        &mut self,
        count: usize,
        found: &Vec<(usize, usize)>,
        error: Option<String>,
    )
        requires
            old(self)@.wf(),
        ensures
            final(self)@ == old(self)@.matches_found(
                found@,
                crate::buffer::opt_text(error),
                false,
            ).with_cursor(0).with_status(
                "Replaced "@ + decimal(count as nat) + " occurrences."@,
            ).rewrite_finished(),
            final(self)@.wf(),
    {
        self.search_mut().set_matches(found, error);
        self.place_cursor(0);
        let mut text: String = "Replaced ".to_owned();
        push_decimal(&mut text, count as u64);
        text.append(" occurrences.");
        self.set_status_text(text);
        self.finish_rewrite();
    }
}

// ----- comments -----

impl AppV {
    /// The lines that are commented in or out: those of the primary selection,
    /// the last one not included.
    pub open spec fn comment_lines(self) -> (usize, usize) {
        let b = self.buf();
        let s = b.primary();
        (line_at(b.text, s.start()) as usize, (line_at(b.text, s.end()) + 1) as usize)
    }

    #[verifier::opaque]
    pub open spec fn comment_asked(self) -> AppV {
        if self.doc().info.language is None {
            self
        } else {
            self.with_effect(
                Effect::ToggleComment {
                    start_line: self.comment_lines().0,
                    end_line: self.comment_lines().1,
                },
            )
        }
    }

    /// Edits made from the right.
    pub open spec fn edited(self, edits: Seq<ByteEditV>) -> AppV {
        self.with_buf(edits_made(self.buf(), from_the_right(edits), edits.len() as int))
    }
}

impl EditorApp {
    /// Comment the selected lines in or out; the edits are asked for.
    pub fn toggle_comment(&mut self)
        requires
            old(self)@.wf(),
        ensures
            final(self)@ == old(self)@.comment_asked(),
            final(self)@.wf(),
    {
        proof {
            reveal(AppV::comment_asked);
        }
        if self.active_doc().info.language.is_none() {
            return;
        }
        let buffer: &TextBuffer = self.active_buffer();
        let s: Selection = buffer.selection();
        assert(s == self@.buf().selections[0]);
        let range = s.range();
        let count: usize = buffer.line_count();
        let start_line: usize = match buffer.pos_to_linecol(range.start) {
            Some((line, _)) => line,
            None => 0,
        };
        let end_line: usize = match buffer.pos_to_linecol(range.end) {
            Some((line, _)) => line + 1,
            None => 0,
        };
        self.push_effect(Effect::ToggleComment { start_line, end_line });
    }

    /// Make the edits that comment lines in or out. Without any the language
    /// has no comments.
    pub fn apply_comment_edits(&mut self, edits: Option<Vec<ByteEdit>>)
        requires
            old(self)@.wf(),
        ensures
            final(self)@ == (match edits {
                Some(e) => old(self)@.edited(byte_edits_view(e@)).uncolored().edit_finished(
                    mark_of(old(self)@.buf()),
                ),
                None => old(self)@.with_status("No comment syntax for this language."@),
            }),
            final(self)@.wf(),
    {
        match edits {
            None => self.set_status("No comment syntax for this language."),
            Some(edits) => {
                let mark: EditMark = self.edit_mark();
                let _ = apply_edits(self.active_buffer_mut(), &edits);
                self.uncolor_active();
                self.finish_edit(mark);
            },
        }
    }
}

// ----- tab and snippets -----

/// The first snippet with this trigger.
pub open spec fn find_snippet(snippets: Seq<Snippet>, trigger: Seq<char>, from: int) -> Option<
    Snippet,
>
    decreases snippets.len() - from,
{
    if from >= snippets.len() || from < 0 {
        None
    } else if snippets[from].trigger@ == trigger {
        Some(snippets[from])
    } else {
        find_snippet(snippets, trigger, from + 1)
    }
}

/// The word that ends at the caret, as character columns of its line.
pub open spec fn word_before(b: BufferV) -> Option<(int, int)> {
    let pos = b.cursor() as int;
    let line = line_bytes(b.text, line_at(b.text, pos));
    let col = char_col_at(b.text, pos) as int;
    if valid_utf8(line) && col <= decode_utf8(line).len() {
        let start = skip_back(decode_utf8(line), col, true);
        if start < col {
            Some((start, col))
        } else {
            None
        }
    } else {
        None
    }
}

impl AppV {
    /// The snippet whose trigger stands before the caret, and where the
    /// trigger starts.
    pub open spec fn snippet(self) -> Option<(Snippet, int)> {
        let b = self.buf();
        let line = line_at(b.text, b.cursor() as int);
        if !self.single_caret() {
            None
        } else {
            match word_before(b) {
                Some((start, end)) => match find_snippet(
                    self.config.snippets,
                    decode_utf8(line_bytes(b.text, line)).subrange(start, end),
                    0,
                ) {
                    Some(snippet) => Some(
                        (snippet, clamped_pos(b.text, line as int, start as nat)),
                    ),
                    None => None,
                },
                None => None,
            }
        }
    }

    /// A trigger replaced by what it stands for.
    pub open spec fn snippet_put(self, snippet: Snippet, start: int) -> AppV {
        let b = self.buf().replaced(
            start,
            self.buf().cursor() as int,
            encode_utf8(snippet.expanded@),
        );
        self.with_buf(b.with_cursor(start + snippet.cursor_offset)).uncolored()
    }

    pub open spec fn snippet_expanded(self, snippet: Snippet, start: int) -> AppV {
        self.snippet_put(snippet, start).edit_finished(mark_of(self.buf()))
    }

    pub open spec fn can_expand(self) -> bool {
        self.snippet() matches Some((snippet, start)) && replace_result(
            self.buf(),
            start,
            self.buf().cursor() as int,
            encode_utf8(snippet.expanded@),
        ) is Ok
    }

    /// Tab: a snippet expanded, or else one level of indentation typed.
    #[verifier::opaque]
    pub open spec fn tab_typed(self) -> AppV {
        if self.can_expand() {
            self.snippet_expanded((self.snippet()->0).0, (self.snippet()->0).1)
        } else {
            self.indent_typed()
        }
    }

    pub open spec fn indent_typed(self) -> AppV {
        let v = self.doc().view;
        self.text_inserted(indent_unit(v.use_spaces, v.tab_width as nat), "insert error: "@)
            .edit_finished(mark_of(self.buf()))
    }
}

/// The start column of the word that ends at the caret, with the word.
fn trigger_before(buffer: &TextBuffer) -> (r: Option<(usize, usize, String)>)
    requires
        buffer@.wf(),
    ensures
        r is Some <==> word_before(buffer@) is Some,
        r matches Some((line, col, word)) ==> line == line_at(
            buffer@.text,
            buffer@.cursor() as int,
        ) && col == (word_before(buffer@)->0).0 && word@ == decode_utf8(
            line_bytes(buffer@.text, line as nat),
        ).subrange((word_before(buffer@)->0).0, (word_before(buffer@)->0).1),
{
    let pos: usize = buffer.cursor();
    let (line, col) = cursor_char_linecol(buffer, pos);
    match buffer.line_text(line) {
        None => None,
        Some(text) => {
            let chars: Vec<char> = chars_of(text.as_str());
            proof {
                encode_utf8_decode_utf8(text@);
            }
            if col > chars.len() {
                return None;
            }
            let mut start: usize = col;
            while start > 0 && is_word_char(chars[start - 1])
                invariant
                    start <= col <= chars.len(),
                    skip_back(chars@, start as int, true) == skip_back(chars@, col as int, true),
                decreases start,
            {
                start -= 1;
            }
            if start == col {
                return None;
            }
            Some((line, start, string_of(&chars, start, col)))
        },
    }
}

impl EditorApp {
    /// The snippet whose trigger stands before the caret.
    fn snippet_here(&self) -> (r: Option<(Snippet, usize)>)
        requires
            self@.wf(),
        ensures
            r is Some <==> self@.snippet() is Some,
            r matches Some((s, start)) ==> self@.snippet() == Some((s, start as int)),
    {
        let buffer: &TextBuffer = self.active_buffer();
        if buffer.selections().len() != 1 || !buffer.selection().is_collapsed() {
            return None;
        }
        match trigger_before(buffer) {
            None => None,
            Some((line, col, word)) => {
                let start: usize = clamped_line_charcol_to_pos(buffer, line, col);
                let snippets: &Vec<Snippet> = &self.config().snippets;
                let mut i: usize = 0;
                while i < snippets.len()
                    invariant
                        i <= snippets.len(),
                        snippets@ == self@.config.snippets,
                        find_snippet(snippets@, word@, i as int) == find_snippet(
                            snippets@,
                            word@,
                            0,
                        ),
                        self@.snippet() == (match find_snippet(snippets@, word@, 0) {
                            Some(s) => Some((s, start as int)),
                            None => None::<(Snippet, int)>,
                        }),
                    decreases snippets.len() - i,
                {
                    if same_text(snippets[i].trigger.as_str(), word.as_str()) {
                        let found = Snippet {
                            trigger: snippets[i].trigger.clone(),
                            expanded: snippets[i].expanded.clone(),
                            cursor_offset: snippets[i].cursor_offset,
                        };
                        return Some((found, start));
                    }
                    i += 1;
                }
                None
            },
        }
    }

    /// Replace a trigger by its snippet. Says whether there was one that fits.
    fn expand_snippet(&mut self) -> (r: bool)
        requires
            old(self)@.wf(),
        ensures
            r == old(self)@.can_expand(),
            final(self)@ == (if r {
                old(self)@.snippet_put(
                    (old(self)@.snippet()->0).0,
                    (old(self)@.snippet()->0).1,
                )
            } else {
                old(self)@
            }),
            final(self)@.wf(),
    {
        match self.snippet_here() {
            None => false,
            Some((snippet, start)) => {
                let pos: usize = self.active_buffer().cursor();
                match self.active_buffer_mut().replace(start, pos, snippet.expanded.as_str()) {
                    Ok(()) => {
                        let len: usize = self.active_buffer().len();
                        let to: usize = start.saturating_add(snippet.cursor_offset);
                        self.place_cursor(to);
                        self.uncolor_active();
                        proof {
                            let b = old(self)@.buf().replaced(
                                start as int,
                                pos as int,
                                encode_utf8(snippet.expanded@),
                            );
                            assert(b.with_cursor(to as int) == b.with_cursor(
                                start + snippet.cursor_offset,
                            ));
                            let one = old(self)@.with_buf(b);
                            assert(one.with_buf(b.with_cursor(to as int)).documents
                                =~= old(self)@.with_buf(b.with_cursor(to as int)).documents);
                        }
                        true
                    },
                    Err(_) => {
                        proof {
                            lemma_same_buf(old(self)@);
                        }
                        false
                    },
                }
            },
        }
    }

    fn type_indent(&mut self)
        requires
            old(self)@.wf(),
        ensures
            final(self)@ == old(self)@.indent_typed(),
            final(self)@.wf(),
    {
        let mark: EditMark = self.edit_mark();
        let view = self.active_doc().view;
        let mut text: String = String::new();
        push_indent(&mut text, view.use_spaces, view.tab_width);
        assert(text@ =~= indent_unit(view.use_spaces, view.tab_width as nat));
        self.insert_text(text.as_str(), "insert error: ");
        self.finish_edit(mark);
    }

    /// Expand a snippet, or else type one level of indentation.
    pub fn insert_tab(&mut self)
        requires
            old(self)@.wf(),
        ensures
            final(self)@ == old(self)@.tab_typed(),
            final(self)@.wf(),
    {
        proof {
            reveal(AppV::tab_typed);
        }
        let mark: EditMark = self.edit_mark();
        if self.expand_snippet() {
            self.finish_edit(mark);
        } else {
            self.type_indent();
        }
    }
}

} // verus!

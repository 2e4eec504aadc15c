//! Going to lines, changed blocks and further occurrences.

use vstd::prelude::*;

use crate::buffer::{Selection, TextBuffer};
use crate::carets::{all_wanted, wanted, wanted_places, wanted_text};
use crate::document::Document;
use crate::lines::{line_at, line_start, line_total};
use crate::occurrences::{next_occurrence, next_selected, select_next};
use crate::panels::GoToLineDialog;
use crate::state::{AppV, DialogsV, EditorApp, Ui};
use crate::text::{decimal, parse_usize, parsed_usize, push_decimal};

verus! {

// ----- lines -----

/// Where a line begins; one that does not exist stands for the last.
pub open spec fn line_begin(b: Seq<u8>, line: int) -> int {
    line_start(b, (if line < line_total(b) { line } else { line_total(b) - 1 }) as nat)
}

impl AppV {
    pub open spec fn caret_shown(self) -> AppV {
        AppV { ui: Ui { caret_snapped: true, ..self.ui }, ..self }
    }

    /// The caret at the start of a line, counted from 1.
    pub open spec fn went_to_line(self, line: int) -> AppV {
        if line == 0 {
            self.with_status("Line numbers start at 1."@)
        } else {
            self.with_cursor(line_begin(self.buf().text, line - 1)).caret_shown().with_status(
                "Go to line "@ + decimal(line as nat),
            )
        }
    }

    pub open spec fn with_line_dialog(self, query: Option<Seq<char>>) -> AppV {
        AppV { dialogs: DialogsV { go_to_line: query, ..self.dialogs }, ..self }
    }

    /// What was typed is taken as a line number.
    pub open spec fn line_submitted(self) -> AppV {
        match self.dialogs.go_to_line {
            None => self,
            Some(query) => {
                let s = self.with_line_dialog(None);
                if query.len() == 0 {
                    s.with_status("Go-to-line cancelled."@)
                } else {
                    match parsed_usize(query) {
                        Some(line) => s.went_to_line(line as int),
                        None => s.with_status("'"@ + query + "' is not a valid line number."@),
                    }
                }
            },
        }
    }

    pub open spec fn line_cancelled(self) -> AppV {
        if self.dialogs.go_to_line is Some {
            self.with_line_dialog(None).with_status("Go-to-line cancelled."@)
        } else {
            self
        }
    }

    /// A digit added to the line number; any other character is ignored.
    pub open spec fn line_typed(self, ch: char) -> AppV {
        match self.dialogs.go_to_line {
            Some(query) => if '0' <= ch && ch <= '9' {
                self.with_line_dialog(Some(query.push(ch)))
            } else {
                self
            },
            None => self,
        }
    }

    /// The last digit of the line number gone.
    pub open spec fn line_erased(self) -> AppV {
        match self.dialogs.go_to_line {
            Some(query) => if query.len() > 0 {
                self.with_line_dialog(Some(query.drop_last()))
            } else {
                self
            },
            None => self,
        }
    }
}

/// Where a line begins; one that does not exist stands for the last.
fn line_begin_pos(buffer: &TextBuffer, line: usize) -> (r: usize)
    requires
        buffer@.wf(),
    ensures
        r == line_begin(buffer@.text, line as int),
{
    let count: usize = buffer.line_count();
    let index: usize = if line < count { line } else { count - 1 };
    match buffer.line_byte_range(index) {
        Some(range) => range.start,
        None => buffer.len(),
    }
}

impl EditorApp {
    /// Go to the start of a line, counted from 1; past the end, to the last.
    pub fn go_to_line(&mut self, line: usize)
        requires
            old(self)@.wf(),
        ensures
            final(self)@ == old(self)@.went_to_line(line as int),
            final(self)@.wf(),
    {
        if line == 0 {
            self.set_status("Line numbers start at 1.");
        } else {
            self.jump_to_line(line);
        }
    }

    fn jump_to_line(&mut self, line: usize)
        requires
            old(self)@.wf(),
            line > 0,
        ensures
            final(self)@ == old(self)@.went_to_line(line as int),
            final(self)@.wf(),
    {
        let pos: usize = line_begin_pos(self.active_buffer(), line - 1);
        self.place_cursor(pos);
        self.snap_caret_animation();
        let mut text: String = "Go to line ".to_owned();
        push_decimal(&mut text, line as u64);
        self.set_status_text(text);
    }

    /// Ask for a line number.
    pub fn open_go_to_line_dialog(&mut self)
        ensures
            final(self)@ == old(self)@.with_line_dialog(Some(seq![])),
    {
        let query: String = String::new();
        assert(query@ =~= seq![]);
        self.dialogs_mut().go_to_line = Some(GoToLineDialog { query });
    }

    /// Add a digit to the line number. Nothing happens for other characters,
    /// nor while the dialog is closed.
    pub fn push_go_to_line_query(&mut self, ch: char)
        ensures
            final(self)@ == old(self)@.line_typed(ch),
    {
        if '0' <= ch && ch <= '9' {
            let dialogs = self.dialogs_mut();
            match &mut dialogs.go_to_line {
                Some(dialog) => dialog.query.push(ch),
                None => {},
            }
        }
    }

    /// Take the last digit of the line number away.
    pub fn pop_go_to_line_query(&mut self)
        ensures
            final(self)@ == old(self)@.line_erased(),
    {
        let dialogs = self.dialogs_mut();
        match &mut dialogs.go_to_line {
            Some(dialog) => {
                let _ = dialog.query.pop();
            },
            None => {},
        }
    }

    /// Close the dialog without going anywhere.
    pub fn cancel_go_to_line_dialog(&mut self)
        ensures
            final(self)@ == old(self)@.line_cancelled(),
    {
        if self.dialogs().go_to_line.is_some() {
            self.dialogs_mut().go_to_line = None;
            self.set_status("Go-to-line cancelled.");
        }
    }

    /// Close the dialog and go to the line that was typed.
    pub fn submit_go_to_line_dialog(&mut self)
        requires
            old(self)@.wf(),
        ensures
            final(self)@ == old(self)@.line_submitted(),
            final(self)@.wf(),
    {
        match self.take_line_query() {
            None => {},
            Some(query) => self.submit_line(query),
        }
    }

    fn take_line_query(&mut self) -> (r: Option<String>)
        ensures
            r is Some <==> old(self)@.dialogs.go_to_line is Some,
            r matches Some(q) ==> old(self)@.dialogs.go_to_line == Some(q@),
            final(self)@ == (if r is Some {
                old(self)@.with_line_dialog(None)
            } else {
                old(self)@
            }),
    {
        match self.dialogs_mut().go_to_line.take() {
            Some(dialog) => Some(dialog.query),
            None => None,
        }
    }

    fn submit_line(&mut self, query: String)
        requires
            old(self)@.wf(),
        ensures
            final(self)@ == (if query@.len() == 0 {
                old(self)@.with_status("Go-to-line cancelled."@)
            } else {
                match parsed_usize(query@) {
                    Some(line) => old(self)@.went_to_line(line as int),
                    None => old(self)@.with_status(
                        "'"@ + query@ + "' is not a valid line number."@,
                    ),
                }
            }),
            final(self)@.wf(),
    {
        if query.as_str().is_empty() {
            self.set_status("Go-to-line cancelled.");
            return;
        }
        match parse_usize(query.as_str()) {
            Some(line) => self.go_to_line(line),
            None => {
                let mut text: String = "'".to_owned();
                text.append(query.as_str());
                text.append("' is not a valid line number.");
                self.set_status_text(text);
            },
        }
    }
}

// ----- changed blocks -----

/// The first block behind a line; around the end, the first of all.
pub open spec fn next_hunk(hunks: Seq<usize>, line: int, from: int) -> usize
    decreases hunks.len() - from,
{
    if from >= hunks.len() || from < 0 {
        hunks[0]
    } else if hunks[from] > line {
        hunks[from]
    } else {
        next_hunk(hunks, line, from + 1)
    }
}

/// The last of the first `n` blocks before a line; around the start, the last
/// of all.
pub open spec fn prev_hunk(hunks: Seq<usize>, line: int, n: int) -> usize
    decreases n,
{
    if n <= 0 || n > hunks.len() {
        hunks.last()
    } else if hunks[n - 1] < line {
        hunks[n - 1]
    } else {
        prev_hunk(hunks, line, n - 1)
    }
}

impl AppV {
    /// The caret at the next changed block, or the one before.
    pub open spec fn jumped_hunk(self, forward: bool) -> AppV {
        let d = self.doc();
        let line = line_at(self.buf().text, self.buf().cursor() as int) as int;
        let hunks = d.git_gutter.hunks;
        if !d.view.git_gutter_enabled || !d.git_gutter.enabled {
            self.with_status("Git gutter not available."@)
        } else if hunks.len() == 0 {
            self.with_status("No git hunks."@)
        } else if forward {
            self.went_to_line(next_hunk(hunks, line, 0) + 1).with_status("Next hunk."@)
        } else {
            self.went_to_line(prev_hunk(hunks, line, hunks.len() as int) + 1).with_status(
                "Previous hunk."@,
            )
        }
    }
}

fn find_next_hunk(hunks: &Vec<usize>, line: usize) -> (r: usize)
    requires
        hunks@.len() > 0,
    ensures
        r == next_hunk(hunks@, line as int, 0),
{
    let mut i: usize = 0;
    while i < hunks.len()
        invariant
            i <= hunks.len(),
            hunks@.len() > 0,
            next_hunk(hunks@, line as int, i as int) == next_hunk(hunks@, line as int, 0),
        decreases hunks.len() - i,
    {
        if hunks[i] > line {
            return hunks[i];
        }
        i += 1;
    }
    hunks[0]
}

fn find_prev_hunk(hunks: &Vec<usize>, line: usize) -> (r: usize)
    requires
        hunks@.len() > 0,
    ensures
        r == prev_hunk(hunks@, line as int, hunks@.len() as int),
{
    let mut n: usize = hunks.len();
    while n > 0
        invariant
            n <= hunks.len(),
            hunks@.len() > 0,
            prev_hunk(hunks@, line as int, n as int) == prev_hunk(
                hunks@,
                line as int,
                hunks@.len() as int,
            ),
        decreases n,
    {
        if hunks[n - 1] < line {
            return hunks[n - 1];
        }
        n -= 1;
    }
    hunks[hunks.len() - 1]
}

impl EditorApp {
    fn caret_line(&self) -> (r: usize)
        requires
            self@.wf(),
        ensures
            r == line_at(self@.buf().text, self@.buf().cursor() as int),
    {
        let pos: usize = self.active_buffer().cursor();
        match self.active_buffer().pos_to_linecol(pos) {
            Some((line, _)) => line,
            None => 0,
        }
    }

    /// Go to the next changed block, or for a `delta` that is not positive to
    /// the one before; around the ends.
    pub fn jump_hunk(&mut self, delta: isize)
        requires
            old(self)@.wf(),
        ensures
            final(self)@ == old(self)@.jumped_hunk(delta > 0),
            final(self)@.wf(),
    {
        let line: usize = self.caret_line();
        let doc: &Document = self.active_doc();
        if !doc.view.git_gutter_enabled || !doc.git_gutter.enabled {
            self.set_status("Git gutter not available.");
            return;
        }
        if doc.git_gutter.hunks.len() == 0 {
            self.set_status("No git hunks.");
            return;
        }
        if delta > 0 {
            let to: usize = find_next_hunk(&doc.git_gutter.hunks, line);
            self.show_hunk(to, "Next hunk.");
        } else {
            let to: usize = find_prev_hunk(&doc.git_gutter.hunks, line);
            self.show_hunk(to, "Previous hunk.");
        }
    }

    fn show_hunk(&mut self, line: usize, text: &str)
        requires
            old(self)@.wf(),
        ensures
            final(self)@ == old(self)@.went_to_line(line + 1).with_status(text@),
            final(self)@.wf(),
    {
        let count: usize = self.active_buffer().line_count();
        let number: usize = line.saturating_add(1);
        self.go_to_line(number);
        self.set_status(text);
        assert(line_begin(old(self)@.buf().text, number - 1) == line_begin(
            old(self)@.buf().text,
            line as int,
        ));
    }
}

// ----- occurrences -----

impl AppV {
    /// The next occurrence of the word or the selected text selected too.
    pub open spec fn next_occurrence_selected(self) -> AppV {
        match wanted(self.buf()) {
            None => self.with_status("No word to search."@),
            Some(needle) => if next_occurrence(self.buf(), needle) is Some {
                self.with_buf(next_selected(self.buf(), needle)).caret_shown()
            } else {
                self.with_status("No more occurrences."@)
            },
        }
    }

    /// All occurrences of the word or the selected text selected.
    pub open spec fn all_occurrences_selected(self) -> AppV {
        let all = all_wanted(self.buf());
        if wanted(self.buf()) is None {
            self.with_status("No word to search."@)
        } else if all.len() == 0 {
            self.with_status("No occurrences."@)
        } else {
            self.with_buf(self.buf().with_selections(all)).caret_shown().with_status(
                decimal(all.len()) + " occurrences selected."@,
            )
        }
    }
}

impl EditorApp {
    /// Select the next occurrence of the word at the caret, or of the selected
    /// text, too.
    pub fn select_next_occurrence(&mut self)
        requires
            old(self)@.wf(),
        ensures
            final(self)@ == old(self)@.next_occurrence_selected(),
            final(self)@.wf(),
    {
        match wanted_text(self.active_buffer()) {
            None => self.set_status("No word to search."),
            Some(needle) => {
                if select_next(self.active_buffer_mut(), needle.as_str()) {
                    self.snap_caret_animation();
                } else {
                    proof {
                        crate::state::lemma_same_buf(old(self)@);
                    }
                    self.set_status("No more occurrences.");
                }
            },
        }
    }

    /// Select every occurrence of the word at the caret, or of the selected
    /// text.
    pub fn select_all_occurrences(&mut self)
        requires
            old(self)@.wf(),
        ensures
            final(self)@ == old(self)@.all_occurrences_selected(),
            final(self)@.wf(),
    {
        match wanted_text(self.active_buffer()) {
            None => self.set_status("No word to search."),
            Some(needle) => {
                let all: Vec<Selection> = wanted_places(self.active_buffer(), needle.as_str());
                if all.len() == 0 {
                    self.set_status("No occurrences.");
                } else {
                    self.select_these(all);
                }
            },
        }
    }

    fn select_these(&mut self, all: Vec<Selection>)
        requires
            old(self)@.wf(),
            all@.len() > 0,
        ensures
            final(self)@ == old(self)@.with_buf(
                old(self)@.buf().with_selections(all@),
            ).caret_shown().with_status(decimal(all@.len()) + " occurrences selected."@),
            final(self)@.wf(),
    {
        let count: usize = all.len();
        self.active_buffer_mut().set_selections(all);
        self.snap_caret_animation();
        let mut text: String = String::new();
        push_decimal(&mut text, count as u64);
        text.append(" occurrences selected.");
        assert(text@ =~= decimal(count as nat) + " occurrences selected."@);
        self.set_status_text(text);
    }
}

} // verus!

//! The mouse in the text: where it points, and what pressing it does.

use vstd::prelude::*;

use crate::buffer::{BufferV, Selection, TextBuffer};
use crate::columns::{byte_col_in, byte_col_of, byte_len, char_col_of};
use crate::event::EditorEvent;
use crate::line_view::{counted, gutter_cols, line_number_width, shown_chars, text_cols};
use crate::lines::{line_at, line_start, line_total};
use crate::occurrences::{word_range_at_char_col, word_range_spec};
use crate::panels::CmdLinkState;
use crate::state::{AppV, EditorApp, LspV, Ui};
use crate::text::chars_of;

verus! {

// ----- places -----

/// The character, from `i` on, that covers column `col` of the window; behind
/// the last one, the end of the line.
pub open spec fn char_at_col(chars: Seq<char>, tab_width: nat, col: int, i: int) -> int
    decreases chars.len() - i,
{
    if i >= chars.len() || i < 0 {
        chars.len() as int
    } else if text_cols(chars, tab_width, i + 1) > col {
        i
    } else {
        char_at_col(chars, tab_width, col, i + 1)
    }
}

fn find_char_at_col(chars: &Vec<char>, tab_width: usize, col: usize) -> (r: usize)
    ensures
        r == char_at_col(chars@, tab_width as nat, col as int, 0),
        r <= chars.len(),
{
    let mut i: usize = 0;
    let mut cols: usize = 0;
    while i < chars.len()
        invariant
            i <= chars.len(),
            cols == text_cols(chars@, tab_width as nat, i as int),
            cols <= col,
            char_at_col(chars@, tab_width as nat, col as int, 0) == char_at_col(
                chars@,
                tab_width as nat,
                col as int,
                i as int,
            ),
        decreases chars.len() - i,
    {
        let w: usize = if chars[i] == '\t' { tab_width } else { 1 };
        if w > col - cols {
            return i;
        }
        cols += w;
        i += 1;
    }
    i
}

/// The byte position at a line and a column of the window. Below the last line
/// it is the end of the text.
pub open spec fn pos_at(b: BufferV, tab_width: usize, line: int, col: int) -> usize {
    if line >= line_total(b.text) {
        b.text.len() as usize
    } else {
        let chars = shown_chars(b, line);
        counted(
            (line_start(b.text, line as nat) + byte_col_of(
                chars,
                char_at_col(chars, tab_width as nat, col, 0),
            )) as nat,
        )
    }
}

/// Where in the text a line and a column of the window are. A tab takes
/// `tab_width` columns.
pub fn position_at(buffer: &TextBuffer, tab_width: usize, line: usize, col: usize) -> (r: usize)
    requires
        buffer@.wf(),
    ensures
        r == pos_at(buffer@, tab_width, line as int, col as int),
{
    match buffer.line_byte_range(line) {
        None => buffer.len(),
        Some(range) => {
            let text: String = buffer.shown_line(line);
            let chars: Vec<char> = chars_of(text.as_str());
            let bytes: usize = text.as_str().as_bytes().len();
            assert(byte_len(chars@) <= usize::MAX);
            let at: usize = find_char_at_col(&chars, tab_width, col);
            range.start.saturating_add(byte_col_in(&chars, at))
        },
    }
}

/// The bytes of the word at a character column of a line.
pub open spec fn link_at(b: BufferV, line: int, col: int) -> Option<(usize, usize)> {
    if line >= line_total(b.text) {
        None
    } else {
        let chars = shown_chars(b, line);
        let start = line_start(b.text, line as nat);
        let w = word_range_spec(chars, col);
        let from = counted((start + byte_col_of(chars, w.0)) as nat);
        let to = counted((start + byte_col_of(chars, w.1)) as nat);
        if from < to { Some((from, to)) } else { None }
    }
}

/// The word that a link would be made of.
pub fn link_range(buffer: &TextBuffer, line: usize, col: usize) -> (r: Option<(usize, usize)>)
    requires
        buffer@.wf(),
    ensures
        r == link_at(buffer@, line as int, col as int),
{
    match buffer.line_byte_range(line) {
        None => None,
        Some(range) => {
            let text: String = buffer.shown_line(line);
            let chars: Vec<char> = chars_of(text.as_str());
            let bytes: usize = text.as_str().as_bytes().len();
            assert(byte_len(chars@) <= usize::MAX);
            let (first, last): (usize, usize) = word_range_at_char_col(text.as_str(), col);
            let from: usize = range.start.saturating_add(byte_col_in(&chars, first));
            let to: usize = range.start.saturating_add(byte_col_in(&chars, last));
            if from < to { Some((from, to)) } else { None }
        },
    }
}

/// Line and character column of a position, as they are drawn.
pub open spec fn drawn_at(b: BufferV, pos: int) -> (nat, nat) {
    let line = line_at(b.text, pos);
    (line, char_col_of(shown_chars(b, line as int), pos - line_start(b.text, line)))
}

/// Where a position is drawn.
pub fn drawn_place(buffer: &TextBuffer, pos: usize) -> (r: (usize, usize))
    requires
        buffer@.wf(),
        pos <= buffer@.len(),
    ensures
        (r.0 as nat, r.1 as nat) == drawn_at(buffer@, pos as int),
        r.0 < line_total(buffer@.text),
{
    match buffer.pos_to_linecol(pos) {
        Some((line, col)) => {
            let text: String = buffer.shown_line(line);
            (line, crate::columns::byte_to_char_col(text.as_str(), col))
        },
        None => (0, 0),
    }
}

/// Where the carets among the first `n` selections are drawn. A selection that
/// holds text has none.
pub open spec fn caret_places(b: BufferV, n: int) -> Seq<(usize, usize)>
    decreases n,
{
    if n <= 0 {
        seq![]
    } else {
        let s = b.selections[n - 1];
        if s.anchor == s.head {
            let p = drawn_at(b, s.head as int);
            caret_places(b, n - 1).push((p.0 as usize, p.1 as usize))
        } else {
            caret_places(b, n - 1)
        }
    }
}

/// Where the carets are drawn, one for each selection that holds no text.
pub fn carets_to_draw(buffer: &TextBuffer) -> (r: Vec<(usize, usize)>)
    requires
        buffer@.wf(),
    ensures
        r@ == caret_places(buffer@, buffer@.selections.len() as int),
{
    let selections: &Vec<Selection> = buffer.selections();
    let mut out: Vec<(usize, usize)> = Vec::new();
    let mut i: usize = 0;
    assert(out@ =~= seq![]);
    while i < selections.len()
        invariant
            i <= selections.len(),
            buffer@.wf(),
            selections@ == buffer@.selections,
            out@ == caret_places(buffer@, i as int),
        decreases selections.len() - i,
    {
        let s: Selection = selections[i];
        if s.is_collapsed() {
            out.push(drawn_place(buffer, s.head));
        }
        i += 1;
    }
    out
}

// ----- brackets -----

/// The bracket that belongs to a bracket, and whether it comes behind it.
pub open spec fn partner(c: u8) -> Option<(u8, bool)> {
    if c == 40 {
        Some((41, true))
    } else if c == 41 {
        Some((40, false))
    } else if c == 91 {
        Some((93, true))
    } else if c == 93 {
        Some((91, false))
    } else if c == 123 {
        Some((125, true))
    } else if c == 125 {
        Some((123, false))
    } else {
        None
    }
}

/// The bracket that closes what is open at `pos`, with `depth` more of its kind
/// open inside.
pub open spec fn closing_from(b: Seq<u8>, open: u8, close: u8, pos: int, depth: nat) -> Option<int>
    decreases b.len() - pos,
{
    if pos >= b.len() || pos < 0 {
        None
    } else if b[pos] == close {
        if depth == 0 {
            Some(pos)
        } else {
            closing_from(b, open, close, pos + 1, (depth - 1) as nat)
        }
    } else {
        closing_from(b, open, close, pos + 1, if b[pos] == open { depth + 1 } else { depth })
    }
}

/// The bracket that opens what is closed before `pos`.
pub open spec fn opening_before(b: Seq<u8>, open: u8, close: u8, pos: int, depth: nat) -> Option<int>
    decreases pos,
{
    if pos <= 0 || pos > b.len() {
        None
    } else if b[pos - 1] == open {
        if depth == 0 {
            Some(pos - 1)
        } else {
            opening_before(b, open, close, pos - 1, (depth - 1) as nat)
        }
    } else {
        opening_before(b, open, close, pos - 1, if b[pos - 1] == close { depth + 1 } else { depth })
    }
}

/// The partner of the bracket at `pos`.
pub open spec fn partner_at(b: Seq<u8>, pos: int) -> Option<int> {
    if 0 <= pos < b.len() {
        match partner(b[pos]) {
            Some((other, true)) => closing_from(b, b[pos], other, pos + 1, 0),
            Some((other, false)) => opening_before(b, other, b[pos], pos, 0),
            None => None,
        }
    } else {
        None
    }
}

/// The bracket next to the caret: the one behind it, or else the one before it.
pub open spec fn bracket_near(b: Seq<u8>, caret: int) -> Option<int> {
    if 0 <= caret < b.len() && partner(b[caret]) is Some {
        Some(caret)
    } else if 0 < caret <= b.len() && partner(b[caret - 1]) is Some {
        Some(caret - 1)
    } else {
        None
    }
}

/// The bracket next to the caret and its partner.
pub open spec fn bracket_pair(b: Seq<u8>, caret: int) -> Option<(int, int)> {
    match bracket_near(b, caret) {
        Some(at) => match partner_at(b, at) {
            Some(other) => Some((at, other)),
            None => None,
        },
        None => None,
    }
}

fn partner_of(c: u8) -> (r: Option<(u8, bool)>)
    ensures
        r == partner(c),
{
    if c == 40 {
        Some((41, true))
    } else if c == 41 {
        Some((40, false))
    } else if c == 91 {
        Some((93, true))
    } else if c == 93 {
        Some((91, false))
    } else if c == 123 {
        Some((125, true))
    } else if c == 125 {
        Some((123, false))
    } else {
        None
    }
}

fn find_closing(buffer: &TextBuffer, open: u8, close: u8, from: usize) -> (r: Option<usize>)
    requires
        buffer@.wf(),
        from <= buffer@.len(),
        open != close,
    ensures
        r matches Some(p) ==> closing_from(buffer@.text, open, close, from as int, 0) == Some(
            p as int,
        ) && p < buffer@.len(),
        r is None ==> closing_from(buffer@.text, open, close, from as int, 0) is None,
{
    let n: usize = buffer.len();
    let mut i: usize = from;
    let mut depth: usize = 0;
    while i < n
        invariant
            from <= i <= n,
            n == buffer@.len(),
            depth <= i,
            closing_from(buffer@.text, open, close, from as int, 0) == closing_from(
                buffer@.text,
                open,
                close,
                i as int,
                depth as nat,
            ),
        decreases n - i,
    {
        let c: u8 = buffer.byte(i);
        if c == close {
            if depth == 0 {
                return Some(i);
            }
            depth -= 1;
        } else if c == open {
            depth += 1;
        }
        i += 1;
    }
    None
}

fn find_opening(buffer: &TextBuffer, open: u8, close: u8, before: usize) -> (r: Option<usize>)
    requires
        buffer@.wf(),
        before <= buffer@.len(),
        open != close,
    ensures
        r matches Some(p) ==> opening_before(buffer@.text, open, close, before as int, 0) == Some(
            p as int,
        ) && p < buffer@.len(),
        r is None ==> opening_before(buffer@.text, open, close, before as int, 0) is None,
{
    let mut i: usize = before;
    let mut depth: usize = 0;
    while i > 0
        invariant
            i <= before <= buffer@.len(),
            depth + i <= before,
            opening_before(buffer@.text, open, close, before as int, 0) == opening_before(
                buffer@.text,
                open,
                close,
                i as int,
                depth as nat,
            ),
        decreases i,
    {
        let c: u8 = buffer.byte(i - 1);
        if c == open {
            if depth == 0 {
                return Some(i - 1);
            }
            depth -= 1;
        } else if c == close {
            depth += 1;
        }
        i -= 1;
    }
    None
}

/// The bracket next to a place and its partner, if both are there.
pub fn matching_bracket(buffer: &TextBuffer, caret: usize) -> (r: Option<(usize, usize)>)
    requires
        buffer@.wf(),
        caret <= buffer@.len(),
    ensures
        r matches Some(p) ==> bracket_pair(buffer@.text, caret as int) == Some(
            (p.0 as int, p.1 as int),
        ) && p.0 < buffer@.len() && p.1 < buffer@.len(),
        r is None ==> bracket_pair(buffer@.text, caret as int) is None,
{
    let n: usize = buffer.len();
    let at: usize = if caret < n && partner_of(buffer.byte(caret)).is_some() {
        caret
    } else if caret > 0 && partner_of(buffer.byte(caret - 1)).is_some() {
        caret - 1
    } else {
        return None;
    };
    let c: u8 = buffer.byte(at);
    let other: Option<usize> = match partner_of(c) {
        Some((close, true)) => find_closing(buffer, c, close, at + 1),
        Some((open, false)) => find_opening(buffer, open, c, at),
        None => None,
    };
    match other {
        Some(o) => Some((at, o)),
        None => None,
    }
}

/// The two places to highlight as a pair of brackets: only where there is one
/// caret and nothing is selected.
pub open spec fn bracket_places(b: BufferV) -> Option<((nat, nat), (nat, nat))> {
    if b.selections.len() == 1 && b.primary().anchor == b.primary().head {
        match bracket_pair(b.text, b.cursor() as int) {
            Some(p) => Some((drawn_at(b, p.0), drawn_at(b, p.1))),
            None => None,
        }
    } else {
        None
    }
}

/// Where the pair of brackets at the caret is drawn.
pub fn brackets_to_draw(buffer: &TextBuffer) -> (r: Option<((usize, usize), (usize, usize))>)
    requires
        buffer@.wf(),
    ensures
        r is None <==> bracket_places(buffer@) is None,
        r matches Some(p) ==> bracket_places(buffer@) == Some(
            (((p.0).0 as nat, (p.0).1 as nat), ((p.1).0 as nat, (p.1).1 as nat)),
        ),
{
    if buffer.selections().len() != 1 || !buffer.selection().is_collapsed() {
        return None;
    }
    match matching_bracket(buffer, buffer.cursor()) {
        Some((a, b)) => Some((drawn_place(buffer, a), drawn_place(buffer, b))),
        None => None,
    }
}

// ----- pressing -----

/// How the mouse is pressed in the text.
#[derive(Debug, Clone, Copy, PartialEq, Eq, Structural)]
pub struct Press {
    pub clicked: bool,
    pub dragged: bool,
    pub alt: bool,
    pub command: bool,
}

impl AppV {
    pub open spec fn column_select_from(self, place: Option<(usize, usize)>) -> AppV {
        AppV { ui: Ui { column_select_start: place, ..self.ui }, ..self }
    }

    /// The line and byte column of a position, where it is inside the text.
    pub open spec fn linecol(self, pos: usize) -> Option<(usize, usize)> {
        let t = self.buf().text;
        if pos <= t.len() {
            Some((line_at(t, pos as int) as usize, (pos - line_start(t, line_at(t, pos as int))) as usize))
        } else {
            None
        }
    }

    /// A caret added, from which a column selection may begin.
    pub open spec fn alt_clicked(self, pos: usize) -> AppV {
        let s = if self.linecol(pos) is Some {
            self.column_select_from(self.linecol(pos))
        } else {
            self
        };
        s.after(EditorEvent::AddCursor { pos })
    }

    /// A rectangle selected from where the column selection began.
    pub open spec fn alt_dragged(self, pos: usize) -> AppV {
        match (self.ui.column_select_start, self.linecol(pos)) {
            (Some(from), Some(to)) => self.after(
                EditorEvent::ColumnSelect {
                    from_line: from.0,
                    from_col: from.1,
                    to_line: to.0,
                    to_col: to.1,
                },
            ),
            _ => self,
        }
    }

    /// The definition of what was clicked asked for.
    pub open spec fn command_clicked(self, pos: usize) -> AppV {
        match self.lsp_at(pos as int) {
            Some(place) => self.definition_asked_at(place, true),
            None => self,
        }
    }

    /// What pressing the mouse at a position of the text does there.
    pub open spec fn pressed_at(self, press: Press, pos: usize) -> AppV {
        if press.clicked && press.alt {
            self.alt_clicked(pos)
        } else if press.dragged && press.alt {
            self.alt_dragged(pos)
        } else if press.clicked && press.command {
            self.command_clicked(pos)
        } else if press.dragged {
            self.after(EditorEvent::SelectExtendTo { pos })
        } else {
            self.after(EditorEvent::SetCursor { pos })
        }
    }

    /// The mouse pressed at a position of the text, or beside it.
    pub open spec fn pressed(self, press: Press, pos: Option<usize>) -> AppV {
        if !press.clicked && !press.dragged {
            self
        } else {
            match pos {
                None => self.tree_focused(false),
                Some(p) => self.tree_focused(false).pressed_at(press, p),
            }
        }
    }

    /// The position at a cell of the terminal.
    pub open spec fn cell_pos(self, top_line: usize, row: usize, col: usize) -> Option<usize> {
        let gutter = gutter_cols(line_total(self.buf().text));
        if row == 0 {
            None
        } else {
            Some(
                pos_at(
                    self.buf(),
                    self.doc().view.tab_width,
                    counted((top_line + row - 1) as nat) as int,
                    if col < gutter { 0 } else { col - gutter },
                ),
            )
        }
    }

    /// The link under the pointer.
    pub open spec fn linked(self, place: Option<(usize, usize)>) -> AppV {
        AppV {
            lsp: LspV {
                cmd_link: CmdLinkState {
                    range: match place {
                        Some(p) => link_at(self.buf(), p.0 as int, p.1 as int),
                        None => None,
                    },
                },
                ..self.lsp
            },
            ..self
        }
    }
}

impl EditorApp {
    fn linecol_of(&self, pos: usize) -> (r: Option<(usize, usize)>)
        requires
            self@.wf(),
        ensures
            r == self@.linecol(pos),
    {
        self.active_buffer().pos_to_linecol(pos)
    }

    fn start_columns(&mut self, pos: usize)
        requires
            old(self)@.wf(),
        ensures
            final(self)@ == (if old(self)@.linecol(pos) is Some {
                old(self)@.column_select_from(old(self)@.linecol(pos))
            } else {
                old(self)@
            }),
            final(self)@.wf(),
    {
        let place: Option<(usize, usize)> = self.linecol_of(pos);
        if place.is_some() {
            self.ui_mut().column_select_start = place;
        }
    }

    fn alt_click(&mut self, pos: usize)
        requires
            old(self)@.wf(),
        ensures
            final(self)@ == old(self)@.alt_clicked(pos),
            final(self)@.wf(),
    {
        self.start_columns(pos);
        self.handle_event(EditorEvent::AddCursor { pos });
    }

    fn alt_drag(&mut self, pos: usize)
        requires
            old(self)@.wf(),
        ensures
            final(self)@ == old(self)@.alt_dragged(pos),
            final(self)@.wf(),
    {
        let from: Option<(usize, usize)> = self.ui().column_select_start;
        let to: Option<(usize, usize)> = self.linecol_of(pos);
        match (from, to) {
            (Some((from_line, from_col)), Some((to_line, to_col))) => self.handle_event(
                EditorEvent::ColumnSelect { from_line, from_col, to_line, to_col },
            ),
            _ => {},
        }
    }

    fn command_click(&mut self, pos: usize)
        requires
            old(self)@.wf(),
        ensures
            final(self)@ == old(self)@.command_clicked(pos),
            final(self)@.wf(),
    {
        match self.lsp_position_for_byte(pos) {
            Some(place) => self.request_definition_at(place, true),
            None => {},
        }
    }

    fn press_at(&mut self, press: Press, pos: usize)
        requires
            old(self)@.wf(),
        ensures
            final(self)@ == old(self)@.pressed_at(press, pos),
            final(self)@.wf(),
    {
        if press.clicked && press.alt {
            self.alt_click(pos);
        } else if press.dragged && press.alt {
            self.alt_drag(pos);
        } else if press.clicked && press.command {
            self.command_click(pos);
        } else if press.dragged {
            self.handle_event(EditorEvent::SelectExtendTo { pos });
        } else {
            self.handle_event(EditorEvent::SetCursor { pos });
        }
    }

    /// Press the mouse at a position of the text; nothing where it is not over
    /// the text. The text gets the keyboard. With Alt a caret is added or a
    /// rectangle selected, with the command key the definition is looked up.
    pub fn pointer_pressed(&mut self, press: Press, pos: Option<usize>)
        requires
            old(self)@.wf(),
        ensures
            final(self)@ == old(self)@.pressed(press, pos),
            final(self)@.wf(),
    {
        if !press.clicked && !press.dragged {
            return;
        }
        self.focus_tree(false);
        match pos {
            None => {},
            Some(p) => self.press_at(press, p),
        }
    }

    /// Where in the active document a line and a column of the window are.
    pub fn position_of(&self, line: usize, col: usize) -> (r: usize)
        requires
            self@.wf(),
        ensures
            r == pos_at(self@.buf(), self@.doc().view.tab_width, line as int, col as int),
    {
        position_at(self.active_buffer(), self.active_doc().view.tab_width, line, col)
    }

    /// Where in the active document a cell of the terminal is, when line
    /// `top_line` is the first that shows. The first row is the header; left of
    /// the text the cell counts as its first column.
    pub fn cell_position(&self, top_line: usize, row: usize, col: usize) -> (r: Option<usize>)
        requires
            self@.wf(),
        ensures
            r == self@.cell_pos(top_line, row, col),
    {
        if row == 0 {
            return None;
        }
        let gutter: usize = line_number_width(self.active_buffer().line_count()) + 3;
        Some(self.position_of(top_line.saturating_add(row - 1), col.saturating_sub(gutter)))
    }

    /// Note which word the pointer is over while the command key is held, by
    /// its line and character column.
    pub fn point_link(&mut self, place: Option<(usize, usize)>)
        requires
            old(self)@.wf(),
        ensures
            final(self)@ == old(self)@.linked(place),
            final(self)@.wf(),
    {
        let range: Option<(usize, usize)> = match place {
            Some((line, col)) => link_range(self.active_buffer(), line, col),
            None => None,
        };
        self.lsp_mut().cmd_link = CmdLinkState { range };
    }

    /// Scroll the text sideways by a number of columns, not beyond its start.
    pub fn scroll_columns(&mut self, delta: i32)
        requires
            old(self)@.wf(),
        ensures
            final(self)@ == old(self)@.scrolled(old(self)@.doc().view.scroll_x_cols + delta),
            final(self)@.wf(),
    {
        let cols: usize = self.active_doc().view.scroll_x_cols;
        let back: u64 = if delta < 0 { (-(delta as i64)) as u64 } else { 0 };
        if delta < 0 {
            self.scroll_to(cols.saturating_sub(back as usize));
        } else {
            self.scroll_to(cols.saturating_add(delta as usize));
        }
    }
}

} // verus!

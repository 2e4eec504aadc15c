//! The arguments of the program: which files to open, and where in them.

use vstd::prelude::*;

use crate::buffer::{BufferV, TextBuffer};
use crate::document::{
    blank_info, default_view, fresh_doc, with_defaults, DocInfo, DocV, Document, ViewDefaults,
};
use crate::files::{empty_buffer, read_buffer, FileContent};
use crate::motion::{clamped_line_charcol_to_pos, clamped_pos};
use crate::state::docs_view;
use crate::text::{all_digits, chars_of, digits_value, is_digits, parse_digits, string_of};

verus! {

/// Index of the last colon, or -1.
pub open spec fn last_colon(s: Seq<char>) -> int
    decreases s.len(),
{
    if s.len() == 0 {
        -1
    } else if s.last() == ':' {
        s.len() - 1
    } else {
        last_colon(s.drop_last())
    }
}

/// The number that digits denote; one that is too large counts as 1.
pub open spec fn number_or_one(digits: Seq<char>) -> usize {
    if digits_value(digits) <= usize::MAX {
        digits_value(digits) as usize
    } else {
        1
    }
}

/// What an argument means: a path, and the line and column behind it. They are
/// there only where the argument is no file itself and ends in a colon and
/// digits, or in two such groups.
pub open spec fn place_of(arg: Seq<char>, is_file: bool) -> (Seq<char>, Option<usize>, Option<usize>) {
    let i = last_colon(arg);
    let rest = arg.take(i);
    let j = last_colon(rest);
    if is_file || i <= 0 || !all_digits(arg.skip(i + 1)) {
        (arg, None, None)
    } else if j < 0 {
        (rest, Some(number_or_one(arg.skip(i + 1))), None)
    } else if j > 0 && all_digits(rest.skip(j + 1)) {
        (
            rest.take(j),
            Some(number_or_one(rest.skip(j + 1))),
            Some(number_or_one(arg.skip(i + 1))),
        )
    } else {
        (arg, None, None)
    }
}

/// Law: a path without a colon means itself, and so does every file that
/// exists.
pub proof fn law_plain_paths_stay(arg: Seq<char>, is_file: bool)
    ensures
        is_file ==> place_of(arg, is_file) == (arg, None::<usize>, None::<usize>),
        !arg.contains(':') ==> place_of(arg, is_file) == (arg, None::<usize>, None::<usize>),
{
    lemma_last_colon(arg);
    if last_colon(arg) >= 0 {
        assert(arg[last_colon(arg)] == ':');
    }
}

proof fn lemma_last_colon(s: Seq<char>)
    ensures
        -1 <= last_colon(s) < s.len(),
        last_colon(s) >= 0 ==> s[last_colon(s)] == ':',
    decreases s.len(),
{
    if s.len() > 0 && s.last() != ':' {
        lemma_last_colon(s.drop_last());
    }
}

/// Index of the last colon among the first `n` characters, or nothing.
fn find_colon(chars: &Vec<char>, n: usize) -> (r: Option<usize>)
    requires
        n <= chars.len(),
    ensures
        r matches Some(i) ==> i == last_colon(chars@.take(n as int)) && i < n,
        r is None ==> last_colon(chars@.take(n as int)) == -1,
{
    let mut i: usize = n;
    while i > 0
        invariant
            i <= n <= chars.len(),
            last_colon(chars@.take(n as int)) == last_colon(chars@.take(i as int)),
        decreases i,
    {
        assert(chars@.take(i as int).drop_last() =~= chars@.take(i - 1));
        if chars[i - 1] == ':' {
            return Some(i - 1);
        }
        i -= 1;
    }
    None
}

fn number(chars: &Vec<char>, from: usize, to: usize) -> (r: usize)
    requires
        from <= to <= chars.len(),
        all_digits(chars@.subrange(from as int, to as int)),
    ensures
        r == number_or_one(chars@.subrange(from as int, to as int)),
{
    match parse_digits(chars, from, to) {
        Some(v) => v,
        None => 1,
    }
}

/// Read an argument as a path, a path and a line, or a path, a line and a
/// column, both counted from 1. Whether a file of that very name exists is the
/// caller's to find out: such a file is always meant as it stands.
pub fn parse_position_arg(arg: &str, is_file: bool) -> (r: (String, Option<usize>, Option<usize>))
    ensures
        (r.0@, r.1, r.2) == place_of(arg@, is_file),
{
    if is_file {
        return (arg.to_owned(), None, None);
    }
    let chars: Vec<char> = chars_of(arg);
    let n: usize = chars.len();
    assert(chars@.take(n as int) =~= arg@);
    let i: usize = match find_colon(&chars, n) {
        Some(i) => i,
        None => {
            return (arg.to_owned(), None, None);
        },
    };
    assert(chars@.subrange(i + 1, n as int) =~= arg@.skip(i + 1));
    if i == 0 || !is_digits(&chars, i + 1, n) {
        return (arg.to_owned(), None, None);
    }
    assert(chars@.take(i as int) =~= arg@.take(i as int));
    assert(chars@.subrange(0, i as int) =~= arg@.take(i as int));
    match find_colon(&chars, i) {
        None => (string_of(&chars, 0, i), Some(number(&chars, i + 1, n)), None),
        Some(j) => {
            assert(chars@.subrange(j + 1, i as int) =~= arg@.take(i as int).skip(j + 1));
            assert(chars@.subrange(0, j as int) =~= arg@.take(i as int).take(j as int));
            if j > 0 && is_digits(&chars, j + 1, i) {
                (
                    string_of(&chars, 0, j),
                    Some(number(&chars, j + 1, i)),
                    Some(number(&chars, i + 1, n)),
                )
            } else {
                (arg.to_owned(), None, None)
            }
        },
    }
}

/// A file to open at the start, as it was found.
pub struct StartFile {
    pub path: String,
    /// Line and column to start at, counted from 1.
    pub position: Option<(usize, Option<usize>)>,
    pub info: DocInfo,
    pub content: FileContent,
}

/// One less, but not below 0.
pub open spec fn from_one(n: usize) -> nat {
    if n == 0 { 0 } else { (n - 1) as nat }
}

/// The caret at a line and column counted from 1, if they are given.
pub open spec fn placed(b: BufferV, position: Option<(usize, Option<usize>)>) -> BufferV {
    match position {
        None => b,
        Some(p) => b.with_cursor(
            clamped_pos(
                b.text,
                from_one(p.0) as int,
                from_one(match p.1 {
                    Some(c) => c,
                    None => 1,
                }),
            ),
        ),
    }
}

/// What a file is opened with. One that does not exist starts empty and is
/// saved to its path; one that cannot be read starts empty without a path.
pub open spec fn start_buffer(path: Seq<char>, content: FileContent) -> BufferV {
    match content {
        FileContent::Bytes(b) => read_buffer(path, b@),
        FileContent::Missing => read_buffer(path, seq![]),
        FileContent::Unreadable(_) => empty_buffer(),
    }
}

/// The document that a file opens as.
pub open spec fn start_doc(file: StartFile, defaults: ViewDefaults) -> DocV {
    fresh_doc(
        placed(start_buffer(file.path@, file.content), file.position),
        file.info,
        with_defaults(default_view(), defaults),
    )
}

/// The content is no longer than memory can hold.
pub open spec fn start_fits(file: StartFile) -> bool {
    file.content matches FileContent::Bytes(b) ==> b.len() <= isize::MAX
}

/// Open one file, with the caret at its place.
pub fn load_document(file: StartFile, defaults: ViewDefaults) -> (r: Document)
    requires
        start_fits(file),
    ensures
        r@ == start_doc(file, defaults),
        r@.buffer.wf(),
{
    let StartFile { path, position, info, content } = file;
    let mut buffer: TextBuffer = match content {
        FileContent::Bytes(b) => TextBuffer::from_bytes_with_path(b, path),
        FileContent::Missing => {
            let none: Vec<u8> = Vec::new();
            assert(none@ =~= seq![]);
            TextBuffer::from_bytes_with_path(none, path)
        },
        FileContent::Unreadable(_) => TextBuffer::new(),
    };
    assert(buffer@ == start_buffer(path@, content));
    match position {
        None => {},
        Some((line, col)) => {
            let c: usize = match col {
                Some(c) => c,
                None => 1,
            };
            let pos: usize = clamped_line_charcol_to_pos(
                &buffer,
                line.saturating_sub(1),
                c.saturating_sub(1),
            );
            buffer.set_cursor(pos);
        },
    }
    Document::new_with_defaults(buffer, info, defaults)
}

/// The documents that the editor starts with: one for each file, in order, or
/// an empty one where there are none.
pub open spec fn start_docs(files: Seq<StartFile>, defaults: ViewDefaults) -> Seq<DocV> {
    if files.len() == 0 {
        seq![fresh_doc(empty_buffer(), blank_info(), with_defaults(default_view(), defaults))]
    } else {
        Seq::new(files.len(), |i: int| start_doc(files[i], defaults))
    }
}

/// Open the files that the editor starts with.
pub fn load_documents(files: Vec<StartFile>, defaults: ViewDefaults) -> (r: Vec<Document>)
    requires
        forall|i: int| 0 <= i < files.len() ==> start_fits(#[trigger] files[i]),
    ensures
        docs_view(r@) == start_docs(files@, defaults),
        r.len() >= 1,
        forall|i: int| 0 <= i < r.len() ==> (#[trigger] r[i])@.buffer.wf(),
{
    let ghost all = files@;
    let mut rest: Vec<StartFile> = files;
    let mut out: Vec<Document> = Vec::new();
    if rest.len() == 0 {
        let info = DocInfo {
            name: None,
            language: None,
            uri: None,
            project_root: None,
            rel_path: None,
            temporary: false,
        };
        let doc = Document::new_with_defaults(TextBuffer::new(), info, defaults);
        out.push(doc);
        assert(docs_view(out@) =~= start_docs(all, defaults));
        return out;
    }
    while rest.len() > 0
        invariant
            all.len() == out.len() + rest.len(),
            rest@ == all.skip(out.len() as int),
            forall|i: int| 0 <= i < all.len() ==> start_fits(#[trigger] all[i]),
            forall|i: int| 0 <= i < out.len() ==> (#[trigger] out[i])@ == start_doc(all[i], defaults),
            forall|i: int| 0 <= i < out.len() ==> (#[trigger] out[i])@.buffer.wf(),
        decreases rest.len(),
    {
        let ghost k = out.len() as int;
        assert(rest@[0] == all[k]);
        let file: StartFile = rest.remove(0);
        assert(rest@ =~= all.skip(k + 1));
        out.push(load_document(file, defaults));
    }
    assert(docs_view(out@) =~= start_docs(all, defaults));
    out
}

} // verus!

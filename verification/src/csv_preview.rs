//! Cached, read-only table view of a CSV document.

use vstd::prelude::*;
use vstd::string::*;

use crate::columns::byte_len;
use crate::text::{chars_of, decimal, digit_char, push_decimal};

verus! {

pub const MAX_PREVIEW_BYTES: usize = 33_554_432;

pub const MAX_ROWS: usize = 50_000;

pub const MAX_COLUMNS: usize = 256;

pub const MAX_CELL_CHARS: usize = 4_096;

pub const MAX_STORED_CELLS: usize = 1_000_000;

pub const MAX_STORED_TEXT_BYTES: usize = 16_777_216;

// ----- records -----

/// One record of a CSV text: its fields, or why it could not be read.
#[derive(Debug)]
pub enum CsvRecord {
    Fields(Vec<String>),
    Malformed(String),
}

/// What a record says.
pub enum CsvRecordV {
    Fields(Seq<Seq<char>>),
    Malformed(Seq<char>),
}

pub open spec fn strings_view(s: Seq<String>) -> Seq<Seq<char>> {
    Seq::new(s.len(), |i: int| s[i]@)
}

impl View for CsvRecord {
    type V = CsvRecordV;

    open spec fn view(&self) -> CsvRecordV {
        match self {
            CsvRecord::Fields(fields) => CsvRecordV::Fields(strings_view(fields@)),
            CsvRecord::Malformed(message) => CsvRecordV::Malformed(message@),
        }
    }
}

pub open spec fn records_view(s: Seq<CsvRecord>) -> Seq<CsvRecordV> {
    Seq::new(s.len(), |i: int| s[i]@)
}

/// The records that the csv crate reads from `bytes`, all of them.
pub uninterp spec fn csv_records(bytes: Seq<u8>) -> Seq<CsvRecordV>;

/// The first `limit` items that `csv::Reader::records` yields over `bytes`,
/// for a reader without a header row that lets records differ in length. A
/// record that is not UTF-8 is reported with the crate's own message, and
/// reading goes on behind it.
#[verifier::external_body]
fn read_records(bytes: &[u8], limit: usize) -> (r: Vec<CsvRecord>)
    ensures
        records_view(r@) == csv_records(bytes@).take(
            if limit < csv_records(bytes@).len() {
                limit as int
            } else {
                csv_records(bytes@).len() as int
            },
        ),
{
    let mut builder = csv::ReaderBuilder::new();
    let mut reader = builder.has_headers(false).flexible(true).from_reader(bytes);
    let convert = |record: Result<csv::StringRecord, csv::Error>| match record {
        Ok(fields) => CsvRecord::Fields(fields.iter().map(str::to_owned).collect()),
        Err(error) => CsvRecord::Malformed(error.to_string()),
    };
    reader.records().take(limit).map(convert).collect()
}

// ----- cells -----

/// The characters of a cell as they are shown: carriage returns are dropped,
/// newlines become a visible mark.
pub open spec fn shown_chars(s: Seq<char>) -> Seq<char>
    decreases s.len(),
{
    if s.len() == 0 {
        seq![]
    } else if s.last() == '\r' {
        shown_chars(s.drop_last())
    } else if s.last() == '\n' {
        shown_chars(s.drop_last()).push('↵')
    } else {
        shown_chars(s.drop_last()).push(s.last())
    }
}

/// What a cell with text `s` shows: at most `MAX_CELL_CHARS` of its
/// characters, and an ellipsis if there are more.
pub open spec fn display_spec(s: Seq<char>) -> Seq<char> {
    if s.len() > MAX_CELL_CHARS {
        shown_chars(s.take(MAX_CELL_CHARS as int)).push('…')
    } else {
        shown_chars(s)
    }
}

/// The text that a cell shows.
pub fn display_cell(text: &str) -> (r: String)
    ensures
        r@ == display_spec(text@),
{
    let chars: Vec<char> = chars_of(text);
    let n: usize = if chars.len() > MAX_CELL_CHARS { MAX_CELL_CHARS } else { chars.len() };
    let mut out: String = String::new();
    let mut i: usize = 0;
    assert(chars@.take(0) =~= seq![]);
    while i < n
        invariant
            i <= n <= chars.len(),
            out@ == shown_chars(chars@.take(i as int)),
        decreases n - i,
    {
        let c: char = chars[i];
        assert(chars@.take(i + 1).drop_last() =~= chars@.take(i as int));
        if c == '\n' {
            out.push('↵');
        } else if c != '\r' {
            out.push(c);
        }
        i += 1;
    }
    if chars.len() > MAX_CELL_CHARS {
        out.push('…');
    } else {
        assert(chars@.take(n as int) =~= chars@);
    }
    out
}

// ----- the shape of a text -----

/// Why a text is refused before it is parsed.
#[derive(Debug, Clone, Copy, PartialEq, Eq, Structural)]
pub enum ShapeError {
    TooManyColumns,
    UnterminatedQuote,
}

impl ShapeError {
    pub open spec fn message_spec(self) -> Seq<char> {
        match self {
            ShapeError::TooManyColumns => "CSV table view supports at most 256 columns per record."@,
            ShapeError::UnterminatedQuote => "Could not parse CSV: unterminated quoted field."@,
        }
    }

    pub fn message(self) -> (r: &'static str)
        ensures
            r@ == self.message_spec(),
    {
        match self {
            ShapeError::TooManyColumns => "CSV table view supports at most 256 columns per record.",
            ShapeError::UnterminatedQuote => "Could not parse CSV: unterminated quoted field.",
        }
    }
}

/// Where the scan of a text stands.
pub struct Scan {
    /// Columns of the current record so far.
    pub columns: nat,
    pub in_quotes: bool,
    /// Nothing of the current field has been seen yet.
    pub field_start: bool,
}

/// The scan at the start of a record.
pub open spec fn scan_start() -> Scan {
    Scan { columns: 1, in_quotes: false, field_start: true }
}

/// The scan behind byte `c` outside quotes. Only a quote at the start of a
/// field opens a quoted one; a comma begins a column, a line break a record.
pub open spec fn scan_plain(s: Scan, c: u8) -> Scan {
    if c == 0x22 && s.field_start {
        Scan { in_quotes: true, field_start: false, ..s }
    } else if c == 0x2c {
        Scan { columns: s.columns + 1, field_start: true, ..s }
    } else if c == 0x0a || c == 0x0d {
        scan_start()
    } else {
        Scan { field_start: false, ..s }
    }
}

/// The verdict on the rest of a text from byte `i`. Inside quotes a doubled
/// quote is a character and any other quote ends the quoted part.
pub open spec fn shape_from(b: Seq<u8>, i: int, s: Scan) -> Result<(), ShapeError>
    decreases b.len() - i,
{
    if i >= b.len() {
        if s.in_quotes { Err(ShapeError::UnterminatedQuote) } else { Ok(()) }
    } else if s.in_quotes {
        if b[i] == 0x22 && i + 1 < b.len() && b[i + 1] == 0x22 {
            shape_from(b, i + 2, s)
        } else if b[i] == 0x22 {
            shape_from(b, i + 1, Scan { in_quotes: false, ..s })
        } else {
            shape_from(b, i + 1, s)
        }
    } else {
        let next = scan_plain(s, b[i]);
        if next.columns > MAX_COLUMNS {
            Err(ShapeError::TooManyColumns)
        } else {
            shape_from(b, i + 1, next)
        }
    }
}

/// Where the text begins behind a byte order mark.
pub open spec fn text_start(b: Seq<u8>) -> int {
    if b.len() >= 3 && b[0] == 0xef && b[1] == 0xbb && b[2] == 0xbf { 3 } else { 0 }
}

pub open spec fn shape_spec(b: Seq<u8>) -> Result<(), ShapeError> {
    shape_from(b, text_start(b), scan_start())
}

/// Check the width of every record and that quotes are closed, before
/// anything is allocated for the fields.
pub fn validate_shape(bytes: &[u8]) -> (r: Result<(), ShapeError>)
    ensures
        r == shape_spec(bytes@),
{
    let len: usize = bytes.len();
    let mut index: usize = 0;
    if len >= 3 && bytes[0] == 0xef && bytes[1] == 0xbb && bytes[2] == 0xbf {
        index = 3;
    }
    let mut columns: usize = 1;
    let mut in_quotes: bool = false;
    let mut field_start: bool = true;
    while index < len
        invariant
            index <= len == bytes@.len(),
            columns <= MAX_COLUMNS,
            shape_spec(bytes@) == shape_from(
                bytes@,
                index as int,
                Scan { columns: columns as nat, in_quotes, field_start },
            ),
        decreases len - index,
    {
        let byte: u8 = bytes[index];
        if in_quotes {
            if byte == 0x22 {
                if index + 1 < len && bytes[index + 1] == 0x22 {
                    index += 2;
                    continue ;
                }
                in_quotes = false;
            }
            index += 1;
            continue ;
        }
        if byte == 0x22 && field_start {
            in_quotes = true;
            field_start = false;
        } else if byte == 0x2c {
            columns += 1;
            if columns > MAX_COLUMNS {
                return Err(ShapeError::TooManyColumns);
            }
            field_start = true;
        } else if byte == 0x0a || byte == 0x0d {
            columns = 1;
            field_start = true;
        } else {
            field_start = false;
        }
        index += 1;
    }
    if in_quotes {
        return Err(ShapeError::UnterminatedQuote);
    }
    Ok(())
}

// ----- the table -----

pub open spec fn rows_view(s: Seq<Vec<String>>) -> Seq<Seq<Seq<char>>> {
    Seq::new(s.len(), |i: int| strings_view(s[i]@))
}

/// A row while its cells are stored.
pub struct RowV {
    pub cells: Seq<Seq<char>>,
    /// Cells stored in the whole table.
    pub stored: nat,
    /// Bytes of text stored in the whole table.
    pub bytes: nat,
    /// A limit was reached.
    pub full: bool,
}

/// A row with the first `n` fields of a record stored, as far as the limits of
/// the table let them.
pub open spec fn row_with(row: RowV, fields: Seq<Seq<char>>, n: int) -> RowV
    decreases n,
{
    if n <= 0 {
        row
    } else {
        let before = row_with(row, fields, n - 1);
        let cell = display_spec(fields[n - 1]);
        if before.full {
            before
        } else if before.stored == MAX_STORED_CELLS || before.bytes + byte_len(cell)
            > MAX_STORED_TEXT_BYTES {
            RowV { full: true, ..before }
        } else {
            RowV {
                cells: before.cells.push(cell),
                stored: before.stored + 1,
                bytes: before.bytes + byte_len(cell),
                full: false,
            }
        }
    }
}

/// A table while records are added.
pub struct TableV {
    pub rows: Seq<Seq<Seq<char>>>,
    pub columns: nat,
    pub stored: nat,
    pub bytes: nat,
    pub truncated: bool,
    pub error: Option<Seq<char>>,
    /// No more records are looked at.
    pub stopped: bool,
}

pub open spec fn empty_table() -> TableV {
    TableV {
        rows: seq![],
        columns: 0,
        stored: 0,
        bytes: 0,
        truncated: false,
        error: None,
        stopped: false,
    }
}

/// How many fields of a record a row keeps.
pub open spec fn kept_fields(fields: Seq<Seq<char>>) -> int {
    if fields.len() < MAX_COLUMNS { fields.len() as int } else { MAX_COLUMNS as int }
}

/// The table with one record more. A record that could not be read leaves
/// nothing but the error; at a limit the table is cut off before the record.
pub open spec fn with_record(t: TableV, record: CsvRecordV) -> TableV {
    if t.stopped {
        t
    } else {
        match record {
            CsvRecordV::Malformed(message) => TableV {
                rows: seq![],
                columns: 0,
                error: Some("Could not parse CSV: "@ + message),
                stopped: true,
                ..t
            },
            CsvRecordV::Fields(fields) => if t.rows.len() == MAX_ROWS {
                TableV { truncated: true, stopped: true, ..t }
            } else {
                let row = row_with(
                    RowV { cells: seq![], stored: t.stored, bytes: t.bytes, full: false },
                    fields,
                    kept_fields(fields),
                );
                if row.full {
                    TableV { truncated: true, stopped: true, ..t }
                } else {
                    TableV {
                        rows: t.rows.push(row.cells),
                        columns: if row.cells.len() > t.columns {
                            row.cells.len()
                        } else {
                            t.columns
                        },
                        stored: row.stored,
                        bytes: row.bytes,
                        truncated: t.truncated || fields.len() > MAX_COLUMNS,
                        ..t
                    }
                }
            },
        }
    }
}

/// The table of the first `n` records.
pub open spec fn table_of(records: Seq<CsvRecordV>, n: int) -> TableV
    decreases n,
{
    if n <= 0 {
        empty_table()
    } else {
        with_record(table_of(records, n - 1), records[n - 1])
    }
}

/// How many cells the rows hold.
pub open spec fn cell_count(rows: Seq<Seq<Seq<char>>>) -> nat
    decreases rows.len(),
{
    if rows.len() == 0 { 0 } else { cell_count(rows.drop_last()) + rows.last().len() }
}

/// How many bytes of text a row holds.
pub open spec fn row_bytes(row: Seq<Seq<char>>) -> nat
    decreases row.len(),
{
    if row.len() == 0 { 0 } else { row_bytes(row.drop_last()) + byte_len(row.last()) }
}

/// How many bytes of text the rows hold.
pub open spec fn text_bytes(rows: Seq<Seq<Seq<char>>>) -> nat
    decreases rows.len(),
{
    if rows.len() == 0 { 0 } else { text_bytes(rows.drop_last()) + row_bytes(rows.last()) }
}

/// A table within its limits.
pub open spec fn within_limits(rows: Seq<Seq<Seq<char>>>, columns: nat) -> bool {
    &&& rows.len() <= MAX_ROWS
    &&& columns <= MAX_COLUMNS
    &&& cell_count(rows) <= MAX_STORED_CELLS
    &&& text_bytes(rows) <= MAX_STORED_TEXT_BYTES
    &&& forall|i: int| 0 <= i < rows.len() ==> (#[trigger] rows[i]).len() <= columns
    &&& columns > 0 ==> exists|i: int| 0 <= i < rows.len() && (#[trigger] rows[i]).len() == columns
}

proof fn lemma_row_with(row: RowV, fields: Seq<Seq<char>>, n: int)
    requires
        row.cells.len() == 0,
        row.stored <= MAX_STORED_CELLS,
        row.bytes <= MAX_STORED_TEXT_BYTES,
        !row.full,
        0 <= n <= fields.len(),
    ensures
        row_with(row, fields, n).cells.len() <= n,
        row_with(row, fields, n).stored == row.stored + row_with(row, fields, n).cells.len(),
        row_with(row, fields, n).bytes == row.bytes + row_bytes(row_with(row, fields, n).cells),
        row_with(row, fields, n).stored <= MAX_STORED_CELLS,
        row_with(row, fields, n).bytes <= MAX_STORED_TEXT_BYTES,
        !row_with(row, fields, n).full ==> row_with(row, fields, n).cells.len() == n,
    decreases n,
{
    if n > 0 {
        lemma_row_with(row, fields, n - 1);
        let before = row_with(row, fields, n - 1);
        let cell = display_spec(fields[n - 1]);
        assert(before.cells.push(cell).drop_last() =~= before.cells);
    } else {
        assert(row.cells =~= seq![]);
    }
}

/// Law: whatever the records, a table stays within its limits, its column
/// count is the width of its widest row, and an error leaves no rows.
pub proof fn law_table_within_limits(records: Seq<CsvRecordV>, n: int)
    requires
        0 <= n <= records.len(),
    ensures
        within_limits(table_of(records, n).rows, table_of(records, n).columns),
        table_of(records, n).error is Some ==> table_of(records, n).rows.len() == 0 && table_of(
            records,
            n,
        ).columns == 0,
        table_of(records, n).error is None ==> cell_count(table_of(records, n).rows) == table_of(
            records,
            n,
        ).stored && text_bytes(table_of(records, n).rows) == table_of(records, n).bytes,
        table_of(records, n).error is Some ==> table_of(records, n).stopped,
        !table_of(records, n).stopped ==> table_of(records, n).rows.len() == n,
    decreases n,
{
    if n > 0 {
        law_table_within_limits(records, n - 1);
        let t = table_of(records, n - 1);
        let next = table_of(records, n);
        if !t.stopped {
            match records[n - 1] {
                CsvRecordV::Fields(fields) => {
                    let row = row_with(
                        RowV { cells: seq![], stored: t.stored, bytes: t.bytes, full: false },
                        fields,
                        kept_fields(fields),
                    );
                    lemma_row_with(
                        RowV { cells: seq![], stored: t.stored, bytes: t.bytes, full: false },
                        fields,
                        kept_fields(fields),
                    );
                    if t.rows.len() < MAX_ROWS && !row.full {
                        assert(next.rows.drop_last() =~= t.rows);
                        assert(next.rows.last() == row.cells);
                        assert forall|i: int| 0 <= i < next.rows.len() implies (
                        #[trigger] next.rows[i]).len() <= next.columns by {
                            if i < t.rows.len() {
                                assert(next.rows[i] == t.rows[i]);
                            }
                        }
                        if next.columns > 0 {
                            if row.cells.len() > t.columns {
                                assert(next.rows[t.rows.len() as int].len() == next.columns);
                            } else {
                                let i = choose|i: int|
                                    0 <= i < t.rows.len() && (#[trigger] t.rows[i]).len()
                                        == t.columns;
                                assert(next.rows[i].len() == next.columns);
                            }
                        }
                    }
                },
                CsvRecordV::Malformed(_) => {},
            }
        }
    }
}

/// Once a table has stopped, more records change nothing.
proof fn lemma_stopped(records: Seq<CsvRecordV>, i: int, n: int)
    requires
        0 <= i <= n <= records.len(),
        table_of(records, i).stopped,
    ensures
        table_of(records, n) == table_of(records, i),
    decreases n - i,
{
    if i < n {
        lemma_stopped(records, i, n - 1);
    }
}

/// The table of a prefix of the records is the table of as many of them.
proof fn lemma_table_prefix(records: Seq<CsvRecordV>, m: int, n: int)
    requires
        0 <= n <= m <= records.len(),
    ensures
        table_of(records.take(m), n) == table_of(records, n),
    decreases n,
{
    if n > 0 {
        lemma_table_prefix(records, m, n - 1);
    }
}

/// No table looks behind record number `MAX_ROWS`.
proof fn lemma_enough_records(records: Seq<CsvRecordV>)
    ensures
        records.len() > MAX_ROWS ==> table_of(records.take(MAX_ROWS + 1), MAX_ROWS + 1) == table_of(
            records,
            records.len() as int,
        ),
{
    if records.len() > MAX_ROWS {
        lemma_table_prefix(records, MAX_ROWS + 1, MAX_ROWS + 1);
        law_table_within_limits(records, MAX_ROWS + 1);
        lemma_stopped(records, MAX_ROWS + 1, records.len() as int);
    }
}

/// A table while records are added.
struct TableBuilder {
    rows: Vec<Vec<String>>,
    columns: usize,
    stored: usize,
    bytes: usize,
    truncated: bool,
    error: Option<String>,
    stopped: bool,
}

impl View for TableBuilder {
    type V = TableV;

    closed spec fn view(&self) -> TableV {
        TableV {
            rows: rows_view(self.rows@),
            columns: self.columns as nat,
            stored: self.stored as nat,
            bytes: self.bytes as nat,
            truncated: self.truncated,
            error: crate::buffer::opt_text(self.error),
            stopped: self.stopped,
        }
    }
}

/// `byte_len` of a string that exists fits a `usize`.
fn text_len(s: &String) -> (r: usize)
    ensures
        r == byte_len(s@),
{
    s.as_str().as_bytes().len()
}

impl TableBuilder {
    fn new() -> (r: TableBuilder)
        ensures
            r@ == empty_table(),
    {
        let r = TableBuilder {
            rows: Vec::new(),
            columns: 0,
            stored: 0,
            bytes: 0,
            truncated: false,
            error: None,
            stopped: false,
        };
        assert(r@.rows =~= seq![]);
        r
    }

    fn add(&mut self, record: &CsvRecord)
        requires
            old(self)@.stored <= MAX_STORED_CELLS,
            old(self)@.bytes <= MAX_STORED_TEXT_BYTES,
        ensures
            final(self)@ == with_record(old(self)@, record@),
    {
        if self.stopped {
            return;
        }
        let ghost t = self@;
        match record {
            CsvRecord::Malformed(message) => {
                let mut text: String = "Could not parse CSV: ".to_owned();
                text.append(message.as_str());
                self.rows = Vec::new();
                self.columns = 0;
                self.error = Some(text);
                self.stopped = true;
                assert(self@.rows =~= seq![]);
            },
            CsvRecord::Fields(fields) => {
                if self.rows.len() == MAX_ROWS {
                    self.truncated = true;
                    self.stopped = true;
                    return;
                }
                let n: usize = if fields.len() < MAX_COLUMNS { fields.len() } else { MAX_COLUMNS };
                let mut cells: Vec<String> = Vec::new();
                let mut stored: usize = self.stored;
                let mut bytes: usize = self.bytes;
                let mut i: usize = 0;
                let ghost start = RowV {
                    cells: seq![],
                    stored: t.stored,
                    bytes: t.bytes,
                    full: false,
                };
                let ghost texts = strings_view(fields@);
                assert(strings_view(cells@) =~= seq![]);
                while i < n
                    invariant
                        i <= n <= fields.len(),
                        n == kept_fields(texts),
                        texts == strings_view(fields@),
                        stored <= MAX_STORED_CELLS,
                        bytes <= MAX_STORED_TEXT_BYTES,
                        row_with(start, texts, i as int) == (RowV {
                            cells: strings_view(cells@),
                            stored: stored as nat,
                            bytes: bytes as nat,
                            full: false,
                        }),
                        self@ == t,
                        !t.stopped,
                        t.rows.len() != MAX_ROWS,
                        record@ == CsvRecordV::Fields(texts),
                        start == (RowV {
                            cells: seq![],
                            stored: t.stored,
                            bytes: t.bytes,
                            full: false,
                        }),
                        t == old(self)@,
                    decreases n - i,
                {
                    let cell: String = display_cell(fields[i].as_str());
                    let len: usize = text_len(&cell);
                    assert(texts[i as int] == fields@[i as int]@);
                    if stored == MAX_STORED_CELLS || len > MAX_STORED_TEXT_BYTES - bytes {
                        proof {
                            lemma_full_stays(start, texts, i + 1, n as int);
                        }
                        self.truncated = true;
                        self.stopped = true;
                        return;
                    }
                    let ghost before = cells@;
                    stored += 1;
                    bytes += len;
                    cells.push(cell);
                    i += 1;
                    assert(strings_view(cells@) =~= strings_view(before).push(
                        display_spec(texts[i - 1]),
                    ));
                }
                let width: usize = cells.len();
                let ghost before = self.rows@;
                self.rows.push(cells);
                if width > self.columns {
                    self.columns = width;
                }
                self.stored = stored;
                self.bytes = bytes;
                if fields.len() > MAX_COLUMNS {
                    self.truncated = true;
                }
                assert(self@.rows =~= t.rows.push(strings_view(cells@)));
            },
        }
    }
}

/// A full row stays full.
proof fn lemma_full_stays(row: RowV, fields: Seq<Seq<char>>, i: int, n: int)
    requires
        0 <= i <= n,
        row_with(row, fields, i).full,
    ensures
        row_with(row, fields, n) == row_with(row, fields, i),
    decreases n - i,
{
    if i < n {
        lemma_full_stays(row, fields, i, n - 1);
    }
}

/// Parsed rows of a CSV document, for one revision of it.
#[derive(Debug)]
pub struct CsvPreview {
    pub key: Option<(u64, u64)>,
    pub rows: Vec<Vec<String>>,
    pub column_count: usize,
    pub error: Option<String>,
    pub truncated: bool,
}

/// What a preview holds.
#[verifier::ext_equal]
pub struct CsvPreviewV {
    pub key: Option<(u64, u64)>,
    pub rows: Seq<Seq<Seq<char>>>,
    pub column_count: nat,
    pub error: Option<Seq<char>>,
    pub truncated: bool,
}

impl View for CsvPreview {
    type V = CsvPreviewV;

    open spec fn view(&self) -> CsvPreviewV {
        CsvPreviewV {
            key: self.key,
            rows: rows_view(self.rows@),
            column_count: self.column_count as nat,
            error: crate::buffer::opt_text(self.error),
            truncated: self.truncated,
        }
    }
}

/// A preview that shows a table.
pub open spec fn table_preview(key: (u64, u64), t: TableV) -> CsvPreviewV {
    CsvPreviewV {
        key: Some(key),
        rows: t.rows,
        column_count: t.columns,
        error: t.error,
        truncated: t.truncated,
    }
}

/// A preview that shows nothing but a message.
pub open spec fn error_preview(key: (u64, u64), message: Seq<char>) -> CsvPreviewV {
    CsvPreviewV {
        key: Some(key),
        rows: seq![],
        column_count: 0,
        error: Some(message),
        truncated: false,
    }
}

/// What a preview of `bytes` shows, given the records that they hold.
pub open spec fn preview_spec(key: (u64, u64), bytes: Seq<u8>, records: Seq<CsvRecordV>) -> CsvPreviewV {
    if bytes.len() > MAX_PREVIEW_BYTES {
        error_preview(key, "CSV table view is limited to 32 MiB; switch to Source for this file."@)
    } else {
        match shape_spec(bytes) {
            Err(e) => error_preview(key, e.message_spec()),
            Ok(()) => table_preview(key, table_of(records, records.len() as int)),
        }
    }
}

/// `n` tenths of a mebibyte, rounded to the nearest one; halves go to the even
/// one.
pub open spec fn mib_tenths(bytes: nat) -> nat {
    let whole = bytes * 10 / 1_048_576;
    let rest = bytes * 10 % 1_048_576;
    if rest > 524_288 || rest == 524_288 && whole % 2 == 1 { whole + 1 } else { whole }
}

/// The message for a file of `bytes` bytes that is too large.
pub open spec fn oversized_message(bytes: nat) -> Seq<char> {
    "CSV table view is limited to 32 MiB (this file is "@ + decimal(mib_tenths(bytes) / 10)
        + seq!['.', digit_char(mib_tenths(bytes) % 10)] + " MiB); switch to Source."@
}

impl CsvPreview {
    /// A preview of nothing.
    pub fn new() -> (r: CsvPreview)
        ensures
            r@ == (CsvPreviewV {
                key: None,
                rows: seq![],
                column_count: 0,
                error: None,
                truncated: false,
            }),
    {
        let r = CsvPreview {
            key: None,
            rows: Vec::new(),
            column_count: 0,
            error: None,
            truncated: false,
        };
        assert(r@.rows =~= seq![]);
        r
    }

    /// Whether the preview is of another document or another revision.
    pub fn needs_refresh(&self, key: (u64, u64)) -> (r: bool)
        ensures
            r == (self@.key != Some(key)),
    {
        match self.key {
            Some(k) => k.0 != key.0 || k.1 != key.1,
            None => true,
        }
    }

    /// Read `bytes` as the document with identity and revision `key`.
    pub fn refresh(&mut self, key: (u64, u64), bytes: &[u8])
        ensures
            final(self)@ == preview_spec(key, bytes@, csv_records(bytes@)),
    {
        if bytes.len() > MAX_PREVIEW_BYTES {
            self.show_error(
                key,
                "CSV table view is limited to 32 MiB; switch to Source for this file.",
            );
            return;
        }
        match validate_shape(bytes) {
            Err(e) => self.show_error(key, e.message()),
            Ok(()) => {
                let records: Vec<CsvRecord> = read_records(bytes, MAX_ROWS + 1);
                self.show_records(key, &records);
                proof {
                    let all = csv_records(bytes@);
                    assert(records_view(records@).len() == records@.len());
                    lemma_enough_records(all);
                    if all.len() <= MAX_ROWS + 1 {
                        assert(all.take(all.len() as int) =~= all);
                    }
                }
            },
        }
    }

    /// Show the table of `records`.
    pub fn show_records(&mut self, key: (u64, u64), records: &Vec<CsvRecord>)
        ensures
            final(self)@ == table_preview(
                key,
                table_of(records_view(records@), records@.len() as int),
            ),
            within_limits(final(self)@.rows, final(self)@.column_count),
    {
        let ghost views = records_view(records@);
        let mut table = TableBuilder::new();
        let mut i: usize = 0;
        while i < records.len()
            invariant
                i <= records.len(),
                views == records_view(records@),
                table@ == table_of(views, i as int),
                table@.stored <= MAX_STORED_CELLS,
                table@.bytes <= MAX_STORED_TEXT_BYTES,
            decreases records.len() - i,
        {
            table.add(&records[i]);
            proof {
                lemma_stored_bounds(views, i + 1);
            }
            i += 1;
        }
        proof {
            law_table_within_limits(views, records@.len() as int);
        }
        self.key = Some(key);
        self.rows = table.rows;
        self.column_count = table.columns;
        self.error = table.error;
        self.truncated = table.truncated;
    }

    /// Show the message for a file that is too large to be read.
    pub fn reject_oversized(&mut self, key: (u64, u64), byte_len: usize)
        ensures
            final(self)@ == error_preview(key, oversized_message(byte_len as nat)),
    {
        let scaled: u128 = byte_len as u128 * 10;
        let whole: u128 = scaled / 1_048_576;
        let rest: u128 = scaled % 1_048_576;
        let up: bool = rest > 524_288 || rest == 524_288 && whole % 2 == 1;
        let tenths: u64 = if up { (whole + 1) as u64 } else { whole as u64 };
        let mut text: String = "CSV table view is limited to 32 MiB (this file is ".to_owned();
        push_decimal(&mut text, tenths / 10);
        text.push('.');
        let digit: u8 = (tenths % 10) as u8;
        text.push((48 + digit) as char);
        text.append(" MiB); switch to Source.");
        assert(text@ =~= oversized_message(byte_len as nat));
        self.show_error(key, text.as_str());
    }

    fn show_error(&mut self, key: (u64, u64), message: &str)
        ensures
            final(self)@ == error_preview(key, message@),
    {
        self.key = Some(key);
        self.rows = Vec::new();
        self.column_count = 0;
        self.error = Some(message.to_owned());
        self.truncated = false;
        assert(self@.rows =~= seq![]);
    }
}

proof fn lemma_stored_bounds(records: Seq<CsvRecordV>, n: int)
    requires
        0 <= n <= records.len(),
    ensures
        table_of(records, n).stored <= MAX_STORED_CELLS,
        table_of(records, n).bytes <= MAX_STORED_TEXT_BYTES,
    decreases n,
{
    if n > 0 {
        lemma_stored_bounds(records, n - 1);
        let t = table_of(records, n - 1);
        match records[n - 1] {
            CsvRecordV::Fields(fields) => {
                lemma_row_with(
                    RowV { cells: seq![], stored: t.stored, bytes: t.bytes, full: false },
                    fields,
                    kept_fields(fields),
                );
            },
            CsvRecordV::Malformed(_) => {},
        }
    }
}

} // verus!

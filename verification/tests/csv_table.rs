//! The table view of CSV documents.

use skerry::csv_preview::{
    display_cell, validate_shape, CsvPreview, CsvRecord, ShapeError, MAX_CELL_CHARS, MAX_COLUMNS,
    MAX_PREVIEW_BYTES, MAX_ROWS, MAX_STORED_CELLS,
};

#[test]
fn parses_headers_quoted_commas_and_multiline_cells() {
    let mut preview = CsvPreview::new();
    preview.refresh(
        (1, 0),
        b"name,notes,count\nAlice,\"hello, world\",2\nBob,\"line one\nline two\",3\n",
    );

    assert_eq!(preview.column_count, 3);
    assert_eq!(preview.rows.len(), 3);
    assert_eq!(preview.rows[1][1], "hello, world");
    assert_eq!(preview.rows[2][1], "line one↵line two");
    assert!(preview.error.is_none());
}

#[test]
fn reports_malformed_csv_without_partial_rows() {
    let mut preview = CsvPreview::new();
    preview.refresh((1, 0), b"name,value\nAlice,\xFF\n");

    assert!(preview.error.is_some());
    assert!(preview.rows.is_empty());
}

#[test]
fn refresh_is_keyed_by_document_and_revision() {
    let mut preview = CsvPreview::new();
    preview.refresh((7, 3), b"a,b\n1,2\n");

    assert!(!preview.needs_refresh((7, 3)));
    assert!(preview.needs_refresh((7, 4)));
    assert!(preview.needs_refresh((8, 3)));
}

#[test]
fn oversized_files_are_rejected_without_materializing_content() {
    let mut preview = CsvPreview::new();

    preview.reject_oversized((4, 2), MAX_PREVIEW_BYTES + 1);

    assert!(!preview.needs_refresh((4, 2)));
    assert!(preview
        .error
        .as_deref()
        .unwrap()
        .contains("limited to 32 MiB"));
    assert!(preview.rows.is_empty());
}

#[test]
fn sparse_wide_data_stops_at_the_total_cell_budget() {
    let columns = 256;
    let rows = MAX_STORED_CELLS / columns + 10;
    let record = ",".repeat(columns - 1) + "\n";
    let input = record.repeat(rows);
    let mut preview = CsvPreview::new();

    preview.refresh((1, 0), input.as_bytes());

    let stored_cells: usize = preview.rows.iter().map(Vec::len).sum();
    assert!(stored_cells <= MAX_STORED_CELLS);
    assert!(preview.truncated);
}

#[test]
fn extreme_single_record_is_rejected_before_csv_record_allocation() {
    let input = ",".repeat(1_000_000);
    let mut preview = CsvPreview::new();

    preview.refresh((1, 0), input.as_bytes());

    assert_eq!(
        preview.error.as_deref(),
        Some("CSV table view supports at most 256 columns per record.")
    );
    assert!(preview.rows.is_empty());
}

#[test]
fn quoted_commas_do_not_count_as_columns_during_preflight() {
    let mut preview = CsvPreview::new();

    preview.refresh((1, 0), b"name,notes\nAlice,\"a,b,c,d\"\n");

    assert!(preview.error.is_none());
    assert_eq!(preview.column_count, 2);
}

#[test]
fn bom_prefixed_quoted_first_field_matches_parser_semantics() {
    let mut preview = CsvPreview::new();

    preview.refresh((1, 0), b"\xEF\xBB\xBF\"name, label\",count\nAlice,2\n");

    assert!(preview.error.is_none());
    assert_eq!(preview.column_count, 2);
    assert_eq!(preview.rows[0][0], "name, label");
}

#[test]
fn cr_only_records_reset_preflight_column_count() {
    let row = ",".repeat(MAX_COLUMNS - 1);
    let input = format!("{row}\r{row}\r");
    let mut preview = CsvPreview::new();

    preview.refresh((1, 0), input.as_bytes());

    assert!(preview.error.is_none());
    assert_eq!(preview.rows.len(), 2);
    assert_eq!(preview.column_count, MAX_COLUMNS);
}

#[test]
fn oversized_message_gives_the_size() {
    let mut preview = CsvPreview::new();
    preview.reject_oversized((1, 1), 36_700_160);
    assert_eq!(
        preview.error.as_deref(),
        Some("CSV table view is limited to 32 MiB (this file is 35.0 MiB); switch to Source.")
    );
    assert_eq!(
        preview.message().as_deref(),
        Some("CSV table view is limited to 32 MiB (this file is 35.0 MiB); switch to Source.")
    );
}

#[test]
fn unterminated_quotes_are_refused() {
    assert_eq!(validate_shape(b"a,\"b\n"), Err(ShapeError::UnterminatedQuote));
    assert_eq!(validate_shape(b"a,\"b\"\n"), Ok(()));
    let mut preview = CsvPreview::new();
    preview.refresh((1, 0), b"a,\"b\n");
    assert_eq!(
        preview.error.as_deref(),
        Some("Could not parse CSV: unterminated quoted field.")
    );
}

#[test]
fn too_many_columns_are_refused() {
    let row = ",".repeat(MAX_COLUMNS);
    assert_eq!(validate_shape(row.as_bytes()), Err(ShapeError::TooManyColumns));
    let row = ",".repeat(MAX_COLUMNS - 1);
    assert_eq!(validate_shape(row.as_bytes()), Ok(()));
}

#[test]
fn long_cells_are_cut() {
    let long = "x".repeat(MAX_CELL_CHARS + 1);
    let shown = display_cell(&long);
    assert_eq!(shown.chars().count(), MAX_CELL_CHARS + 1);
    assert!(shown.ends_with('…'));
    assert_eq!(display_cell("a\r\nb"), "a↵b");
}

#[test]
fn rows_beyond_the_limit_are_left_out() {
    let input = "x\n".repeat(MAX_ROWS + 5);
    let mut preview = CsvPreview::new();
    preview.refresh((1, 0), input.as_bytes());
    assert_eq!(preview.rows.len(), MAX_ROWS);
    assert!(preview.truncated);
    assert_eq!(
        preview.notice(),
        Some("Preview reached a safety limit (50000 rows, 256 columns, 1000000 cells, or 16 MiB of displayed text).")
    );
}

#[test]
fn records_are_shown_as_given() {
    let mut preview = CsvPreview::new();
    preview.show_records(
        (2, 9),
        &vec![
            CsvRecord::Fields(vec!["id".to_owned(), "".to_owned()]),
            CsvRecord::Fields(vec!["1".to_owned()]),
        ],
    );
    assert_eq!(preview.column_count, 2);
    assert_eq!(preview.heading(0), "id");
    assert_eq!(preview.heading(1), "Column 2");
    assert_eq!(preview.heading(7), "Column 8");
    assert_eq!(preview.cell(1, 0), "1");
    assert_eq!(preview.cell(1, 1), "");
    assert_eq!(preview.cell(9, 0), "");
    assert_eq!(preview.data_rows(), 1);
    assert_eq!(preview.message(), None);
    assert_eq!(preview.notice(), None);
}

#[test]
fn a_record_that_cannot_be_read_ends_the_table() {
    let mut preview = CsvPreview::new();
    preview.show_records(
        (2, 9),
        &vec![
            CsvRecord::Fields(vec!["id".to_owned()]),
            CsvRecord::Malformed("bad bytes".to_owned()),
        ],
    );
    assert!(preview.rows.is_empty());
    assert!(preview.error.as_deref().unwrap().contains("bad bytes"));
}

#[test]
fn an_empty_file_says_so() {
    let mut preview = CsvPreview::new();
    preview.refresh((1, 0), b"");
    assert_eq!(preview.message().as_deref(), Some("This CSV file is empty."));
    assert_eq!(preview.data_rows(), 0);
}

//! What Markdown and CSV documents are shown as.

use vstd::prelude::*;
use vstd::utf8::*;

use crate::csv_preview::{
    display_spec, preview_spec, row_with, shape_from, shape_spec, shown_chars, table_of, CsvRecordV,
    RowV, Scan, ShapeError,
};
use crate::markdown::{
    blocks_of, built, BlockKind, BlockV, BuilderV, InlineStyle, MdEventV, MdTag, SpanV,
};
use crate::text::decimal;

verus! {

// ----- Markdown: blocks -----

pub open spec fn begins(tag: MdTag) -> MdEventV {
    MdEventV::Start { tag, number: None, text: seq![] }
}

/// A block of this kind that shows `text` in the style in force, outside of
/// lists.
pub open spec fn shows(b: BuilderV, kind: BlockKind, text: Seq<char>, style: InlineStyle) -> BlockV {
    BlockV {
        kind,
        spans: seq![SpanV { text, style }],
        quoted: b.quote_depth > 0,
        list_marker: None,
        list_depth: 0,
    }
}

/// `after` has one block more than `b`, and is ready for the next.
pub open spec fn added(b: BuilderV, after: BuilderV, block: BlockV) -> bool {
    after == (BuilderV { blocks: b.blocks.push(block), current: None, ..b })
}

proof fn lemma_has_text(block: BlockV)
    requires
        block.spans.len() > 0,
        block.spans[0].text.len() > 0,
    ensures
        crate::markdown::has_content(block),
{
}

/// Law: a heading becomes a block of its level that holds its text.
pub proof fn law_heading_is_shown(b: BuilderV, level: u8, text: Seq<char>)
    requires
        b.current is None,
        text.len() > 0,
    ensures
        added(
            b,
            b.step(begins(MdTag::Heading(level))).step(MdEventV::Text(text)).step(
                MdEventV::End(MdTag::Heading(level)),
            ),
            shows(b, BlockKind::Heading(level), text, b.style),
        ),
{
    let block = shows(b, BlockKind::Heading(level), text, b.style);
    lemma_has_text(block);
    let open = b.step(begins(MdTag::Heading(level))).step(MdEventV::Text(text));
    assert(open.current->0.spans =~= block.spans);
}

/// Law: a paragraph becomes a block that holds its text.
pub proof fn law_paragraph_is_shown(b: BuilderV, text: Seq<char>)
    requires
        b.current is None,
        text.len() > 0,
    ensures
        added(
            b,
            b.step(begins(MdTag::Paragraph)).step(MdEventV::Text(text)).step(
                MdEventV::End(MdTag::Paragraph),
            ),
            shows(b, BlockKind::Paragraph, text, b.style),
        ),
{
    let block = shows(b, BlockKind::Paragraph, text, b.style);
    lemma_has_text(block);
    let open = b.step(begins(MdTag::Paragraph)).step(MdEventV::Text(text));
    assert(open.current->0.spans =~= block.spans);
}

/// Law: a code block becomes a block of code that holds its text as code.
pub proof fn law_code_is_shown(b: BuilderV, text: Seq<char>)
    requires
        b.current is None,
        text.len() > 0,
        b.style.code < usize::MAX,
    ensures
        added(
            b,
            b.step(begins(MdTag::CodeBlock)).step(MdEventV::Text(text)).step(
                MdEventV::End(MdTag::CodeBlock),
            ),
            shows(
                b,
                BlockKind::Code,
                text,
                InlineStyle { code: (b.style.code + 1) as usize, ..b.style },
            ),
        ),
{
    let style = InlineStyle { code: (b.style.code + 1) as usize, ..b.style };
    let block = shows(b, BlockKind::Code, text, style);
    lemma_has_text(block);
    let open = b.step(begins(MdTag::CodeBlock)).step(MdEventV::Text(text));
    assert(open.current->0.spans =~= block.spans);
}

/// Law: a rule becomes a block of its own without text.
pub proof fn law_rule_is_shown(b: BuilderV)
    requires
        b.current is None,
    ensures
        added(
            b,
            b.step(MdEventV::Rule),
            BlockV {
                kind: BlockKind::Rule,
                spans: seq![],
                quoted: b.quote_depth > 0,
                list_marker: None,
                list_depth: 0,
            },
        ),
{
}

/// Law: a block that is open and shows something is finished before a heading,
/// a code block, a rule, an item or a row of a table, and is kept as it is.
pub proof fn law_open_block_is_kept(b: BuilderV, open: BlockV, level: u8)
    requires
        b.current == Some(open),
        open.spans.len() > 0,
        open.spans[0].text.len() > 0,
    ensures
        b.step(begins(MdTag::Heading(level))).blocks == b.blocks.push(open),
        b.step(begins(MdTag::CodeBlock)).blocks == b.blocks.push(open),
        b.step(begins(MdTag::Item)).blocks == b.blocks.push(open),
        b.step(begins(MdTag::TableRow)).blocks == b.blocks.push(open),
        b.step(MdEventV::Rule).blocks.take(b.blocks.len() as int + 1) == b.blocks.push(open),
        b.finish().blocks == b.blocks.push(open),
{
    lemma_has_text(open);
    assert(b.step(MdEventV::Rule).blocks.take(b.blocks.len() as int + 1) =~= b.blocks.push(open));
}

/// Law: what stands in a quote is marked as quoted, and what follows it as
/// before.
pub proof fn law_quote_is_marked(b: BuilderV, text: Seq<char>)
    requires
        b.current is None,
        text.len() > 0,
    ensures
        added(
            b,
            b.step(begins(MdTag::BlockQuote)).step(begins(MdTag::Paragraph)).step(
                MdEventV::Text(text),
            ).step(MdEventV::End(MdTag::Paragraph)).step(MdEventV::End(MdTag::BlockQuote)),
            BlockV {
                kind: BlockKind::Paragraph,
                spans: seq![SpanV { text, style: b.style }],
                quoted: true,
                list_marker: None,
                list_depth: 0,
            },
        ),
{
    let inner = b.step(begins(MdTag::BlockQuote));
    law_paragraph_is_shown(inner, text);
}

// ----- Markdown: lists -----

pub open spec fn begins_list(number: Option<u64>) -> MdEventV {
    MdEventV::Start { tag: MdTag::List, number, text: seq![] }
}

/// An item with a text, by itself or in a paragraph.
pub open spec fn item_steps(b: BuilderV, text: Seq<char>, paragraph: bool) -> BuilderV {
    let open = b.step(begins(MdTag::Item));
    let filled = if paragraph {
        open.step(begins(MdTag::Paragraph)).step(MdEventV::Text(text)).step(
            MdEventV::End(MdTag::Paragraph),
        )
    } else {
        open.step(MdEventV::Text(text))
    };
    filled.step(MdEventV::End(MdTag::Item))
}

/// An item of a list that is `depth` lists deep.
pub open spec fn item_block(b: BuilderV, marker: Seq<char>, depth: nat, text: Seq<char>) -> BlockV {
    BlockV {
        kind: BlockKind::ListItem,
        spans: seq![SpanV { text, style: b.style }],
        quoted: b.quote_depth > 0,
        list_marker: Some(marker),
        list_depth: depth,
    }
}

/// Law: the items of a list without numbers have bullets, and those of one that
/// begins at a number are numbered from there on. Each item is a block that
/// holds its text and knows how deep its list is, and behind the list all is as
/// before it.
pub proof fn law_list_items_are_marked(
    b: BuilderV,
    number: Option<u64>,
    first: Seq<char>,
    second: Seq<char>,
    paragraph: bool,
)
    requires
        b.current is None,
        first.len() > 0,
        second.len() > 0,
        number matches Some(k) ==> k + 1 < u64::MAX,
    ensures
        ({
            let depth = b.lists.len();
            let one = match number {
                Some(k) => decimal(k as nat) + seq!['.'],
                None => seq!['\u{2022}'],
            };
            let two = match number {
                Some(k) => decimal(k as nat + 1) + seq!['.'],
                None => seq!['\u{2022}'],
            };
            let done = item_steps(
                item_steps(b.step(begins_list(number)), first, paragraph),
                second,
                paragraph,
            ).step(MdEventV::End(MdTag::List));
            done == (BuilderV {
                blocks: b.blocks.push(item_block(b, one, depth, first)).push(
                    item_block(b, two, depth, second),
                ),
                ..b
            })
        }),
{
    let open = b.step(begins_list(number));
    reveal_strlit("•");
    let depth = b.lists.len();
    let one = match number {
        Some(k) => decimal(k as nat) + seq!['.'],
        None => seq!['\u{2022}'],
    };
    let two = match number {
        Some(k) => decimal(k as nat + 1) + seq!['.'],
        None => seq!['\u{2022}'],
    };
    assert("•"@ =~= seq!['\u{2022}']);
    assert(crate::markdown::item_marker(open.lists) =~= one);
    lemma_item(open, one, depth, first, paragraph);
    let next = item_steps(open, first, paragraph);
    assert(crate::markdown::item_marker(next.lists) =~= two);
    lemma_item(next, two, depth, second, paragraph);
    let done = item_steps(next, second, paragraph).step(MdEventV::End(MdTag::List));
    assert(done.lists =~= b.lists);
    assert(done =~= (BuilderV {
        blocks: b.blocks.push(item_block(b, one, depth, first)).push(
            item_block(b, two, depth, second),
        ),
        ..b
    }));
}

proof fn lemma_item(b: BuilderV, marker: Seq<char>, depth: nat, text: Seq<char>, paragraph: bool)
    requires
        b.current is None,
        b.lists.len() == depth + 1,
        text.len() > 0,
        crate::markdown::item_marker(b.lists) == marker,
    ensures
        item_steps(b, text, paragraph) == (BuilderV {
            blocks: b.blocks.push(item_block(b, marker, depth, text)),
            lists: crate::markdown::lists_after_item(b.lists),
            ..b
        }),
{
    let block = item_block(b, marker, depth, text);
    lemma_has_text(block);
    let open = b.step(begins(MdTag::Item));
    let filled = open.step(MdEventV::Text(text));
    assert(filled.current->0.spans =~= block.spans);
    assert(filled.current->0 =~= block);
    assert(item_steps(b, text, paragraph) =~= (BuilderV {
        blocks: b.blocks.push(block),
        lists: crate::markdown::lists_after_item(b.lists),
        ..b
    }));
}

// ----- Markdown: runs of text -----

/// `text` is added to the open block in this style.
pub open spec fn run_added(open: BlockV, text: Seq<char>, style: InlineStyle) -> BlockV {
    BlockV { spans: open.spans.push(SpanV { text, style }), ..open }
}

/// Law: text inside emphasis, strong text and struck text is shown so, deeper
/// by one level, and what follows as before. Code inside a line is shown as
/// code.
pub proof fn law_runs_have_their_style(b: BuilderV, open: BlockV, text: Seq<char>)
    requires
        b.current == Some(open),
        text.len() > 0,
        b.style.emphasis < usize::MAX,
        b.style.strong < usize::MAX,
        b.style.strikethrough < usize::MAX,
        b.style.code < usize::MAX,
    ensures
        ({
            let s = b.style;
            let t = MdEventV::Text(text);
            &&& b.step(begins(MdTag::Emphasis)).step(t).step(MdEventV::End(MdTag::Emphasis)) == (
            BuilderV {
                current: Some(
                    run_added(
                        open,
                        text,
                        InlineStyle { emphasis: (s.emphasis + 1) as usize, ..s },
                    ),
                ),
                ..b
            })
            &&& b.step(begins(MdTag::Strong)).step(t).step(MdEventV::End(MdTag::Strong)) == (
            BuilderV {
                current: Some(
                    run_added(open, text, InlineStyle { strong: (s.strong + 1) as usize, ..s }),
                ),
                ..b
            })
            &&& b.step(begins(MdTag::Strikethrough)).step(t).step(
                MdEventV::End(MdTag::Strikethrough),
            ) == (BuilderV {
                current: Some(
                    run_added(
                        open,
                        text,
                        InlineStyle { strikethrough: (s.strikethrough + 1) as usize, ..s },
                    ),
                ),
                ..b
            })
            &&& b.step(MdEventV::Code(text)) == (BuilderV {
                current: Some(
                    run_added(open, text, InlineStyle { code: (s.code + 1) as usize, ..s }),
                ),
                ..b
            })
            &&& b.step(t) == (BuilderV { current: Some(run_added(open, text, s)), ..b })
        }),
{
}

/// Law: a link shows its text as a link and behind it its address in brackets.
pub proof fn law_link_shows_text_and_address(
    b: BuilderV,
    open: BlockV,
    text: Seq<char>,
    url: Seq<char>,
)
    requires
        b.current == Some(open),
        text.len() > 0,
        !b.style.link,
        b.link_url is None,
    ensures
        b.step(MdEventV::Start { tag: MdTag::Link, number: None, text: url }).step(
            MdEventV::Text(text),
        ).step(MdEventV::End(MdTag::Link)) == (BuilderV {
            current: Some(
                run_added(
                    run_added(open, text, InlineStyle { link: true, ..b.style }),
                    seq![' ', '('] + url + seq![')'],
                    b.style,
                ),
            ),
            ..b
        }),
{
    reveal_strlit(" (");
    reveal_strlit(")");
    assert(" ("@ =~= seq![' ', '(']);
    assert(")"@ =~= seq![')']);
}

/// Law: an image shows its alternative text and behind it its address.
pub proof fn law_image_shows_text_and_address(
    b: BuilderV,
    open: BlockV,
    text: Seq<char>,
    url: Seq<char>,
)
    requires
        b.current == Some(open),
        text.len() > 0,
        b.image_url is None,
    ensures
        b.step(MdEventV::Start { tag: MdTag::Image, number: None, text: url }).step(
            MdEventV::Text(text),
        ).step(MdEventV::End(MdTag::Image)) == (BuilderV {
            current: Some(
                run_added(
                    run_added(open, text, b.style),
                    seq![' ', '[', 'i', 'm', 'a', 'g', 'e', ':', ' '] + url + seq![']'],
                    b.style,
                ),
            ),
            ..b
        }),
{
    reveal_strlit(" [image: ");
    reveal_strlit("]");
    assert(" [image: "@ =~= seq![' ', '[', 'i', 'm', 'a', 'g', 'e', ':', ' ']);
    assert("]"@ =~= seq![']']);
}

/// Law: what each mark inside a line is shown as.
pub proof fn law_marks_inside_lines(b: BuilderV, open: BlockV, text: Seq<char>)
    requires
        b.current == Some(open),
    ensures
        ({
            let with = |shown: Seq<char>|
                BuilderV { current: Some(run_added(open, shown, b.style)), ..b };
            &&& b.step(MdEventV::SoftBreak) == with(seq![' '])
            &&& b.step(MdEventV::HardBreak) == with(seq!['\n'])
            &&& b.step(MdEventV::TaskListMarker(true)) == with(seq!['\u{2611}', ' '])
            &&& b.step(MdEventV::TaskListMarker(false)) == with(seq!['\u{2610}', ' '])
            &&& b.step(MdEventV::FootnoteReference(text)) == with(
                seq!['[', '^'] + text + seq![']'],
            )
            &&& b.step(MdEventV::InlineMath(text)) == with(seq!['$'] + text + seq!['$'])
            &&& b.step(MdEventV::DisplayMath(text)) == with(
                seq!['$', '$'] + text + seq!['$', '$'],
            )
        }),
{
    reveal_strlit(" ");
    reveal_strlit("\n");
    reveal_strlit("☑ ");
    reveal_strlit("☐ ");
    reveal_strlit("[^");
    reveal_strlit("]");
    reveal_strlit("$");
    reveal_strlit("$$");
    assert(" "@ =~= seq![' ']);
    assert("\n"@ =~= seq!['\n']);
    assert("☑ "@ =~= seq!['\u{2611}', ' ']);
    assert("☐ "@ =~= seq!['\u{2610}', ' ']);
    assert("[^"@ =~= seq!['[', '^']);
    assert("]"@ =~= seq![']']);
    assert("$"@ =~= seq!['$']);
    assert("$$"@ =~= seq!['$', '$']);
}

/// Law: a row of a table becomes a paragraph of its cells with bars between
/// them.
pub proof fn law_row_shows_its_cells(b: BuilderV, first: Seq<char>, second: Seq<char>)
    requires
        b.current is None,
        first.len() > 0,
        second.len() > 0,
    ensures
        added(
            b,
            b.step(begins(MdTag::TableRow)).step(begins(MdTag::TableCell)).step(
                MdEventV::Text(first),
            ).step(MdEventV::End(MdTag::TableCell)).step(begins(MdTag::TableCell)).step(
                MdEventV::Text(second),
            ).step(MdEventV::End(MdTag::TableCell)).step(MdEventV::End(MdTag::TableRow)),
            BlockV {
                kind: BlockKind::Paragraph,
                spans: seq![
                    SpanV { text: first, style: b.style },
                    SpanV { text: seq![' ', '|', ' '], style: b.style },
                    SpanV { text: second, style: b.style },
                ],
                quoted: b.quote_depth > 0,
                list_marker: None,
                list_depth: 0,
            },
        ),
{
    reveal_strlit(" | ");
    assert(" | "@ =~= seq![' ', '|', ' ']);
    let open = b.step(begins(MdTag::TableRow)).step(begins(MdTag::TableCell)).step(
        MdEventV::Text(first),
    ).step(MdEventV::End(MdTag::TableCell)).step(begins(MdTag::TableCell)).step(
        MdEventV::Text(second),
    ).step(MdEventV::End(MdTag::TableCell));
    let spans = seq![
        SpanV { text: first, style: b.style },
        SpanV { text: seq![' ', '|', ' '], style: b.style },
        SpanV { text: second, style: b.style },
    ];
    assert(open.current->0.spans =~= spans);
    lemma_has_text(open.current->0);
}

/// Law: a footnote becomes a paragraph of its label, strong, and its text.
pub proof fn law_footnote_shows_label_and_text(b: BuilderV, label: Seq<char>, text: Seq<char>)
    requires
        b.current is None,
        text.len() > 0,
        b.style.strong < usize::MAX,
    ensures
        added(
            b,
            b.step(
                MdEventV::Start { tag: MdTag::FootnoteDefinition, number: None, text: label },
            ).step(MdEventV::Text(text)).step(MdEventV::End(MdTag::FootnoteDefinition)),
            BlockV {
                kind: BlockKind::Paragraph,
                spans: seq![
                    SpanV {
                        text: seq!['[', '^'] + label + seq![']', ':', ' '],
                        style: InlineStyle { strong: (b.style.strong + 1) as usize, ..b.style },
                    },
                    SpanV { text, style: b.style },
                ],
                quoted: b.quote_depth > 0,
                list_marker: None,
                list_depth: 0,
            },
        ),
{
    reveal_strlit("[^");
    reveal_strlit("]: ");
    assert("[^"@ =~= seq!['[', '^']);
    assert("]: "@ =~= seq![']', ':', ' ']);
    let open = b.step(
        MdEventV::Start { tag: MdTag::FootnoteDefinition, number: None, text: label },
    ).step(MdEventV::Text(text));
    let spans = seq![
        SpanV {
            text: seq!['[', '^'] + label + seq![']', ':', ' '],
            style: InlineStyle { strong: (b.style.strong + 1) as usize, ..b.style },
        },
        SpanV { text, style: b.style },
    ];
    assert(open.current->0.spans =~= spans);
    lemma_has_text(open.current->0);
}

/// Law: a preview is built from the first event to the last, and what is open
/// at the end is shown too.
pub proof fn law_preview_takes_every_event(events: Seq<MdEventV>, last: MdEventV)
    ensures
        blocks_of(Seq::<MdEventV>::empty()) == Seq::<BlockV>::empty(),
        blocks_of(events.push(last)) == built(events, events.len() as int).step(
            last,
        ).finish().blocks,
        built(events.push(last), events.len() as int) == built(events, events.len() as int),
{
    lemma_same_events(events.push(last), events, events.len() as int);
}

proof fn lemma_same_events(a: Seq<MdEventV>, b: Seq<MdEventV>, n: int)
    requires
        forall|i: int| 0 <= i < n ==> a[i] == b[i],
    ensures
        built(a, n) == built(b, n),
    decreases n,
{
    if n > 0 {
        lemma_same_events(a, b, n - 1);
    }
}

// ----- CSV -----

/// What a cell shows of a text: line feeds as arrows, carriage returns not at
/// all; of a text that is too long its beginning and an ellipsis.
pub open spec fn cell_text(text: Seq<char>) -> Seq<char> {
    let part = if text.len() > 4096 { text.take(4096) } else { text };
    let shown = part.filter(|c: char| c != '\r').map_values(
        |c: char| if c == '\n' { '\u{21b5}' } else { c },
    );
    if text.len() > 4096 { shown + seq!['\u{2026}'] } else { shown }
}

proof fn lemma_shown_chars(text: Seq<char>)
    ensures
        shown_chars(text) == text.filter(|c: char| c != '\r').map_values(
            |c: char| if c == '\n' { '\u{21b5}' } else { c },
        ),
    decreases text.len(),
{
    reveal(Seq::filter);
    let keep = |c: char| c != '\r';
    let show = |c: char| if c == '\n' { '\u{21b5}' } else { c };
    if text.len() > 0 {
        lemma_shown_chars(text.drop_last());
        let before = text.drop_last().filter(keep);
        assert(before.push(text.last()).map_values(show) =~= before.map_values(show).push(
            show(text.last()),
        ));
        assert(shown_chars(text) =~= text.filter(keep).map_values(show));
    } else {
        assert(shown_chars(text) =~= text.filter(keep).map_values(show));
    }
}

/// Law: a cell shows the text that it holds.
pub proof fn law_cell_shows_its_text(text: Seq<char>)
    ensures
        display_spec(text) == cell_text(text),
{
    lemma_shown_chars(text);
    if text.len() > 4096 {
        lemma_shown_chars(text.take(4096));
        assert(display_spec(text) =~= cell_text(text));
    }
}

/// The row shows the fields of the record, at most 256 of them.
pub open spec fn row_shows(row: Seq<Seq<char>>, record: CsvRecordV) -> bool {
    record matches CsvRecordV::Fields(fields) && {
        &&& row.len() == (if fields.len() < 256 { fields.len() } else { 256 })
        &&& forall|j: int| 0 <= j < row.len() ==> #[trigger] row[j] == cell_text(fields[j])
    }
}

proof fn lemma_row_cells(row: RowV, fields: Seq<Seq<char>>, n: int)
    requires
        row.cells.len() == 0,
        !row.full,
        0 <= n <= fields.len(),
    ensures
        ({
            let r = row_with(row, fields, n);
            &&& !r.full ==> r.cells.len() == n
            &&& forall|j: int|
                0 <= j < r.cells.len() ==> #[trigger] r.cells[j] == cell_text(fields[j])
            &&& r.cells.len() <= n
        }),
    decreases n,
{
    if n > 0 {
        lemma_row_cells(row, fields, n - 1);
        law_cell_shows_its_text(fields[n - 1]);
    }
}

/// Law: the rows of a table are the records, from the first on and each field
/// in its cell. Where no limit is reached and no record is malformed there is
/// a row for every one; the number of columns is that of the longest row.
pub proof fn law_table_shows_records(records: Seq<CsvRecordV>, n: int)
    requires
        0 <= n <= records.len(),
    ensures
        ({
            let t = table_of(records, n);
            &&& t.rows.len() <= n
            &&& forall|i: int|
                0 <= i < t.rows.len() ==> row_shows(#[trigger] t.rows[i], records[i])
            &&& t.error is None && !t.truncated ==> t.rows.len() == n && !t.stopped
            &&& t.error is None && !t.stopped ==> t.rows.len() == n
            &&& t.error is Some ==> t.rows.len() == 0 && t.stopped && exists|i: int|
                0 <= i < n && (#[trigger] records[i] matches CsvRecordV::Malformed(m) && t.error
                    == Some("Could not parse CSV: "@ + m))
            &&& forall|i: int| 0 <= i < t.rows.len() ==> (#[trigger] t.rows[i]).len() <= t.columns
            &&& t.columns > 0 ==> exists|i: int|
                0 <= i < t.rows.len() && (#[trigger] t.rows[i]).len() == t.columns
        }),
    decreases n,
{
    if n > 0 {
        law_table_shows_records(records, n - 1);
        let before = table_of(records, n - 1);
        let t = table_of(records, n);
        if before.stopped {
        } else {
            match records[n - 1] {
                CsvRecordV::Malformed(m) => {
                    assert(records[n - 1] matches CsvRecordV::Malformed(m) && t.error == Some(
                        "Could not parse CSV: "@ + m,
                    ));
                },
                CsvRecordV::Fields(fields) => {
                    let start = RowV {
                        cells: seq![],
                        stored: before.stored,
                        bytes: before.bytes,
                        full: false,
                    };
                    let kept = crate::csv_preview::kept_fields(fields);
                    let row = row_with(start, fields, kept);
                    lemma_row_cells(start, fields, kept);
                    if t.rows.len() == n {
                        assert(t.rows == before.rows.push(row.cells));
                        assert(t.rows[n - 1] == row.cells);
                        assert forall|i: int| 0 <= i < t.rows.len() implies row_shows(
                            #[trigger] t.rows[i],
                            records[i],
                        ) by {
                            if i < n - 1 {
                                assert(t.rows[i] == before.rows[i]);
                            }
                        }
                        assert forall|i: int| 0 <= i < t.rows.len() implies (
                        #[trigger] t.rows[i]).len() <= t.columns by {
                            if i < n - 1 {
                                assert(t.rows[i] == before.rows[i]);
                            }
                        }
                        if t.columns > 0 {
                            if row.cells.len() > before.columns {
                                assert(t.rows[n - 1].len() == t.columns);
                            } else {
                                let k = choose|i: int|
                                    0 <= i < before.rows.len() && (
                                    #[trigger] before.rows[i]).len() == before.columns;
                                assert(t.rows[k] == before.rows[k]);
                            }
                        }
                    }
                },
            }
        }
    }
}

/// How many fields the first `n` records have, and how many bytes their cells
/// show.
pub open spec fn field_total(records: Seq<CsvRecordV>, n: int) -> nat
    decreases n,
{
    if n <= 0 {
        0
    } else {
        field_total(records, n - 1) + (match records[n - 1] {
            CsvRecordV::Fields(f) => f.len(),
            _ => 0,
        })
    }
}

pub open spec fn shown_bytes(fields: Seq<Seq<char>>, n: int) -> nat
    decreases n,
{
    if n <= 0 {
        0
    } else {
        shown_bytes(fields, n - 1) + encode_utf8(cell_text(fields[n - 1])).len()
    }
}

pub open spec fn byte_total(records: Seq<CsvRecordV>, n: int) -> nat
    decreases n,
{
    if n <= 0 {
        0
    } else {
        byte_total(records, n - 1) + (match records[n - 1] {
            CsvRecordV::Fields(f) => shown_bytes(f, f.len() as int),
            _ => 0,
        })
    }
}

proof fn lemma_row_fits(row: RowV, fields: Seq<Seq<char>>, n: int)
    requires
        0 <= n <= fields.len(),
        !row.full,
        row.stored + fields.len() <= 1_000_000,
        row.bytes + shown_bytes(fields, n) <= 16_777_216,
    ensures
        !row_with(row, fields, n).full,
        row_with(row, fields, n).stored == row.stored + n,
        row_with(row, fields, n).bytes == row.bytes + shown_bytes(fields, n),
    decreases n,
{
    if n > 0 {
        lemma_row_fits(row, fields, n - 1);
        law_cell_shows_its_text(fields[n - 1]);
    }
}

/// Law: a table of at most 50000 records of at most 256 fields, with no more
/// than a million cells and 16 MiB of text, is shown whole.
pub proof fn law_small_table_is_whole(records: Seq<CsvRecordV>, n: int)
    requires
        0 <= n <= records.len(),
        n <= 50_000,
        forall|i: int|
            0 <= i < n ==> (#[trigger] records[i] matches CsvRecordV::Fields(f) && f.len() <= 256),
        field_total(records, n) <= 1_000_000,
        byte_total(records, n) <= 16_777_216,
    ensures
        ({
            let t = table_of(records, n);
            &&& t.error is None && !t.truncated && !t.stopped && t.rows.len() == n
            &&& t.stored == field_total(records, n) && t.bytes == byte_total(records, n)
        }),
    decreases n,
{
    if n > 0 {
        law_small_table_is_whole(records, n - 1);
        let before = table_of(records, n - 1);
        let fields = match records[n - 1] {
            CsvRecordV::Fields(f) => f,
            _ => seq![],
        };
        assert(records[n - 1] matches CsvRecordV::Fields(f) && f.len() <= 256);
        let start = RowV {
            cells: seq![],
            stored: before.stored,
            bytes: before.bytes,
            full: false,
        };
        lemma_row_fits(start, fields, fields.len() as int);
    }
}

/// Law: a text of more than 32 MiB, one with a record of more than 256 columns
/// and one whose last quoted field has no end are shown as a message; any other
/// as the table of its records.
pub proof fn law_preview_shows_table_or_message(
    key: (u64, u64),
    bytes: Seq<u8>,
    records: Seq<CsvRecordV>,
)
    ensures
        ({
            let p = preview_spec(key, bytes, records);
            let t = table_of(records, records.len() as int);
            &&& p.key == Some(key)
            &&& bytes.len() > 33_554_432 || shape_spec(bytes) is Err ==> p.error is Some
                && p.rows.len() == 0 && p.column_count == 0
            &&& bytes.len() <= 33_554_432 && shape_spec(bytes) is Ok ==> p.rows == t.rows
                && p.column_count == t.columns && p.error == t.error && p.truncated == t.truncated
        }),
{
}

/// Where record and field begin anew: a byte that ends a line.
pub open spec fn ends_record(c: u8) -> bool {
    c == 10 || c == 13
}

/// Commas from the last line end before `i` on, in a text without quotes.
pub open spec fn commas_since(b: Seq<u8>, from: int, i: int) -> nat
    decreases i - from,
{
    if i <= from || ends_record(b[i - 1]) {
        0
    } else {
        commas_since(b, from, i - 1) + (if b[i - 1] == 44 { 1nat } else { 0nat })
    }
}

proof fn lemma_shape_without_quotes(b: Seq<u8>, from: int, i: int, s: Scan)
    requires
        0 <= from <= i <= b.len(),
        forall|k: int| from <= k < b.len() ==> b[k] != 34,
        s.columns == commas_since(b, from, i) + 1,
        !s.in_quotes,
        forall|k: int| from <= k <= i ==> #[trigger] commas_since(b, from, k) < 256,
    ensures
        shape_from(b, i, s) is Ok <==> forall|k: int|
            i <= k <= b.len() ==> #[trigger] commas_since(b, from, k) < 256,
        shape_from(b, i, s) is Err ==> shape_from(b, i, s) == Err::<(), ShapeError>(
            ShapeError::TooManyColumns,
        ),
    decreases b.len() - i,
{
    if i < b.len() {
        let next = crate::csv_preview::scan_plain(s, b[i]);
        assert(next.columns == commas_since(b, from, i + 1) + 1);
        if next.columns > 256 {
            assert(commas_since(b, from, i + 1) >= 256);
        } else {
            lemma_shape_without_quotes(b, from, i + 1, next);
            assert(commas_since(b, from, i) < 256);
            if shape_from(b, i, s) is Ok {
                assert forall|k: int| i <= k <= b.len() implies #[trigger] commas_since(b, from, k)
                    < 256 by {
                    if k > i {
                        assert(i + 1 <= k);
                    }
                }
            }
        }
    }
}

/// Law: a text without quotes has the shape of a table if and only if no line
/// of it has more than 255 commas.
pub proof fn law_lines_of_too_many_columns_are_refused(b: Seq<u8>)
    requires
        forall|k: int| 0 <= k < b.len() ==> b[k] != 34,
        !(b.len() >= 3 && b[0] == 0xef && b[1] == 0xbb && b[2] == 0xbf),
    ensures
        shape_spec(b) is Ok <==> forall|k: int|
            0 <= k <= b.len() ==> #[trigger] commas_since(b, 0, k) < 256,
{
    lemma_shape_without_quotes(b, 0, 0, crate::csv_preview::scan_start());
}

proof fn lemma_open_quote(b: Seq<u8>, i: int, s: Scan)
    requires
        0 <= i <= b.len(),
        s.in_quotes,
        forall|k: int| i <= k < b.len() ==> b[k] != 34,
    ensures
        shape_from(b, i, s) == Err::<(), ShapeError>(ShapeError::UnterminatedQuote),
    decreases b.len() - i,
{
    if i < b.len() {
        lemma_open_quote(b, i + 1, s);
    }
}

/// Law: a quote at the start of the text that nothing ends is refused, whatever
/// stands behind it.
pub proof fn law_open_quote_is_refused(b: Seq<u8>)
    requires
        b.len() > 0,
        b[0] == 34,
        forall|k: int| 1 <= k < b.len() ==> b[k] != 34,
    ensures
        shape_spec(b) == Err::<(), ShapeError>(ShapeError::UnterminatedQuote),
{
    let s = crate::csv_preview::scan_plain(crate::csv_preview::scan_start(), 34);
    lemma_open_quote(b, 1, s);
}

} // verus!

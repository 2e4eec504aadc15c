//! The preview of Markdown documents.

use skerry::markdown::{parse, BlockKind, InlineStyle, MarkdownPreview};
use skerry::markdown_look::{block_space, span_look, SpanColor};

#[test]
fn parser_builds_headings_lists_and_code() {
    let blocks = parse("# Title\n\n- **bold** item\n\n```rust\nfn main() {}\n```\n");
    assert!(matches!(blocks[0].kind, BlockKind::Heading(1)));
    assert!(matches!(blocks[1].kind, BlockKind::ListItem));
    assert!(blocks[1].spans.iter().any(|span| span.style.strong > 0));
    assert_eq!(blocks[1].list_marker.as_deref(), Some("•"));
    assert!(matches!(blocks[2].kind, BlockKind::Code));
}

#[test]
fn html_and_remote_images_remain_inert_text() {
    let blocks = parse("<script>alert('no')</script>\n\n![alt](https://example.com/a.png)");
    let text: String = blocks
        .iter()
        .flat_map(|block| block.spans.iter())
        .map(|span| span.text.as_str())
        .collect();
    assert!(text.contains("<script>"));
    assert!(text.contains("[image: https://example.com/a.png]"));
}

#[test]
fn nested_emphasis_and_footnote_labels_are_preserved() {
    let blocks = parse("*outer **inner** outer*\n\n[^one]: first\n\n[^two]: second");
    let paragraph = &blocks[0];
    assert!(paragraph
        .spans
        .iter()
        .filter(|span| span.text.contains("outer"))
        .all(|span| span.style.emphasis > 0));

    let text: String = blocks
        .iter()
        .flat_map(|block| block.spans.iter())
        .map(|span| span.text.as_str())
        .collect();
    assert!(text.contains("[^one]:"));
    assert!(text.contains("[^two]:"));
}

#[test]
fn quoted_lists_retain_both_block_styles() {
    let blocks = parse("> - quoted item");
    assert_eq!(blocks.len(), 1);
    assert!(matches!(blocks[0].kind, BlockKind::ListItem));
    assert!(blocks[0].quoted);
    assert_eq!(blocks[0].list_marker.as_deref(), Some("•"));
}

#[test]
fn ordered_lists_count_from_their_start() {
    let blocks = parse("3. three\n4. four\n");
    assert_eq!(blocks[0].list_marker.as_deref(), Some("3."));
    assert_eq!(blocks[1].list_marker.as_deref(), Some("4."));
    assert_eq!(blocks[0].list_depth, 0);
}

#[test]
fn tables_tasks_rules_and_strikethrough_are_read() {
    let blocks = parse("| a | b |\n|---|---|\n| 1 | 2 |\n\n---\n\n- [x] done\n\n~~gone~~ `code`\n");
    let all: Vec<String> = blocks
        .iter()
        .map(|b| b.spans.iter().map(|s| s.text.as_str()).collect::<String>())
        .collect();
    assert!(all.iter().any(|t| t.contains("1 | 2")), "{all:?}");
    assert!(blocks.iter().any(|b| b.kind == BlockKind::Rule));
    assert!(blocks
        .iter()
        .any(|b| b.spans.iter().any(|s| s.style.strikethrough > 0 && s.text == "gone")));
    assert!(blocks
        .iter()
        .any(|b| b.spans.iter().any(|s| s.style.code > 0 && s.text == "code")));
}

#[test]
fn links_are_marked() {
    let blocks = parse("see [here](https://example.com)");
    assert!(blocks[0]
        .spans
        .iter()
        .any(|s| s.style.link && s.text == "here"));
}

#[test]
fn a_preview_is_known_by_its_key() {
    let mut preview = MarkdownPreview::new();
    assert!(preview.needs_refresh((1, 0)));
    preview.refresh((1, 0), "# A");
    assert!(!preview.needs_refresh((1, 0)));
    assert!(preview.needs_refresh((1, 1)));
    assert_eq!(preview.blocks.len(), 1);
    assert_eq!(preview.blocks[0].spans[0].text, "A");
}

fn plain() -> InlineStyle {
    InlineStyle { strong: 0, emphasis: 0, strikethrough: 0, code: 0, link: false }
}

#[test]
fn spans_look_as_their_style_says() {
    let look = span_look(BlockKind::Heading(1), plain());
    assert_eq!(look.size, 128);
    assert_eq!(look.line_height, 4000);
    assert_eq!(look.color, SpanColor::Text);
    let look = span_look(BlockKind::Heading(9), plain());
    assert_eq!(look.size, 64);
    let strong = InlineStyle { strong: 1, ..plain() };
    assert_eq!(span_look(BlockKind::Paragraph, strong).size, 67);
    assert_eq!(span_look(BlockKind::Paragraph, strong).color, SpanColor::Strong);
    assert_eq!(span_look(BlockKind::Heading(2), strong).size, 104);
    let code = InlineStyle { code: 1, ..plain() };
    assert!(span_look(BlockKind::Paragraph, code).background);
    assert!(!span_look(BlockKind::Code, code).background);
    assert!(span_look(BlockKind::Code, plain()).monospace);
    let link = InlineStyle { link: true, ..plain() };
    assert!(span_look(BlockKind::Paragraph, link).underline);
    assert_eq!(span_look(BlockKind::Paragraph, link).color, SpanColor::Accent);
    assert_eq!(span_look(BlockKind::Paragraph, plain()).line_height, 2480);
}

#[test]
fn blocks_keep_their_distance() {
    assert!(block_space(BlockKind::Heading(2)).line_below);
    assert_eq!(block_space(BlockKind::Heading(2)).below, 15);
    assert_eq!(block_space(BlockKind::Heading(3)).below, 10);
    assert_eq!(block_space(BlockKind::ListItem).below, 3);
    assert_eq!(block_space(BlockKind::Code).below, 14);
    assert_eq!(block_space(BlockKind::Paragraph).above, 0);
}

#[test]
fn html_is_shown_in_a_block_and_among_text() {
    let text = |markdown: &str| -> Vec<String> {
        parse(markdown)
            .iter()
            .map(|block| block.spans.iter().map(|span| span.text.as_str()).collect())
            .collect()
    };
    assert_eq!(text("<div>x</div>\n"), vec!["<div>x</div>\n".to_owned()]);
    assert_eq!(text("a <b>c</b>"), vec!["a <b>c</b>".to_owned()]);
}

#[test]
fn a_table_leaves_its_rows_and_cells() {
    let blocks = parse("| a | b |\n|---|---|\n| 1 | 2 |\n| 3 | 4 |\n");
    let rows: Vec<String> = blocks
        .iter()
        .map(|block| block.spans.iter().map(|span| span.text.as_str()).collect())
        .collect();
    assert_eq!(rows.last().map(|row| row.as_str()), Some("3 | 4"));
    assert!(rows.contains(&"1 | 2".to_owned()));
}

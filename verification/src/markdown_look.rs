//! How the blocks of a Markdown preview look.

use vstd::prelude::*;

use crate::markdown::{BlockKind, InlineStyle};

verus! {

/// A color that the theme gives.
#[derive(Debug, Clone, Copy, PartialEq, Eq, Structural)]
pub enum SpanColor {
    Text,
    /// The color of links.
    Accent,
    /// The color of strong text.
    Strong,
}

/// The look of a run of text.
#[derive(Debug, Clone, Copy, PartialEq, Eq, Structural)]
pub struct SpanLook {
    /// In quarters of a point.
    pub size: u32,
    /// In hundredths of a point.
    pub line_height: u32,
    pub monospace: bool,
    pub color: SpanColor,
    pub italics: bool,
    pub strikethrough: bool,
    pub underline: bool,
    /// The run has a background of its own.
    pub background: bool,
}

/// The letters of a block, in points.
pub open spec fn block_size(kind: BlockKind) -> int {
    match kind {
        BlockKind::Heading(level) => if level == 1 {
            32
        } else if level == 2 {
            26
        } else if level == 3 {
            22
        } else if level == 4 {
            19
        } else if level == 5 {
            17
        } else {
            16
        },
        BlockKind::Code => 14,
        _ => 16,
    }
}

/// The look of a run of text in a block. Strong text stands out except in
/// headings, code inside a line has a background.
pub open spec fn span_look_spec(kind: BlockKind, style: InlineStyle) -> SpanLook {
    let size = block_size(kind);
    let strong = style.strong > 0 && !(kind is Heading);
    SpanLook {
        size: (size * 4 + (if strong { 3int } else { 0int })) as u32,
        line_height: (size * (if kind is Heading { 125int } else { 155int })) as u32,
        monospace: style.code > 0 || kind == BlockKind::Code,
        color: if strong {
            SpanColor::Strong
        } else if style.link {
            SpanColor::Accent
        } else {
            SpanColor::Text
        },
        italics: style.emphasis > 0,
        strikethrough: style.strikethrough > 0,
        underline: style.link,
        background: style.code > 0 && kind != BlockKind::Code,
    }
}

fn size_of_block(kind: BlockKind) -> (r: u32)
    ensures
        r == block_size(kind),
        14 <= r <= 32,
{
    match kind {
        BlockKind::Heading(level) => {
            if level == 1 {
                32
            } else if level == 2 {
                26
            } else if level == 3 {
                22
            } else if level == 4 {
                19
            } else if level == 5 {
                17
            } else {
                16
            }
        },
        BlockKind::Code => 14,
        _ => 16,
    }
}

/// How a run of text of a block looks.
pub fn span_look(kind: BlockKind, style: InlineStyle) -> (r: SpanLook)
    ensures
        r == span_look_spec(kind, style),
{
    let size: u32 = size_of_block(kind);
    let heading: bool = match kind {
        BlockKind::Heading(_) => true,
        _ => false,
    };
    let code_block: bool = match kind {
        BlockKind::Code => true,
        _ => false,
    };
    let strong: bool = style.strong > 0 && !heading;
    SpanLook {
        size: if strong { size * 4 + 3 } else { size * 4 },
        line_height: if heading { size * 125 } else { size * 155 },
        monospace: style.code > 0 || code_block,
        color: if strong {
            SpanColor::Strong
        } else if style.link {
            SpanColor::Accent
        } else {
            SpanColor::Text
        },
        italics: style.emphasis > 0,
        strikethrough: style.strikethrough > 0,
        underline: style.link,
        background: style.code > 0 && !code_block,
    }
}

/// The space around a block, in points, and whether a line is drawn below it.
#[derive(Debug, Clone, Copy, PartialEq, Eq, Structural)]
pub struct BlockSpace {
    pub above: u32,
    pub line_below: bool,
    pub below: u32,
}

pub open spec fn block_space_spec(kind: BlockKind) -> BlockSpace {
    let large = kind == BlockKind::Heading(1) || kind == BlockKind::Heading(2);
    BlockSpace {
        above: if kind is Heading { 10 } else { 0 },
        line_below: large,
        below: if large {
            15
        } else if kind == BlockKind::ListItem {
            3
        } else if kind == BlockKind::Code {
            14
        } else {
            10
        },
    }
}

/// The space around a block.
pub fn block_space(kind: BlockKind) -> (r: BlockSpace)
    ensures
        r == block_space_spec(kind),
{
    match kind {
        BlockKind::Heading(level) => {
            let large: bool = level == 1 || level == 2;
            BlockSpace { above: 10, line_below: large, below: if large { 15 } else { 10 } }
        },
        BlockKind::ListItem => BlockSpace { above: 0, line_below: false, below: 3 },
        BlockKind::Code => BlockSpace { above: 0, line_below: false, below: 14 },
        _ => BlockSpace { above: 0, line_below: false, below: 10 },
    }
}

} // verus!

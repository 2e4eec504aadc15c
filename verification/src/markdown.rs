//! Safe, local preview of a Markdown document.
//!
//! The blocks are built from the text in memory. HTML stays literal text, and
//! an image is shown by its alternative text and its address: a preview never
//! executes markup and never fetches anything.

use vstd::prelude::*;
use vstd::string::*;

use crate::text::{decimal, push_decimal};

verus! {

// ----- events -----

/// What an element of a Markdown text is.
#[derive(Debug, Clone, Copy, PartialEq, Eq, Structural)]
pub enum MdTag {
    Paragraph,
    /// A heading with its level from 1 to 6.
    Heading(u8),
    BlockQuote,
    CodeBlock,
    List,
    Item,
    Emphasis,
    Strong,
    Strikethrough,
    Link,
    Image,
    FootnoteDefinition,
    TableRow,
    TableCell,
    /// A block of HTML. Like those below, it changes nothing in a preview by
    /// itself.
    HtmlBlock,
    DefinitionList,
    DefinitionListTitle,
    DefinitionListDefinition,
    Table,
    TableHead,
    MetadataBlock,
}

/// The element shows only what stands in it.
pub open spec fn leaves_no_mark(tag: MdTag) -> bool {
    ||| tag is HtmlBlock
    ||| tag is DefinitionList
    ||| tag is DefinitionListTitle
    ||| tag is DefinitionListDefinition
    ||| tag is Table
    ||| tag is TableHead
    ||| tag is MetadataBlock
}

/// A step through a Markdown text.
#[derive(Debug)]
pub enum MdEvent {
    /// An element begins. `number` is where an ordered list starts; `text` is
    /// the address of a link or an image, or the label of a footnote.
    Start { tag: MdTag, number: Option<u64>, text: String },
    End(MdTag),
    Text(String),
    Code(String),
    Html(String),
    InlineHtml(String),
    SoftBreak,
    HardBreak,
    Rule,
    TaskListMarker(bool),
    FootnoteReference(String),
    InlineMath(String),
    DisplayMath(String),
}

/// What a step says.
pub enum MdEventV {
    Start { tag: MdTag, number: Option<u64>, text: Seq<char> },
    End(MdTag),
    Text(Seq<char>),
    Code(Seq<char>),
    Html(Seq<char>),
    InlineHtml(Seq<char>),
    SoftBreak,
    HardBreak,
    Rule,
    TaskListMarker(bool),
    FootnoteReference(Seq<char>),
    InlineMath(Seq<char>),
    DisplayMath(Seq<char>),
}

impl View for MdEvent {
    type V = MdEventV;

    open spec fn view(&self) -> MdEventV {
        match self {
            MdEvent::Start { tag, number, text } => MdEventV::Start {
                tag: *tag,
                number: *number,
                text: text@,
            },
            MdEvent::End(tag) => MdEventV::End(*tag),
            MdEvent::Text(s) => MdEventV::Text(s@),
            MdEvent::Code(s) => MdEventV::Code(s@),
            MdEvent::Html(s) => MdEventV::Html(s@),
            MdEvent::InlineHtml(s) => MdEventV::InlineHtml(s@),
            MdEvent::SoftBreak => MdEventV::SoftBreak,
            MdEvent::HardBreak => MdEventV::HardBreak,
            MdEvent::Rule => MdEventV::Rule,
            MdEvent::TaskListMarker(b) => MdEventV::TaskListMarker(*b),
            MdEvent::FootnoteReference(s) => MdEventV::FootnoteReference(s@),
            MdEvent::InlineMath(s) => MdEventV::InlineMath(s@),
            MdEvent::DisplayMath(s) => MdEventV::DisplayMath(s@),
        }
    }
}

pub open spec fn events_view(s: Seq<MdEvent>) -> Seq<MdEventV> {
    Seq::new(s.len(), |i: int| s[i]@)
}

/// Which extensions of Markdown are read.
#[derive(Debug, Clone, Copy, PartialEq, Eq, Structural)]
pub struct Extensions {
    pub strikethrough: bool,
    pub tables: bool,
    pub tasklists: bool,
    pub footnotes: bool,
}

/// An event of the pulldown-cmark crate.
#[verifier::external_type_specification]
#[verifier::external_body]
pub struct ExEvent<'a>(pulldown_cmark::Event<'a>);

/// The start of an element in the pulldown-cmark crate.
#[verifier::external_type_specification]
#[verifier::external_body]
pub struct ExTag<'a>(pulldown_cmark::Tag<'a>);

/// The end of an element in the pulldown-cmark crate.
#[verifier::external_type_specification]
#[verifier::external_body]
pub struct ExTagEnd(pulldown_cmark::TagEnd);

/// The events that pulldown-cmark finds in `markdown`.
pub uninterp spec fn markdown_events(markdown: Seq<char>, extensions: Extensions) -> Seq<MdEventV>;

/// The events that `pulldown_cmark::Parser::new_ext` yields for `markdown`
/// with the given extensions and no others, each one as this library writes
/// it: a function of the text and the extensions.
#[verifier::external_body]
fn read_events(markdown: &str, extensions: Extensions) -> (r: Vec<MdEvent>)
    ensures
        events_view(r@) == markdown_events(markdown@, extensions),
{
    let mut options = pulldown_cmark::Options::empty();
    options.set(pulldown_cmark::Options::ENABLE_STRIKETHROUGH, extensions.strikethrough);
    options.set(pulldown_cmark::Options::ENABLE_TABLES, extensions.tables);
    options.set(pulldown_cmark::Options::ENABLE_TASKLISTS, extensions.tasklists);
    options.set(pulldown_cmark::Options::ENABLE_FOOTNOTES, extensions.footnotes);
    pulldown_cmark::Parser::new_ext(markdown, options).map(read_event).collect()
}

/// A `pulldown_cmark::Event` variant by variant. Nothing is claimed of one
/// event alone; `read_events` speaks of all of them.
#[verifier::external_body]
fn read_event(event: pulldown_cmark::Event<'_>) -> MdEvent {
    match event {
        pulldown_cmark::Event::Start(tag) => read_start(tag),
        pulldown_cmark::Event::End(tag) => MdEvent::End(read_tag(tag)),
        pulldown_cmark::Event::Text(s) => MdEvent::Text(s.into_string()),
        pulldown_cmark::Event::Code(s) => MdEvent::Code(s.into_string()),
        pulldown_cmark::Event::Html(s) => MdEvent::Html(s.into_string()),
        pulldown_cmark::Event::InlineHtml(s) => MdEvent::InlineHtml(s.into_string()),
        pulldown_cmark::Event::InlineMath(s) => MdEvent::InlineMath(s.into_string()),
        pulldown_cmark::Event::DisplayMath(s) => MdEvent::DisplayMath(s.into_string()),
        other => read_mark(other),
    }
}

/// The variants of `pulldown_cmark::Event` that `read_event` leaves. The rule
/// is the one that the last arm gets.
#[verifier::external_body]
fn read_mark(event: pulldown_cmark::Event<'_>) -> MdEvent {
    match event {
        pulldown_cmark::Event::FootnoteReference(s) => MdEvent::FootnoteReference(s.into_string()),
        pulldown_cmark::Event::SoftBreak => MdEvent::SoftBreak,
        pulldown_cmark::Event::HardBreak => MdEvent::HardBreak,
        pulldown_cmark::Event::TaskListMarker(checked) => MdEvent::TaskListMarker(checked),
        _ => MdEvent::Rule,
    }
}

/// A `pulldown_cmark::Tag` with what it carries: the first number of an
/// ordered list, the address of a link or image, the label of a footnote.
#[verifier::external_body]
fn read_start(start: pulldown_cmark::Tag<'_>) -> MdEvent {
    let tag = read_tag(start.to_end());
    let number = match &start {
        pulldown_cmark::Tag::List(number) => *number,
        _ => None,
    };
    let text = match start {
        pulldown_cmark::Tag::Link { dest_url, .. } => dest_url.into_string(),
        pulldown_cmark::Tag::Image { dest_url, .. } => dest_url.into_string(),
        pulldown_cmark::Tag::FootnoteDefinition(label) => label.into_string(),
        _ => String::new(),
    };
    MdEvent::Start { tag, number, text }
}

/// A `pulldown_cmark::TagEnd` variant by variant, those of blocks here. Nothing
/// is claimed of one alone.
#[verifier::external_body]
fn read_tag(tag: pulldown_cmark::TagEnd) -> MdTag {
    match tag {
        pulldown_cmark::TagEnd::Paragraph => MdTag::Paragraph,
        pulldown_cmark::TagEnd::Heading(level) => MdTag::Heading(level as u8),
        pulldown_cmark::TagEnd::BlockQuote(_) => MdTag::BlockQuote,
        pulldown_cmark::TagEnd::CodeBlock => MdTag::CodeBlock,
        pulldown_cmark::TagEnd::HtmlBlock => MdTag::HtmlBlock,
        pulldown_cmark::TagEnd::List(_) => MdTag::List,
        pulldown_cmark::TagEnd::Item => MdTag::Item,
        pulldown_cmark::TagEnd::FootnoteDefinition => MdTag::FootnoteDefinition,
        other => read_inner_tag(other),
    }
}

/// The variants of `pulldown_cmark::TagEnd` for definition lists and tables.
#[verifier::external_body]
fn read_inner_tag(tag: pulldown_cmark::TagEnd) -> MdTag {
    match tag {
        pulldown_cmark::TagEnd::DefinitionList => MdTag::DefinitionList,
        pulldown_cmark::TagEnd::DefinitionListTitle => MdTag::DefinitionListTitle,
        pulldown_cmark::TagEnd::DefinitionListDefinition => MdTag::DefinitionListDefinition,
        pulldown_cmark::TagEnd::Table => MdTag::Table,
        pulldown_cmark::TagEnd::TableHead => MdTag::TableHead,
        pulldown_cmark::TagEnd::TableRow => MdTag::TableRow,
        pulldown_cmark::TagEnd::TableCell => MdTag::TableCell,
        other => read_inline_tag(other),
    }
}

/// The variants of `pulldown_cmark::TagEnd` that the other two leave. The
/// metadata block is the one that the last arm gets.
#[verifier::external_body]
fn read_inline_tag(tag: pulldown_cmark::TagEnd) -> MdTag {
    match tag {
        pulldown_cmark::TagEnd::Emphasis => MdTag::Emphasis,
        pulldown_cmark::TagEnd::Strong => MdTag::Strong,
        pulldown_cmark::TagEnd::Strikethrough => MdTag::Strikethrough,
        pulldown_cmark::TagEnd::Link => MdTag::Link,
        pulldown_cmark::TagEnd::Image => MdTag::Image,
        _ => MdTag::MetadataBlock,
    }
}

// ----- blocks -----

/// What a block of a preview is.
#[derive(Debug, Clone, Copy, PartialEq, Eq, Structural)]
pub enum BlockKind {
    Paragraph,
    Heading(u8),
    Code,
    ListItem,
    Rule,
}

/// How a span is shown. Each number says how many elements of its sort are
/// open.
#[derive(Debug, Clone, Copy, PartialEq, Eq, Structural)]
pub struct InlineStyle {
    pub strong: usize,
    pub emphasis: usize,
    pub strikethrough: usize,
    pub code: usize,
    pub link: bool,
}

/// A run of text in one style.
#[derive(Debug)]
pub struct Span {
    pub text: String,
    pub style: InlineStyle,
}

/// A block of a preview.
#[derive(Debug)]
pub struct Block {
    pub kind: BlockKind,
    pub spans: Vec<Span>,
    pub quoted: bool,
    pub list_marker: Option<String>,
    pub list_depth: usize,
}

/// What a span shows.
#[verifier::ext_equal]
pub struct SpanV {
    pub text: Seq<char>,
    pub style: InlineStyle,
}

/// What a block shows.
#[verifier::ext_equal]
pub struct BlockV {
    pub kind: BlockKind,
    pub spans: Seq<SpanV>,
    pub quoted: bool,
    pub list_marker: Option<Seq<char>>,
    pub list_depth: nat,
}

impl View for Span {
    type V = SpanV;

    open spec fn view(&self) -> SpanV {
        SpanV { text: self.text@, style: self.style }
    }
}

pub open spec fn spans_view(s: Seq<Span>) -> Seq<SpanV> {
    Seq::new(s.len(), |i: int| s[i]@)
}

impl View for Block {
    type V = BlockV;

    open spec fn view(&self) -> BlockV {
        BlockV {
            kind: self.kind,
            spans: spans_view(self.spans@),
            quoted: self.quoted,
            list_marker: crate::buffer::opt_text(self.list_marker),
            list_depth: self.list_depth as nat,
        }
    }
}

pub open spec fn blocks_view(s: Seq<Block>) -> Seq<BlockV> {
    Seq::new(s.len(), |i: int| s[i]@)
}

pub open spec fn opt_block(b: Option<Block>) -> Option<BlockV> {
    match b {
        Some(block) => Some(block@),
        None => None,
    }
}

/// An open list: the number of its next item, and whether items have numbers.
#[derive(Debug, Clone, Copy, PartialEq, Eq, Structural)]
pub struct ListState {
    pub next: u64,
    pub ordered: bool,
}

/// A preview while it is built.
#[verifier::ext_equal]
pub struct BuilderV {
    pub blocks: Seq<BlockV>,
    pub current: Option<BlockV>,
    pub style: InlineStyle,
    pub quote_depth: nat,
    pub lists: Seq<ListState>,
    pub link_url: Option<Seq<char>>,
    pub image_url: Option<Seq<char>>,
}

pub open spec fn plain_style() -> InlineStyle {
    InlineStyle { strong: 0, emphasis: 0, strikethrough: 0, code: 0, link: false }
}

pub open spec fn empty_builder() -> BuilderV {
    BuilderV {
        blocks: seq![],
        current: None,
        style: plain_style(),
        quote_depth: 0,
        lists: seq![],
        link_url: None,
        image_url: None,
    }
}

/// One less, but never below zero.
pub open spec fn less_one(n: usize) -> usize {
    if n == 0 { 0 } else { (n - 1) as usize }
}

/// A block that is worth showing: a rule, or one with text.
pub open spec fn has_content(b: BlockV) -> bool {
    b.kind == BlockKind::Rule || exists|i: int|
        0 <= i < b.spans.len() && (#[trigger] b.spans[i]).text.len() > 0
}

/// The marker of the next item of a list.
pub open spec fn item_marker(lists: Seq<ListState>) -> Seq<char> {
    if lists.len() > 0 && lists.last().ordered {
        decimal(lists.last().next as nat).push('.')
    } else {
        "•"@
    }
}

/// The lists after the innermost one has given out a number.
pub open spec fn lists_after_item(lists: Seq<ListState>) -> Seq<ListState> {
    if lists.len() > 0 && lists.last().ordered {
        let last = lists.last();
        lists.update(
            lists.len() - 1,
            ListState {
                next: if last.next == u64::MAX { last.next } else { (last.next + 1) as u64 },
                ordered: true,
            },
        )
    } else {
        lists
    }
}

impl BuilderV {
    /// A block begun, unless one is open.
    pub open spec fn begin(self, kind: BlockKind) -> BuilderV {
        match self.current {
            Some(_) => self,
            None => BuilderV {
                current: Some(
                    BlockV {
                        kind,
                        spans: seq![],
                        quoted: self.quote_depth > 0,
                        list_marker: None,
                        list_depth: 0,
                    },
                ),
                ..self
            },
        }
    }

    /// Text added to the open block, or to a new paragraph.
    pub open spec fn push(self, text: Seq<char>) -> BuilderV {
        let b = self.begin(BlockKind::Paragraph);
        if text.len() == 0 {
            b
        } else {
            let block = b.current->0;
            BuilderV {
                current: Some(
                    BlockV {
                        spans: block.spans.push(SpanV { text, style: self.style }),
                        ..block
                    },
                ),
                ..b
            }
        }
    }

    /// The open block finished; one without text is dropped.
    pub open spec fn finish(self) -> BuilderV {
        match self.current {
            Some(block) => BuilderV {
                blocks: if has_content(block) { self.blocks.push(block) } else { self.blocks },
                current: None,
                ..self
            },
            None => self,
        }
    }

    /// An item of the innermost list begun.
    pub open spec fn start_item(self) -> BuilderV {
        let b = BuilderV { lists: lists_after_item(self.lists), ..self.finish() }.begin(
            BlockKind::ListItem,
        );
        BuilderV {
            current: Some(
                BlockV {
                    list_marker: Some(item_marker(self.lists)),
                    list_depth: if self.lists.len() == 0 {
                        0
                    } else {
                        (self.lists.len() - 1) as nat
                    },
                    ..b.current->0
                },
            ),
            ..b
        }
    }

    /// The open block is a list item.
    pub open spec fn in_item(self) -> bool {
        self.current matches Some(b) && b.kind == BlockKind::ListItem
    }

    /// An element begun.
    pub open spec fn start(self, tag: MdTag, number: Option<u64>, text: Seq<char>) -> BuilderV {
        match tag {
            MdTag::Paragraph => self.begin(BlockKind::Paragraph),
            MdTag::Heading(level) => self.finish().begin(BlockKind::Heading(level)),
            MdTag::BlockQuote => BuilderV { quote_depth: self.quote_depth + 1, ..self },
            MdTag::CodeBlock => {
                let b = self.finish().begin(BlockKind::Code);
                BuilderV {
                    style: InlineStyle { code: (b.style.code + 1) as usize, ..b.style },
                    ..b
                }
            },
            MdTag::List => BuilderV {
                lists: self.lists.push(
                    ListState {
                        next: if number is Some { number->0 } else { 1 },
                        ordered: number is Some,
                    },
                ),
                ..self
            },
            MdTag::Item => self.start_item(),
            MdTag::Emphasis => BuilderV {
                style: InlineStyle { emphasis: (self.style.emphasis + 1) as usize, ..self.style },
                ..self
            },
            MdTag::Strong => BuilderV {
                style: InlineStyle { strong: (self.style.strong + 1) as usize, ..self.style },
                ..self
            },
            MdTag::Strikethrough => BuilderV {
                style: InlineStyle {
                    strikethrough: (self.style.strikethrough + 1) as usize,
                    ..self.style
                },
                ..self
            },
            MdTag::Link => BuilderV {
                style: InlineStyle { link: true, ..self.style },
                link_url: Some(text),
                ..self
            },
            MdTag::Image => BuilderV { image_url: Some(text), ..self },
            MdTag::FootnoteDefinition => {
                let b = self.finish().begin(BlockKind::Paragraph);
                let strong = InlineStyle { strong: (b.style.strong + 1) as usize, ..b.style };
                BuilderV {
                    style: b.style,
                    ..BuilderV { style: strong, ..b }.push("[^"@ + text + "]: "@)
                }
            },
            MdTag::TableRow => self.finish().begin(BlockKind::Paragraph),
            MdTag::TableCell => if self.current matches Some(block) && block.spans.len() > 0 {
                self.push(" | "@)
            } else {
                self
            },
            _ => self,
        }
    }

    /// An element ended.
    pub open spec fn end(self, tag: MdTag) -> BuilderV {
        match tag {
            MdTag::Paragraph => if self.in_item() { self } else { self.finish() },
            MdTag::Heading(_) => self.finish(),
            MdTag::Item => self.finish(),
            MdTag::TableRow => self.finish(),
            MdTag::FootnoteDefinition => self.finish(),
            MdTag::CodeBlock => {
                let b = self.finish();
                BuilderV {
                    style: InlineStyle { code: less_one(b.style.code), ..b.style },
                    ..b
                }
            },
            MdTag::BlockQuote => BuilderV {
                quote_depth: if self.quote_depth == 0 {
                    0
                } else {
                    (self.quote_depth - 1) as nat
                },
                ..self
            },
            MdTag::List => {
                let b = self.finish();
                BuilderV {
                    lists: if b.lists.len() == 0 { b.lists } else { b.lists.drop_last() },
                    ..b
                }
            },
            MdTag::Emphasis => BuilderV {
                style: InlineStyle { emphasis: less_one(self.style.emphasis), ..self.style },
                ..self
            },
            MdTag::Strong => BuilderV {
                style: InlineStyle { strong: less_one(self.style.strong), ..self.style },
                ..self
            },
            MdTag::Strikethrough => BuilderV {
                style: InlineStyle {
                    strikethrough: less_one(self.style.strikethrough),
                    ..self.style
                },
                ..self
            },
            MdTag::Link => {
                let b = BuilderV {
                    style: InlineStyle { link: false, ..self.style },
                    link_url: None,
                    ..self
                };
                match self.link_url {
                    Some(url) => b.push(" ("@ + url + ")"@),
                    None => b,
                }
            },
            MdTag::Image => match self.image_url {
                Some(url) => BuilderV { image_url: None, ..self }.push(
                    " [image: "@ + url + "]"@,
                ),
                None => self,
            },
            _ => self,
        }
    }

    /// One step through the text.
    pub open spec fn step(self, event: MdEventV) -> BuilderV {
        match event {
            MdEventV::Start { tag, number, text } => self.start(tag, number, text),
            MdEventV::End(tag) => self.end(tag),
            MdEventV::Text(text) => self.push(text),
            MdEventV::Code(text) => {
                let code = InlineStyle { code: (self.style.code + 1) as usize, ..self.style };
                BuilderV { style: self.style, ..BuilderV { style: code, ..self }.push(text) }
            },
            MdEventV::Html(html) => self.push(html),
            MdEventV::InlineHtml(html) => self.push(html),
            MdEventV::SoftBreak => self.push(" "@),
            MdEventV::HardBreak => self.push("\n"@),
            MdEventV::Rule => self.finish().begin(BlockKind::Rule).finish(),
            MdEventV::TaskListMarker(checked) => self.push(if checked { "☑ "@ } else { "☐ "@ }),
            MdEventV::FootnoteReference(label) => self.push("[^"@ + label + "]"@),
            MdEventV::InlineMath(math) => self.push("$"@ + math + "$"@),
            MdEventV::DisplayMath(math) => self.push("$$"@ + math + "$$"@),
        }
    }
}

/// The builder after the first `n` events.
pub open spec fn built(events: Seq<MdEventV>, n: int) -> BuilderV
    decreases n,
{
    if n <= 0 { empty_builder() } else { built(events, n - 1).step(events[n - 1]) }
}

/// The blocks of a preview of these events.
pub open spec fn blocks_of(events: Seq<MdEventV>) -> Seq<BlockV> {
    built(events, events.len() as int).finish().blocks
}

/// Law: every block of a preview is a rule or has text to show.
pub proof fn law_blocks_have_content(events: Seq<MdEventV>)
    ensures
        forall|i: int| 0 <= i < blocks_of(events).len() ==> has_content(#[trigger] blocks_of(events)[i]),
{
    lemma_built_content(events, events.len() as int);
    lemma_finish_content(built(events, events.len() as int));
}

pub open spec fn all_content(blocks: Seq<BlockV>) -> bool {
    forall|i: int| 0 <= i < blocks.len() ==> has_content(#[trigger] blocks[i])
}

proof fn lemma_finish_content(b: BuilderV)
    requires
        all_content(b.blocks),
    ensures
        all_content(b.finish().blocks),
{
}

proof fn lemma_built_content(events: Seq<MdEventV>, n: int)
    ensures
        all_content(built(events, n).blocks),
    decreases n,
{
    if n > 0 {
        lemma_built_content(events, n - 1);
        let b = built(events, n - 1);
        lemma_finish_content(b);
        lemma_finish_content(b.finish().begin(BlockKind::Rule));
    }
}

/// Law: an element that leaves no mark changes nothing, where it begins and
/// where it ends: the preview shows what stands in it and no more.
pub proof fn law_some_elements_leave_no_mark(
    b: BuilderV,
    tag: MdTag,
    number: Option<u64>,
    text: Seq<char>,
)
    requires
        leaves_no_mark(tag),
    ensures
        b.step(MdEventV::Start { tag, number, text }) == b,
        b.step(MdEventV::End(tag)) == b,
{
}

/// Law: HTML is shown letter by letter. Whatever the markup is, in a block of
/// its own or among other text, it becomes a span of exactly that text, in the
/// style that is in force.
pub proof fn law_html_stays_text(b: BuilderV, html: Seq<char>)
    requires
        html.len() > 0,
    ensures
        b.step(MdEventV::Html(html)).current is Some,
        b.step(MdEventV::Html(html)).current->0.spans.last() == (SpanV { text: html, style: b.style }),
        b.step(MdEventV::Html(html)).blocks == b.blocks,
        b.step(MdEventV::InlineHtml(html)) == b.step(MdEventV::Html(html)),
{
}

/// Law: an image shows its alternative text, which has been added already, and
/// then its address.
pub proof fn law_image_shows_address(b: BuilderV, url: Seq<char>)
    requires
        b.image_url == Some(url),
    ensures
        b.step(MdEventV::End(MdTag::Image)).current is Some,
        b.step(MdEventV::End(MdTag::Image)).current->0.spans.last().text == " [image: "@ + url + "]"@,
        b.current matches Some(open) ==> b.step(MdEventV::End(MdTag::Image)).current->0.spans.drop_last()
            == open.spans,
{
    reveal_strlit(" [image: ");
    let after = b.step(MdEventV::End(MdTag::Image));
    if let Some(open) = b.current {
        assert(after.current->0.spans.drop_last() =~= open.spans);
    }
}

// ----- building -----

/// A preview while it is built.
pub struct MarkdownBuilder {
    blocks: Vec<Block>,
    current: Option<Block>,
    style: InlineStyle,
    quote_depth: usize,
    lists: Vec<ListState>,
    link_url: Option<String>,
    image_url: Option<String>,
}

impl View for MarkdownBuilder {
    type V = BuilderV;

    closed spec fn view(&self) -> BuilderV {
        BuilderV {
            blocks: blocks_view(self.blocks@),
            current: opt_block(self.current),
            style: self.style,
            quote_depth: self.quote_depth as nat,
            lists: self.lists@,
            link_url: crate::buffer::opt_text(self.link_url),
            image_url: crate::buffer::opt_text(self.image_url),
        }
    }
}

/// No counter is larger than `n`.
pub open spec fn counters_within(b: BuilderV, n: int) -> bool {
    &&& b.style.strong <= n
    &&& b.style.emphasis <= n
    &&& b.style.strikethrough <= n
    &&& b.style.code <= n
    &&& b.quote_depth <= n
}

impl MarkdownBuilder {
    pub fn new() -> (r: MarkdownBuilder)
        ensures
            r@ == empty_builder(),
    {
        let r = MarkdownBuilder {
            blocks: Vec::new(),
            current: None,
            style: InlineStyle { strong: 0, emphasis: 0, strikethrough: 0, code: 0, link: false },
            quote_depth: 0,
            lists: Vec::new(),
            link_url: None,
            image_url: None,
        };
        assert(r@ =~= empty_builder());
        r
    }

    /// Begin a block, unless one is open.
    pub fn begin(&mut self, kind: BlockKind)
        ensures
            final(self)@ == old(self)@.begin(kind),
    {
        if self.current.is_none() {
            let spans: Vec<Span> = Vec::new();
            assert(spans_view(spans@) =~= seq![]);
            self.current = Some(
                Block {
                    kind,
                    spans,
                    quoted: self.quote_depth > 0,
                    list_marker: None,
                    list_depth: 0,
                },
            );
        }
    }

    /// Add text to the open block, or to a new paragraph.
    pub fn push(&mut self, text: String)
        ensures
            final(self)@ == old(self)@.push(text@),
    {
        self.begin(BlockKind::Paragraph);
        if text.as_str().is_empty() {
            return;
        }
        let taken: Option<Block> = self.current.take();
        if let Some(block) = taken {
            let mut block: Block = block;
            let ghost before = block.spans@;
            block.spans.push(Span { text, style: self.style });
            assert(spans_view(block.spans@) =~= spans_view(before).push(
                SpanV { text: text@, style: self.style },
            ));
            self.current = Some(block);
        }
    }

    /// Finish the open block; one without text is dropped.
    pub fn finish(&mut self)
        ensures
            final(self)@ == old(self)@.finish(),
    {
        let taken: Option<Block> = self.current.take();
        if let Some(block) = taken {
            let mut worth: bool = block.kind == BlockKind::Rule;
            let mut i: usize = 0;
            while i < block.spans.len()
                invariant
                    i <= block.spans.len(),
                    worth == (block.kind == BlockKind::Rule || exists|k: int|
                        0 <= k < i && (#[trigger] block@.spans[k]).text.len() > 0),
                decreases block.spans.len() - i,
            {
                assert(block@.spans[i as int].text == block.spans@[i as int].text@);
                if !block.spans[i].text.as_str().is_empty() {
                    worth = true;
                }
                i += 1;
            }
            let ghost before = self.blocks@;
            if worth {
                self.blocks.push(block);
                assert(blocks_view(self.blocks@) =~= blocks_view(before).push(block@));
            }
            assert(self@ =~= old(self)@.finish());
        }
    }

    /// Begin an item of the innermost list.
    pub fn start_item(&mut self)
        ensures
            final(self)@ == old(self)@.start_item(),
    {
        self.finish();
        let n: usize = self.lists.len();
        let depth: usize = if n == 0 { 0 } else { n - 1 };
        let mut marker: String = String::new();
        if n > 0 && self.lists[n - 1].ordered {
            let list: ListState = self.lists[n - 1];
            push_decimal(&mut marker, list.next);
            marker.push('.');
            assert(marker@ =~= item_marker(self.lists@));
            self.lists.set(
                n - 1,
                ListState { next: list.next.saturating_add(1), ordered: true },
            );
        } else {
            marker = "•".to_owned();
        }
        self.begin(BlockKind::ListItem);
        let taken: Option<Block> = self.current.take();
        if let Some(block) = taken {
            let mut block: Block = block;
            block.list_marker = Some(marker);
            block.list_depth = depth;
            self.current = Some(block);
        }
        assert(self@ =~= old(self)@.start_item());
    }

    fn push_str(&mut self, text: &str)
        ensures
            final(self)@ == old(self)@.push(text@),
    {
        self.push(text.to_owned());
    }

    fn push_wrapped(&mut self, before: &str, text: &String, after: &str)
        ensures
            final(self)@ == old(self)@.push(before@ + text@ + after@),
    {
        let mut all: String = before.to_owned();
        all.append(text.as_str());
        all.append(after);
        self.push(all);
    }

    fn start(&mut self, tag: MdTag, number: Option<u64>, text: &String)
        requires
            counters_within(old(self)@, usize::MAX - 1),
        ensures
            final(self)@ == old(self)@.start(tag, number, text@),
    {
        match tag {
            MdTag::Paragraph => self.begin(BlockKind::Paragraph),
            MdTag::Heading(level) => {
                self.finish();
                self.begin(BlockKind::Heading(level));
            },
            MdTag::BlockQuote => {
                self.quote_depth = self.quote_depth + 1;
            },
            MdTag::CodeBlock => {
                self.finish();
                self.begin(BlockKind::Code);
                self.style.code = self.style.code + 1;
            },
            MdTag::List => {
                let next: u64 = match number {
                    Some(n) => n,
                    None => 1,
                };
                self.lists.push(ListState { next, ordered: number.is_some() });
            },
            MdTag::Item => self.start_item(),
            MdTag::Emphasis => {
                self.style.emphasis = self.style.emphasis + 1;
            },
            MdTag::Strong => {
                self.style.strong = self.style.strong + 1;
            },
            MdTag::Strikethrough => {
                self.style.strikethrough = self.style.strikethrough + 1;
            },
            MdTag::Link => {
                self.style.link = true;
                self.link_url = Some(text.clone());
            },
            MdTag::Image => {
                self.image_url = Some(text.clone());
            },
            MdTag::FootnoteDefinition => {
                self.finish();
                self.begin(BlockKind::Paragraph);
                self.style.strong = self.style.strong + 1;
                self.push_wrapped("[^", text, "]: ");
                self.style.strong = self.style.strong - 1;
            },
            MdTag::TableRow => {
                self.finish();
                self.begin(BlockKind::Paragraph);
            },
            MdTag::TableCell => {
                let filled: bool = match &self.current {
                    Some(block) => block.spans.len() > 0,
                    None => false,
                };
                if filled {
                    self.push_str(" | ");
                }
            },
            _ => {},
        }
    }

    fn end(&mut self, tag: MdTag)
        ensures
            final(self)@ == old(self)@.end(tag),
    {
        match tag {
            MdTag::Paragraph => {
                let in_item: bool = match &self.current {
                    Some(block) => block.kind == BlockKind::ListItem,
                    None => false,
                };
                if !in_item {
                    self.finish();
                }
            },
            MdTag::Heading(_) | MdTag::Item | MdTag::TableRow | MdTag::FootnoteDefinition => {
                self.finish();
            },
            MdTag::CodeBlock => {
                self.finish();
                self.style.code = self.style.code.saturating_sub(1);
            },
            MdTag::BlockQuote => {
                self.quote_depth = self.quote_depth.saturating_sub(1);
            },
            MdTag::List => {
                self.finish();
                let _ = self.lists.pop();
            },
            MdTag::Emphasis => {
                self.style.emphasis = self.style.emphasis.saturating_sub(1);
            },
            MdTag::Strong => {
                self.style.strong = self.style.strong.saturating_sub(1);
            },
            MdTag::Strikethrough => {
                self.style.strikethrough = self.style.strikethrough.saturating_sub(1);
            },
            MdTag::Link => {
                self.style.link = false;
                let url: Option<String> = self.link_url.take();
                if let Some(url) = url {
                    self.push_wrapped(" (", &url, ")");
                }
            },
            MdTag::Image => {
                let url: Option<String> = self.image_url.take();
                if let Some(url) = url {
                    self.push_wrapped(" [image: ", &url, "]");
                }
            },
            _ => {},
        }
        assert(self@ =~= old(self)@.end(tag));
    }

    /// Take one step through the text.
    pub fn step(&mut self, event: &MdEvent)
        requires
            counters_within(old(self)@, usize::MAX - 1),
        ensures
            final(self)@ == old(self)@.step(event@),
    {
        match event {
            MdEvent::Start { tag, number, text } => self.start(*tag, *number, text),
            MdEvent::End(tag) => self.end(*tag),
            MdEvent::Text(text) => self.push_str(text.as_str()),
            MdEvent::Code(text) => {
                let previous: usize = self.style.code;
                self.style.code = previous + 1;
                self.push_str(text.as_str());
                self.style.code = previous;
            },
            MdEvent::Html(html) => self.push_str(html.as_str()),
            MdEvent::InlineHtml(html) => self.push_str(html.as_str()),
            MdEvent::SoftBreak => self.push_str(" "),
            MdEvent::HardBreak => self.push_str("\n"),
            MdEvent::Rule => {
                self.finish();
                self.begin(BlockKind::Rule);
                self.finish();
            },
            MdEvent::TaskListMarker(checked) => {
                if *checked {
                    self.push_str("☑ ");
                } else {
                    self.push_str("☐ ");
                }
            },
            MdEvent::FootnoteReference(label) => self.push_wrapped("[^", label, "]"),
            MdEvent::InlineMath(math) => self.push_wrapped("$", math, "$"),
            MdEvent::DisplayMath(math) => self.push_wrapped("$$", math, "$$"),
        }
    }
}

/// One step opens at most one element.
#[verifier::spinoff_prover]
proof fn lemma_step_counters(b: BuilderV, e: MdEventV, n: int)
    requires
        counters_within(b, n),
        0 <= n < usize::MAX,
    ensures
        counters_within(b.step(e), n + 1),
{
    match e {
        MdEventV::Start { tag, number, text } => {
            lemma_start_counters(b, tag, number, text, n);
        },
        MdEventV::End(tag) => {
            lemma_end_counters(b, tag, n);
        },
        _ => {},
    }
}

proof fn lemma_start_counters(
    b: BuilderV,
    tag: MdTag,
    number: Option<u64>,
    text: Seq<char>,
    n: int,
)
    requires
        counters_within(b, n),
        0 <= n < usize::MAX,
    ensures
        counters_within(b.start(tag, number, text), n + 1),
{
    assert(b.finish().style == b.style && b.finish().quote_depth == b.quote_depth);
    assert(b.start_item().style == b.style && b.start_item().quote_depth == b.quote_depth);
    assert(b.push(" | "@).style == b.style && b.push(" | "@).quote_depth == b.quote_depth);
}

proof fn lemma_end_counters(b: BuilderV, tag: MdTag, n: int)
    requires
        counters_within(b, n),
        0 <= n < usize::MAX,
    ensures
        counters_within(b.end(tag), n + 1),
{
    assert(b.finish().style == b.style && b.finish().quote_depth == b.quote_depth);
}

/// Each event opens at most one element.
proof fn lemma_counters(events: Seq<MdEventV>, n: int)
    requires
        0 <= n <= events.len() <= usize::MAX,
    ensures
        counters_within(built(events, n), n),
    decreases n,
{
    if n > 0 {
        lemma_counters(events, n - 1);
        lemma_step_counters(built(events, n - 1), events[n - 1], n - 1);
    }
}

/// Build the blocks of a preview from the events of a text.
pub fn build_blocks(events: &Vec<MdEvent>) -> (r: Vec<Block>)
    ensures
        blocks_view(r@) == blocks_of(events_view(events@)),
{
    let ghost views = events_view(events@);
    let mut builder = MarkdownBuilder::new();
    let mut i: usize = 0;
    while i < events.len()
        invariant
            i <= events.len(),
            views == events_view(events@),
            builder@ == built(views, i as int),
        decreases events.len() - i,
    {
        proof {
            lemma_counters(views, i as int);
        }
        builder.step(&events[i]);
        i += 1;
    }
    builder.finish();
    builder.blocks
}

/// The extensions that a preview reads.
pub open spec fn preview_extensions() -> Extensions {
    Extensions { strikethrough: true, tables: true, tasklists: true, footnotes: true }
}

/// The blocks of a Markdown text.
pub fn parse(markdown: &str) -> (r: Vec<Block>)
    ensures
        blocks_view(r@) == blocks_of(markdown_events(markdown@, preview_extensions())),
{
    let extensions = Extensions {
        strikethrough: true,
        tables: true,
        tasklists: true,
        footnotes: true,
    };
    let events: Vec<MdEvent> = read_events(markdown, extensions);
    build_blocks(&events)
}

/// Parsed blocks of a Markdown document, for one revision of it.
pub struct MarkdownPreview {
    pub key: Option<(u64, u64)>,
    pub blocks: Vec<Block>,
}

impl MarkdownPreview {
    /// A preview of nothing.
    pub fn new() -> (r: MarkdownPreview)
        ensures
            r.key is None,
            blocks_view(r.blocks@) == Seq::<BlockV>::empty(),
    {
        let r = MarkdownPreview { key: None, blocks: Vec::new() };
        assert(blocks_view(r.blocks@) =~= Seq::<BlockV>::empty());
        r
    }

    /// Whether the preview is of another document or another revision.
    pub fn needs_refresh(&self, key: (u64, u64)) -> (r: bool)
        ensures
            r == (self.key != Some(key)),
    {
        match self.key {
            Some(k) => k.0 != key.0 || k.1 != key.1,
            None => true,
        }
    }

    /// Read `markdown` as the document with identity and revision `key`.
    pub fn refresh(&mut self, key: (u64, u64), markdown: &str)
        ensures
            final(self).key == Some(key),
            blocks_view(final(self).blocks@) == blocks_of(
                markdown_events(markdown@, preview_extensions()),
            ),
    {
        self.blocks = parse(markdown);
        self.key = Some(key);
    }
}

} // verus!

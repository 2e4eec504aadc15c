//! How Markdown and CSV documents are presented.

use vstd::prelude::*;

use crate::text::same_text;

verus! {

/// How a Markdown document is presented.
#[derive(Debug, Clone, Copy, PartialEq, Eq, Structural)]
pub enum MarkdownPreviewMode {
    Source,
    Split,
    Preview,
}

/// How a CSV document is presented.
#[derive(Debug, Clone, Copy, PartialEq, Eq, Structural)]
pub enum CsvPreviewMode {
    Source,
    Table,
}

impl Default for MarkdownPreviewMode {
    fn default() -> (r: MarkdownPreviewMode)
        ensures
            r == MarkdownPreviewMode::Source,
    {
        MarkdownPreviewMode::Source
    }
}

impl Default for CsvPreviewMode {
    fn default() -> (r: CsvPreviewMode)
        ensures
            r == CsvPreviewMode::Source,
    {
        CsvPreviewMode::Source
    }
}

impl CsvPreviewMode {
    /// The modes in the order in which they are offered.
    pub fn all() -> (r: [CsvPreviewMode; 2])
        ensures
            r@ == seq![CsvPreviewMode::Source, CsvPreviewMode::Table],
    {
        [CsvPreviewMode::Source, CsvPreviewMode::Table]
    }

    pub open spec fn label_spec(self) -> Seq<char> {
        match self {
            CsvPreviewMode::Source => "Source"@,
            CsvPreviewMode::Table => "Table"@,
        }
    }

    /// The mode with a label.
    pub open spec fn of_label(label: Seq<char>) -> Option<CsvPreviewMode> {
        if label == "Source"@ {
            Some(CsvPreviewMode::Source)
        } else if label == "Table"@ {
            Some(CsvPreviewMode::Table)
        } else {
            None
        }
    }

    pub fn label(self) -> (r: &'static str)
        ensures
            r@ == self.label_spec(),
    {
        match self {
            CsvPreviewMode::Source => "Source",
            CsvPreviewMode::Table => "Table",
        }
    }

    pub fn from_label(label: &str) -> (r: Option<CsvPreviewMode>)
        ensures
            r == CsvPreviewMode::of_label(label@),
    {
        if same_text(label, "Source") {
            Some(CsvPreviewMode::Source)
        } else if same_text(label, "Table") {
            Some(CsvPreviewMode::Table)
        } else {
            None
        }
    }
}

impl MarkdownPreviewMode {
    /// The modes in the order in which they are offered.
    pub fn all() -> (r: [MarkdownPreviewMode; 3])
        ensures
            r@ == seq![
                MarkdownPreviewMode::Source,
                MarkdownPreviewMode::Split,
                MarkdownPreviewMode::Preview,
            ],
    {
        [MarkdownPreviewMode::Source, MarkdownPreviewMode::Split, MarkdownPreviewMode::Preview]
    }

    pub open spec fn label_spec(self) -> Seq<char> {
        match self {
            MarkdownPreviewMode::Source => "Source"@,
            MarkdownPreviewMode::Split => "Split"@,
            MarkdownPreviewMode::Preview => "Preview"@,
        }
    }

    /// The mode with a label.
    pub open spec fn of_label(label: Seq<char>) -> Option<MarkdownPreviewMode> {
        if label == "Source"@ {
            Some(MarkdownPreviewMode::Source)
        } else if label == "Split"@ {
            Some(MarkdownPreviewMode::Split)
        } else if label == "Preview"@ {
            Some(MarkdownPreviewMode::Preview)
        } else {
            None
        }
    }

    /// Source, then split, then preview, then source again.
    pub open spec fn next_spec(self) -> MarkdownPreviewMode {
        match self {
            MarkdownPreviewMode::Source => MarkdownPreviewMode::Split,
            MarkdownPreviewMode::Split => MarkdownPreviewMode::Preview,
            MarkdownPreviewMode::Preview => MarkdownPreviewMode::Source,
        }
    }

    pub fn label(self) -> (r: &'static str)
        ensures
            r@ == self.label_spec(),
    {
        match self {
            MarkdownPreviewMode::Source => "Source",
            MarkdownPreviewMode::Split => "Split",
            MarkdownPreviewMode::Preview => "Preview",
        }
    }

    pub fn from_label(label: &str) -> (r: Option<MarkdownPreviewMode>)
        ensures
            r == MarkdownPreviewMode::of_label(label@),
    {
        if same_text(label, "Source") {
            Some(MarkdownPreviewMode::Source)
        } else if same_text(label, "Split") {
            Some(MarkdownPreviewMode::Split)
        } else if same_text(label, "Preview") {
            Some(MarkdownPreviewMode::Preview)
        } else {
            None
        }
    }

    pub fn next(self) -> (r: MarkdownPreviewMode)
        ensures
            r == self.next_spec(),
    {
        match self {
            MarkdownPreviewMode::Source => MarkdownPreviewMode::Split,
            MarkdownPreviewMode::Split => MarkdownPreviewMode::Preview,
            MarkdownPreviewMode::Preview => MarkdownPreviewMode::Source,
        }
    }
}

/// Law: three steps through the Markdown modes come back to the first, and
/// fewer do not.
pub proof fn law_markdown_modes_cycle(mode: MarkdownPreviewMode)
    ensures
        mode.next_spec().next_spec().next_spec() == mode,
        mode.next_spec() != mode,
        mode.next_spec().next_spec() != mode,
{
}

/// Law: a mode is found again by its label, and only by that.
pub proof fn law_labels_round_trip(
    markdown: MarkdownPreviewMode,
    csv: CsvPreviewMode,
    label: Seq<char>,
)
    ensures
        MarkdownPreviewMode::of_label(label) == Some(markdown) <==> label == markdown.label_spec(),
        CsvPreviewMode::of_label(label) == Some(csv) <==> label == csv.label_spec(),
{
    reveal_strlit("Source");
    reveal_strlit("Split");
    reveal_strlit("Preview");
    reveal_strlit("Table");
    assert("Source"@[1] != "Split"@[1]);
    assert("Source"@[0] != "Preview"@[0]);
    assert("Split"@[0] != "Preview"@[0]);
    assert("Source"@[0] != "Table"@[0]);
}

} // verus!

//! The flat token vocabulary: open and close markers for container
//! constructs, and leaf tokens, as an external tokenizer emits them.
//!
//! String-like payloads are held as owned [`String`]s, so a token stream and
//! the trees built from it do not borrow the source text. The spec-level
//! views ([`TagView`], [`EventView`]) replace every `String` by `Seq<char>`
//! and every `Vec` by `Seq`.

use vstd::prelude::*;

verus! {

/// Heading level of a heading container, `H1` for the outermost level
/// through `H6` for the innermost.
#[derive(Debug, Clone, Copy, PartialEq, Eq, Structural, Hash)]
pub enum HeadingLevel {
    H1,
    H2,
    H3,
    H4,
    H5,
    H6,
}

/// Text alignment of one table column; `Unspecified` is the default
/// alignment, for a column the source gives no alignment for.
#[derive(Debug, Clone, Copy, PartialEq, Eq, Structural, Hash)]
pub enum Alignment {
    Unspecified,
    Left,
    Center,
    Right,
}

/// Kind of an admonition block quote (`> [!NOTE]` and friends); a plain
/// block quote carries no kind.
#[derive(Debug, Clone, Copy, PartialEq, Eq, Structural, Hash)]
pub enum BlockQuoteKind {
    Note,
    Tip,
    Important,
    Warning,
    Caution,
}

/// Delimiter style of a raw metadata block.
#[derive(Debug, Clone, Copy, PartialEq, Eq, Structural, Hash)]
pub enum MetadataBlockKind {
    YamlStyle,
    PlusesStyle,
}

/// How a link or image was written down in the source.
#[derive(Debug, Clone, Copy, PartialEq, Eq, Structural, Hash)]
pub enum LinkType {
    Inline,
    Reference,
    ReferenceUnknown,
    Collapsed,
    CollapsedUnknown,
    Shortcut,
    ShortcutUnknown,
    Autolink,
    Email,
    WikiLink { has_pothole: bool },
}

/// Kind of a code block: indented, or fenced with a language string (which
/// may be empty).
#[derive(Debug, Clone, PartialEq, Eq, Hash)]
pub enum CodeBlockKind {
    Indented,
    Fenced(String),
}

/// Spec-level view of [`CodeBlockKind`].
pub enum CodeBlockKindView {
    Indented,
    Fenced(Seq<char>),
}

impl DeepView for CodeBlockKind {
    type V = CodeBlockKindView;

    open spec fn deep_view(&self) -> CodeBlockKindView {
        match self {
            CodeBlockKind::Indented => CodeBlockKindView::Indented,
            CodeBlockKind::Fenced(lang) => CodeBlockKindView::Fenced(lang.deep_view()),
        }
    }
}

/// An open marker: which container construct opens here, with the
/// kind-specific metadata it carries.
#[derive(Debug, Clone, PartialEq, Eq, Hash)]
pub enum Tag {
    Paragraph,
    Heading {
        level: HeadingLevel,
        id: Option<String>,
        classes: Vec<String>,
        attrs: Vec<(String, Option<String>)>,
    },
    BlockQuote(Option<BlockQuoteKind>),
    CodeBlock(CodeBlockKind),
    HtmlBlock,
    /// A list; for an ordered list the field holds the number of the first
    /// item.
    List(Option<u64>),
    Item,
    /// A footnote definition, carrying the footnote's label.
    FootnoteDefinition(String),
    /// A table, carrying the text alignment of each of its columns.
    Table(Vec<Alignment>),
    TableHead,
    TableRow,
    TableCell,
    Emphasis,
    Strong,
    Strikethrough,
    Link { link_type: LinkType, dest_url: String, title: String, id: String },
    Image { link_type: LinkType, dest_url: String, title: String, id: String },
    MetadataBlock(MetadataBlockKind),
}

/// Spec-level view of [`Tag`].
pub enum TagView {
    Paragraph,
    Heading {
        level: HeadingLevel,
        id: Option<Seq<char>>,
        classes: Seq<Seq<char>>,
        attrs: Seq<(Seq<char>, Option<Seq<char>>)>,
    },
    BlockQuote(Option<BlockQuoteKind>),
    CodeBlock(CodeBlockKindView),
    HtmlBlock,
    List(Option<u64>),
    Item,
    FootnoteDefinition(Seq<char>),
    Table(Seq<Alignment>),
    TableHead,
    TableRow,
    TableCell,
    Emphasis,
    Strong,
    Strikethrough,
    Link { link_type: LinkType, dest_url: Seq<char>, title: Seq<char>, id: Seq<char> },
    Image { link_type: LinkType, dest_url: Seq<char>, title: Seq<char>, id: Seq<char> },
    MetadataBlock(MetadataBlockKind),
}

impl DeepView for Alignment {
    type V = Alignment;

    open spec fn deep_view(&self) -> Alignment {
        *self
    }
}

impl DeepView for Tag {
    type V = TagView;

    open spec fn deep_view(&self) -> TagView {
        match self {
            Tag::Paragraph => TagView::Paragraph,
            Tag::Heading { level, id, classes, attrs } => TagView::Heading {
                level: *level,
                id: id.deep_view(),
                classes: classes.deep_view(),
                attrs: attrs.deep_view(),
            },
            Tag::BlockQuote(kind) => TagView::BlockQuote(*kind),
            Tag::CodeBlock(kind) => TagView::CodeBlock(kind.deep_view()),
            Tag::HtmlBlock => TagView::HtmlBlock,
            Tag::List(start) => TagView::List(*start),
            Tag::Item => TagView::Item,
            Tag::FootnoteDefinition(label) => TagView::FootnoteDefinition(label.deep_view()),
            Tag::Table(alignments) => TagView::Table(alignments.deep_view()),
            Tag::TableHead => TagView::TableHead,
            Tag::TableRow => TagView::TableRow,
            Tag::TableCell => TagView::TableCell,
            Tag::Emphasis => TagView::Emphasis,
            Tag::Strong => TagView::Strong,
            Tag::Strikethrough => TagView::Strikethrough,
            Tag::Link { link_type, dest_url, title, id } => TagView::Link {
                link_type: *link_type,
                dest_url: dest_url.deep_view(),
                title: title.deep_view(),
                id: id.deep_view(),
            },
            Tag::Image { link_type, dest_url, title, id } => TagView::Image {
                link_type: *link_type,
                dest_url: dest_url.deep_view(),
                title: title.deep_view(),
                id: id.deep_view(),
            },
            Tag::MetadataBlock(kind) => TagView::MetadataBlock(*kind),
        }
    }
}

/// A close marker: the kind-identity of the container being closed.
#[derive(Debug, Clone, Copy, PartialEq, Eq, Structural, Hash)]
pub enum TagEnd {
    Paragraph,
    Heading(HeadingLevel),
    BlockQuote(Option<BlockQuoteKind>),
    CodeBlock,
    HtmlBlock,
    /// A list, `true` for ordered lists.
    List(bool),
    Item,
    FootnoteDefinition,
    Table,
    TableHead,
    TableRow,
    TableCell,
    Emphasis,
    Strong,
    Strikethrough,
    Link,
    Image,
    MetadataBlock(MetadataBlockKind),
}

/// Whether two open tags name the same container kind, whatever metadata
/// they carry. The rewriting traversal preserves this for every visitor:
/// hooks receive a tag's metadata fields, never the tag itself, so the
/// container kind — and with it the close kind the group corresponds to —
/// cannot change.
pub open spec fn same_tag_kind(a: Tag, b: Tag) -> bool {
    match a {
        Tag::Paragraph => b is Paragraph,
        Tag::Heading { .. } => b is Heading,
        Tag::BlockQuote(_) => b is BlockQuote,
        Tag::CodeBlock(_) => b is CodeBlock,
        Tag::HtmlBlock => b is HtmlBlock,
        Tag::List(_) => b is List,
        Tag::Item => b is Item,
        Tag::FootnoteDefinition(_) => b is FootnoteDefinition,
        Tag::Table(_) => b is Table,
        Tag::TableHead => b is TableHead,
        Tag::TableRow => b is TableRow,
        Tag::TableCell => b is TableCell,
        Tag::Emphasis => b is Emphasis,
        Tag::Strong => b is Strong,
        Tag::Strikethrough => b is Strikethrough,
        Tag::Link { .. } => b is Link,
        Tag::Image { .. } => b is Image,
        Tag::MetadataBlock(_) => b is MetadataBlock,
    }
}

impl DeepView for TagEnd {
    type V = TagEnd;

    open spec fn deep_view(&self) -> TagEnd {
        *self
    }
}

/// The close kind that matches an open tag, at the spec level.
pub open spec fn spec_to_end(tag: TagView) -> TagEnd {
    match tag {
        TagView::Paragraph => TagEnd::Paragraph,
        TagView::Heading { level, .. } => TagEnd::Heading(level),
        TagView::BlockQuote(kind) => TagEnd::BlockQuote(kind),
        TagView::CodeBlock(_) => TagEnd::CodeBlock,
        TagView::HtmlBlock => TagEnd::HtmlBlock,
        TagView::List(start) => TagEnd::List(start is Some),
        TagView::Item => TagEnd::Item,
        TagView::FootnoteDefinition(_) => TagEnd::FootnoteDefinition,
        TagView::Table(_) => TagEnd::Table,
        TagView::TableHead => TagEnd::TableHead,
        TagView::TableRow => TagEnd::TableRow,
        TagView::TableCell => TagEnd::TableCell,
        TagView::Emphasis => TagEnd::Emphasis,
        TagView::Strong => TagEnd::Strong,
        TagView::Strikethrough => TagEnd::Strikethrough,
        TagView::Link { .. } => TagEnd::Link,
        TagView::Image { .. } => TagEnd::Image,
        TagView::MetadataBlock(kind) => TagEnd::MetadataBlock(kind),
    }
}

impl Tag {
    /// The close kind that matches this open tag.
    pub fn to_end(&self) -> (r: TagEnd)
        ensures
            r == spec_to_end(self.deep_view()),
    {
        match self {
            Tag::Paragraph => TagEnd::Paragraph,
            Tag::Heading { level, .. } => TagEnd::Heading(*level),
            Tag::BlockQuote(kind) => TagEnd::BlockQuote(*kind),
            Tag::CodeBlock(_) => TagEnd::CodeBlock,
            Tag::HtmlBlock => TagEnd::HtmlBlock,
            Tag::List(start) => TagEnd::List(start.is_some()),
            Tag::Item => TagEnd::Item,
            Tag::FootnoteDefinition(_) => TagEnd::FootnoteDefinition,
            Tag::Table(_) => TagEnd::Table,
            Tag::TableHead => TagEnd::TableHead,
            Tag::TableRow => TagEnd::TableRow,
            Tag::TableCell => TagEnd::TableCell,
            Tag::Emphasis => TagEnd::Emphasis,
            Tag::Strong => TagEnd::Strong,
            Tag::Strikethrough => TagEnd::Strikethrough,
            Tag::Link { .. } => TagEnd::Link,
            Tag::Image { .. } => TagEnd::Image,
            Tag::MetadataBlock(kind) => TagEnd::MetadataBlock(*kind),
        }
    }
}

/// Copy an optional owned string, keeping its contents.
fn copy_opt_string(v: &Option<String>) -> (r: Option<String>)
    ensures
        r == v,
{
    match v {
        Option::Some(s) => Option::Some(s.clone()),
        Option::None => Option::None,
    }
}

/// Copy a vector of owned strings, keeping its contents.
fn copy_strings(v: &Vec<String>) -> (r: Vec<String>)
    ensures
        r.deep_view() == v.deep_view(),
{
    let mut r: Vec<String> = Vec::new();
    let n = v.len();
    for i in 0..n
        invariant
            n == v.len(),
            r@.len() == i,
            forall|j: int| 0 <= j < i ==> r@[j] == v@[j],
    {
        r.push(v[i].clone());
    }
    proof {
        assert forall|j: int| 0 <= j < r@.len() implies r@[j].deep_view() == v@[
            j
        ].deep_view() by {}
        assert(r.deep_view() =~= v.deep_view());
    }
    r
}

/// Copy a vector of attribute pairs, keeping its contents.
fn copy_attrs(v: &Vec<(String, Option<String>)>) -> (r: Vec<(String, Option<String>)>)
    ensures
        r.deep_view() == v.deep_view(),
{
    let mut r: Vec<(String, Option<String>)> = Vec::new();
    let n = v.len();
    for i in 0..n
        invariant
            n == v.len(),
            r@.len() == i,
            forall|j: int| 0 <= j < i ==> r@[j] == v@[j],
    {
        r.push((v[i].0.clone(), copy_opt_string(&v[i].1)));
    }
    proof {
        assert forall|j: int| 0 <= j < r@.len() implies r@[j].deep_view() == v@[
            j
        ].deep_view() by {}
        assert(r.deep_view() =~= v.deep_view());
    }
    r
}

/// Copy a vector of column alignments.
fn copy_alignments(v: &Vec<Alignment>) -> (r: Vec<Alignment>)
    ensures
        r.deep_view() == v.deep_view(),
{
    let mut r: Vec<Alignment> = Vec::new();
    let n = v.len();
    for i in 0..n
        invariant
            n == v.len(),
            r@.len() == i,
            forall|j: int| 0 <= j < i ==> r@[j] == v@[j],
    {
        r.push(v[i]);
    }
    proof {
        assert(r.deep_view() =~= v.deep_view());
    }
    r
}

impl CodeBlockKind {
    /// A structurally equal copy of this code-block kind.
    pub fn deep_clone(&self) -> (r: CodeBlockKind)
        ensures
            r.deep_view() == self.deep_view(),
    {
        match self {
            CodeBlockKind::Indented => CodeBlockKind::Indented,
            CodeBlockKind::Fenced(lang) => CodeBlockKind::Fenced(lang.clone()),
        }
    }
}

impl Tag {
    /// A structurally equal copy of this tag; every payload is copied.
    pub fn deep_clone(&self) -> (r: Tag)
        ensures
            r.deep_view() == self.deep_view(),
    {
        match self {
            Tag::Paragraph => Tag::Paragraph,
            Tag::Heading { level, id, classes, attrs } => Tag::Heading {
                level: *level,
                id: copy_opt_string(id),
                classes: copy_strings(classes),
                attrs: copy_attrs(attrs),
            },
            Tag::BlockQuote(kind) => Tag::BlockQuote(*kind),
            Tag::CodeBlock(kind) => Tag::CodeBlock(kind.deep_clone()),
            Tag::HtmlBlock => Tag::HtmlBlock,
            Tag::List(start) => Tag::List(*start),
            Tag::Item => Tag::Item,
            Tag::FootnoteDefinition(label) => Tag::FootnoteDefinition(label.clone()),
            Tag::Table(alignments) => Tag::Table(copy_alignments(alignments)),
            Tag::TableHead => Tag::TableHead,
            Tag::TableRow => Tag::TableRow,
            Tag::TableCell => Tag::TableCell,
            Tag::Emphasis => Tag::Emphasis,
            Tag::Strong => Tag::Strong,
            Tag::Strikethrough => Tag::Strikethrough,
            Tag::Link { link_type, dest_url, title, id } => Tag::Link {
                link_type: *link_type,
                dest_url: dest_url.clone(),
                title: title.clone(),
                id: id.clone(),
            },
            Tag::Image { link_type, dest_url, title, id } => Tag::Image {
                link_type: *link_type,
                dest_url: dest_url.clone(),
                title: title.clone(),
                id: id.clone(),
            },
            Tag::MetadataBlock(kind) => Tag::MetadataBlock(*kind),
        }
    }
}

/// One unit of the flat token stream: an open marker, a close marker, or a
/// leaf token.
#[derive(Debug, Clone, PartialEq, Eq, Hash)]
pub enum Event {
    Start(Tag),
    End(TagEnd),
    Text(String),
    Code(String),
    InlineMath(String),
    DisplayMath(String),
    Html(String),
    InlineHtml(String),
    FootnoteReference(String),
    SoftBreak,
    HardBreak,
    Rule,
    /// A task list marker; holds `true` when the box is checked.
    TaskListMarker(bool),
}

/// Spec-level view of [`Event`].
pub enum EventView {
    Start(TagView),
    End(TagEnd),
    Text(Seq<char>),
    Code(Seq<char>),
    InlineMath(Seq<char>),
    DisplayMath(Seq<char>),
    Html(Seq<char>),
    InlineHtml(Seq<char>),
    FootnoteReference(Seq<char>),
    SoftBreak,
    HardBreak,
    Rule,
    TaskListMarker(bool),
}

impl DeepView for Event {
    type V = EventView;

    open spec fn deep_view(&self) -> EventView {
        match self {
            Event::Start(tag) => EventView::Start(tag.deep_view()),
            Event::End(end) => EventView::End(*end),
            Event::Text(s) => EventView::Text(s.deep_view()),
            Event::Code(s) => EventView::Code(s.deep_view()),
            Event::InlineMath(s) => EventView::InlineMath(s.deep_view()),
            Event::DisplayMath(s) => EventView::DisplayMath(s.deep_view()),
            Event::Html(s) => EventView::Html(s.deep_view()),
            Event::InlineHtml(s) => EventView::InlineHtml(s.deep_view()),
            Event::FootnoteReference(s) => EventView::FootnoteReference(s.deep_view()),
            Event::SoftBreak => EventView::SoftBreak,
            Event::HardBreak => EventView::HardBreak,
            Event::Rule => EventView::Rule,
            Event::TaskListMarker(checked) => EventView::TaskListMarker(*checked),
        }
    }
}

} // verus!

//! Building forests from token streams, linearizing them back, and the
//! three failure modes.

use cmark_ast::builder::BuildError;
use cmark_ast::event::{
    Alignment, BlockQuoteKind, CodeBlockKind, Event, HeadingLevel, LinkType, Tag, TagEnd,
};
use cmark_ast::tree::{Ast, Group, Tree};
use cmark_ast::{Span, Spanned};

fn sp(start: usize, end: usize) -> Span {
    Span { start, end }
}

fn at(item: Event, start: usize, end: usize) -> Spanned<Event> {
    Spanned { item, span: sp(start, end) }
}

#[test]
fn empty_stream_builds_empty_forest() {
    let ast = Ast::from_events(Vec::new()).unwrap();
    assert_eq!(ast.0.len(), 0);
    assert_eq!(ast.linearize().len(), 0);
}

#[test]
fn paragraph_with_text_builds_one_group() {
    let tokens = vec![
        at(Event::Start(Tag::Paragraph), 0, 0),
        at(Event::Text(String::from("hi")), 0, 2),
        at(Event::End(TagEnd::Paragraph), 2, 2),
    ];
    let ast = Ast::from_events(tokens.clone()).unwrap();
    assert_eq!(ast.0.len(), 1);
    match &ast.0[0] {
        Tree::Group(group) => {
            assert_eq!(group.tag.item, Tag::Paragraph);
            assert_eq!(group.tag.span, sp(0, 0));
            assert_eq!(group.end_span, sp(2, 2));
            assert_eq!(group.tag.span.start, 0);
            assert_eq!(group.end_span.end, 2);
            assert_eq!(group.stream.0.len(), 1);
            match &group.stream.0[0] {
                Tree::Text(text) => {
                    assert_eq!(text.item, "hi");
                    assert_eq!(text.span, sp(0, 2));
                }
                other => panic!("expected a text leaf, got {:?}", other),
            }
        }
        other => panic!("expected a group, got {:?}", other),
    }
    assert_eq!(ast.linearize(), tokens);
}

#[test]
fn close_of_wrong_kind_is_tag_mismatch() {
    let tokens = vec![
        at(Event::Start(Tag::Paragraph), 0, 0),
        at(Event::End(TagEnd::Emphasis), 0, 0),
    ];
    let err = Ast::from_events(tokens).unwrap_err();
    assert_eq!(
        err,
        BuildError::TagMismatch {
            expected: TagEnd::Paragraph,
            found: TagEnd::Emphasis,
            span: sp(0, 0),
        },
    );
}

#[test]
fn missing_close_is_unterminated_group() {
    let tokens = vec![
        at(Event::Start(Tag::Paragraph), 0, 0),
        at(Event::Text(String::from("x")), 0, 1),
    ];
    let err = Ast::from_events(tokens).unwrap_err();
    assert_eq!(err, BuildError::UnterminatedGroup { open: vec![TagEnd::Paragraph] });
}

#[test]
fn unterminated_group_names_open_kinds_innermost_first() {
    let tokens = vec![
        at(Event::Start(Tag::List(None)), 0, 0),
        at(Event::Start(Tag::Item), 0, 0),
    ];
    let err = Ast::from_events(tokens).unwrap_err();
    assert_eq!(
        err,
        BuildError::UnterminatedGroup { open: vec![TagEnd::Item, TagEnd::List(false)] },
    );
}

#[test]
fn close_without_open_is_unmatched_close() {
    let tokens = vec![at(Event::End(TagEnd::Paragraph), 3, 4)];
    let err = Ast::from_events(tokens).unwrap_err();
    assert_eq!(err, BuildError::UnmatchedClose { close: TagEnd::Paragraph, span: sp(3, 4) });
}

#[test]
fn mismatch_reports_innermost_open_kind() {
    let tokens = vec![
        at(Event::Start(Tag::List(None)), 0, 0),
        at(Event::Start(Tag::Item), 0, 0),
        at(Event::End(TagEnd::List(false)), 1, 1),
    ];
    let err = Ast::from_events(tokens).unwrap_err();
    assert_eq!(
        err,
        BuildError::TagMismatch {
            expected: TagEnd::Item,
            found: TagEnd::List(false),
            span: sp(1, 1),
        },
    );
}

fn nested_tokens() -> Vec<Spanned<Event>> {
    vec![
        at(Event::Start(Tag::List(Some(3))), 0, 20),
        at(Event::Start(Tag::Item), 0, 10),
        at(Event::Start(Tag::Paragraph), 1, 9),
        at(Event::Text(String::from("first")), 1, 6),
        at(Event::Start(Tag::Emphasis), 6, 9),
        at(Event::Text(String::from("em")), 7, 9),
        at(Event::End(TagEnd::Emphasis), 6, 9),
        at(Event::End(TagEnd::Paragraph), 1, 9),
        at(Event::End(TagEnd::Item), 0, 10),
        at(Event::Start(Tag::Item), 11, 20),
        at(Event::Text(String::from("second")), 12, 18),
        at(Event::TaskListMarker(true), 18, 19),
        at(Event::End(TagEnd::Item), 11, 20),
        at(Event::End(TagEnd::List(true)), 0, 20),
    ]
}

#[test]
fn nested_stream_round_trips() {
    let tokens = nested_tokens();
    let ast = Ast::from_events(tokens.clone()).unwrap();
    assert_eq!(ast.linearize(), tokens);
}

#[test]
fn linearize_is_repeatable_and_non_destructive() {
    let ast = Ast::from_events(nested_tokens()).unwrap();
    let first = ast.linearize();
    let second = ast.linearize();
    assert_eq!(first, second);
    assert_eq!(ast, Ast::from_events(nested_tokens()).unwrap());
}

#[test]
fn every_leaf_kind_round_trips() {
    let tokens = vec![
        at(Event::Text(String::from("t")), 0, 1),
        at(Event::Code(String::from("c")), 1, 2),
        at(Event::Html(String::from("<p>")), 2, 5),
        at(Event::InlineHtml(String::from("<b>")), 5, 8),
        at(Event::FootnoteReference(String::from("fn1")), 8, 11),
        at(Event::SoftBreak, 11, 12),
        at(Event::HardBreak, 12, 14),
        at(Event::Rule, 14, 17),
        at(Event::TaskListMarker(false), 17, 18),
        at(Event::InlineMath(String::from("x")), 18, 19),
        at(Event::DisplayMath(String::from("y")), 19, 20),
    ];
    let ast = Ast::from_events(tokens.clone()).unwrap();
    assert_eq!(ast.0.len(), 11);
    assert_eq!(ast.linearize(), tokens);
}

#[test]
fn heading_metadata_survives_the_round_trip() {
    let heading = Tag::Heading {
        level: HeadingLevel::H2,
        id: Some(String::from("intro")),
        classes: vec![String::from("wide"), String::from("lead")],
        attrs: vec![
            (String::from("k"), Some(String::from("v"))),
            (String::from("w"), None),
        ],
    };
    let tokens = vec![
        at(Event::Start(heading.clone()), 0, 12),
        at(Event::Text(String::from("Title")), 2, 7),
        at(Event::End(TagEnd::Heading(HeadingLevel::H2)), 0, 12),
    ];
    let ast = Ast::from_events(tokens.clone()).unwrap();
    match &ast.0[0] {
        Tree::Group(group) => assert_eq!(group.tag.item, heading),
        other => panic!("expected a group, got {:?}", other),
    }
    assert_eq!(ast.linearize(), tokens);
}

#[test]
fn link_and_table_metadata_survive_the_round_trip() {
    let link = Tag::Link {
        link_type: LinkType::Inline,
        dest_url: String::from("https://example.net"),
        title: String::from("a title"),
        id: String::from(""),
    };
    let tokens = vec![
        at(Event::Start(Tag::Table(vec![Alignment::Left, Alignment::Unspecified])), 0, 30),
        at(Event::Start(Tag::TableHead), 0, 10),
        at(Event::End(TagEnd::TableHead), 0, 10),
        at(Event::End(TagEnd::Table), 0, 30),
        at(Event::Start(link), 30, 40),
        at(Event::Text(String::from("go")), 31, 33),
        at(Event::End(TagEnd::Link), 30, 40),
        at(Event::Start(Tag::BlockQuote(Some(BlockQuoteKind::Note))), 40, 50),
        at(Event::End(TagEnd::BlockQuote(Some(BlockQuoteKind::Note))), 40, 50),
        at(Event::Start(Tag::CodeBlock(CodeBlockKind::Fenced(String::from("rust")))), 50, 60),
        at(Event::Code(String::from("1+1")), 52, 55),
        at(Event::End(TagEnd::CodeBlock), 50, 60),
    ];
    let ast = Ast::from_events(tokens.clone()).unwrap();
    assert_eq!(ast.linearize(), tokens);
}

#[test]
fn to_end_gives_the_matching_close_kind() {
    assert_eq!(Tag::Paragraph.to_end(), TagEnd::Paragraph);
    assert_eq!(Tag::List(None).to_end(), TagEnd::List(false));
    assert_eq!(Tag::List(Some(7)).to_end(), TagEnd::List(true));
    assert_eq!(Tag::Item.to_end(), TagEnd::Item);
    assert_eq!(Tag::HtmlBlock.to_end(), TagEnd::HtmlBlock);
    assert_eq!(Tag::FootnoteDefinition(String::from("x")).to_end(), TagEnd::FootnoteDefinition);
    assert_eq!(Tag::Table(vec![Alignment::Center]).to_end(), TagEnd::Table);
    assert_eq!(Tag::CodeBlock(CodeBlockKind::Indented).to_end(), TagEnd::CodeBlock);
    assert_eq!(
        Tag::BlockQuote(Some(BlockQuoteKind::Tip)).to_end(),
        TagEnd::BlockQuote(Some(BlockQuoteKind::Tip)),
    );
    let heading = Tag::Heading { level: HeadingLevel::H3, id: None, classes: vec![], attrs: vec![] };
    assert_eq!(heading.to_end(), TagEnd::Heading(HeadingLevel::H3));
}

#[test]
fn into_inner_discards_the_span() {
    let spanned = Spanned { item: String::from("payload"), span: sp(4, 11) };
    assert_eq!(spanned.into_inner(), "payload");
}

fn check_spans(trees: &[Tree], lo: usize, hi: usize) {
    let start_of = |t: &Tree| -> usize {
        match t {
            Tree::Group(g) => g.tag.span.start,
            Tree::Text(s)
            | Tree::Code(s)
            | Tree::Html(s)
            | Tree::InlineHtml(s)
            | Tree::FootnoteReference(s)
            | Tree::InlineMath(s)
            | Tree::DisplayMath(s) => s.span.start,
            Tree::TaskListMarker(s) => s.span.start,
            Tree::SoftBreak(sp) | Tree::HardBreak(sp) | Tree::Rule(sp) => sp.start,
        }
    };
    let end_of = |t: &Tree| -> usize {
        match t {
            Tree::Group(g) => g.end_span.end,
            Tree::Text(s)
            | Tree::Code(s)
            | Tree::Html(s)
            | Tree::InlineHtml(s)
            | Tree::FootnoteReference(s)
            | Tree::InlineMath(s)
            | Tree::DisplayMath(s) => s.span.end,
            Tree::TaskListMarker(s) => s.span.end,
            Tree::SoftBreak(sp) | Tree::HardBreak(sp) | Tree::Rule(sp) => sp.end,
        }
    };
    for pair in trees.windows(2) {
        assert!(start_of(&pair[0]) <= start_of(&pair[1]), "siblings out of order");
    }
    for tree in trees {
        assert!(lo <= start_of(tree) && end_of(tree) <= hi, "span escapes the group");
        if let Tree::Group(g) = tree {
            check_spans(&g.stream.0, g.tag.span.start, g.end_span.end);
        }
    }
}

#[test]
fn built_forest_has_nested_ordered_spans() {
    let ast = Ast::from_events(nested_tokens()).unwrap();
    check_spans(&ast.0, 0, usize::MAX);
}

#[test]
fn default_forest_is_empty() {
    let ast = Ast::default();
    assert_eq!(ast.0.len(), 0);
}

#[test]
fn group_reconstructed_by_hand_linearizes_like_the_builder() {
    let group = Group {
        tag: Spanned { item: Tag::Strong, span: sp(0, 0) },
        stream: Ast(vec![Tree::Text(Spanned { item: String::from("b"), span: sp(0, 1) })]),
        end_span: sp(1, 1),
    };
    let ast = Ast(vec![Tree::Group(group)]);
    let tokens = ast.linearize();
    assert_eq!(
        tokens,
        vec![
            at(Event::Start(Tag::Strong), 0, 0),
            at(Event::Text(String::from("b")), 0, 1),
            at(Event::End(TagEnd::Strong), 1, 1),
        ],
    );
    assert_eq!(Ast::from_events(tokens).unwrap(), ast);
}

#[test]
fn deep_clone_copies_the_whole_forest() {
    let ast = Ast::from_events(nested_tokens()).unwrap();
    let copy = ast.deep_clone();
    assert_eq!(copy, ast);
    assert_eq!(copy.linearize(), ast.linearize());
}

#[test]
fn tag_deep_clone_copies_every_payload() {
    let tag = Tag::Heading {
        level: HeadingLevel::H4,
        id: Some(String::from("x")),
        classes: vec![String::from("c")],
        attrs: vec![(String::from("a"), Some(String::from("b")))],
    };
    assert_eq!(tag.deep_clone(), tag);
    let link = Tag::Link {
        link_type: LinkType::Autolink,
        dest_url: String::from("u"),
        title: String::from("t"),
        id: String::from("i"),
    };
    assert_eq!(link.deep_clone(), link);
    assert_eq!(Tag::Table(vec![Alignment::Right]).deep_clone(), Tag::Table(vec![Alignment::Right]));
}

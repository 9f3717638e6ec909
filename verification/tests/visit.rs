//! The rewriting traversal: the default hooks are the identity, and an
//! overridden scalar hook rewrites payloads in place.

use cmark_ast::event::{
    Alignment, BlockQuoteKind, CodeBlockKind, Event, HeadingLevel, Tag, TagEnd,
};
use cmark_ast::tree::{Ast, Group, Tree};
use cmark_ast::visit_mut::{self, VisitMut};
use cmark_ast::{Span, Spanned};

fn sp(start: usize, end: usize) -> Span {
    Span { start, end }
}

fn at(item: Event, start: usize, end: usize) -> Spanned<Event> {
    Spanned { item, span: sp(start, end) }
}

fn sample_tokens() -> Vec<Spanned<Event>> {
    vec![
        at(
            Event::Start(Tag::Heading {
                level: HeadingLevel::H1,
                id: Some(String::from("top")),
                classes: vec![String::from("big")],
                attrs: vec![(String::from("k"), None)],
            }),
            0,
            10,
        ),
        at(Event::Text(String::from("Title")), 2, 7),
        at(Event::End(TagEnd::Heading(HeadingLevel::H1)), 0, 10),
        at(Event::Start(Tag::Paragraph), 11, 30),
        at(Event::Text(String::from("hi")), 11, 13),
        at(Event::Code(String::from("code")), 13, 19),
        at(Event::SoftBreak, 19, 20),
        at(Event::Start(Tag::BlockQuote(Some(BlockQuoteKind::Warning))), 20, 29),
        at(Event::Text(String::from("inner")), 21, 26),
        at(Event::End(TagEnd::BlockQuote(Some(BlockQuoteKind::Warning))), 20, 29),
        at(Event::End(TagEnd::Paragraph), 11, 30),
        at(Event::Start(Tag::CodeBlock(CodeBlockKind::Fenced(String::from("txt")))), 31, 40),
        at(Event::Text(String::from("raw")), 33, 36),
        at(Event::End(TagEnd::CodeBlock), 31, 40),
        at(Event::Start(Tag::Table(vec![Alignment::Right])), 41, 50),
        at(Event::Start(Tag::TableRow), 42, 49),
        at(Event::TaskListMarker(true), 43, 44),
        at(Event::End(TagEnd::TableRow), 42, 49),
        at(Event::End(TagEnd::Table), 41, 50),
    ]
}

/// A visitor that keeps every default: its container hooks hand control to
/// the free functions that hold the default traversal.
struct DefaultVisitor;

impl VisitMut for DefaultVisitor {
    fn is_identity(&self) -> bool {
        true
    }

    fn visit_ast_mut(&mut self, node: &mut Ast) {
        visit_mut::visit_ast_mut(self, node)
    }
    fn visit_tree_mut(&mut self, node: &mut Tree) {
        visit_mut::visit_tree_mut(self, node)
    }
    fn visit_group_mut(&mut self, node: &mut Group) {
        visit_mut::visit_group_mut(self, node)
    }
    fn visit_strikethrough_mut(
        &mut self,
        stream: &mut Ast,
        begin_span: &mut Span,
        end_span: &mut Span,
    ) {
        visit_mut::visit_strikethrough_mut(self, stream, begin_span, end_span)
    }
    fn visit_strong_mut(
        &mut self,
        stream: &mut Ast,
        begin_span: &mut Span,
        end_span: &mut Span,
    ) {
        visit_mut::visit_strong_mut(self, stream, begin_span, end_span)
    }
    fn visit_emphasis_mut(
        &mut self,
        stream: &mut Ast,
        begin_span: &mut Span,
        end_span: &mut Span,
    ) {
        visit_mut::visit_emphasis_mut(self, stream, begin_span, end_span)
    }
    fn visit_table_cell_mut(
        &mut self,
        stream: &mut Ast,
        begin_span: &mut Span,
        end_span: &mut Span,
    ) {
        visit_mut::visit_table_cell_mut(self, stream, begin_span, end_span)
    }
    fn visit_table_row_mut(
        &mut self,
        stream: &mut Ast,
        begin_span: &mut Span,
        end_span: &mut Span,
    ) {
        visit_mut::visit_table_row_mut(self, stream, begin_span, end_span)
    }
    fn visit_table_head_mut(
        &mut self,
        stream: &mut Ast,
        begin_span: &mut Span,
        end_span: &mut Span,
    ) {
        visit_mut::visit_table_head_mut(self, stream, begin_span, end_span)
    }
    fn visit_html_block_mut(
        &mut self,
        stream: &mut Ast,
        begin_span: &mut Span,
        end_span: &mut Span,
    ) {
        visit_mut::visit_html_block_mut(self, stream, begin_span, end_span)
    }
    fn visit_paragraph_mut(
        &mut self,
        stream: &mut Ast,
        begin_span: &mut Span,
        end_span: &mut Span,
    ) {
        visit_mut::visit_paragraph_mut(self, stream, begin_span, end_span)
    }
    fn visit_item_mut(&mut self, stream: &mut Ast, begin_span: &mut Span, end_span: &mut Span) {
        visit_mut::visit_item_mut(self, stream, begin_span, end_span)
    }
    fn visit_table_mut(
        &mut self,
        node: &mut Vec<Alignment>,
        stream: &mut Ast,
        begin_span: &mut Span,
        end_span: &mut Span,
    ) {
        visit_mut::visit_table_mut(self, node, stream, begin_span, end_span)
    }
    fn visit_footnote_definition_mut(
        &mut self,
        node: &mut String,
        stream: &mut Ast,
        begin_span: &mut Span,
        end_span: &mut Span,
    ) {
        visit_mut::visit_footnote_definition_mut(self, node, stream, begin_span, end_span)
    }
    fn visit_list_mut(
        &mut self,
        node: &mut Option<u64>,
        stream: &mut Ast,
        begin_span: &mut Span,
        end_span: &mut Span,
    ) {
        visit_mut::visit_list_mut(self, node, stream, begin_span, end_span)
    }
    fn visit_code_block_mut(
        &mut self,
        node: &mut CodeBlockKind,
        stream: &mut Ast,
        begin_span: &mut Span,
        end_span: &mut Span,
    ) {
        visit_mut::visit_code_block_mut(self, node, stream, begin_span, end_span)
    }
    fn visit_block_quote_mut(
        &mut self,
        node: &mut Option<BlockQuoteKind>,
        stream: &mut Ast,
        begin_span: &mut Span,
        end_span: &mut Span,
    ) {
        visit_mut::visit_block_quote_mut(self, node, stream, begin_span, end_span)
    }
    fn visit_heading_mut(
        &mut self,
        level: &mut HeadingLevel,
        id: &mut Option<String>,
        classes: &mut Vec<String>,
        attrs: &mut Vec<(String, Option<String>)>,
        stream: &mut Ast,
        begin_span: &mut Span,
        end_span: &mut Span,
    ) {
        visit_mut::visit_heading_mut(
            self, level, id, classes, attrs, stream, begin_span, end_span,
        )
    }
    fn visit_metadata_block_mut(
        &mut self,
        node: &mut cmark_ast::event::MetadataBlockKind,
        stream: &mut Ast,
        begin_span: &mut Span,
        end_span: &mut Span,
    ) {
        visit_mut::visit_metadata_block_mut(self, node, stream, begin_span, end_span)
    }
    fn visit_image_mut(
        &mut self,
        link_type: &mut cmark_ast::event::LinkType,
        dest_url: &mut String,
        title: &mut String,
        id: &mut String,
        stream: &mut Ast,
        begin_span: &mut Span,
        end_span: &mut Span,
    ) {
        visit_mut::visit_image_mut(
            self, link_type, dest_url, title, id, stream, begin_span, end_span,
        )
    }
    fn visit_link_mut(
        &mut self,
        link_type: &mut cmark_ast::event::LinkType,
        dest_url: &mut String,
        title: &mut String,
        id: &mut String,
        stream: &mut Ast,
        begin_span: &mut Span,
        end_span: &mut Span,
    ) {
        visit_mut::visit_link_mut(
            self, link_type, dest_url, title, id, stream, begin_span, end_span,
        )
    }
}

/// A visitor that upper-cases every scalar string payload and otherwise
/// keeps the default traversal.
struct UpperVisitor;

impl VisitMut for UpperVisitor {
    fn is_identity(&self) -> bool {
        false
    }

    fn visit_ast_mut(&mut self, node: &mut Ast) {
        visit_mut::visit_ast_mut(self, node)
    }
    fn visit_tree_mut(&mut self, node: &mut Tree) {
        visit_mut::visit_tree_mut(self, node)
    }
    fn visit_group_mut(&mut self, node: &mut Group) {
        visit_mut::visit_group_mut(self, node)
    }
    fn visit_strikethrough_mut(
        &mut self,
        stream: &mut Ast,
        begin_span: &mut Span,
        end_span: &mut Span,
    ) {
        visit_mut::visit_strikethrough_mut(self, stream, begin_span, end_span)
    }
    fn visit_strong_mut(
        &mut self,
        stream: &mut Ast,
        begin_span: &mut Span,
        end_span: &mut Span,
    ) {
        visit_mut::visit_strong_mut(self, stream, begin_span, end_span)
    }
    fn visit_emphasis_mut(
        &mut self,
        stream: &mut Ast,
        begin_span: &mut Span,
        end_span: &mut Span,
    ) {
        visit_mut::visit_emphasis_mut(self, stream, begin_span, end_span)
    }
    fn visit_table_cell_mut(
        &mut self,
        stream: &mut Ast,
        begin_span: &mut Span,
        end_span: &mut Span,
    ) {
        visit_mut::visit_table_cell_mut(self, stream, begin_span, end_span)
    }
    fn visit_table_row_mut(
        &mut self,
        stream: &mut Ast,
        begin_span: &mut Span,
        end_span: &mut Span,
    ) {
        visit_mut::visit_table_row_mut(self, stream, begin_span, end_span)
    }
    fn visit_table_head_mut(
        &mut self,
        stream: &mut Ast,
        begin_span: &mut Span,
        end_span: &mut Span,
    ) {
        visit_mut::visit_table_head_mut(self, stream, begin_span, end_span)
    }
    fn visit_html_block_mut(
        &mut self,
        stream: &mut Ast,
        begin_span: &mut Span,
        end_span: &mut Span,
    ) {
        visit_mut::visit_html_block_mut(self, stream, begin_span, end_span)
    }
    fn visit_paragraph_mut(
        &mut self,
        stream: &mut Ast,
        begin_span: &mut Span,
        end_span: &mut Span,
    ) {
        visit_mut::visit_paragraph_mut(self, stream, begin_span, end_span)
    }
    fn visit_item_mut(&mut self, stream: &mut Ast, begin_span: &mut Span, end_span: &mut Span) {
        visit_mut::visit_item_mut(self, stream, begin_span, end_span)
    }
    fn visit_table_mut(
        &mut self,
        node: &mut Vec<Alignment>,
        stream: &mut Ast,
        begin_span: &mut Span,
        end_span: &mut Span,
    ) {
        visit_mut::visit_table_mut(self, node, stream, begin_span, end_span)
    }
    fn visit_footnote_definition_mut(
        &mut self,
        node: &mut String,
        stream: &mut Ast,
        begin_span: &mut Span,
        end_span: &mut Span,
    ) {
        visit_mut::visit_footnote_definition_mut(self, node, stream, begin_span, end_span)
    }
    fn visit_list_mut(
        &mut self,
        node: &mut Option<u64>,
        stream: &mut Ast,
        begin_span: &mut Span,
        end_span: &mut Span,
    ) {
        visit_mut::visit_list_mut(self, node, stream, begin_span, end_span)
    }
    fn visit_code_block_mut(
        &mut self,
        node: &mut CodeBlockKind,
        stream: &mut Ast,
        begin_span: &mut Span,
        end_span: &mut Span,
    ) {
        visit_mut::visit_code_block_mut(self, node, stream, begin_span, end_span)
    }
    fn visit_block_quote_mut(
        &mut self,
        node: &mut Option<BlockQuoteKind>,
        stream: &mut Ast,
        begin_span: &mut Span,
        end_span: &mut Span,
    ) {
        visit_mut::visit_block_quote_mut(self, node, stream, begin_span, end_span)
    }
    fn visit_heading_mut(
        &mut self,
        level: &mut HeadingLevel,
        id: &mut Option<String>,
        classes: &mut Vec<String>,
        attrs: &mut Vec<(String, Option<String>)>,
        stream: &mut Ast,
        begin_span: &mut Span,
        end_span: &mut Span,
    ) {
        visit_mut::visit_heading_mut(
            self, level, id, classes, attrs, stream, begin_span, end_span,
        )
    }
    fn visit_metadata_block_mut(
        &mut self,
        node: &mut cmark_ast::event::MetadataBlockKind,
        stream: &mut Ast,
        begin_span: &mut Span,
        end_span: &mut Span,
    ) {
        visit_mut::visit_metadata_block_mut(self, node, stream, begin_span, end_span)
    }
    fn visit_image_mut(
        &mut self,
        link_type: &mut cmark_ast::event::LinkType,
        dest_url: &mut String,
        title: &mut String,
        id: &mut String,
        stream: &mut Ast,
        begin_span: &mut Span,
        end_span: &mut Span,
    ) {
        visit_mut::visit_image_mut(
            self, link_type, dest_url, title, id, stream, begin_span, end_span,
        )
    }
    fn visit_link_mut(
        &mut self,
        link_type: &mut cmark_ast::event::LinkType,
        dest_url: &mut String,
        title: &mut String,
        id: &mut String,
        stream: &mut Ast,
        begin_span: &mut Span,
        end_span: &mut Span,
    ) {
        visit_mut::visit_link_mut(
            self, link_type, dest_url, title, id, stream, begin_span, end_span,
        )
    }

    fn visit_cow_str_mut(&mut self, node: &mut String) {
        *node = node.to_uppercase();
    }
}

#[test]
fn default_hooks_leave_the_forest_unchanged() {
    let mut ast = Ast::from_events(sample_tokens()).unwrap();
    DefaultVisitor.visit_ast_mut(&mut ast);
    assert_eq!(ast, Ast::from_events(sample_tokens()).unwrap());
}

#[test]
fn no_op_visitor_leaves_the_forest_unchanged() {
    let mut ast = Ast::from_events(sample_tokens()).unwrap();
    visit_mut::IdentityVisitor.visit_ast_mut(&mut ast);
    assert_eq!(ast, Ast::from_events(sample_tokens()).unwrap());
}

#[test]
fn upper_casing_the_text_hook_rewrites_payloads_in_place() {
    let tokens = vec![
        at(Event::Start(Tag::Paragraph), 0, 0),
        at(Event::Text(String::from("hi")), 0, 2),
        at(Event::End(TagEnd::Paragraph), 2, 2),
    ];
    let mut ast = Ast::from_events(tokens).unwrap();
    UpperVisitor.visit_ast_mut(&mut ast);
    match &ast.0[0] {
        Tree::Group(group) => {
            assert_eq!(group.tag.item, Tag::Paragraph);
            assert_eq!(group.tag.span, sp(0, 0));
            assert_eq!(group.end_span, sp(2, 2));
            match &group.stream.0[0] {
                Tree::Text(text) => {
                    assert_eq!(text.item, "HI");
                    assert_eq!(text.span, sp(0, 2));
                }
                other => panic!("expected a text leaf, got {:?}", other),
            }
        }
        other => panic!("expected a group, got {:?}", other),
    }
}

#[test]
fn upper_casing_reaches_every_scalar_payload() {
    let mut ast = Ast::from_events(sample_tokens()).unwrap();
    UpperVisitor.visit_ast_mut(&mut ast);
    let tokens = ast.linearize();
    assert_eq!(tokens[1].item, Event::Text(String::from("TITLE")));
    match &tokens[0].item {
        Event::Start(Tag::Heading { id, classes, .. }) => {
            assert_eq!(id.as_deref(), Some("top"));
            assert_eq!(classes, &vec![String::from("big")]);
        }
        other => panic!("expected the heading start, got {:?}", other),
    }
    assert_eq!(tokens[5].item, Event::Code(String::from("CODE")));
    assert_eq!(tokens[6].item, Event::SoftBreak);
    assert_eq!(tokens[8].item, Event::Text(String::from("INNER")));
}

#[test]
fn link_payloads_flow_through_the_scalar_hook() {
    let tokens = vec![
        at(
            Event::Start(Tag::Link {
                link_type: cmark_ast::event::LinkType::Inline,
                dest_url: String::from("dest"),
                title: String::from("title"),
                id: String::from("id"),
            }),
            0,
            9,
        ),
        at(Event::Text(String::from("go")), 1, 3),
        at(Event::End(TagEnd::Link), 0, 9),
    ];
    let mut ast = Ast::from_events(tokens).unwrap();
    UpperVisitor.visit_ast_mut(&mut ast);
    match &ast.0[0] {
        Tree::Group(group) => {
            match &group.tag.item {
                Tag::Link { link_type, dest_url, title, id } => {
                    assert_eq!(*link_type, cmark_ast::event::LinkType::Inline);
                    assert_eq!(dest_url, "DEST");
                    assert_eq!(title, "TITLE");
                    assert_eq!(id, "ID");
                }
                other => panic!("expected a link tag, got {:?}", other),
            }
            match &group.stream.0[0] {
                Tree::Text(text) => assert_eq!(text.item, "GO"),
                other => panic!("expected a text leaf, got {:?}", other),
            }
        }
        other => panic!("expected a group, got {:?}", other),
    }
}

#[test]
fn metadata_block_children_are_visited_and_its_kind_kept() {
    let tokens = vec![
        at(
            Event::Start(Tag::MetadataBlock(cmark_ast::event::MetadataBlockKind::YamlStyle)),
            0,
            12,
        ),
        at(Event::Text(String::from("key: value")), 4, 14),
        at(Event::End(TagEnd::MetadataBlock(cmark_ast::event::MetadataBlockKind::YamlStyle)), 0, 12),
    ];
    let mut ast = Ast::from_events(tokens).unwrap();
    UpperVisitor.visit_ast_mut(&mut ast);
    match &ast.0[0] {
        Tree::Group(group) => {
            assert_eq!(
                group.tag.item,
                Tag::MetadataBlock(cmark_ast::event::MetadataBlockKind::YamlStyle),
            );
            match &group.stream.0[0] {
                Tree::Text(text) => assert_eq!(text.item, "KEY: VALUE"),
                other => panic!("expected a text leaf, got {:?}", other),
            }
        }
        other => panic!("expected a group, got {:?}", other),
    }
}

#[test]
fn footnote_label_flows_through_the_scalar_hook() {
    let tokens = vec![
        at(Event::Start(Tag::FootnoteDefinition(String::from("note"))), 0, 9),
        at(Event::Text(String::from("body")), 1, 5),
        at(Event::End(TagEnd::FootnoteDefinition), 0, 9),
    ];
    let mut ast = Ast::from_events(tokens).unwrap();
    UpperVisitor.visit_ast_mut(&mut ast);
    assert_eq!(
        ast.linearize(),
        vec![
            at(Event::Start(Tag::FootnoteDefinition(String::from("NOTE"))), 0, 9),
            at(Event::Text(String::from("BODY")), 1, 5),
            at(Event::End(TagEnd::FootnoteDefinition), 0, 9),
        ],
    );
}

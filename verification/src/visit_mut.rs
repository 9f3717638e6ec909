//! An overridable depth-first in-place rewriting traversal over a forest.
//!
//! The [`VisitMut`] trait has one hook per node kind. The leaf hooks have
//! default bodies that perform the identity action, forwarding their
//! scalar payload to [`VisitMut::visit_cow_str_mut`], whose own default
//! changes nothing. The container hooks are implemented by each visitor;
//! the free function of the same name holds the standard behaviour for
//! every hook — recurse into the children, leave metadata alone — so a
//! visitor hands its container hooks to those functions and writes real
//! bodies for exactly the hooks relevant to its rewrite. An overriding
//! hook decides itself whether to keep recursing, by calling the free
//! function that holds the standard behaviour, or not.
//!
//! Each hook's contract states the identity law: a visitor whose
//! [`VisitMut::is_identity`] predicate holds, and whose hooks therefore
//! all keep to identity behaviour, leaves every node byte-for-byte and
//! span-for-span unchanged. The free functions' contracts additionally
//! state what holds for *every* visitor, identity or not: the forest's
//! length, each tree's kind, the open tag's container kind, and every
//! metadata field and span that the standard behaviour never hands to a
//! hook are all unchanged. Spans are never recomputed: a hook that edits
//! a children sequence is responsible for the spans it leaves behind.

use vstd::prelude::*;

use crate::event::{
    Alignment, BlockQuoteKind, CodeBlockKind, HeadingLevel, LinkType, MetadataBlockKind, Tag,
    same_tag_kind,
};
use crate::tree::{
    Ast, Group, Tree, ast_size, lemma_trees_size_element, lemma_trees_view, same_tree_kind,
    tree_size,
};
use crate::{Span, Spanned};

verus! {

broadcast use vstd::std_specs::vec::group_vec_axioms, vstd::seq::group_seq_axioms;

/// An overridable depth-first in-place rewriting traversal.
///
/// Implement [`VisitMut::is_identity`] to say whether the visitor's hooks
/// keep every node unchanged: with `true`, every hook must be proved to
/// change nothing; with `false`, the hooks may rewrite freely and the
/// conditional clauses below say nothing. The container hooks are required
/// methods rather than defaults because their standard behaviour recurses
/// through the trait, which Verus does not accept in a trait default body;
/// a visitor hands them to the free functions of this module.
pub trait VisitMut: Sized {
    /// Whether every hook of this visitor leaves the visited values
    /// unchanged. The standard hook behaviour does; a visitor that rewrites
    /// something answers `false`.
    spec fn is_identity(&self) -> bool;

    /// Visit a forest. [`visit_ast_mut`] holds the standard behaviour:
    /// visit each tree in order.
    fn visit_ast_mut(&mut self, node: &mut Ast)
        ensures
            old(self).is_identity() ==> final(self).is_identity() && final(node).deep_view() == old(node).deep_view(),
        decreases ast_size(*node), 18nat,
    ;

    /// Visit one tree. [`visit_tree_mut`] holds the standard behaviour:
    /// dispatch to the hook of the tree's kind.
    fn visit_tree_mut(&mut self, node: &mut Tree)
        ensures
            old(self).is_identity() ==> final(self).is_identity() && final(node).deep_view() == old(node).deep_view(),
        decreases tree_size(*node), 16nat,
    ;

    /// Visit a scalar string payload: the base hook most leaf hooks and
    /// metadata hooks forward to; the default changes nothing.
    fn visit_cow_str_mut(&mut self, node: &mut String)
        ensures
            old(self).is_identity() ==> final(self).is_identity() && final(node)@ == old(node)@,
    {
        let _ = node;
    }

    /// Visit a `text` leaf: the default forwards the payload to the
    /// scalar hook and keeps the span.
    fn visit_text_mut(&mut self, node: &mut Spanned<String>)
        ensures
            old(self).is_identity() ==> final(self).is_identity() && final(node).deep_view() == old(node).deep_view(),
    {
        self.visit_cow_str_mut(&mut node.item)
    }

    /// Visit a `code` leaf: the default forwards the payload to the
    /// scalar hook and keeps the span.
    fn visit_code_mut(&mut self, node: &mut Spanned<String>)
        ensures
            old(self).is_identity() ==> final(self).is_identity() && final(node).deep_view() == old(node).deep_view(),
    {
        self.visit_cow_str_mut(&mut node.item)
    }

    /// Visit a `html` leaf: the default forwards the payload to the
    /// scalar hook and keeps the span.
    fn visit_html_mut(&mut self, node: &mut Spanned<String>)
        ensures
            old(self).is_identity() ==> final(self).is_identity() && final(node).deep_view() == old(node).deep_view(),
    {
        self.visit_cow_str_mut(&mut node.item)
    }

    /// Visit an `inline_html` leaf: the default forwards the payload to the
    /// scalar hook and keeps the span.
    fn visit_inline_html_mut(&mut self, node: &mut Spanned<String>)
        ensures
            old(self).is_identity() ==> final(self).is_identity() && final(node).deep_view() == old(node).deep_view(),
    {
        self.visit_cow_str_mut(&mut node.item)
    }

    /// Visit a `footnote_reference` leaf: the default forwards the payload to the
    /// scalar hook and keeps the span.
    fn visit_footnote_reference_mut(&mut self, node: &mut Spanned<String>)
        ensures
            old(self).is_identity() ==> final(self).is_identity() && final(node).deep_view() == old(node).deep_view(),
    {
        self.visit_cow_str_mut(&mut node.item)
    }

    /// Visit an `inline_math` leaf: the default forwards the payload to the
    /// scalar hook and keeps the span.
    fn visit_inline_math_mut(&mut self, node: &mut Spanned<String>)
        ensures
            old(self).is_identity() ==> final(self).is_identity() && final(node).deep_view() == old(node).deep_view(),
    {
        self.visit_cow_str_mut(&mut node.item)
    }

    /// Visit a `display_math` leaf: the default forwards the payload to the
    /// scalar hook and keeps the span.
    fn visit_display_math_mut(&mut self, node: &mut Spanned<String>)
        ensures
            old(self).is_identity() ==> final(self).is_identity() && final(node).deep_view() == old(node).deep_view(),
    {
        self.visit_cow_str_mut(&mut node.item)
    }

    /// Visit a task list marker: the default changes nothing.
    fn visit_task_list_marker_mut(&mut self, node: &mut Spanned<bool>)
        ensures
            old(self).is_identity() ==> final(self).is_identity() && *final(node) == *old(node),
    {
        let _ = node;
    }

    /// Visit a `soft_break` leaf: the default changes nothing.
    fn visit_soft_break_mut(&mut self, node: &mut Span)
        ensures
            old(self).is_identity() ==> final(self).is_identity() && *final(node) == *old(node),
    {
        let _ = node;
    }

    /// Visit a `hard_break` leaf: the default changes nothing.
    fn visit_hard_break_mut(&mut self, node: &mut Span)
        ensures
            old(self).is_identity() ==> final(self).is_identity() && *final(node) == *old(node),
    {
        let _ = node;
    }

    /// Visit a `rule` leaf: the default changes nothing.
    fn visit_rule_mut(&mut self, node: &mut Span)
        ensures
            old(self).is_identity() ==> final(self).is_identity() && *final(node) == *old(node),
    {
        let _ = node;
    }

    /// Visit a group. [`visit_group_mut`] holds the standard behaviour:
    /// dispatch on the open tag's kind. No hook ever receives the tag
    /// itself, only its metadata fields, so every visitor — rewriting or
    /// not — leaves the container kind, and with it the close kind the
    /// group corresponds to, unchanged.
    fn visit_group_mut(&mut self, node: &mut Group)
        ensures
            same_tag_kind(old(node).tag.item, final(node).tag.item),
            old(self).is_identity() ==> final(self).is_identity() && final(node).deep_view() == old(node).deep_view(),
        decreases 1 + ast_size(node.stream), 14nat,
    ;

    /// Visit a `strikethrough` container. [`visit_strikethrough_mut`] holds the
    /// standard behaviour: recurse into the children.
    fn visit_strikethrough_mut(&mut self, stream: &mut Ast, begin_span: &mut Span, end_span: &mut Span)
        ensures
            old(self).is_identity() ==> final(self).is_identity() && final(stream).deep_view() == old(stream).deep_view() && *final(begin_span) == *old(begin_span) && *final(end_span) == *old(end_span),
        decreases ast_size(*stream), 20nat,
    ;

    /// Visit a `strong` container. [`visit_strong_mut`] holds the
    /// standard behaviour: recurse into the children.
    fn visit_strong_mut(&mut self, stream: &mut Ast, begin_span: &mut Span, end_span: &mut Span)
        ensures
            old(self).is_identity() ==> final(self).is_identity() && final(stream).deep_view() == old(stream).deep_view() && *final(begin_span) == *old(begin_span) && *final(end_span) == *old(end_span),
        decreases ast_size(*stream), 20nat,
    ;

    /// Visit an `emphasis` container. [`visit_emphasis_mut`] holds the
    /// standard behaviour: recurse into the children.
    fn visit_emphasis_mut(&mut self, stream: &mut Ast, begin_span: &mut Span, end_span: &mut Span)
        ensures
            old(self).is_identity() ==> final(self).is_identity() && final(stream).deep_view() == old(stream).deep_view() && *final(begin_span) == *old(begin_span) && *final(end_span) == *old(end_span),
        decreases ast_size(*stream), 20nat,
    ;

    /// Visit a `table_cell` container. [`visit_table_cell_mut`] holds the
    /// standard behaviour: recurse into the children.
    fn visit_table_cell_mut(&mut self, stream: &mut Ast, begin_span: &mut Span, end_span: &mut Span)
        ensures
            old(self).is_identity() ==> final(self).is_identity() && final(stream).deep_view() == old(stream).deep_view() && *final(begin_span) == *old(begin_span) && *final(end_span) == *old(end_span),
        decreases ast_size(*stream), 20nat,
    ;

    /// Visit a `table_row` container. [`visit_table_row_mut`] holds the
    /// standard behaviour: recurse into the children.
    fn visit_table_row_mut(&mut self, stream: &mut Ast, begin_span: &mut Span, end_span: &mut Span)
        ensures
            old(self).is_identity() ==> final(self).is_identity() && final(stream).deep_view() == old(stream).deep_view() && *final(begin_span) == *old(begin_span) && *final(end_span) == *old(end_span),
        decreases ast_size(*stream), 20nat,
    ;

    /// Visit a `table_head` container. [`visit_table_head_mut`] holds the
    /// standard behaviour: recurse into the children.
    fn visit_table_head_mut(&mut self, stream: &mut Ast, begin_span: &mut Span, end_span: &mut Span)
        ensures
            old(self).is_identity() ==> final(self).is_identity() && final(stream).deep_view() == old(stream).deep_view() && *final(begin_span) == *old(begin_span) && *final(end_span) == *old(end_span),
        decreases ast_size(*stream), 20nat,
    ;

    /// Visit a `html_block` container. [`visit_html_block_mut`] holds the
    /// standard behaviour: recurse into the children.
    fn visit_html_block_mut(&mut self, stream: &mut Ast, begin_span: &mut Span, end_span: &mut Span)
        ensures
            old(self).is_identity() ==> final(self).is_identity() && final(stream).deep_view() == old(stream).deep_view() && *final(begin_span) == *old(begin_span) && *final(end_span) == *old(end_span),
        decreases ast_size(*stream), 20nat,
    ;

    /// Visit a `paragraph` container. [`visit_paragraph_mut`] holds the
    /// standard behaviour: recurse into the children.
    fn visit_paragraph_mut(&mut self, stream: &mut Ast, begin_span: &mut Span, end_span: &mut Span)
        ensures
            old(self).is_identity() ==> final(self).is_identity() && final(stream).deep_view() == old(stream).deep_view() && *final(begin_span) == *old(begin_span) && *final(end_span) == *old(end_span),
        decreases ast_size(*stream), 20nat,
    ;

    /// Visit an `item` container. [`visit_item_mut`] holds the
    /// standard behaviour: recurse into the children.
    fn visit_item_mut(&mut self, stream: &mut Ast, begin_span: &mut Span, end_span: &mut Span)
        ensures
            old(self).is_identity() ==> final(self).is_identity() && final(stream).deep_view() == old(stream).deep_view() && *final(begin_span) == *old(begin_span) && *final(end_span) == *old(end_span),
        decreases ast_size(*stream), 20nat,
    ;

    /// Visit a table. [`visit_table_mut`] holds the standard behaviour:
    /// keep the column alignments and recurse into the children.
    fn visit_table_mut(
        &mut self,
        node: &mut Vec<Alignment>,
        stream: &mut Ast,
        begin_span: &mut Span,
        end_span: &mut Span,
    )
        ensures
            old(self).is_identity() ==> final(self).is_identity() && final(node).deep_view() == old(node).deep_view() && final(stream).deep_view() == old(stream).deep_view() && *final(begin_span) == *old(begin_span) && *final(end_span) == *old(end_span),
        decreases ast_size(*stream), 20nat,
    ;

    /// Visit a footnote definition. [`visit_footnote_definition_mut`]
    /// holds the standard behaviour: forward the label to the scalar hook
    /// and recurse into the children.
    fn visit_footnote_definition_mut(
        &mut self,
        node: &mut String,
        stream: &mut Ast,
        begin_span: &mut Span,
        end_span: &mut Span,
    )
        ensures
            old(self).is_identity() ==> final(self).is_identity() && final(node)@ == old(node)@ && final(stream).deep_view() == old(stream).deep_view() && *final(begin_span) == *old(begin_span) && *final(end_span) == *old(end_span),
        decreases ast_size(*stream), 20nat,
    ;

    /// Visit a list. [`visit_list_mut`] holds the standard behaviour:
    /// keep the start number and recurse into the children.
    fn visit_list_mut(
        &mut self,
        node: &mut Option<u64>,
        stream: &mut Ast,
        begin_span: &mut Span,
        end_span: &mut Span,
    )
        ensures
            old(self).is_identity() ==> final(self).is_identity() && *final(node) == *old(node) && final(stream).deep_view() == old(stream).deep_view() && *final(begin_span) == *old(begin_span) && *final(end_span) == *old(end_span),
        decreases ast_size(*stream), 20nat,
    ;

    /// Visit a code block. [`visit_code_block_mut`] holds the standard
    /// behaviour: keep the kind and recurse into the children.
    fn visit_code_block_mut(
        &mut self,
        node: &mut CodeBlockKind,
        stream: &mut Ast,
        begin_span: &mut Span,
        end_span: &mut Span,
    )
        ensures
            old(self).is_identity() ==> final(self).is_identity() && final(node).deep_view() == old(node).deep_view() && final(stream).deep_view() == old(stream).deep_view() && *final(begin_span) == *old(begin_span) && *final(end_span) == *old(end_span),
        decreases ast_size(*stream), 20nat,
    ;

    /// Visit a block quote. [`visit_block_quote_mut`] holds the standard
    /// behaviour: keep the kind and recurse into the children.
    fn visit_block_quote_mut(
        &mut self,
        node: &mut Option<BlockQuoteKind>,
        stream: &mut Ast,
        begin_span: &mut Span,
        end_span: &mut Span,
    )
        ensures
            old(self).is_identity() ==> final(self).is_identity() && *final(node) == *old(node) && final(stream).deep_view() == old(stream).deep_view() && *final(begin_span) == *old(begin_span) && *final(end_span) == *old(end_span),
        decreases ast_size(*stream), 20nat,
    ;

    /// Visit a heading. [`visit_heading_mut`] holds the standard
    /// behaviour: keep level, identifier, classes and attributes, and
    /// recurse into the children.
    fn visit_heading_mut(
        &mut self,
        level: &mut HeadingLevel,
        id: &mut Option<String>,
        classes: &mut Vec<String>,
        attrs: &mut Vec<(String, Option<String>)>,
        stream: &mut Ast,
        begin_span: &mut Span,
        end_span: &mut Span,
    )
        ensures
            old(self).is_identity() ==> final(self).is_identity() && *final(level) == *old(level) && final(id).deep_view() == old(id).deep_view()
                && final(classes).deep_view() == old(classes).deep_view()
                && final(attrs).deep_view() == old(attrs).deep_view() && final(stream).deep_view() == old(stream).deep_view() && *final(begin_span) == *old(begin_span) && *final(end_span) == *old(end_span),
        decreases ast_size(*stream), 20nat,
    ;

    /// Visit a metadata block. [`visit_metadata_block_mut`] holds the
    /// standard behaviour: keep the kind and recurse into the children.
    fn visit_metadata_block_mut(
        &mut self,
        node: &mut MetadataBlockKind,
        stream: &mut Ast,
        begin_span: &mut Span,
        end_span: &mut Span,
    )
        ensures
            old(self).is_identity() ==> final(self).is_identity() && *final(node) == *old(node) && final(stream).deep_view() == old(stream).deep_view() && *final(begin_span) == *old(begin_span) && *final(end_span) == *old(end_span),
        decreases ast_size(*stream), 20nat,
    ;

    /// Visit an image. [`visit_image_mut`] holds the standard behaviour:
    /// keep the link type, forward destination, title and identifier to
    /// the scalar hook, and recurse into the children.
    fn visit_image_mut(
        &mut self,
        link_type: &mut LinkType,
        dest_url: &mut String,
        title: &mut String,
        id: &mut String,
        stream: &mut Ast,
        begin_span: &mut Span,
        end_span: &mut Span,
    )
        ensures
            old(self).is_identity() ==> final(self).is_identity() && *final(link_type) == *old(link_type) && final(dest_url)@ == old(dest_url)@
                && final(title)@ == old(title)@ && final(id)@ == old(id)@ && final(stream).deep_view() == old(stream).deep_view() && *final(begin_span) == *old(begin_span) && *final(end_span) == *old(end_span),
        decreases ast_size(*stream), 20nat,
    ;

    /// Visit a link. [`visit_link_mut`] holds the standard behaviour:
    /// keep the link type, forward destination, title and identifier to
    /// the scalar hook, and recurse into the children.
    fn visit_link_mut(
        &mut self,
        link_type: &mut LinkType,
        dest_url: &mut String,
        title: &mut String,
        id: &mut String,
        stream: &mut Ast,
        begin_span: &mut Span,
        end_span: &mut Span,
    )
        ensures
            old(self).is_identity() ==> final(self).is_identity() && *final(link_type) == *old(link_type) && final(dest_url)@ == old(dest_url)@
                && final(title)@ == old(title)@ && final(id)@ == old(id)@ && final(stream).deep_view() == old(stream).deep_view() && *final(begin_span) == *old(begin_span) && *final(end_span) == *old(end_span),
        decreases ast_size(*stream), 20nat,
    ;
}

/// The standard forest traversal: visit each tree in order. Whatever the
/// visitor's hooks do, the number of trees is unchanged: each element is
/// rewritten in place, never inserted, removed or reordered here.
pub fn visit_ast_mut<V: VisitMut>(v: &mut V, node: &mut Ast)
    ensures
        final(node).0@.len() == old(node).0@.len(),
        old(v).is_identity() ==> final(v).is_identity() && final(node).deep_view() == old(node).deep_view(),
    decreases ast_size(*node), 17nat,
{
    let n = node.0.len();
    for i in 0..n
        invariant
            n == node.0.len(),
            forall|j: int| i <= j < n ==> node.0@[j] == old(node).0@[j],
            old(v).is_identity() ==> v.is_identity() && (forall|j: int|
                0 <= j < i ==> node.0@[j].deep_view() == old(node).0@[j].deep_view()),
    {
        proof {
            lemma_trees_size_element(node.0@, i as int);
        }
        v.visit_tree_mut(&mut node.0[i]);
    }
    proof {
        if old(v).is_identity() {
            lemma_trees_view(node.0@);
            lemma_trees_view(old(node).0@);
            assert(node.deep_view() =~= old(node).deep_view());
        }
    }
}

/// The standard tree traversal: dispatch to the hook of the tree's kind.
/// Whatever the visitor's hooks do, the tree's kind is unchanged: each
/// hook receives the variant's payload, never the tree itself.
pub fn visit_tree_mut<V: VisitMut>(v: &mut V, node: &mut Tree)
    ensures
        same_tree_kind(*old(node), *final(node)),
        old(v).is_identity() ==> final(v).is_identity() && final(node).deep_view() == old(node).deep_view(),
    decreases tree_size(*node), 15nat,
{
    match node {
        Tree::Group(group) => v.visit_group_mut(group),
        Tree::Text(s) => v.visit_text_mut(s),
        Tree::Code(s) => v.visit_code_mut(s),
        Tree::Html(s) => v.visit_html_mut(s),
        Tree::InlineHtml(s) => v.visit_inline_html_mut(s),
        Tree::FootnoteReference(s) => v.visit_footnote_reference_mut(s),
        Tree::TaskListMarker(s) => v.visit_task_list_marker_mut(s),
        Tree::InlineMath(s) => v.visit_inline_math_mut(s),
        Tree::DisplayMath(s) => v.visit_display_math_mut(s),
        Tree::SoftBreak(span) => v.visit_soft_break_mut(span),
        Tree::HardBreak(span) => v.visit_hard_break_mut(span),
        Tree::Rule(span) => v.visit_rule_mut(span),
    }
}

/// The standard scalar hook: leave the payload unchanged.
pub fn visit_cow_str_mut<V: VisitMut>(v: &mut V, node: &mut String)
    ensures
        final(node)@ == old(node)@,
        old(v).is_identity() ==> final(v).is_identity(),
    decreases 0nat, 1nat,
{
}

/// The standard `text` hook: forward the payload to the scalar hook.
/// Whatever the visitor does to the payload, the span is unchanged: it is
/// never handed to a hook.
pub fn visit_text_mut<V: VisitMut>(v: &mut V, node: &mut Spanned<String>)
    ensures
        final(node).span == old(node).span,
        old(v).is_identity() ==> final(v).is_identity() && final(node).deep_view() == old(node).deep_view(),
    decreases 0nat, 11nat,
{
    v.visit_cow_str_mut(&mut node.item)
}

/// The standard `code` hook: forward the payload to the scalar hook.
/// Whatever the visitor does to the payload, the span is unchanged: it is
/// never handed to a hook.
pub fn visit_code_mut<V: VisitMut>(v: &mut V, node: &mut Spanned<String>)
    ensures
        final(node).span == old(node).span,
        old(v).is_identity() ==> final(v).is_identity() && final(node).deep_view() == old(node).deep_view(),
    decreases 0nat, 11nat,
{
    v.visit_cow_str_mut(&mut node.item)
}

/// The standard `html` hook: forward the payload to the scalar hook.
/// Whatever the visitor does to the payload, the span is unchanged: it is
/// never handed to a hook.
pub fn visit_html_mut<V: VisitMut>(v: &mut V, node: &mut Spanned<String>)
    ensures
        final(node).span == old(node).span,
        old(v).is_identity() ==> final(v).is_identity() && final(node).deep_view() == old(node).deep_view(),
    decreases 0nat, 11nat,
{
    v.visit_cow_str_mut(&mut node.item)
}

/// The standard `inline_html` hook: forward the payload to the scalar hook.
/// Whatever the visitor does to the payload, the span is unchanged: it is
/// never handed to a hook.
pub fn visit_inline_html_mut<V: VisitMut>(v: &mut V, node: &mut Spanned<String>)
    ensures
        final(node).span == old(node).span,
        old(v).is_identity() ==> final(v).is_identity() && final(node).deep_view() == old(node).deep_view(),
    decreases 0nat, 11nat,
{
    v.visit_cow_str_mut(&mut node.item)
}

/// The standard `footnote_reference` hook: forward the payload to the scalar hook.
/// Whatever the visitor does to the payload, the span is unchanged: it is
/// never handed to a hook.
pub fn visit_footnote_reference_mut<V: VisitMut>(v: &mut V, node: &mut Spanned<String>)
    ensures
        final(node).span == old(node).span,
        old(v).is_identity() ==> final(v).is_identity() && final(node).deep_view() == old(node).deep_view(),
    decreases 0nat, 11nat,
{
    v.visit_cow_str_mut(&mut node.item)
}

/// The standard `inline_math` hook: forward the payload to the scalar hook.
/// Whatever the visitor does to the payload, the span is unchanged: it is
/// never handed to a hook.
pub fn visit_inline_math_mut<V: VisitMut>(v: &mut V, node: &mut Spanned<String>)
    ensures
        final(node).span == old(node).span,
        old(v).is_identity() ==> final(v).is_identity() && final(node).deep_view() == old(node).deep_view(),
    decreases 0nat, 11nat,
{
    v.visit_cow_str_mut(&mut node.item)
}

/// The standard `display_math` hook: forward the payload to the scalar hook.
/// Whatever the visitor does to the payload, the span is unchanged: it is
/// never handed to a hook.
pub fn visit_display_math_mut<V: VisitMut>(v: &mut V, node: &mut Spanned<String>)
    ensures
        final(node).span == old(node).span,
        old(v).is_identity() ==> final(v).is_identity() && final(node).deep_view() == old(node).deep_view(),
    decreases 0nat, 11nat,
{
    v.visit_cow_str_mut(&mut node.item)
}

/// The standard task list marker hook: change nothing.
pub fn visit_task_list_marker_mut<V: VisitMut>(v: &mut V, node: &mut Spanned<bool>)
    ensures
        *final(node) == *old(node),
        old(v).is_identity() ==> final(v).is_identity(),
    decreases 0nat, 9nat,
{
}

/// The standard `soft_break` hook: change nothing.
pub fn visit_soft_break_mut<V: VisitMut>(v: &mut V, node: &mut Span)
    ensures
        *final(node) == *old(node),
        old(v).is_identity() ==> final(v).is_identity(),
    decreases 0nat, 9nat,
{
}

/// The standard `hard_break` hook: change nothing.
pub fn visit_hard_break_mut<V: VisitMut>(v: &mut V, node: &mut Span)
    ensures
        *final(node) == *old(node),
        old(v).is_identity() ==> final(v).is_identity(),
    decreases 0nat, 9nat,
{
}

/// The standard `rule` hook: change nothing.
pub fn visit_rule_mut<V: VisitMut>(v: &mut V, node: &mut Span)
    ensures
        *final(node) == *old(node),
        old(v).is_identity() ==> final(v).is_identity(),
    decreases 0nat, 9nat,
{
}

/// The standard group traversal: dispatch on the open tag's kind, handing
/// the hook the tag's metadata, the children and both spans. Whatever the
/// visitor's hooks do, the container kind is unchanged — no hook ever
/// receives the tag itself — so the close kind the group corresponds to
/// cannot change either.
pub fn visit_group_mut<V: VisitMut>(v: &mut V, node: &mut Group)
    ensures
        same_tag_kind(old(node).tag.item, final(node).tag.item),
        old(v).is_identity() ==> final(v).is_identity() && final(node).deep_view() == old(node).deep_view(),
    decreases 1 + ast_size(node.stream), 13nat,
{
    match &mut node.tag.item {
        Tag::Paragraph => v.visit_paragraph_mut(&mut node.stream, &mut node.tag.span, &mut node.end_span),
        Tag::Heading { level, id, classes, attrs } => v.visit_heading_mut(
            level,
            id,
            classes,
            attrs,
            &mut node.stream,
            &mut node.tag.span,
            &mut node.end_span,
        ),
        Tag::BlockQuote(kind) => v.visit_block_quote_mut(kind, &mut node.stream, &mut node.tag.span, &mut node.end_span),
        Tag::CodeBlock(kind) => v.visit_code_block_mut(kind, &mut node.stream, &mut node.tag.span, &mut node.end_span),
        Tag::HtmlBlock => v.visit_html_block_mut(&mut node.stream, &mut node.tag.span, &mut node.end_span),
        Tag::List(start) => v.visit_list_mut(start, &mut node.stream, &mut node.tag.span, &mut node.end_span),
        Tag::Item => v.visit_item_mut(&mut node.stream, &mut node.tag.span, &mut node.end_span),
        Tag::FootnoteDefinition(label) => v.visit_footnote_definition_mut(label, &mut node.stream, &mut node.tag.span, &mut node.end_span),
        Tag::Table(alignments) => v.visit_table_mut(alignments, &mut node.stream, &mut node.tag.span, &mut node.end_span),
        Tag::TableHead => v.visit_table_head_mut(&mut node.stream, &mut node.tag.span, &mut node.end_span),
        Tag::TableRow => v.visit_table_row_mut(&mut node.stream, &mut node.tag.span, &mut node.end_span),
        Tag::TableCell => v.visit_table_cell_mut(&mut node.stream, &mut node.tag.span, &mut node.end_span),
        Tag::Emphasis => v.visit_emphasis_mut(&mut node.stream, &mut node.tag.span, &mut node.end_span),
        Tag::Strong => v.visit_strong_mut(&mut node.stream, &mut node.tag.span, &mut node.end_span),
        Tag::Strikethrough => v.visit_strikethrough_mut(&mut node.stream, &mut node.tag.span, &mut node.end_span),
        Tag::Link { link_type, dest_url, title, id } => v.visit_link_mut(
            link_type,
            dest_url,
            title,
            id,
            &mut node.stream,
            &mut node.tag.span,
            &mut node.end_span,
        ),
        Tag::Image { link_type, dest_url, title, id } => v.visit_image_mut(
            link_type,
            dest_url,
            title,
            id,
            &mut node.stream,
            &mut node.tag.span,
            &mut node.end_span,
        ),
        Tag::MetadataBlock(kind) => v.visit_metadata_block_mut(kind, &mut node.stream, &mut node.tag.span, &mut node.end_span),
    }
}

/// The standard `strikethrough` hook: recurse into the children. The spans
/// are never handed to a hook and stay unchanged for every visitor.
pub fn visit_strikethrough_mut<V: VisitMut>(
    v: &mut V,
    stream: &mut Ast,
    begin_span: &mut Span,
    end_span: &mut Span,
)
    ensures
        *final(begin_span) == *old(begin_span),
        *final(end_span) == *old(end_span),
        old(v).is_identity() ==> final(v).is_identity() && final(stream).deep_view() == old(stream).deep_view(),
    decreases ast_size(*stream), 19nat,
{
    v.visit_ast_mut(stream)
}

/// The standard `strong` hook: recurse into the children. The spans
/// are never handed to a hook and stay unchanged for every visitor.
pub fn visit_strong_mut<V: VisitMut>(
    v: &mut V,
    stream: &mut Ast,
    begin_span: &mut Span,
    end_span: &mut Span,
)
    ensures
        *final(begin_span) == *old(begin_span),
        *final(end_span) == *old(end_span),
        old(v).is_identity() ==> final(v).is_identity() && final(stream).deep_view() == old(stream).deep_view(),
    decreases ast_size(*stream), 19nat,
{
    v.visit_ast_mut(stream)
}

/// The standard `emphasis` hook: recurse into the children. The spans
/// are never handed to a hook and stay unchanged for every visitor.
pub fn visit_emphasis_mut<V: VisitMut>(
    v: &mut V,
    stream: &mut Ast,
    begin_span: &mut Span,
    end_span: &mut Span,
)
    ensures
        *final(begin_span) == *old(begin_span),
        *final(end_span) == *old(end_span),
        old(v).is_identity() ==> final(v).is_identity() && final(stream).deep_view() == old(stream).deep_view(),
    decreases ast_size(*stream), 19nat,
{
    v.visit_ast_mut(stream)
}

/// The standard `table_cell` hook: recurse into the children. The spans
/// are never handed to a hook and stay unchanged for every visitor.
pub fn visit_table_cell_mut<V: VisitMut>(
    v: &mut V,
    stream: &mut Ast,
    begin_span: &mut Span,
    end_span: &mut Span,
)
    ensures
        *final(begin_span) == *old(begin_span),
        *final(end_span) == *old(end_span),
        old(v).is_identity() ==> final(v).is_identity() && final(stream).deep_view() == old(stream).deep_view(),
    decreases ast_size(*stream), 19nat,
{
    v.visit_ast_mut(stream)
}

/// The standard `table_row` hook: recurse into the children. The spans
/// are never handed to a hook and stay unchanged for every visitor.
pub fn visit_table_row_mut<V: VisitMut>(
    v: &mut V,
    stream: &mut Ast,
    begin_span: &mut Span,
    end_span: &mut Span,
)
    ensures
        *final(begin_span) == *old(begin_span),
        *final(end_span) == *old(end_span),
        old(v).is_identity() ==> final(v).is_identity() && final(stream).deep_view() == old(stream).deep_view(),
    decreases ast_size(*stream), 19nat,
{
    v.visit_ast_mut(stream)
}

/// The standard `table_head` hook: recurse into the children. The spans
/// are never handed to a hook and stay unchanged for every visitor.
pub fn visit_table_head_mut<V: VisitMut>(
    v: &mut V,
    stream: &mut Ast,
    begin_span: &mut Span,
    end_span: &mut Span,
)
    ensures
        *final(begin_span) == *old(begin_span),
        *final(end_span) == *old(end_span),
        old(v).is_identity() ==> final(v).is_identity() && final(stream).deep_view() == old(stream).deep_view(),
    decreases ast_size(*stream), 19nat,
{
    v.visit_ast_mut(stream)
}

/// The standard `html_block` hook: recurse into the children. The spans
/// are never handed to a hook and stay unchanged for every visitor.
pub fn visit_html_block_mut<V: VisitMut>(
    v: &mut V,
    stream: &mut Ast,
    begin_span: &mut Span,
    end_span: &mut Span,
)
    ensures
        *final(begin_span) == *old(begin_span),
        *final(end_span) == *old(end_span),
        old(v).is_identity() ==> final(v).is_identity() && final(stream).deep_view() == old(stream).deep_view(),
    decreases ast_size(*stream), 19nat,
{
    v.visit_ast_mut(stream)
}

/// The standard `paragraph` hook: recurse into the children. The spans
/// are never handed to a hook and stay unchanged for every visitor.
pub fn visit_paragraph_mut<V: VisitMut>(
    v: &mut V,
    stream: &mut Ast,
    begin_span: &mut Span,
    end_span: &mut Span,
)
    ensures
        *final(begin_span) == *old(begin_span),
        *final(end_span) == *old(end_span),
        old(v).is_identity() ==> final(v).is_identity() && final(stream).deep_view() == old(stream).deep_view(),
    decreases ast_size(*stream), 19nat,
{
    v.visit_ast_mut(stream)
}

/// The standard `item` hook: recurse into the children. The spans
/// are never handed to a hook and stay unchanged for every visitor.
pub fn visit_item_mut<V: VisitMut>(
    v: &mut V,
    stream: &mut Ast,
    begin_span: &mut Span,
    end_span: &mut Span,
)
    ensures
        *final(begin_span) == *old(begin_span),
        *final(end_span) == *old(end_span),
        old(v).is_identity() ==> final(v).is_identity() && final(stream).deep_view() == old(stream).deep_view(),
    decreases ast_size(*stream), 19nat,
{
    v.visit_ast_mut(stream)
}

/// The standard table hook: recurse into the children. The alignments
/// and the spans are never handed to a hook and stay unchanged for every
/// visitor.
pub fn visit_table_mut<V: VisitMut>(
    v: &mut V,
    node: &mut Vec<Alignment>,
    stream: &mut Ast,
    begin_span: &mut Span,
    end_span: &mut Span,
)
    ensures
        final(node).deep_view() == old(node).deep_view(),
        *final(begin_span) == *old(begin_span),
        *final(end_span) == *old(end_span),
        old(v).is_identity() ==> final(v).is_identity() && final(stream).deep_view() == old(stream).deep_view(),
    decreases ast_size(*stream), 19nat,
{
    v.visit_ast_mut(stream)
}

/// The standard footnote definition hook: forward the label to the scalar
/// hook, recurse into the children. The spans are never handed to a hook
/// and stay unchanged for every visitor.
pub fn visit_footnote_definition_mut<V: VisitMut>(
    v: &mut V,
    node: &mut String,
    stream: &mut Ast,
    begin_span: &mut Span,
    end_span: &mut Span,
)
    ensures
        *final(begin_span) == *old(begin_span),
        *final(end_span) == *old(end_span),
        old(v).is_identity() ==> final(v).is_identity() && final(node)@ == old(node)@ && final(stream).deep_view() == old(stream).deep_view(),
    decreases ast_size(*stream), 19nat,
{
    v.visit_cow_str_mut(node);
    v.visit_ast_mut(stream)
}

/// The standard list hook: recurse into the children. The start number
/// and the spans are never handed to a hook and stay unchanged for every
/// visitor.
pub fn visit_list_mut<V: VisitMut>(
    v: &mut V,
    node: &mut Option<u64>,
    stream: &mut Ast,
    begin_span: &mut Span,
    end_span: &mut Span,
)
    ensures
        *final(node) == *old(node),
        *final(begin_span) == *old(begin_span),
        *final(end_span) == *old(end_span),
        old(v).is_identity() ==> final(v).is_identity() && final(stream).deep_view() == old(stream).deep_view(),
    decreases ast_size(*stream), 19nat,
{
    v.visit_ast_mut(stream)
}

/// The standard code block hook: recurse into the children. The kind and
/// the spans are never handed to a hook and stay unchanged for every
/// visitor.
pub fn visit_code_block_mut<V: VisitMut>(
    v: &mut V,
    node: &mut CodeBlockKind,
    stream: &mut Ast,
    begin_span: &mut Span,
    end_span: &mut Span,
)
    ensures
        final(node).deep_view() == old(node).deep_view(),
        *final(begin_span) == *old(begin_span),
        *final(end_span) == *old(end_span),
        old(v).is_identity() ==> final(v).is_identity() && final(stream).deep_view() == old(stream).deep_view(),
    decreases ast_size(*stream), 19nat,
{
    v.visit_ast_mut(stream)
}

/// The standard block quote hook: recurse into the children. The kind and
/// the spans are never handed to a hook and stay unchanged for every
/// visitor.
pub fn visit_block_quote_mut<V: VisitMut>(
    v: &mut V,
    node: &mut Option<BlockQuoteKind>,
    stream: &mut Ast,
    begin_span: &mut Span,
    end_span: &mut Span,
)
    ensures
        *final(node) == *old(node),
        *final(begin_span) == *old(begin_span),
        *final(end_span) == *old(end_span),
        old(v).is_identity() ==> final(v).is_identity() && final(stream).deep_view() == old(stream).deep_view(),
    decreases ast_size(*stream), 19nat,
{
    v.visit_ast_mut(stream)
}

/// The standard heading hook: recurse into the children. The level,
/// identifier, classes, attributes and spans are never handed to a hook
/// and stay unchanged for every visitor.
pub fn visit_heading_mut<V: VisitMut>(
    v: &mut V,
    level: &mut HeadingLevel,
    id: &mut Option<String>,
    classes: &mut Vec<String>,
    attrs: &mut Vec<(String, Option<String>)>,
    stream: &mut Ast,
    begin_span: &mut Span,
    end_span: &mut Span,
)
    ensures
        *final(level) == *old(level),
        final(id).deep_view() == old(id).deep_view(),
        final(classes).deep_view() == old(classes).deep_view(),
        final(attrs).deep_view() == old(attrs).deep_view(),
        *final(begin_span) == *old(begin_span),
        *final(end_span) == *old(end_span),
        old(v).is_identity() ==> final(v).is_identity() && final(stream).deep_view() == old(stream).deep_view(),
    decreases ast_size(*stream), 19nat,
{
    v.visit_ast_mut(stream)
}

/// The standard metadata block hook: recurse into the children. The kind
/// and the spans are never handed to a hook and stay unchanged for every
/// visitor.
pub fn visit_metadata_block_mut<V: VisitMut>(
    v: &mut V,
    node: &mut MetadataBlockKind,
    stream: &mut Ast,
    begin_span: &mut Span,
    end_span: &mut Span,
)
    ensures
        *final(node) == *old(node),
        *final(begin_span) == *old(begin_span),
        *final(end_span) == *old(end_span),
        old(v).is_identity() ==> final(v).is_identity() && final(stream).deep_view() == old(stream).deep_view(),
    decreases ast_size(*stream), 19nat,
{
    v.visit_ast_mut(stream)
}

/// The standard image hook: forward destination, title and identifier to
/// the scalar hook, recurse into the children. The link type and the
/// spans are never handed to a hook and stay unchanged for every visitor.
pub fn visit_image_mut<V: VisitMut>(
    v: &mut V,
    link_type: &mut LinkType,
    dest_url: &mut String,
    title: &mut String,
    id: &mut String,
    stream: &mut Ast,
    begin_span: &mut Span,
    end_span: &mut Span,
)
    ensures
        *final(link_type) == *old(link_type),
        *final(begin_span) == *old(begin_span),
        *final(end_span) == *old(end_span),
        old(v).is_identity() ==> final(v).is_identity() && final(dest_url)@ == old(dest_url)@ && final(title)@ == old(title)@
            && final(id)@ == old(id)@ && final(stream).deep_view() == old(stream).deep_view(),
    decreases ast_size(*stream), 19nat,
{
    v.visit_cow_str_mut(dest_url);
    v.visit_cow_str_mut(title);
    v.visit_cow_str_mut(id);
    v.visit_ast_mut(stream)
}

/// The standard link hook: forward destination, title and identifier to
/// the scalar hook, recurse into the children. The link type and the
/// spans are never handed to a hook and stay unchanged for every visitor.
pub fn visit_link_mut<V: VisitMut>(
    v: &mut V,
    link_type: &mut LinkType,
    dest_url: &mut String,
    title: &mut String,
    id: &mut String,
    stream: &mut Ast,
    begin_span: &mut Span,
    end_span: &mut Span,
)
    ensures
        *final(link_type) == *old(link_type),
        *final(begin_span) == *old(begin_span),
        *final(end_span) == *old(end_span),
        old(v).is_identity() ==> final(v).is_identity() && final(dest_url)@ == old(dest_url)@ && final(title)@ == old(title)@
            && final(id)@ == old(id)@ && final(stream).deep_view() == old(stream).deep_view(),
    decreases ast_size(*stream), 19nat,
{
    v.visit_cow_str_mut(dest_url);
    v.visit_cow_str_mut(title);
    v.visit_cow_str_mut(id);
    v.visit_ast_mut(stream)
}
/// A visitor whose hooks change nothing, with [`VisitMut::is_identity`]
/// answering `true`: every hook's contract then promises that visiting
/// leaves the visited value unchanged. A visitor that keeps the default
/// leaf hooks and hands its container hooks to the free functions of this
/// module obeys the same contracts, as those functions' own contracts
/// state.
pub struct IdentityVisitor;

impl VisitMut for IdentityVisitor {
    open spec fn is_identity(&self) -> bool {
        true
    }

    fn visit_ast_mut(&mut self, node: &mut Ast) {
        let _ = node;
    }

    fn visit_tree_mut(&mut self, node: &mut Tree) {
        let _ = node;
    }

    fn visit_group_mut(&mut self, node: &mut Group) {
        let _ = node;
    }

    fn visit_strikethrough_mut(&mut self, stream: &mut Ast, begin_span: &mut Span, end_span: &mut Span) {
        let _ = stream;
        let _ = begin_span;
        let _ = end_span;
    }

    fn visit_strong_mut(&mut self, stream: &mut Ast, begin_span: &mut Span, end_span: &mut Span) {
        let _ = stream;
        let _ = begin_span;
        let _ = end_span;
    }

    fn visit_emphasis_mut(&mut self, stream: &mut Ast, begin_span: &mut Span, end_span: &mut Span) {
        let _ = stream;
        let _ = begin_span;
        let _ = end_span;
    }

    fn visit_table_cell_mut(&mut self, stream: &mut Ast, begin_span: &mut Span, end_span: &mut Span) {
        let _ = stream;
        let _ = begin_span;
        let _ = end_span;
    }

    fn visit_table_row_mut(&mut self, stream: &mut Ast, begin_span: &mut Span, end_span: &mut Span) {
        let _ = stream;
        let _ = begin_span;
        let _ = end_span;
    }

    fn visit_table_head_mut(&mut self, stream: &mut Ast, begin_span: &mut Span, end_span: &mut Span) {
        let _ = stream;
        let _ = begin_span;
        let _ = end_span;
    }

    fn visit_html_block_mut(&mut self, stream: &mut Ast, begin_span: &mut Span, end_span: &mut Span) {
        let _ = stream;
        let _ = begin_span;
        let _ = end_span;
    }

    fn visit_paragraph_mut(&mut self, stream: &mut Ast, begin_span: &mut Span, end_span: &mut Span) {
        let _ = stream;
        let _ = begin_span;
        let _ = end_span;
    }

    fn visit_item_mut(&mut self, stream: &mut Ast, begin_span: &mut Span, end_span: &mut Span) {
        let _ = stream;
        let _ = begin_span;
        let _ = end_span;
    }

    fn visit_table_mut(
        &mut self,
        node: &mut Vec<Alignment>,
        stream: &mut Ast,
        begin_span: &mut Span,
        end_span: &mut Span,
    ) {
        let _ = node;
        let _ = stream;
        let _ = begin_span;
        let _ = end_span;
    }

    fn visit_footnote_definition_mut(
        &mut self,
        node: &mut String,
        stream: &mut Ast,
        begin_span: &mut Span,
        end_span: &mut Span,
    ) {
        let _ = node;
        let _ = stream;
        let _ = begin_span;
        let _ = end_span;
    }

    fn visit_list_mut(
        &mut self,
        node: &mut Option<u64>,
        stream: &mut Ast,
        begin_span: &mut Span,
        end_span: &mut Span,
    ) {
        let _ = node;
        let _ = stream;
        let _ = begin_span;
        let _ = end_span;
    }

    fn visit_code_block_mut(
        &mut self,
        node: &mut CodeBlockKind,
        stream: &mut Ast,
        begin_span: &mut Span,
        end_span: &mut Span,
    ) {
        let _ = node;
        let _ = stream;
        let _ = begin_span;
        let _ = end_span;
    }

    fn visit_block_quote_mut(
        &mut self,
        node: &mut Option<BlockQuoteKind>,
        stream: &mut Ast,
        begin_span: &mut Span,
        end_span: &mut Span,
    ) {
        let _ = node;
        let _ = stream;
        let _ = begin_span;
        let _ = end_span;
    }

    fn visit_metadata_block_mut(
        &mut self,
        node: &mut MetadataBlockKind,
        stream: &mut Ast,
        begin_span: &mut Span,
        end_span: &mut Span,
    ) {
        let _ = node;
        let _ = stream;
        let _ = begin_span;
        let _ = end_span;
    }

    fn visit_heading_mut(
        &mut self,
        level: &mut HeadingLevel,
        id: &mut Option<String>,
        classes: &mut Vec<String>,
        attrs: &mut Vec<(String, Option<String>)>,
        stream: &mut Ast,
        begin_span: &mut Span,
        end_span: &mut Span,
    ) {
        let _ = level;
        let _ = id;
        let _ = classes;
        let _ = attrs;
        let _ = stream;
        let _ = begin_span;
        let _ = end_span;
    }

    fn visit_image_mut(
        &mut self,
        link_type: &mut LinkType,
        dest_url: &mut String,
        title: &mut String,
        id: &mut String,
        stream: &mut Ast,
        begin_span: &mut Span,
        end_span: &mut Span,
    ) {
        let _ = link_type;
        let _ = dest_url;
        let _ = title;
        let _ = id;
        let _ = stream;
        let _ = begin_span;
        let _ = end_span;
    }

    fn visit_link_mut(
        &mut self,
        link_type: &mut LinkType,
        dest_url: &mut String,
        title: &mut String,
        id: &mut String,
        stream: &mut Ast,
        begin_span: &mut Span,
        end_span: &mut Span,
    ) {
        let _ = link_type;
        let _ = dest_url;
        let _ = title;
        let _ = id;
        let _ = stream;
        let _ = begin_span;
        let _ = end_span;
    }
}

} // verus!

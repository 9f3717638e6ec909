//! The nested tree model: a [`Tree`] is a matched container with its
//! children ([`Group`]) or a leaf token; an [`Ast`] is the ordered forest of
//! top-level trees. [`Ast::linearize`] projects a forest back to the flat
//! token stream it was built from.

use vstd::prelude::*;

use crate::event::{Event, EventView, Tag, TagView, spec_to_end};
use crate::{Span, Spanned};

verus! {

broadcast use vstd::std_specs::vec::group_vec_axioms, vstd::seq::group_seq_axioms;

/// Spec-level view of [`Tree`].
pub enum TreeView {
    Group(GroupView),
    Text(Spanned<Seq<char>>),
    Code(Spanned<Seq<char>>),
    Html(Spanned<Seq<char>>),
    InlineHtml(Spanned<Seq<char>>),
    FootnoteReference(Spanned<Seq<char>>),
    SoftBreak(Span),
    HardBreak(Span),
    Rule(Span),
    TaskListMarker(Spanned<bool>),
    InlineMath(Spanned<Seq<char>>),
    DisplayMath(Spanned<Seq<char>>),
}

/// Spec-level view of [`Group`].
pub struct GroupView {
    pub tag: Spanned<TagView>,
    pub stream: Seq<TreeView>,
    pub end_span: Span,
}

/// A node of the tree: either a matched open/close pair with its nested
/// content, or a single leaf token carrying its own span.
#[derive(Debug, PartialEq)]
pub enum Tree {
    Group(Group),
    Text(Spanned<String>),
    /// An inline code node.
    Code(Spanned<String>),
    /// An HTML node.
    Html(Spanned<String>),
    /// An inline HTML node.
    InlineHtml(Spanned<String>),
    /// A reference to a footnote with the given label, which may or may not
    /// be defined by a footnote-definition group. Definitions and references
    /// to them may occur in any order.
    FootnoteReference(Spanned<String>),
    /// A soft line break.
    SoftBreak(Span),
    /// A hard line break.
    HardBreak(Span),
    /// A horizontal ruler.
    Rule(Span),
    /// A task list marker; holds `true` when the box is checked.
    TaskListMarker(Spanned<bool>),
    /// An inline math environment node.
    InlineMath(Spanned<String>),
    /// A display math environment node.
    DisplayMath(Spanned<String>),
}

/// A matched container: the open tag with its metadata and span, the nested
/// content, and the span of the close marker. The group's effective span is
/// `[tag.span.start, end_span.end)`.
#[derive(Debug, PartialEq)]
pub struct Group {
    pub tag: Spanned<Tag>,
    pub stream: Ast,
    pub end_span: Span,
}

/// The ordered forest of top-level trees; the top level has no implicit
/// wrapping group.
#[derive(Debug, PartialEq)]
pub struct Ast(pub Vec<Tree>);

impl DeepView for Tree {
    type V = TreeView;

    open spec fn deep_view(&self) -> TreeView
        decreases self,
    {
        match self {
            Tree::Group(group) => TreeView::Group(group.deep_view()),
            Tree::Text(s) => TreeView::Text(s.deep_view()),
            Tree::Code(s) => TreeView::Code(s.deep_view()),
            Tree::Html(s) => TreeView::Html(s.deep_view()),
            Tree::InlineHtml(s) => TreeView::InlineHtml(s.deep_view()),
            Tree::FootnoteReference(s) => TreeView::FootnoteReference(s.deep_view()),
            Tree::SoftBreak(span) => TreeView::SoftBreak(*span),
            Tree::HardBreak(span) => TreeView::HardBreak(*span),
            Tree::Rule(span) => TreeView::Rule(*span),
            Tree::TaskListMarker(s) => TreeView::TaskListMarker(s.deep_view()),
            Tree::InlineMath(s) => TreeView::InlineMath(s.deep_view()),
            Tree::DisplayMath(s) => TreeView::DisplayMath(s.deep_view()),
        }
    }
}

/// The views of a sequence of trees, elementwise.
pub open spec fn trees_view(ts: Seq<Tree>) -> Seq<TreeView>
    decreases ts,
{
    if ts.len() == 0 {
        Seq::empty()
    } else {
        trees_view(ts.subrange(0, ts.len() - 1)).push(ts[ts.len() - 1].deep_view())
    }
}

/// [`trees_view`] maps a sequence of trees to their views, elementwise.
pub broadcast proof fn lemma_trees_view(ts: Seq<Tree>)
    ensures
        (#[trigger] trees_view(ts)).len() == ts.len(),
        forall|i: int| 0 <= i < ts.len() ==> trees_view(ts)[i] == ts[i].deep_view(),
    decreases ts.len(),
{
    if ts.len() > 0 {
        lemma_trees_view(ts.subrange(0, ts.len() - 1));
        assert(trees_view(ts) == trees_view(ts.subrange(0, ts.len() - 1)).push(
            ts[ts.len() - 1].deep_view(),
        ));
        assert(trees_view(ts.subrange(0, ts.len() - 1)).len() == ts.len() - 1);
        assert(trees_view(ts).len() == ts.len());
    }
}

impl DeepView for Group {
    type V = GroupView;

    open spec fn deep_view(&self) -> GroupView
        decreases self,
    {
        proof {
            assert(decreases_to!(self => self.stream));
            assert(decreases_to!(self.stream => self.stream.0));
            assert(decreases_to!(self.stream.0 => self.stream.0@));
        }
        GroupView {
            tag: self.tag.deep_view(),
            stream: trees_view(self.stream.0@),
            end_span: self.end_span,
        }
    }
}

impl DeepView for Ast {
    type V = Seq<TreeView>;

    open spec fn deep_view(&self) -> Seq<TreeView> {
        trees_view(self.0@)
    }
}

impl Default for Ast {
    /// An empty forest.
    fn default() -> (r: Self)
        ensures
            r.deep_view() == Seq::<TreeView>::empty(),
    {
        let r = Ast(Vec::new());
        proof {
            lemma_trees_view(r.0@);
            assert(r.deep_view() =~= Seq::<TreeView>::empty());
        }
        r
    }
}

/// Whether two trees are of the same kind: both groups, or leaves of the
/// same leaf kind. The rewriting traversal's dispatch preserves this for
/// every visitor: each hook receives the variant's payload, never the tree
/// itself.
pub open spec fn same_tree_kind(a: Tree, b: Tree) -> bool {
    match a {
        Tree::Group(_) => b is Group,
        Tree::Text(_) => b is Text,
        Tree::Code(_) => b is Code,
        Tree::Html(_) => b is Html,
        Tree::InlineHtml(_) => b is InlineHtml,
        Tree::FootnoteReference(_) => b is FootnoteReference,
        Tree::SoftBreak(_) => b is SoftBreak,
        Tree::HardBreak(_) => b is HardBreak,
        Tree::Rule(_) => b is Rule,
        Tree::TaskListMarker(_) => b is TaskListMarker,
        Tree::InlineMath(_) => b is InlineMath,
        Tree::DisplayMath(_) => b is DisplayMath,
    }
}

/// The number of nodes of a tree, counting a group as two (the node and
/// its frame) so that a group strictly outweighs its children. Traversals
/// use it as their termination measure.
pub open spec fn tree_size(t: Tree) -> nat
    decreases t,
{
    match t {
        Tree::Group(g) => {
            proof {
                assert(decreases_to!(t => g));
                assert(decreases_to!(g => g.stream));
                assert(decreases_to!(g.stream => g.stream.0));
                assert(decreases_to!(g.stream.0 => g.stream.0@));
            }
            2 + trees_size(g.stream.0@)
        },
        _ => 1,
    }
}

/// The total size of a sequence of trees.
pub open spec fn trees_size(ts: Seq<Tree>) -> nat
    decreases ts,
{
    if ts.len() == 0 {
        0
    } else {
        trees_size(ts.subrange(0, ts.len() - 1)) + tree_size(ts[ts.len() - 1])
    }
}

/// The total size of a forest.
pub open spec fn ast_size(a: Ast) -> nat {
    trees_size(a.0@)
}

/// No tree of a sequence outweighs the sequence.
pub proof fn lemma_trees_size_element(ts: Seq<Tree>, i: int)
    requires
        0 <= i < ts.len(),
    ensures
        tree_size(ts[i]) <= trees_size(ts),
    decreases ts.len(),
{
    if i < ts.len() - 1 {
        let prefix = ts.subrange(0, ts.len() - 1);
        lemma_trees_size_element(prefix, i);
        assert(prefix[i] == ts[i]);
    }
}

/// The flat token sequence that a single tree stands for.
pub open spec fn lin_tree(t: TreeView) -> Seq<Spanned<EventView>>
    decreases t,
{
    match t {
        TreeView::Group(g) => lin_group(g),
        TreeView::Text(s) => seq![Spanned { item: EventView::Text(s.item), span: s.span }],
        TreeView::Code(s) => seq![Spanned { item: EventView::Code(s.item), span: s.span }],
        TreeView::Html(s) => seq![Spanned { item: EventView::Html(s.item), span: s.span }],
        TreeView::InlineHtml(s) => seq![
            Spanned { item: EventView::InlineHtml(s.item), span: s.span },
        ],
        TreeView::FootnoteReference(s) => seq![
            Spanned { item: EventView::FootnoteReference(s.item), span: s.span },
        ],
        TreeView::SoftBreak(span) => seq![Spanned { item: EventView::SoftBreak, span: span }],
        TreeView::HardBreak(span) => seq![Spanned { item: EventView::HardBreak, span: span }],
        TreeView::Rule(span) => seq![Spanned { item: EventView::Rule, span: span }],
        TreeView::TaskListMarker(s) => seq![
            Spanned { item: EventView::TaskListMarker(s.item), span: s.span },
        ],
        TreeView::InlineMath(s) => seq![
            Spanned { item: EventView::InlineMath(s.item), span: s.span },
        ],
        TreeView::DisplayMath(s) => seq![
            Spanned { item: EventView::DisplayMath(s.item), span: s.span },
        ],
    }
}

/// The flat token sequence that a group stands for: its open marker, the
/// linearization of its children in order, and the matching close marker at
/// the group's end span.
pub open spec fn lin_group(g: GroupView) -> Seq<Spanned<EventView>>
    decreases g,
{
    seq![Spanned { item: EventView::Start(g.tag.item), span: g.tag.span }] + lin_trees(g.stream)
        + seq![Spanned { item: EventView::End(spec_to_end(g.tag.item)), span: g.end_span }]
}

/// The flat token sequence that a forest stands for: the concatenation of
/// its trees' sequences, in order.
pub open spec fn lin_trees(ts: Seq<TreeView>) -> Seq<Spanned<EventView>>
    decreases ts,
{
    if ts.len() == 0 {
        Seq::empty()
    } else {
        lin_tree(ts[0]) + lin_trees(ts.drop_first())
    }
}

/// Linearization distributes over concatenation of forests.
pub proof fn lemma_lin_trees_concat(s1: Seq<TreeView>, s2: Seq<TreeView>)
    ensures
        lin_trees(s1 + s2) == lin_trees(s1) + lin_trees(s2),
    decreases s1,
{
    if s1.len() == 0 {
        assert(s1 + s2 =~= s2);
        assert(lin_trees(s1) + lin_trees(s2) =~= lin_trees(s2));
    } else {
        lemma_lin_trees_concat(s1.drop_first(), s2);
        assert((s1 + s2).drop_first() =~= s1.drop_first() + s2);
        assert(lin_tree(s1[0]) + (lin_trees(s1.drop_first()) + lin_trees(s2)) =~= (lin_tree(s1[0])
            + lin_trees(s1.drop_first())) + lin_trees(s2));
    }
}

/// Appending one tree to a forest appends its token sequence.
pub proof fn lemma_lin_trees_push(ts: Seq<TreeView>, t: TreeView)
    ensures
        lin_trees(ts.push(t)) == lin_trees(ts) + lin_tree(t),
{
    lemma_lin_trees_concat(ts, seq![t]);
    assert(ts.push(t) =~= ts + seq![t]);
    assert(seq![t].drop_first() =~= Seq::<TreeView>::empty());
    assert(lin_trees(Seq::<TreeView>::empty()) == Seq::<Spanned<EventView>>::empty());
    assert(lin_trees(seq![t]) == lin_tree(t) + Seq::<Spanned<EventView>>::empty());
    assert(lin_tree(t) + Seq::<Spanned<EventView>>::empty() =~= lin_tree(t));
}

impl Tree {
    /// A structurally equal copy of this tree; every span and payload is
    /// copied.
    pub fn deep_clone(&self) -> (r: Tree)
        ensures
            r.deep_view() == self.deep_view(),
        decreases self,
    {
        match self {
            Tree::Group(group) => Tree::Group(group.deep_clone()),
            Tree::Text(s) => Tree::Text(Spanned { item: s.item.clone(), span: s.span }),
            Tree::Code(s) => Tree::Code(Spanned { item: s.item.clone(), span: s.span }),
            Tree::Html(s) => Tree::Html(Spanned { item: s.item.clone(), span: s.span }),
            Tree::InlineHtml(s) => Tree::InlineHtml(
                Spanned { item: s.item.clone(), span: s.span },
            ),
            Tree::FootnoteReference(s) => Tree::FootnoteReference(
                Spanned { item: s.item.clone(), span: s.span },
            ),
            Tree::SoftBreak(span) => Tree::SoftBreak(*span),
            Tree::HardBreak(span) => Tree::HardBreak(*span),
            Tree::Rule(span) => Tree::Rule(*span),
            Tree::TaskListMarker(s) => Tree::TaskListMarker(
                Spanned { item: s.item, span: s.span },
            ),
            Tree::InlineMath(s) => Tree::InlineMath(
                Spanned { item: s.item.clone(), span: s.span },
            ),
            Tree::DisplayMath(s) => Tree::DisplayMath(
                Spanned { item: s.item.clone(), span: s.span },
            ),
        }
    }

    /// Append this tree's flat token sequence to `out`.
    fn push_events(&self, out: &mut Vec<Spanned<Event>>)
        ensures
            final(out).deep_view() == old(out).deep_view() + lin_tree(self.deep_view()),
        decreases self,
    {
        match self {
            Tree::Group(group) => group.push_events(out),
            Tree::Text(s) => out.push(
                Spanned { item: Event::Text(s.item.clone()), span: s.span },
            ),
            Tree::Code(s) => out.push(
                Spanned { item: Event::Code(s.item.clone()), span: s.span },
            ),
            Tree::Html(s) => out.push(
                Spanned { item: Event::Html(s.item.clone()), span: s.span },
            ),
            Tree::InlineHtml(s) => out.push(
                Spanned { item: Event::InlineHtml(s.item.clone()), span: s.span },
            ),
            Tree::FootnoteReference(s) => out.push(
                Spanned { item: Event::FootnoteReference(s.item.clone()), span: s.span },
            ),
            Tree::SoftBreak(span) => out.push(Spanned { item: Event::SoftBreak, span: *span }),
            Tree::HardBreak(span) => out.push(Spanned { item: Event::HardBreak, span: *span }),
            Tree::Rule(span) => out.push(Spanned { item: Event::Rule, span: *span }),
            Tree::TaskListMarker(s) => out.push(
                Spanned { item: Event::TaskListMarker(s.item), span: s.span },
            ),
            Tree::InlineMath(s) => out.push(
                Spanned { item: Event::InlineMath(s.item.clone()), span: s.span },
            ),
            Tree::DisplayMath(s) => out.push(
                Spanned { item: Event::DisplayMath(s.item.clone()), span: s.span },
            ),
        }
        proof {
            assert(out.deep_view() =~= old(out).deep_view() + lin_tree(self.deep_view()));
        }
    }
}

impl Group {
    /// A structurally equal copy of this group.
    pub fn deep_clone(&self) -> (r: Group)
        ensures
            r.deep_view() == self.deep_view(),
        decreases self,
    {
        Group {
            tag: Spanned { item: self.tag.item.deep_clone(), span: self.tag.span },
            stream: self.stream.deep_clone(),
            end_span: self.end_span,
        }
    }

    /// Append this group's flat token sequence to `out`.
    fn push_events(&self, out: &mut Vec<Spanned<Event>>)
        ensures
            final(out).deep_view() == old(out).deep_view() + lin_group(self.deep_view()),
        decreases self,
    {
        out.push(Spanned { item: Event::Start(self.tag.item.deep_clone()), span: self.tag.span });
        let ghost start_token = Spanned {
            item: EventView::Start(self.tag.item.deep_view()),
            span: self.tag.span,
        };
        let ghost after_start = out.deep_view();
        proof {
            lemma_trees_view(self.stream.0@);
            assert(after_start =~= old(out).deep_view() + seq![start_token]);
            assert(after_start + lin_trees(self.stream.deep_view().take(0)) =~= after_start);
        }
        let n = self.stream.0.len();
        for i in 0..n
            invariant
                n == self.stream.0.len(),
                out.deep_view() == after_start + lin_trees(
                    self.stream.deep_view().take(i as int),
                ),
            decreases n - i,
        {
            proof {
                lemma_trees_view(self.stream.0@);
                assert(self.stream.deep_view().take(i + 1).drop_last() =~= self.stream.deep_view()
                    .take(i as int));
                assert(self.stream.deep_view().take(i + 1) =~= self.stream.deep_view().take(
                    i as int,
                ).push(self.stream.deep_view()[i as int]));
                lemma_lin_trees_push(
                    self.stream.deep_view().take(i as int),
                    self.stream.deep_view()[i as int],
                );
            }
            self.stream.0[i].push_events(out);
        }
        proof {
            lemma_trees_view(self.stream.0@);
            assert(self.stream.deep_view().take(n as int) =~= self.stream.deep_view());
        }
        let ghost before_end = out.deep_view();
        out.push(
            Spanned { item: Event::End(self.tag.item.to_end()), span: self.end_span },
        );
        proof {
            let end_token = Spanned {
                item: EventView::End(spec_to_end(self.tag.item.deep_view())),
                span: self.end_span,
            };
            assert(out.deep_view() =~= before_end.push(end_token));
            assert((old(out).deep_view() + seq![start_token] + lin_trees(
                self.stream.deep_view(),
            )).push(end_token) =~= old(out).deep_view() + lin_group(self.deep_view()));
        }
    }
}

impl Ast {
    /// A structurally equal copy of this forest.
    pub fn deep_clone(&self) -> (r: Ast)
        ensures
            r.deep_view() == self.deep_view(),
        decreases self,
    {
        let mut trees: Vec<Tree> = Vec::new();
        let n = self.0.len();
        for i in 0..n
            invariant
                n == self.0.len(),
                trees@.len() == i,
                forall|j: int|
                    0 <= j < i ==> trees@[j].deep_view() == self.0@[j].deep_view(),
            decreases n - i,
        {
            trees.push(self.0[i].deep_clone());
        }
        let r = Ast(trees);
        proof {
            lemma_trees_view(r.0@);
            lemma_trees_view(self.0@);
            assert(r.deep_view() =~= self.deep_view());
        }
        r
    }

    /// Project the forest back to the flat token stream it stands for: for
    /// each tree in order, an open marker, the linearization of its
    /// children, and the matching close marker, or the single leaf token.
    /// Each call walks the forest afresh and leaves it unchanged.
    pub fn linearize(&self) -> (r: Vec<Spanned<Event>>)
        ensures
            r.deep_view() == lin_trees(self.deep_view()),
    {
        let mut out: Vec<Spanned<Event>> = Vec::new();
        proof {
            lemma_trees_view(self.0@);
            assert(out.deep_view() =~= Seq::<Spanned<EventView>>::empty());
            assert(Seq::<Spanned<EventView>>::empty() + lin_trees(
                self.deep_view().take(0),
            ) =~= lin_trees(self.deep_view().take(0)));
        }
        let n = self.0.len();
        for i in 0..n
            invariant
                n == self.0.len(),
                out.deep_view() == lin_trees(self.deep_view().take(i as int)),
            decreases n - i,
        {
            proof {
                lemma_trees_view(self.0@);
                assert(self.deep_view().take(i + 1) =~= self.deep_view().take(i as int).push(
                    self.deep_view()[i as int],
                ));
                lemma_lin_trees_push(self.deep_view().take(i as int), self.deep_view()[i as int]);
            }
            self.0[i].push_events(&mut out);
        }
        proof {
            lemma_trees_view(self.0@);
            assert(self.deep_view().take(n as int) =~= self.deep_view());
        }
        out
    }
}

} // verus!

//! The laws the builder and linearizer obey, stated over the spec-level
//! model and proved once and for all: building is lossless (linearizing a
//! built forest gives back the stream it was built from, token for token);
//! a stream whose open markers and leaf tokens appear in non-decreasing
//! span start order builds into a forest with siblings ordered at every
//! depth; a stream that keeps each token
//! between an open marker and its matching close marker inside the pair's
//! range builds into a forest whose groups contain all their descendants;
//! and linearization emits exactly one token per leaf and two per group.

use vstd::prelude::*;

use crate::builder::{
    BuilderState, initial_state, leaf_tree, spec_build, spec_run, spec_step, state_append,
};
use crate::event::{EventView, spec_to_end};
use crate::tree::{
    GroupView, TreeView, lemma_lin_trees_push, lin_group, lin_tree, lin_trees,
};
use crate::Spanned;

verus! {

broadcast use vstd::seq::group_seq_axioms;

/// The flat tokens that a stack of open frames stands for, in stream order:
/// for each frame, outermost first, its open marker followed by the
/// linearization of its finished children so far.
pub open spec fn unparse_frames(stack: Seq<crate::builder::FrameView>) -> Seq<
    Spanned<EventView>,
>
    decreases stack,
{
    if stack.len() == 0 {
        Seq::empty()
    } else {
        let frame = stack[stack.len() - 1];
        unparse_frames(stack.subrange(0, stack.len() - 1)) + seq![
            Spanned { item: EventView::Start(frame.tag.item), span: frame.tag.span },
        ] + lin_trees(frame.children)
    }
}

/// The flat tokens that a builder state stands for: the linearization of
/// the finished top-level trees, then the open frames.
pub open spec fn unparse_state(st: BuilderState) -> Seq<Spanned<EventView>> {
    lin_trees(st.root) + unparse_frames(st.stack)
}

/// A leaf token's tree linearizes back to exactly that token.
proof fn lemma_leaf_round_trip(ev: Spanned<EventView>)
    requires
        !(ev.item is Start),
        !(ev.item is End),
    ensures
        lin_tree(leaf_tree(ev)) == seq![ev],
{
}

/// Appending a finished tree to a state appends the tree's tokens to what
/// the state stands for.
proof fn lemma_state_append(st: BuilderState, t: TreeView)
    ensures
        unparse_state(state_append(st, t)) == unparse_state(st) + lin_tree(t),
{
    if st.stack.len() == 0 {
        lemma_lin_trees_push(st.root, t);
        assert(unparse_frames(st.stack) =~= Seq::<Spanned<EventView>>::empty());
        assert(unparse_state(state_append(st, t)) =~= unparse_state(st) + lin_tree(t));
    } else {
        let frame = st.stack.last();
        let new_stack = st.stack.drop_last().push(
            crate::builder::FrameView { tag: frame.tag, children: frame.children.push(t) },
        );
        lemma_lin_trees_push(frame.children, t);
        assert(new_stack.subrange(0, new_stack.len() - 1) =~= st.stack.drop_last());
        assert(st.stack.subrange(0, st.stack.len() - 1) =~= st.stack.drop_last());
        assert(unparse_state(state_append(st, t)) =~= unparse_state(st) + lin_tree(t));
    }
}

/// Each successful step extends what the state stands for by exactly the
/// token that was consumed.
proof fn lemma_step_unparse(st: BuilderState, ev: Spanned<EventView>, st2: BuilderState)
    requires
        spec_step(st, ev) == Ok::<BuilderState, crate::builder::BuildErrorView>(st2),
    ensures
        unparse_state(st2) == unparse_state(st) + seq![ev],
{
    match ev.item {
        EventView::Start(tag) => {
            assert(st2.stack.subrange(0, st2.stack.len() - 1) =~= st.stack);
            assert(lin_trees(st2.stack.last().children) =~= Seq::<Spanned<EventView>>::empty());
            assert(unparse_state(st2) =~= unparse_state(st) + seq![ev]);
        },
        EventView::End(end) => {
            let frame = st.stack.last();
            let group = GroupView { tag: frame.tag, stream: frame.children, end_span: ev.span };
            let popped = BuilderState { root: st.root, stack: st.stack.drop_last() };
            lemma_state_append(popped, TreeView::Group(group));
            assert(st.stack.subrange(0, st.stack.len() - 1) =~= st.stack.drop_last());
            assert(lin_group(group) =~= seq![
                Spanned { item: EventView::Start(frame.tag.item), span: frame.tag.span },
            ] + lin_trees(frame.children) + seq![ev]);
            assert(unparse_state(st2) =~= unparse_state(st) + seq![ev]);
        },
        _ => {
            lemma_state_append(st, leaf_tree(ev));
            lemma_leaf_round_trip(ev);
            assert(unparse_state(st2) =~= unparse_state(st) + seq![ev]);
        },
    }
}

/// A successful run's state stands for exactly the consumed stream.
proof fn lemma_run_unparse(s: Seq<Spanned<EventView>>)
    requires
        spec_run(s) is Ok,
    ensures
        unparse_state(spec_run(s)->Ok_0) == s,
    decreases s.len(),
{
    if s.len() == 0 {
        assert(unparse_state(initial_state()) =~= s);
    } else {
        lemma_run_unparse(s.drop_last());
        lemma_step_unparse(
            spec_run(s.drop_last())->Ok_0,
            s.last(),
            spec_run(s)->Ok_0,
        );
        assert(s.drop_last() + seq![s.last()] =~= s);
    }
}

/// The byte offset at which a tree's span starts; a group starts where its
/// open marker does.
pub open spec fn tree_start(t: TreeView) -> int {
    match t {
        TreeView::Group(g) => g.tag.span.start as int,
        TreeView::Text(s) => s.span.start as int,
        TreeView::Code(s) => s.span.start as int,
        TreeView::Html(s) => s.span.start as int,
        TreeView::InlineHtml(s) => s.span.start as int,
        TreeView::FootnoteReference(s) => s.span.start as int,
        TreeView::SoftBreak(span) => span.start as int,
        TreeView::HardBreak(span) => span.start as int,
        TreeView::Rule(span) => span.start as int,
        TreeView::TaskListMarker(s) => s.span.start as int,
        TreeView::InlineMath(s) => s.span.start as int,
        TreeView::DisplayMath(s) => s.span.start as int,
    }
}

/// The byte offset at which a tree's span ends; a group's effective span
/// ends where its close marker does.
pub open spec fn tree_end(t: TreeView) -> int {
    match t {
        TreeView::Group(g) => g.end_span.end as int,
        TreeView::Text(s) => s.span.end as int,
        TreeView::Code(s) => s.span.end as int,
        TreeView::Html(s) => s.span.end as int,
        TreeView::InlineHtml(s) => s.span.end as int,
        TreeView::FootnoteReference(s) => s.span.end as int,
        TreeView::SoftBreak(span) => span.end as int,
        TreeView::HardBreak(span) => span.end as int,
        TreeView::Rule(span) => span.end as int,
        TreeView::TaskListMarker(s) => s.span.end as int,
        TreeView::InlineMath(s) => s.span.end as int,
        TreeView::DisplayMath(s) => s.span.end as int,
    }
}

/// Siblings are ordered by non-decreasing span start.
pub open spec fn siblings_ordered(ts: Seq<TreeView>) -> bool {
    forall|i: int|
        0 <= i && i + 1 < ts.len() ==> tree_start(#[trigger] ts[i]) <= tree_start(ts[i + 1])
}

/// Every tree of the sequence lies within `[lo, hi)`.
pub open spec fn trees_within(ts: Seq<TreeView>, lo: int, hi: int) -> bool {
    forall|i: int|
        0 <= i < ts.len() ==> lo <= tree_start(#[trigger] ts[i]) && tree_end(ts[i]) <= hi
}

/// Every children sequence of the tree, at every depth, is in
/// non-decreasing span start order.
pub open spec fn tree_siblings_ordered(t: TreeView) -> bool
    decreases t,
{
    match t {
        TreeView::Group(g) => siblings_ordered(g.stream) && trees_siblings_ordered_all(g.stream),
        _ => true,
    }
}

/// [`tree_siblings_ordered`] of every tree of the sequence.
pub open spec fn trees_siblings_ordered_all(ts: Seq<TreeView>) -> bool
    decreases ts,
{
    if ts.len() == 0 {
        true
    } else {
        trees_siblings_ordered_all(ts.subrange(0, ts.len() - 1)) && tree_siblings_ordered(
            ts[ts.len() - 1],
        )
    }
}

/// [`trees_siblings_ordered_all`] holds exactly when each tree is ordered.
pub proof fn lemma_ordered_all_pointwise(ts: Seq<TreeView>)
    ensures
        trees_siblings_ordered_all(ts) <==> (forall|i: int|
            0 <= i < ts.len() ==> tree_siblings_ordered(#[trigger] ts[i])),
    decreases ts.len(),
{
    if ts.len() > 0 {
        let prefix = ts.subrange(0, ts.len() - 1);
        lemma_ordered_all_pointwise(prefix);
        assert(forall|i: int| 0 <= i < prefix.len() ==> #[trigger] prefix[i] == ts[i]);
        if trees_siblings_ordered_all(ts) {
            assert forall|i: int|
                0 <= i < ts.len() implies tree_siblings_ordered(#[trigger] ts[i]) by {
                if i < ts.len() - 1 {
                    assert(tree_siblings_ordered(prefix[i]));
                }
            }
        }
        if forall|i: int| 0 <= i < ts.len() ==> tree_siblings_ordered(#[trigger] ts[i]) {
            assert forall|i: int|
                0 <= i < prefix.len() implies tree_siblings_ordered(#[trigger] prefix[i]) by {
                assert(tree_siblings_ordered(ts[i]));
            }
        }
    }
}

/// The span starts of the stream's open markers and leaf tokens are
/// non-decreasing in stream order. Close markers are exempt: a tokenizer
/// that gives open and close markers the whole element's range rewinds
/// the start at each close, but its opens and leaves still appear in
/// document order.
pub open spec fn starts_monotone(s: Seq<Spanned<EventView>>) -> bool {
    forall|i: int, j: int|
        #![trigger s[i], s[j]]
        0 <= i <= j < s.len() && !(s[i].item is End) && !(s[j].item is End)
            ==> s[i].span.start <= s[j].span.start
}

/// The span start of the stream's last open marker or leaf token, or the
/// origin if there is none.
spec fn open_leaf_bound(s: Seq<Spanned<EventView>>) -> int
    decreases s.len(),
{
    if s.len() == 0 {
        0
    } else if s.last().item is End {
        open_leaf_bound(s.drop_last())
    } else {
        s.last().span.start as int
    }
}

/// The bound is the origin, or the start of some open marker or leaf
/// token of the stream.
proof fn lemma_open_leaf_bound_witness(s: Seq<Spanned<EventView>>)
    ensures
        open_leaf_bound(s) == 0 || exists|k: int|
            0 <= k < s.len() && !((#[trigger] s[k]).item is End) && open_leaf_bound(s) == s[
                k
            ].span.start as int,
    decreases s.len(),
{
    if s.len() > 0 {
        let prefix = s.drop_last();
        if s.last().item is End {
            lemma_open_leaf_bound_witness(prefix);
            if open_leaf_bound(prefix) != 0 {
                let k = choose|k: int|
                    0 <= k < prefix.len() && !((#[trigger] prefix[k]).item is End)
                        && open_leaf_bound(prefix) == prefix[k].span.start as int;
                assert(prefix[k] == s[k]);
                assert(0 <= k < s.len() && !(s[k].item is End) && open_leaf_bound(s) == s[
                    k
                ].span.start as int);
            }
        } else {
            assert(!(s[s.len() - 1].item is End));
        }
    }
}

/// Every tree of the sequence starts at or before `b`.
spec fn starts_le(ts: Seq<TreeView>, b: int) -> bool {
    forall|i: int| 0 <= i < ts.len() ==> tree_start(#[trigger] ts[i]) <= b
}

/// One open frame of an order-respecting state: children ordered at every
/// depth and starting at or before the last open or leaf start seen, the
/// frame's own open marker likewise.
spec fn frame_order_ok(f: crate::builder::FrameView, m_start: int) -> bool {
    &&& siblings_ordered(f.children)
    &&& trees_siblings_ordered_all(f.children)
    &&& starts_le(f.children, m_start)
    &&& f.tag.span.start <= m_start
}

/// Opens are ordered down the stack, and each frame's children start at or
/// before the open of the frame above it.
spec fn stack_nested(stack: Seq<crate::builder::FrameView>) -> bool {
    forall|i: int, j: int|
        #![trigger stack[i], stack[j]]
        0 <= i < j < stack.len() ==> stack[i].tag.span.start <= stack[j].tag.span.start
            && starts_le(stack[i].children, stack[j].tag.span.start as int)
}

/// What the builder's state looks like after consuming a stream with
/// monotone open/leaf starts whose last open marker or leaf token starts
/// at `m_start`.
spec fn state_order_ok(st: BuilderState, m_start: int) -> bool {
    &&& siblings_ordered(st.root)
    &&& trees_siblings_ordered_all(st.root)
    &&& starts_le(st.root, m_start)
    &&& (forall|i: int| 0 <= i < st.stack.len() ==> frame_order_ok(#[trigger] st.stack[i], m_start))
    &&& stack_nested(st.stack)
    &&& (st.stack.len() > 0 ==> starts_le(st.root, st.stack[0].tag.span.start as int))
}

/// A state that respects the order at one bound respects it at any later
/// bound.
proof fn lemma_order_relax(st: BuilderState, m_start: int, n_start: int)
    requires
        state_order_ok(st, m_start),
        m_start <= n_start,
    ensures
        state_order_ok(st, n_start),
{
    assert forall|i: int|
        0 <= i < st.stack.len() implies frame_order_ok(#[trigger] st.stack[i], n_start) by {
        assert(frame_order_ok(st.stack[i], m_start));
    }
}

/// Appending one ordered tree that starts no earlier than anything in the
/// state keeps the state order-respecting.
#[verifier::rlimit(100)]
proof fn lemma_append_order(st: BuilderState, t: TreeView, m_start: int)
    requires
        state_order_ok(st, m_start),
        tree_siblings_ordered(t),
        tree_start(t) <= m_start,
        st.stack.len() == 0 ==> starts_le(st.root, tree_start(t)),
        st.stack.len() > 0 ==> starts_le(st.stack.last().children, tree_start(t)),
    ensures
        state_order_ok(state_append(st, t), m_start),
{
    let st2 = state_append(st, t);
    if st.stack.len() == 0 {
        lemma_ordered_all_pointwise(st.root);
        lemma_ordered_all_pointwise(st.root.push(t));
        assert(siblings_ordered(st2.root));
        assert(starts_le(st2.root, m_start));
    } else {
        let frame = st.stack.last();
        let kids = frame.children.push(t);
        let frame2 = crate::builder::FrameView { tag: frame.tag, children: kids };
        lemma_ordered_all_pointwise(frame.children);
        lemma_ordered_all_pointwise(kids);
        assert(frame_order_ok(frame, m_start));
        assert(siblings_ordered(kids));
        assert(starts_le(kids, m_start));
        assert(frame_order_ok(frame2, m_start));
        assert(forall|i: int|
            0 <= i < st.stack.len() - 1 ==> #[trigger] st2.stack[i] == st.stack[i]);
        assert(st2.stack.len() == st.stack.len());
        assert(st2.stack.last() == frame2);
        assert forall|i: int|
            0 <= i < st2.stack.len() implies frame_order_ok(#[trigger] st2.stack[i], m_start) by {
            if i < st2.stack.len() - 1 {
                assert(frame_order_ok(st.stack[i], m_start));
            }
        }
        assert(stack_nested(st2.stack)) by {
            assert forall|i: int, j: int|
                #![trigger st2.stack[i], st2.stack[j]]
                0 <= i < j < st2.stack.len() implies st2.stack[i].tag.span.start
                <= st2.stack[j].tag.span.start && starts_le(
                st2.stack[i].children,
                st2.stack[j].tag.span.start as int,
            ) by {
                assert(st.stack[i].tag.span.start <= st.stack[j].tag.span.start);
                assert(starts_le(st.stack[i].children, st.stack[j].tag.span.start as int));
            }
        }
    }
}

/// One successful step keeps the state order-respecting: an open marker
/// or a leaf token starting at or after every open and leaf seen so far
/// raises the bound to its own start; a close marker leaves it in place.
#[verifier::rlimit(100)]
proof fn lemma_step_order(
    st: BuilderState,
    ev: Spanned<EventView>,
    st2: BuilderState,
    m_start: int,
)
    requires
        state_order_ok(st, m_start),
        spec_step(st, ev) == Ok::<BuilderState, crate::builder::BuildErrorView>(st2),
        !(ev.item is End) ==> m_start <= ev.span.start,
    ensures
        state_order_ok(
            st2,
            if ev.item is End {
                m_start
            } else {
                ev.span.start as int
            },
        ),
{
    let s2 = if ev.item is End {
        m_start
    } else {
        ev.span.start as int
    };
    lemma_order_relax(st, m_start, s2);
    match ev.item {
        EventView::Start(tag) => {
            let new_frame = crate::builder::FrameView {
                tag: Spanned { item: tag, span: ev.span },
                children: Seq::empty(),
            };
            assert(frame_order_ok(new_frame, s2));
            assert(forall|i: int|
                0 <= i < st.stack.len() ==> #[trigger] st2.stack[i] == st.stack[i]);
            assert(st2.stack.last() == new_frame);
            assert forall|i: int|
                0 <= i < st2.stack.len() implies frame_order_ok(#[trigger] st2.stack[i], s2) by {
                if i < st2.stack.len() - 1 {
                    assert(frame_order_ok(st.stack[i], s2));
                }
            }
            assert(stack_nested(st2.stack)) by {
                assert forall|i: int, j: int|
                    #![trigger st2.stack[i], st2.stack[j]]
                    0 <= i < j < st2.stack.len() implies st2.stack[i].tag.span.start
                    <= st2.stack[j].tag.span.start && starts_le(
                    st2.stack[i].children,
                    st2.stack[j].tag.span.start as int,
                ) by {
                    if j < st2.stack.len() - 1 {
                        assert(st.stack[i].tag.span.start <= st.stack[j].tag.span.start);
                        assert(starts_le(st.stack[i].children, st.stack[j].tag.span.start as int));
                    } else {
                        assert(frame_order_ok(st.stack[i], s2));
                        assert(stack_nested(st.stack));
                    }
                }
            }
        },
        EventView::End(end) => {
            let frame = st.stack.last();
            let group = GroupView { tag: frame.tag, stream: frame.children, end_span: ev.span };
            let t = TreeView::Group(group);
            let popped = BuilderState { root: st.root, stack: st.stack.drop_last() };
            assert(frame_order_ok(frame, s2));
            assert(tree_siblings_ordered(t));
            assert(tree_start(t) == frame.tag.span.start as int);
            assert(forall|i: int|
                0 <= i < popped.stack.len() ==> #[trigger] popped.stack[i] == st.stack[i]);
            assert(state_order_ok(popped, s2)) by {
                assert forall|i: int|
                    0 <= i < popped.stack.len() implies frame_order_ok(
                    #[trigger] popped.stack[i],
                    s2,
                ) by {
                    assert(frame_order_ok(st.stack[i], s2));
                }
                assert(stack_nested(popped.stack)) by {
                    assert forall|i: int, j: int|
                        #![trigger popped.stack[i], popped.stack[j]]
                        0 <= i < j < popped.stack.len() implies popped.stack[i].tag.span.start
                        <= popped.stack[j].tag.span.start && starts_le(
                        popped.stack[i].children,
                        popped.stack[j].tag.span.start as int,
                    ) by {
                        assert(st.stack[i].tag.span.start <= st.stack[j].tag.span.start);
                        assert(starts_le(st.stack[i].children, st.stack[j].tag.span.start as int));
                    }
                }
            }
            if popped.stack.len() > 0 {
                assert(st.stack[st.stack.len() - 2] == popped.stack.last());
                assert(starts_le(popped.stack.last().children, tree_start(t)));
            } else {
                assert(starts_le(st.root, st.stack[0].tag.span.start as int));
            }
            lemma_append_order(popped, t, s2);
        },
        _ => {
            let t = leaf_tree(ev);
            assert(tree_siblings_ordered(t));
            assert(tree_start(t) == s2);
            if st.stack.len() > 0 {
                assert(frame_order_ok(st.stack.last(), s2));
            }
            lemma_append_order(st, t, s2);
        },
    }
}

/// A successful run on a stream with monotone open/leaf starts leaves an
/// order-respecting state.
proof fn lemma_run_order(s: Seq<Spanned<EventView>>)
    requires
        starts_monotone(s),
        spec_run(s) is Ok,
    ensures
        state_order_ok(spec_run(s)->Ok_0, open_leaf_bound(s)),
    decreases s.len(),
{
    if s.len() == 0 {
        assert(state_order_ok(initial_state(), 0));
    } else {
        let prefix = s.drop_last();
        assert(starts_monotone(prefix)) by {
            assert(forall|i: int, j: int|
                #![trigger prefix[i], prefix[j]]
                0 <= i <= j < prefix.len() ==> prefix[i] == s[i] && prefix[j] == s[j]);
        }
        lemma_run_order(prefix);
        if !(s.last().item is End) {
            lemma_open_leaf_bound_witness(prefix);
            if open_leaf_bound(prefix) != 0 {
                let k = choose|k: int|
                    0 <= k < prefix.len() && !((#[trigger] prefix[k]).item is End)
                        && open_leaf_bound(prefix) == prefix[k].span.start as int;
                assert(prefix[k] == s[k]);
                assert(s[k].span.start <= s.last().span.start);
            }
            assert(open_leaf_bound(prefix) <= s.last().span.start as int);
        }
        lemma_step_order(
            spec_run(prefix)->Ok_0,
            s.last(),
            spec_run(s)->Ok_0,
            open_leaf_bound(prefix),
        );
    }
}

/// Sibling order: a forest built from a stream whose open markers and
/// leaf tokens appear in non-decreasing span start order (close markers
/// may rewind, as they do for a tokenizer whose markers carry the whole
/// element's range) has, in every children sequence at every depth and at
/// the top level, siblings in non-decreasing span start order.
pub proof fn lemma_build_sibling_order(s: Seq<Spanned<EventView>>, doc: Seq<TreeView>)
    requires
        starts_monotone(s),
        spec_build(s) == Ok::<Seq<TreeView>, crate::builder::BuildErrorView>(doc),
    ensures
        siblings_ordered(doc),
        trees_siblings_ordered_all(doc),
        forall|i: int| 0 <= i < doc.len() ==> tree_siblings_ordered(#[trigger] doc[i]),
{
    lemma_run_order(s);
    lemma_ordered_all_pointwise(doc);
}

/// Every token of the sequence has its span within `[lo, hi)`.
pub open spec fn tokens_within(toks: Seq<Spanned<EventView>>, lo: int, hi: int) -> bool {
    forall|i: int|
        0 <= i < toks.len() ==> lo <= (#[trigger] toks[i]).span.start && toks[i].span.end <= hi
}

/// The nesting discipline of a tokenizer that walks the source once and
/// wraps each container's span around its contents: every token that lies
/// between a group's open marker and its matching close marker has its
/// span within the pair's effective range `[open start, close end)`, at
/// every depth. For a stream that builds, the matched pairs are exactly
/// the groups of the built forest and the tokens between a pair are the
/// linearization of that group's children (by [`lemma_round_trip`],
/// `lin_trees(doc) == s`), which is how this predicate phrases it.
pub open spec fn tree_tokens_nested(t: TreeView) -> bool
    decreases t,
{
    match t {
        TreeView::Group(g) => tokens_within(
            lin_trees(g.stream),
            g.tag.span.start as int,
            g.end_span.end as int,
        ) && trees_tokens_nested(g.stream),
        _ => true,
    }
}

/// [`tree_tokens_nested`] of every tree of the sequence.
pub open spec fn trees_tokens_nested(ts: Seq<TreeView>) -> bool
    decreases ts,
{
    if ts.len() == 0 {
        true
    } else {
        trees_tokens_nested(ts.subrange(0, ts.len() - 1)) && tree_tokens_nested(ts[ts.len() - 1])
    }
}

/// Every group's children lie within its effective span, at every depth.
pub open spec fn tree_spans_contained(t: TreeView) -> bool
    decreases t,
{
    match t {
        TreeView::Group(g) => trees_within(
            g.stream,
            g.tag.span.start as int,
            g.end_span.end as int,
        ) && trees_spans_contained_all(g.stream),
        _ => true,
    }
}

/// [`tree_spans_contained`] of every tree of the sequence.
pub open spec fn trees_spans_contained_all(ts: Seq<TreeView>) -> bool
    decreases ts,
{
    if ts.len() == 0 {
        true
    } else {
        trees_spans_contained_all(ts.subrange(0, ts.len() - 1)) && tree_spans_contained(
            ts[ts.len() - 1],
        )
    }
}

/// [`trees_spans_contained_all`] holds exactly when each tree is
/// contained.
pub proof fn lemma_contained_pointwise(ts: Seq<TreeView>)
    ensures
        trees_spans_contained_all(ts) <==> (forall|i: int|
            0 <= i < ts.len() ==> tree_spans_contained(#[trigger] ts[i])),
    decreases ts.len(),
{
    if ts.len() > 0 {
        let prefix = ts.subrange(0, ts.len() - 1);
        lemma_contained_pointwise(prefix);
        assert(forall|i: int| 0 <= i < prefix.len() ==> #[trigger] prefix[i] == ts[i]);
        if trees_spans_contained_all(ts) {
            assert forall|i: int|
                0 <= i < ts.len() implies tree_spans_contained(#[trigger] ts[i]) by {
                if i < ts.len() - 1 {
                    assert(tree_spans_contained(prefix[i]));
                }
            }
        }
        if forall|i: int| 0 <= i < ts.len() ==> tree_spans_contained(#[trigger] ts[i]) {
            assert forall|i: int|
                0 <= i < prefix.len() implies tree_spans_contained(#[trigger] prefix[i]) by {
                assert(tree_spans_contained(ts[i]));
            }
        }
    }
}

/// A tree's token sequence is never empty; its first token starts where
/// the tree does, and its last token ends where the tree does.
proof fn lemma_lin_tree_ends(t: TreeView)
    ensures
        lin_tree(t).len() >= 1,
        lin_tree(t)[0].span.start == tree_start(t),
        lin_tree(t).last().span.end == tree_end(t),
{
}

/// Tokens bounded over a whole forest's linearization are bounded over
/// each tree's own linearization.
proof fn lemma_tokens_within_child(ts: Seq<TreeView>, i: int, lo: int, hi: int)
    requires
        0 <= i < ts.len(),
        tokens_within(lin_trees(ts), lo, hi),
    ensures
        tokens_within(lin_tree(ts[i]), lo, hi),
    decreases i,
{
    let head = lin_tree(ts[0]);
    let tail = lin_trees(ts.drop_first());
    if i == 0 {
        assert forall|j: int|
            0 <= j < head.len() implies lo <= (#[trigger] head[j]).span.start && head[j].span.end
            <= hi by {
            assert(head[j] == lin_trees(ts)[j]);
        }
    } else {
        assert(tokens_within(tail, lo, hi)) by {
            assert forall|j: int|
                0 <= j < tail.len() implies lo <= (#[trigger] tail[j]).span.start
                && tail[j].span.end <= hi by {
                assert(tail[j] == lin_trees(ts)[head.len() + j]);
            }
        }
        assert(ts.drop_first()[i - 1] == ts[i]);
        lemma_tokens_within_child(ts.drop_first(), i - 1, lo, hi);
    }
}

/// Under the nesting discipline, a tree's groups contain their children.
proof fn lemma_tree_nested_contained(t: TreeView)
    requires
        tree_tokens_nested(t),
    ensures
        tree_spans_contained(t),
    decreases t,
{
    match t {
        TreeView::Group(g) => {
            assert forall|i: int|
                0 <= i < g.stream.len() implies g.tag.span.start <= tree_start(
                #[trigger] g.stream[i],
            ) && tree_end(g.stream[i]) <= g.end_span.end by {
                lemma_tokens_within_child(
                    g.stream,
                    i,
                    g.tag.span.start as int,
                    g.end_span.end as int,
                );
                lemma_lin_tree_ends(g.stream[i]);
                let toks = lin_tree(g.stream[i]);
                assert(g.tag.span.start <= toks[0].span.start);
                assert(toks[toks.len() - 1].span.end <= g.end_span.end);
            }
            lemma_trees_nested_contained(g.stream);
        },
        _ => {},
    }
}

/// Under the nesting discipline, every group of the forest contains its
/// children.
proof fn lemma_trees_nested_contained(ts: Seq<TreeView>)
    requires
        trees_tokens_nested(ts),
    ensures
        trees_spans_contained_all(ts),
    decreases ts,
{
    if ts.len() > 0 {
        lemma_trees_nested_contained(ts.subrange(0, ts.len() - 1));
        lemma_tree_nested_contained(ts[ts.len() - 1]);
    }
}

/// Span containment: in a forest built from a stream under the
/// tokenizer's nesting discipline, every group holds its children — and,
/// by [`lemma_span_containment`], all its descendants — within its
/// effective span `[open start, close end)`.
pub proof fn lemma_build_span_containment(s: Seq<Spanned<EventView>>, doc: Seq<TreeView>)
    requires
        spec_build(s) == Ok::<Seq<TreeView>, crate::builder::BuildErrorView>(doc),
        trees_tokens_nested(doc),
    ensures
        trees_spans_contained_all(doc),
        forall|i: int| 0 <= i < doc.len() ==> tree_spans_contained(#[trigger] doc[i]),
{
    lemma_trees_nested_contained(doc);
    lemma_contained_pointwise(doc);
}

/// Whether `d` is one of the trees of the sequence, or sits deeper inside
/// one of them.
pub open spec fn in_forest(d: TreeView, ts: Seq<TreeView>) -> bool
    decreases ts,
{
    if ts.len() == 0 {
        false
    } else {
        in_tree(d, ts[ts.len() - 1]) || in_forest(d, ts.subrange(0, ts.len() - 1))
    }
}

/// Whether `d` is `t` itself or a descendant of it.
pub open spec fn in_tree(d: TreeView, t: TreeView) -> bool
    decreases t,
{
    d == t || (match t {
        TreeView::Group(g) => in_forest(d, g.stream),
        _ => false,
    })
}

/// Everything in a well-formed forest bounded by `[lo, hi)` lies within
/// `[lo, hi)`.
proof fn lemma_in_forest_bounds(d: TreeView, ts: Seq<TreeView>, lo: int, hi: int)
    requires
        trees_spans_contained_all(ts),
        trees_within(ts, lo, hi),
        in_forest(d, ts),
    ensures
        lo <= tree_start(d) && tree_end(d) <= hi,
    decreases ts,
{
    let last = ts[ts.len() - 1];
    assert(tree_spans_contained(last));
    if in_tree(d, last) {
        if d == last {
        } else {
            match last {
                TreeView::Group(g) => {
                    assert(lo <= tree_start(last) && tree_end(last) <= hi);
                    lemma_in_forest_bounds(
                        d,
                        g.stream,
                        g.tag.span.start as int,
                        g.end_span.end as int,
                    );
                },
                _ => {},
            }
        }
    } else {
        let prefix = ts.subrange(0, ts.len() - 1);
        assert(forall|i: int| 0 <= i < prefix.len() ==> #[trigger] prefix[i] == ts[i]);
        assert(trees_within(prefix, lo, hi));
        lemma_in_forest_bounds(d, prefix, lo, hi);
    }
}

/// Span containment, transitively: every descendant of a well-formed group
/// lies within the group's effective span.
pub proof fn lemma_span_containment(g: GroupView, d: TreeView)
    requires
        tree_spans_contained(TreeView::Group(g)),
        in_forest(d, g.stream),
    ensures
        g.tag.span.start <= tree_start(d),
        tree_end(d) <= g.end_span.end,
{
    lemma_in_forest_bounds(d, g.stream, g.tag.span.start as int, g.end_span.end as int);
}

/// Tag correspondence: a group linearizes to its open marker, its
/// children's tokens, and a close marker that identifies exactly its open
/// tag's kind, at the group's end span.
pub proof fn lemma_tag_correspondence(g: GroupView)
    ensures
        lin_group(g).len() >= 2,
        lin_group(g).first() == (Spanned {
            item: EventView::Start(g.tag.item),
            span: g.tag.span,
        }),
        lin_group(g).last() == (Spanned {
            item: EventView::End(spec_to_end(g.tag.item)),
            span: g.end_span,
        }),
{
}

/// Round trip: building is lossless. Whenever a stream builds successfully,
/// linearizing the built forest yields the stream back, token for token:
/// the same kinds, the same metadata, the same spans, in the same order.
pub proof fn lemma_round_trip(s: Seq<Spanned<EventView>>, doc: Seq<TreeView>)
    requires
        spec_build(s) == Ok::<Seq<TreeView>, crate::builder::BuildErrorView>(doc),
    ensures
        lin_trees(doc) == s,
{
    lemma_run_unparse(s);
    let st = spec_run(s)->Ok_0;
    assert(unparse_frames(st.stack) =~= Seq::<Spanned<EventView>>::empty());
    assert(lin_trees(doc) =~= lin_trees(doc) + unparse_frames(st.stack));
}

/// The number of tokens a tree stands for: one for each leaf, two for
/// each group (its open and close markers).
pub open spec fn tree_token_count(t: TreeView) -> nat
    decreases t,
{
    match t {
        TreeView::Group(g) => 2 + trees_token_count(g.stream),
        _ => 1,
    }
}

/// The total number of tokens a forest stands for.
pub open spec fn trees_token_count(ts: Seq<TreeView>) -> nat
    decreases ts,
{
    if ts.len() == 0 {
        0
    } else {
        tree_token_count(ts[0]) + trees_token_count(ts.drop_first())
    }
}

/// Linearizing a tree emits exactly one token per leaf and two per group.
pub proof fn lemma_lin_tree_token_count(t: TreeView)
    ensures
        lin_tree(t).len() == tree_token_count(t),
    decreases t,
{
    match t {
        TreeView::Group(g) => {
            lemma_lin_trees_token_count(g.stream);
        },
        _ => {},
    }
}

/// Linearizing a forest emits exactly one token per leaf and two per
/// group.
pub proof fn lemma_lin_trees_token_count(ts: Seq<TreeView>)
    ensures
        lin_trees(ts).len() == trees_token_count(ts),
    decreases ts,
{
    if ts.len() > 0 {
        lemma_lin_tree_token_count(ts[0]);
        lemma_lin_trees_token_count(ts.drop_first());
    }
}

} // verus!



//! The tree builder: reconstructs the nested forest from the flat token
//! stream, verifying that open and close markers pair up.
//!
//! The builder is specified as a state machine ([`spec_step`], [`spec_run`],
//! [`spec_build`]) that folds over the stream while keeping a stack of open
//! frames; [`Ast::from_events`] implements exactly that machine.

use vstd::prelude::*;

use crate::event::{Event, EventView, Tag, TagEnd, TagView, spec_to_end};
use crate::tree::{Ast, Group, GroupView, Tree, TreeView, lemma_trees_view, trees_view};
use crate::{Span, Spanned};

verus! {

broadcast use vstd::std_specs::vec::group_vec_axioms, vstd::seq::group_seq_axioms;

/// Why a token stream cannot be built into a forest. Construction is
/// all-or-nothing: on any of these, no partial forest is returned.
#[derive(Debug, PartialEq)]
pub enum BuildError {
    /// A close marker appeared while no container was open.
    UnmatchedClose { close: TagEnd, span: Span },
    /// A close marker did not identify the innermost open container.
    TagMismatch { expected: TagEnd, found: TagEnd, span: Span },
    /// The stream ended while containers were still open; `open` holds the
    /// still-open kinds, innermost first.
    UnterminatedGroup { open: Vec<TagEnd> },
}

/// Spec-level view of [`BuildError`].
pub enum BuildErrorView {
    UnmatchedClose { close: TagEnd, span: Span },
    TagMismatch { expected: TagEnd, found: TagEnd, span: Span },
    UnterminatedGroup { open: Seq<TagEnd> },
}

impl DeepView for BuildError {
    type V = BuildErrorView;

    open spec fn deep_view(&self) -> BuildErrorView {
        match self {
            BuildError::UnmatchedClose { close, span } => BuildErrorView::UnmatchedClose {
                close: *close,
                span: *span,
            },
            BuildError::TagMismatch { expected, found, span } => BuildErrorView::TagMismatch {
                expected: *expected,
                found: *found,
                span: *span,
            },
            BuildError::UnterminatedGroup { open } => BuildErrorView::UnterminatedGroup {
                open: open.deep_view(),
            },
        }
    }
}

/// An open container the builder has seen the open marker of, but not yet
/// the close marker: the pending tag and the finished children so far.
struct Frame {
    tag: Spanned<Tag>,
    children: Vec<Tree>,
}

/// Spec-level view of one open frame.
pub struct FrameView {
    pub tag: Spanned<TagView>,
    pub children: Seq<TreeView>,
}

impl DeepView for Frame {
    type V = FrameView;

    closed spec fn deep_view(&self) -> FrameView {
        FrameView { tag: self.tag.deep_view(), children: trees_view(self.children@) }
    }
}

/// The builder's state: the finished top-level trees, and the stack of open
/// frames, outermost first (the innermost open container is last).
pub struct BuilderState {
    pub root: Seq<TreeView>,
    pub stack: Seq<FrameView>,
}

/// The state before any token: no finished trees, no open frames.
pub open spec fn initial_state() -> BuilderState {
    BuilderState { root: Seq::empty(), stack: Seq::empty() }
}

/// Append a finished tree to the innermost open frame, or to the root
/// sequence if no container is open.
pub open spec fn state_append(st: BuilderState, t: TreeView) -> BuilderState {
    if st.stack.len() == 0 {
        BuilderState { root: st.root.push(t), stack: st.stack }
    } else {
        let frame = st.stack.last();
        BuilderState {
            root: st.root,
            stack: st.stack.drop_last().push(
                FrameView { tag: frame.tag, children: frame.children.push(t) },
            ),
        }
    }
}

/// The finished leaf tree that one leaf token stands for. (Open and close
/// markers are not leaves; this function is never applied to them.)
pub open spec fn leaf_tree(ev: Spanned<EventView>) -> TreeView {
    match ev.item {
        EventView::Text(s) => TreeView::Text(Spanned { item: s, span: ev.span }),
        EventView::Code(s) => TreeView::Code(Spanned { item: s, span: ev.span }),
        EventView::Html(s) => TreeView::Html(Spanned { item: s, span: ev.span }),
        EventView::InlineHtml(s) => TreeView::InlineHtml(Spanned { item: s, span: ev.span }),
        EventView::FootnoteReference(s) => TreeView::FootnoteReference(
            Spanned { item: s, span: ev.span },
        ),
        EventView::SoftBreak => TreeView::SoftBreak(ev.span),
        EventView::HardBreak => TreeView::HardBreak(ev.span),
        EventView::Rule => TreeView::Rule(ev.span),
        EventView::TaskListMarker(checked) => TreeView::TaskListMarker(
            Spanned { item: checked, span: ev.span },
        ),
        EventView::InlineMath(s) => TreeView::InlineMath(Spanned { item: s, span: ev.span }),
        EventView::DisplayMath(s) => TreeView::DisplayMath(Spanned { item: s, span: ev.span }),
        _ => TreeView::Rule(ev.span),
    }
}

/// One step of the builder on one token.
///
/// An open marker pushes a new frame whose begin span is the token's span.
/// A leaf token becomes a finished leaf tree. A close marker pops the
/// innermost frame and finishes it into a group whose end span is the
/// token's span; it fails with `UnmatchedClose` if no container is open and
/// with `TagMismatch` if it does not identify the innermost open kind.
pub open spec fn spec_step(st: BuilderState, ev: Spanned<EventView>) -> Result<
    BuilderState,
    BuildErrorView,
> {
    match ev.item {
        EventView::Start(tag) => Ok(
            BuilderState {
                root: st.root,
                stack: st.stack.push(
                    FrameView {
                        tag: Spanned { item: tag, span: ev.span },
                        children: Seq::empty(),
                    },
                ),
            },
        ),
        EventView::End(end) => {
            if st.stack.len() == 0 {
                Err(BuildErrorView::UnmatchedClose { close: end, span: ev.span })
            } else {
                let frame = st.stack.last();
                if spec_to_end(frame.tag.item) == end {
                    let group = GroupView {
                        tag: frame.tag,
                        stream: frame.children,
                        end_span: ev.span,
                    };
                    Ok(
                        state_append(
                            BuilderState { root: st.root, stack: st.stack.drop_last() },
                            TreeView::Group(group),
                        ),
                    )
                } else {
                    Err(
                        BuildErrorView::TagMismatch {
                            expected: spec_to_end(frame.tag.item),
                            found: end,
                            span: ev.span,
                        },
                    )
                }
            }
        },
        _ => Ok(state_append(st, leaf_tree(ev))),
    }
}

/// Fold [`spec_step`] over a stream, from the first token to the last,
/// starting from the empty state; the first failing step decides.
pub open spec fn spec_run(s: Seq<Spanned<EventView>>) -> Result<BuilderState, BuildErrorView>
    decreases s.len(),
{
    if s.len() == 0 {
        Ok(initial_state())
    } else {
        match spec_run(s.drop_last()) {
            Ok(st) => spec_step(st, s.last()),
            Err(e) => Err(e),
        }
    }
}

/// The still-open kinds of a frame stack, innermost first.
pub open spec fn open_kinds(stack: Seq<FrameView>) -> Seq<TagEnd> {
    Seq::new(stack.len(), |i: int| spec_to_end(stack[stack.len() - 1 - i].tag.item))
}

/// What building a stream yields: the forest of the run's final state if
/// every container was closed, `UnterminatedGroup` with the still-open
/// kinds if not, and the first failing step's error otherwise.
pub open spec fn spec_build(s: Seq<Spanned<EventView>>) -> Result<Seq<TreeView>, BuildErrorView> {
    match spec_run(s) {
        Ok(st) => {
            if st.stack.len() == 0 {
                Ok(st.root)
            } else {
                Err(BuildErrorView::UnterminatedGroup { open: open_kinds(st.stack) })
            }
        },
        Err(e) => Err(e),
    }
}

/// Spec-level view of what [`Ast::from_events`] returns.
pub open spec fn result_view(r: Result<Ast, BuildError>) -> Result<Seq<TreeView>, BuildErrorView> {
    match r {
        Ok(ast) => Ok(ast.deep_view()),
        Err(e) => Err(e.deep_view()),
    }
}

/// Once the run fails on a prefix, the whole stream fails the same way.
proof fn lemma_run_error_persists(s: Seq<Spanned<EventView>>, j: int)
    requires
        0 <= j <= s.len(),
        spec_run(s.take(j)) is Err,
    ensures
        spec_run(s) == spec_run(s.take(j)),
    decreases s.len() - j,
{
    if j < s.len() {
        assert(s.take(j + 1).drop_last() =~= s.take(j));
        assert(s.take(j + 1).len() != 0);
        lemma_run_error_persists(s, j + 1);
    } else {
        assert(s.take(j) =~= s);
    }
}

impl Ast {
    /// Build the nested forest from a flat token stream, consuming it.
    ///
    /// The result is exactly what the builder state machine yields on the
    /// stream: `Ok` with the forest when every open marker is matched, in
    /// order, by a close marker of its kind; `UnmatchedClose` when a close
    /// marker arrives with no container open; `TagMismatch` when a close
    /// marker does not identify the innermost open kind; and
    /// `UnterminatedGroup`, naming the still-open kinds innermost first,
    /// when the stream ends with containers open. On failure no partial
    /// forest is returned.
    #[verifier::loop_isolation(false)]
    pub fn from_events(events: Vec<Spanned<Event>>) -> (r: Result<Ast, BuildError>)
        ensures
            result_view(r) == spec_build(events.deep_view()),
    {
        let ghost evs = events.deep_view();
        let mut events = events;
        let mut rev: Vec<Spanned<Event>> = Vec::new();
        while events.len() > 0
            invariant
                events@.len() + rev@.len() == evs.len(),
                forall|j: int| 0 <= j < events@.len() ==> events@[j].deep_view() == evs[j],
                forall|j: int|
                    0 <= j < rev@.len() ==> rev@[j].deep_view() == evs[evs.len() - 1 - j],
            decreases events@.len(),
        {
            let ev = events.pop().unwrap();
            rev.push(ev);
        }
        let mut root: Vec<Tree> = Vec::new();
        let mut stack: Vec<Frame> = Vec::new();
        let ghost mut k: int = 0;
        proof {
            lemma_trees_view(root@);
            assert(evs.take(0) =~= Seq::<Spanned<EventView>>::empty());
            assert(stack.deep_view() =~= Seq::<FrameView>::empty());
        }
        while rev.len() > 0
            invariant
                0 <= k <= evs.len(),
                k + rev@.len() == evs.len(),
                forall|j: int|
                    0 <= j < rev@.len() ==> rev@[j].deep_view() == evs[evs.len() - 1 - j],
                spec_run(evs.take(k)) == Ok::<BuilderState, BuildErrorView>(
                    BuilderState { root: trees_view(root@), stack: stack.deep_view() },
                ),
            decreases rev@.len(),
        {
            let ghost pre_state = BuilderState { root: trees_view(root@), stack: stack.deep_view() };
            let ev = rev.pop().unwrap();
            proof {
                assert(ev.deep_view() == evs[k]);
                assert(evs.take(k + 1).drop_last() =~= evs.take(k));
                assert(evs.take(k + 1).last() == evs[k]);
            }
            let span = ev.span;
            match ev.item {
                Event::Start(tag) => {
                    let ghost tagv = tag.deep_view();
                    stack.push(Frame { tag: Spanned { item: tag, span }, children: Vec::new() });
                    proof {
                        lemma_trees_view(Seq::<Tree>::empty());
                        assert(stack@.last().children@ =~= Seq::<Tree>::empty());
                        assert(stack.deep_view() =~= pre_state.stack.push(
                            FrameView {
                                tag: Spanned { item: tagv, span: span },
                                children: Seq::empty(),
                            },
                        ));
                    }
                },
                Event::End(end) => {
                    match stack.pop() {
                        None => {
                            proof {
                                let e = BuildErrorView::UnmatchedClose { close: end, span: span };
                                assert(spec_step(pre_state, evs[k]) == Err::<
                                    BuilderState,
                                    BuildErrorView,
                                >(e));
                                assert(spec_run(evs.take(k + 1)) == Err::<
                                    BuilderState,
                                    BuildErrorView,
                                >(e));
                                lemma_run_error_persists(evs, k + 1);
                                assert(spec_run(evs) == Err::<BuilderState, BuildErrorView>(e));
                                assert(spec_build(evs) == Err::<Seq<TreeView>, BuildErrorView>(e));
                            }
                            return Err(BuildError::UnmatchedClose { close: end, span });
                        },
                        Some(frame) => {
                            let expected = frame.tag.item.to_end();
                            if expected == end {
                                let group = Group {
                                    tag: frame.tag,
                                    stream: Ast(frame.children),
                                    end_span: span,
                                };
                                let t = Tree::Group(group);
                                proof {
                                    assert(stack.deep_view() =~= pre_state.stack.drop_last());
                                    assert(t.deep_view() == TreeView::Group(
                                        GroupView {
                                            tag: pre_state.stack.last().tag,
                                            stream: pre_state.stack.last().children,
                                            end_span: span,
                                        },
                                    ));
                                }
                                append_tree(&mut root, &mut stack, t);
                                proof {
                                    assert(spec_run(evs.take(k + 1)) == Ok::<
                                        BuilderState,
                                        BuildErrorView,
                                    >(
                                        BuilderState {
                                            root: trees_view(root@),
                                            stack: stack.deep_view(),
                                        },
                                    ));
                                }
                            } else {
                                proof {
                                    let e = BuildErrorView::TagMismatch {
                                        expected: spec_to_end(pre_state.stack.last().tag.item),
                                        found: end,
                                        span: span,
                                    };
                                    assert(expected == spec_to_end(pre_state.stack.last().tag.item));
                                    assert(spec_step(pre_state, evs[k]) == Err::<
                                        BuilderState,
                                        BuildErrorView,
                                    >(e));
                                    assert(spec_run(evs.take(k + 1)) == Err::<
                                        BuilderState,
                                        BuildErrorView,
                                    >(e));
                                    lemma_run_error_persists(evs, k + 1);
                                    assert(spec_run(evs) == Err::<BuilderState, BuildErrorView>(e));
                                    assert(spec_build(evs) == Err::<Seq<TreeView>, BuildErrorView>(
                                        e,
                                    ));
                                }
                                return Err(BuildError::TagMismatch { expected, found: end, span });
                            }
                        },
                    }
                },
                Event::Text(s) => {
                    append_tree(&mut root, &mut stack, Tree::Text(Spanned { item: s, span }));
                },
                Event::Code(s) => {
                    append_tree(&mut root, &mut stack, Tree::Code(Spanned { item: s, span }));
                },
                Event::InlineMath(s) => {
                    append_tree(&mut root, &mut stack, Tree::InlineMath(Spanned { item: s, span }));
                },
                Event::DisplayMath(s) => {
                    append_tree(
                        &mut root,
                        &mut stack,
                        Tree::DisplayMath(Spanned { item: s, span }),
                    );
                },
                Event::Html(s) => {
                    append_tree(&mut root, &mut stack, Tree::Html(Spanned { item: s, span }));
                },
                Event::InlineHtml(s) => {
                    append_tree(&mut root, &mut stack, Tree::InlineHtml(Spanned { item: s, span }));
                },
                Event::FootnoteReference(s) => {
                    append_tree(
                        &mut root,
                        &mut stack,
                        Tree::FootnoteReference(Spanned { item: s, span }),
                    );
                },
                Event::SoftBreak => {
                    append_tree(&mut root, &mut stack, Tree::SoftBreak(span));
                },
                Event::HardBreak => {
                    append_tree(&mut root, &mut stack, Tree::HardBreak(span));
                },
                Event::Rule => {
                    append_tree(&mut root, &mut stack, Tree::Rule(span));
                },
                Event::TaskListMarker(checked) => {
                    append_tree(
                        &mut root,
                        &mut stack,
                        Tree::TaskListMarker(Spanned { item: checked, span }),
                    );
                },
            }
            proof {
                k = k + 1;
            }
        }
        proof {
            assert(evs.take(k) =~= evs);
        }
        if stack.len() == 0 {
            let ast = Ast(root);
            return Ok(ast);
        }
        let mut open: Vec<TagEnd> = Vec::new();
        let mut i: usize = stack.len();
        while i > 0
            invariant
                i <= stack.len(),
                open@.len() == stack.len() - i,
                forall|j: int|
                    0 <= j < open@.len() ==> open@[j] == spec_to_end(
                        stack.deep_view()[stack@.len() - 1 - j].tag.item,
                    ),
            decreases i,
        {
            i = i - 1;
            let end = stack[i].tag.item.to_end();
            open.push(end);
        }
        proof {
            assert(open.deep_view() =~= open_kinds(stack.deep_view()));
        }
        Err(BuildError::UnterminatedGroup { open })
    }
}

/// Append a finished tree to the innermost open frame, or to the root
/// sequence if no container is open, as [`state_append`] does.
fn append_tree(root: &mut Vec<Tree>, stack: &mut Vec<Frame>, t: Tree)
    ensures
        ({
            let post = state_append(
                BuilderState { root: trees_view(old(root)@), stack: old(stack).deep_view() },
                t.deep_view(),
            );
            trees_view(final(root)@) == post.root && final(stack).deep_view() == post.stack
        }),
{
    let ghost pre = BuilderState { root: trees_view(root@), stack: stack.deep_view() };
    match stack.pop() {
        Some(frame) => {
            let mut frame = frame;
            frame.children.push(t);
            stack.push(frame);
            proof {
                lemma_trees_view(frame.children@);
                lemma_trees_view(old(stack)@.last().children@);
                assert(trees_view(frame.children@) =~= pre.stack.last().children.push(
                    t.deep_view(),
                ));
                assert(stack.deep_view() =~= pre.stack.drop_last().push(
                    FrameView {
                        tag: pre.stack.last().tag,
                        children: pre.stack.last().children.push(t.deep_view()),
                    },
                ));
                assert(trees_view(root@) == pre.root);
            }
        },
        None => {
            root.push(t);
            proof {
                lemma_trees_view(root@);
                lemma_trees_view(old(root)@);
                assert(trees_view(root@) =~= pre.root.push(t.deep_view()));
                assert(stack.deep_view() =~= pre.stack);
            }
        },
    }
}

} // verus!

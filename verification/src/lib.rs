//! A tree model for flat, span-annotated token streams.
//!
//! An external tokenizer turns source text into a flat, ordered sequence of
//! tokens, where container constructs appear as separate open and close
//! markers and every token carries a half-open byte range into the source.
//! This crate reconstructs the properly nested tree from such a stream,
//! checking that open and close markers pair up ([`Ast::from_events`]),
//! projects the tree back to the identical flat stream ([`Ast::linearize`]),
//! and offers an overridable depth-first rewriting traversal
//! ([`visit_mut::VisitMut`]).

use vstd::prelude::*;

pub mod builder;
pub mod event;
pub mod laws;
pub mod tree;
pub mod visit_mut;

verus! {

pub use crate::builder::BuildError;
pub use crate::tree::Ast;
pub use crate::tree::Group;
pub use crate::tree::Tree;

/// A half-open byte range `[start, end)` into the original source text.
#[derive(Debug, Clone, Copy, PartialEq, Eq, Structural, Hash)]
pub struct Span {
    pub start: usize,
    pub end: usize,
}

/// A value annotated with the byte range it was read from.
#[derive(Debug, Clone, PartialEq, Eq, Hash)]
pub struct Spanned<T> {
    pub item: T,
    pub span: Span,
}

impl<T> Spanned<T> {
    /// Discard the span and keep the carried value.
    pub fn into_inner(self) -> (r: T)
        ensures
            r == self.item,
    {
        self.item
    }
}

impl<T: DeepView> DeepView for Spanned<T> {
    type V = Spanned<T::V>;

    open spec fn deep_view(&self) -> Spanned<T::V> {
        Spanned { item: self.item.deep_view(), span: self.span }
    }
}

} // verus!

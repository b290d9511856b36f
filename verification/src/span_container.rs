//! A value together with the source spans it was written at: the span of
//! the argument's name and, optionally, the span of its value.
use vstd::prelude::*;

verus! {

/// A value `val` with the span of its name `ident` and, when written, the
/// span of its value `expr`.
pub struct SpanContainer<S, T> {
    pub expr: Option<S>,
    pub ident: S,
    pub val: T,
}

impl<S: Copy, T> SpanContainer<S, T> {
    /// A value with its spans.
    pub fn new(ident: S, expr: Option<S>, val: T) -> (res: Self)
        ensures
            res.ident == ident,
            res.expr == expr,
            res.val == val,
    {
        SpanContainer { expr, ident, val }
    }

    /// The span of the name of the argument.
    pub fn span_ident(&self) -> (res: S)
        ensures
            res == self.ident,
    {
        self.ident
    }

    /// The span that errors about the value point at: the span of the value
    /// when written, else the span of the name.
    pub fn span_joined(&self) -> (res: S)
        ensures
            res == match self.expr {
                Some(s) => s,
                None => self.ident,
            },
    {
        match self.expr {
            Some(s) => s,
            None => self.ident,
        }
    }

    /// The value, without its spans.
    pub fn into_inner(self) -> (res: T)
        ensures
            res == self.val,
    {
        self.val
    }

    /// The value, borrowed.
    pub fn as_ref(&self) -> (res: &T)
        ensures
            *res == self.val,
    {
        &self.val
    }
}

} // verus!

//! `expand` of the union macro on an impl block: a GraphQL union whose
//! variants a `resolve` method matches on.
use vstd::prelude::*;

use crate::diagnostic::Diagnostic;
use crate::text::{text_is, unraw, unraw_spec};
use crate::type_definition::{ObjectAttributes, ScopeDiag};

verus! {

/// Message of the error about implementing another trait than the union's.
pub const INVALID_TARGET_TRAIT: &'static str = "Invalid impl target trait: expected 'GraphQLUnion'";

/// Message of the error about an impl block without a `resolve` method.
pub const NO_RESOLVE_METHOD: &'static str = "expected exactly one method with signature: fn resolve(&self) { ... }";

/// A method of the impl block; `T` stands for the types of the variants and
/// `R` for the expressions resolving them.
pub struct ResolveMethodItem<T, R, S> {
    /// Whether its signature is that of `fn resolve(&self)`.
    pub is_resolve: bool,
    /// The variants of its `match self { Type => expr, ... }` body, or the
    /// error refusing that body.
    pub body: Result<Vec<(T, R)>, Diagnostic<S>>,
    /// Where the method is.
    pub span: S,
}

/// An impl block under the union macro, as read.
pub struct UnionImplBlockItem<T, R, S> {
    pub attrs: ObjectAttributes<T, S>,
    /// The identifier of the type it implements.
    pub type_ident: String,
    /// The trait it implements, if any, with where it is.
    pub target_trait: Option<(String, S)>,
    /// Its description, from its doc comments.
    pub description: Option<String>,
    pub methods: Vec<ResolveMethodItem<T, R, S>>,
}

/// The union macro on an impl block.
pub struct ImplUnionInput<T, R, S> {
    /// The impl block, or the error refusing it.
    pub block: Result<UnionImplBlockItem<T, R, S>, Diagnostic<S>>,
    /// Where the impl block is.
    pub body_span: S,
    /// Whether errors were emitted before, in the same macro call.
    pub dirty: bool,
}

/// A GraphQL union defined by an impl block, ready for code generation.
pub struct ImplUnionDefinition<T, R> {
    pub name: String,
    pub context: Option<T>,
    pub scalar: Option<T>,
    pub description: Option<String>,
    /// The variants, with the expressions resolving them, in order.
    pub variants: Vec<(T, R)>,
}

/// How the union macro on an impl block ends.
pub enum ImplUnionVerdict<T, R, S> {
    Failed(S, &'static str),
    Error(Diagnostic<S>),
    Aborted,
    Done(ImplUnionDefinition<T, R>),
}

/// What the union macro on an impl block emits, and how it ends.
pub struct ImplUnionExpansion<T, R, S> {
    pub diags: Vec<ScopeDiag<S>>,
    pub verdict: ImplUnionVerdict<T, R, S>,
}

/// The position of the first `resolve` method from `k` on, if any.
pub open spec fn first_resolve<T, R, S>(ms: Seq<ResolveMethodItem<T, R, S>>, k: int) -> Option<int>
    decreases ms.len() - k,
{
    if k < 0 || k >= ms.len() {
        None
    } else if ms[k].is_resolve {
        Some(k)
    } else {
        first_resolve(ms, k + 1)
    }
}

/// Whether the trait named `name` is the union's.
pub open spec fn is_union_trait(name: Seq<char>) -> bool {
    name == "GraphQLUnion"@ || name == "juniper.GraphQLUnion"@
}

/// The GraphQL name of the union: the explicit one, or the identifier of
/// its type.
pub open spec fn impl_union_name<T, R, S>(b: UnionImplBlockItem<T, R, S>) -> Seq<char> {
    match b.attrs.name {
        Some(n) => n@,
        None => unraw_spec(b.type_ident@),
    }
}

/// Decides the GraphQL union that an impl block defines: refused for the
/// impl block, then for a trait other than the union's, then for lacking a
/// `resolve` method, then for the body of the first one; a body with no
/// variant is reported, and the macro aborts on any error so far.
pub fn expand<T, R, S: Copy>(input: ImplUnionInput<T, R, S>) -> (res: ImplUnionExpansion<T, R, S>)
    ensures
        input.block is Err ==> res.diags@.len() == 0 && res.verdict == ImplUnionVerdict::<T, R, S>::Error(input.block->Err_0),
        input.block matches Ok(b) ==> {
            let tt = b.target_trait->0;
            if b.target_trait is Some && !is_union_trait(tt.0@) {
                res.diags@.len() == 0 && res.verdict == ImplUnionVerdict::<T, R, S>::Failed(tt.1, INVALID_TARGET_TRAIT)
            } else {
                match first_resolve(b.methods@, 0) {
                    None => res.diags@.len() == 0 && res.verdict == ImplUnionVerdict::<T, R, S>::Failed(
                        input.body_span,
                        NO_RESOLVE_METHOD,
                    ),
                    Some(k) => {
                        let m = b.methods@[k];
                        match m.body {
                            Err(e) => res.diags@.len() == 0 && res.verdict == ImplUnionVerdict::<T, R, S>::Error(e),
                            Ok(vs) => {
                                &&& res.diags@ == (if vs@.len() == 0 {
                                    seq![ScopeDiag::NotEmpty(m.span)]
                                } else {
                                    Seq::empty()
                                })
                                &&& (input.dirty || vs@.len() == 0) ==> res.verdict is Aborted
                                &&& !(input.dirty || vs@.len() == 0) ==> (res.verdict matches ImplUnionVerdict::Done(
                                    def,
                                ) && def.name@ == impl_union_name(b) && def.context == b.attrs.context
                                    && def.scalar == b.attrs.scalar && def.description == b.description
                                    && def.variants@ == vs@)
                            },
                        }
                    },
                }
            }
        },
{
    let ImplUnionInput { block, body_span, dirty } = input;
    let b = match block {
        Err(e) => return ImplUnionExpansion { diags: Vec::new(), verdict: ImplUnionVerdict::Error(e) },
        Ok(b) => b,
    };
    let ghost bv = b;
    let UnionImplBlockItem { attrs, type_ident, target_trait, description, methods } = b;
    if let Some((name, span)) = &target_trait {
        proof {
            reveal_strlit("GraphQLUnion");
            reveal_strlit("juniper.GraphQLUnion");
        }
        if !(text_is(name.as_str(), "GraphQLUnion") || text_is(name.as_str(), "juniper.GraphQLUnion")) {
            return ImplUnionExpansion { diags: Vec::new(), verdict: ImplUnionVerdict::Failed(*span, INVALID_TARGET_TRAIT) };
        }
    }
    let name = match &attrs.name {
        Some(n) => n.clone(),
        None => unraw(type_ident.as_str()),
    };
    let ghost all = methods@;
    let mut i: usize = 0;
    while i < methods.len() && !methods[i].is_resolve
        invariant
            i <= all.len(),
            all == methods@,
            first_resolve(all, 0) == first_resolve(all, i as int),
        decreases all.len() - i,
    {
        i += 1;
    }
    if i == methods.len() {
        return ImplUnionExpansion { diags: Vec::new(), verdict: ImplUnionVerdict::Failed(body_span, NO_RESOLVE_METHOD) };
    }
    let mut methods = methods;
    let m = methods.remove(i);
    assert(m == all[i as int]);
    assert(first_resolve(all, 0) == Some(i as int));
    let vs = match m.body {
        Err(e) => return ImplUnionExpansion { diags: Vec::new(), verdict: ImplUnionVerdict::Error(e) },
        Ok(vs) => vs,
    };
    let mut diags: Vec<ScopeDiag<S>> = Vec::new();
    if vs.len() == 0 {
        diags.push(ScopeDiag::NotEmpty(m.span));
        assert(diags@ =~= seq![ScopeDiag::NotEmpty(m.span)]);
    }
    if dirty || diags.len() > 0 {
        return ImplUnionExpansion { diags, verdict: ImplUnionVerdict::Aborted };
    }
    ImplUnionExpansion {
        diags,
        verdict: ImplUnionVerdict::Done(
            ImplUnionDefinition { name, context: attrs.context, scalar: attrs.scalar, description, variants: vs },
        ),
    }
}

} // verus!

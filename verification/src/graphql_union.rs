//! GraphQL unions (`#[derive(GraphQLUnion)]` on an enum or a struct, and
//! `#[graphql_union]` on a trait): the arguments of their attributes, the
//! variants of the union, and the decisions that check them.
//!
//! Rust types are compared by equality only; each distinct type is known
//! here by a number (`u64`) that stands for it.
use vstd::prelude::*;

use crate::attr::{merge_opt, merge_option, reversed};
use crate::diagnostic::{is_reserved_diag, is_scoped_diag, scoped_message, spec_link_of, Diagnostic, Scope};
use crate::session::{Control, Session};
use crate::text::{starts_with, text_is, unraw, unraw_spec};
use crate::arg::starts_with_double_underscore;

verus! {

/// An external resolver function given by `on Type = path` on a union.
pub struct ExternalResolver<R> {
    /// The type it resolves.
    pub ty: u64,
    /// The path of the function.
    pub path: R,
    /// The path, as written.
    pub text: String,
}

/// How a union variant is resolved.
pub enum Resolver<R, V> {
    /// By an external function.
    External(R),
    /// By matching the enum variant `V` that holds it.
    Own(V),
}

/// A variant of a GraphQL union: the Rust type it stands for, and how it is
/// resolved.
pub struct UnionVariant<R, V> {
    pub ty: u64,
    pub resolver: Resolver<R, V>,
}

/// The position of the first of `vs` of type `k`, or -1.
pub open spec fn index_of_ty<R, V>(vs: Seq<UnionVariant<R, V>>, k: u64) -> int
    decreases vs.len(),
{
    if vs.len() == 0 {
        -1
    } else {
        let i = index_of_ty(vs.drop_last(), k);
        if i >= 0 {
            i
        } else if vs.last().ty == k {
            vs.len() - 1
        } else {
            -1
        }
    }
}

/// The variants `vs` after the external resolver `r` is taken in: the first
/// variant of its type is resolved by it, or, when there is none, a variant
/// of its type is added at the end.
pub open spec fn emerge_one<R, V>(vs: Seq<UnionVariant<R, V>>, r: ExternalResolver<R>) -> Seq<UnionVariant<R, V>> {
    let i = index_of_ty(vs, r.ty);
    if i >= 0 {
        vs.update(i, UnionVariant { ty: r.ty, resolver: Resolver::External(r.path) })
    } else {
        vs.push(UnionVariant { ty: r.ty, resolver: Resolver::External(r.path) })
    }
}

/// The variants `vs` after all of `rs` are taken in, in order.
pub open spec fn emerge_spec<R, V>(vs: Seq<UnionVariant<R, V>>, rs: Seq<ExternalResolver<R>>) -> Seq<UnionVariant<R, V>>
    decreases rs.len(),
{
    if rs.len() == 0 {
        vs
    } else {
        emerge_one(emerge_spec(vs, rs.drop_last()), rs.last())
    }
}

fn find_ty<R, V>(vs: &Vec<UnionVariant<R, V>>, k: u64) -> (res: Option<usize>)
    ensures
        match res {
            Some(i) => i == index_of_ty(vs@, k) && i < vs@.len(),
            None => index_of_ty(vs@, k) == -1,
        },
{
    let mut i: usize = 0;
    while i < vs.len()
        invariant
            i <= vs@.len(),
            index_of_ty(vs@.take(i as int), k) == -1,
        decreases vs@.len() - i,
    {
        proof {
            assert(vs@.take(i + 1).drop_last() =~= vs@.take(i as int));
        }
        if vs[i].ty == k {
            proof {
                lemma_index_of_ty_prefix(vs@, k, i + 1);
            }
            return Some(i);
        }
        i += 1;
    }
    assert(vs@.take(vs@.len() as int) =~= vs@);
    None
}

proof fn lemma_index_of_ty_prefix<R, V>(vs: Seq<UnionVariant<R, V>>, k: u64, n: int)
    requires
        0 <= n <= vs.len(),
        index_of_ty(vs.take(n), k) >= 0,
    ensures
        index_of_ty(vs, k) == index_of_ty(vs.take(n), k),
    decreases vs.len() - n,
{
    if n < vs.len() {
        assert(vs.take(n + 1).drop_last() =~= vs.take(n));
        lemma_index_of_ty_prefix(vs, k, n + 1);
    } else {
        assert(vs.take(n) =~= vs);
    }
}

/// Takes the external resolvers `rs` into the variants `vs`, in order.
pub fn emerge_union_variants_from_attr<R, V>(vs: &mut Vec<UnionVariant<R, V>>, rs: Vec<ExternalResolver<R>>)
    ensures
        final(vs)@ == emerge_spec(old(vs)@, rs@),
{
    let ghost all = rs@;
    let ghost start = vs@;
    let n = rs.len();
    let mut rest = reversed(rs);
    let mut i: usize = 0;
    while rest.len() > 0
        invariant
            i + rest@.len() == n,
            n == all.len(),
            forall|j: int| 0 <= j < rest@.len() ==> #[trigger] rest@[j] == all[n - 1 - j],
            vs@ == emerge_spec(start, all.take(i as int)),
        decreases rest.len(),
    {
        let r = rest.pop().unwrap();
        proof {
            assert(r == all[i as int]);
            assert(all.take(i + 1).drop_last() =~= all.take(i as int));
            assert(all.take(i + 1).last() == r);
        }
        let ExternalResolver { ty, path, text: _ } = r;
        match find_ty(vs, ty) {
            Some(j) => {
                vs.set(j, UnionVariant { ty, resolver: Resolver::External(path) });
            },
            None => {
                vs.push(UnionVariant { ty, resolver: Resolver::External(path) });
            },
        }
        i += 1;
    }
    assert(all.take(n as int) =~= all);
}

proof fn lemma_index_of_ty<R, V>(vs: Seq<UnionVariant<R, V>>, k: u64)
    ensures
        -1 <= index_of_ty(vs, k) < vs.len(),
        index_of_ty(vs, k) >= 0 ==> vs[index_of_ty(vs, k)].ty == k,
        index_of_ty(vs, k) == -1 ==> forall|i: int| 0 <= i < vs.len() ==> #[trigger] vs[i].ty != k,
    decreases vs.len(),
{
    if vs.len() > 0 {
        lemma_index_of_ty(vs.drop_last(), k);
        let t = vs.drop_last();
        assert forall|i: int| 0 <= i < t.len() implies #[trigger] vs[i] == t[i] by {}
    }
}

/// Taking in external resolvers keeps the variants there were, each for
/// the same type, and only adds variants after them.
pub proof fn law_emerge_keeps_types<R, V>(vs: Seq<UnionVariant<R, V>>, rs: Seq<ExternalResolver<R>>)
    ensures
        emerge_spec(vs, rs).len() >= vs.len(),
        forall|i: int| 0 <= i < vs.len() ==> #[trigger] emerge_spec(vs, rs)[i].ty == vs[i].ty,
    decreases rs.len(),
{
    if rs.len() > 0 {
        law_emerge_keeps_types(vs, rs.drop_last());
        let w = emerge_spec(vs, rs.drop_last());
        lemma_index_of_ty(w, rs.last().ty);
    }
}

/// Every external resolver of a union ends up resolving a variant of its
/// type.
pub proof fn law_emerge_covers_resolvers<R, V>(vs: Seq<UnionVariant<R, V>>, rs: Seq<ExternalResolver<R>>)
    ensures
        forall|j: int|
            0 <= j < rs.len() ==> exists|i: int|
                0 <= i < emerge_spec(vs, rs).len() && #[trigger] emerge_spec(vs, rs)[i].ty == (
                #[trigger] rs[j]).ty,
    decreases rs.len(),
{
    if rs.len() > 0 {
        let r0 = rs.drop_last();
        law_emerge_covers_resolvers(vs, r0);
        let w = emerge_spec(vs, r0);
        let x = rs.last();
        lemma_index_of_ty(w, x.ty);
        let e = emerge_spec(vs, rs);
        assert(e == emerge_one(w, x));
        assert forall|j: int| 0 <= j < rs.len() implies exists|i: int|
            0 <= i < e.len() && #[trigger] e[i].ty == (#[trigger] rs[j]).ty by {
            if j < rs.len() - 1 {
                assert(rs[j] == r0[j]);
                let i = choose|i: int| 0 <= i < w.len() && #[trigger] w[i].ty == (#[trigger] r0[j]).ty;
                let k = index_of_ty(w, x.ty);
                if k >= 0 && i == k {
                    assert(e[i].ty == x.ty);
                } else {
                    assert(e[i].ty == w[i].ty);
                }
            } else {
                let k = index_of_ty(w, x.ty);
                if k >= 0 {
                    assert(e[k].ty == x.ty);
                } else {
                    assert(e[w.len() as int].ty == x.ty);
                }
            }
        }
    }
}

/// Whether all of `vs` stand for different Rust types.
pub open spec fn all_types_different<R, V>(vs: Seq<UnionVariant<R, V>>) -> bool {
    forall|i: int, j: int| 0 <= i < j < vs.len() ==> #[trigger] vs[i].ty != #[trigger] vs[j].ty
}

/// Checks whether all GraphQL union variants represent a different Rust
/// type.
pub fn all_variants_different<R, V>(vs: &Vec<UnionVariant<R, V>>) -> (res: bool)
    ensures
        res == all_types_different(vs@),
{
    let mut j: usize = 0;
    while j < vs.len()
        invariant
            j <= vs@.len(),
            forall|a: int, b: int| 0 <= a < b < j ==> #[trigger] vs@[a].ty != #[trigger] vs@[b].ty,
        decreases vs@.len() - j,
    {
        let mut i: usize = 0;
        while i < j
            invariant
                i <= j < vs@.len(),
                forall|a: int| 0 <= a < i ==> #[trigger] vs@[a].ty != vs@[j as int].ty,
            decreases j - i,
        {
            if vs[i].ty == vs[j].ty {
                return false;
            }
            i += 1;
        }
        j += 1;
    }
    true
}

/// The arguments that `#[graphql(...)]` takes on a union.
#[derive(Clone, Copy, Debug, PartialEq, Eq, Structural)]
pub enum UnionArgKey {
    /// `name = "..."`.
    Name,
    /// `desc = "..."` or `description = "..."`.
    Description,
    /// `ctx = ...`, `context = ...` or `Context = ...`.
    Context,
    /// `scalar = ...`, `Scalar = ...` or `ScalarValue = ...`.
    Scalar,
    /// `on Type = path`.
    On,
    /// `internal`.
    Internal,
}

/// The argument that `ident` names, if any.
pub open spec fn union_arg_key_spec(ident: Seq<char>) -> Option<UnionArgKey> {
    if ident == "name"@ {
        Some(UnionArgKey::Name)
    } else if ident == "desc"@ || ident == "description"@ {
        Some(UnionArgKey::Description)
    } else if ident == "ctx"@ || ident == "context"@ || ident == "Context"@ {
        Some(UnionArgKey::Context)
    } else if ident == "scalar"@ || ident == "Scalar"@ || ident == "ScalarValue"@ {
        Some(UnionArgKey::Scalar)
    } else if ident == "on"@ {
        Some(UnionArgKey::On)
    } else if ident == "internal"@ {
        Some(UnionArgKey::Internal)
    } else {
        None
    }
}

/// The keywords that name an argument here are exactly `name`, `desc`, `description`, `ctx`, `context`, `Context`, `scalar`, `Scalar`, `ScalarValue`, `on`, `internal`, each naming
/// the argument listed.
pub proof fn law_union_keywords(ident: Seq<char>)
    ensures
        ident == "name"@ ==> union_arg_key_spec(ident) == Some(UnionArgKey::Name),
        ident == "desc"@ ==> union_arg_key_spec(ident) == Some(UnionArgKey::Description),
        ident == "description"@ ==> union_arg_key_spec(ident) == Some(UnionArgKey::Description),
        ident == "ctx"@ ==> union_arg_key_spec(ident) == Some(UnionArgKey::Context),
        ident == "context"@ ==> union_arg_key_spec(ident) == Some(UnionArgKey::Context),
        ident == "Context"@ ==> union_arg_key_spec(ident) == Some(UnionArgKey::Context),
        ident == "scalar"@ ==> union_arg_key_spec(ident) == Some(UnionArgKey::Scalar),
        ident == "Scalar"@ ==> union_arg_key_spec(ident) == Some(UnionArgKey::Scalar),
        ident == "ScalarValue"@ ==> union_arg_key_spec(ident) == Some(UnionArgKey::Scalar),
        ident == "on"@ ==> union_arg_key_spec(ident) == Some(UnionArgKey::On),
        ident == "internal"@ ==> union_arg_key_spec(ident) == Some(UnionArgKey::Internal),
        union_arg_key_spec(ident) is Some ==> (ident == "name"@ || ident == "desc"@ || ident == "description"@ || ident == "ctx"@ || ident == "context"@ || ident == "Context"@ || ident == "scalar"@ || ident == "Scalar"@ || ident == "ScalarValue"@ || ident == "on"@ || ident == "internal"@),
{
    reveal_strlit("name");
    reveal_strlit("desc");
    reveal_strlit("description");
    reveal_strlit("ctx");
    reveal_strlit("context");
    reveal_strlit("Context");
    reveal_strlit("scalar");
    reveal_strlit("Scalar");
    reveal_strlit("ScalarValue");
    reveal_strlit("on");
    reveal_strlit("internal");
    assert("name"@[0] != "desc"@[0]);
    assert("name"@.len() != "description"@.len());
    assert("name"@.len() != "ctx"@.len());
    assert("name"@.len() != "context"@.len());
    assert("name"@.len() != "Context"@.len());
    assert("name"@.len() != "scalar"@.len());
    assert("name"@.len() != "Scalar"@.len());
    assert("name"@.len() != "ScalarValue"@.len());
    assert("name"@.len() != "on"@.len());
    assert("name"@.len() != "internal"@.len());
    assert("desc"@.len() != "description"@.len());
    assert("desc"@.len() != "ctx"@.len());
    assert("desc"@.len() != "context"@.len());
    assert("desc"@.len() != "Context"@.len());
    assert("desc"@.len() != "scalar"@.len());
    assert("desc"@.len() != "Scalar"@.len());
    assert("desc"@.len() != "ScalarValue"@.len());
    assert("desc"@.len() != "on"@.len());
    assert("desc"@.len() != "internal"@.len());
    assert("description"@.len() != "ctx"@.len());
    assert("description"@.len() != "context"@.len());
    assert("description"@.len() != "Context"@.len());
    assert("description"@.len() != "scalar"@.len());
    assert("description"@.len() != "Scalar"@.len());
    assert("description"@[0] != "ScalarValue"@[0]);
    assert("description"@.len() != "on"@.len());
    assert("description"@.len() != "internal"@.len());
    assert("ctx"@.len() != "context"@.len());
    assert("ctx"@.len() != "Context"@.len());
    assert("ctx"@.len() != "scalar"@.len());
    assert("ctx"@.len() != "Scalar"@.len());
    assert("ctx"@.len() != "ScalarValue"@.len());
    assert("ctx"@.len() != "on"@.len());
    assert("ctx"@.len() != "internal"@.len());
    assert("context"@[0] != "Context"@[0]);
    assert("context"@.len() != "scalar"@.len());
    assert("context"@.len() != "Scalar"@.len());
    assert("context"@.len() != "ScalarValue"@.len());
    assert("context"@.len() != "on"@.len());
    assert("context"@.len() != "internal"@.len());
    assert("Context"@.len() != "scalar"@.len());
    assert("Context"@.len() != "Scalar"@.len());
    assert("Context"@.len() != "ScalarValue"@.len());
    assert("Context"@.len() != "on"@.len());
    assert("Context"@.len() != "internal"@.len());
    assert("scalar"@[0] != "Scalar"@[0]);
    assert("scalar"@.len() != "ScalarValue"@.len());
    assert("scalar"@.len() != "on"@.len());
    assert("scalar"@.len() != "internal"@.len());
    assert("Scalar"@.len() != "ScalarValue"@.len());
    assert("Scalar"@.len() != "on"@.len());
    assert("Scalar"@.len() != "internal"@.len());
    assert("ScalarValue"@.len() != "on"@.len());
    assert("ScalarValue"@.len() != "internal"@.len());
    assert("on"@.len() != "internal"@.len());
}

/// The argument that `ident` names; `None` for an unknown argument.
pub fn union_arg_key(ident: &str) -> (res: Option<UnionArgKey>)
    ensures
        res == union_arg_key_spec(ident@),
        ident@ == "name"@ ==> res == Some(UnionArgKey::Name),
        ident@ == "desc"@ ==> res == Some(UnionArgKey::Description),
        ident@ == "description"@ ==> res == Some(UnionArgKey::Description),
        ident@ == "ctx"@ ==> res == Some(UnionArgKey::Context),
        ident@ == "context"@ ==> res == Some(UnionArgKey::Context),
        ident@ == "Context"@ ==> res == Some(UnionArgKey::Context),
        ident@ == "scalar"@ ==> res == Some(UnionArgKey::Scalar),
        ident@ == "Scalar"@ ==> res == Some(UnionArgKey::Scalar),
        ident@ == "ScalarValue"@ ==> res == Some(UnionArgKey::Scalar),
        ident@ == "on"@ ==> res == Some(UnionArgKey::On),
        ident@ == "internal"@ ==> res == Some(UnionArgKey::Internal),
        res is Some ==> (ident@ == "name"@ || ident@ == "desc"@ || ident@ == "description"@ || ident@ == "ctx"@ || ident@ == "context"@ || ident@ == "Context"@ || ident@ == "scalar"@ || ident@ == "Scalar"@ || ident@ == "ScalarValue"@ || ident@ == "on"@ || ident@ == "internal"@),
{
    proof {
        reveal_strlit("name");
        reveal_strlit("desc");
        reveal_strlit("description");
        reveal_strlit("ctx");
        reveal_strlit("context");
        reveal_strlit("Context");
        reveal_strlit("scalar");
        reveal_strlit("Scalar");
        reveal_strlit("ScalarValue");
        reveal_strlit("on");
        reveal_strlit("internal");
        assert("name"@[0] != "desc"@[0]);
        assert("name"@.len() != "description"@.len());
        assert("name"@.len() != "ctx"@.len());
        assert("name"@.len() != "context"@.len());
        assert("name"@.len() != "Context"@.len());
        assert("name"@.len() != "scalar"@.len());
        assert("name"@.len() != "Scalar"@.len());
        assert("name"@.len() != "ScalarValue"@.len());
        assert("name"@.len() != "on"@.len());
        assert("name"@.len() != "internal"@.len());
        assert("desc"@.len() != "description"@.len());
        assert("desc"@.len() != "ctx"@.len());
        assert("desc"@.len() != "context"@.len());
        assert("desc"@.len() != "Context"@.len());
        assert("desc"@.len() != "scalar"@.len());
        assert("desc"@.len() != "Scalar"@.len());
        assert("desc"@.len() != "ScalarValue"@.len());
        assert("desc"@.len() != "on"@.len());
        assert("desc"@.len() != "internal"@.len());
        assert("description"@.len() != "ctx"@.len());
        assert("description"@.len() != "context"@.len());
        assert("description"@.len() != "Context"@.len());
        assert("description"@.len() != "scalar"@.len());
        assert("description"@.len() != "Scalar"@.len());
        assert("description"@[0] != "ScalarValue"@[0]);
        assert("description"@.len() != "on"@.len());
        assert("description"@.len() != "internal"@.len());
        assert("ctx"@.len() != "context"@.len());
        assert("ctx"@.len() != "Context"@.len());
        assert("ctx"@.len() != "scalar"@.len());
        assert("ctx"@.len() != "Scalar"@.len());
        assert("ctx"@.len() != "ScalarValue"@.len());
        assert("ctx"@.len() != "on"@.len());
        assert("ctx"@.len() != "internal"@.len());
        assert("context"@[0] != "Context"@[0]);
        assert("context"@.len() != "scalar"@.len());
        assert("context"@.len() != "Scalar"@.len());
        assert("context"@.len() != "ScalarValue"@.len());
        assert("context"@.len() != "on"@.len());
        assert("context"@.len() != "internal"@.len());
        assert("Context"@.len() != "scalar"@.len());
        assert("Context"@.len() != "Scalar"@.len());
        assert("Context"@.len() != "ScalarValue"@.len());
        assert("Context"@.len() != "on"@.len());
        assert("Context"@.len() != "internal"@.len());
        assert("scalar"@[0] != "Scalar"@[0]);
        assert("scalar"@.len() != "ScalarValue"@.len());
        assert("scalar"@.len() != "on"@.len());
        assert("scalar"@.len() != "internal"@.len());
        assert("Scalar"@.len() != "ScalarValue"@.len());
        assert("Scalar"@.len() != "on"@.len());
        assert("Scalar"@.len() != "internal"@.len());
        assert("ScalarValue"@.len() != "on"@.len());
        assert("ScalarValue"@.len() != "internal"@.len());
        assert("on"@.len() != "internal"@.len());
    }
    if text_is(ident, "name") {
        Some(UnionArgKey::Name)
    } else if text_is(ident, "desc") || text_is(ident, "description") {
        Some(UnionArgKey::Description)
    } else if text_is(ident, "ctx") || text_is(ident, "context") || text_is(ident, "Context") {
        Some(UnionArgKey::Context)
    } else if text_is(ident, "scalar") || text_is(ident, "Scalar") || text_is(ident, "ScalarValue") {
        Some(UnionArgKey::Scalar)
    } else if text_is(ident, "on") {
        Some(UnionArgKey::On)
    } else if text_is(ident, "internal") {
        Some(UnionArgKey::Internal)
    } else {
        None
    }
}

/// One argument of `#[graphql(...)]` on a union, with its value.
pub enum UnionArg<T, R> {
    Name(String),
    Description(String),
    Context(T),
    Scalar(T),
    On(ExternalResolver<R>),
    Internal,
}

/// The arguments given by `#[graphql(...)]` attributes on a union.
pub struct UnionAttr<T, R> {
    pub name: Option<String>,
    pub description: Option<String>,
    pub context: Option<T>,
    pub scalar: Option<T>,
    /// External resolvers, each for a different type.
    pub external_resolvers: Vec<ExternalResolver<R>>,
    pub is_internal: bool,
}

/// Whether one of `rs` resolves the type `k`.
pub open spec fn has_resolver_for<R>(rs: Seq<ExternalResolver<R>>, k: u64) -> bool {
    exists|i: int| 0 <= i < rs.len() && #[trigger] rs[i].ty == k
}

/// No argument given.
pub open spec fn union_empty<T, R>() -> UnionAttrView<T, R> {
    UnionAttrView {
        name: None,
        description: None,
        context: None,
        scalar: None,
        external_resolvers: Seq::empty(),
        is_internal: false,
    }
}

/// The view of the arguments of a union: `Vec`s as sequences.
pub struct UnionAttrView<T, R> {
    pub name: Option<String>,
    pub description: Option<String>,
    pub context: Option<T>,
    pub scalar: Option<T>,
    pub external_resolvers: Seq<ExternalResolver<R>>,
    pub is_internal: bool,
}

impl<T, R> UnionAttr<T, R> {
    pub open spec fn view(&self) -> UnionAttrView<T, R> {
        UnionAttrView {
            name: self.name,
            description: self.description,
            context: self.context,
            scalar: self.scalar,
            external_resolvers: self.external_resolvers@,
            is_internal: self.is_internal,
        }
    }
}

/// Whether giving `x` in `a` gives an argument a second time: a resolver
/// is given twice when it resolves a type already resolved; `internal` may
/// be repeated.
pub open spec fn union_dup<T, R>(a: UnionAttrView<T, R>, x: UnionArg<T, R>) -> bool {
    match x {
        UnionArg::Name(_) => a.name is Some,
        UnionArg::Description(_) => a.description is Some,
        UnionArg::Context(_) => a.context is Some,
        UnionArg::Scalar(_) => a.scalar is Some,
        UnionArg::On(r) => has_resolver_for(a.external_resolvers, r.ty),
        UnionArg::Internal => false,
    }
}

/// `a` with the argument `x` given.
pub open spec fn union_with<T, R>(a: UnionAttrView<T, R>, x: UnionArg<T, R>) -> UnionAttrView<T, R> {
    match x {
        UnionArg::Name(s) => UnionAttrView { name: Some(s), ..a },
        UnionArg::Description(s) => UnionAttrView { description: Some(s), ..a },
        UnionArg::Context(t) => UnionAttrView { context: Some(t), ..a },
        UnionArg::Scalar(t) => UnionAttrView { scalar: Some(t), ..a },
        UnionArg::On(r) => UnionAttrView { external_resolvers: a.external_resolvers.push(r), ..a },
        UnionArg::Internal => UnionAttrView { is_internal: true, ..a },
    }
}

/// The arguments of one attribute, read in order: each is recorded, and the
/// first one given a second time is refused, by its position.
pub open spec fn union_parse_spec<T, R>(args: Seq<UnionArg<T, R>>) -> Result<UnionAttrView<T, R>, int>
    decreases args.len(),
{
    if args.len() == 0 {
        Ok(union_empty::<T, R>())
    } else {
        match union_parse_spec(args.drop_last()) {
            Err(i) => Err(i),
            Ok(a) => if union_dup(a, args.last()) {
                Err(args.len() - 1)
            } else {
                Ok(union_with(a, args.last()))
            },
        }
    }
}

proof fn lemma_union_parse_error_stays<T, R>(args: Seq<UnionArg<T, R>>, k: int)
    requires
        0 <= k <= args.len(),
        union_parse_spec(args.take(k)) is Err,
    ensures
        union_parse_spec(args) == union_parse_spec(args.take(k)),
    decreases args.len() - k,
{
    if k < args.len() {
        assert(args.take(k + 1).drop_last() =~= args.take(k));
        lemma_union_parse_error_stays(args, k + 1);
    } else {
        assert(args.take(k) =~= args);
    }
}

fn has_resolver<R>(rs: &Vec<ExternalResolver<R>>, k: u64) -> (res: bool)
    ensures
        res == has_resolver_for(rs@, k),
{
    let mut i: usize = 0;
    while i < rs.len()
        invariant
            i <= rs@.len(),
            forall|j: int| 0 <= j < i ==> #[trigger] rs@[j].ty != k,
        decreases rs@.len() - i,
    {
        if rs[i].ty == k {
            return true;
        }
        i += 1;
    }
    false
}

/// Why merging the arguments of two union attributes is refused.
#[derive(Clone, Copy, Debug, PartialEq, Eq, Structural)]
pub enum UnionMergeError {
    /// This argument is given by both.
    Both(UnionArgKey),
    /// The resolver at this position of the second attribute resolves a
    /// type that the first one resolves too.
    Resolver(usize),
}

/// The position of the first resolver of `b` for a type that `a` resolves
/// too, if any.
pub open spec fn first_shared_resolver<R>(a: Seq<ExternalResolver<R>>, b: Seq<ExternalResolver<R>>) -> Option<int>
    decreases b.len(),
{
    if b.len() == 0 {
        None
    } else {
        match first_shared_resolver(a, b.drop_last()) {
            Some(i) => Some(i),
            None => if has_resolver_for(a, b.last().ty) {
                Some(b.len() - 1)
            } else {
                None
            },
        }
    }
}

/// Why merging `a` and `b` is refused, if it is: the first argument (in
/// declaration order) that both give.
pub open spec fn union_merge_error<T, R>(a: UnionAttrView<T, R>, b: UnionAttrView<T, R>) -> Option<UnionMergeError> {
    if a.name is Some && b.name is Some {
        Some(UnionMergeError::Both(UnionArgKey::Name))
    } else if a.description is Some && b.description is Some {
        Some(UnionMergeError::Both(UnionArgKey::Description))
    } else if a.context is Some && b.context is Some {
        Some(UnionMergeError::Both(UnionArgKey::Context))
    } else if a.scalar is Some && b.scalar is Some {
        Some(UnionMergeError::Both(UnionArgKey::Scalar))
    } else {
        match first_shared_resolver(a.external_resolvers, b.external_resolvers) {
            Some(i) => Some(UnionMergeError::Resolver(i as usize)),
            None => None,
        }
    }
}

/// The arguments of `a` and `b` together, when no argument is in both.
pub open spec fn union_merge_spec<T, R>(a: UnionAttrView<T, R>, b: UnionAttrView<T, R>) -> UnionAttrView<T, R> {
    UnionAttrView {
        name: merge_opt(a.name, b.name)->0,
        description: merge_opt(a.description, b.description)->0,
        context: merge_opt(a.context, b.context)->0,
        scalar: merge_opt(a.scalar, b.scalar)->0,
        external_resolvers: a.external_resolvers + b.external_resolvers,
        is_internal: a.is_internal || b.is_internal,
    }
}

impl<T, R> UnionAttr<T, R> {
    /// An attribute with no argument.
    pub fn new() -> (res: Self)
        ensures
            res.view() == union_empty::<T, R>(),
    {
        UnionAttr {
            name: None,
            description: None,
            context: None,
            scalar: None,
            external_resolvers: Vec::new(),
            is_internal: false,
        }
    }

    /// Records the argument `x`, at position `i` of its attribute, after
    /// those already recorded; refused, by its position, where it is given a
    /// second time: the step by which the arguments of one attribute are
    /// read.
    pub fn add(self, x: UnionArg<T, R>, i: usize) -> (res: Result<Self, usize>)
        ensures
            forall|before: Seq<UnionArg<T, R>>|
                before.len() == i && union_parse_spec(before) == Ok::<UnionAttrView<T, R>, int>(self.view()) ==> match #[trigger] union_parse_spec(
                    before.push(x),
                ) {
                    Ok(a) => res matches Ok(r) && r.view() == a,
                    Err(j) => res matches Err(e) && e == j,
                },
    {
        let mut out = self;
        proof {
            assert forall|before: Seq<UnionArg<T, R>>| before.len() == i implies #[trigger] before.push(x).drop_last() == before by {
                assert(before.push(x).drop_last() =~= before);
            }
        }
        let dup = match &x {
            UnionArg::Name(_) => out.name.is_some(),
            UnionArg::Description(_) => out.description.is_some(),
            UnionArg::Context(_) => out.context.is_some(),
            UnionArg::Scalar(_) => out.scalar.is_some(),
            UnionArg::On(r) => has_resolver(&out.external_resolvers, r.ty),
            UnionArg::Internal => false,
        };
        if dup {
            return Err(i);
        }
        match x {
            UnionArg::Name(s) => out.name = Some(s),
            UnionArg::Description(s) => out.description = Some(s),
            UnionArg::Context(t) => out.context = Some(t),
            UnionArg::Scalar(t) => out.scalar = Some(t),
            UnionArg::On(r) => out.external_resolvers.push(r),
            UnionArg::Internal => out.is_internal = true,
        }
        Ok(out)
    }

    /// Records the arguments of one `#[graphql(...)]` attribute, refusing
    /// the first argument given twice, by its position.
    pub fn parse(args: Vec<UnionArg<T, R>>) -> (res: Result<Self, usize>)
        ensures
            match union_parse_spec(args@) {
                Ok(a) => res matches Ok(r) && r.view() == a,
                Err(i) => res matches Err(j) && j == i,
            },
    {
        let ghost all = args@;
        let n = args.len();
        let mut out = UnionAttr::new();
        let mut i: usize = 0;
        let mut rest = reversed(args);
        while rest.len() > 0
            invariant
                i + rest@.len() == n,
                n == all.len(),
                all == args@,
                forall|j: int| 0 <= j < rest@.len() ==> #[trigger] rest@[j] == all[n - 1 - j],
                union_parse_spec(all.take(i as int)) == Ok::<UnionAttrView<T, R>, int>(out.view()),
            decreases rest.len(),
        {
            let x = rest.pop().unwrap();
            proof {
                assert(x == all[i as int]);
                assert(all.take(i + 1).drop_last() =~= all.take(i as int));
                assert(all.take(i + 1).last() == x);
            }
            out = match out.add(x, i) {
                Ok(r) => r,
                Err(e) => {
                    proof {
                        assert(all.take(i as int).push(all[i as int]) =~= all.take(i + 1));
                        lemma_union_parse_error_stays(all, i + 1);
                    }
                    return Err(e);
                },
            };
            proof {
                assert(all.take(i as int).push(all[i as int]) =~= all.take(i + 1));
            }
            i += 1;
        }
        assert(all.take(n as int) =~= all);
        Ok(out)
    }

    /// Merges the arguments of two attributes, refusing the first argument
    /// (in declaration order) that both give.
    pub fn try_merge(self, another: Self) -> (res: Result<Self, UnionMergeError>)
        ensures
            match union_merge_error(self.view(), another.view()) {
                Some(e) => res == Err::<Self, UnionMergeError>(e),
                None => res matches Ok(a) && a.view() == union_merge_spec(self.view(), another.view()),
            },
    {
        let ghost sv = self.view();
        let ghost av = another.view();
        let name = match merge_option(self.name, another.name) {
            Ok(v) => v,
            Err(_) => return Err(UnionMergeError::Both(UnionArgKey::Name)),
        };
        let description = match merge_option(self.description, another.description) {
            Ok(v) => v,
            Err(_) => return Err(UnionMergeError::Both(UnionArgKey::Description)),
        };
        let context = match merge_option(self.context, another.context) {
            Ok(v) => v,
            Err(_) => return Err(UnionMergeError::Both(UnionArgKey::Context)),
        };
        let scalar = match merge_option(self.scalar, another.scalar) {
            Ok(v) => v,
            Err(_) => return Err(UnionMergeError::Both(UnionArgKey::Scalar)),
        };
        let mut resolvers = self.external_resolvers;
        let base = resolvers.len();
        let ghost first = resolvers@;
        let ghost second = another.external_resolvers@;
        let n = another.external_resolvers.len();
        let mut rest = reversed(another.external_resolvers);
        let mut i: usize = 0;
        while rest.len() > 0
            invariant
                i + rest@.len() == n,
                n == second.len(),
                forall|j: int| 0 <= j < rest@.len() ==> #[trigger] rest@[j] == second[n - 1 - j],
                first_shared_resolver(first, second.take(i as int)) is None,
                resolvers@ == first + second.take(i as int),
                base == first.len(),
                sv == self.view(),
                av == another.view(),
                first == sv.external_resolvers,
                second == av.external_resolvers,
                !(sv.name is Some && av.name is Some),
                !(sv.description is Some && av.description is Some),
                !(sv.context is Some && av.context is Some),
                !(sv.scalar is Some && av.scalar is Some),
            decreases rest.len(),
        {
            let r = rest.pop().unwrap();
            proof {
                assert(r == second[i as int]);
                assert(second.take(i + 1).drop_last() =~= second.take(i as int));
                assert(second.take(i + 1).last() == r);
            }
            let ghost before = resolvers@;
            let shared = self_has(&resolvers, base, r.ty);
            assert(resolvers@.take(base as int) =~= first);
            if shared {
                proof {
                    lemma_shared_stays(first, second, i + 1);
                }
                return Err(UnionMergeError::Resolver(i));
            }
            resolvers.push(r);
            assert(resolvers@ =~= first + second.take(i + 1));
            i += 1;
        }
        assert(second.take(n as int) =~= second);
        Ok(
            UnionAttr {
                name,
                description,
                context,
                scalar,
                external_resolvers: resolvers,
                is_internal: self.is_internal || another.is_internal,
            },
        )
    }
}

/// Whether one of the first `len` of `rs` resolves the type `k`.
fn self_has<R>(rs: &Vec<ExternalResolver<R>>, len: usize, k: u64) -> (res: bool)
    requires
        len <= rs@.len(),
    ensures
        res == has_resolver_for(rs@.take(len as int), k),
{
    let mut i: usize = 0;
    while i < len
        invariant
            i <= len <= rs@.len(),
            forall|j: int| 0 <= j < i ==> #[trigger] rs@[j].ty != k,
        decreases len - i,
    {
        if rs[i].ty == k {
            assert(rs@.take(len as int)[i as int].ty == k);
            return true;
        }
        i += 1;
    }
    proof {
        if has_resolver_for(rs@.take(len as int), k) {
            let j = choose|j: int| 0 <= j < len && #[trigger] rs@.take(len as int)[j].ty == k;
            assert(rs@[j].ty == k);
        }
    }
    false
}

proof fn lemma_shared_stays<R>(a: Seq<ExternalResolver<R>>, b: Seq<ExternalResolver<R>>, k: int)
    requires
        0 <= k <= b.len(),
        first_shared_resolver(a, b.take(k)) is Some,
    ensures
        first_shared_resolver(a, b) == first_shared_resolver(a, b.take(k)),
    decreases b.len() - k,
{
    if k < b.len() {
        assert(b.take(k + 1).drop_last() =~= b.take(k));
        lemma_shared_stays(a, b, k + 1);
    } else {
        assert(b.take(k) =~= b);
    }
}

/// One argument of `#[graphql(...)]` on a union variant.
pub enum UnionVariantArg<R> {
    /// `ignore` or `skip`.
    Ignore,
    /// `with = path`: the external resolver function.
    With(R),
}

/// The arguments given by `#[graphql(...)]` attributes on a union variant.
pub struct UnionVariantAttr<R> {
    pub ignore: bool,
    pub external_resolver: Option<R>,
}

/// The arguments of one attribute on a union variant, read in order: the
/// first one given a second time is refused, by its position.
pub open spec fn variant_parse_spec<R>(args: Seq<UnionVariantArg<R>>) -> Result<UnionVariantAttr<R>, int>
    decreases args.len(),
{
    if args.len() == 0 {
        Ok(UnionVariantAttr { ignore: false, external_resolver: None })
    } else {
        match variant_parse_spec(args.drop_last()) {
            Err(i) => Err(i),
            Ok(a) => match args.last() {
                UnionVariantArg::Ignore => if a.ignore {
                    Err(args.len() - 1)
                } else {
                    Ok(UnionVariantAttr { ignore: true, ..a })
                },
                UnionVariantArg::With(r) => if a.external_resolver is Some {
                    Err(args.len() - 1)
                } else {
                    Ok(UnionVariantAttr { external_resolver: Some(r), ..a })
                },
            },
        }
    }
}

/// The argument that `ident` names on a union variant: `true` for `ignore`
/// or `skip`, `false` for `with`; `None` for an unknown argument.
pub fn union_variant_arg_key(ident: &str) -> (res: Option<bool>)
    ensures
        res == (if ident@ == "ignore"@ || ident@ == "skip"@ {
            Some(true)
        } else if ident@ == "with"@ {
            Some(false)
        } else {
            None
        }),
{
    if text_is(ident, "ignore") || text_is(ident, "skip") {
        Some(true)
    } else if text_is(ident, "with") {
        Some(false)
    } else {
        None
    }
}

proof fn lemma_variant_parse_error_stays<R>(args: Seq<UnionVariantArg<R>>, k: int)
    requires
        0 <= k <= args.len(),
        variant_parse_spec(args.take(k)) is Err,
    ensures
        variant_parse_spec(args) == variant_parse_spec(args.take(k)),
    decreases args.len() - k,
{
    if k < args.len() {
        assert(args.take(k + 1).drop_last() =~= args.take(k));
        lemma_variant_parse_error_stays(args, k + 1);
    } else {
        assert(args.take(k) =~= args);
    }
}

impl<R> UnionVariantAttr<R> {
    /// Records the argument `x`, at position `i` of its attribute, after
    /// those already recorded; refused, by its position, where it is given a
    /// second time: the step by which the arguments of one attribute are
    /// read.
    pub fn add(self, x: UnionVariantArg<R>, i: usize) -> (res: Result<Self, usize>)
        ensures
            forall|before: Seq<UnionVariantArg<R>>|
                before.len() == i && variant_parse_spec(before) == Ok::<UnionVariantAttr<R>, int>(self) ==> match #[trigger] variant_parse_spec(
                    before.push(x),
                ) {
                    Ok(a) => res matches Ok(r) && r == a,
                    Err(j) => res matches Err(e) && e == j,
                },
    {
        let mut out = self;
        proof {
            assert forall|before: Seq<UnionVariantArg<R>>| before.len() == i implies #[trigger] before.push(x).drop_last() == before by {
                assert(before.push(x).drop_last() =~= before);
            }
        }
        let dup = match &x {
            UnionVariantArg::Ignore => out.ignore,
            UnionVariantArg::With(_) => out.external_resolver.is_some(),
        };
        if dup {
            return Err(i);
        }
        match x {
            UnionVariantArg::Ignore => out.ignore = true,
            UnionVariantArg::With(r) => out.external_resolver = Some(r),
        }
        Ok(out)
    }

    /// Records the arguments of one `#[graphql(...)]` attribute on a union
    /// variant, refusing the first argument given twice, by its position.
    pub fn parse(args: Vec<UnionVariantArg<R>>) -> (res: Result<Self, usize>)
        ensures
            match variant_parse_spec(args@) {
                Ok(a) => res == Ok::<Self, usize>(a),
                Err(i) => res matches Err(j) && j == i,
            },
    {
        let ghost all = args@;
        let n = args.len();
        let mut out = UnionVariantAttr { ignore: false, external_resolver: None };
        let mut i: usize = 0;
        let mut rest = reversed(args);
        while rest.len() > 0
            invariant
                i + rest@.len() == n,
                n == all.len(),
                all == args@,
                forall|j: int| 0 <= j < rest@.len() ==> #[trigger] rest@[j] == all[n - 1 - j],
                variant_parse_spec(all.take(i as int)) == Ok::<Self, int>(out),
            decreases rest.len(),
        {
            let x = rest.pop().unwrap();
            proof {
                assert(x == all[i as int]);
                assert(all.take(i + 1).drop_last() =~= all.take(i as int));
                assert(all.take(i + 1).last() == x);
            }
            out = match out.add(x, i) {
                Ok(r) => r,
                Err(e) => {
                    proof {
                        assert(all.take(i as int).push(all[i as int]) =~= all.take(i + 1));
                        lemma_variant_parse_error_stays(all, i + 1);
                    }
                    return Err(e);
                },
            };
            proof {
                assert(all.take(i as int).push(all[i as int]) =~= all.take(i + 1));
            }
            i += 1;
        }
        assert(all.take(n as int) =~= all);
        Ok(out)
    }

    /// Merges the arguments of two attributes on a union variant, refusing
    /// the first argument (`ignore`, then `with`) that both give.
    pub fn try_merge(self, another: Self) -> (res: Result<Self, bool>)
        ensures
            self.ignore && another.ignore ==> res == Err::<Self, bool>(true),
            !(self.ignore && another.ignore) && self.external_resolver is Some
                && another.external_resolver is Some ==> res == Err::<Self, bool>(false),
            !(self.ignore && another.ignore) && !(self.external_resolver is Some
                && another.external_resolver is Some) ==> res == Ok::<Self, bool>(
                UnionVariantAttr {
                    ignore: self.ignore || another.ignore,
                    external_resolver: merge_opt(self.external_resolver, another.external_resolver)->0,
                },
            ),
    {
        if self.ignore && another.ignore {
            return Err(true);
        }
        match merge_option(self.external_resolver, another.external_resolver) {
            Ok(r) => Ok(UnionVariantAttr { ignore: self.ignore || another.ignore, external_resolver: r }),
            Err(_) => Err(false),
        }
    }
}

/// The fields of an enum variant, as far as a union is concerned.
pub enum VariantFields<S> {
    /// A single unnamed field of the type `ty`, written as `text`.
    Single { ty: u64, text: String },
    /// Several unnamed fields, at this span.
    Many(S),
    /// Named fields, or none.
    NotUnnamed,
}

/// An enum variant of a derived union.
pub struct UnionVariantInput<S, R, V> {
    /// Its `#[graphql]` arguments, merged, or the diagnostic refusing them.
    pub attr: Result<UnionVariantAttr<R>, Diagnostic<S>>,
    /// Its identifier.
    pub ident: V,
    /// Where its identifier is.
    pub ident_span: S,
    /// Where its `with` argument is.
    pub with_span: S,
    pub fields: VariantFields<S>,
}

/// What an enum variant of a derived union becomes.
pub enum UnionVariantOutcome<S, R, V> {
    /// A union variant, and a diagnostic to emit about it, if any.
    Variant(UnionVariant<R, V>, Option<Diagnostic<S>>),
    /// Nothing: it is ignored.
    Ignored,
    /// Nothing, and this diagnostic is emitted.
    Refused(Diagnostic<S>),
}

/// Message of the diagnostic about a variant that is not a single unnamed
/// field.
pub const ONLY_SINGLE_UNNAMED: &'static str = "enum allows only unnamed variants with a single field, e.g. `Some(T)`";

/// Message of the diagnostic about a union without variants.
pub const NO_VARIANTS: &'static str = "expects at least one union variant";

/// Message of the diagnostic about variants of the same type.
pub const VARIANTS_NOT_DIFFERENT: &'static str = "must have a different type for each union variant";

/// The message of the diagnostic about a variant with its own resolver whose
/// type `ty` has one on the enum too, `other`.
pub open spec fn resolver_conflict_message(ty: Seq<char>, other: Seq<char>) -> Seq<char> {
    "variant `"@ + ty + "` already has external resolver function `"@ + other
        + "` declared on the enum"@
}


/// The position of the first of `rs` that resolves `k`, or -1.
pub open spec fn resolver_index<R>(rs: Seq<ExternalResolver<R>>, k: u64) -> int
    decreases rs.len(),
{
    if rs.len() == 0 {
        -1
    } else {
        let i = resolver_index(rs.drop_last(), k);
        if i >= 0 {
            i
        } else if rs.last().ty == k {
            rs.len() - 1
        } else {
            -1
        }
    }
}

fn find_resolver<R>(rs: &Vec<ExternalResolver<R>>, k: u64) -> (res: Option<usize>)
    ensures
        match res {
            Some(i) => i == resolver_index(rs@, k) && i < rs@.len(),
            None => resolver_index(rs@, k) == -1,
        },
{
    let mut i: usize = 0;
    while i < rs.len()
        invariant
            i <= rs@.len(),
            resolver_index(rs@.take(i as int), k) == -1,
        decreases rs@.len() - i,
    {
        proof {
            assert(rs@.take(i + 1).drop_last() =~= rs@.take(i as int));
        }
        if rs[i].ty == k {
            proof {
                lemma_resolver_index_prefix(rs@, k, i + 1);
            }
            return Some(i);
        }
        i += 1;
    }
    assert(rs@.take(rs@.len() as int) =~= rs@);
    None
}

proof fn lemma_resolver_index_prefix<R>(rs: Seq<ExternalResolver<R>>, k: u64, n: int)
    requires
        0 <= n <= rs.len(),
        resolver_index(rs.take(n), k) >= 0,
    ensures
        resolver_index(rs, k) == resolver_index(rs.take(n), k),
    decreases rs.len() - n,
{
    if n < rs.len() {
        assert(rs.take(n + 1).drop_last() =~= rs.take(n));
        lemma_resolver_index_prefix(rs, k, n + 1);
    } else {
        assert(rs.take(n) =~= rs);
    }
}

/// What the enum variant `v` becomes, given the resolvers `rs` of the enum.
pub open spec fn variant_outcome_ok<S, R, V>(
    v: UnionVariantInput<S, R, V>,
    rs: Seq<ExternalResolver<R>>,
    o: UnionVariantOutcome<S, R, V>,
) -> bool {
    match v.attr {
        Err(d) => o == UnionVariantOutcome::<S, R, V>::Refused(d),
        Ok(a) => if a.ignore {
            o is Ignored
        } else {
            match v.fields {
                VariantFields::Many(span) => o matches UnionVariantOutcome::Refused(d) && is_scoped_diag(d, Scope::UnionDerive, span, ONLY_SINGLE_UNNAMED@),
                VariantFields::NotUnnamed => o matches UnionVariantOutcome::Refused(d) && is_scoped_diag(d, Scope::UnionDerive, v.ident_span, ONLY_SINGLE_UNNAMED@),
                VariantFields::Single { ty, text } => match a.external_resolver {
                    Some(r) => o matches UnionVariantOutcome::Variant(var, warning) && var == (UnionVariant::<R, V> { ty, resolver: Resolver::External(r) }) && if resolver_index(rs, ty) >= 0 {
                        warning matches Some(d) && is_scoped_diag(d, Scope::UnionDerive, v.with_span, resolver_conflict_message(text@, rs[resolver_index(rs, ty)].text@))
                    } else {
                        warning is None
                    },
                    None => o matches UnionVariantOutcome::Variant(var, warning) && var == (UnionVariant::<R, V> { ty, resolver: Resolver::Own(v.ident) }) && warning is None,
                },
            }
        },
    }
}

/// Decides what the enum variant `v` of a derived union becomes, given the
/// external resolvers `rs` declared on the enum.
pub fn parse_variant<S: Copy, R, V>(v: UnionVariantInput<S, R, V>, rs: &Vec<ExternalResolver<R>>) -> (res: UnionVariantOutcome<S, R, V>)
    ensures
        variant_outcome_ok(v, rs@, res),
{
    let a = match v.attr {
        Err(d) => return UnionVariantOutcome::Refused(d),
        Ok(a) => a,
    };
    if a.ignore {
        return UnionVariantOutcome::Ignored;
    }
    let (ty, text) = match v.fields {
        VariantFields::Single { ty, text } => (ty, text),
        VariantFields::Many(span) => return UnionVariantOutcome::Refused(
            Scope::UnionDerive.custom(span, ONLY_SINGLE_UNNAMED),
        ),
        VariantFields::NotUnnamed => return UnionVariantOutcome::Refused(
            Scope::UnionDerive.custom(v.ident_span, ONLY_SINGLE_UNNAMED),
        ),
    };
    match a.external_resolver {
        Some(r) => {
            let warning = match find_resolver(rs, ty) {
                Some(i) => {
                    let msg = String::from_str("variant `").concat(text.as_str()).concat(
                        "` already has external resolver function `",
                    ).concat(rs[i].text.as_str()).concat("` declared on the enum");
                    Some(Scope::UnionDerive.custom(v.with_span, msg.as_str()))
                },
                None => None,
            };
            UnionVariantOutcome::Variant(UnionVariant { ty, resolver: Resolver::External(r) }, warning)
        },
        None => UnionVariantOutcome::Variant(UnionVariant { ty, resolver: Resolver::Own(v.ident) }, None),
    }
}

/// The diagnostics that `outs` emit, in order.
pub open spec fn outcome_diags<S, R, V>(outs: Seq<UnionVariantOutcome<S, R, V>>) -> Seq<Diagnostic<S>>
    decreases outs.len(),
{
    if outs.len() == 0 {
        Seq::empty()
    } else {
        let pre = outcome_diags(outs.drop_last());
        match outs.last() {
            UnionVariantOutcome::Refused(d) => pre.push(d),
            UnionVariantOutcome::Variant(_, Some(d)) => pre.push(d),
            _ => pre,
        }
    }
}

/// The union variants among `outs`, in order.
pub open spec fn outcome_variants<S, R, V>(outs: Seq<UnionVariantOutcome<S, R, V>>) -> Seq<UnionVariant<R, V>>
    decreases outs.len(),
{
    if outs.len() == 0 {
        Seq::empty()
    } else {
        let pre = outcome_variants(outs.drop_last());
        match outs.last() {
            UnionVariantOutcome::Variant(v, _) => pre.push(v),
            _ => pre,
        }
    }
}

/// A Rust enum or struct that a GraphQL union is derived on.
pub struct UnionInput<S, T, R, V> {
    /// Its `#[graphql]` arguments, completed.
    pub attr: UnionAttr<T, R>,
    /// The text of its identifier.
    pub ident: String,
    /// Where a name starting with `__` is reported.
    pub name_span: S,
    /// Where the whole input is.
    pub span: S,
    /// What each enum variant becomes; `None` for a struct.
    pub variants: Option<Vec<UnionVariantOutcome<S, R, V>>>,
}

/// A GraphQL union, ready for code generation.
pub struct UnionDefinition<T, R, V> {
    pub name: String,
    pub description: Option<String>,
    pub context: Option<T>,
    pub scalar: Option<T>,
    pub variants: Vec<UnionVariant<R, V>>,
}

/// What deriving a GraphQL union ends with.
pub enum UnionExpansion<T, R, V> {
    /// Diagnostics were emitted: the macro stops.
    Aborted,
    /// The GraphQL union to generate code for.
    Done(UnionDefinition<T, R, V>),
}

/// The GraphQL name of the union: the explicit one, or the identifier.
pub open spec fn union_name<S, T, R, V>(input: UnionInput<S, T, R, V>) -> Seq<char> {
    match input.attr.name {
        Some(n) => n@,
        None => unraw_spec(input.ident@),
    }
}

/// Whether the union's name is refused for starting with `__`.
pub open spec fn union_name_reserved<S, T, R, V>(input: UnionInput<S, T, R, V>) -> bool {
    !input.attr.is_internal && starts_with(union_name(input), "__"@)
}


/// The diagnostics of the enum variants of `input`.
pub open spec fn input_diags<S, T, R, V>(input: UnionInput<S, T, R, V>) -> Seq<Diagnostic<S>> {
    match input.variants {
        Some(o) => outcome_diags(o@),
        None => Seq::empty(),
    }
}

/// The union variants of `input` once the external resolvers are taken in.
pub open spec fn input_variants<S, T, R, V>(input: UnionInput<S, T, R, V>) -> Seq<UnionVariant<R, V>> {
    emerge_spec(
        match input.variants {
            Some(o) => outcome_variants(o@),
            None => Seq::empty(),
        },
        input.attr.external_resolvers@,
    )
}

/// Decides the GraphQL union that `input` derives, emitting its
/// diagnostics into `session`.
pub fn expand<S: Copy, T, R, V>(input: UnionInput<S, T, R, V>, session: &mut Session<S>) -> (res: UnionExpansion<T, R, V>)
    requires
        old(session).state().depth > 0,
    ensures
        final(session).state().depth == old(session).state().depth,
        ({
            let e = final(session).state().errors;
            let k0 = old(session).state().errors.len() as int;
            let k1 = k0 + if union_name_reserved(input) { 1int } else { 0int };
            let ds = input_diags(input);
            let k2 = k1 + ds.len();
            let vs = input_variants(input);
            &&& e.len() >= k2
            &&& e.take(k0) == old(session).state().errors
            &&& union_name_reserved(input) ==> is_reserved_diag(e[k0], input.name_span)
            &&& e.subrange(k1, k2) == ds
            &&& if input.variants is Some && k2 > 0 {
                e.len() == k2 && res is Aborted
            } else {
                &&& e.len() == k2 + (if vs.len() == 0 { 1int } else { 0int }) + (if all_types_different(vs) { 0int } else { 1int })
                &&& vs.len() == 0 ==> is_scoped_diag(e[k2], Scope::UnionDerive, input.span, NO_VARIANTS@)
                &&& !all_types_different(vs) ==> is_scoped_diag(e[e.len() - 1], Scope::UnionDerive, input.span, VARIANTS_NOT_DIFFERENT@)
                &&& (res is Aborted <==> e.len() > 0)
                &&& res matches UnionExpansion::Done(def) ==> {
                    &&& def.name@ == union_name(input)
                    &&& def.description == input.attr.description
                    &&& def.context == input.attr.context
                    &&& def.scalar == input.attr.scalar
                    &&& def.variants@ == vs
                }
            }
        }),
{
    let ghost e0 = session.state().errors;
    let ghost reserved = union_name_reserved(input);
    let ghost ds = input_diags(input);
    let ghost vs_spec = input_variants(input);
    let ghost input_attr_resolvers = input.attr.external_resolvers@;
    let name = match input.attr.name {
        Some(n) => n,
        None => unraw(input.ident.as_str()),
    };
    if !input.attr.is_internal && starts_with_double_underscore(&name) {
        session.emit(Scope::UnionDerive.no_double_underscore(input.name_span));
    }
    let ghost e1 = session.state().errors;
    assert(e1.len() == e0.len() + if reserved { 1int } else { 0int });
    assert(e1.take(e0.len() as int) =~= e0);
    let is_enum = input.variants.is_some();
    let mut variants: Vec<UnionVariant<R, V>> = Vec::new();
    match input.variants {
        None => {},
        Some(outs) => {
            let ghost all = outs@;
            let n = outs.len();
            let mut rest = reversed(outs);
            let mut i: usize = 0;
            while rest.len() > 0
                invariant
                    i + rest@.len() == n,
                    n == all.len(),
                    forall|j: int| 0 <= j < rest@.len() ==> #[trigger] rest@[j] == all[n - 1 - j],
                    session.state().depth == old(session).state().depth,
                    old(session).state().depth > 0,
                    session.state().errors == e1 + outcome_diags(all.take(i as int)),
                    variants@ == outcome_variants(all.take(i as int)),
                decreases rest.len(),
            {
                let o = rest.pop().unwrap();
                let ghost pre = all.take(i as int);
                let ghost now = all.take(i + 1);
                proof {
                    assert(o == all[i as int]);
                    assert(now.drop_last() =~= pre);
                    assert(now.last() == o);
                }
                match o {
                    UnionVariantOutcome::Variant(v, warning) => {
                        variants.push(v);
                        match warning {
                            Some(d) => {
                                session.emit(d);
                                assert(e1 + outcome_diags(now) =~= (e1 + outcome_diags(pre)).push(d));
                            },
                            None => {},
                        }
                    },
                    UnionVariantOutcome::Ignored => {},
                    UnionVariantOutcome::Refused(d) => {
                        session.emit(d);
                        assert(e1 + outcome_diags(now) =~= (e1 + outcome_diags(pre)).push(d));
                    },
                }
                i += 1;
            }
            assert(all.take(n as int) =~= all);
        },
    }
    let ghost e2 = session.state().errors;
    assert(e2.take(e0.len() as int) =~= e0);
    assert(e2.subrange(e1.len() as int, e2.len() as int) =~= ds);
    if is_enum && session.abort_if_dirty() == Control::Abort {
        return UnionExpansion::Aborted;
    }
    emerge_union_variants_from_attr(&mut variants, input.attr.external_resolvers);
    assert(variants@ == vs_spec);
    if variants.len() == 0 {
        session.emit(Scope::UnionDerive.custom(input.span, NO_VARIANTS));
    }
    if !all_variants_different(&variants) {
        session.emit(Scope::UnionDerive.custom(input.span, VARIANTS_NOT_DIFFERENT));
    }
    let ghost e3 = session.state().errors;
    assert(e3.take(e0.len() as int) =~= e0);
    assert(e3.subrange(e1.len() as int, e2.len() as int) =~= ds);
    proof {
        if reserved {
            assert(e3[e0.len() as int] == e1[e0.len() as int]);
        }
    }
    if session.abort_if_dirty() == Control::Abort {
        return UnionExpansion::Aborted;
    }
    UnionExpansion::Done(
        UnionDefinition {
            name,
            description: input.attr.description,
            context: input.attr.context,
            scalar: input.attr.scalar,
            variants,
        },
    )
}

/// A trait method of a union declared by `#[graphql_union]` on a trait,
/// with what its signature gave.
pub struct TraitVariantInput<S, R, M, C> {
    /// Its `#[graphql]` arguments, merged, or the diagnostic refusing them.
    pub attr: Result<UnionVariantAttr<R>, Diagnostic<S>>,
    /// Where its `with` argument is.
    pub with_span: S,
    /// Its identifier.
    pub ident: M,
    /// The text of its identifier.
    pub ident_text: String,
    /// Where its signature is.
    pub sig_span: S,
    /// The type behind its return type `Option<&Type>`, with that type as
    /// written; or where the return type is not of that form.
    pub output: Result<(u64, String), S>,
    /// The type behind its `&Context` argument, if it takes one; or where
    /// its arguments are not `&self` and, optionally, `&Context`.
    pub context: Result<Option<C>, S>,
    /// Where `async` is, for an async method.
    pub async_span: Option<S>,
}

/// The trait method that resolves a union variant, and the context type it
/// takes, if any.
pub struct TraitMethod<M, C> {
    pub ident: M,
    pub context: Option<C>,
}

/// What a trait method of a union becomes: the diagnostics it emits, in
/// order, and its union variant, if it gives one.
pub struct TraitVariantOutcome<S, R, M, C> {
    pub diags: Vec<Diagnostic<S>>,
    pub variant: Option<UnionVariant<R, TraitMethod<M, C>>>,
}

/// Message of the diagnostic about `with` on a trait method.
pub const WITH_ON_TRAIT_METHOD: &'static str = "cannot use #[graphql(with = ...)] attribute on a trait method";

/// Note of the diagnostic about `with` on a trait method.
pub const WITH_ON_TRAIT_METHOD_NOTE: &'static str = "instead use #[graphql(ignore)] on the method with #[graphql_union(on ... = ...)] on the trait itself";

/// Message of the diagnostic about a return type that is not
/// `Option<&Type>`.
pub const BAD_OUTPUT: &'static str = "expects trait method return type to be `Option<&VariantType>` only";

/// Message of the diagnostic about arguments that are not `&self` and,
/// optionally, `&Context`.
pub const BAD_ARGUMENTS: &'static str = "expects trait method to accept `&self` only and, optionally, `&Context`";

/// Message of the diagnostic about an async trait method.
pub const ASYNC_DOWNCAST: &'static str = "async downcast to union variants is not supported";

/// Note of the diagnostic about a trait method that conflicts with an
/// external resolver.
pub const CONFLICT_NOTE: &'static str = "use `#[graphql(ignore)]` attribute to ignore this trait method for union variants resolution";

/// The message of the diagnostic about the trait method `method` whose
/// variant type `ty` has the external resolver `other` on the trait too.
pub open spec fn method_conflict_message(method: Seq<char>, other: Seq<char>, ty: Seq<char>) -> Seq<char> {
    "trait method `"@ + method + "` conflicts with the external resolver function `"@ + other
        + "` declared on the trait to resolve the variant type `"@ + ty + "`"@
}

/// Whether `d` is a diagnostic of `#[graphql_union]` at `span` with `msg`
/// and the note `note` after the link to the specification.
pub open spec fn is_noted_diag<S>(d: Diagnostic<S>, span: S, msg: Seq<char>, note: Seq<char>) -> bool {
    &&& d.first == span
    &&& d.last == span
    &&& d.msg@ == scoped_message(Scope::UnionAttr, msg)
    &&& d.notes@.len() == 2
    &&& d.notes@[0]@ == spec_link_of(Scope::UnionAttr)
    &&& d.notes@[1]@ == note
}


/// What the trait method `v` becomes, given the external resolvers `rs`
/// declared on the trait.
pub open spec fn trait_variant_ok<S, R, M, C>(
    v: TraitVariantInput<S, R, M, C>,
    rs: Seq<ExternalResolver<R>>,
    o: TraitVariantOutcome<S, R, M, C>,
) -> bool {
    let ds = o.diags@;
    match v.attr {
        Err(d) => ds == seq![d] && o.variant is None,
        Ok(a) => {
            let w: int = if a.external_resolver is Some { 1 } else { 0 };
            &&& a.external_resolver is Some ==> is_noted_diag(ds[0], v.with_span, WITH_ON_TRAIT_METHOD@, WITH_ON_TRAIT_METHOD_NOTE@)
            &&& if a.ignore {
                ds.len() == w && o.variant is None
            } else {
                match v.output {
                    Err(sp) => ds.len() == w + 1 && is_scoped_diag(ds[w], Scope::UnionAttr, sp, BAD_OUTPUT@) && o.variant is None,
                    Ok((ty, text)) => match v.context {
                        Err(sp) => ds.len() == w + 1 && is_scoped_diag(ds[w], Scope::UnionAttr, sp, BAD_ARGUMENTS@) && o.variant is None,
                        Ok(c) => match v.async_span {
                            Some(sp) => ds.len() == w + 1 && is_scoped_diag(ds[w], Scope::UnionAttr, sp, ASYNC_DOWNCAST@) && o.variant is None,
                            None => {
                                let k = resolver_index(rs, ty);
                                &&& ds.len() == w + if k >= 0 { 1int } else { 0int }
                                &&& k >= 0 ==> is_noted_diag(
                                    ds[w],
                                    v.sig_span,
                                    method_conflict_message(v.ident_text@, rs[k].text@, text@),
                                    CONFLICT_NOTE@,
                                )
                                &&& o.variant == Some(
                                    UnionVariant { ty, resolver: Resolver::<R, TraitMethod<M, C>>::Own(TraitMethod { ident: v.ident, context: c }) },
                                )
                            },
                        },
                    },
                }
            }
        },
    }
}

/// Decides what a trait method of a union declared on a trait becomes,
/// given the external resolvers `rs` declared on the trait.
pub fn parse_trait_variant<S: Copy, R, M, C>(v: TraitVariantInput<S, R, M, C>, rs: &Vec<ExternalResolver<R>>) -> (res: TraitVariantOutcome<S, R, M, C>)
    ensures
        trait_variant_ok(v, rs@, res),
{
    let mut diags: Vec<Diagnostic<S>> = Vec::new();
    let a = match v.attr {
        Err(d) => {
            diags.push(d);
            assert(diags@ =~= seq![d]);
            return TraitVariantOutcome { diags, variant: None };
        },
        Ok(a) => a,
    };
    if a.external_resolver.is_some() {
        diags.push(
            Scope::UnionAttr.custom(v.with_span, WITH_ON_TRAIT_METHOD).note(String::from_str(WITH_ON_TRAIT_METHOD_NOTE)),
        );
    }
    let ghost w = diags@.len() as int;
    if a.ignore {
        return TraitVariantOutcome { diags, variant: None };
    }
    let (ty, text) = match v.output {
        Err(sp) => {
            diags.push(Scope::UnionAttr.custom(sp, BAD_OUTPUT));
            return TraitVariantOutcome { diags, variant: None };
        },
        Ok(o) => o,
    };
    let context = match v.context {
        Err(sp) => {
            diags.push(Scope::UnionAttr.custom(sp, BAD_ARGUMENTS));
            return TraitVariantOutcome { diags, variant: None };
        },
        Ok(c) => c,
    };
    if let Some(sp) = v.async_span {
        diags.push(Scope::UnionAttr.custom(sp, ASYNC_DOWNCAST));
        return TraitVariantOutcome { diags, variant: None };
    }
    match find_resolver(rs, ty) {
        Some(k) => {
            let msg = String::from_str("trait method `").concat(v.ident_text.as_str()).concat(
                "` conflicts with the external resolver function `",
            ).concat(rs[k].text.as_str()).concat("` declared on the trait to resolve the variant type `").concat(
                text.as_str(),
            ).concat("`");
            diags.push(Scope::UnionAttr.custom(v.sig_span, msg.as_str()).note(String::from_str(CONFLICT_NOTE)));
        },
        None => {},
    }
    TraitVariantOutcome {
        diags,
        variant: Some(UnionVariant { ty, resolver: Resolver::Own(TraitMethod { ident: v.ident, context }) }),
    }
}

/// The diagnostics that the outcomes `outs` emit, in order.
pub open spec fn trait_diags<S, R, M, C>(outs: Seq<TraitVariantOutcome<S, R, M, C>>) -> Seq<Diagnostic<S>>
    decreases outs.len(),
{
    if outs.len() == 0 {
        Seq::empty()
    } else {
        trait_diags(outs.drop_last()) + outs.last().diags@
    }
}

/// The union variants that the outcomes `outs` give, in order.
pub open spec fn trait_variants<S, R, M, C>(outs: Seq<TraitVariantOutcome<S, R, M, C>>) -> Seq<UnionVariant<R, TraitMethod<M, C>>>
    decreases outs.len(),
{
    if outs.len() == 0 {
        Seq::empty()
    } else {
        match outs.last().variant {
            Some(v) => trait_variants(outs.drop_last()).push(v),
            None => trait_variants(outs.drop_last()),
        }
    }
}

/// The context type of the first of `vs` resolved by a trait method that
/// takes one.
pub open spec fn first_method_context<R, M, C>(vs: Seq<UnionVariant<R, TraitMethod<M, C>>>) -> Option<C>
    decreases vs.len(),
{
    if vs.len() == 0 {
        None
    } else {
        match vs[0].resolver {
            Resolver::Own(m) => match m.context {
                Some(c) => Some(c),
                None => first_method_context(vs.drop_first()),
            },
            Resolver::External(_) => first_method_context(vs.drop_first()),
        }
    }
}

/// A trait under `#[graphql_union]`.
pub struct UnionTraitInput<S, T, R, M> {
    /// Its completed attribute arguments.
    pub attr: UnionAttr<T, R>,
    /// The text of its identifier.
    pub ident: String,
    /// Where a name starting with `__` is reported.
    pub name_span: S,
    /// Where the whole trait is.
    pub span: S,
    /// Its methods, in order.
    pub methods: Vec<TraitVariantInput<S, R, M, T>>,
}

/// The GraphQL name of a union declared on a trait.
pub open spec fn trait_union_name<S, T, R, M>(input: UnionTraitInput<S, T, R, M>) -> Seq<char> {
    match input.attr.name {
        Some(n) => n@,
        None => unraw_spec(input.ident@),
    }
}

/// Whether `outs` are what the `methods` become, in order, given the
/// resolvers `rs`.
pub open spec fn trait_methods_ok<S, R, M, C>(
    methods: Seq<TraitVariantInput<S, R, M, C>>,
    rs: Seq<ExternalResolver<R>>,
    outs: Seq<TraitVariantOutcome<S, R, M, C>>,
) -> bool {
    outs.len() == methods.len() && forall|i: int| 0 <= i < methods.len() ==> trait_variant_ok(#[trigger] methods[i], rs, outs[i])
}

/// The first context type among the trait methods resolving `vs`.
fn method_context<R, M, C: Copy>(vs: &Vec<UnionVariant<R, TraitMethod<M, C>>>) -> (res: Option<C>)
    ensures
        res == first_method_context(vs@),
{
    let mut i: usize = 0;
    assert(vs@.skip(0) =~= vs@);
    while i < vs.len()
        invariant
            i <= vs@.len(),
            first_method_context(vs@) == first_method_context(vs@.skip(i as int)),
        decreases vs@.len() - i,
    {
        assert(vs@.skip(i as int).drop_first() =~= vs@.skip(i + 1));
        assert(vs@.skip(i as int)[0] == vs@[i as int]);
        match &vs[i].resolver {
            Resolver::Own(m) => match &m.context {
                Some(c) => return Some(*c),
                None => {},
            },
            Resolver::External(_) => {},
        }
        i += 1;
    }
    assert(vs@.skip(i as int) =~= Seq::<UnionVariant<R, TraitMethod<M, C>>>::empty());
    None
}

/// Decides the GraphQL union that `#[graphql_union]` declares on a trait,
/// emitting its diagnostics into `session`: that of a reserved name, those
/// of its methods, in order (the macro stops after them if there are any),
/// and those of the union as a whole. The context is the explicit one, or
/// the first one that a method takes.
pub fn expand_on_trait<S: Copy, T: Copy, R, M>(input: UnionTraitInput<S, T, R, M>, session: &mut Session<S>) -> (res: UnionExpansion<
    T,
    R,
    TraitMethod<M, T>,
>)
    requires
        old(session).state().depth > 0,
    ensures
        final(session).state().depth == old(session).state().depth,
        exists|outs: Seq<TraitVariantOutcome<S, R, M, T>>| #[trigger]
            trait_methods_ok(input.methods@, input.attr.external_resolvers@, outs) && {
                let e = final(session).state().errors;
                let k0 = old(session).state().errors.len() as int;
                let reserved = !input.attr.is_internal && starts_with(trait_union_name(input), "__"@);
                let k1 = k0 + if reserved { 1int } else { 0int };
                let ds = trait_diags(outs);
                let k2 = k1 + ds.len();
                let pre = trait_variants(outs);
                let vs = emerge_spec(pre, input.attr.external_resolvers@);
                &&& e.len() >= k2
                &&& e.take(k0) == old(session).state().errors
                &&& reserved ==> is_reserved_diag(e[k0], input.name_span)
                &&& e.subrange(k1, k2) == ds
                &&& if k2 > 0 {
                    e.len() == k2 && res is Aborted
                } else {
                    &&& e.len() == (if vs.len() == 0 { 1int } else { 0int }) + (if all_types_different(vs) { 0int } else { 1int })
                    &&& vs.len() == 0 ==> is_scoped_diag(e[0], Scope::UnionAttr, input.span, NO_VARIANTS@)
                    &&& !all_types_different(vs) ==> is_scoped_diag(e[e.len() - 1], Scope::UnionAttr, input.span, VARIANTS_NOT_DIFFERENT@)
                    &&& (res is Aborted <==> e.len() > 0)
                    &&& res matches UnionExpansion::Done(def) ==> {
                        &&& def.name@ == trait_union_name(input)
                        &&& def.description == input.attr.description
                        &&& def.context == match input.attr.context {
                            Some(c) => Some(c),
                            None => first_method_context(pre),
                        }
                        &&& def.scalar == input.attr.scalar
                        &&& def.variants@ == vs
                    }
                }
            },
{
    let ghost whole = input;
    let ghost e0 = session.state().errors;
    let UnionTraitInput { attr, ident, name_span, span, methods } = input;
    let ghost rs = attr.external_resolvers@;
    let name = match attr.name {
        Some(n) => n,
        None => unraw(ident.as_str()),
    };
    if !attr.is_internal && starts_with_double_underscore(&name) {
        session.emit(Scope::UnionAttr.no_double_underscore(name_span));
    }
    let ghost e1 = session.state().errors;
    assert(e1.take(e0.len() as int) =~= e0);
    let ghost all = methods@;
    let n = methods.len();
    let mut rest = reversed(methods);
    let mut variants: Vec<UnionVariant<R, TraitMethod<M, T>>> = Vec::new();
    let ghost mut outs: Seq<TraitVariantOutcome<S, R, M, T>> = Seq::empty();
    while rest.len() > 0
        invariant
            outs.len() + rest@.len() == n,
            n == all.len(),
            forall|j: int| 0 <= j < rest@.len() ==> #[trigger] rest@[j] == all[n - 1 - j],
            trait_methods_ok(all.take(outs.len() as int), rs, outs),
            rs == attr.external_resolvers@,
            session.state().depth == old(session).state().depth,
            old(session).state().depth > 0,
            session.state().errors == e1 + trait_diags(outs),
            variants@ == trait_variants(outs),
        decreases rest.len(),
    {
        let m = rest.pop().unwrap();
        let ghost k = outs.len() as int;
        assert(m == all[k]);
        let o = parse_trait_variant(m, &attr.external_resolvers);
        let ghost pre_outs = outs;
        proof {
            outs = outs.push(o);
            assert(outs.drop_last() =~= pre_outs);
            assert forall|i: int| 0 <= i < k + 1 implies trait_variant_ok(#[trigger] all.take(k + 1)[i], rs, outs[i]) by {
                if i < k {
                    assert(all.take(k + 1)[i] == all.take(k)[i]);
                }
            }
        }
        let TraitVariantOutcome { diags, variant } = o;
        let ghost before = session.state().errors;
        let ghost ds = diags@;
        let dn = diags.len();
        let mut drest = reversed(diags);
        let mut j: usize = 0;
        while drest.len() > 0
            invariant
                j + drest@.len() == ds.len(),
                ds.len() == dn,
                forall|q: int| 0 <= q < drest@.len() ==> #[trigger] drest@[q] == ds[ds.len() - 1 - q],
                session.state().depth == old(session).state().depth,
                old(session).state().depth > 0,
                session.state().errors == before + ds.take(j as int),
            decreases drest.len(),
        {
            let d = drest.pop().unwrap();
            assert(d == ds[j as int]);
            session.emit(d);
            assert(before + ds.take(j + 1) =~= (before + ds.take(j as int)).push(d));
            j += 1;
        }
        assert(ds.take(ds.len() as int) =~= ds);
        assert(e1 + trait_diags(outs) =~= before + ds);
        if let Some(v) = variant {
            variants.push(v);
        }
    }
    assert(all.take(n as int) =~= all);
    let ghost e2 = session.state().errors;
    assert(e2.take(e0.len() as int) =~= e0);
    assert(e2.subrange(e1.len() as int, e2.len() as int) =~= trait_diags(outs));
    if session.abort_if_dirty() == Control::Abort {
        return UnionExpansion::Aborted;
    }
    let context = match attr.context {
        Some(c) => Some(c),
        None => method_context(&variants),
    };
    let ghost pre = variants@;
    emerge_union_variants_from_attr(&mut variants, attr.external_resolvers);
    if variants.len() == 0 {
        session.emit(Scope::UnionAttr.custom(span, NO_VARIANTS));
    }
    if !all_variants_different(&variants) {
        session.emit(Scope::UnionAttr.custom(span, VARIANTS_NOT_DIFFERENT));
    }
    if session.abort_if_dirty() == Control::Abort {
        return UnionExpansion::Aborted;
    }
    UnionExpansion::Done(
        UnionDefinition { name, description: attr.description, context, scalar: attr.scalar, variants },
    )
}

} // verus!

//! `create`: a GraphQL object (or subscription) defined by an impl block
//! whose methods resolve its fields, checked method by method and then as
//! a whole.
use vstd::prelude::*;

use crate::arg::starts_with_double_underscore;
use crate::attr::reversed;
use crate::diagnostic::Diagnostic;
use crate::rename::{camel_case, camel_case_defined, to_camel_case};
use crate::text::{starts_with, unraw, unraw_spec};
use crate::type_definition::{
    collect_items, diag_if, fields_distinct, interface_types, interface_types_of, item_diags, item_fields,
    names_distinct, ArgAttributes, DefinitionArg, DefinitionField, Expansion, FieldAttributes, ItemOutcome,
    ObjectAttributes, ScopeDiag, TypeDefinition, UnsupportedAttribute, Verdict,
};

verus! {

/// Message of the error about a method that returns nothing.
pub const RETURN_REQUIRED: &'static str = "return value required";

/// A GraphQL argument of a method: the Rust argument that is neither the
/// receiver, the context nor the executor.
pub struct RegularArgItem<T, S> {
    pub ident: String,
    pub ident_span: S,
    pub ty: T,
}

/// A method of the impl block.
pub struct ImplMethodItem<T, E, S> {
    /// What it returns; `None` where it returns nothing.
    pub return_ty: Option<T>,
    /// Where its signature is.
    pub sig_span: S,
    pub is_async: bool,
    /// Its `#[graphql]` arguments, or the error refusing them.
    pub attrs: Result<FieldAttributes<E, S>, Diagnostic<S>>,
    /// Its GraphQL arguments in order, as far as its signature is read.
    pub arguments: Vec<RegularArgItem<T, S>>,
    /// The error that stopped reading its signature, if any.
    pub signature_error: Option<Diagnostic<S>>,
    pub ident: String,
    pub ident_span: S,
}

/// An impl block under the object macro, as read.
pub struct ImplBlockItem<T, E, S> {
    pub attrs: ObjectAttributes<T, S>,
    /// The identifier of the type it implements.
    pub type_ident: String,
    pub type_ident_span: S,
    /// Its description, from its doc comments.
    pub description: Option<String>,
    pub methods: Vec<ImplMethodItem<T, E, S>>,
}

/// The object macro on an impl block.
pub struct ImplObjectInput<T, E, S> {
    /// The impl block, or the error refusing it.
    pub block: Result<ImplBlockItem<T, E, S>, Diagnostic<S>>,
    /// Where the impl block is.
    pub body_span: S,
    /// Whether the macro runs inside the library itself.
    pub is_internal: bool,
    /// Whether errors were emitted before, in the same macro call.
    pub dirty: bool,
}

/// The first arguments given for the Rust argument `name`, if any.
pub open spec fn arg_attrs_for<E, S>(args: Seq<ArgAttributes<E, S>>, name: Seq<char>) -> Option<ArgAttributes<E, S>>
    decreases args.len(),
{
    if args.len() == 0 {
        None
    } else if args[0].arg@ == name {
        Some(args[0])
    } else {
        arg_attrs_for(args.skip(1), name)
    }
}

/// The GraphQL name of the argument `a`: its new name, or its identifier
/// in `camelCase`.
pub open spec fn arg_name<T, E, S>(fa: FieldAttributes<E, S>, a: RegularArgItem<T, S>) -> Seq<char> {
    let found = arg_attrs_for(fa.arguments@, unraw_spec(a.ident@));
    if found is Some && found->0.rename is Some {
        found->0.rename->0@
    } else {
        camel_case(unraw_spec(a.ident@))
    }
}

/// Where a reserved name of the argument `a` is reported: at its new name,
/// or at its identifier.
pub open spec fn arg_name_span<T, E, S>(fa: FieldAttributes<E, S>, a: RegularArgItem<T, S>) -> S {
    let found = arg_attrs_for(fa.arguments@, unraw_spec(a.ident@));
    if found is Some && found->0.rename is Some {
        found->0.rename_span
    } else {
        a.ident_span
    }
}

/// The diagnostics about the names of the arguments `args`, in order.
pub open spec fn args_diags<T, E, S>(fa: FieldAttributes<E, S>, args: Seq<RegularArgItem<T, S>>) -> Seq<ScopeDiag<S>>
    decreases args.len(),
{
    if args.len() == 0 {
        Seq::empty()
    } else {
        args_diags(fa, args.drop_last()) + diag_if(
            starts_with(arg_name(fa, args.last()), "__"@),
            ScopeDiag::NoDoubleUnderscore(arg_name_span(fa, args.last())),
        )
    }
}

/// Whether `d` is the GraphQL argument that `a` becomes.
pub open spec fn arg_def_ok<T, E, S>(fa: FieldAttributes<E, S>, a: RegularArgItem<T, S>, d: DefinitionArg<T, E>) -> bool {
    let found = arg_attrs_for(fa.arguments@, unraw_spec(a.ident@));
    &&& d.name@ == arg_name(fa, a)
    &&& d.ty == a.ty
    &&& d.description == (if found is Some { found->0.description } else { None })
    &&& d.default == (if found is Some { found->0.default } else { None })
}

/// The GraphQL name of the method `m`: the explicit one, or its identifier
/// in `camelCase`.
pub open spec fn method_name<T, E, S>(fa: FieldAttributes<E, S>, m: ImplMethodItem<T, E, S>) -> Seq<char> {
    match fa.name {
        Some(n) => n@,
        None => camel_case(unraw_spec(m.ident@)),
    }
}

/// Whether naming the method and its arguments, where that happens, is
/// defined.
pub open spec fn method_defined<T, E, S>(m: ImplMethodItem<T, E, S>) -> bool {
    m.return_ty is Some && m.attrs is Ok ==> {
        let fa = m.attrs->Ok_0;
        &&& forall|i: int| 0 <= i < m.arguments@.len() ==> camel_case_defined(unraw_spec((#[trigger] m.arguments@[i]).ident@))
        &&& m.signature_error is None && fa.name is None ==> camel_case_defined(unraw_spec(m.ident@))
    }
}

/// What the method `m` becomes: refused for returning nothing, for its
/// attribute, or where its signature cannot be read (after the names of the
/// arguments read so far are checked); otherwise kept, with reserved names
/// and `default` reported.
pub open spec fn method_ok<T, E, S>(m: ImplMethodItem<T, E, S>, o: ItemOutcome<T, E, S>) -> bool {
    if m.return_ty is None {
        o.diags@ == seq![ScopeDiag::Custom(m.sig_span, RETURN_REQUIRED)] && o.field is None
    } else {
        match m.attrs {
            Err(e) => o.diags@ == seq![ScopeDiag::Error(e)] && o.field is None,
            Ok(fa) => {
                let ad = args_diags(fa, m.arguments@);
                match m.signature_error {
                    Some(e) => o.diags@ == ad.push(ScopeDiag::Error(e)) && o.field is None,
                    None => {
                        let name = method_name(fa, m);
                        &&& o.diags@ == ad + diag_if(
                            starts_with(name, "__"@),
                            ScopeDiag::NoDoubleUnderscore(if fa.name is Some { fa.name_span } else { m.ident_span }),
                        ) + diag_if(
                            fa.default is Some,
                            ScopeDiag::UnsupportedAttributeWithin(fa.default_span, UnsupportedAttribute::Default),
                        )
                        &&& o.field matches Some(d) && d.name@ == name && d.ty == m.return_ty->0
                            && d.description == fa.description && d.deprecation == fa.deprecation
                            && d.is_async == m.is_async && d.default is None && d.args@.len() == m.arguments@.len()
                            && forall|i: int| 0 <= i < d.args@.len() ==> arg_def_ok(fa, m.arguments@[i], #[trigger] d.args@[i])
                    },
                }
            },
        }
    }
}

/// The index of the first arguments given for `name` among `args`.
fn find_arg_attrs<E, S>(args: &Vec<ArgAttributes<E, S>>, name: &String) -> (res: Option<usize>)
    ensures
        match arg_attrs_for(args@, name@) {
            Some(a) => res matches Some(i) && i < args@.len() && args@[i as int] == a,
            None => res is None,
        },
{
    let mut i: usize = 0;
    assert(args@.skip(0) =~= args@);
    while i < args.len()
        invariant
            i <= args@.len(),
            arg_attrs_for(args@, name@) == arg_attrs_for(args@.skip(i as int), name@),
        decreases args@.len() - i,
    {
        let ghost tail = args@.skip(i as int);
        proof {
            assert(tail[0] == args@[i as int]);
            assert(tail.skip(1) =~= args@.skip(i + 1));
        }
        if crate::text::text_is(args[i].arg.as_str(), name.as_str()) {
            return Some(i);
        }
        i += 1;
    }
    assert(args@.skip(i as int).len() == 0);
    None
}

/// The GraphQL argument that `a` becomes, with the diagnostic about its
/// name, if any.
fn parse_regular_arg<T: Copy, E: Copy, S: Copy>(fa: &FieldAttributes<E, S>, a: &RegularArgItem<T, S>) -> (res: (
    DefinitionArg<T, E>,
    Option<ScopeDiag<S>>,
))
    requires
        camel_case_defined(unraw_spec(a.ident@)),
    ensures
        arg_def_ok(*fa, *a, res.0),
        match res.1 {
            Some(d) => seq![d] == diag_if(starts_with(arg_name(*fa, *a), "__"@), ScopeDiag::NoDoubleUnderscore(arg_name_span(*fa, *a))),
            None => !starts_with(arg_name(*fa, *a), "__"@),
        },
{
    let arg = unraw(a.ident.as_str());
    let found = find_arg_attrs(&fa.arguments, &arg);
    let (name, span, description, default) = match found {
        Some(i) => {
            let aa = &fa.arguments[i];
            match &aa.rename {
                Some(r) => (r.clone(), aa.rename_span, aa.description.clone(), aa.default),
                None => (to_camel_case(arg.as_str()), a.ident_span, aa.description.clone(), aa.default),
            }
        },
        None => (to_camel_case(arg.as_str()), a.ident_span, None, None),
    };
    let diag = if starts_with_double_underscore(&name) {
        Some(ScopeDiag::NoDoubleUnderscore(span))
    } else {
        None
    };
    (DefinitionArg { name, ty: a.ty, description, default }, diag)
}

/// Decides what a method of the impl block becomes.
pub fn parse_impl_method<T: Copy, E: Copy, S: Copy>(m: ImplMethodItem<T, E, S>) -> (res: ItemOutcome<T, E, S>)
    requires
        method_defined(m),
    ensures
        method_ok(m, res),
{
    let mut diags: Vec<ScopeDiag<S>> = Vec::new();
    let ty = match m.return_ty {
        None => {
            diags.push(ScopeDiag::Custom(m.sig_span, RETURN_REQUIRED));
            assert(diags@ =~= seq![ScopeDiag::Custom(m.sig_span, RETURN_REQUIRED)]);
            return ItemOutcome { diags, field: None };
        },
        Some(t) => t,
    };
    let fa = match m.attrs {
        Err(e) => {
            diags.push(ScopeDiag::Error(e));
            assert(diags@ =~= seq![ScopeDiag::Error(e)]);
            return ItemOutcome { diags, field: None };
        },
        Ok(fa) => fa,
    };
    let ghost margs = m.arguments@;
    let mut args: Vec<DefinitionArg<T, E>> = Vec::new();
    let mut i: usize = 0;
    while i < m.arguments.len()
        invariant
            i <= margs.len(),
            margs == m.arguments@,
            forall|j: int| 0 <= j < margs.len() ==> camel_case_defined(unraw_spec((#[trigger] margs[j]).ident@)),
            diags@ == args_diags(fa, margs.take(i as int)),
            args@.len() == i,
            forall|j: int| 0 <= j < i ==> arg_def_ok(fa, margs[j], #[trigger] args@[j]),
        decreases margs.len() - i,
    {
        let (d, diag) = parse_regular_arg(&fa, &m.arguments[i]);
        proof {
            assert(margs.take(i + 1).drop_last() =~= margs.take(i as int));
            assert(margs.take(i + 1).last() == margs[i as int]);
        }
        match diag {
            Some(x) => diags.push(x),
            None => {},
        }
        assert(diags@ =~= args_diags(fa, margs.take(i + 1)));
        args.push(d);
        i += 1;
    }
    assert(margs.take(margs.len() as int) =~= margs);
    if let Some(e) = m.signature_error {
        diags.push(ScopeDiag::Error(e));
        return ItemOutcome { diags, field: None };
    }
    let ghost ad = diags@;
    let name = match &fa.name {
        Some(n) => n.clone(),
        None => {
            let u = unraw(m.ident.as_str());
            to_camel_case(u.as_str())
        },
    };
    if starts_with_double_underscore(&name) {
        let sp = if fa.name.is_some() {
            fa.name_span
        } else {
            m.ident_span
        };
        diags.push(ScopeDiag::NoDoubleUnderscore(sp));
    }
    if fa.default.is_some() {
        diags.push(ScopeDiag::UnsupportedAttributeWithin(fa.default_span, UnsupportedAttribute::Default));
    }
    assert(diags@ =~= ad + diag_if(
        starts_with(name@, "__"@),
        ScopeDiag::NoDoubleUnderscore(if fa.name is Some { fa.name_span } else { m.ident_span }),
    ) + diag_if(fa.default is Some, ScopeDiag::UnsupportedAttributeWithin(fa.default_span, UnsupportedAttribute::Default)));
    ItemOutcome {
        diags,
        field: Some(
            DefinitionField {
                name,
                ty,
                args,
                description: fa.description,
                deprecation: fa.deprecation,
                is_async: m.is_async,
                default: None,
            },
        ),
    }
}

/// Whether `outs` are what the methods `ms` become, in order.
pub open spec fn methods_ok<T, E, S>(ms: Seq<ImplMethodItem<T, E, S>>, outs: Seq<ItemOutcome<T, E, S>>) -> bool {
    outs.len() == ms.len() && forall|i: int| 0 <= i < ms.len() ==> method_ok(#[trigger] ms[i], outs[i])
}

/// The GraphQL name of the object: the explicit one, or the identifier of
/// its type.
pub open spec fn impl_object_name<T, E, S>(b: ImplBlockItem<T, E, S>) -> Seq<char> {
    match b.attrs.name {
        Some(n) => n@,
        None => unraw_spec(b.type_ident@),
    }
}

/// The checks of the object as a whole, once its methods are decided: no
/// shared name, no reserved name, and at least one field.
pub open spec fn impl_object_checks<T, E, S>(
    input: ImplObjectInput<T, E, S>,
    b: ImplBlockItem<T, E, S>,
    fields: Seq<DefinitionField<T, E>>,
) -> Seq<ScopeDiag<S>> {
    diag_if(!names_distinct(fields), ScopeDiag::Duplicate) + diag_if(
        starts_with(impl_object_name(b), "__"@) && !input.is_internal,
        ScopeDiag::NoDoubleUnderscore(if b.attrs.name is Some { b.attrs.name_span } else { b.type_ident_span }),
    ) + diag_if(fields.len() == 0, ScopeDiag::NotEmpty(input.body_span))
}

/// Decides the GraphQL object that an impl block defines: refused for the
/// impl block itself; then each method is decided, the macro aborts on any
/// error so far, the object is checked as a whole, and it aborts again on
/// any error.
pub fn create<T: Copy, E: Copy, S: Copy>(input: ImplObjectInput<T, E, S>) -> (res: Expansion<T, E, S>)
    requires
        input.block matches Ok(b) ==> forall|i: int| 0 <= i < b.methods@.len() ==> method_defined(#[trigger] b.methods@[i]),
    ensures
        input.block is Err ==> res.diags@.len() == 0 && res.verdict == Verdict::<T, E, S>::Error(input.block->Err_0),
        input.block is Ok ==> exists|outs: Seq<ItemOutcome<T, E, S>>| #[trigger]
            methods_ok(input.block->Ok_0.methods@, outs) && {
                let b = input.block->Ok_0;
                let d1 = item_diags(outs);
                let fields = item_fields(outs);
                let d2 = impl_object_checks(input, b, fields);
                if input.dirty || d1.len() > 0 {
                    res.diags@ == d1 && res.verdict is Aborted
                } else {
                    &&& res.diags@ == d2
                    &&& d2.len() > 0 ==> res.verdict is Aborted
                    &&& d2.len() == 0 ==> (res.verdict matches Verdict::Done(def) && def.name@ == impl_object_name(b)
                        && def.scalar == b.attrs.scalar && def.context == b.attrs.context && def.description
                        == b.description && def.fields@ == fields && (if b.attrs.interfaces@.len() > 0 {
                        def.interfaces matches Some(is) && is@ == interface_types(b.attrs.interfaces@)
                    } else {
                        def.interfaces is None
                    }) && def.no_async == b.attrs.no_async)
                }
            },
{
    let ghost whole = input;
    let ImplObjectInput { block, body_span, is_internal, dirty } = input;
    let b = match block {
        Err(e) => return Expansion { diags: Vec::new(), verdict: Verdict::Error(e) },
        Ok(b) => b,
    };
    let ghost bv = b;
    let ImplBlockItem { attrs, type_ident, type_ident_span, description, methods } = b;
    let ghost all = methods@;
    let n = methods.len();
    let mut rest = reversed(methods);
    let mut outs: Vec<ItemOutcome<T, E, S>> = Vec::new();
    while rest.len() > 0
        invariant
            outs@.len() + rest@.len() == n,
            n == all.len(),
            forall|j: int| 0 <= j < rest@.len() ==> #[trigger] rest@[j] == all[n - 1 - j],
            forall|i: int| 0 <= i < all.len() ==> method_defined(#[trigger] all[i]),
            forall|i: int| 0 <= i < outs@.len() ==> method_ok(#[trigger] all[i], outs@[i]),
        decreases rest.len(),
    {
        let m = rest.pop().unwrap();
        let ghost k = outs@.len() as int;
        assert(m == all[k]);
        let o = parse_impl_method(m);
        outs.push(o);
        assert(outs@[k] == o);
    }
    assert(methods_ok(all, outs@));
    let (diags, fields) = collect_items(outs);
    if dirty || diags.len() > 0 {
        return Expansion { diags, verdict: Verdict::Aborted };
    }
    let name = match &attrs.name {
        Some(n) => n.clone(),
        None => unraw(type_ident.as_str()),
    };
    let ghost fields_view = fields@;
    let mut checks: Vec<ScopeDiag<S>> = Vec::new();
    if !fields_distinct(&fields) {
        checks.push(ScopeDiag::Duplicate);
    }
    if starts_with_double_underscore(&name) && !is_internal {
        let sp = if attrs.name.is_some() {
            attrs.name_span
        } else {
            type_ident_span
        };
        checks.push(ScopeDiag::NoDoubleUnderscore(sp));
    }
    if fields.len() == 0 {
        checks.push(ScopeDiag::NotEmpty(body_span));
    }
    assert(checks@ =~= impl_object_checks(whole, bv, fields_view));
    if checks.len() > 0 {
        return Expansion { diags: checks, verdict: Verdict::Aborted };
    }
    let interfaces = if attrs.interfaces.len() > 0 {
        Some(interface_types_of(&attrs.interfaces))
    } else {
        None
    };
    Expansion {
        diags: checks,
        verdict: Verdict::Done(
            TypeDefinition {
                name,
                context: attrs.context,
                scalar: attrs.scalar,
                description,
                fields,
                interfaces,
                no_async: attrs.no_async,
            },
        ),
    }
}

} // verus!

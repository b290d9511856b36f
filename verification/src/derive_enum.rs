//! `impl_enum`: a GraphQL enum derived from a Rust enum of unit variants,
//! checked field by field and then as a whole.
use vstd::prelude::*;

use crate::arg::starts_with_double_underscore;
use crate::attr::reversed;
use crate::diagnostic::Diagnostic;
use crate::rename::Policy;
use crate::text::{starts_with, unraw, unraw_spec};
use crate::type_definition::{
    collect_items, diag_if, graphql_type_name, item_name, fields_distinct, interface_diags, interfaces_unsupported, item_diags, item_fields,
    names_distinct, rename_defined, DefinitionField, Expansion, FieldAttributes, ItemOutcome, ObjectAttributes,
    ScopeDiag, TypeDefinition, UnsupportedAttribute, Verdict,
};

verus! {

/// Message of the error about an enum with generics or lifetimes.
pub const NO_GENERICS: &'static str = "does not support generics or lifetimes";

/// Message of the error about deriving on something else than an enum.
pub const ENUMS_ONLY: &'static str = "can only be applied to enums";

/// Message of the error about a variant that holds fields.
pub const UNIT_VARIANTS_ONLY: &'static str = "all fields of the enum must be unnamed, e.g., None";

/// A variant of the enum.
pub struct EnumVariantItem<T, E, S> {
    /// Its `#[graphql]` arguments, or the error refusing them.
    pub attrs: Result<FieldAttributes<E, S>, Diagnostic<S>>,
    pub ident: String,
    pub ident_span: S,
    /// Whether it holds no field.
    pub is_unit: bool,
    /// Where its fields are.
    pub fields_span: S,
    /// The type that stands for the variant.
    pub ty: T,
}

/// A Rust item under the enum derive.
pub struct EnumDeriveInput<T, E, S> {
    /// Whether it has generic parameters or lifetimes.
    pub has_generics: bool,
    /// Where the whole item is.
    pub span: S,
    pub ident: String,
    pub ident_span: S,
    /// Its variants; `None` for an item that is no enum.
    pub variants: Option<Vec<EnumVariantItem<T, E, S>>>,
    /// Its `#[graphql]` arguments, or the error refusing them.
    pub attrs: Result<ObjectAttributes<T, S>, Diagnostic<S>>,
    /// Whether errors were emitted before, in the same macro call.
    pub dirty: bool,
}

/// The renaming of the variants: the one given, or `SCREAMING_SNAKE_CASE`.
pub open spec fn variant_policy<T, S>(oa: ObjectAttributes<T, S>) -> Policy {
    match oa.rename {
        Some(p) => p,
        None => Policy::ScreamingSnakeCase,
    }
}

/// What the variant `v` becomes: refused for its attribute, for holding
/// fields, or for `skip`; otherwise kept, with a reserved name and
/// `default` reported.
pub open spec fn variant_ok<T, E, S>(v: EnumVariantItem<T, E, S>, policy: Policy, o: ItemOutcome<T, E, S>) -> bool {
    match v.attrs {
        Err(e) => o.diags@ == seq![ScopeDiag::Error(e)] && o.field is None,
        Ok(fa) => if !v.is_unit {
            o.diags@ == seq![ScopeDiag::Custom(v.fields_span, UNIT_VARIANTS_ONLY)] && o.field is None
        } else if fa.skip is Some {
            o.diags@ == seq![ScopeDiag::UnsupportedAttribute(fa.skip->0, UnsupportedAttribute::Skip)] && o.field is None
        } else {
            let name = item_name(fa, v.ident@, policy);
            &&& o.diags@ == diag_if(
                starts_with(name, "__"@),
                ScopeDiag::NoDoubleUnderscore(if fa.name is Some { fa.name_span } else { v.ident_span }),
            ) + diag_if(
                fa.default is Some,
                ScopeDiag::UnsupportedAttributeWithin(fa.default_span, UnsupportedAttribute::Default),
            )
            &&& o.field matches Some(f) && f.name@ == name && f.ty == v.ty && f.args@.len() == 0
                && f.description == fa.description && f.deprecation == fa.deprecation && !f.is_async
                && f.default is None
        },
    }
}

/// Decides what a variant becomes.
pub fn parse_enum_variant<T, E, S: Copy>(v: EnumVariantItem<T, E, S>, policy: Policy) -> (res: ItemOutcome<T, E, S>)
    requires
        rename_defined(v.attrs, policy, unraw_spec(v.ident@)),
    ensures
        variant_ok(v, policy, res),
{
    let fa = match v.attrs {
        Err(e) => {
            let mut diags = Vec::new();
            diags.push(ScopeDiag::Error(e));
            assert(diags@ =~= seq![ScopeDiag::Error(e)]);
            return ItemOutcome { diags, field: None };
        },
        Ok(fa) => fa,
    };
    let name = match &fa.name {
        Some(n) => n.clone(),
        None => {
            let u = unraw(v.ident.as_str());
            policy.apply(u.as_str())
        },
    };
    let mut diags: Vec<ScopeDiag<S>> = Vec::new();
    if !v.is_unit {
        diags.push(ScopeDiag::Custom(v.fields_span, UNIT_VARIANTS_ONLY));
        assert(diags@ =~= seq![ScopeDiag::Custom(v.fields_span, UNIT_VARIANTS_ONLY)]);
        return ItemOutcome { diags, field: None };
    }
    if let Some(sp) = fa.skip {
        diags.push(ScopeDiag::UnsupportedAttribute(sp, UnsupportedAttribute::Skip));
        assert(diags@ =~= seq![ScopeDiag::UnsupportedAttribute(sp, UnsupportedAttribute::Skip)]);
        return ItemOutcome { diags, field: None };
    }
    if starts_with_double_underscore(&name) {
        let sp = if fa.name.is_some() {
            fa.name_span
        } else {
            v.ident_span
        };
        diags.push(ScopeDiag::NoDoubleUnderscore(sp));
    }
    if fa.default.is_some() {
        diags.push(ScopeDiag::UnsupportedAttributeWithin(fa.default_span, UnsupportedAttribute::Default));
    }
    assert(diags@ =~= diag_if(
        starts_with(name@, "__"@),
        ScopeDiag::NoDoubleUnderscore(if fa.name is Some { fa.name_span } else { v.ident_span }),
    ) + diag_if(fa.default is Some, ScopeDiag::UnsupportedAttributeWithin(fa.default_span, UnsupportedAttribute::Default)));
    ItemOutcome {
        diags,
        field: Some(
            DefinitionField {
                name,
                ty: v.ty,
                args: Vec::new(),
                description: fa.description,
                deprecation: fa.deprecation,
                is_async: false,
                default: None,
            },
        ),
    }
}

/// Whether `outs` are what the variants `vs` become, in order.
pub open spec fn variants_ok<T, E, S>(vs: Seq<EnumVariantItem<T, E, S>>, policy: Policy, outs: Seq<ItemOutcome<T, E, S>>) -> bool {
    outs.len() == vs.len() && forall|i: int| 0 <= i < vs.len() ==> variant_ok(#[trigger] vs[i], policy, outs[i])
}

/// The checks of the enum as a whole, once its variants are decided: at
/// least one field, no shared name, no interface, no scalar, and no
/// reserved name.
pub open spec fn enum_checks<T, E, S>(
    input: EnumDeriveInput<T, E, S>,
    oa: ObjectAttributes<T, S>,
    fields: Seq<DefinitionField<T, E>>,
) -> Seq<ScopeDiag<S>> {
    diag_if(fields.len() == 0, ScopeDiag::NotEmpty(input.span)) + diag_if(!names_distinct(fields), ScopeDiag::Duplicate)
        + interface_diags(oa.interfaces@) + diag_if(
        oa.scalar is Some,
        ScopeDiag::UnsupportedAttribute(oa.scalar_span, UnsupportedAttribute::Scalar),
    ) + diag_if(
        !oa.is_internal && starts_with(graphql_type_name(oa, input.ident@), "__"@),
        ScopeDiag::NoDoubleUnderscore(if oa.name is Some { oa.name_span } else { input.ident_span }),
    )
}

/// Whether deciding on each variant is defined.
pub open spec fn enum_input_defined<T, E, S>(input: EnumDeriveInput<T, E, S>) -> bool {
    input.attrs matches Ok(oa) && input.variants matches Some(vs) ==> forall|i: int|
        0 <= i < vs@.len() ==> rename_defined((#[trigger] vs@[i]).attrs, variant_policy(oa), unraw_spec(vs@[i].ident@))
}

/// Decides the GraphQL enum that `input` derives: refused for generics,
/// then for not being an enum, then for its attribute; then each variant
/// is decided, the macro aborts on any error so far, the enum is checked
/// as a whole, and it aborts again on any error.
pub fn impl_enum<T, E, S: Copy>(input: EnumDeriveInput<T, E, S>) -> (res: Expansion<T, E, S>)
    requires
        enum_input_defined(input),
    ensures
        input.has_generics ==> res.diags@.len() == 0 && res.verdict == Verdict::<T, E, S>::Failed(input.span, NO_GENERICS),
        !input.has_generics && input.variants is None ==> res.diags@.len() == 0 && res.verdict
            == Verdict::<T, E, S>::Failed(input.span, ENUMS_ONLY),
        !input.has_generics && input.variants is Some && input.attrs is Err ==> res.diags@.len() == 0 && res.verdict
            == Verdict::<T, E, S>::Error(input.attrs->Err_0),
        !input.has_generics && input.variants is Some && input.attrs is Ok ==> exists|outs: Seq<ItemOutcome<T, E, S>>| #[trigger]
            variants_ok(input.variants->0@, variant_policy(input.attrs->Ok_0), outs) && {
                let oa = input.attrs->Ok_0;
                let d1 = item_diags(outs);
                let fields = item_fields(outs);
                let d2 = enum_checks(input, oa, fields);
                if input.dirty || d1.len() > 0 {
                    res.diags@ == d1 && res.verdict is Aborted
                } else {
                    &&& res.diags@ == d2
                    &&& d2.len() > 0 ==> res.verdict is Aborted
                    &&& d2.len() == 0 ==> (res.verdict matches Verdict::Done(def) && def.name@ == graphql_type_name(oa, input.ident@)
                        && def.context == oa.context && def.scalar is None && def.description == oa.description
                        && def.fields@ == fields && (def.interfaces matches Some(is) && is@.len() == 0) && def.no_async == oa.no_async)
                }
            },
{
    let ghost whole = input;
    let EnumDeriveInput { has_generics, span, ident, ident_span, variants, attrs, dirty } = input;
    if has_generics {
        return Expansion { diags: Vec::new(), verdict: Verdict::Failed(span, NO_GENERICS) };
    }
    let variants = match variants {
        None => return Expansion { diags: Vec::new(), verdict: Verdict::Failed(span, ENUMS_ONLY) },
        Some(vs) => vs,
    };
    let oa = match attrs {
        Err(e) => return Expansion { diags: Vec::new(), verdict: Verdict::Error(e) },
        Ok(oa) => oa,
    };
    let policy = match oa.rename {
        Some(p) => p,
        None => Policy::ScreamingSnakeCase,
    };
    let ghost all = variants@;
    let n = variants.len();
    let mut rest = reversed(variants);
    let mut outs: Vec<ItemOutcome<T, E, S>> = Vec::new();
    while rest.len() > 0
        invariant
            outs@.len() + rest@.len() == n,
            n == all.len(),
            forall|j: int| 0 <= j < rest@.len() ==> #[trigger] rest@[j] == all[n - 1 - j],
            forall|i: int| 0 <= i < all.len() ==> rename_defined((#[trigger] all[i]).attrs, policy, unraw_spec(all[i].ident@)),
            forall|i: int| 0 <= i < outs@.len() ==> variant_ok(#[trigger] all[i], policy, outs@[i]),
        decreases rest.len(),
    {
        let v = rest.pop().unwrap();
        let ghost k = outs@.len() as int;
        assert(v == all[k]);
        let o = parse_enum_variant(v, policy);
        outs.push(o);
        assert(outs@[k] == o);
    }
    let ghost outs_view = outs@;
    assert(variants_ok(all, policy, outs_view));
    let (diags, fields) = collect_items(outs);
    if dirty || diags.len() > 0 {
        return Expansion { diags, verdict: Verdict::Aborted };
    }
    let name = match &oa.name {
        Some(n) => n.clone(),
        None => unraw(ident.as_str()),
    };
    let ghost fields_view = fields@;
    let mut checks: Vec<ScopeDiag<S>> = Vec::new();
    if fields.len() == 0 {
        checks.push(ScopeDiag::NotEmpty(span));
    }
    if !fields_distinct(&fields) {
        checks.push(ScopeDiag::Duplicate);
    }
    let mut unsupported = interfaces_unsupported(&oa.interfaces);
    checks.append(&mut unsupported);
    if oa.scalar.is_some() {
        checks.push(ScopeDiag::UnsupportedAttribute(oa.scalar_span, UnsupportedAttribute::Scalar));
    }
    if !oa.is_internal && starts_with_double_underscore(&name) {
        let sp = if oa.name.is_some() {
            oa.name_span
        } else {
            ident_span
        };
        checks.push(ScopeDiag::NoDoubleUnderscore(sp));
    }
    assert(checks@ =~= enum_checks(whole, oa, fields_view));
    if checks.len() > 0 {
        return Expansion { diags: checks, verdict: Verdict::Aborted };
    }
    let ObjectAttributes { name: _, name_span: _, description, context, scalar: _, scalar_span: _, interfaces: _, rename: _, is_internal: _, no_async } = oa;
    Expansion {
        diags: checks,
        verdict: Verdict::Done(
            TypeDefinition { name, context, scalar: None, description, fields, interfaces: Some(Vec::new()), no_async },
        ),
    }
}

} // verus!

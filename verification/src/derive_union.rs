//! `expand` of the union derive on an enum: a GraphQL union whose variants
//! each hold one value of a GraphQL object type, checked variant by variant
//! and then as a whole. Types are known by a number each: two variants of
//! the same type have the same number.
use vstd::prelude::*;

use crate::arg::starts_with_double_underscore;
use crate::attr::reversed;
use crate::diagnostic::Diagnostic;
use crate::rename::{camel_case, camel_case_defined, to_camel_case};
use crate::text::{starts_with, unraw, unraw_spec};
use crate::type_definition::{
    collect_items, diag_if, interface_diags, interfaces_unsupported, item_diags, item_fields, DefinitionField, Expansion,
    FieldAttributes, ItemOutcome, ObjectAttributes, ScopeDiag, TypeDefinition, UnsupportedAttribute, Verdict,
};

verus! {

/// Message of the error about deriving a union on something else than an
/// enum or a struct.
pub const ENUMS_AND_STRUCTS_ONLY: &'static str = "can only be applied to enums and structs";

/// Message of the diagnostic about a variant holding several values.
pub const SINGLE_ELEMENT: &'static str = "all members must be unnamed with a single element e.g. Some(T)";

/// Message of the diagnostic about a variant that holds no unnamed value.
pub const UNNAMED_ONLY: &'static str = "only unnamed fields with a single element are allowed, e.g., Some(T)";

/// Message of the diagnostic about two variants of the same type.
pub const SAME_TYPE: &'static str = "each variant must have a different type";

/// What a variant of the enum holds.
pub enum VariantFields<S> {
    /// Unnamed values: how many, the type of the first, and where they are.
    Unnamed { count: usize, first_ty: u64, span: S },
    /// Named values, or none.
    Other,
}

/// A variant of the enum.
pub struct UnionVariantItem<E, S> {
    /// Its `#[graphql]` arguments, or the error refusing them.
    pub attrs: Result<FieldAttributes<E, S>, Diagnostic<S>>,
    pub ident: String,
    pub ident_span: S,
    pub fields: VariantFields<S>,
}

/// What the union derive is applied to.
pub enum UnionShape<E, S> {
    /// An enum, with its variants in order.
    Enum(Vec<UnionVariantItem<E, S>>),
    /// A struct, which the derive does not handle yet.
    Struct,
    /// Anything else.
    Other,
}

/// A Rust item under the union derive.
pub struct UnionDeriveInput<E, S> {
    /// Where the whole item is.
    pub span: S,
    pub ident: String,
    pub ident_span: S,
    pub data: UnionShape<E, S>,
    /// Its `#[graphql]` arguments, or the error refusing them.
    pub attrs: Result<ObjectAttributes<u64, S>, Diagnostic<S>>,
    /// Whether the macro runs outside the library itself.
    pub is_public: bool,
    /// Whether errors were emitted before, in the same macro call.
    pub dirty: bool,
}

/// The GraphQL name of a variant: the explicit one, or its identifier in
/// `camelCase`.
pub open spec fn variant_name<E, S>(fa: FieldAttributes<E, S>, ident: Seq<char>) -> Seq<char> {
    match fa.name {
        Some(n) => n@,
        None => camel_case(unraw_spec(ident)),
    }
}

/// Whether deciding on the variant `v` is defined: naming it, where that
/// happens, and taking the first of its unnamed values.
pub open spec fn union_variant_defined<E, S>(v: UnionVariantItem<E, S>) -> bool {
    v.attrs is Ok && v.attrs->Ok_0.skip is None ==> {
        &&& v.attrs->Ok_0.name is None ==> camel_case_defined(unraw_spec(v.ident@))
        &&& (v.fields matches VariantFields::Unnamed { count, .. } ==> count > 0)
    }
}

/// What the variant `v` becomes: refused for its attribute, for `skip`, or
/// for not holding unnamed values; otherwise kept, with several values, a
/// description, a default and a reserved name reported.
pub open spec fn union_variant_ok<E, S>(v: UnionVariantItem<E, S>, o: ItemOutcome<u64, E, S>) -> bool {
    match v.attrs {
        Err(e) => o.diags@ == seq![ScopeDiag::Error(e)] && o.field is None,
        Ok(fa) => if fa.skip is Some {
            o.diags@ == seq![ScopeDiag::UnsupportedAttributeWithin(fa.skip->0, UnsupportedAttribute::Skip)] && o.field is None
        } else {
            match v.fields {
                VariantFields::Other => o.diags@ == seq![ScopeDiag::Custom(v.ident_span, UNNAMED_ONLY)] && o.field is None,
                VariantFields::Unnamed { count, first_ty, span } => {
                    let name = variant_name(fa, v.ident@);
                    &&& o.diags@ == diag_if(count > 1, ScopeDiag::Custom(span, SINGLE_ELEMENT)) + diag_if(
                        fa.description is Some,
                        ScopeDiag::UnsupportedAttributeWithin(fa.description_span, UnsupportedAttribute::Description),
                    ) + diag_if(
                        fa.default is Some,
                        ScopeDiag::UnsupportedAttributeWithin(fa.default_span, UnsupportedAttribute::Default),
                    ) + diag_if(
                        starts_with(name, "__"@),
                        ScopeDiag::NoDoubleUnderscore(if fa.name is Some { fa.name_span } else { v.ident_span }),
                    )
                    &&& o.field matches Some(d) && d.name@ == name && d.ty == first_ty && d.args@.len() == 0
                        && d.description is None && d.deprecation == fa.deprecation && !d.is_async && d.default is None
                },
            }
        },
    }
}

/// Decides what a variant becomes.
pub fn parse_union_variant<E, S: Copy>(v: UnionVariantItem<E, S>) -> (res: ItemOutcome<u64, E, S>)
    requires
        union_variant_defined(v),
    ensures
        union_variant_ok(v, res),
{
    let mut diags: Vec<ScopeDiag<S>> = Vec::new();
    let fa = match v.attrs {
        Err(e) => {
            diags.push(ScopeDiag::Error(e));
            assert(diags@ =~= seq![ScopeDiag::Error(e)]);
            return ItemOutcome { diags, field: None };
        },
        Ok(fa) => fa,
    };
    if let Some(sp) = fa.skip {
        diags.push(ScopeDiag::UnsupportedAttributeWithin(sp, UnsupportedAttribute::Skip));
        assert(diags@ =~= seq![ScopeDiag::UnsupportedAttributeWithin(sp, UnsupportedAttribute::Skip)]);
        return ItemOutcome { diags, field: None };
    }
    let name = match &fa.name {
        Some(n) => n.clone(),
        None => {
            let u = unraw(v.ident.as_str());
            to_camel_case(u.as_str())
        },
    };
    let (count, ty, span) = match v.fields {
        VariantFields::Other => {
            diags.push(ScopeDiag::Custom(v.ident_span, UNNAMED_ONLY));
            assert(diags@ =~= seq![ScopeDiag::Custom(v.ident_span, UNNAMED_ONLY)]);
            return ItemOutcome { diags, field: None };
        },
        VariantFields::Unnamed { count, first_ty, span } => (count, first_ty, span),
    };
    if count > 1 {
        diags.push(ScopeDiag::Custom(span, SINGLE_ELEMENT));
    }
    if fa.description.is_some() {
        diags.push(ScopeDiag::UnsupportedAttributeWithin(fa.description_span, UnsupportedAttribute::Description));
    }
    if fa.default.is_some() {
        diags.push(ScopeDiag::UnsupportedAttributeWithin(fa.default_span, UnsupportedAttribute::Default));
    }
    if starts_with_double_underscore(&name) {
        let sp = if fa.name.is_some() {
            fa.name_span
        } else {
            v.ident_span
        };
        diags.push(ScopeDiag::NoDoubleUnderscore(sp));
    }
    assert(diags@ =~= diag_if(count > 1, ScopeDiag::Custom(span, SINGLE_ELEMENT)) + diag_if(
        fa.description is Some,
        ScopeDiag::UnsupportedAttributeWithin(fa.description_span, UnsupportedAttribute::Description),
    ) + diag_if(fa.default is Some, ScopeDiag::UnsupportedAttributeWithin(fa.default_span, UnsupportedAttribute::Default))
        + diag_if(
        starts_with(name@, "__"@),
        ScopeDiag::NoDoubleUnderscore(if fa.name is Some { fa.name_span } else { v.ident_span }),
    ));
    ItemOutcome {
        diags,
        field: Some(
            DefinitionField {
                name,
                ty,
                args: Vec::new(),
                description: None,
                deprecation: fa.deprecation,
                is_async: false,
                default: None,
            },
        ),
    }
}

/// Whether `outs` are what the variants `vs` become, in order.
pub open spec fn union_variants_ok<E, S>(vs: Seq<UnionVariantItem<E, S>>, outs: Seq<ItemOutcome<u64, E, S>>) -> bool {
    outs.len() == vs.len() && forall|i: int| 0 <= i < vs.len() ==> union_variant_ok(#[trigger] vs[i], outs[i])
}

/// Whether no two neighbouring fields have the same type.
pub open spec fn neighbours_differ<E>(fields: Seq<DefinitionField<u64, E>>) -> bool {
    forall|i: int| 0 <= i < fields.len() - 1 ==> #[trigger] fields[i].ty != fields[i + 1].ty
}

/// The GraphQL name of the union: the explicit one, or its identifier.
pub open spec fn union_name<S>(oa: ObjectAttributes<u64, S>, ident: Seq<char>) -> Seq<char> {
    match oa.name {
        Some(n) => n@,
        None => unraw_spec(ident),
    }
}

/// The checks of the union as a whole, once its variants are decided: no
/// interface, at least one variant, no reserved name outside the library,
/// and no two neighbouring variants of the same type.
pub open spec fn union_checks<E, S>(
    input: UnionDeriveInput<E, S>,
    oa: ObjectAttributes<u64, S>,
    fields: Seq<DefinitionField<u64, E>>,
) -> Seq<ScopeDiag<S>> {
    interface_diags(oa.interfaces@) + diag_if(fields.len() == 0, ScopeDiag::NotEmpty(input.span)) + diag_if(
        starts_with(union_name(oa, input.ident@), "__"@) && input.is_public,
        ScopeDiag::NoDoubleUnderscore(if oa.name is Some { oa.name_span } else { input.ident_span }),
    ) + diag_if(!neighbours_differ(fields), ScopeDiag::Custom(input.ident_span, SAME_TYPE))
}

/// Whether no two neighbouring `fields` have the same type.
fn neighbours_differ_of<E>(fields: &Vec<DefinitionField<u64, E>>) -> (res: bool)
    ensures
        res == neighbours_differ(fields@),
{
    let mut i: usize = 1;
    while i < fields.len()
        invariant
            1 <= i,
            forall|j: int| 0 <= j < i - 1 && j < fields@.len() - 1 ==> #[trigger] fields@[j].ty != fields@[j + 1].ty,
        decreases fields@.len() - i,
    {
        if fields[i - 1].ty == fields[i].ty {
            return false;
        }
        i += 1;
    }
    true
}

/// Decides the GraphQL union that an enum derives: refused for anything
/// but an enum, then for its attribute; then each variant is decided, the
/// macro aborts on any error so far, the union is checked as a whole, and
/// it aborts again on any error.
pub fn expand<E, S: Copy>(input: UnionDeriveInput<E, S>) -> (res: Expansion<u64, E, S>)
    requires
        !(input.data is Struct),
        input.data matches UnionShape::Enum(vs) ==> forall|i: int| 0 <= i < vs@.len() ==> union_variant_defined(#[trigger] vs@[i]),
    ensures
        input.data is Other ==> res.diags@.len() == 0 && res.verdict == Verdict::<u64, E, S>::Failed(
            input.span,
            ENUMS_AND_STRUCTS_ONLY,
        ),
        input.data is Enum && input.attrs is Err ==> res.diags@.len() == 0 && res.verdict == Verdict::<u64, E, S>::Error(
            input.attrs->Err_0,
        ),
        input.data is Enum && input.attrs is Ok ==> exists|outs: Seq<ItemOutcome<u64, E, S>>| #[trigger]
            union_variants_ok(input.data->Enum_0@, outs) && {
                let oa = input.attrs->Ok_0;
                let d1 = item_diags(outs);
                let fields = item_fields(outs);
                let d2 = union_checks(input, oa, fields);
                if input.dirty || d1.len() > 0 {
                    res.diags@ == d1 && res.verdict is Aborted
                } else {
                    &&& res.diags@ == d2
                    &&& d2.len() > 0 ==> res.verdict is Aborted
                    &&& d2.len() == 0 ==> (res.verdict matches Verdict::Done(def) && def.name@ == union_name(oa, input.ident@)
                        && def.context == oa.context && def.scalar == oa.scalar && def.description == oa.description
                        && def.fields@ == fields && def.interfaces is None && def.no_async == oa.no_async)
                }
            },
{
    let ghost whole = input;
    let UnionDeriveInput { span, ident, ident_span, data, attrs, is_public, dirty } = input;
    let vs = match data {
        UnionShape::Enum(vs) => vs,
        _ => return Expansion { diags: Vec::new(), verdict: Verdict::Failed(span, ENUMS_AND_STRUCTS_ONLY) },
    };
    let oa = match attrs {
        Err(e) => return Expansion { diags: Vec::new(), verdict: Verdict::Error(e) },
        Ok(oa) => oa,
    };
    let name = match &oa.name {
        Some(n) => n.clone(),
        None => unraw(ident.as_str()),
    };
    let ghost all = vs@;
    let n = vs.len();
    let mut rest = reversed(vs);
    let mut outs: Vec<ItemOutcome<u64, E, S>> = Vec::new();
    while rest.len() > 0
        invariant
            outs@.len() + rest@.len() == n,
            n == all.len(),
            forall|j: int| 0 <= j < rest@.len() ==> #[trigger] rest@[j] == all[n - 1 - j],
            forall|i: int| 0 <= i < all.len() ==> union_variant_defined(#[trigger] all[i]),
            forall|i: int| 0 <= i < outs@.len() ==> union_variant_ok(#[trigger] all[i], outs@[i]),
        decreases rest.len(),
    {
        let v = rest.pop().unwrap();
        let ghost k = outs@.len() as int;
        assert(v == all[k]);
        let o = parse_union_variant(v);
        outs.push(o);
        assert(outs@[k] == o);
    }
    assert(union_variants_ok(all, outs@));
    let (diags, fields) = collect_items(outs);
    if dirty || diags.len() > 0 {
        return Expansion { diags, verdict: Verdict::Aborted };
    }
    let ghost fields_view = fields@;
    let mut checks = interfaces_unsupported(&oa.interfaces);
    if fields.len() == 0 {
        checks.push(ScopeDiag::NotEmpty(span));
    }
    if starts_with_double_underscore(&name) && is_public {
        let sp = if oa.name.is_some() {
            oa.name_span
        } else {
            ident_span
        };
        checks.push(ScopeDiag::NoDoubleUnderscore(sp));
    }
    if !neighbours_differ_of(&fields) {
        checks.push(ScopeDiag::Custom(ident_span, SAME_TYPE));
    }
    assert(checks@ =~= union_checks(whole, oa, fields_view));
    if checks.len() > 0 {
        return Expansion { diags: checks, verdict: Verdict::Aborted };
    }
    let ObjectAttributes { name: _, name_span: _, description, context, scalar, scalar_span: _, interfaces: _, rename: _, is_internal: _, no_async } = oa;
    Expansion {
        diags: checks,
        verdict: Verdict::Done(TypeDefinition { name, context, scalar, description, fields, interfaces: None, no_async }),
    }
}

} // verus!

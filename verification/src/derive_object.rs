//! `build_derive_object`: a GraphQL object derived from a Rust struct with
//! named fields, checked field by field and then as a whole.
use vstd::prelude::*;

use crate::arg::starts_with_double_underscore;
use crate::attr::reversed;
use crate::diagnostic::Diagnostic;
use crate::rename::{apply_defined, Policy};
use crate::text::{starts_with, unraw, unraw_spec};
use crate::type_definition::{
    collect_items, diag_if, field_policy, fields_distinct, graphql_type_name, interface_types, interface_types_of,
    item_diags, item_fields, item_name, names_distinct, DefinitionField, Expansion, ItemOutcome, ObjectAttributes,
    ScopeDiag, StructDeriveInput, StructFieldItem, StructShape, TypeDefinition, UnsupportedAttribute, Verdict,
};

verus! {

/// Message of the error about deriving an object on something else than a
/// struct.
pub const STRUCTS_ONLY: &'static str = "can only be applied to structs";

/// Message of the error about a struct whose fields are not named.
pub const NAMED_FIELDS_ONLY: &'static str = "only named fields are allowed";

/// Whether renaming the field `f`, where that happens, is defined: a field
/// that is skipped is not named.
pub open spec fn object_field_defined<T, E, S>(f: StructFieldItem<T, E, S>, policy: Policy) -> bool {
    f.attrs matches Ok(a) && a.skip is None && a.name is None ==> apply_defined(policy, unraw_spec(f.ident@))
}

/// What the field `f` becomes: refused for its attribute, left out for
/// `skip`; otherwise kept, with a reserved name and `default` reported.
pub open spec fn object_field_ok<T, E, S>(f: StructFieldItem<T, E, S>, policy: Policy, o: ItemOutcome<T, E, S>) -> bool {
    match f.attrs {
        Err(e) => o.diags@ == seq![ScopeDiag::Error(e)] && o.field is None,
        Ok(fa) => if fa.skip is Some {
            o.diags@.len() == 0 && o.field is None
        } else {
            let name = item_name(fa, f.ident@, policy);
            &&& o.diags@ == diag_if(
                starts_with(name, "__"@),
                ScopeDiag::NoDoubleUnderscore(if fa.name is Some { fa.name_span } else { f.ident_span }),
            ) + diag_if(
                fa.default is Some,
                ScopeDiag::UnsupportedAttributeWithin(fa.default_span, UnsupportedAttribute::Default),
            )
            &&& o.field matches Some(d) && d.name@ == name && d.ty == f.ty && d.args@.len() == 0
                && d.description == fa.description && d.deprecation == fa.deprecation && !d.is_async
                && d.default is None
        },
    }
}

/// Decides what a field of the struct becomes.
pub fn parse_object_field<T, E, S: Copy>(f: StructFieldItem<T, E, S>, policy: Policy) -> (res: ItemOutcome<T, E, S>)
    requires
        object_field_defined(f, policy),
    ensures
        object_field_ok(f, policy, res),
{
    let fa = match f.attrs {
        Err(e) => {
            let mut diags = Vec::new();
            diags.push(ScopeDiag::Error(e));
            assert(diags@ =~= seq![ScopeDiag::Error(e)]);
            return ItemOutcome { diags, field: None };
        },
        Ok(fa) => fa,
    };
    let mut diags: Vec<ScopeDiag<S>> = Vec::new();
    if fa.skip.is_some() {
        return ItemOutcome { diags, field: None };
    }
    let name = match &fa.name {
        Some(n) => n.clone(),
        None => {
            let u = unraw(f.ident.as_str());
            policy.apply(u.as_str())
        },
    };
    if starts_with_double_underscore(&name) {
        let sp = if fa.name.is_some() {
            fa.name_span
        } else {
            f.ident_span
        };
        diags.push(ScopeDiag::NoDoubleUnderscore(sp));
    }
    if fa.default.is_some() {
        diags.push(ScopeDiag::UnsupportedAttributeWithin(fa.default_span, UnsupportedAttribute::Default));
    }
    assert(diags@ =~= diag_if(
        starts_with(name@, "__"@),
        ScopeDiag::NoDoubleUnderscore(if fa.name is Some { fa.name_span } else { f.ident_span }),
    ) + diag_if(fa.default is Some, ScopeDiag::UnsupportedAttributeWithin(fa.default_span, UnsupportedAttribute::Default)));
    ItemOutcome {
        diags,
        field: Some(
            DefinitionField {
                name,
                ty: f.ty,
                args: Vec::new(),
                description: fa.description,
                deprecation: fa.deprecation,
                is_async: false,
                default: None,
            },
        ),
    }
}

/// Whether `outs` are what the fields `fs` become, in order.
pub open spec fn object_fields_ok<T, E, S>(fs: Seq<StructFieldItem<T, E, S>>, policy: Policy, outs: Seq<ItemOutcome<T, E, S>>) -> bool {
    outs.len() == fs.len() && forall|i: int| 0 <= i < fs.len() ==> object_field_ok(#[trigger] fs[i], policy, outs[i])
}

/// The checks of the object as a whole, once its fields are decided: no
/// shared name, no reserved name, and at least one field.
pub open spec fn object_checks<T, E, S>(
    input: StructDeriveInput<T, E, S>,
    oa: ObjectAttributes<T, S>,
    fields: Seq<DefinitionField<T, E>>,
) -> Seq<ScopeDiag<S>> {
    diag_if(!names_distinct(fields), ScopeDiag::Duplicate) + diag_if(
        !oa.is_internal && starts_with(graphql_type_name(oa, input.ident@), "__"@),
        ScopeDiag::NoDoubleUnderscore(if oa.name is Some { oa.name_span } else { input.ident_span }),
    ) + diag_if(fields.len() == 0, ScopeDiag::NotEmpty(input.span))
}

/// Whether deciding on each field is defined.
pub open spec fn object_input_defined<T, E, S>(input: StructDeriveInput<T, E, S>) -> bool {
    input.attrs matches Ok(oa) && input.data matches StructShape::Named(fs) ==> forall|i: int|
        0 <= i < fs@.len() ==> object_field_defined(#[trigger] fs@[i], field_policy(oa))
}

/// Decides the GraphQL object that `input` derives: refused for not being
/// a struct, then for unnamed fields, then for its attribute; then each
/// field is decided, the macro aborts on any error so far, the object is
/// checked as a whole, and it aborts again on any error.
pub fn build_derive_object<T: Copy, E, S: Copy>(input: StructDeriveInput<T, E, S>) -> (res: Expansion<T, E, S>)
    requires
        object_input_defined(input),
    ensures
        input.data is NotStruct ==> res.diags@.len() == 0 && res.verdict == Verdict::<T, E, S>::Failed(input.span, STRUCTS_ONLY),
        input.data is Unnamed ==> res.diags@.len() == 0 && res.verdict == Verdict::<T, E, S>::Failed(
            input.span,
            NAMED_FIELDS_ONLY,
        ),
        input.data is Named && input.attrs is Err ==> res.diags@.len() == 0 && res.verdict == Verdict::<T, E, S>::Error(
            input.attrs->Err_0,
        ),
        input.data is Named && input.attrs is Ok ==> exists|outs: Seq<ItemOutcome<T, E, S>>| #[trigger]
            object_fields_ok(input.data->Named_0@, field_policy(input.attrs->Ok_0), outs) && {
                let oa = input.attrs->Ok_0;
                let d1 = item_diags(outs);
                let fields = item_fields(outs);
                let d2 = object_checks(input, oa, fields);
                if input.dirty || d1.len() > 0 {
                    res.diags@ == d1 && res.verdict is Aborted
                } else {
                    &&& res.diags@ == d2
                    &&& d2.len() > 0 ==> res.verdict is Aborted
                    &&& d2.len() == 0 ==> (res.verdict matches Verdict::Done(def) && def.name@ == graphql_type_name(
                        oa,
                        input.ident@,
                    ) && def.context == oa.context && def.scalar == oa.scalar && def.description == oa.description
                        && def.fields@ == fields && (def.interfaces matches Some(is) && is@ == interface_types(
                        oa.interfaces@,
                    )) && def.no_async == oa.no_async)
                }
            },
{
    let ghost whole = input;
    let StructDeriveInput { span, ident, ident_span, data, attrs, dirty } = input;
    let fs = match data {
        StructShape::NotStruct => return Expansion { diags: Vec::new(), verdict: Verdict::Failed(span, STRUCTS_ONLY) },
        StructShape::Unnamed => return Expansion { diags: Vec::new(), verdict: Verdict::Failed(span, NAMED_FIELDS_ONLY) },
        StructShape::Named(fs) => fs,
    };
    let oa = match attrs {
        Err(e) => return Expansion { diags: Vec::new(), verdict: Verdict::Error(e) },
        Ok(oa) => oa,
    };
    let policy = match oa.rename {
        Some(p) => p,
        None => Policy::CamelCase,
    };
    let ghost all = fs@;
    let n = fs.len();
    let mut rest = reversed(fs);
    let mut outs: Vec<ItemOutcome<T, E, S>> = Vec::new();
    while rest.len() > 0
        invariant
            outs@.len() + rest@.len() == n,
            n == all.len(),
            forall|j: int| 0 <= j < rest@.len() ==> #[trigger] rest@[j] == all[n - 1 - j],
            forall|i: int| 0 <= i < all.len() ==> object_field_defined(#[trigger] all[i], policy),
            forall|i: int| 0 <= i < outs@.len() ==> object_field_ok(#[trigger] all[i], policy, outs@[i]),
        decreases rest.len(),
    {
        let f = rest.pop().unwrap();
        let ghost k = outs@.len() as int;
        assert(f == all[k]);
        let o = parse_object_field(f, policy);
        outs.push(o);
        assert(outs@[k] == o);
    }
    assert(object_fields_ok(all, policy, outs@));
    let (diags, fields) = collect_items(outs);
    if dirty || diags.len() > 0 {
        return Expansion { diags, verdict: Verdict::Aborted };
    }
    let name = match &oa.name {
        Some(n) => n.clone(),
        None => unraw(ident.as_str()),
    };
    let ghost fields_view = fields@;
    let mut checks: Vec<ScopeDiag<S>> = Vec::new();
    if !fields_distinct(&fields) {
        checks.push(ScopeDiag::Duplicate);
    }
    if !oa.is_internal && starts_with_double_underscore(&name) {
        let sp = if oa.name.is_some() {
            oa.name_span
        } else {
            ident_span
        };
        checks.push(ScopeDiag::NoDoubleUnderscore(sp));
    }
    if fields.len() == 0 {
        checks.push(ScopeDiag::NotEmpty(span));
    }
    assert(checks@ =~= object_checks(whole, oa, fields_view));
    if checks.len() > 0 {
        return Expansion { diags: checks, verdict: Verdict::Aborted };
    }
    let interfaces = interface_types_of(&oa.interfaces);
    let ObjectAttributes { name: _, name_span: _, description, context, scalar, scalar_span: _, interfaces: _, rename: _, is_internal: _, no_async } = oa;
    Expansion {
        diags: checks,
        verdict: Verdict::Done(
            TypeDefinition { name, context, scalar, description, fields, interfaces: Some(interfaces), no_async },
        ),
    }
}

} // verus!

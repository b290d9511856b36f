//! `impl_input_object`: a GraphQL input object derived from a Rust struct
//! with named fields, checked field by field and then as a whole.
use vstd::prelude::*;

use crate::arg::starts_with_double_underscore;
use crate::attr::reversed;
use crate::diagnostic::Diagnostic;
use crate::rename::{apply_defined, Policy};
use crate::text::{starts_with, unraw, unraw_spec};
use crate::type_definition::{
    collect_items, diag_if, field_policy, fields_distinct, interface_diags, interfaces_unsupported, item_diags,
    item_fields, item_name, names_distinct, DefinitionField, Expansion, ItemOutcome, ObjectAttributes,
    ScopeDiag, StructDeriveInput, StructFieldItem, StructShape, TypeDefinition, UnsupportedAttribute, Verdict,
};

verus! {

/// Message of the error about deriving an input object on something else
/// than a struct.
pub const STRUCTS_ONLY: &'static str = "can only be used on structs with fields";

/// Message of the error about a struct whose fields are not named.
pub const NAMED_FIELDS_ONLY: &'static str = "all fields must be named, e.g., `test: String`";

/// Whether renaming the field `f`, where that happens, is defined.
pub open spec fn input_field_defined<T, E, S>(f: StructFieldItem<T, E, S>, policy: Policy) -> bool {
    f.attrs matches Ok(a) && a.name is None ==> apply_defined(policy, unraw_spec(f.ident@))
}

/// What the field `f` becomes: refused for its attribute; otherwise kept,
/// with `skip`, a deprecation and a reserved name reported; a name
/// reserved without an explicit name is reported at `call_site`.
pub open spec fn input_field_ok<T, E, S>(f: StructFieldItem<T, E, S>, policy: Policy, call_site: S, o: ItemOutcome<T, E, S>) -> bool {
    match f.attrs {
        Err(e) => o.diags@ == seq![ScopeDiag::Error(e)] && o.field is None,
        Ok(fa) => {
            let name = item_name(fa, f.ident@, policy);
            &&& o.diags@ == diag_if(
                fa.skip is Some,
                ScopeDiag::UnsupportedAttributeWithin(fa.skip->0, UnsupportedAttribute::Skip),
            ) + diag_if(
                fa.deprecation is Some,
                ScopeDiag::UnsupportedAttributeWithin(fa.deprecation_span, UnsupportedAttribute::Deprecation),
            ) + diag_if(
                starts_with(name, "__"@),
                ScopeDiag::NoDoubleUnderscore(if fa.name is Some { fa.name_span } else { call_site }),
            )
            &&& o.field matches Some(d) && d.name@ == name && d.ty == f.ty && d.args@.len() == 0
                && d.description == fa.description && d.deprecation is None && !d.is_async
                && d.default == fa.default
        },
    }
}

/// Decides what a field of the struct becomes.
pub fn parse_input_field<T, E, S: Copy>(f: StructFieldItem<T, E, S>, policy: Policy, call_site: S) -> (res: ItemOutcome<T, E, S>)
    requires
        input_field_defined(f, policy),
    ensures
        input_field_ok(f, policy, call_site, res),
{
    let fa = match f.attrs {
        Err(e) => {
            let mut diags = Vec::new();
            diags.push(ScopeDiag::Error(e));
            assert(diags@ =~= seq![ScopeDiag::Error(e)]);
            return ItemOutcome { diags, field: None };
        },
        Ok(fa) => fa,
    };
    let name = match &fa.name {
        Some(n) => n.clone(),
        None => {
            let u = unraw(f.ident.as_str());
            policy.apply(u.as_str())
        },
    };
    let mut diags: Vec<ScopeDiag<S>> = Vec::new();
    if let Some(sp) = fa.skip {
        diags.push(ScopeDiag::UnsupportedAttributeWithin(sp, UnsupportedAttribute::Skip));
    }
    if fa.deprecation.is_some() {
        diags.push(ScopeDiag::UnsupportedAttributeWithin(fa.deprecation_span, UnsupportedAttribute::Deprecation));
    }
    if starts_with_double_underscore(&name) {
        let sp = if fa.name.is_some() {
            fa.name_span
        } else {
            call_site
        };
        diags.push(ScopeDiag::NoDoubleUnderscore(sp));
    }
    assert(diags@ =~= diag_if(
        fa.skip is Some,
        ScopeDiag::UnsupportedAttributeWithin(fa.skip->0, UnsupportedAttribute::Skip),
    ) + diag_if(
        fa.deprecation is Some,
        ScopeDiag::UnsupportedAttributeWithin(fa.deprecation_span, UnsupportedAttribute::Deprecation),
    ) + diag_if(
        starts_with(name@, "__"@),
        ScopeDiag::NoDoubleUnderscore(if fa.name is Some { fa.name_span } else { call_site }),
    ));
    ItemOutcome {
        diags,
        field: Some(
            DefinitionField {
                name,
                ty: f.ty,
                args: Vec::new(),
                description: fa.description,
                deprecation: None,
                is_async: false,
                default: fa.default,
            },
        ),
    }
}

/// Whether `outs` are what the fields `fs` become, in order.
pub open spec fn input_fields_ok<T, E, S>(
    fs: Seq<StructFieldItem<T, E, S>>,
    policy: Policy,
    call_site: S,
    outs: Seq<ItemOutcome<T, E, S>>,
) -> bool {
    outs.len() == fs.len() && forall|i: int| 0 <= i < fs.len() ==> input_field_ok(#[trigger] fs[i], policy, call_site, outs[i])
}

/// The GraphQL name of the input object: the explicit one, or its
/// identifier as written.
pub open spec fn input_object_name<T, S>(oa: ObjectAttributes<T, S>, ident: Seq<char>) -> Seq<char> {
    match oa.name {
        Some(n) => n@,
        None => ident,
    }
}

/// The checks of the input object as a whole, once its fields are
/// decided: at least one field, no shared name, no interface, the shared
/// names once more, and no reserved name.
pub open spec fn input_object_checks<T, E, S>(
    input: StructDeriveInput<T, E, S>,
    oa: ObjectAttributes<T, S>,
    fields: Seq<DefinitionField<T, E>>,
) -> Seq<ScopeDiag<S>> {
    diag_if(fields.len() == 0, ScopeDiag::NotEmpty(input.span)) + diag_if(!names_distinct(fields), ScopeDiag::Duplicate)
        + interface_diags(oa.interfaces@) + diag_if(!names_distinct(fields), ScopeDiag::Duplicate) + diag_if(
        !oa.is_internal && starts_with(input_object_name(oa, input.ident@), "__"@),
        ScopeDiag::NoDoubleUnderscore(if oa.name is Some { oa.name_span } else { input.ident_span }),
    )
}

/// Whether deciding on each field is defined.
pub open spec fn input_object_defined<T, E, S>(input: StructDeriveInput<T, E, S>) -> bool {
    input.attrs matches Ok(oa) && input.data matches StructShape::Named(fs) ==> forall|i: int|
        0 <= i < fs@.len() ==> input_field_defined(#[trigger] fs@[i], field_policy(oa))
}

/// Decides the GraphQL input object that `input` derives: refused for not
/// being a struct, then for unnamed fields, then for its attribute; then
/// each field is decided, the macro aborts on any error so far, the input
/// object is checked as a whole, and it aborts again on any error.
/// `call_site` is where a field's reserved name without an explicit name
/// is reported.
pub fn impl_input_object<T, E, S: Copy>(input: StructDeriveInput<T, E, S>, call_site: S) -> (res: Expansion<T, E, S>)
    requires
        input_object_defined(input),
    ensures
        input.data is NotStruct ==> res.diags@.len() == 0 && res.verdict == Verdict::<T, E, S>::Failed(input.span, STRUCTS_ONLY),
        input.data is Unnamed ==> res.diags@.len() == 0 && res.verdict == Verdict::<T, E, S>::Failed(
            input.span,
            NAMED_FIELDS_ONLY,
        ),
        input.data is Named && input.attrs is Err ==> res.diags@.len() == 0 && res.verdict == Verdict::<T, E, S>::Error(
            input.attrs->Err_0,
        ),
        input.data is Named && input.attrs is Ok ==> exists|outs: Seq<ItemOutcome<T, E, S>>| #[trigger]
            input_fields_ok(input.data->Named_0@, field_policy(input.attrs->Ok_0), call_site, outs) && {
                let oa = input.attrs->Ok_0;
                let d1 = item_diags(outs);
                let fields = item_fields(outs);
                let d2 = input_object_checks(input, oa, fields);
                if input.dirty || d1.len() > 0 {
                    res.diags@ == d1 && res.verdict is Aborted
                } else {
                    &&& res.diags@ == d2
                    &&& d2.len() > 0 ==> res.verdict is Aborted
                    &&& d2.len() == 0 ==> (res.verdict matches Verdict::Done(def) && def.name@ == input_object_name(
                        oa,
                        input.ident@,
                    ) && def.context == oa.context && def.scalar == oa.scalar && def.description == oa.description
                        && def.fields@ == fields && (def.interfaces matches Some(is) && is@.len() == 0)
                        && def.no_async == oa.no_async)
                }
            },
{
    let ghost whole = input;
    let StructDeriveInput { span, ident, ident_span, data, attrs, dirty } = input;
    let fs = match data {
        StructShape::NotStruct => return Expansion { diags: Vec::new(), verdict: Verdict::Failed(span, STRUCTS_ONLY) },
        StructShape::Unnamed => return Expansion { diags: Vec::new(), verdict: Verdict::Failed(span, NAMED_FIELDS_ONLY) },
        StructShape::Named(fs) => fs,
    };
    let oa = match attrs {
        Err(e) => return Expansion { diags: Vec::new(), verdict: Verdict::Error(e) },
        Ok(oa) => oa,
    };
    let policy = match oa.rename {
        Some(p) => p,
        None => Policy::CamelCase,
    };
    let ghost all = fs@;
    let n = fs.len();
    let mut rest = reversed(fs);
    let mut outs: Vec<ItemOutcome<T, E, S>> = Vec::new();
    while rest.len() > 0
        invariant
            outs@.len() + rest@.len() == n,
            n == all.len(),
            forall|j: int| 0 <= j < rest@.len() ==> #[trigger] rest@[j] == all[n - 1 - j],
            forall|i: int| 0 <= i < all.len() ==> input_field_defined(#[trigger] all[i], policy),
            forall|i: int| 0 <= i < outs@.len() ==> input_field_ok(#[trigger] all[i], policy, call_site, outs@[i]),
        decreases rest.len(),
    {
        let f = rest.pop().unwrap();
        let ghost k = outs@.len() as int;
        assert(f == all[k]);
        let o = parse_input_field(f, policy, call_site);
        outs.push(o);
        assert(outs@[k] == o);
    }
    assert(input_fields_ok(all, policy, call_site, outs@));
    let (diags, fields) = collect_items(outs);
    if dirty || diags.len() > 0 {
        return Expansion { diags, verdict: Verdict::Aborted };
    }
    let name = match &oa.name {
        Some(n) => n.clone(),
        None => ident,
    };
    let ghost fields_view = fields@;
    let mut checks: Vec<ScopeDiag<S>> = Vec::new();
    if fields.len() == 0 {
        checks.push(ScopeDiag::NotEmpty(span));
    }
    let distinct = fields_distinct(&fields);
    if !distinct {
        checks.push(ScopeDiag::Duplicate);
    }
    let mut unsupported = interfaces_unsupported(&oa.interfaces);
    checks.append(&mut unsupported);
    if !distinct {
        checks.push(ScopeDiag::Duplicate);
    }
    if !oa.is_internal && starts_with_double_underscore(&name) {
        let sp = if oa.name.is_some() {
            oa.name_span
        } else {
            ident_span
        };
        checks.push(ScopeDiag::NoDoubleUnderscore(sp));
    }
    assert(checks@ =~= input_object_checks(whole, oa, fields_view));
    if checks.len() > 0 {
        return Expansion { diags: checks, verdict: Verdict::Aborted };
    }
    let ObjectAttributes { name: _, name_span: _, description, context, scalar, scalar_span: _, interfaces: _, rename: _, is_internal: _, no_async } = oa;
    Expansion {
        diags: checks,
        verdict: Verdict::Done(
            TypeDefinition { name, context, scalar, description, fields, interfaces: Some(Vec::new()), no_async },
        ),
    }
}

} // verus!

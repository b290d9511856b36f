//! The type definitions that the attribute-driven derives and impl macros
//! (`impl_enum`, `build_derive_object`, `impl_input_object`, the impl
//! object and impl union macros, and `gql!` objects) build: their
//! attributes as read, the diagnostics their scope reports, and the
//! definition of the GraphQL type with its fields.
use vstd::prelude::*;

use crate::attr::reversed;
use crate::diagnostic::Diagnostic;
use crate::field::{all_different, pairwise_distinct};
use crate::rename::{apply_defined, apply_spec, Policy};
use crate::text::unraw_spec;

verus! {

/// The `#[graphql(...)]` arguments of a type, as read; `T` stands for Rust
/// types and `S` for spans.
pub struct ObjectAttributes<T, S> {
    pub name: Option<String>,
    /// Where the explicit name is.
    pub name_span: S,
    pub description: Option<String>,
    pub context: Option<T>,
    pub scalar: Option<T>,
    /// Where `scalar` is.
    pub scalar_span: S,
    /// The interfaces given, with where each is.
    pub interfaces: Vec<(T, S)>,
    /// The renaming of the fields, if given.
    pub rename: Option<Policy>,
    pub is_internal: bool,
    pub no_async: bool,
}

/// The `#[graphql(...)]` arguments of one argument of a method, as read.
pub struct ArgAttributes<E, S> {
    /// The name of the Rust argument they are for.
    pub arg: String,
    pub rename: Option<String>,
    /// Where the new name is.
    pub rename_span: S,
    pub description: Option<String>,
    pub default: Option<E>,
}

/// The `#[graphql(...)]` arguments of a field, variant or method, as read;
/// `E` stands for default values.
pub struct FieldAttributes<E, S> {
    pub name: Option<String>,
    /// Where the explicit name is.
    pub name_span: S,
    pub description: Option<String>,
    /// Where the description is.
    pub description_span: S,
    /// The deprecation, with its reason if one is given.
    pub deprecation: Option<Option<String>>,
    /// Where the deprecation is.
    pub deprecation_span: S,
    /// Where `skip` is, if given.
    pub skip: Option<S>,
    /// The default value: an expression, or `None` for `Default::default()`.
    pub default: Option<Option<E>>,
    /// Where `default` is.
    pub default_span: S,
    /// The arguments given for the method's arguments.
    pub arguments: Vec<ArgAttributes<E, S>>,
}

/// The arguments that a scope reports as not supported where they are.
#[derive(Clone, Copy, Debug, PartialEq, Eq, Structural)]
pub enum UnsupportedAttribute {
    Skip,
    Description,
    Interface,
    Scalar,
    Deprecation,
    Default,
}

/// A diagnostic that the scope of a macro emits.
pub enum ScopeDiag<S> {
    /// An error with this message, at `S`.
    Custom(S, &'static str),
    /// A name starting with `__`, at `S`.
    NoDoubleUnderscore(S),
    /// An argument not supported on this kind of type, at `S`.
    UnsupportedAttribute(S, UnsupportedAttribute),
    /// An argument not supported on this kind of field, at `S`.
    UnsupportedAttributeWithin(S, UnsupportedAttribute),
    /// A type that defines no field, at `S`.
    NotEmpty(S),
    /// Fields that share a name.
    Duplicate,
    /// The error refusing some attribute.
    Error(Diagnostic<S>),
}

/// An argument of a GraphQL field.
pub struct DefinitionArg<T, E> {
    pub name: String,
    pub ty: T,
    pub description: Option<String>,
    pub default: Option<E>,
}

/// A field of a GraphQL type, ready for code generation.
pub struct DefinitionField<T, E> {
    pub name: String,
    pub ty: T,
    pub args: Vec<DefinitionArg<T, E>>,
    pub description: Option<String>,
    pub deprecation: Option<Option<String>>,
    pub is_async: bool,
    /// The default value, for an input field that has one.
    pub default: Option<Option<E>>,
}

/// A GraphQL type, ready for code generation.
pub struct TypeDefinition<T, E> {
    pub name: String,
    pub context: Option<T>,
    pub scalar: Option<T>,
    pub description: Option<String>,
    pub fields: Vec<DefinitionField<T, E>>,
    /// The interfaces it implements, where any are given.
    pub interfaces: Option<Vec<T>>,
    pub no_async: bool,
}

/// How a macro ends: it fails with an error, it aborts on the diagnostics
/// emitted, or it has the definition to generate code for.
pub enum Verdict<T, E, S> {
    Failed(S, &'static str),
    Error(Diagnostic<S>),
    Aborted,
    Done(TypeDefinition<T, E>),
}

/// What a macro emits, in order, and how it ends.
pub struct Expansion<T, E, S> {
    pub diags: Vec<ScopeDiag<S>>,
    pub verdict: Verdict<T, E, S>,
}

/// What one field, variant or method becomes: the diagnostics it emits,
/// and its field if it is kept.
pub struct ItemOutcome<T, E, S> {
    pub diags: Vec<ScopeDiag<S>>,
    pub field: Option<DefinitionField<T, E>>,
}

/// The diagnostics that `outs` emit, in order.
pub open spec fn item_diags<T, E, S>(outs: Seq<ItemOutcome<T, E, S>>) -> Seq<ScopeDiag<S>>
    decreases outs.len(),
{
    if outs.len() == 0 {
        Seq::empty()
    } else {
        item_diags(outs.drop_last()) + outs.last().diags@
    }
}

/// The fields that `outs` keep, in order.
pub open spec fn item_fields<T, E, S>(outs: Seq<ItemOutcome<T, E, S>>) -> Seq<DefinitionField<T, E>>
    decreases outs.len(),
{
    if outs.len() == 0 {
        Seq::empty()
    } else {
        match outs.last().field {
            Some(f) => item_fields(outs.drop_last()).push(f),
            None => item_fields(outs.drop_last()),
        }
    }
}

/// The names of `fields`, in order.
pub open spec fn field_names<T, E>(fields: Seq<DefinitionField<T, E>>) -> Seq<Seq<char>> {
    fields.map_values(|f: DefinitionField<T, E>| f.name@)
}

/// Whether the fields share no name.
pub open spec fn names_distinct<T, E>(fields: Seq<DefinitionField<T, E>>) -> bool {
    pairwise_distinct(field_names(fields))
}

/// The diagnostics about each of the `interfaces` given where none is
/// supported, in order.
pub open spec fn interface_diags<T, S>(interfaces: Seq<(T, S)>) -> Seq<ScopeDiag<S>> {
    interfaces.map_values(|i: (T, S)| ScopeDiag::UnsupportedAttribute(i.1, UnsupportedAttribute::Interface))
}

/// The one diagnostic `d` where `cond` holds, else none.
pub open spec fn diag_if<S>(cond: bool, d: ScopeDiag<S>) -> Seq<ScopeDiag<S>> {
    if cond {
        seq![d]
    } else {
        Seq::empty()
    }
}

/// Whether renaming the name `ident` with the `policy`, where an item has
/// no explicit name, is defined.
pub open spec fn rename_defined<E, S>(attrs: Result<FieldAttributes<E, S>, Diagnostic<S>>, policy: Policy, ident: Seq<char>) -> bool {
    attrs matches Ok(a) && a.name is None ==> apply_defined(policy, ident)
}

/// The GraphQL name of a field: the explicit one, or the identifier
/// renamed.
pub open spec fn item_name<E, S>(fa: FieldAttributes<E, S>, ident: Seq<char>, policy: Policy) -> Seq<char> {
    match fa.name {
        Some(n) => n@,
        None => apply_spec(policy, unraw_spec(ident)),
    }
}

/// The GraphQL name of the type: the explicit one, or its identifier.
pub open spec fn graphql_type_name<T, S>(oa: ObjectAttributes<T, S>, ident: Seq<char>) -> Seq<char> {
    match oa.name {
        Some(n) => n@,
        None => unraw_spec(ident),
    }
}

/// The types of the `interfaces`, in order.
pub open spec fn interface_types<T, S>(interfaces: Seq<(T, S)>) -> Seq<T> {
    interfaces.map_values(|i: (T, S)| i.0)
}

/// A Rust struct's fields: named, unnamed, or no struct at all.
pub enum StructShape<X> {
    Named(Vec<X>),
    Unnamed,
    NotStruct,
}

/// A named field of a struct.
pub struct StructFieldItem<T, E, S> {
    /// Its `#[graphql]` arguments, or the error refusing them.
    pub attrs: Result<FieldAttributes<E, S>, Diagnostic<S>>,
    pub ident: String,
    pub ident_span: S,
    pub ty: T,
}

/// A Rust struct under a derive.
pub struct StructDeriveInput<T, E, S> {
    /// Where the whole item is.
    pub span: S,
    pub ident: String,
    pub ident_span: S,
    pub data: StructShape<StructFieldItem<T, E, S>>,
    /// Its `#[graphql]` arguments, or the error refusing them.
    pub attrs: Result<ObjectAttributes<T, S>, Diagnostic<S>>,
    /// Whether errors were emitted before, in the same macro call.
    pub dirty: bool,
}

/// The renaming of the fields: the one given, or `camelCase`.
pub open spec fn field_policy<T, S>(oa: ObjectAttributes<T, S>) -> Policy {
    match oa.rename {
        Some(p) => p,
        None => Policy::CamelCase,
    }
}

/// The types of the `interfaces`, in order.
pub fn interface_types_of<T: Copy, S>(interfaces: &Vec<(T, S)>) -> (res: Vec<T>)
    ensures
        res@ == interface_types(interfaces@),
{
    let mut out: Vec<T> = Vec::new();
    let mut i: usize = 0;
    while i < interfaces.len()
        invariant
            i <= interfaces@.len(),
            out@ == interface_types(interfaces@.take(i as int)),
        decreases interfaces@.len() - i,
    {
        out.push(interfaces[i].0);
        i += 1;
        assert(out@ =~= interface_types(interfaces@.take(i as int)));
    }
    assert(interfaces@.take(interfaces@.len() as int) =~= interfaces@);
    out
}

/// Emits the diagnostics of the outcomes `outs` and keeps their fields.
pub fn collect_items<T, E, S>(outs: Vec<ItemOutcome<T, E, S>>) -> (res: (Vec<ScopeDiag<S>>, Vec<DefinitionField<T, E>>))
    ensures
        res.0@ == item_diags(outs@),
        res.1@ == item_fields(outs@),
{
    let ghost all = outs@;
    let n = outs.len();
    let mut rest = reversed(outs);
    let mut diags: Vec<ScopeDiag<S>> = Vec::new();
    let mut fields: Vec<DefinitionField<T, E>> = Vec::new();
    let mut i: usize = 0;
    while rest.len() > 0
        invariant
            i + rest@.len() == n,
            n == all.len(),
            forall|j: int| 0 <= j < rest@.len() ==> #[trigger] rest@[j] == all[n - 1 - j],
            diags@ == item_diags(all.take(i as int)),
            fields@ == item_fields(all.take(i as int)),
        decreases rest.len(),
    {
        let o = rest.pop().unwrap();
        proof {
            assert(o == all[i as int]);
            assert(all.take(i + 1).drop_last() =~= all.take(i as int));
            assert(all.take(i + 1).last() == o);
        }
        let ItemOutcome { diags: mut ds, field } = o;
        diags.append(&mut ds);
        if let Some(f) = field {
            fields.push(f);
        }
        i += 1;
    }
    assert(all.take(n as int) =~= all);
    (diags, fields)
}

/// Whether the `fields` share no name.
pub fn fields_distinct<T, E>(fields: &Vec<DefinitionField<T, E>>) -> (res: bool)
    ensures
        res == names_distinct(fields@),
{
    let mut names: Vec<String> = Vec::new();
    let mut i: usize = 0;
    while i < fields.len()
        invariant
            i <= fields@.len(),
            names@.len() == i,
            forall|j: int| 0 <= j < i ==> #[trigger] names@[j] == fields@[j].name,
        decreases fields@.len() - i,
    {
        names.push(fields[i].name.clone());
        i += 1;
    }
    let res = all_different(names.as_slice());
    assert(names@.map_values(|s: String| s@) =~= field_names(fields@));
    res
}

/// The diagnostics about each of the `interfaces`, where none is supported.
pub fn interfaces_unsupported<T, S: Copy>(interfaces: &Vec<(T, S)>) -> (res: Vec<ScopeDiag<S>>)
    ensures
        res@ == interface_diags(interfaces@),
{
    let mut out: Vec<ScopeDiag<S>> = Vec::new();
    let mut i: usize = 0;
    while i < interfaces.len()
        invariant
            i <= interfaces@.len(),
            out@ == interface_diags(interfaces@.take(i as int)),
        decreases interfaces@.len() - i,
    {
        out.push(ScopeDiag::UnsupportedAttribute(interfaces[i].1, UnsupportedAttribute::Interface));
        i += 1;
        assert(out@ =~= interface_diags(interfaces@.take(i as int)));
    }
    assert(interfaces@.take(interfaces@.len() as int) =~= interfaces@);
    out
}

} // verus!

//! GraphQL interfaces (`#[graphql_interface]` on a trait or a struct): the
//! names of the generated enum, and the decisions that turn the trait's
//! methods or the struct's fields into the interface's fields.
use vstd::prelude::*;

use crate::definition::{
    context_of, def_names, def_views, fields_defs, fields_diags, finish_fields, first_context, graphql_name,
    method_field_defined, method_field_ok, parse_method_field, parse_struct_field, check_ok, struct_field_defined,
    struct_field_ok, FieldDef, FieldDefView, FieldOutcome, MethodFieldInput, StructFieldInput,
};
use crate::arg::MethodArgKind;
use crate::diagnostic::{is_reserved_diag, scoped_message, Scope};
use crate::rename::Policy;
use crate::session::{Control, Session};
use crate::text::{starts_with, unraw_spec};
use crate::type_attr::{TypeAttr, TypeRef};

verus! {

/// The identifiers of the enum behind an interface named `trait_ident`,
/// and of its alias: the alias is `alias` or `{trait_ident}Value`; the enum
/// is `{alias}Enum` or `{trait_ident}ValueEnum`.
pub open spec fn enum_idents_spec(trait_ident: Seq<char>, alias: Option<Seq<char>>) -> (Seq<char>, Seq<char>) {
    match alias {
        Some(a) => (a + "Enum"@, a),
        None => (trait_ident + "ValueEnum"@, trait_ident + "Value"@),
    }
}

/// The view of an optional string.
pub open spec fn opt_str_view(s: Option<String>) -> Option<Seq<char>> {
    match s {
        Some(a) => Some(a@),
        None => None,
    }
}

/// The identifiers of the enum behind an interface, and of its alias.
pub fn enum_idents(trait_ident: &str, alias: Option<&str>) -> (res: (String, String))
    ensures
        res.0@ == enum_idents_spec(trait_ident@, match alias { Some(a) => Some(a@), None => None }).0,
        res.1@ == enum_idents_spec(trait_ident@, match alias { Some(a) => Some(a@), None => None }).1,
{
    match alias {
        Some(a) => (String::from_str(a).concat("Enum"), String::from_str(a)),
        None => (String::from_str(trait_ident).concat("ValueEnum"), String::from_str(trait_ident).concat("Value")),
    }
}

/// A generic parameter of an interface's trait or struct, with its name.
#[derive(Clone, Debug)]
pub enum GenericKind {
    /// A lifetime, such as `'a`.
    Lifetime(String),
    /// A type parameter, such as `T`.
    Type(String),
    /// A const parameter, such as `N`.
    Const(String),
}

/// A copy of the generic parameter `k`.
pub fn copy_generic(k: &GenericKind) -> (res: GenericKind)
    ensures
        res == *k,
{
    match k {
        GenericKind::Lifetime(n) => GenericKind::Lifetime(n.clone()),
        GenericKind::Type(n) => GenericKind::Type(n.clone()),
        GenericKind::Const(n) => GenericKind::Const(n.clone()),
    }
}

/// A generic parameter of the enum behind an interface.
pub enum EnumParam {
    /// One of the interface's own parameters.
    Generic(GenericKind),
    /// The parameter `__I{i}` that the variant of the `i`-th implementer
    /// holds; in the alias it stands for that implementer's type.
    Implementer(usize),
}

/// The lifetimes among the generic parameters `g`, in order.
pub open spec fn lifetime_params(g: Seq<GenericKind>) -> Seq<EnumParam>
    decreases g.len(),
{
    if g.len() == 0 {
        Seq::empty()
    } else if g.last() is Lifetime {
        lifetime_params(g.drop_last()).push(EnumParam::Generic(g.last()))
    } else {
        lifetime_params(g.drop_last())
    }
}

/// The type and const parameters among `g`, in order.
pub open spec fn other_params(g: Seq<GenericKind>) -> Seq<EnumParam>
    decreases g.len(),
{
    if g.len() == 0 {
        Seq::empty()
    } else if g.last() is Lifetime {
        other_params(g.drop_last())
    } else {
        other_params(g.drop_last()).push(EnumParam::Generic(g.last()))
    }
}

/// One parameter per implementer, the `i`-th standing for the `i`-th.
pub open spec fn implementer_params(n: nat) -> Seq<EnumParam> {
    Seq::new(n, |i: int| EnumParam::Implementer(i as usize))
}

/// The generic parameters of the enum behind an interface with generics
/// `g` and `n` implementers: the lifetimes, then one parameter per
/// implementer, then the type and const parameters.
pub open spec fn enum_params(g: Seq<GenericKind>, n: nat) -> Seq<EnumParam> {
    lifetime_params(g) + implementer_params(n) + other_params(g)
}

/// What the hidden variant holds for one generic parameter: a phantom of
/// the type parameter, or of a reference with the lifetime.
pub enum PhantomField {
    Type(String),
    Lifetime(String),
}

/// The fields of the hidden variant for the generic parameters `g`: one per
/// type parameter and lifetime, in order; const parameters have none.
pub open spec fn phantom_fields(g: Seq<GenericKind>) -> Seq<PhantomField>
    decreases g.len(),
{
    if g.len() == 0 {
        Seq::empty()
    } else {
        match g.last() {
            GenericKind::Type(t) => phantom_fields(g.drop_last()).push(PhantomField::Type(t)),
            GenericKind::Lifetime(l) => phantom_fields(g.drop_last()).push(PhantomField::Lifetime(l)),
            GenericKind::Const(_) => phantom_fields(g.drop_last()),
        }
    }
}

/// A variant of the enum behind an interface: it is named by the last path
/// segment of its implementer and holds the parameter `__I{param}`; a
/// `From` of the implementer's type into the alias builds it.
pub struct EnumVariant {
    pub ident: String,
    pub param: usize,
}

/// The enum behind an interface and its alias, as generated.
pub struct EnumPlan {
    pub enum_ident: String,
    pub alias_ident: String,
    /// The enum's generic parameters, in order; the alias's arguments are
    /// the same, each implementer's parameter replaced by its type.
    pub params: Vec<EnumParam>,
    /// One variant per implementer, in order.
    pub variants: Vec<EnumVariant>,
    /// The fields of the hidden variant that holds the generic parameters,
    /// where the interface has any.
    pub phantom: Option<Vec<PhantomField>>,
}

/// The enum that stands for the values of an interface with the
/// `generics`, implemented for types whose last path segments are
/// `implementers`.
pub fn interface_enum_plan(enum_ident: &str, alias: &str, implementers: &Vec<String>, generics: &Vec<GenericKind>) -> (res: EnumPlan)
    ensures
        res.enum_ident@ == enum_ident@,
        res.alias_ident@ == alias@,
        res.params@ == enum_params(generics@, implementers@.len()),
        res.variants@.len() == implementers@.len(),
        forall|i: int|
            0 <= i < implementers@.len() ==> #[trigger] res.variants@[i].ident == implementers@[i] && res.variants@[i].param
                == i,
        res.phantom is Some <==> generics@.len() > 0,
        res.phantom matches Some(p) ==> p@ == phantom_fields(generics@),
{
    let g = generics;
    let mut lts: Vec<EnumParam> = Vec::new();
    let mut others: Vec<EnumParam> = Vec::new();
    let mut phantom: Vec<PhantomField> = Vec::new();
    let mut i: usize = 0;
    while i < g.len()
        invariant
            i <= g@.len(),
            lts@ == lifetime_params(g@.take(i as int)),
            others@ == other_params(g@.take(i as int)),
            phantom@ == phantom_fields(g@.take(i as int)),
        decreases g@.len() - i,
    {
        proof {
            assert(g@.take(i + 1).drop_last() =~= g@.take(i as int));
            assert(g@.take(i + 1).last() == g@[i as int]);
        }
        let k = copy_generic(&g[i]);
        match &g[i] {
            GenericKind::Lifetime(l) => {
                phantom.push(PhantomField::Lifetime(l.clone()));
                lts.push(EnumParam::Generic(k));
            },
            GenericKind::Type(t) => {
                phantom.push(PhantomField::Type(t.clone()));
                others.push(EnumParam::Generic(k));
            },
            GenericKind::Const(_) => {
                others.push(EnumParam::Generic(k));
            },
        }
        i += 1;
    }
    assert(g@.take(g@.len() as int) =~= g@);
    let n = implementers.len();
    let mut ips: Vec<EnumParam> = Vec::new();
    let mut variants: Vec<EnumVariant> = Vec::new();
    let mut j: usize = 0;
    while j < n
        invariant
            j <= n,
            n == implementers@.len(),
            ips@ =~= implementer_params(j as nat),
            variants@.len() == j,
            forall|m: int| 0 <= m < j ==> #[trigger] variants@[m].ident == implementers@[m] && variants@[m].param == m,
        decreases n - j,
    {
        ips.push(EnumParam::Implementer(j));
        variants.push(EnumVariant { ident: implementers[j].clone(), param: j });
        j += 1;
        assert(ips@ =~= implementer_params(j as nat));
    }
    let mut params = lts;
    params.append(&mut ips);
    params.append(&mut others);
    let phantom = if g.len() > 0 {
        Some(phantom)
    } else {
        None
    };
    EnumPlan {
        enum_ident: String::from_str(enum_ident),
        alias_ident: String::from_str(alias),
        params,
        variants,
        phantom,
    }
}

/// The implementation of the field resolver trait (or of its async form)
/// on the alias of an interface, for one field: a `match` on the enum with
/// one arm per implementer, in order, which hands the call to that
/// implementer, and an arm that cannot be reached where the match would
/// not otherwise cover the enum.
pub struct FieldPlan {
    /// The GraphQL name of the field.
    pub name: String,
    /// The variants that the arms match, in order.
    pub arms: Vec<String>,
    /// Whether the `match` ends with an arm that cannot be reached.
    pub unreachable_arm: bool,
    /// Whether this implements the async form.
    pub async_trait: bool,
    /// The names of the field's GraphQL arguments, in order.
    pub arguments: Vec<String>,
}

/// The names of the GraphQL arguments among `args`, in order.
pub open spec fn regular_arg_names<E, C>(args: Seq<MethodArgKind<E, C>>) -> Seq<String>
    decreases args.len(),
{
    if args.len() == 0 {
        Seq::empty()
    } else {
        match args.last() {
            MethodArgKind::Regular { name, .. } => regular_arg_names(args.drop_last()).push(name),
            _ => regular_arg_names(args.drop_last()),
        }
    }
}

/// The names of the GraphQL arguments of the field `f`, in order; none for
/// a struct field.
pub open spec fn field_arg_names<E, C>(f: FieldDefView<E, C>) -> Seq<String> {
    match f.arguments {
        Some(a) => regular_arg_names(a),
        None => Seq::empty(),
    }
}

/// The names of the GraphQL arguments of the field `f`, in order.
fn arg_names_of<E, C>(f: &FieldDef<E, C>) -> (res: Vec<String>)
    ensures
        res@ == field_arg_names(f.view()),
{
    let mut out: Vec<String> = Vec::new();
    match &f.arguments {
        None => {},
        Some(args) => {
            let mut i: usize = 0;
            while i < args.len()
                invariant
                    i <= args@.len(),
                    out@ == regular_arg_names(args@.take(i as int)),
                decreases args@.len() - i,
            {
                proof {
                    assert(args@.take(i + 1).drop_last() =~= args@.take(i as int));
                    assert(args@.take(i + 1).last() == args@[i as int]);
                }
                match &args[i] {
                    MethodArgKind::Regular { name, .. } => out.push(name.clone()),
                    _ => {},
                }
                i += 1;
            }
            assert(args@.take(args@.len() as int) =~= args@);
        },
    }
    out
}

/// The fields that get a resolver implementation of the sync form (the
/// fields that are not async), or of the async form (all), in order.
pub open spec fn resolved_fields<E, C>(fields: Seq<FieldDefView<E, C>>, for_async: bool) -> Seq<FieldDefView<E, C>>
    decreases fields.len(),
{
    if fields.len() == 0 {
        Seq::empty()
    } else if for_async || !fields.last().is_async {
        resolved_fields(fields.drop_last(), for_async).push(fields.last())
    } else {
        resolved_fields(fields.drop_last(), for_async)
    }
}

/// The async form resolves every field, in order.
pub proof fn law_async_form_resolves_every_field<E, C>(fields: Seq<FieldDefView<E, C>>)
    ensures
        resolved_fields(fields, true) == fields,
    decreases fields.len(),
{
    if fields.len() > 0 {
        law_async_form_resolves_every_field(fields.drop_last());
        assert(fields.drop_last().push(fields.last()) =~= fields);
    }
}

/// The sync form resolves exactly the fields that are not async, in order.
pub proof fn law_sync_form_resolves_sync_fields<E, C>(fields: Seq<FieldDefView<E, C>>)
    ensures
        forall|i: int|
            0 <= i < resolved_fields(fields, false).len() ==> !(#[trigger] resolved_fields(fields, false)[i]).is_async,
        forall|i: int|
            0 <= i < fields.len() && !(#[trigger] fields[i]).is_async ==> resolved_fields(fields, false).contains(fields[i]),
    decreases fields.len(),
{
    if fields.len() > 0 {
        let t = fields.drop_last();
        law_sync_form_resolves_sync_fields(t);
        let r = resolved_fields(t, false);
        assert forall|i: int| 0 <= i < fields.len() && !(#[trigger] fields[i]).is_async implies resolved_fields(
            fields,
            false,
        ).contains(fields[i]) by {
            if i < t.len() {
                assert(t[i] == fields[i]);
                let k = choose|k: int| 0 <= k < r.len() && r[k] == t[i];
                assert(resolved_fields(fields, false)[k] == r[k]);
            } else {
                assert(resolved_fields(fields, false).last() == fields[i]);
            }
        }
    }
}

/// Whether `p` is the resolver implementation of the field `f` that
/// dispatches to the `implementers` of an interface with `n_generics`
/// generic parameters.
pub open spec fn field_plan_ok<E, C>(p: FieldPlan, f: FieldDefView<E, C>, implementers: Seq<String>, n_generics: nat, for_async: bool) -> bool {
    &&& p.name == f.name
    &&& p.arms@ == implementers
    &&& p.unreachable_arm == (implementers.len() == 0 || n_generics > 0)
    &&& p.async_trait == for_async
    &&& p.arguments@ == field_arg_names(f)
}

/// The resolver implementations, of the sync form or of the async form,
/// for the fields of the interface `def` whose implementers have the last
/// path segments `implementers`; the sync form is left out for async
/// fields, which only the async form resolves.
pub fn resolver_field_plans<E, C>(def: &InterfaceDefinition<E, C>, implementers: &Vec<String>, for_async: bool) -> (res: Vec<FieldPlan>)
    ensures
        res@.len() == resolved_fields(def_views(def.fields@), for_async).len(),
        forall|i: int|
            0 <= i < res@.len() ==> field_plan_ok(
                #[trigger] res@[i],
                resolved_fields(def_views(def.fields@), for_async)[i],
                implementers@,
                def.generics@.len(),
                for_async,
            ),
{
    let ghost all = def_views(def.fields@);
    let unreachable_arm = implementers.len() == 0 || def.generics.len() > 0;
    let mut out: Vec<FieldPlan> = Vec::new();
    let mut i: usize = 0;
    while i < def.fields.len()
        invariant
            i <= def.fields@.len(),
            all == def_views(def.fields@),
            unreachable_arm == (implementers@.len() == 0 || def.generics@.len() > 0),
            out@.len() == resolved_fields(all.take(i as int), for_async).len(),
            forall|m: int|
                0 <= m < out@.len() ==> field_plan_ok(
                    #[trigger] out@[m],
                    resolved_fields(all.take(i as int), for_async)[m],
                    implementers@,
                    def.generics@.len(),
                    for_async,
                ),
        decreases def.fields@.len() - i,
    {
        let ghost pre = all.take(i as int);
        let ghost now = all.take(i + 1);
        proof {
            assert(now.drop_last() =~= pre);
            assert(now.last() == all[i as int]);
            assert(all[i as int] == def.fields@[i as int].view());
        }
        let f = &def.fields[i];
        if for_async || !f.is_async {
            let arms = copy_strings(implementers);
            let arguments = arg_names_of(f);
            out.push(FieldPlan { name: f.name.clone(), arms, unreachable_arm, async_trait: for_async, arguments });
        }
        i += 1;
    }
    assert(all.take(def.fields@.len() as int) =~= all);
    out
}

/// A copy of the strings `v`.
fn copy_strings(v: &Vec<String>) -> (res: Vec<String>)
    ensures
        res@ == v@,
{
    let mut out: Vec<String> = Vec::new();
    let mut i: usize = 0;
    while i < v.len()
        invariant
            i <= v@.len(),
            out@ == v@.take(i as int),
        decreases v@.len() - i,
    {
        out.push(v[i].clone());
        i += 1;
        assert(out@ =~= v@.take(i as int));
    }
    assert(v@.take(v@.len() as int) =~= v@);
    out
}

/// The implementations of the field resolver trait, or of its async form
/// where `for_async`, that dispatch the fields of the interface `def` to
/// its implementers, whose last path segments are `implementers`: one per
/// field, in order.
pub fn interface_field_plans<E, T>(def: &InterfaceDefinition<E, T>, implementers: &Vec<String>, for_async: bool) -> (res: Vec<FieldPlan>)
    ensures
        res@.len() == def.fields@.len(),
        forall|i: int|
            0 <= i < res@.len() ==> {
                &&& (#[trigger] res@[i]).name == def.fields@[i].name
                &&& res@[i].arms@ == implementers@
                &&& res@[i].unreachable_arm == (implementers@.len() == 0 || def.generics@.len() > 0)
                &&& res@[i].async_trait == for_async
                &&& res@[i].arguments@ == field_arg_names(def.fields@[i].view())
            },
{
    let unreachable_arm = implementers.len() == 0 || def.generics.len() > 0;
    let mut out: Vec<FieldPlan> = Vec::new();
    let mut i: usize = 0;
    while i < def.fields.len()
        invariant
            i <= def.fields@.len(),
            out@.len() == i,
            unreachable_arm == (implementers@.len() == 0 || def.generics@.len() > 0),
            forall|m: int|
                0 <= m < i ==> {
                    &&& (#[trigger] out@[m]).name == def.fields@[m].name
                    &&& out@[m].arms@ == implementers@
                    &&& out@[m].unreachable_arm == unreachable_arm
                    &&& out@[m].async_trait == for_async
                    &&& out@[m].arguments@ == field_arg_names(def.fields@[m].view())
                },
        decreases def.fields@.len() - i,
    {
        let arms = copy_strings(implementers);
        let arguments = arg_names_of(&def.fields[i]);
        out.push(FieldPlan { name: def.fields[i].name.clone(), arms, unreachable_arm, async_trait: for_async, arguments });
        i += 1;
    }
    out
}

/// Message of the error about `#[graphql_interface]` on an enum or union.
pub const NOT_TRAIT_OR_STRUCT: &'static str = "#[graphql_interface] attribute is applicable to trait and struct definitions only";

/// Message of the error about `#[derive(GraphQLInterface)]` on an enum or
/// union.
pub const NOT_A_STRUCT: &'static str = "can only be derived on structs";

/// The scope of the diagnostics about an interface's fields as a whole:
/// that of the derive, or that of the attribute.
pub open spec fn checks_scope(derive: bool) -> Scope {
    if derive {
        Scope::InterfaceDerive
    } else {
        Scope::InterfaceAttr
    }
}

/// What an interface is defined by.
pub enum InterfaceMembers<E, T, S> {
    /// The methods of a trait, in order (its other items are no fields).
    Methods(Vec<MethodFieldInput<E, T, S>>),
    /// The fields of a struct, in order.
    StructFields(Vec<StructFieldInput<S>>),
    /// An enum or a union, which defines no interface.
    Other,
}

/// A trait or struct under `#[graphql_interface]`; `T` stands for the Rust
/// types it mentions, and `E` for default values of arguments.
pub struct InterfaceInput<E, T, S> {
    /// Its completed attribute arguments.
    pub attr: TypeAttr<T>,
    /// The text of its identifier.
    pub ident: String,
    /// Where a name starting with `__` is reported: the explicit name if
    /// there is one, else the identifier.
    pub name_span: S,
    /// Where the whole trait or struct is.
    pub span: S,
    /// Its generic parameters, in order.
    pub generics: Vec<GenericKind>,
    pub members: InterfaceMembers<E, T, S>,
}

/// A GraphQL interface, ready for code generation.
pub struct InterfaceDefinition<E, T> {
    pub name: String,
    pub description: Option<String>,
    /// The context type; `None` for the unit type.
    pub context: Option<T>,
    pub scalar: Option<T>,
    pub fields: Vec<FieldDef<E, T>>,
    pub implemented_for: Vec<TypeRef<T>>,
    pub implements: Vec<TypeRef<T>>,
    /// The identifier of the enum behind the interface.
    pub enum_ident: String,
    /// The identifier of that enum's alias.
    pub enum_alias_ident: String,
    /// The generic parameters of the trait or struct, in order.
    pub generics: Vec<GenericKind>,
}

/// What expanding `#[graphql_interface]` ends with.
pub enum InterfaceExpansion<E, T, S> {
    /// Diagnostics were emitted: the macro stops.
    Aborted,
    /// The macro fails with this message, pointing at `span`.
    Failed { span: S, msg: String },
    /// The GraphQL interface to generate code for.
    Done(InterfaceDefinition<E, T>),
}

/// The renaming of the fields that `attr` gives: the explicit one, or
/// `camelCase`.
pub open spec fn fields_renaming<T>(attr: TypeAttr<T>) -> Policy {
    match attr.rename_fields {
        Some(p) => p,
        None => Policy::CamelCase,
    }
}

/// Whether deciding on each member is defined, with the `renaming`.
pub open spec fn members_defined<E, T, S>(m: InterfaceMembers<E, T, S>, renaming: Policy) -> bool {
    match m {
        InterfaceMembers::Methods(ms) => forall|i: int|
            0 <= i < ms@.len() ==> method_field_defined(#[trigger] ms@[i], renaming, false),
        InterfaceMembers::StructFields(fs) => forall|i: int|
            0 <= i < fs@.len() ==> struct_field_defined(#[trigger] fs@[i], renaming),
        InterfaceMembers::Other => true,
    }
}

/// Whether `outs` are what the members `m` become, in order, with the
/// `renaming`.
pub open spec fn members_ok<E, T, S>(m: InterfaceMembers<E, T, S>, renaming: Policy, outs: Seq<FieldOutcome<E, T, S>>) -> bool {
    match m {
        InterfaceMembers::Methods(ms) => outs.len() == ms@.len() && forall|i: int|
            0 <= i < ms@.len() ==> method_field_ok(#[trigger] ms@[i], renaming, Scope::InterfaceAttr, false, outs[i]),
        InterfaceMembers::StructFields(fs) => outs.len() == fs@.len() && forall|i: int|
            0 <= i < fs@.len() ==> struct_field_ok(#[trigger] fs@[i], renaming, Scope::InterfaceAttr, outs[i]),
        InterfaceMembers::Other => false,
    }
}

/// The GraphQL name of the interface: the explicit one, or its identifier.
pub open spec fn interface_name<E, T, S>(input: InterfaceInput<E, T, S>) -> Seq<char> {
    match input.attr.name {
        Some(n) => n@,
        None => unraw_spec(input.ident@),
    }
}

/// Whether the name of the interface is refused.
pub open spec fn name_reserved<E, T, S>(input: InterfaceInput<E, T, S>) -> bool {
    !input.attr.is_internal && starts_with(interface_name(input), "__"@)
}

/// Whether `def` is the interface that `input` defines, its fields being
/// the outcomes `outs`.
pub open spec fn interface_def_ok<E, T: Copy, S>(
    input: InterfaceInput<E, T, S>,
    outs: Seq<FieldOutcome<E, T, S>>,
    def: InterfaceDefinition<E, T>,
) -> bool {
    let idents = enum_idents_spec(input.ident@, opt_str_view(input.attr.alias));
    &&& def.name@ == interface_name(input)
    &&& def.description == input.attr.description
    &&& def.context == match input.attr.context {
        Some(c) => Some(c),
        None => first_context(fields_defs(outs)),
    }
    &&& def.scalar == input.attr.scalar
    &&& def_views(def.fields@) == fields_defs(outs)
    &&& def.implemented_for@ == input.attr.implemented_for@
    &&& def.implements@ == input.attr.implements@
    &&& def.enum_ident@ == idents.0
    &&& def.enum_alias_ident@ == idents.1
    &&& def.generics@ == input.generics@
}

/// Decides each member of an interface, in order.
fn parse_members<E, T, S: Copy>(m: InterfaceMembers<E, T, S>, renaming: Policy) -> (res: Vec<FieldOutcome<E, T, S>>)
    requires
        members_defined(m, renaming),
        !(m is Other),
    ensures
        members_ok(m, renaming, res@),
{
    let ghost whole = m;
    let mut out: Vec<FieldOutcome<E, T, S>> = Vec::new();
    match m {
        InterfaceMembers::Methods(ms) => {
            let ghost all = ms@;
            let n = ms.len();
            let mut rest = crate::attr::reversed(ms);
            while rest.len() > 0
                invariant
                    out@.len() + rest@.len() == n,
                    n == all.len(),
                    whole == InterfaceMembers::<E, T, S>::Methods(ms),
                    all == ms@,
                    forall|j: int| 0 <= j < rest@.len() ==> #[trigger] rest@[j] == all[n - 1 - j],
                    forall|i: int| 0 <= i < all.len() ==> method_field_defined(#[trigger] all[i], renaming, false),
                    forall|i: int|
                        0 <= i < out@.len() ==> method_field_ok(#[trigger] all[i], renaming, Scope::InterfaceAttr, false, out@[i]),
                decreases rest.len(),
            {
                let f = rest.pop().unwrap();
                let ghost k = out@.len() as int;
                assert(f == all[k]);
                let o = parse_method_field(f, renaming, Scope::InterfaceAttr, false);
                out.push(o);
                assert(out@[k] == o);
            }
        },
        InterfaceMembers::StructFields(fs) => {
            let ghost all = fs@;
            let n = fs.len();
            let mut rest = crate::attr::reversed(fs);
            while rest.len() > 0
                invariant
                    out@.len() + rest@.len() == n,
                    n == all.len(),
                    whole == InterfaceMembers::<E, T, S>::StructFields(fs),
                    all == fs@,
                    forall|j: int| 0 <= j < rest@.len() ==> #[trigger] rest@[j] == all[n - 1 - j],
                    forall|i: int| 0 <= i < all.len() ==> struct_field_defined(#[trigger] all[i], renaming),
                    forall|i: int|
                        0 <= i < out@.len() ==> struct_field_ok(#[trigger] all[i], renaming, Scope::InterfaceAttr, out@[i]),
                decreases rest.len(),
            {
                let f = rest.pop().unwrap();
                let ghost k = out@.len() as int;
                assert(f == all[k]);
                let o = parse_struct_field(f, renaming, Scope::InterfaceAttr);
                out.push(o);
                assert(out@[k] == o);
            }
        },
        InterfaceMembers::Other => {},
    }
    out
}

/// Decides the GraphQL interface that `input` defines, emitting the
/// diagnostics of a reserved name, of refused fields and arguments, and of
/// the fields as a whole, into `session`; `derive` tells
/// `#[derive(GraphQLInterface)]` from `#[graphql_interface]`.
pub fn expand<E, T: Copy, S: Copy>(input: InterfaceInput<E, T, S>, derive: bool, session: &mut Session<S>) -> (res: InterfaceExpansion<E, T, S>)
    requires
        old(session).state().depth > 0,
        members_defined(input.members, fields_renaming(input.attr)),
    ensures
        final(session).state().depth == old(session).state().depth,
        input.members is Other ==> final(session).state() == old(session).state() && (res matches InterfaceExpansion::Failed {
            span,
            msg,
        } && span == input.span && msg@ == if derive {
            scoped_message(Scope::InterfaceDerive, NOT_A_STRUCT@)
        } else {
            scoped_message(Scope::InterfaceAttr, NOT_TRAIT_OR_STRUCT@)
        }),
        !(input.members is Other) ==> {
            let start = old(session).state().errors;
            let e = final(session).state().errors;
            if start.len() > 0 || name_reserved(input) {
                &&& res is Aborted
                &&& e.len() == start.len() + if name_reserved(input) { 1int } else { 0int }
                &&& e.take(start.len() as int) == start
                &&& name_reserved(input) ==> is_reserved_diag(e.last(), input.name_span)
            } else {
                exists|outs: Seq<FieldOutcome<E, T, S>>| #[trigger]
                    members_ok(input.members, fields_renaming(input.attr), outs) && {
                        let errs = fields_diags(outs);
                        if errs.len() > 0 {
                            e == errs && res is Aborted
                        } else {
                            &&& check_ok(e, def_names(fields_defs(outs)), input.span, checks_scope(derive))
                            &&& (e.len() > 0 ==> res is Aborted)
                            &&& (e.len() == 0 ==> (res matches InterfaceExpansion::Done(def) && interface_def_ok(
                                input,
                                outs,
                                def,
                            )))
                        }
                    }
            }
        },
{
    let ghost whole = input;
    let InterfaceInput { attr, ident, name_span, span, generics, members } = input;
    if let InterfaceMembers::Other = members {
        let msg = if derive {
            Scope::InterfaceDerive.custom_error_message(NOT_A_STRUCT)
        } else {
            Scope::InterfaceAttr.custom_error_message(NOT_TRAIT_OR_STRUCT)
        };
        return InterfaceExpansion::Failed { span, msg };
    }
    let ghost start = session.state();
    let renaming = attr.renaming();
    let TypeAttr {
        name,
        description,
        context,
        scalar,
        implemented_for,
        implements,
        alias,
        asyncness: _,
        rename_fields: _,
        is_internal,
    } = attr;
    let (name, reserved) = graphql_name(name, ident.as_str(), is_internal, name_span, Scope::InterfaceAttr);
    if let Some(d) = reserved {
        session.emit(d);
    }
    if session.abort_if_dirty() == Control::Abort {
        proof {
            assert(session.state().errors.take(start.errors.len() as int) =~= start.errors);
        }
        return InterfaceExpansion::Aborted;
    }
    let outs = parse_members(members, renaming);
    let ghost outs_view = outs@;
    let scope = if derive {
        Scope::InterfaceDerive
    } else {
        Scope::InterfaceAttr
    };
    let fields = match finish_fields(outs, span, scope, session) {
        None => {
            assert(start.errors + fields_diags(outs_view) =~= fields_diags(outs_view));
            return InterfaceExpansion::Aborted;
        },
        Some(f) => f,
    };
    assert(start.errors + fields_diags(outs_view) =~= fields_diags(outs_view));
    let context = context_of(context, &fields);
    let alias_ref: Option<&str> = match &alias {
        Some(a) => Some(a.as_str()),
        None => None,
    };
    let (enum_ident, enum_alias_ident) = enum_idents(ident.as_str(), alias_ref);
    let def = InterfaceDefinition {
        name,
        description,
        context,
        scalar,
        fields,
        implemented_for,
        implements,
        enum_ident,
        enum_alias_ident,
        generics,
    };
    assert(match alias_ref { Some(a) => Some(a@), None => None::<Seq<char>> } == opt_str_view(whole.attr.alias));
    assert(interface_def_ok(whole, outs_view, def));
    InterfaceExpansion::Done(def)
}

} // verus!

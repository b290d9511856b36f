//! GraphQL objects: `#[graphql_object]` (and `#[graphql_subscription]`) on
//! an `impl` block, and `#[derive(GraphQLObject)]` on a struct; the
//! decisions that turn methods and struct fields into the object's fields.
use vstd::prelude::*;

use crate::definition::{
    context_of, def_names, def_views, fields_defs, fields_diags, finish_fields, first_context, graphql_name,
    method_field_defined, method_field_ok, parse_method_field, parse_struct_field, check_ok, struct_field_defined,
    struct_field_ok, FieldDef, FieldOutcome, MethodFieldInput, StructFieldInput,
};
use crate::diagnostic::{is_reserved_diag, is_scoped_diag, scoped_message, Diagnostic, Scope};
use crate::graphql_interface::fields_renaming;
use crate::rename::Policy;
use crate::session::{Control, Session};
use crate::text::{starts_with, unraw_spec};
use crate::type_attr::{TypeAttr, TypeRef};

verus! {

/// Message of the error about an `impl` block whose type has no identifier.
pub const NO_TYPE_IDENT: &'static str = "could not determine ident for the `impl` type";

/// Message of the error about deriving an object on something else than a
/// struct.
pub const NOT_A_STRUCT: &'static str = "can only be derived for structs";

/// Message of the diagnostic about a struct whose fields are not named.
pub const ONLY_NAMED_FIELDS: &'static str = "only named fields are allowed";

/// An `impl` block under `#[graphql_object]` or `#[graphql_subscription]`.
pub struct ObjectImplInput<E, T, S> {
    /// Its completed attribute arguments.
    pub attr: TypeAttr<T>,
    /// The text of the topmost identifier of its type, if it has one.
    pub type_ident: Option<String>,
    /// Where a name starting with `__` is reported: the explicit name if
    /// there is one, else the type's identifier.
    pub name_span: S,
    /// Where its type is.
    pub type_span: S,
    /// Its methods, in order (its other items are no fields).
    pub methods: Vec<MethodFieldInput<E, T, S>>,
}

/// A GraphQL object, ready for code generation.
pub struct ObjectDefinition<E, T> {
    pub name: String,
    pub description: Option<String>,
    /// The context type; `None` for the unit type.
    pub context: Option<T>,
    pub scalar: Option<T>,
    pub fields: Vec<FieldDef<E, T>>,
    /// The interfaces it implements.
    pub interfaces: Vec<TypeRef<T>>,
}

/// What expanding an object ends with.
pub enum ObjectExpansion<E, T, S> {
    /// Diagnostics were emitted: the macro stops.
    Aborted,
    /// The macro fails with this message, pointing at `span`.
    Failed { span: S, msg: String },
    /// The GraphQL object to generate code for.
    Done(ObjectDefinition<E, T>),
}

/// The GraphQL name of an object: the explicit one, or the identifier
/// `ident`.
pub open spec fn object_name<T>(attr: TypeAttr<T>, ident: Seq<char>) -> Seq<char> {
    match attr.name {
        Some(n) => n@,
        None => unraw_spec(ident),
    }
}

/// Whether the name of an object is refused.
pub open spec fn object_name_reserved<T>(attr: TypeAttr<T>, ident: Seq<char>) -> bool {
    !attr.is_internal && starts_with(object_name(attr, ident), "__"@)
}

/// Whether `def` is the object that `attr` and the field outcomes `outs`
/// give, its context found among the fields' arguments when `search` and
/// none is explicit.
pub open spec fn object_def_ok<E, T, S>(
    attr: TypeAttr<T>,
    ident: Seq<char>,
    outs: Seq<FieldOutcome<E, T, S>>,
    search: bool,
    def: ObjectDefinition<E, T>,
) -> bool {
    &&& def.name@ == object_name(attr, ident)
    &&& def.description == attr.description
    &&& def.context == match attr.context {
        Some(c) => Some(c),
        None => if search { first_context(fields_defs(outs)) } else { None },
    }
    &&& def.scalar == attr.scalar
    &&& def_views(def.fields@) == fields_defs(outs)
    &&& def.interfaces@ == attr.implements@
}

/// Whether `e` and `res` are what the field outcomes `outs` give at the
/// end of an object's expansion, with no diagnostic emitted before.
pub open spec fn object_fields_ok<E, T, S>(
    attr: TypeAttr<T>,
    ident: Seq<char>,
    span: S,
    scope: Scope,
    outs: Seq<FieldOutcome<E, T, S>>,
    search: bool,
    e: Seq<Diagnostic<S>>,
    res: ObjectExpansion<E, T, S>,
) -> bool {
    let errs = fields_diags(outs);
    if errs.len() > 0 {
        e == errs && res is Aborted
    } else {
        &&& check_ok(e, def_names(fields_defs(outs)), span, scope)
        &&& (e.len() > 0 ==> res is Aborted)
        &&& (e.len() == 0 ==> (res matches ObjectExpansion::Done(def) && object_def_ok(attr, ident, outs, search, def)))
    }
}

/// Whether `outs` are what the `methods` become, in order.
pub open spec fn methods_ok<E, T, S>(
    methods: Seq<MethodFieldInput<E, T, S>>,
    renaming: Policy,
    async_only: bool,
    outs: Seq<FieldOutcome<E, T, S>>,
) -> bool {
    outs.len() == methods.len() && forall|i: int|
        0 <= i < methods.len() ==> method_field_ok(#[trigger] methods[i], renaming, Scope::ObjectAttr, async_only, outs[i])
}

/// Decides each of the `methods`, in order.
fn parse_methods<E, T, S: Copy>(methods: Vec<MethodFieldInput<E, T, S>>, renaming: Policy, async_only: bool) -> (res: Vec<
    FieldOutcome<E, T, S>,
>)
    requires
        forall|i: int| 0 <= i < methods@.len() ==> method_field_defined(#[trigger] methods@[i], renaming, async_only),
    ensures
        methods_ok(methods@, renaming, async_only, res@),
{
    let ghost all = methods@;
    let n = methods.len();
    let mut rest = crate::attr::reversed(methods);
    let mut out: Vec<FieldOutcome<E, T, S>> = Vec::new();
    while rest.len() > 0
        invariant
            out@.len() + rest@.len() == n,
            n == all.len(),
            forall|j: int| 0 <= j < rest@.len() ==> #[trigger] rest@[j] == all[n - 1 - j],
            forall|i: int| 0 <= i < all.len() ==> method_field_defined(#[trigger] all[i], renaming, async_only),
            forall|i: int|
                0 <= i < out@.len() ==> method_field_ok(#[trigger] all[i], renaming, Scope::ObjectAttr, async_only, out@[i]),
        decreases rest.len(),
    {
        let f = rest.pop().unwrap();
        let ghost k = out@.len() as int;
        assert(f == all[k]);
        let o = parse_method_field(f, renaming, Scope::ObjectAttr, async_only);
        out.push(o);
        assert(out@[k] == o);
    }
    out
}

/// Decides the GraphQL object that an `impl` block defines, emitting the
/// diagnostics of a reserved name, of refused fields and arguments, and of
/// the fields as a whole, into `session`; `async_only` holds for a
/// subscription, whose resolvers must be async.
pub fn expand_impl<E, T: Copy, S: Copy>(input: ObjectImplInput<E, T, S>, async_only: bool, session: &mut Session<S>) -> (res: ObjectExpansion<E, T, S>)
    requires
        old(session).state().depth > 0,
        forall|i: int|
            0 <= i < input.methods@.len() ==> method_field_defined(
                #[trigger] input.methods@[i],
                fields_renaming(input.attr),
                async_only,
            ),
    ensures
        final(session).state().depth == old(session).state().depth,
        input.type_ident is None ==> final(session).state() == old(session).state() && (res matches ObjectExpansion::Failed {
            span,
            msg,
        } && span == input.type_span && msg@ == scoped_message(Scope::ObjectAttr, NO_TYPE_IDENT@)),
        input.type_ident matches Some(id) ==> {
            let start = old(session).state().errors;
            let e = final(session).state().errors;
            let reserved = object_name_reserved(input.attr, id@);
            if start.len() > 0 || reserved {
                &&& res is Aborted
                &&& e.len() == start.len() + if reserved { 1int } else { 0int }
                &&& e.take(start.len() as int) == start
                &&& reserved ==> is_reserved_diag(e.last(), input.name_span)
            } else {
                exists|outs: Seq<FieldOutcome<E, T, S>>| #[trigger]
                    methods_ok(input.methods@, fields_renaming(input.attr), async_only, outs) && object_fields_ok(
                        input.attr,
                        id@,
                        input.type_span,
                        Scope::ObjectAttr,
                        outs,
                        true,
                        e,
                        res,
                    )
            }
        },
{
    let ghost whole = input;
    let ObjectImplInput { attr, type_ident, name_span, type_span, methods } = input;
    let ident = match type_ident {
        None => {
            return ObjectExpansion::Failed {
                span: type_span,
                msg: Scope::ObjectAttr.custom_error_message(NO_TYPE_IDENT),
            };
        },
        Some(i) => i,
    };
    let ghost start = session.state();
    let renaming = attr.renaming();
    let ghost attr_v = attr;
    let TypeAttr {
        name,
        description,
        context,
        scalar,
        implemented_for: _,
        implements,
        alias: _,
        asyncness: _,
        rename_fields: _,
        is_internal,
    } = attr;
    let (name, reserved) = graphql_name(name, ident.as_str(), is_internal, name_span, Scope::ObjectAttr);
    if let Some(d) = reserved {
        session.emit(d);
    }
    if session.abort_if_dirty() == Control::Abort {
        proof {
            assert(session.state().errors.take(start.errors.len() as int) =~= start.errors);
        }
        return ObjectExpansion::Aborted;
    }
    let outs = parse_methods(methods, renaming, async_only);
    let ghost outs_view = outs@;
    let fields = match finish_fields(outs, type_span, Scope::ObjectAttr, session) {
        None => {
            assert(start.errors + fields_diags(outs_view) =~= fields_diags(outs_view));
            return ObjectExpansion::Aborted;
        },
        Some(f) => f,
    };
    assert(start.errors + fields_diags(outs_view) =~= fields_diags(outs_view));
    let context = context_of(context, &fields);
    let def = ObjectDefinition { name, description, context, scalar, fields, interfaces: implements };
    assert(object_def_ok(attr_v, ident@, outs_view, true, def));
    ObjectExpansion::Done(def)
}

/// The fields of a struct deriving an object.
pub enum ObjectStructFields<S> {
    /// Its named fields, in order.
    Named(Vec<StructFieldInput<S>>),
    /// A tuple or unit struct.
    Unnamed,
}

/// A Rust item under `#[derive(GraphQLObject)]`.
pub struct ObjectStructInput<T, S> {
    /// Its completed `#[graphql]` arguments.
    pub attr: TypeAttr<T>,
    /// The text of its identifier.
    pub ident: String,
    /// Where a name starting with `__` is reported: the explicit name if
    /// there is one, else the identifier.
    pub name_span: S,
    /// Where the whole item is.
    pub span: S,
    /// Its fields; `None` when it is not a struct.
    pub fields: Option<ObjectStructFields<S>>,
}

/// Whether `outs` are what the struct fields `fs` become, in order.
pub open spec fn struct_fields_ok<E, T, S>(fs: Seq<StructFieldInput<S>>, renaming: Policy, outs: Seq<FieldOutcome<E, T, S>>) -> bool {
    outs.len() == fs.len() && forall|i: int|
        0 <= i < fs.len() ==> struct_field_ok(#[trigger] fs[i], renaming, Scope::ObjectDerive, outs[i])
}

/// Decides each of the struct fields `fs`, in order.
fn parse_struct_fields<E, T, S: Copy>(fs: Vec<StructFieldInput<S>>, renaming: Policy) -> (res: Vec<FieldOutcome<E, T, S>>)
    requires
        forall|i: int| 0 <= i < fs@.len() ==> struct_field_defined(#[trigger] fs@[i], renaming),
    ensures
        struct_fields_ok(fs@, renaming, res@),
{
    let ghost all = fs@;
    let n = fs.len();
    let mut rest = crate::attr::reversed(fs);
    let mut out: Vec<FieldOutcome<E, T, S>> = Vec::new();
    while rest.len() > 0
        invariant
            out@.len() + rest@.len() == n,
            n == all.len(),
            forall|j: int| 0 <= j < rest@.len() ==> #[trigger] rest@[j] == all[n - 1 - j],
            forall|i: int| 0 <= i < all.len() ==> struct_field_defined(#[trigger] all[i], renaming),
            forall|i: int| 0 <= i < out@.len() ==> struct_field_ok(#[trigger] all[i], renaming, Scope::ObjectDerive, out@[i]),
        decreases rest.len(),
    {
        let f = rest.pop().unwrap();
        let ghost k = out@.len() as int;
        assert(f == all[k]);
        let o = parse_struct_field(f, renaming, Scope::ObjectDerive);
        out.push(o);
        assert(out@[k] == o);
    }
    out
}

/// Decides the GraphQL object that a struct derives, emitting the
/// diagnostics of a reserved name, of unnamed fields, of refused fields,
/// and of the fields as a whole, into `session`.
pub fn expand_struct<E, T: Copy, S: Copy>(input: ObjectStructInput<T, S>, session: &mut Session<S>) -> (res: ObjectExpansion<E, T, S>)
    requires
        old(session).state().depth > 0,
        input.fields matches Some(ObjectStructFields::Named(fs)) ==> forall|i: int|
            0 <= i < fs@.len() ==> struct_field_defined(#[trigger] fs@[i], fields_renaming(input.attr)),
    ensures
        final(session).state().depth == old(session).state().depth,
        input.fields is None ==> final(session).state() == old(session).state() && (res matches ObjectExpansion::Failed {
            span,
            msg,
        } && span == input.span && msg@ == scoped_message(Scope::ObjectDerive, NOT_A_STRUCT@)),
        input.fields matches Some(fields) ==> {
            let start = old(session).state().errors;
            let e = final(session).state().errors;
            let reserved = object_name_reserved(input.attr, input.ident@);
            if start.len() > 0 || reserved {
                &&& res is Aborted
                &&& e.len() == start.len() + if reserved { 1int } else { 0int }
                &&& e.take(start.len() as int) == start
                &&& reserved ==> is_reserved_diag(e.last(), input.name_span)
            } else {
                match fields {
                    ObjectStructFields::Unnamed => {
                        &&& res is Aborted
                        &&& e.len() == 1
                        &&& is_scoped_diag(e[0], Scope::ObjectDerive, input.span, ONLY_NAMED_FIELDS@)
                    },
                    ObjectStructFields::Named(fs) => exists|outs: Seq<FieldOutcome<E, T, S>>| #[trigger]
                        struct_fields_ok(fs@, fields_renaming(input.attr), outs) && object_fields_ok(
                            input.attr,
                            input.ident@,
                            input.span,
                            Scope::ObjectDerive,
                            outs,
                            false,
                            e,
                            res,
                        ),
                }
            }
        },
{
    let ghost whole = input;
    let ObjectStructInput { attr, ident, name_span, span, fields } = input;
    let fields = match fields {
        None => {
            return ObjectExpansion::Failed { span, msg: Scope::ObjectDerive.custom_error_message(NOT_A_STRUCT) };
        },
        Some(f) => f,
    };
    let ghost start = session.state();
    let renaming = attr.renaming();
    let ghost attr_v = attr;
    let TypeAttr {
        name,
        description,
        context,
        scalar,
        implemented_for: _,
        implements,
        alias: _,
        asyncness: _,
        rename_fields: _,
        is_internal,
    } = attr;
    let (name, reserved) = graphql_name(name, ident.as_str(), is_internal, name_span, Scope::ObjectDerive);
    if let Some(d) = reserved {
        session.emit(d);
    }
    if session.abort_if_dirty() == Control::Abort {
        proof {
            assert(session.state().errors.take(start.errors.len() as int) =~= start.errors);
        }
        return ObjectExpansion::Aborted;
    }
    let fs = match fields {
        ObjectStructFields::Unnamed => {
            session.emit(Scope::ObjectDerive.custom(span, ONLY_NAMED_FIELDS));
            return ObjectExpansion::Aborted;
        },
        ObjectStructFields::Named(fs) => fs,
    };
    let outs = parse_struct_fields(fs, renaming);
    let ghost outs_view = outs@;
    let fields = match finish_fields(outs, span, Scope::ObjectDerive, session) {
        None => {
            assert(start.errors + fields_diags(outs_view) =~= fields_diags(outs_view));
            return ObjectExpansion::Aborted;
        },
        Some(f) => f,
    };
    assert(start.errors + fields_diags(outs_view) =~= fields_diags(outs_view));
    let def = ObjectDefinition { name, description, context, scalar, fields, interfaces: implements };
    assert(object_def_ok(attr_v, ident@, outs_view, false, def));
    ObjectExpansion::Done(def)
}

} // verus!

//! GraphQL fields defined by Rust methods and struct fields: the decisions
//! that turn them into field definitions, their arguments, the diagnostics
//! emitted on the way, and the checks on a type's fields as a whole.
use vstd::prelude::*;

use crate::arg::{
    arg_key_text, method_arg_defined, method_arg_error, method_arg_ok, parse_method_arg, starts_with_double_underscore, ArgAttr, ArgKey,
    MethodArgError, MethodArgKind,
};
use crate::attr::{disallowed_message, disallowed_message_spec, reversed};
use crate::diagnostic::{is_reserved_diag, is_scoped_diag, scoped_message, spec_link_of, Diagnostic, Scope};
use crate::field::{all_different, pairwise_distinct, FieldAttr};
use crate::rename::{apply_defined, apply_spec, Policy};
use crate::session::{Control, Session};
use crate::text::{starts_with, unraw, unraw_spec};

verus! {

/// Message of the diagnostic about an argument that is not a single
/// identifier and has no explicit name.
pub const NOT_SINGLE_IDENT: &'static str = "method argument should be declared as a single identifier";

/// Note of the diagnostic about an argument that is not a single identifier.
pub const NOT_SINGLE_IDENT_NOTE: &'static str = "use `#[graphql(name = ...)]` attribute to specify custom argument's name without requiring it being a single identifier";

/// Message of the diagnostic about a trait method with a default body.
pub const DEFAULT_IMPL: &'static str = "trait method can't have default implementation";

/// Message of the diagnostic about an unnamed struct field.
pub const UNNAMED_FIELD: &'static str = "expected named struct field";

/// Message of the diagnostic about a synchronous resolver where only
/// asynchronous ones are supported.
pub const NO_SYNC_RESOLVERS: &'static str = "synchronous resolvers are not supported";

/// Note of the diagnostic about a synchronous resolver.
pub const NO_SYNC_RESOLVERS_NOTE: &'static str = "Specify that this function is async: `async fn foo()`";

/// Message of the diagnostic about a method whose receiver is not `&self`.
pub const INVALID_RECEIVER: &'static str = "method should have a shared reference receiver `&self`, or no receiver at all";

/// Message of the diagnostic about a type without fields.
pub const NO_FIELDS: &'static str = "must have at least one field";

/// Message of the diagnostic about fields with the same name.
pub const FIELDS_NOT_DIFFERENT: &'static str = "must have a different name for each field";

/// Where the regular arguments of a method argument's attributes were
/// given (any span where one was not given).
pub struct ArgSpans<S> {
    pub name: S,
    pub description: S,
    pub default: S,
}

/// A Rust method argument, as far as its GraphQL argument is concerned.
pub struct MethodArgInput<E, C, S> {
    /// Its `#[graphql]` arguments, merged and checked, or the diagnostic
    /// refusing them.
    pub attr: Result<ArgAttr<E>, Diagnostic<S>>,
    /// Where the arguments of `attr` were given.
    pub spans: ArgSpans<S>,
    /// The text of its identifier, if its pattern is a single identifier.
    pub ident: Option<String>,
    /// Where its pattern is.
    pub pat_span: S,
    /// Its type without reference: the context type, if it is the context.
    pub context_ty: C,
}

/// The identifier of the argument `a`, viewed.
pub open spec fn arg_ident<E, C, S>(a: MethodArgInput<E, C, S>) -> Option<Seq<char>> {
    match a.ident {
        Some(s) => Some(s@),
        None => None,
    }
}

/// Where the regular argument `k` was given.
pub open spec fn key_span<S>(spans: ArgSpans<S>, k: ArgKey) -> S {
    match k {
        ArgKey::Name => spans.name,
        ArgKey::Description => spans.description,
        _ => spans.default,
    }
}

/// Whether `d` reports the error `e` of an argument in `scope`; `named`
/// tells whether the argument has an explicit name.
pub open spec fn arg_error_diag_ok<S>(scope: Scope, spans: ArgSpans<S>, pat_span: S, named: bool, e: MethodArgError, d: Diagnostic<S>) -> bool {
    match e {
        MethodArgError::Disallowed(k) => is_scoped_diag(d, scope, key_span(spans, k), disallowed_message_spec(arg_key_text(k))),
        MethodArgError::NotSingleIdent => {
            &&& d.first == pat_span
            &&& d.last == pat_span
            &&& d.msg@ == scoped_message(scope, NOT_SINGLE_IDENT@)
            &&& d.notes@.len() == 2
            &&& d.notes@[0]@ == spec_link_of(scope)
            &&& d.notes@[1]@ == NOT_SINGLE_IDENT_NOTE@
        },
        MethodArgError::DoubleUnderscore => is_reserved_diag(d, if named { spans.name } else { pat_span }),
    }
}

/// The inputs on which classifying the argument `a` is defined.
pub open spec fn arg_input_defined<E, C, S>(a: MethodArgInput<E, C, S>, renaming: Policy) -> bool {
    match a.attr {
        Ok(at) => method_arg_defined(at, arg_ident(a), renaming),
        Err(_) => true,
    }
}

/// Whether `res` is what the argument `a` becomes: its kind, or the
/// diagnostic refusing it.
pub open spec fn arg_result_ok<E, C, S>(
    a: MethodArgInput<E, C, S>,
    renaming: Policy,
    scope: Scope,
    res: Result<MethodArgKind<E, C>, Diagnostic<S>>,
) -> bool {
    match a.attr {
        Err(d) => res == Err::<MethodArgKind<E, C>, Diagnostic<S>>(d),
        Ok(at) => match res {
            Ok(k) => method_arg_ok(at, arg_ident(a), renaming, a.context_ty, Ok(k)),
            Err(d) => match method_arg_error(at, arg_ident(a), renaming) {
                Some(e) => arg_error_diag_ok(scope, a.spans, a.pat_span, at.name is Some, e, d),
                None => false,
            },
        },
    }
}

/// The diagnostic reporting the error `e` of a method argument in `scope`.
pub fn arg_error_diagnostic<S: Copy>(e: MethodArgError, scope: Scope, spans: ArgSpans<S>, pat_span: S, named: bool) -> (res: Diagnostic<S>)
    ensures
        arg_error_diag_ok(scope, spans, pat_span, named, e, res),
{
    match e {
        MethodArgError::Disallowed(k) => {
            let (text, span) = match k {
                ArgKey::Name => ("name", spans.name),
                ArgKey::Description => ("description", spans.description),
                ArgKey::Default => ("default", spans.default),
                ArgKey::Context => ("context", spans.default),
                ArgKey::Executor => ("executor", spans.default),
            };
            let msg = disallowed_message(text);
            scope.custom(span, msg.as_str())
        },
        MethodArgError::NotSingleIdent => {
            scope.custom(pat_span, NOT_SINGLE_IDENT).note(String::from_str(NOT_SINGLE_IDENT_NOTE))
        },
        MethodArgError::DoubleUnderscore => {
            scope.no_double_underscore(if named { spans.name } else { pat_span })
        },
    }
}

/// Decides what a Rust method argument becomes, in `scope`, given the
/// `renaming` of its field's definition.
pub fn parse_method_argument<E, C, S: Copy>(a: MethodArgInput<E, C, S>, renaming: Policy, scope: Scope) -> (res: Result<
    MethodArgKind<E, C>,
    Diagnostic<S>,
>)
    requires
        arg_input_defined(a, renaming),
    ensures
        arg_result_ok(a, renaming, scope, res),
{
    let ghost whole = a;
    let MethodArgInput { attr, spans, ident, pat_span, context_ty } = a;
    let at = match attr {
        Err(d) => return Err(d),
        Ok(at) => at,
    };
    let named = at.name.is_some();
    let id: Option<&str> = match &ident {
        Some(s) => Some(s.as_str()),
        None => None,
    };
    let ghost atv = at;
    assert(match id { Some(p) => Some(p@), None => None::<Seq<char>> } == arg_ident(whole));
    assert(whole.attr == Ok::<ArgAttr<E>, Diagnostic<S>>(atv));
    match parse_method_arg(at, id, renaming, context_ty) {
        Ok(k) => {
            assert(method_arg_ok(atv, arg_ident(whole), renaming, whole.context_ty, Ok(k)));
            Ok(k)
        },
        Err(e) => {
            let d = arg_error_diagnostic(e, scope, spans, pat_span, named);
            Err(d)
        },
    }
}

/// Decides what each of the arguments `args` becomes, in order.
pub fn parse_arguments<E, C, S: Copy>(args: Vec<MethodArgInput<E, C, S>>, renaming: Policy, scope: Scope) -> (res: Vec<
    Result<MethodArgKind<E, C>, Diagnostic<S>>,
>)
    requires
        forall|i: int| 0 <= i < args@.len() ==> arg_input_defined(#[trigger] args@[i], renaming),
    ensures
        res@.len() == args@.len(),
        forall|i: int| 0 <= i < args@.len() ==> arg_result_ok(#[trigger] args@[i], renaming, scope, res@[i]),
{
    let ghost all = args@;
    let n = args.len();
    let mut rest = reversed(args);
    let mut out: Vec<Result<MethodArgKind<E, C>, Diagnostic<S>>> = Vec::new();
    while rest.len() > 0
        invariant
            out@.len() + rest@.len() == n,
            n == all.len(),
            forall|j: int| 0 <= j < rest@.len() ==> #[trigger] rest@[j] == all[n - 1 - j],
            forall|i: int| 0 <= i < all.len() ==> arg_input_defined(#[trigger] all[i], renaming),
            forall|i: int| 0 <= i < out@.len() ==> arg_result_ok(#[trigger] all[i], renaming, scope, out@[i]),
        decreases rest.len(),
    {
        let a = rest.pop().unwrap();
        let ghost k = out@.len() as int;
        assert(a == all[k]);
        let r = parse_method_argument(a, renaming, scope);
        out.push(r);
        assert(out@[k] == r);
    }
    out
}

/// A GraphQL field, as decided from its Rust method or struct field, with
/// what each of its arguments became (`None` for a struct field).
pub struct FieldOut<E, C, S> {
    pub name: String,
    pub description: Option<String>,
    pub deprecated: Option<Option<String>>,
    pub arguments: Option<Vec<Result<MethodArgKind<E, C>, Diagnostic<S>>>>,
    /// Whether the method that resolves it takes a receiver.
    pub has_receiver: bool,
    /// Whether it is resolved asynchronously.
    pub is_async: bool,
}

/// What a Rust method or struct field becomes.
pub enum FieldOutcome<E, C, S> {
    /// A GraphQL field.
    Field(FieldOut<E, C, S>),
    /// Nothing: it is ignored.
    Ignored,
    /// Nothing, and this diagnostic is emitted.
    Refused(Diagnostic<S>),
}

/// A Rust struct field, as far as its GraphQL field is concerned.
pub struct StructFieldInput<S> {
    /// Its `#[graphql]` arguments, completed, or the diagnostic refusing
    /// them.
    pub attr: Result<FieldAttr, Diagnostic<S>>,
    /// The text of its identifier; `None` for an unnamed field.
    pub ident: Option<String>,
    /// Where a name starting with `__` is reported: the explicit name if
    /// there is one, else the identifier.
    pub name_span: S,
    /// Where the field is.
    pub span: S,
}

/// The GraphQL name of a field: the explicit one, or the identifier
/// `ident` renamed.
pub open spec fn field_name(a: FieldAttr, ident: Seq<char>, renaming: Policy) -> Seq<char> {
    match a.name {
        Some(n) => n@,
        None => apply_spec(renaming, unraw_spec(ident)),
    }
}

/// Whether renaming the struct field, where that happens, is defined.
pub open spec fn struct_field_defined<S>(f: StructFieldInput<S>, renaming: Policy) -> bool {
    match (f.attr, f.ident) {
        (Ok(a), Some(i)) => !a.ignore && a.name is None ==> apply_defined(renaming, unraw_spec(i@)),
        _ => true,
    }
}

/// What the struct field `f` becomes in `scope`, given the `renaming` of its
/// type; an unnamed field is refused first.
pub open spec fn struct_field_ok<E, C, S>(f: StructFieldInput<S>, renaming: Policy, scope: Scope, o: FieldOutcome<E, C, S>) -> bool {
    match f.ident {
        None => o matches FieldOutcome::Refused(d) && is_scoped_diag(d, scope, f.span, UNNAMED_FIELD@),
        Some(i) => match f.attr {
            Err(d) => o == FieldOutcome::<E, C, S>::Refused(d),
            Ok(a) => if a.ignore {
                o is Ignored
            } else if starts_with(field_name(a, i@, renaming), "__"@) {
                o matches FieldOutcome::Refused(d) && is_reserved_diag(d, f.name_span)
            } else {
                o matches FieldOutcome::Field(out) && out.name@ == field_name(a, i@, renaming)
                    && out.description == a.description && out.deprecated == a.deprecated && out.arguments is None
                    && !out.has_receiver && !out.is_async
            },
        },
    }
}

/// Decides what a Rust struct field becomes in `scope`, given the
/// `renaming` of its type.
pub fn parse_struct_field<E, C, S: Copy>(f: StructFieldInput<S>, renaming: Policy, scope: Scope) -> (res: FieldOutcome<E, C, S>)
    requires
        struct_field_defined(f, renaming),
    ensures
        struct_field_ok(f, renaming, scope, res),
{
    let ident = match f.ident {
        None => return FieldOutcome::Refused(scope.custom(f.span, UNNAMED_FIELD)),
        Some(i) => i,
    };
    let a = match f.attr {
        Err(d) => return FieldOutcome::Refused(d),
        Ok(a) => a,
    };
    if a.ignore {
        return FieldOutcome::Ignored;
    }
    let name = match a.name {
        Some(n) => n,
        None => {
            let u = unraw(ident.as_str());
            renaming.apply(u.as_str())
        },
    };
    if starts_with_double_underscore(&name) {
        return FieldOutcome::Refused(scope.no_double_underscore(f.name_span));
    }
    FieldOutcome::Field(
        FieldOut {
            name,
            description: a.description,
            deprecated: a.deprecated,
            arguments: None,
            has_receiver: false,
            is_async: false,
        },
    )
}

/// A Rust method, as far as its GraphQL field is concerned.
pub struct MethodFieldInput<E, C, S> {
    /// Its `#[graphql]` arguments, completed, or the diagnostic refusing
    /// them.
    pub attr: Result<FieldAttr, Diagnostic<S>>,
    /// The text of its identifier.
    pub ident: String,
    /// Where a name starting with `__` is reported: the explicit name if
    /// there is one, else the identifier.
    pub name_span: S,
    /// Where its signature is.
    pub sig_span: S,
    /// Whether it is `async`.
    pub is_async: bool,
    /// Whether it takes a receiver (`self` in any form).
    pub has_receiver: bool,
    /// Where its default body is, for a trait method that has one.
    pub default_impl: Option<S>,
    /// Where its receiver is, when that receiver is not `&self` (a `self`,
    /// `mut self`, `&mut self`, or a typed `self`).
    pub bad_receiver: Option<S>,
    /// Its arguments besides the receiver, in order.
    pub arguments: Vec<MethodArgInput<E, C, S>>,
}

/// Whether the method `f` gets past the checks before its name: it is not
/// ignored, has no default body, and is async where only async resolvers
/// are supported.
pub open spec fn method_named<E, C, S>(f: MethodFieldInput<E, C, S>, a: FieldAttr, async_only: bool) -> bool {
    !a.ignore && f.default_impl is None && !(async_only && !f.is_async)
}

/// Whether the method `f` gets to its arguments.
pub open spec fn method_reaches_arguments<E, C, S>(f: MethodFieldInput<E, C, S>, a: FieldAttr, renaming: Policy, async_only: bool) -> bool {
    method_named(f, a, async_only) && !starts_with(field_name(a, f.ident@, renaming), "__"@) && f.bad_receiver is None
}

/// Whether renaming the method, and classifying its arguments, is defined
/// where that happens.
pub open spec fn method_field_defined<E, C, S>(f: MethodFieldInput<E, C, S>, renaming: Policy, async_only: bool) -> bool {
    match f.attr {
        Ok(a) => {
            &&& method_named(f, a, async_only) && a.name is None ==> apply_defined(renaming, unraw_spec(f.ident@))
            &&& method_reaches_arguments(f, a, renaming, async_only) ==> forall|i: int|
                0 <= i < f.arguments@.len() ==> arg_input_defined(#[trigger] f.arguments@[i], renaming)
        },
        Err(_) => true,
    }
}

/// What the method `f` becomes in `scope`, given the `renaming` of its type,
/// and whether only async resolvers are supported.
pub open spec fn method_field_ok<E, C, S>(
    f: MethodFieldInput<E, C, S>,
    renaming: Policy,
    scope: Scope,
    async_only: bool,
    o: FieldOutcome<E, C, S>,
) -> bool {
    match f.attr {
        Err(d) => o == FieldOutcome::<E, C, S>::Refused(d),
        Ok(a) => if a.ignore {
            o is Ignored
        } else if f.default_impl is Some {
            o matches FieldOutcome::Refused(d) && is_scoped_diag(d, scope, f.default_impl->0, DEFAULT_IMPL@)
        } else if async_only && !f.is_async {
            o matches FieldOutcome::Refused(d) && d.first == f.sig_span && d.last == f.sig_span
                && d.msg@ == scoped_message(scope, NO_SYNC_RESOLVERS@) && d.notes@.len() == 2
                && d.notes@[0]@ == spec_link_of(scope) && d.notes@[1]@ == NO_SYNC_RESOLVERS_NOTE@
        } else if starts_with(field_name(a, f.ident@, renaming), "__"@) {
            o matches FieldOutcome::Refused(d) && is_reserved_diag(d, f.name_span)
        } else if f.bad_receiver is Some {
            o matches FieldOutcome::Refused(d) && is_scoped_diag(d, scope, f.bad_receiver->0, INVALID_RECEIVER@)
        } else {
            o matches FieldOutcome::Field(out) && out.name@ == field_name(a, f.ident@, renaming)
                && out.description == a.description && out.deprecated == a.deprecated
                && out.has_receiver == f.has_receiver && out.is_async == f.is_async && (out.arguments matches Some(
                args,
            ) && args@.len() == f.arguments@.len() && forall|i: int|
                0 <= i < args@.len() ==> arg_result_ok(#[trigger] f.arguments@[i], renaming, scope, args@[i]))
        },
    }
}

/// Decides what a Rust method becomes in `scope`, given the `renaming` of
/// its type, and whether only async resolvers are supported.
pub fn parse_method_field<E, C, S: Copy>(f: MethodFieldInput<E, C, S>, renaming: Policy, scope: Scope, async_only: bool) -> (res: FieldOutcome<E, C, S>)
    requires
        method_field_defined(f, renaming, async_only),
    ensures
        method_field_ok(f, renaming, scope, async_only, res),
{
    let ghost whole = f;
    let a = match f.attr {
        Err(d) => return FieldOutcome::Refused(d),
        Ok(a) => a,
    };
    if a.ignore {
        return FieldOutcome::Ignored;
    }
    if let Some(span) = f.default_impl {
        return FieldOutcome::Refused(scope.custom(span, DEFAULT_IMPL));
    }
    if async_only && !f.is_async {
        return FieldOutcome::Refused(
            scope.custom(f.sig_span, NO_SYNC_RESOLVERS).note(String::from_str(NO_SYNC_RESOLVERS_NOTE)),
        );
    }
    let name = match a.name {
        Some(n) => n,
        None => {
            let u = unraw(f.ident.as_str());
            renaming.apply(u.as_str())
        },
    };
    if starts_with_double_underscore(&name) {
        return FieldOutcome::Refused(scope.no_double_underscore(f.name_span));
    }
    if let Some(span) = f.bad_receiver {
        return FieldOutcome::Refused(scope.custom(span, INVALID_RECEIVER));
    }
    let arguments = parse_arguments(f.arguments, renaming, scope);
    FieldOutcome::Field(
        FieldOut {
            name,
            description: a.description,
            deprecated: a.deprecated,
            arguments: Some(arguments),
            has_receiver: f.has_receiver,
            is_async: f.is_async,
        },
    )
}

/// The kinds of the accepted arguments among `args`, in order.
pub open spec fn arg_oks<E, C, S>(args: Seq<Result<MethodArgKind<E, C>, Diagnostic<S>>>) -> Seq<MethodArgKind<E, C>>
    decreases args.len(),
{
    if args.len() == 0 {
        Seq::empty()
    } else {
        match args.last() {
            Ok(k) => arg_oks(args.drop_last()).push(k),
            Err(_) => arg_oks(args.drop_last()),
        }
    }
}

/// The diagnostics of the refused arguments among `args`, in order.
pub open spec fn arg_errs<E, C, S>(args: Seq<Result<MethodArgKind<E, C>, Diagnostic<S>>>) -> Seq<Diagnostic<S>>
    decreases args.len(),
{
    if args.len() == 0 {
        Seq::empty()
    } else {
        match args.last() {
            Ok(_) => arg_errs(args.drop_last()),
            Err(d) => arg_errs(args.drop_last()).push(d),
        }
    }
}

/// The diagnostics that the outcome `o` of a field emits.
pub open spec fn outcome_diags<E, C, S>(o: FieldOutcome<E, C, S>) -> Seq<Diagnostic<S>> {
    match o {
        FieldOutcome::Refused(d) => seq![d],
        FieldOutcome::Field(f) => match f.arguments {
            Some(a) => arg_errs(a@),
            None => Seq::empty(),
        },
        FieldOutcome::Ignored => Seq::empty(),
    }
}

/// The diagnostics that the outcomes `outs` of fields emit, in order.
pub open spec fn fields_diags<E, C, S>(outs: Seq<FieldOutcome<E, C, S>>) -> Seq<Diagnostic<S>>
    decreases outs.len(),
{
    if outs.len() == 0 {
        Seq::empty()
    } else {
        fields_diags(outs.drop_last()) + outcome_diags(outs.last())
    }
}

/// A GraphQL field, ready for code generation: its arguments are `None`
/// for a struct field.
pub struct FieldDef<E, C> {
    pub name: String,
    pub description: Option<String>,
    pub deprecated: Option<Option<String>>,
    pub arguments: Option<Vec<MethodArgKind<E, C>>>,
    /// Whether the method that resolves it takes a receiver.
    pub has_receiver: bool,
    /// Whether it is resolved asynchronously.
    pub is_async: bool,
}

/// The view of a field definition: its arguments as a sequence.
pub struct FieldDefView<E, C> {
    pub name: String,
    pub description: Option<String>,
    pub deprecated: Option<Option<String>>,
    pub arguments: Option<Seq<MethodArgKind<E, C>>>,
    pub has_receiver: bool,
    pub is_async: bool,
}

impl<E, C> FieldDef<E, C> {
    pub open spec fn view(&self) -> FieldDefView<E, C> {
        FieldDefView {
            name: self.name,
            description: self.description,
            deprecated: self.deprecated,
            arguments: match self.arguments {
                Some(v) => Some(v@),
                None => None,
            },
            has_receiver: self.has_receiver,
            is_async: self.is_async,
        }
    }
}

/// The views of `defs`.
pub open spec fn def_views<E, C>(defs: Seq<FieldDef<E, C>>) -> Seq<FieldDefView<E, C>> {
    defs.map_values(|d: FieldDef<E, C>| d.view())
}

/// The definition that the field `f` gives: the accepted arguments kept.
pub open spec fn def_of<E, C, S>(f: FieldOut<E, C, S>) -> FieldDefView<E, C> {
    FieldDefView {
        name: f.name,
        description: f.description,
        deprecated: f.deprecated,
        arguments: match f.arguments {
            Some(a) => Some(arg_oks(a@)),
            None => None,
        },
        has_receiver: f.has_receiver,
        is_async: f.is_async,
    }
}

/// The definitions that the outcomes `outs` give, in order.
pub open spec fn fields_defs<E, C, S>(outs: Seq<FieldOutcome<E, C, S>>) -> Seq<FieldDefView<E, C>>
    decreases outs.len(),
{
    if outs.len() == 0 {
        Seq::empty()
    } else {
        match outs.last() {
            FieldOutcome::Field(f) => fields_defs(outs.drop_last()).push(def_of(f)),
            _ => fields_defs(outs.drop_last()),
        }
    }
}

/// The names of the definitions `defs`.
pub open spec fn def_names<E, C>(defs: Seq<FieldDefView<E, C>>) -> Seq<Seq<char>> {
    defs.map_values(|d: FieldDefView<E, C>| d.name@)
}

/// Emits the diagnostics of the refused arguments among `args`, in order,
/// and keeps the kinds of the others.
fn collect_arguments<E, C, S>(args: Vec<Result<MethodArgKind<E, C>, Diagnostic<S>>>, session: &mut Session<S>) -> (res: Vec<
    MethodArgKind<E, C>,
>)
    requires
        old(session).state().depth > 0,
    ensures
        final(session).state().depth == old(session).state().depth,
        final(session).state().errors == old(session).state().errors + arg_errs(args@),
        res@ == arg_oks(args@),
{
    let ghost all = args@;
    let ghost start = session.state();
    let n = args.len();
    let mut rest = reversed(args);
    let mut out: Vec<MethodArgKind<E, C>> = Vec::new();
    let mut i: usize = 0;
    while rest.len() > 0
        invariant
            i + rest@.len() == n,
            n == all.len(),
            forall|j: int| 0 <= j < rest@.len() ==> #[trigger] rest@[j] == all[n - 1 - j],
            session.state().depth == start.depth,
            start.depth > 0,
            session.state().errors == start.errors + arg_errs(all.take(i as int)),
            out@ == arg_oks(all.take(i as int)),
        decreases rest.len(),
    {
        let r = rest.pop().unwrap();
        proof {
            assert(r == all[i as int]);
            assert(all.take(i + 1).drop_last() =~= all.take(i as int));
            assert(all.take(i + 1).last() == r);
        }
        match r {
            Ok(k) => out.push(k),
            Err(d) => {
                session.emit(d);
                assert(start.errors + arg_errs(all.take(i + 1)) =~= (start.errors + arg_errs(all.take(i as int))).push(d));
            },
        }
        i += 1;
    }
    assert(all.take(n as int) =~= all);
    out
}

/// Emits the diagnostics of the outcomes `outs` of fields, in order, and
/// keeps the definitions of the accepted fields.
pub fn collect_fields<E, C, S>(outs: Vec<FieldOutcome<E, C, S>>, session: &mut Session<S>) -> (res: Vec<FieldDef<E, C>>)
    requires
        old(session).state().depth > 0,
    ensures
        final(session).state().depth == old(session).state().depth,
        final(session).state().errors == old(session).state().errors + fields_diags(outs@),
        def_views(res@) == fields_defs(outs@),
{
    let ghost all = outs@;
    let ghost start = session.state();
    let n = outs.len();
    let mut rest = reversed(outs);
    let mut defs: Vec<FieldDef<E, C>> = Vec::new();
    let mut i: usize = 0;
    while rest.len() > 0
        invariant
            i + rest@.len() == n,
            n == all.len(),
            forall|j: int| 0 <= j < rest@.len() ==> #[trigger] rest@[j] == all[n - 1 - j],
            session.state().depth == start.depth,
            start.depth > 0,
            session.state().errors == start.errors + fields_diags(all.take(i as int)),
            def_views(defs@) == fields_defs(all.take(i as int)),
        decreases rest.len(),
    {
        let o = rest.pop().unwrap();
        let ghost pre = all.take(i as int);
        let ghost now = all.take(i + 1);
        proof {
            assert(o == all[i as int]);
            assert(now.drop_last() =~= pre);
            assert(now.last() == o);
        }
        let ghost before = session.state().errors;
        match o {
            FieldOutcome::Field(f) => {
                let ghost fv = f;
                let FieldOut { name, description, deprecated, arguments, has_receiver, is_async } = f;
                let arguments = match arguments {
                    Some(a) => Some(collect_arguments(a, session)),
                    None => None,
                };
                let ghost defs_before = defs@;
                defs.push(FieldDef { name, description, deprecated, arguments, has_receiver, is_async });
                proof {
                    assert(def_views(defs@) =~= def_views(defs_before).push(def_of(fv)));
                    assert(session.state().errors =~= start.errors + fields_diags(now));
                }
            },
            FieldOutcome::Ignored => {
                assert(fields_diags(now) =~= fields_diags(pre));
            },
            FieldOutcome::Refused(d) => {
                session.emit(d);
                assert(session.state().errors =~= start.errors + fields_diags(now));
            },
        }
        i += 1;
    }
    assert(all.take(n as int) =~= all);
    defs
}

/// The names of `defs`, in order.
fn names_of<E, C>(defs: &Vec<FieldDef<E, C>>) -> (res: Vec<String>)
    ensures
        res@.map_values(|s: String| s@) == def_names(def_views(defs@)),
{
    let mut names: Vec<String> = Vec::new();
    let mut i: usize = 0;
    while i < defs.len()
        invariant
            i <= defs@.len(),
            names@.len() == i,
            forall|j: int| 0 <= j < i ==> #[trigger] names@[j]@ == defs@[j].name@,
        decreases defs@.len() - i,
    {
        names.push(defs[i].name.clone());
        i += 1;
    }
    assert(names@.map_values(|s: String| s@) =~= def_names(def_views(defs@)));
    names
}

/// The diagnostics that checking the fields `defs` of a type at `span`
/// emits: one for no field, one for two fields with the same name.
pub open spec fn check_ok<S>(errs: Seq<Diagnostic<S>>, names: Seq<Seq<char>>, span: S, scope: Scope) -> bool {
    &&& errs.len() == (if names.len() == 0 { 1int } else { 0int }) + (if pairwise_distinct(names) { 0int } else { 1int })
    &&& names.len() == 0 ==> is_scoped_diag(errs[0], scope, span, NO_FIELDS@)
    &&& !pairwise_distinct(names) ==> is_scoped_diag(errs[errs.len() - 1], scope, span, FIELDS_NOT_DIFFERENT@)
}

/// The outcomes of a type's fields, once they are known: their diagnostics
/// are emitted and the macro stops if there are any; then a type without
/// fields, or with two fields of the same name, is reported at `span`, and
/// the macro stops if that happened. Otherwise the definitions of the
/// accepted fields.
pub fn finish_fields<E, C, S: Copy>(outs: Vec<FieldOutcome<E, C, S>>, span: S, scope: Scope, session: &mut Session<S>) -> (res: Option<
    Vec<FieldDef<E, C>>,
>)
    requires
        old(session).state().depth > 0,
    ensures
        final(session).state().depth == old(session).state().depth,
        ({
            let errs = old(session).state().errors + fields_diags(outs@);
            let names = def_names(fields_defs(outs@));
            if errs.len() > 0 {
                final(session).state().errors == errs && res is None
            } else {
                let e = final(session).state().errors;
                &&& check_ok(e, names, span, scope)
                &&& (res is None <==> e.len() > 0)
                &&& (res matches Some(v) ==> def_views(v@) == fields_defs(outs@))
            }
        }),
{
    let defs = collect_fields(outs, session);
    if session.abort_if_dirty() == Control::Abort {
        return None;
    }
    let names = names_of(&defs);
    if defs.len() == 0 {
        session.emit(scope.custom(span, NO_FIELDS));
    }
    if !all_different(names.as_slice()) {
        session.emit(scope.custom(span, FIELDS_NOT_DIFFERENT));
    }
    if session.abort_if_dirty() == Control::Abort {
        return None;
    }
    Some(defs)
}

/// The first context type among the arguments of the fields `defs`, in
/// order (a struct field has no arguments).
pub open spec fn first_context<E, C>(defs: Seq<FieldDefView<E, C>>) -> Option<C>
    decreases defs.len(),
{
    if defs.len() == 0 {
        None
    } else {
        match defs[0].arguments {
            Some(a) => match first_context_in(a) {
                Some(c) => Some(c),
                None => first_context(defs.drop_first()),
            },
            None => first_context(defs.drop_first()),
        }
    }
}

/// The first context type among `args`.
pub open spec fn first_context_in<E, C>(args: Seq<MethodArgKind<E, C>>) -> Option<C>
    decreases args.len(),
{
    if args.len() == 0 {
        None
    } else {
        match args[0] {
            MethodArgKind::Context(c) => Some(c),
            _ => first_context_in(args.drop_first()),
        }
    }
}

/// The first context type among the arguments `args` of one field.
fn context_in<E, C: Copy>(args: &Vec<MethodArgKind<E, C>>) -> (res: Option<C>)
    ensures
        res == first_context_in(args@),
{
    let mut j: usize = 0;
    assert(args@.skip(0) =~= args@);
    while j < args.len()
        invariant
            j <= args@.len(),
            first_context_in(args@) == first_context_in(args@.skip(j as int)),
        decreases args@.len() - j,
    {
        assert(args@.skip(j as int).drop_first() =~= args@.skip(j + 1));
        assert(args@.skip(j as int)[0] == args@[j as int]);
        if let Some(c) = args[j].context_ty() {
            return Some(*c);
        }
        j += 1;
    }
    assert(args@.skip(j as int) =~= Seq::<MethodArgKind<E, C>>::empty());
    None
}

/// The context type of a type: the explicit one, or the one that the first
/// context argument of its fields `defs` has.
pub fn context_of<E, C: Copy>(explicit: Option<C>, defs: &Vec<FieldDef<E, C>>) -> (res: Option<C>)
    ensures
        res == match explicit {
            Some(c) => Some(c),
            None => first_context(def_views(defs@)),
        },
{
    if let Some(c) = explicit {
        return Some(c);
    }
    let ghost all = def_views(defs@);
    let mut i: usize = 0;
    assert(all.skip(0) =~= all);
    while i < defs.len()
        invariant
            explicit is None,
            i <= defs@.len(),
            all == def_views(defs@),
            first_context(all) == first_context(all.skip(i as int)),
        decreases defs@.len() - i,
    {
        assert(all.skip(i as int).drop_first() =~= all.skip(i + 1));
        assert(all.skip(i as int)[0] == all[i as int]);
        if let Some(v) = &defs[i].arguments {
            if let Some(c) = context_in(v) {
                return Some(c);
            }
        }
        i += 1;
    }
    assert(all.skip(i as int) =~= Seq::<FieldDefView<E, C>>::empty());
    None
}

/// The GraphQL name of a type: the explicit one, or its identifier; and the
/// diagnostic of `scope` about it when it starts with `__` outside of the
/// library itself.
pub fn graphql_name<S: Copy>(explicit: Option<String>, ident: &str, is_internal: bool, name_span: S, scope: Scope) -> (res: (String, Option<Diagnostic<S>>))
    ensures
        res.0@ == match explicit {
            Some(n) => n@,
            None => unraw_spec(ident@),
        },
        (!is_internal && starts_with(res.0@, "__"@)) ==> (res.1 matches Some(d) && is_reserved_diag(d, name_span)),
        !(!is_internal && starts_with(res.0@, "__"@)) ==> res.1 is None,
{
    let name = match explicit {
        Some(n) => n,
        None => unraw(ident),
    };
    if !is_internal && starts_with_double_underscore(&name) {
        let d = scope.no_double_underscore(name_span);
        (name, Some(d))
    } else {
        (name, None)
    }
}

/// Whether no name among `defs`, nor among their regular arguments, starts
/// with `__`.
pub open spec fn no_reserved_names<E, C>(defs: Seq<FieldDefView<E, C>>) -> bool {
    forall|i: int|
        0 <= i < defs.len() ==> {
            &&& !starts_with((#[trigger] defs[i]).name@, "__"@)
            &&& defs[i].arguments matches Some(args) ==> regular_args_not_reserved(args)
        }
}

/// Whether no regular argument among `args` has a name starting with `__`.
pub open spec fn regular_args_not_reserved<E, C>(args: Seq<MethodArgKind<E, C>>) -> bool {
    forall|j: int|
        0 <= j < args.len() ==> (#[trigger] args[j] matches MethodArgKind::Regular { name, .. } ==> !starts_with(
            name@,
            "__"@,
        ))
}

/// Whether the outcome `o` names no field or argument with `__`.
pub open spec fn outcome_not_reserved<E, C, S>(o: FieldOutcome<E, C, S>) -> bool {
    o matches FieldOutcome::Field(f) ==> {
        &&& !starts_with(f.name@, "__"@)
        &&& f.arguments matches Some(args) ==> forall|j: int|
            0 <= j < args@.len() ==> (#[trigger] args@[j] matches Ok(MethodArgKind::Regular { name, .. })
                ==> !starts_with(name@, "__"@))
    }
}

proof fn lemma_arg_oks_not_reserved<E, C, S>(args: Seq<Result<MethodArgKind<E, C>, Diagnostic<S>>>)
    requires
        forall|j: int|
            0 <= j < args.len() ==> (#[trigger] args[j] matches Ok(MethodArgKind::Regular { name, .. }) ==> !starts_with(
                name@,
                "__"@,
            )),
    ensures
        regular_args_not_reserved(arg_oks(args)),
    decreases args.len(),
{
    if args.len() > 0 {
        let pre = args.drop_last();
        assert forall|j: int|
            0 <= j < pre.len() implies (#[trigger] pre[j] matches Ok(MethodArgKind::Regular { name, .. }) ==> !starts_with(
            name@,
            "__"@,
        )) by {
            assert(pre[j] == args[j]);
        }
        lemma_arg_oks_not_reserved(pre);
        assert(args[args.len() - 1] == args.last());
    }
}

proof fn lemma_defs_not_reserved<E, C, S>(outs: Seq<FieldOutcome<E, C, S>>)
    requires
        forall|i: int| 0 <= i < outs.len() ==> outcome_not_reserved(#[trigger] outs[i]),
    ensures
        no_reserved_names(fields_defs(outs)),
    decreases outs.len(),
{
    if outs.len() > 0 {
        let pre = outs.drop_last();
        assert forall|i: int| 0 <= i < pre.len() implies outcome_not_reserved(#[trigger] pre[i]) by {
            assert(pre[i] == outs[i]);
        }
        lemma_defs_not_reserved(pre);
        assert(outcome_not_reserved(outs[outs.len() - 1]));
        match outs.last() {
            FieldOutcome::Field(f) => {
                match f.arguments {
                    Some(a) => lemma_arg_oks_not_reserved(a@),
                    None => {},
                }
                let defs = fields_defs(outs);
                assert(defs == fields_defs(pre).push(def_of(f)));
                assert forall|i: int| 0 <= i < defs.len() implies {
                    &&& !starts_with((#[trigger] defs[i]).name@, "__"@)
                    &&& defs[i].arguments matches Some(args) ==> regular_args_not_reserved(args)
                } by {
                    if i < defs.len() - 1 {
                        assert(defs[i] == fields_defs(pre)[i]);
                    }
                }
            },
            _ => {},
        }
    }
}

/// Whatever fields, and arguments of theirs, the methods of a type become,
/// no name of the definitions kept starts with `__`, which GraphQL
/// reserves.
pub proof fn law_method_fields_not_reserved<E, C, S>(
    methods: Seq<MethodFieldInput<E, C, S>>,
    renaming: Policy,
    scope: Scope,
    async_only: bool,
    outs: Seq<FieldOutcome<E, C, S>>,
)
    requires
        outs.len() == methods.len(),
        forall|i: int| 0 <= i < methods.len() ==> method_field_ok(#[trigger] methods[i], renaming, scope, async_only, outs[i]),
    ensures
        no_reserved_names(fields_defs(outs)),
{
    assert forall|i: int| 0 <= i < outs.len() implies outcome_not_reserved(#[trigger] outs[i]) by {
        assert(method_field_ok(methods[i], renaming, scope, async_only, outs[i]));
        let m = methods[i];
        if let FieldOutcome::Field(f) = outs[i] {
            if let Some(args) = f.arguments {
                assert forall|j: int|
                    0 <= j < args@.len() implies (#[trigger] args@[j] matches Ok(MethodArgKind::Regular { name, .. })
                    ==> !starts_with(name@, "__"@)) by {
                    assert(arg_result_ok(m.arguments@[j], renaming, scope, args@[j]));
                }
            }
        }
    }
    lemma_defs_not_reserved(outs);
}

/// Whatever fields the struct fields of a type become, no name of the
/// definitions kept starts with `__`.
pub proof fn law_struct_fields_not_reserved<E, C, S>(
    fields: Seq<StructFieldInput<S>>,
    renaming: Policy,
    scope: Scope,
    outs: Seq<FieldOutcome<E, C, S>>,
)
    requires
        outs.len() == fields.len(),
        forall|i: int| 0 <= i < fields.len() ==> struct_field_ok(#[trigger] fields[i], renaming, scope, outs[i]),
    ensures
        no_reserved_names(fields_defs(outs)),
{
    assert forall|i: int| 0 <= i < outs.len() implies outcome_not_reserved(#[trigger] outs[i]) by {
        assert(struct_field_ok(fields[i], renaming, scope, outs[i]));
    }
    lemma_defs_not_reserved(outs);
}

/// Once the checks on a type's fields report nothing, the type has at least
/// one field and no two fields share a name.
pub proof fn law_checked_fields<S>(errs: Seq<Diagnostic<S>>, names: Seq<Seq<char>>, span: S, scope: Scope)
    requires
        check_ok(errs, names, span, scope),
        errs.len() == 0,
    ensures
        names.len() > 0,
        pairwise_distinct(names),
{
}

} // verus!

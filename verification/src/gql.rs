//! `gql!` objects: a struct and its resolving methods written together,
//! turned into a GraphQL type definition; the macro refuses what it cannot
//! turn by panicking with a message.
use vstd::prelude::*;

use crate::attr::reversed;
use crate::diagnostic::Diagnostic;
use crate::rename::{camel_case, camel_case_defined, to_camel_case};
use crate::type_definition::{DefinitionArg, DefinitionField, FieldAttributes, ObjectAttributes, TypeDefinition};
use crate::impl_object::arg_attrs_for;

verus! {

/// Message of the panic about `interfaces`, which `gql!` does not support.
pub const INTERFACES_UNSUPPORTED: &'static str = "Invalid #[graphql(...)] attribute 'interfaces': gql! does not support 'interfaces'";

/// Message of the panic about an argument that is not a plain identifier.
pub const INVALID_ARGUMENT_TOKEN: &'static str = "Invalid token for function argument";

/// Message of the panic about an executor taken by value.
pub const EXECUTOR_BY_VALUE: &'static str = "Invalid executor argument: to access the Executor, you need to specify the type as a reference.\nDid you mean &Executor?";

/// Message of the panic about a context taken by value.
pub const CONTEXT_BY_VALUE: &'static str = "Invalid context argument: to access the context, you need to specify the type as a reference.\nDid you mean &captured . ty?";

/// What an argument of a method stands for, by its type.
#[derive(Clone, Copy, Debug, PartialEq, Eq, Structural)]
pub enum GqlArgClass {
    /// A reference to the executor.
    ExecutorRef,
    /// The executor, by value.
    ExecutorValue,
    /// A reference to the context type.
    ContextRef,
    /// The context type, by value.
    ContextValue,
    /// A GraphQL argument.
    Regular,
}

/// An input of a method's signature.
pub enum GqlInput<T> {
    /// The receiver; whether it is `&self`.
    Receiver { by_shared_ref: bool },
    /// A typed argument: its identifier (`None` for another pattern), its
    /// type, and what it stands for.
    Typed { ident: Option<String>, ty: T, class: GqlArgClass },
}

/// A field of the struct.
pub struct GqlFieldItem<T, E, S> {
    /// Its `#[graphql]` arguments, or the error refusing them.
    pub attrs: Result<FieldAttributes<E, S>, Diagnostic<S>>,
    pub ident: String,
    pub ty: T,
}

/// A resolving method.
pub struct GqlMethodItem<T, E, S> {
    /// What it returns; `None` where it returns nothing.
    pub return_ty: Option<T>,
    pub is_async: bool,
    /// Its `#[graphql]` arguments, or the error refusing them.
    pub attrs: Result<FieldAttributes<E, S>, Diagnostic<S>>,
    pub ident: String,
    /// Its signature's inputs, in order.
    pub inputs: Vec<GqlInput<T>>,
}

/// A `gql!` object.
pub struct GqlObjectInput<T, E, S> {
    /// Its `#[graphql]` arguments, or the error refusing them.
    pub attrs: Result<ObjectAttributes<T, S>, Diagnostic<S>>,
    pub ident: String,
    pub fields: Vec<GqlFieldItem<T, E, S>>,
    pub methods: Vec<GqlMethodItem<T, E, S>>,
}

/// Why `gql!` panics.
pub enum GqlPanic<S> {
    /// The type's attribute is refused.
    InvalidAttribute(Diagnostic<S>),
    /// `interfaces` is given.
    Interfaces,
    /// A field's attribute is refused.
    InvalidFieldAttribute(Diagnostic<S>),
    /// The method of this name returns nothing.
    NoReturnValue(String),
    /// The attribute of the method of this name is refused.
    InvalidMethodAttribute(String, Diagnostic<S>),
    /// The method of this name takes its receiver otherwise than `&self`.
    InvalidReceiver(String),
    /// An argument is not a plain identifier.
    InvalidArgumentToken,
    /// The executor is taken by value.
    ExecutorByValue,
    /// The context is taken by value.
    ContextByValue,
}

/// The message that `gql!` panics with.
pub open spec fn panic_message<S>(p: GqlPanic<S>) -> Seq<char> {
    match p {
        GqlPanic::InvalidAttribute(d) => "Invalid #[graphql(...)] attribute: "@ + d.msg@,
        GqlPanic::Interfaces => INTERFACES_UNSUPPORTED@,
        GqlPanic::InvalidFieldAttribute(d) => "Invalid #[graphql] attribute: \n"@ + d.msg@,
        GqlPanic::NoReturnValue(m) => "Invalid field method "@ + m@ + ": must return a value"@,
        GqlPanic::InvalidMethodAttribute(m, d) => "Invalid #[graphql(...)] attribute on field "@ + m@ + ":\n"@ + d.msg@,
        GqlPanic::InvalidReceiver(m) => "Invalid method receiver "@ + m@ + "(self, ...): did you mean '&self'?"@,
        GqlPanic::InvalidArgumentToken => INVALID_ARGUMENT_TOKEN@,
        GqlPanic::ExecutorByValue => EXECUTOR_BY_VALUE@,
        GqlPanic::ContextByValue => CONTEXT_BY_VALUE@,
    }
}

impl<S> GqlPanic<S> {
    /// The message that `gql!` panics with.
    pub fn message(&self) -> (res: String)
        ensures
            res@ == panic_message(*self),
    {
        match self {
            GqlPanic::InvalidAttribute(d) => String::from_str("Invalid #[graphql(...)] attribute: ").concat(d.msg.as_str()),
            GqlPanic::Interfaces => String::from_str(INTERFACES_UNSUPPORTED),
            GqlPanic::InvalidFieldAttribute(d) => String::from_str("Invalid #[graphql] attribute: \n").concat(d.msg.as_str()),
            GqlPanic::NoReturnValue(m) => String::from_str("Invalid field method ").concat(m.as_str()).concat(
                ": must return a value",
            ),
            GqlPanic::InvalidMethodAttribute(m, d) => String::from_str("Invalid #[graphql(...)] attribute on field ").concat(
                m.as_str(),
            ).concat(":\n").concat(d.msg.as_str()),
            GqlPanic::InvalidReceiver(m) => String::from_str("Invalid method receiver ").concat(m.as_str()).concat(
                "(self, ...): did you mean '&self'?",
            ),
            GqlPanic::InvalidArgumentToken => String::from_str(INVALID_ARGUMENT_TOKEN),
            GqlPanic::ExecutorByValue => String::from_str(EXECUTOR_BY_VALUE),
            GqlPanic::ContextByValue => String::from_str(CONTEXT_BY_VALUE),
        }
    }
}

/// The panic of the first field from `k` on whose attribute is refused.
pub open spec fn first_field_panic<T, E, S>(fs: Seq<GqlFieldItem<T, E, S>>, k: int) -> Option<GqlPanic<S>>
    decreases fs.len() - k,
{
    if k < 0 || k >= fs.len() {
        None
    } else {
        match fs[k].attrs {
            Err(e) => Some(GqlPanic::InvalidFieldAttribute(e)),
            Ok(_) => first_field_panic(fs, k + 1),
        }
    }
}

/// The panic of the first input from `k` on that the method `m` refuses.
pub open spec fn first_input_panic<T, S>(ins: Seq<GqlInput<T>>, m: String, k: int) -> Option<GqlPanic<S>>
    decreases ins.len() - k,
{
    if k < 0 || k >= ins.len() {
        None
    } else {
        match ins[k] {
            GqlInput::Receiver { by_shared_ref } => if !by_shared_ref {
                Some(GqlPanic::InvalidReceiver(m))
            } else {
                first_input_panic(ins, m, k + 1)
            },
            GqlInput::Typed { ident, ty: _, class } => if ident is None {
                Some(GqlPanic::InvalidArgumentToken)
            } else if class == GqlArgClass::ExecutorValue {
                Some(GqlPanic::ExecutorByValue)
            } else if class == GqlArgClass::ContextValue {
                Some(GqlPanic::ContextByValue)
            } else {
                first_input_panic(ins, m, k + 1)
            },
        }
    }
}

/// The panic about the method `m`, if any: it returns nothing, its
/// attribute is refused, or one of its inputs is.
pub open spec fn method_panic<T, E, S>(m: GqlMethodItem<T, E, S>) -> Option<GqlPanic<S>> {
    if m.return_ty is None {
        Some(GqlPanic::NoReturnValue(m.ident))
    } else {
        match m.attrs {
            Err(e) => Some(GqlPanic::InvalidMethodAttribute(m.ident, e)),
            Ok(_) => first_input_panic(m.inputs@, m.ident, 0),
        }
    }
}

/// The panic of the first method from `k` on that is refused.
pub open spec fn first_method_panic<T, E, S>(ms: Seq<GqlMethodItem<T, E, S>>, k: int) -> Option<GqlPanic<S>>
    decreases ms.len() - k,
{
    if k < 0 || k >= ms.len() {
        None
    } else {
        match method_panic(ms[k]) {
            Some(p) => Some(p),
            None => first_method_panic(ms, k + 1),
        }
    }
}

/// Why `gql!` panics on `input`, if it does: the type's attribute, then
/// `interfaces`, then the fields in order, then the methods in order.
pub open spec fn gql_panic<T, E, S>(input: GqlObjectInput<T, E, S>) -> Option<GqlPanic<S>> {
    match input.attrs {
        Err(e) => Some(GqlPanic::InvalidAttribute(e)),
        Ok(oa) => if oa.interfaces@.len() > 0 {
            Some(GqlPanic::Interfaces)
        } else {
            match first_field_panic(input.fields@, 0) {
                Some(p) => Some(p),
                None => first_method_panic(input.methods@, 0),
            }
        },
    }
}

/// The fields of the struct that are not skipped, in order.
pub open spec fn kept_fields<T, E, S>(fs: Seq<GqlFieldItem<T, E, S>>) -> Seq<GqlFieldItem<T, E, S>>
    decreases fs.len(),
{
    if fs.len() == 0 {
        Seq::empty()
    } else if fs.last().attrs matches Ok(a) && a.skip is Some {
        kept_fields(fs.drop_last())
    } else {
        kept_fields(fs.drop_last()).push(fs.last())
    }
}

/// The GraphQL name of a field or method: the explicit one, or its
/// identifier in `camelCase`.
pub open spec fn gql_name<E, S>(fa: FieldAttributes<E, S>, ident: Seq<char>) -> Seq<char> {
    match fa.name {
        Some(n) => n@,
        None => camel_case(ident),
    }
}

/// Whether `d` is the GraphQL field that the struct field `f` becomes.
pub open spec fn struct_def_ok<T, E, S>(f: GqlFieldItem<T, E, S>, d: DefinitionField<T, E>) -> bool {
    let fa = f.attrs->Ok_0;
    &&& d.name@ == gql_name(fa, f.ident@)
    &&& d.ty == f.ty
    &&& d.args@.len() == 0
    &&& d.description == fa.description
    &&& d.deprecation == fa.deprecation
    &&& !d.is_async
    &&& d.default is None
}

/// The GraphQL arguments among the inputs `ins`: their identifiers and
/// types, in order.
pub open spec fn regular_inputs<T>(ins: Seq<GqlInput<T>>) -> Seq<(String, T)>
    decreases ins.len(),
{
    if ins.len() == 0 {
        Seq::empty()
    } else {
        match ins.last() {
            GqlInput::Typed { ident: Some(i), ty, class } => if class == GqlArgClass::Regular {
                regular_inputs(ins.drop_last()).push((i, ty))
            } else {
                regular_inputs(ins.drop_last())
            },
            _ => regular_inputs(ins.drop_last()),
        }
    }
}

/// Whether `d` is the GraphQL argument that the argument `a` becomes.
pub open spec fn gql_arg_ok<T, E, S>(fa: FieldAttributes<E, S>, a: (String, T), d: DefinitionArg<T, E>) -> bool {
    let found = arg_attrs_for(fa.arguments@, a.0@);
    &&& d.name@ == camel_case(a.0@)
    &&& d.ty == a.1
    &&& d.description == (if found is Some { found->0.description } else { None })
    &&& d.default == (if found is Some { found->0.default } else { None })
}

/// Whether `d` is the GraphQL field that the method `m` becomes.
pub open spec fn method_def_ok<T, E, S>(m: GqlMethodItem<T, E, S>, d: DefinitionField<T, E>) -> bool {
    let fa = m.attrs->Ok_0;
    let args = regular_inputs(m.inputs@);
    &&& d.name@ == gql_name(fa, m.ident@)
    &&& d.ty == m.return_ty->0
    &&& d.description == fa.description
    &&& d.deprecation == fa.deprecation
    &&& d.is_async == m.is_async
    &&& d.default is None
    &&& d.args@.len() == args.len()
    &&& forall|i: int| 0 <= i < args.len() ==> gql_arg_ok(fa, args[i], #[trigger] d.args@[i])
}

/// Whether naming the fields, methods and arguments, where that happens,
/// is defined.
pub open spec fn gql_defined<T, E, S>(input: GqlObjectInput<T, E, S>) -> bool {
    &&& forall|i: int|
        0 <= i < input.fields@.len() ==> ((#[trigger] input.fields@[i]).attrs matches Ok(a) && a.skip is None && a.name is None
            ==> camel_case_defined(input.fields@[i].ident@))
    &&& forall|i: int|
        0 <= i < input.methods@.len() ==> method_defined(#[trigger] input.methods@[i])
}

/// Whether naming the method `m` and its arguments is defined.
pub open spec fn method_defined<T, E, S>(m: GqlMethodItem<T, E, S>) -> bool {
    m.attrs matches Ok(a) ==> {
        &&& a.name is None ==> camel_case_defined(m.ident@)
        &&& forall|i: int|
            0 <= i < regular_inputs(m.inputs@).len() ==> camel_case_defined((#[trigger] regular_inputs(m.inputs@)[i]).0@)
    }
}

/// The GraphQL name of the object: the explicit one, or its identifier.
pub open spec fn gql_object_name<T, S>(oa: ObjectAttributes<T, S>, ident: Seq<char>) -> Seq<char> {
    match oa.name {
        Some(n) => n@,
        None => ident,
    }
}

/// The GraphQL field that the struct field `f` becomes.
fn gql_struct_field<T, E, S>(f: GqlFieldItem<T, E, S>) -> (res: DefinitionField<T, E>)
    requires
        f.attrs is Ok,
        f.attrs->Ok_0.name is None ==> camel_case_defined(f.ident@),
    ensures
        struct_def_ok(f, res),
{
    let fa = match f.attrs {
        Ok(fa) => fa,
        Err(_) => {
            assert(false);
            return DefinitionField {
                name: String::new(),
                ty: f.ty,
                args: Vec::new(),
                description: None,
                deprecation: None,
                is_async: false,
                default: None,
            };
        },
    };
    let name = match fa.name {
        Some(n) => n,
        None => to_camel_case(f.ident.as_str()),
    };
    DefinitionField {
        name,
        ty: f.ty,
        args: Vec::new(),
        description: fa.description,
        deprecation: fa.deprecation,
        is_async: false,
        default: None,
    }
}

/// The GraphQL field that the method `m` becomes, or why `gql!` panics on
/// it.
fn gql_method<T: Copy, E: Copy, S>(m: GqlMethodItem<T, E, S>) -> (res: Result<DefinitionField<T, E>, GqlPanic<S>>)
    requires
        method_defined(m),
    ensures
        match method_panic(m) {
            Some(p) => res matches Err(q) && q == p,
            None => res matches Ok(d) && method_def_ok(m, d),
        },
{
    let ghost whole = m;
    let GqlMethodItem { return_ty, is_async, attrs, ident, inputs } = m;
    let ty = match return_ty {
        None => return Err(GqlPanic::NoReturnValue(ident)),
        Some(t) => t,
    };
    let fa = match attrs {
        Err(e) => return Err(GqlPanic::InvalidMethodAttribute(ident, e)),
        Ok(fa) => fa,
    };
    let ghost ins = inputs@;
    let mut args: Vec<DefinitionArg<T, E>> = Vec::new();
    let mut i: usize = 0;
    while i < inputs.len()
        invariant
            i <= ins.len(),
            ins == inputs@,
            whole == m,
            method_panic(whole) == first_input_panic::<T, S>(ins, ident, i as int),
            forall|q: int|
                0 <= q < regular_inputs(ins).len() ==> camel_case_defined((#[trigger] regular_inputs(ins)[q]).0@),
            regular_inputs(ins.take(i as int)).len() == args@.len(),
            forall|q: int|
                0 <= q < args@.len() ==> regular_inputs(ins.take(i as int))[q] == regular_inputs(ins)[q],
            args@.len() <= regular_inputs(ins).len(),
            forall|q: int| 0 <= q < args@.len() ==> gql_arg_ok(fa, regular_inputs(ins)[q], #[trigger] args@[q]),
        decreases ins.len() - i,
    {
        proof {
            assert(ins.take(i + 1).drop_last() =~= ins.take(i as int));
            assert(ins.take(i + 1).last() == ins[i as int]);
            lemma_regular_inputs_prefix(ins, i + 1);
        }
        let inp = &inputs[i];
        assert(*inp == ins[i as int]);
        match inp {
            GqlInput::Receiver { by_shared_ref } => {
                if !*by_shared_ref {
                    assert(first_input_panic::<T, S>(ins, ident, i as int) == Some(GqlPanic::<S>::InvalidReceiver(ident)));
                    return Err(GqlPanic::InvalidReceiver(ident));
                }
            },
            GqlInput::Typed { ident: arg_ident, ty: arg_ty, class } => {
                let arg_name = match arg_ident {
                    None => {
                        assert(first_input_panic::<T, S>(ins, ident, i as int) == Some(GqlPanic::<S>::InvalidArgumentToken));
                        return Err(GqlPanic::InvalidArgumentToken);
                    },
                    Some(a) => a,
                };
                match class {
                    GqlArgClass::ExecutorValue => return Err(GqlPanic::ExecutorByValue),
                    GqlArgClass::ContextValue => return Err(GqlPanic::ContextByValue),
                    GqlArgClass::Regular => {
                        let ghost q = args@.len() as int;
                        assert(regular_inputs(ins.take(i + 1)) == regular_inputs(ins.take(i as int)).push(
                            (*arg_name, *arg_ty),
                        ));
                        assert(regular_inputs(ins.take(i + 1))[q] == (*arg_name, *arg_ty));
                        assert(regular_inputs(ins)[q] == (*arg_name, *arg_ty));
                        let found = find_arg(&fa, arg_name);
                        let (description, default) = match found {
                            Some(k) => (fa.arguments[k].description.clone(), fa.arguments[k].default),
                            None => (None, None),
                        };
                        let name = to_camel_case(arg_name.as_str());
                        args.push(DefinitionArg { name, ty: *arg_ty, description, default });
                    },
                    _ => {},
                }
            },
        }
        i += 1;
    }
    assert(ins.take(ins.len() as int) =~= ins);
    let name = match fa.name {
        Some(n) => n,
        None => to_camel_case(ident.as_str()),
    };
    Ok(
        DefinitionField {
            name,
            ty,
            args,
            description: fa.description,
            deprecation: fa.deprecation,
            is_async,
            default: None,
        },
    )
}

/// A prefix of the inputs gives a prefix of their GraphQL arguments.
proof fn lemma_regular_inputs_prefix<T>(ins: Seq<GqlInput<T>>, k: int)
    requires
        0 <= k <= ins.len(),
    ensures
        regular_inputs(ins.take(k)).len() <= regular_inputs(ins).len(),
        forall|q: int|
            0 <= q < regular_inputs(ins.take(k)).len() ==> #[trigger] regular_inputs(ins.take(k))[q] == regular_inputs(ins)[q],
    decreases ins.len() - k,
{
    if k < ins.len() {
        lemma_regular_inputs_prefix(ins, k + 1);
        assert(ins.take(k + 1).drop_last() =~= ins.take(k));
        let a = regular_inputs(ins.take(k));
        let b = regular_inputs(ins.take(k + 1));
        assert(b == a || b == a.push(b.last()));
        assert forall|q: int| 0 <= q < a.len() implies #[trigger] a[q] == regular_inputs(ins)[q] by {
            assert(a[q] == b[q]);
        }
    } else {
        assert(ins.take(k) =~= ins);
    }
}

/// The index of the first arguments given for `name`.
fn find_arg<E, S>(fa: &FieldAttributes<E, S>, name: &String) -> (res: Option<usize>)
    ensures
        match arg_attrs_for(fa.arguments@, name@) {
            Some(a) => res matches Some(i) && i < fa.arguments@.len() && fa.arguments@[i as int] == a,
            None => res is None,
        },
{
    let args = &fa.arguments;
    let mut i: usize = 0;
    assert(args@.skip(0) =~= args@);
    while i < args.len()
        invariant
            i <= args@.len(),
            args == &fa.arguments,
            arg_attrs_for(args@, name@) == arg_attrs_for(args@.skip(i as int), name@),
        decreases args@.len() - i,
    {
        let ghost tail = args@.skip(i as int);
        proof {
            assert(tail[0] == args@[i as int]);
            assert(tail.skip(1) =~= args@.skip(i + 1));
        }
        if crate::text::text_is(args[i].arg.as_str(), name.as_str()) {
            return Some(i);
        }
        i += 1;
    }
    None
}

/// Turns a `gql!` object into its GraphQL type definition: the fields of
/// the struct that are not skipped, then one field per method; or why the
/// macro panics.
pub fn to_graphql_definition<T: Copy, E: Copy, S>(input: GqlObjectInput<T, E, S>) -> (res: Result<TypeDefinition<T, E>, GqlPanic<S>>)
    requires
        gql_defined(input),
    ensures
        match gql_panic(input) {
            Some(p) => res matches Err(q) && q == p,
            None => res matches Ok(def) && {
                let oa = input.attrs->Ok_0;
                let kept = kept_fields(input.fields@);
                &&& def.name@ == gql_object_name(oa, input.ident@)
                &&& def.context == oa.context
                &&& def.scalar == oa.scalar
                &&& def.description == oa.description
                &&& def.interfaces is None
                &&& def.no_async == oa.no_async
                &&& def.fields@.len() == kept.len() + input.methods@.len()
                &&& forall|i: int| 0 <= i < kept.len() ==> struct_def_ok(kept[i], #[trigger] def.fields@[i])
                &&& forall|j: int|
                    0 <= j < input.methods@.len() ==> method_def_ok(input.methods@[j], #[trigger] def.fields@[kept.len() + j])
            },
        },
{
    let ghost whole = input;
    let GqlObjectInput { attrs, ident, fields, methods } = input;
    let oa = match attrs {
        Err(e) => return Err(GqlPanic::InvalidAttribute(e)),
        Ok(oa) => oa,
    };
    if oa.interfaces.len() > 0 {
        return Err(GqlPanic::Interfaces);
    }
    let ghost fs = fields@;
    let n = fields.len();
    let mut rest = reversed(fields);
    let mut defs: Vec<DefinitionField<T, E>> = Vec::new();
    let mut i: usize = 0;
    while rest.len() > 0
        invariant
            i + rest@.len() == n,
            n == fs.len(),
            fs == whole.fields@,
            forall|j: int| 0 <= j < rest@.len() ==> #[trigger] rest@[j] == fs[n - 1 - j],
            gql_defined(whole),
            whole == input,
            whole.attrs == Ok::<ObjectAttributes<T, S>, Diagnostic<S>>(oa),
            oa.interfaces@.len() == 0,
            first_field_panic(fs, 0) == first_field_panic(fs, i as int),
            defs@.len() == kept_fields(fs.take(i as int)).len(),
            forall|q: int| 0 <= q < defs@.len() ==> struct_def_ok(kept_fields(fs.take(i as int))[q], #[trigger] defs@[q]),
        decreases rest.len(),
    {
        let f = rest.pop().unwrap();
        let ghost fv = f;
        proof {
            assert(f == fs[i as int]);
            assert(fs.take(i + 1).drop_last() =~= fs.take(i as int));
            assert(fs.take(i + 1).last() == f);
        }
        let GqlFieldItem { attrs, ident: f_ident, ty } = f;
        match attrs {
            Err(e) => {
                assert(first_field_panic(fs, i as int) == Some(GqlPanic::<S>::InvalidFieldAttribute(e)));
                return Err(GqlPanic::InvalidFieldAttribute(e));
            },
            Ok(a) => {
                if a.skip.is_none() {
                    let g = GqlFieldItem { attrs: Ok(a), ident: f_ident, ty };
                    assert(g == fv);
                    let d = gql_struct_field(g);
                    defs.push(d);
                }
            },
        }
        i += 1;
    }
    assert(fs.take(n as int) =~= fs);
    assert(first_field_panic(fs, n as int) is None);
    let ghost kept = kept_fields(fs);
    assert(gql_panic(whole) == first_method_panic(methods@, 0));
    let ghost ms = methods@;
    let m_n = methods.len();
    let mut rest = reversed(methods);
    let mut j: usize = 0;
    while rest.len() > 0
        invariant
            j + rest@.len() == m_n,
            m_n == ms.len(),
            ms == whole.methods@,
            forall|q: int| 0 <= q < rest@.len() ==> #[trigger] rest@[q] == ms[m_n - 1 - q],
            gql_defined(whole),
            whole == input,
            gql_panic(whole) == first_method_panic(ms, j as int),
            defs@.len() == kept.len() + j,
            forall|q: int| 0 <= q < kept.len() ==> struct_def_ok(kept[q], #[trigger] defs@[q]),
            forall|q: int| 0 <= q < j ==> method_def_ok(ms[q], #[trigger] defs@[kept.len() + q]),
        decreases rest.len(),
    {
        let m = rest.pop().unwrap();
        proof {
            assert(m == ms[j as int]);
        }
        match gql_method(m) {
            Err(p) => {
                assert(first_method_panic(ms, j as int) == Some(p));
                return Err(p);
            },
            Ok(d) => {
                defs.push(d);
                assert(defs@[kept.len() + j] == d);
            },
        }
        j += 1;
    }
    let name = match oa.name {
        Some(n) => n,
        None => ident,
    };
    Ok(
        TypeDefinition {
            name,
            context: oa.context,
            scalar: oa.scalar,
            description: oa.description,
            fields: defs,
            interfaces: None,
            no_async: oa.no_async,
        },
    )
}

} // verus!

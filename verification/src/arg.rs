//! GraphQL field arguments: the arguments of `#[graphql(...)]` on a method
//! argument, and how a method argument is classified.
use vstd::prelude::*;

use crate::attr::{merge_opt, merge_option, reversed};
use crate::rename::{apply_defined, apply_spec, Policy};
use crate::text::{chars_of, starts_with, text_is, unraw, unraw_spec};

verus! {

/// The arguments that `#[graphql(...)]` takes on a method argument.
#[derive(Clone, Copy, Debug, PartialEq, Eq, Structural)]
pub enum ArgKey {
    /// `name = "..."`.
    Name,
    /// `desc = "..."` or `description = "..."`.
    Description,
    /// `default` or `default = <expr>`.
    Default,
    /// `ctx`, `context` or `Context`.
    Context,
    /// `exec` or `executor`.
    Executor,
}

/// The argument that `ident` names, if any.
pub open spec fn arg_key_spec(ident: Seq<char>) -> Option<ArgKey> {
    if ident == "name"@ {
        Some(ArgKey::Name)
    } else if ident == "desc"@ || ident == "description"@ {
        Some(ArgKey::Description)
    } else if ident == "default"@ {
        Some(ArgKey::Default)
    } else if ident == "ctx"@ || ident == "context"@ || ident == "Context"@ {
        Some(ArgKey::Context)
    } else if ident == "exec"@ || ident == "executor"@ {
        Some(ArgKey::Executor)
    } else {
        None
    }
}

/// The keywords that name an argument here are exactly `name`, `desc`, `description`, `default`, `ctx`, `context`, `Context`, `exec`, `executor`, each naming
/// the argument listed.
pub proof fn law_argument_keywords(ident: Seq<char>)
    ensures
        ident == "name"@ ==> arg_key_spec(ident) == Some(ArgKey::Name),
        ident == "desc"@ ==> arg_key_spec(ident) == Some(ArgKey::Description),
        ident == "description"@ ==> arg_key_spec(ident) == Some(ArgKey::Description),
        ident == "default"@ ==> arg_key_spec(ident) == Some(ArgKey::Default),
        ident == "ctx"@ ==> arg_key_spec(ident) == Some(ArgKey::Context),
        ident == "context"@ ==> arg_key_spec(ident) == Some(ArgKey::Context),
        ident == "Context"@ ==> arg_key_spec(ident) == Some(ArgKey::Context),
        ident == "exec"@ ==> arg_key_spec(ident) == Some(ArgKey::Executor),
        ident == "executor"@ ==> arg_key_spec(ident) == Some(ArgKey::Executor),
        arg_key_spec(ident) is Some ==> (ident == "name"@ || ident == "desc"@ || ident == "description"@ || ident == "default"@ || ident == "ctx"@ || ident == "context"@ || ident == "Context"@ || ident == "exec"@ || ident == "executor"@),
{
    reveal_strlit("name");
    reveal_strlit("desc");
    reveal_strlit("description");
    reveal_strlit("default");
    reveal_strlit("ctx");
    reveal_strlit("context");
    reveal_strlit("Context");
    reveal_strlit("exec");
    reveal_strlit("executor");
    assert("name"@[0] != "desc"@[0]);
    assert("name"@.len() != "description"@.len());
    assert("name"@.len() != "default"@.len());
    assert("name"@.len() != "ctx"@.len());
    assert("name"@.len() != "context"@.len());
    assert("name"@.len() != "Context"@.len());
    assert("name"@[0] != "exec"@[0]);
    assert("name"@.len() != "executor"@.len());
    assert("desc"@.len() != "description"@.len());
    assert("desc"@.len() != "default"@.len());
    assert("desc"@.len() != "ctx"@.len());
    assert("desc"@.len() != "context"@.len());
    assert("desc"@.len() != "Context"@.len());
    assert("desc"@[0] != "exec"@[0]);
    assert("desc"@.len() != "executor"@.len());
    assert("description"@.len() != "default"@.len());
    assert("description"@.len() != "ctx"@.len());
    assert("description"@.len() != "context"@.len());
    assert("description"@.len() != "Context"@.len());
    assert("description"@.len() != "exec"@.len());
    assert("description"@.len() != "executor"@.len());
    assert("default"@.len() != "ctx"@.len());
    assert("default"@[0] != "context"@[0]);
    assert("default"@[0] != "Context"@[0]);
    assert("default"@.len() != "exec"@.len());
    assert("default"@.len() != "executor"@.len());
    assert("ctx"@.len() != "context"@.len());
    assert("ctx"@.len() != "Context"@.len());
    assert("ctx"@.len() != "exec"@.len());
    assert("ctx"@.len() != "executor"@.len());
    assert("context"@[0] != "Context"@[0]);
    assert("context"@.len() != "exec"@.len());
    assert("context"@.len() != "executor"@.len());
    assert("Context"@.len() != "exec"@.len());
    assert("Context"@.len() != "executor"@.len());
    assert("exec"@.len() != "executor"@.len());
}

/// The argument that `ident` names; `None` for an unknown argument.
pub fn arg_key(ident: &str) -> (res: Option<ArgKey>)
    ensures
        res == arg_key_spec(ident@),
        ident@ == "name"@ ==> res == Some(ArgKey::Name),
        ident@ == "desc"@ ==> res == Some(ArgKey::Description),
        ident@ == "description"@ ==> res == Some(ArgKey::Description),
        ident@ == "default"@ ==> res == Some(ArgKey::Default),
        ident@ == "ctx"@ ==> res == Some(ArgKey::Context),
        ident@ == "context"@ ==> res == Some(ArgKey::Context),
        ident@ == "Context"@ ==> res == Some(ArgKey::Context),
        ident@ == "exec"@ ==> res == Some(ArgKey::Executor),
        ident@ == "executor"@ ==> res == Some(ArgKey::Executor),
        res is Some ==> (ident@ == "name"@ || ident@ == "desc"@ || ident@ == "description"@ || ident@ == "default"@ || ident@ == "ctx"@ || ident@ == "context"@ || ident@ == "Context"@ || ident@ == "exec"@ || ident@ == "executor"@),
{
    proof {
        reveal_strlit("name");
        reveal_strlit("desc");
        reveal_strlit("description");
        reveal_strlit("default");
        reveal_strlit("ctx");
        reveal_strlit("context");
        reveal_strlit("Context");
        reveal_strlit("exec");
        reveal_strlit("executor");
        assert("name"@[0] != "desc"@[0]);
        assert("name"@.len() != "description"@.len());
        assert("name"@.len() != "default"@.len());
        assert("name"@.len() != "ctx"@.len());
        assert("name"@.len() != "context"@.len());
        assert("name"@.len() != "Context"@.len());
        assert("name"@[0] != "exec"@[0]);
        assert("name"@.len() != "executor"@.len());
        assert("desc"@.len() != "description"@.len());
        assert("desc"@.len() != "default"@.len());
        assert("desc"@.len() != "ctx"@.len());
        assert("desc"@.len() != "context"@.len());
        assert("desc"@.len() != "Context"@.len());
        assert("desc"@[0] != "exec"@[0]);
        assert("desc"@.len() != "executor"@.len());
        assert("description"@.len() != "default"@.len());
        assert("description"@.len() != "ctx"@.len());
        assert("description"@.len() != "context"@.len());
        assert("description"@.len() != "Context"@.len());
        assert("description"@.len() != "exec"@.len());
        assert("description"@.len() != "executor"@.len());
        assert("default"@.len() != "ctx"@.len());
        assert("default"@[0] != "context"@[0]);
        assert("default"@[0] != "Context"@[0]);
        assert("default"@.len() != "exec"@.len());
        assert("default"@.len() != "executor"@.len());
        assert("ctx"@.len() != "context"@.len());
        assert("ctx"@.len() != "Context"@.len());
        assert("ctx"@.len() != "exec"@.len());
        assert("ctx"@.len() != "executor"@.len());
        assert("context"@[0] != "Context"@[0]);
        assert("context"@.len() != "exec"@.len());
        assert("context"@.len() != "executor"@.len());
        assert("Context"@.len() != "exec"@.len());
        assert("Context"@.len() != "executor"@.len());
        assert("exec"@.len() != "executor"@.len());
    }
    if text_is(ident, "name") {
        Some(ArgKey::Name)
    } else if text_is(ident, "desc") || text_is(ident, "description") {
        Some(ArgKey::Description)
    } else if text_is(ident, "default") {
        Some(ArgKey::Default)
    } else if text_is(ident, "ctx") || text_is(ident, "context") || text_is(ident, "Context") {
        Some(ArgKey::Context)
    } else if text_is(ident, "exec") || text_is(ident, "executor") {
        Some(ArgKey::Executor)
    } else {
        None
    }
}

/// The default value of a GraphQL argument: the `Default` implementation of
/// its type, or an explicit expression.
pub enum DefaultValue<E> {
    Default,
    Expr(E),
}

/// One argument of `#[graphql(...)]` on a method argument, with its value.
pub enum ArgArg<E> {
    Name(String),
    Description(String),
    Default(DefaultValue<E>),
    Context,
    Executor,
}

/// Which argument `a` is.
pub open spec fn arg_key_of<E>(a: ArgArg<E>) -> ArgKey {
    match a {
        ArgArg::Name(_) => ArgKey::Name,
        ArgArg::Description(_) => ArgKey::Description,
        ArgArg::Default(_) => ArgKey::Default,
        ArgArg::Context => ArgKey::Context,
        ArgArg::Executor => ArgKey::Executor,
    }
}

/// The arguments given by `#[graphql(...)]` attributes on a method argument.
pub struct ArgAttr<E> {
    pub name: Option<String>,
    pub description: Option<String>,
    pub default: Option<DefaultValue<E>>,
    pub context: bool,
    pub executor: bool,
}

/// Whether argument `k` is given in `a`.
pub open spec fn arg_has<E>(a: ArgAttr<E>, k: ArgKey) -> bool {
    match k {
        ArgKey::Name => a.name is Some,
        ArgKey::Description => a.description is Some,
        ArgKey::Default => a.default is Some,
        ArgKey::Context => a.context,
        ArgKey::Executor => a.executor,
    }
}

/// `a` with the argument `x` given.
pub open spec fn arg_with<E>(a: ArgAttr<E>, x: ArgArg<E>) -> ArgAttr<E> {
    match x {
        ArgArg::Name(s) => ArgAttr { name: Some(s), ..a },
        ArgArg::Description(s) => ArgAttr { description: Some(s), ..a },
        ArgArg::Default(d) => ArgAttr { default: Some(d), ..a },
        ArgArg::Context => ArgAttr { context: true, ..a },
        ArgArg::Executor => ArgAttr { executor: true, ..a },
    }
}

/// No argument given.
pub open spec fn arg_empty<E>() -> ArgAttr<E> {
    ArgAttr { name: None, description: None, default: None, context: false, executor: false }
}

/// The arguments of one attribute, read in order: each is recorded, and the
/// first one given a second time is refused, by its position.
pub open spec fn arg_parse_spec<E>(args: Seq<ArgArg<E>>) -> Result<ArgAttr<E>, int>
    decreases args.len(),
{
    if args.len() == 0 {
        Ok(arg_empty())
    } else {
        match arg_parse_spec(args.drop_last()) {
            Err(i) => Err(i),
            Ok(a) => if arg_has(a, arg_key_of(args.last())) {
                Err(args.len() - 1)
            } else {
                Ok(arg_with(a, args.last()))
            },
        }
    }
}

/// The first argument (in declaration order) given by both `a` and `b`.
pub open spec fn arg_first_common<E>(a: ArgAttr<E>, b: ArgAttr<E>) -> Option<ArgKey> {
    if a.name is Some && b.name is Some {
        Some(ArgKey::Name)
    } else if a.description is Some && b.description is Some {
        Some(ArgKey::Description)
    } else if a.default is Some && b.default is Some {
        Some(ArgKey::Default)
    } else if a.context && b.context {
        Some(ArgKey::Context)
    } else if a.executor && b.executor {
        Some(ArgKey::Executor)
    } else {
        None
    }
}

/// The arguments of `a` and `b` together, when no argument is in both.
pub open spec fn arg_merge_spec<E>(a: ArgAttr<E>, b: ArgAttr<E>) -> ArgAttr<E> {
    ArgAttr {
        name: merge_opt(a.name, b.name)->0,
        description: merge_opt(a.description, b.description)->0,
        default: merge_opt(a.default, b.default)->0,
        context: a.context || b.context,
        executor: a.executor || b.executor,
    }
}

/// Why the merged arguments of a method argument are refused.
#[derive(Clone, Copy, Debug, PartialEq, Eq, Structural)]
pub enum ArgAttrError {
    /// `context` is given together with other arguments.
    ContextNotComposable,
    /// `executor` is given together with other arguments.
    ExecutorNotComposable,
}

/// Whether `a` gives any argument that describes a regular GraphQL
/// argument.
pub open spec fn has_regular<E>(a: ArgAttr<E>) -> bool {
    a.name is Some || a.description is Some || a.default is Some
}

/// The check of the merged arguments: `context` and `executor` each stand
/// alone.
pub open spec fn arg_check_spec<E>(a: ArgAttr<E>) -> Option<ArgAttrError> {
    if a.context && (has_regular(a) || a.executor) {
        Some(ArgAttrError::ContextNotComposable)
    } else if a.executor && (has_regular(a) || a.context) {
        Some(ArgAttrError::ExecutorNotComposable)
    } else {
        None
    }
}

impl ArgAttrError {
    /// The message this error is reported with.
    pub fn message(&self) -> (res: &'static str)
        ensures
            *self == ArgAttrError::ContextNotComposable ==> res@
                == "`context` attribute argument is not composable with any other arguments"@,
            *self == ArgAttrError::ExecutorNotComposable ==> res@
                == "`executor` attribute argument is not composable with any other arguments"@,
    {
        match self {
            ArgAttrError::ContextNotComposable => "`context` attribute argument is not composable with any other arguments",
            ArgAttrError::ExecutorNotComposable => "`executor` attribute argument is not composable with any other arguments",
        }
    }
}

/// The regular argument that `a` gives first, in the order `name`,
/// `description`, `default`.
pub open spec fn first_regular<E>(a: ArgAttr<E>) -> Option<ArgKey> {
    if a.name is Some {
        Some(ArgKey::Name)
    } else if a.description is Some {
        Some(ArgKey::Description)
    } else if a.default is Some {
        Some(ArgKey::Default)
    } else {
        None
    }
}

impl<E> ArgAttr<E> {
    /// An attribute with no argument.
    pub fn new() -> (res: Self)
        ensures
            res == arg_empty::<E>(),
    {
        ArgAttr { name: None, description: None, default: None, context: false, executor: false }
    }

    /// Records the argument `x`, at position `i` of its attribute, after
    /// those already recorded; refused, by its position, where it is given a
    /// second time: the step by which the arguments of one attribute are
    /// read.
    pub fn add(self, x: ArgArg<E>, i: usize) -> (res: Result<Self, usize>)
        ensures
            forall|before: Seq<ArgArg<E>>|
                before.len() == i && arg_parse_spec(before) == Ok::<ArgAttr<E>, int>(self) ==> match #[trigger] arg_parse_spec(
                    before.push(x),
                ) {
                    Ok(a) => res matches Ok(r) && r == a,
                    Err(j) => res matches Err(e) && e == j,
                },
    {
        let mut out = self;
        proof {
            assert forall|before: Seq<ArgArg<E>>| before.len() == i implies #[trigger] before.push(x).drop_last() == before by {
                assert(before.push(x).drop_last() =~= before);
            }
        }
        let dup = match &x {
            ArgArg::Name(_) => out.name.is_some(),
            ArgArg::Description(_) => out.description.is_some(),
            ArgArg::Default(_) => out.default.is_some(),
            ArgArg::Context => out.context,
            ArgArg::Executor => out.executor,
        };
        if dup {
            return Err(i);
        }
        match x {
            ArgArg::Name(s) => out.name = Some(s),
            ArgArg::Description(s) => out.description = Some(s),
            ArgArg::Default(d) => out.default = Some(d),
            ArgArg::Context => out.context = true,
            ArgArg::Executor => out.executor = true,
        }
        Ok(out)
    }

    /// Records the arguments of one `#[graphql(...)]` attribute, refusing
    /// the first argument given twice, by its position.
    pub fn parse(args: Vec<ArgArg<E>>) -> (res: Result<Self, usize>)
        ensures
            match arg_parse_spec(args@) {
                Ok(a) => res == Ok::<Self, usize>(a),
                Err(i) => res == Err::<Self, usize>(i as usize),
            },
    {
        let ghost all = args@;
        let n = args.len();
        let mut out = ArgAttr::new();
        let mut i: usize = 0;
        let mut rest = reversed(args);
        while rest.len() > 0
            invariant
                i + rest@.len() == n,
                n == all.len(),
                all == args@,
                forall|j: int| 0 <= j < rest@.len() ==> #[trigger] rest@[j] == all[n - 1 - j],
                arg_parse_spec(all.take(i as int)) == Ok::<Self, int>(out),
            decreases rest.len(),
        {
            let x = rest.pop().unwrap();
            proof {
                assert(x == all[i as int]);
                assert(all.take(i + 1).drop_last() =~= all.take(i as int));
                assert(all.take(i + 1).last() == x);
            }
            out = match out.add(x, i) {
                Ok(r) => r,
                Err(e) => {
                    proof {
                        assert(all.take(i as int).push(all[i as int]) =~= all.take(i + 1));
                        lemma_arg_parse_error_stays(all, i + 1);
                    }
                    return Err(e);
                },
            };
            proof {
                assert(all.take(i as int).push(all[i as int]) =~= all.take(i + 1));
            }
            i += 1;
        }
        assert(all.take(n as int) =~= all);
        Ok(out)
    }

    /// Merges the arguments of two attributes, refusing the first argument
    /// (in declaration order) that both give.
    pub fn try_merge(self, another: Self) -> (res: Result<Self, ArgKey>)
        ensures
            match arg_first_common(self, another) {
                Some(k) => res == Err::<Self, ArgKey>(k),
                None => res == Ok::<Self, ArgKey>(arg_merge_spec(self, another)),
            },
    {
        let name = match merge_option(self.name, another.name) {
            Ok(v) => v,
            Err(_) => return Err(ArgKey::Name),
        };
        let description = match merge_option(self.description, another.description) {
            Ok(v) => v,
            Err(_) => return Err(ArgKey::Description),
        };
        let default = match merge_option(self.default, another.default) {
            Ok(v) => v,
            Err(_) => return Err(ArgKey::Default),
        };
        if self.context && another.context {
            return Err(ArgKey::Context);
        }
        if self.executor && another.executor {
            return Err(ArgKey::Executor);
        }
        Ok(
            ArgAttr {
                name,
                description,
                default,
                context: self.context || another.context,
                executor: self.executor || another.executor,
            },
        )
    }

    /// Checks the merged arguments: `context` and `executor` each stand
    /// alone.
    pub fn from_attrs(self) -> (res: Result<Self, ArgAttrError>)
        ensures
            match arg_check_spec(self) {
                Some(e) => res == Err::<Self, ArgAttrError>(e),
                None => res == Ok::<Self, ArgAttrError>(self),
            },
    {
        let regular = self.name.is_some() || self.description.is_some() || self.default.is_some();
        if self.context && (regular || self.executor) {
            return Err(ArgAttrError::ContextNotComposable);
        }
        if self.executor && (regular || self.context) {
            return Err(ArgAttrError::ExecutorNotComposable);
        }
        Ok(self)
    }

    /// Checks that no argument describing a regular GraphQL argument is
    /// given; the first one given is refused.
    pub fn ensure_no_regular_arguments(&self) -> (res: Result<(), ArgKey>)
        ensures
            match first_regular(*self) {
                Some(k) => res == Err::<(), ArgKey>(k),
                None => res is Ok,
            },
    {
        if self.name.is_some() {
            return Err(ArgKey::Name);
        }
        if self.description.is_some() {
            return Err(ArgKey::Description);
        }
        if self.default.is_some() {
            return Err(ArgKey::Default);
        }
        Ok(())
    }
}

/// What a Rust method argument stands for in a GraphQL field.
pub enum MethodArgKind<E, C> {
    /// A GraphQL argument.
    Regular { name: String, description: Option<String>, default: Option<DefaultValue<E>> },
    /// The context injected into the resolver, of the type `C`.
    Context(C),
    /// The executor injected into the resolver.
    Executor,
}

impl<E, C> MethodArgKind<E, C> {
    /// The type of the context, if this argument is the context.
    pub fn context_ty(&self) -> (res: Option<&C>)
        ensures
            match *self {
                MethodArgKind::Context(c) => res == Some(&c),
                _ => res is None,
            },
    {
        match self {
            MethodArgKind::Context(c) => Some(c),
            _ => None,
        }
    }

    /// Whether this argument is a GraphQL argument.
    pub fn is_regular(&self) -> (res: bool)
        ensures
            res == (*self is Regular),
    {
        match self {
            MethodArgKind::Regular { .. } => true,
            _ => false,
        }
    }
}

/// Why a Rust method argument is refused.
#[derive(Clone, Copy, Debug, PartialEq, Eq, Structural)]
pub enum MethodArgError {
    /// An argument of a regular GraphQL argument is given on an argument
    /// that is the context or the executor by its name.
    Disallowed(ArgKey),
    /// It has no explicit name and is not a single identifier.
    NotSingleIdent,
    /// Its GraphQL name starts with `__`.
    DoubleUnderscore,
}

/// Whether an argument named `n` is the context by its name.
pub open spec fn is_context_name(n: Seq<char>) -> bool {
    n == "context"@ || n == "ctx"@ || n == "_context"@ || n == "_ctx"@
}

/// Whether an argument named `n` is the executor by its name.
pub open spec fn is_executor_name(n: Seq<char>) -> bool {
    n == "executor"@ || n == "_executor"@
}

/// The GraphQL name of a regular argument: the explicit one, or the Rust
/// identifier renamed by `renaming`.
pub open spec fn regular_arg_name<E>(attr: ArgAttr<E>, ident: Option<Seq<char>>, renaming: Policy) -> Option<Seq<char>> {
    match attr.name {
        Some(n) => Some(n@),
        None => match ident {
            Some(p) => Some(apply_spec(renaming, unraw_spec(p))),
            None => None,
        },
    }
}

/// The inputs on which classifying a method argument is defined: renaming
/// its identifier, where that happens, is defined.
pub open spec fn method_arg_defined<E>(attr: ArgAttr<E>, ident: Option<Seq<char>>, renaming: Policy) -> bool {
    match ident {
        Some(p) => !attr.context && !attr.executor && attr.name is None && !is_context_name(
            unraw_spec(p),
        ) && !is_executor_name(unraw_spec(p)) ==> apply_defined(renaming, unraw_spec(p)),
        None => true,
    }
}

/// The text of an argument key as written in an attribute.
pub open spec fn arg_key_text(k: ArgKey) -> Seq<char> {
    match k {
        ArgKey::Name => "name"@,
        ArgKey::Description => "description"@,
        ArgKey::Default => "default"@,
        ArgKey::Context => "context"@,
        ArgKey::Executor => "executor"@,
    }
}

impl MethodArgError {
    /// The message this error is reported with, and its note if it has one.
    pub fn message(&self) -> (res: (String, Option<&'static str>))
        ensures
            match *self {
                MethodArgError::Disallowed(k) => res.0@ == crate::attr::disallowed_message_spec(
                    arg_key_text(k),
                ) && res.1 is None,
                MethodArgError::NotSingleIdent => res.0@
                    == "method argument should be declared as a single identifier"@ && (res.1 matches Some(n) && n@
                    == "use `#[graphql(name = ...)]` attribute to specify custom argument's name without requiring it being a single identifier"@),
                MethodArgError::DoubleUnderscore => res.0@ == crate::diagnostic::double_underscore_message() && res.1 is None,
            },
    {
        match self {
            MethodArgError::Disallowed(k) => {
                let text = match k {
                    ArgKey::Name => "name",
                    ArgKey::Description => "description",
                    ArgKey::Default => "default",
                    ArgKey::Context => "context",
                    ArgKey::Executor => "executor",
                };
                (crate::attr::disallowed_message(text), None)
            },
            MethodArgError::NotSingleIdent => (
                String::from_str("method argument should be declared as a single identifier"),
                Some("use `#[graphql(name = ...)]` attribute to specify custom argument's name without requiring it being a single identifier"),
            ),
            MethodArgError::DoubleUnderscore => (
                String::from_str("All types and directives defined within a schema must not have a name which begins with `__` (two underscores), as this is used exclusively by GraphQL’s introspection system."),
                None,
            ),
        }
    }
}

/// Whether `res` classifies a Rust method argument, given the merged and
/// checked arguments `attr` of its `#[graphql]` attributes, the text `id` of
/// its identifier if it is a single identifier, the `renaming` of its
/// field's definition, and its type without reference.
pub open spec fn method_arg_ok<E, C>(
    attr: ArgAttr<E>,
    id: Option<Seq<char>>,
    renaming: Policy,
    context_ty: C,
    res: Result<MethodArgKind<E, C>, MethodArgError>,
) -> bool {
    if attr.context {
        res == Ok::<MethodArgKind<E, C>, MethodArgError>(MethodArgKind::Context(context_ty))
    } else if attr.executor {
        res matches Ok(MethodArgKind::Executor)
    } else if id is Some && (is_context_name(unraw_spec(id->0)) || is_executor_name(unraw_spec(id->0))) {
        match first_regular(attr) {
            Some(k) => res == Err::<MethodArgKind<E, C>, MethodArgError>(MethodArgError::Disallowed(k)),
            None => if is_context_name(unraw_spec(id->0)) {
                res == Ok::<MethodArgKind<E, C>, MethodArgError>(MethodArgKind::Context(context_ty))
            } else {
                res matches Ok(MethodArgKind::Executor)
            },
        }
    } else {
        match regular_arg_name(attr, id, renaming) {
            None => res == Err::<MethodArgKind<E, C>, MethodArgError>(MethodArgError::NotSingleIdent),
            Some(n) => if starts_with(n, "__"@) {
                res == Err::<MethodArgKind<E, C>, MethodArgError>(MethodArgError::DoubleUnderscore)
            } else {
                res matches Ok(MethodArgKind::Regular { name, description, default }) && name@ == n
                    && description == attr.description && default == attr.default
            },
        }
    }
}

/// An argument named `executor` or `_executor` (once unrawed), with no
/// `name`, `description`, `default` or `context` in its attribute, is the
/// injected executor whatever the renaming; one named `context`, `ctx`,
/// `_context` or `_ctx`, with no `name`, `description`, `default` or
/// `executor`, is the injected context of its type.
pub proof fn law_injected_argument_names<E, C>(attr: ArgAttr<E>, p: Seq<char>, renaming: Policy, context_ty: C, res: Result<MethodArgKind<E, C>, MethodArgError>)
    requires
        method_arg_ok(attr, Some(p), renaming, context_ty, res),
        attr.name is None,
        attr.description is None,
        attr.default is None,
    ensures
        !attr.context && (unraw_spec(p) == "executor"@ || unraw_spec(p) == "_executor"@) ==> res matches Ok(MethodArgKind::Executor),
        !attr.executor && (unraw_spec(p) == "context"@ || unraw_spec(p) == "ctx"@ || unraw_spec(p) == "_context"@ || unraw_spec(p)
            == "_ctx"@) ==> res == Ok::<MethodArgKind<E, C>, MethodArgError>(MethodArgKind::Context(context_ty)),
{
    reveal_strlit("executor");
    reveal_strlit("_executor");
    reveal_strlit("context");
    reveal_strlit("ctx");
    reveal_strlit("_context");
    reveal_strlit("_ctx");
    assert("executor"@.len() != "_executor"@.len());
    assert("executor"@.len() != "context"@.len());
    assert("executor"@.len() != "ctx"@.len());
    assert("executor"@[0] != "_context"@[0]);
    assert("executor"@.len() != "_ctx"@.len());
    assert("_executor"@.len() != "context"@.len());
    assert("_executor"@.len() != "ctx"@.len());
    assert("_executor"@.len() != "_context"@.len());
    assert("_executor"@.len() != "_ctx"@.len());
    assert("context"@.len() != "ctx"@.len());
    assert("context"@.len() != "_context"@.len());
    assert("context"@.len() != "_ctx"@.len());
    assert("ctx"@.len() != "_context"@.len());
    assert("ctx"@.len() != "_ctx"@.len());
    assert("_context"@.len() != "_ctx"@.len());
}

/// The error that classifying a Rust method argument ends with, if it fails
/// (see `method_arg_ok`).
pub open spec fn method_arg_error<E>(attr: ArgAttr<E>, id: Option<Seq<char>>, renaming: Policy) -> Option<MethodArgError> {
    if attr.context || attr.executor {
        None
    } else if id is Some && (is_context_name(unraw_spec(id->0)) || is_executor_name(unraw_spec(id->0))) {
        match first_regular(attr) {
            Some(k) => Some(MethodArgError::Disallowed(k)),
            None => None,
        }
    } else {
        match regular_arg_name(attr, id, renaming) {
            None => Some(MethodArgError::NotSingleIdent),
            Some(n) => if starts_with(n, "__"@) {
                Some(MethodArgError::DoubleUnderscore)
            } else {
                None
            },
        }
    }
}

/// Classifies a Rust method argument, given the merged and checked
/// arguments `attr` of its `#[graphql]` attributes, the text of its
/// identifier if it is a single identifier, the `renaming` of its field's
/// definition, and its type without reference (the context type, if it is
/// the context).
pub fn parse_method_arg<E, C>(attr: ArgAttr<E>, ident: Option<&str>, renaming: Policy, context_ty: C) -> (res: Result<MethodArgKind<E, C>, MethodArgError>)
    requires
        method_arg_defined(attr, match ident { Some(p) => Some(p@), None => None }, renaming),
    ensures
        method_arg_ok(attr, match ident { Some(p) => Some(p@), None => None }, renaming, context_ty, res),
        match res {
            Ok(_) => method_arg_error(attr, match ident { Some(p) => Some(p@), None => None }, renaming) is None,
            Err(e) => method_arg_error(attr, match ident { Some(p) => Some(p@), None => None }, renaming) == Some(e),
        },
        ident matches Some(p) && !attr.context && attr.name is None && attr.description is None && attr.default is None
            && (unraw_spec(p@) == "executor"@ || unraw_spec(p@) == "_executor"@) ==> res matches Ok(MethodArgKind::Executor),
        ident matches Some(p) && !attr.executor && attr.name is None && attr.description is None && attr.default is None
            && (unraw_spec(p@) == "context"@ || unraw_spec(p@) == "ctx"@ || unraw_spec(p@) == "_context"@ || unraw_spec(p@)
            == "_ctx"@) ==> res == Ok::<MethodArgKind<E, C>, MethodArgError>(MethodArgKind::Context(context_ty)),
        res matches Ok(MethodArgKind::Regular { .. }) ==> ident matches Some(p) && !attr.context && !attr.executor && {
            let u = unraw_spec(p@);
            u != "executor"@ && u != "_executor"@ && u != "context"@ && u != "ctx"@ && u != "_context"@ && u != "_ctx"@
        } || attr.name is Some,
{
    proof {
        reveal_strlit("executor");
        reveal_strlit("_executor");
        reveal_strlit("context");
        reveal_strlit("ctx");
        reveal_strlit("_context");
        reveal_strlit("_ctx");
        assert("executor"@.len() != "_executor"@.len());
        assert("executor"@.len() != "context"@.len());
        assert("executor"@.len() != "ctx"@.len());
        assert("executor"@[0] != "_context"@[0]);
        assert("executor"@.len() != "_ctx"@.len());
        assert("_executor"@.len() != "context"@.len());
        assert("_executor"@.len() != "ctx"@.len());
        assert("_executor"@.len() != "_context"@.len());
        assert("_executor"@.len() != "_ctx"@.len());
        assert("context"@.len() != "ctx"@.len());
        assert("context"@.len() != "_context"@.len());
        assert("context"@.len() != "_ctx"@.len());
        assert("ctx"@.len() != "_context"@.len());
        assert("ctx"@.len() != "_ctx"@.len());
        assert("_context"@.len() != "_ctx"@.len());
    }
    if attr.context {
        return Ok(MethodArgKind::Context(context_ty));
    }
    if attr.executor {
        return Ok(MethodArgKind::Executor);
    }
    let unrawed: Option<String> = match ident {
        Some(p) => Some(unraw(p)),
        None => None,
    };
    if let Some(u) = &unrawed {
        let u = u.as_str();
        let is_ctx = text_is(u, "context") || text_is(u, "ctx") || text_is(u, "_context") || text_is(u, "_ctx");
        let is_exec = text_is(u, "executor") || text_is(u, "_executor");
        if is_ctx || is_exec {
            match attr.ensure_no_regular_arguments() {
                Err(k) => return Err(MethodArgError::Disallowed(k)),
                Ok(()) => {},
            }
            return if is_ctx {
                Ok(MethodArgKind::Context(context_ty))
            } else {
                Ok(MethodArgKind::Executor)
            };
        }
    }
    let name = match attr.name {
        Some(n) => n,
        None => match &unrawed {
            Some(u) => renaming.apply(u.as_str()),
            None => return Err(MethodArgError::NotSingleIdent),
        },
    };
    if starts_with_double_underscore(&name) {
        return Err(MethodArgError::DoubleUnderscore);
    }
    Ok(MethodArgKind::Regular { name, description: attr.description, default: attr.default })
}

/// Whether `s` starts with `__`.
pub fn starts_with_double_underscore(s: &String) -> (res: bool)
    ensures
        res == starts_with(s@, "__"@),
{
    let cs = chars_of(s.as_str());
    proof {
        reveal_strlit("__");
        if cs@.len() >= 2 {
            assert(cs@.take(2)[0] == cs@[0]);
            assert(cs@.take(2)[1] == cs@[1]);
            if cs@[0] == '_' && cs@[1] == '_' {
                assert(cs@.take(2) =~= "__"@);
            }
        }
    }
    cs.len() >= 2 && cs[0] == '_' && cs[1] == '_'
}

proof fn lemma_arg_parse_error_stays<E>(args: Seq<ArgArg<E>>, k: int)
    requires
        0 <= k <= args.len(),
        arg_parse_spec(args.take(k)) is Err,
    ensures
        arg_parse_spec(args) == arg_parse_spec(args.take(k)),
    decreases args.len() - k,
{
    if k < args.len() {
        assert(args.take(k + 1).drop_last() =~= args.take(k));
        lemma_arg_parse_error_stays(args, k + 1);
    } else {
        assert(args.take(k) =~= args);
    }
}

} // verus!

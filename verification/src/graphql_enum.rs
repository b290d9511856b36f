//! `#[derive(GraphQLEnum)]`: the arguments of its `#[graphql]` attribute on
//! the enum, and the decisions that turn the enum's variants into GraphQL
//! enum values.
use vstd::prelude::*;

use crate::attr::{merge_opt, merge_option, reversed};
use crate::description::{concatenated, doc_texts, is_not_string, is_text, parse_from_doc_attrs, DocAttr};
use crate::diagnostic::{is_reserved_diag, is_scoped_diag, scoped_message, Diagnostic, Scope};
use crate::field::{all_different, pairwise_distinct, FieldAttr};
use crate::rename::{apply_defined, apply_spec, Policy};
use crate::session::{Control, Session};
use crate::text::{starts_with, text_is, unraw, unraw_spec};
use crate::arg::starts_with_double_underscore;

verus! {

/// The arguments that `#[graphql(...)]` takes on an enum or an input object.
#[derive(Clone, Copy, Debug, PartialEq, Eq, Structural)]
pub enum ContainerArgKey {
    /// `name = "..."`.
    Name,
    /// `desc = "..."` or `description = "..."`.
    Description,
    /// `ctx = ...`, `context = ...` or `Context = ...`.
    Context,
    /// `scalar = ...`, `Scalar = ...` or `ScalarValue = ...`.
    Scalar,
    /// `behave = ...` or `behavior = ...`.
    Behavior,
    /// `rename_all = "..."`.
    RenameAll,
    /// `internal`.
    Internal,
}

/// The argument that `ident` names, if any.
pub open spec fn container_arg_key_spec(ident: Seq<char>) -> Option<ContainerArgKey> {
    if ident == "name"@ {
        Some(ContainerArgKey::Name)
    } else if ident == "desc"@ || ident == "description"@ {
        Some(ContainerArgKey::Description)
    } else if ident == "ctx"@ || ident == "context"@ || ident == "Context"@ {
        Some(ContainerArgKey::Context)
    } else if ident == "scalar"@ || ident == "Scalar"@ || ident == "ScalarValue"@ {
        Some(ContainerArgKey::Scalar)
    } else if ident == "behave"@ || ident == "behavior"@ {
        Some(ContainerArgKey::Behavior)
    } else if ident == "rename_all"@ {
        Some(ContainerArgKey::RenameAll)
    } else if ident == "internal"@ {
        Some(ContainerArgKey::Internal)
    } else {
        None
    }
}

/// The keywords that name an argument here are exactly `name`, `desc`, `description`, `ctx`, `context`, `Context`, `scalar`, `Scalar`, `ScalarValue`, `behave`, `behavior`, `rename_all`, `internal`, each naming
/// the argument listed.
pub proof fn law_container_keywords(ident: Seq<char>)
    ensures
        ident == "name"@ ==> container_arg_key_spec(ident) == Some(ContainerArgKey::Name),
        ident == "desc"@ ==> container_arg_key_spec(ident) == Some(ContainerArgKey::Description),
        ident == "description"@ ==> container_arg_key_spec(ident) == Some(ContainerArgKey::Description),
        ident == "ctx"@ ==> container_arg_key_spec(ident) == Some(ContainerArgKey::Context),
        ident == "context"@ ==> container_arg_key_spec(ident) == Some(ContainerArgKey::Context),
        ident == "Context"@ ==> container_arg_key_spec(ident) == Some(ContainerArgKey::Context),
        ident == "scalar"@ ==> container_arg_key_spec(ident) == Some(ContainerArgKey::Scalar),
        ident == "Scalar"@ ==> container_arg_key_spec(ident) == Some(ContainerArgKey::Scalar),
        ident == "ScalarValue"@ ==> container_arg_key_spec(ident) == Some(ContainerArgKey::Scalar),
        ident == "behave"@ ==> container_arg_key_spec(ident) == Some(ContainerArgKey::Behavior),
        ident == "behavior"@ ==> container_arg_key_spec(ident) == Some(ContainerArgKey::Behavior),
        ident == "rename_all"@ ==> container_arg_key_spec(ident) == Some(ContainerArgKey::RenameAll),
        ident == "internal"@ ==> container_arg_key_spec(ident) == Some(ContainerArgKey::Internal),
        container_arg_key_spec(ident) is Some ==> (ident == "name"@ || ident == "desc"@ || ident == "description"@ || ident == "ctx"@ || ident == "context"@ || ident == "Context"@ || ident == "scalar"@ || ident == "Scalar"@ || ident == "ScalarValue"@ || ident == "behave"@ || ident == "behavior"@ || ident == "rename_all"@ || ident == "internal"@),
{
    reveal_strlit("name");
    reveal_strlit("desc");
    reveal_strlit("description");
    reveal_strlit("ctx");
    reveal_strlit("context");
    reveal_strlit("Context");
    reveal_strlit("scalar");
    reveal_strlit("Scalar");
    reveal_strlit("ScalarValue");
    reveal_strlit("behave");
    reveal_strlit("behavior");
    reveal_strlit("rename_all");
    reveal_strlit("internal");
    assert("name"@[0] != "desc"@[0]);
    assert("name"@.len() != "description"@.len());
    assert("name"@.len() != "ctx"@.len());
    assert("name"@.len() != "context"@.len());
    assert("name"@.len() != "Context"@.len());
    assert("name"@.len() != "scalar"@.len());
    assert("name"@.len() != "Scalar"@.len());
    assert("name"@.len() != "ScalarValue"@.len());
    assert("name"@.len() != "behave"@.len());
    assert("name"@.len() != "behavior"@.len());
    assert("name"@.len() != "rename_all"@.len());
    assert("name"@.len() != "internal"@.len());
    assert("desc"@.len() != "description"@.len());
    assert("desc"@.len() != "ctx"@.len());
    assert("desc"@.len() != "context"@.len());
    assert("desc"@.len() != "Context"@.len());
    assert("desc"@.len() != "scalar"@.len());
    assert("desc"@.len() != "Scalar"@.len());
    assert("desc"@.len() != "ScalarValue"@.len());
    assert("desc"@.len() != "behave"@.len());
    assert("desc"@.len() != "behavior"@.len());
    assert("desc"@.len() != "rename_all"@.len());
    assert("desc"@.len() != "internal"@.len());
    assert("description"@.len() != "ctx"@.len());
    assert("description"@.len() != "context"@.len());
    assert("description"@.len() != "Context"@.len());
    assert("description"@.len() != "scalar"@.len());
    assert("description"@.len() != "Scalar"@.len());
    assert("description"@[0] != "ScalarValue"@[0]);
    assert("description"@.len() != "behave"@.len());
    assert("description"@.len() != "behavior"@.len());
    assert("description"@.len() != "rename_all"@.len());
    assert("description"@.len() != "internal"@.len());
    assert("ctx"@.len() != "context"@.len());
    assert("ctx"@.len() != "Context"@.len());
    assert("ctx"@.len() != "scalar"@.len());
    assert("ctx"@.len() != "Scalar"@.len());
    assert("ctx"@.len() != "ScalarValue"@.len());
    assert("ctx"@.len() != "behave"@.len());
    assert("ctx"@.len() != "behavior"@.len());
    assert("ctx"@.len() != "rename_all"@.len());
    assert("ctx"@.len() != "internal"@.len());
    assert("context"@[0] != "Context"@[0]);
    assert("context"@.len() != "scalar"@.len());
    assert("context"@.len() != "Scalar"@.len());
    assert("context"@.len() != "ScalarValue"@.len());
    assert("context"@.len() != "behave"@.len());
    assert("context"@.len() != "behavior"@.len());
    assert("context"@.len() != "rename_all"@.len());
    assert("context"@.len() != "internal"@.len());
    assert("Context"@.len() != "scalar"@.len());
    assert("Context"@.len() != "Scalar"@.len());
    assert("Context"@.len() != "ScalarValue"@.len());
    assert("Context"@.len() != "behave"@.len());
    assert("Context"@.len() != "behavior"@.len());
    assert("Context"@.len() != "rename_all"@.len());
    assert("Context"@.len() != "internal"@.len());
    assert("scalar"@[0] != "Scalar"@[0]);
    assert("scalar"@.len() != "ScalarValue"@.len());
    assert("scalar"@[0] != "behave"@[0]);
    assert("scalar"@.len() != "behavior"@.len());
    assert("scalar"@.len() != "rename_all"@.len());
    assert("scalar"@.len() != "internal"@.len());
    assert("Scalar"@.len() != "ScalarValue"@.len());
    assert("Scalar"@[0] != "behave"@[0]);
    assert("Scalar"@.len() != "behavior"@.len());
    assert("Scalar"@.len() != "rename_all"@.len());
    assert("Scalar"@.len() != "internal"@.len());
    assert("ScalarValue"@.len() != "behave"@.len());
    assert("ScalarValue"@.len() != "behavior"@.len());
    assert("ScalarValue"@.len() != "rename_all"@.len());
    assert("ScalarValue"@.len() != "internal"@.len());
    assert("behave"@.len() != "behavior"@.len());
    assert("behave"@.len() != "rename_all"@.len());
    assert("behave"@.len() != "internal"@.len());
    assert("behavior"@.len() != "rename_all"@.len());
    assert("behavior"@[0] != "internal"@[0]);
    assert("rename_all"@.len() != "internal"@.len());
}

/// The argument that `ident` names; `None` for an unknown argument.
pub fn container_arg_key(ident: &str) -> (res: Option<ContainerArgKey>)
    ensures
        res == container_arg_key_spec(ident@),
        ident@ == "name"@ ==> res == Some(ContainerArgKey::Name),
        ident@ == "desc"@ ==> res == Some(ContainerArgKey::Description),
        ident@ == "description"@ ==> res == Some(ContainerArgKey::Description),
        ident@ == "ctx"@ ==> res == Some(ContainerArgKey::Context),
        ident@ == "context"@ ==> res == Some(ContainerArgKey::Context),
        ident@ == "Context"@ ==> res == Some(ContainerArgKey::Context),
        ident@ == "scalar"@ ==> res == Some(ContainerArgKey::Scalar),
        ident@ == "Scalar"@ ==> res == Some(ContainerArgKey::Scalar),
        ident@ == "ScalarValue"@ ==> res == Some(ContainerArgKey::Scalar),
        ident@ == "behave"@ ==> res == Some(ContainerArgKey::Behavior),
        ident@ == "behavior"@ ==> res == Some(ContainerArgKey::Behavior),
        ident@ == "rename_all"@ ==> res == Some(ContainerArgKey::RenameAll),
        ident@ == "internal"@ ==> res == Some(ContainerArgKey::Internal),
        res is Some ==> (ident@ == "name"@ || ident@ == "desc"@ || ident@ == "description"@ || ident@ == "ctx"@ || ident@ == "context"@ || ident@ == "Context"@ || ident@ == "scalar"@ || ident@ == "Scalar"@ || ident@ == "ScalarValue"@ || ident@ == "behave"@ || ident@ == "behavior"@ || ident@ == "rename_all"@ || ident@ == "internal"@),
{
    proof {
        reveal_strlit("name");
        reveal_strlit("desc");
        reveal_strlit("description");
        reveal_strlit("ctx");
        reveal_strlit("context");
        reveal_strlit("Context");
        reveal_strlit("scalar");
        reveal_strlit("Scalar");
        reveal_strlit("ScalarValue");
        reveal_strlit("behave");
        reveal_strlit("behavior");
        reveal_strlit("rename_all");
        reveal_strlit("internal");
        assert("name"@[0] != "desc"@[0]);
        assert("name"@.len() != "description"@.len());
        assert("name"@.len() != "ctx"@.len());
        assert("name"@.len() != "context"@.len());
        assert("name"@.len() != "Context"@.len());
        assert("name"@.len() != "scalar"@.len());
        assert("name"@.len() != "Scalar"@.len());
        assert("name"@.len() != "ScalarValue"@.len());
        assert("name"@.len() != "behave"@.len());
        assert("name"@.len() != "behavior"@.len());
        assert("name"@.len() != "rename_all"@.len());
        assert("name"@.len() != "internal"@.len());
        assert("desc"@.len() != "description"@.len());
        assert("desc"@.len() != "ctx"@.len());
        assert("desc"@.len() != "context"@.len());
        assert("desc"@.len() != "Context"@.len());
        assert("desc"@.len() != "scalar"@.len());
        assert("desc"@.len() != "Scalar"@.len());
        assert("desc"@.len() != "ScalarValue"@.len());
        assert("desc"@.len() != "behave"@.len());
        assert("desc"@.len() != "behavior"@.len());
        assert("desc"@.len() != "rename_all"@.len());
        assert("desc"@.len() != "internal"@.len());
        assert("description"@.len() != "ctx"@.len());
        assert("description"@.len() != "context"@.len());
        assert("description"@.len() != "Context"@.len());
        assert("description"@.len() != "scalar"@.len());
        assert("description"@.len() != "Scalar"@.len());
        assert("description"@[0] != "ScalarValue"@[0]);
        assert("description"@.len() != "behave"@.len());
        assert("description"@.len() != "behavior"@.len());
        assert("description"@.len() != "rename_all"@.len());
        assert("description"@.len() != "internal"@.len());
        assert("ctx"@.len() != "context"@.len());
        assert("ctx"@.len() != "Context"@.len());
        assert("ctx"@.len() != "scalar"@.len());
        assert("ctx"@.len() != "Scalar"@.len());
        assert("ctx"@.len() != "ScalarValue"@.len());
        assert("ctx"@.len() != "behave"@.len());
        assert("ctx"@.len() != "behavior"@.len());
        assert("ctx"@.len() != "rename_all"@.len());
        assert("ctx"@.len() != "internal"@.len());
        assert("context"@[0] != "Context"@[0]);
        assert("context"@.len() != "scalar"@.len());
        assert("context"@.len() != "Scalar"@.len());
        assert("context"@.len() != "ScalarValue"@.len());
        assert("context"@.len() != "behave"@.len());
        assert("context"@.len() != "behavior"@.len());
        assert("context"@.len() != "rename_all"@.len());
        assert("context"@.len() != "internal"@.len());
        assert("Context"@.len() != "scalar"@.len());
        assert("Context"@.len() != "Scalar"@.len());
        assert("Context"@.len() != "ScalarValue"@.len());
        assert("Context"@.len() != "behave"@.len());
        assert("Context"@.len() != "behavior"@.len());
        assert("Context"@.len() != "rename_all"@.len());
        assert("Context"@.len() != "internal"@.len());
        assert("scalar"@[0] != "Scalar"@[0]);
        assert("scalar"@.len() != "ScalarValue"@.len());
        assert("scalar"@[0] != "behave"@[0]);
        assert("scalar"@.len() != "behavior"@.len());
        assert("scalar"@.len() != "rename_all"@.len());
        assert("scalar"@.len() != "internal"@.len());
        assert("Scalar"@.len() != "ScalarValue"@.len());
        assert("Scalar"@[0] != "behave"@[0]);
        assert("Scalar"@.len() != "behavior"@.len());
        assert("Scalar"@.len() != "rename_all"@.len());
        assert("Scalar"@.len() != "internal"@.len());
        assert("ScalarValue"@.len() != "behave"@.len());
        assert("ScalarValue"@.len() != "behavior"@.len());
        assert("ScalarValue"@.len() != "rename_all"@.len());
        assert("ScalarValue"@.len() != "internal"@.len());
        assert("behave"@.len() != "behavior"@.len());
        assert("behave"@.len() != "rename_all"@.len());
        assert("behave"@.len() != "internal"@.len());
        assert("behavior"@.len() != "rename_all"@.len());
        assert("behavior"@[0] != "internal"@[0]);
        assert("rename_all"@.len() != "internal"@.len());
    }
    if text_is(ident, "name") {
        Some(ContainerArgKey::Name)
    } else if text_is(ident, "desc") || text_is(ident, "description") {
        Some(ContainerArgKey::Description)
    } else if text_is(ident, "ctx") || text_is(ident, "context") || text_is(ident, "Context") {
        Some(ContainerArgKey::Context)
    } else if text_is(ident, "scalar") || text_is(ident, "Scalar") || text_is(ident, "ScalarValue") {
        Some(ContainerArgKey::Scalar)
    } else if text_is(ident, "behave") || text_is(ident, "behavior") {
        Some(ContainerArgKey::Behavior)
    } else if text_is(ident, "rename_all") {
        Some(ContainerArgKey::RenameAll)
    } else if text_is(ident, "internal") {
        Some(ContainerArgKey::Internal)
    } else {
        None
    }
}

/// One argument of `#[graphql(...)]` on an enum or an input object, with
/// its value; `T` stands for the Rust types that some arguments carry.
pub enum ContainerArg<T> {
    Name(String),
    Description(String),
    Context(T),
    Scalar(T),
    Behavior(T),
    RenameAll(Policy),
    Internal,
}

/// The arguments given by `#[graphql(...)]` attributes on an enum or an input
/// object.
pub struct ContainerAttr<T> {
    pub name: Option<String>,
    pub description: Option<String>,
    pub context: Option<T>,
    pub scalar: Option<T>,
    pub behavior: Option<T>,
    pub rename_values: Option<Policy>,
    pub is_internal: bool,
}

/// No argument given.
pub open spec fn enum_empty<T>() -> ContainerAttr<T> {
    ContainerAttr {
        name: None,
        description: None,
        context: None,
        scalar: None,
        behavior: None,
        rename_values: None,
        is_internal: false,
    }
}

/// Whether giving `x` in `a` gives an argument a second time (`internal`
/// may be repeated).
pub open spec fn enum_dup<T>(a: ContainerAttr<T>, x: ContainerArg<T>) -> bool {
    match x {
        ContainerArg::Name(_) => a.name is Some,
        ContainerArg::Description(_) => a.description is Some,
        ContainerArg::Context(_) => a.context is Some,
        ContainerArg::Scalar(_) => a.scalar is Some,
        ContainerArg::Behavior(_) => a.behavior is Some,
        ContainerArg::RenameAll(_) => a.rename_values is Some,
        ContainerArg::Internal => false,
    }
}

/// `a` with the argument `x` given.
pub open spec fn enum_with<T>(a: ContainerAttr<T>, x: ContainerArg<T>) -> ContainerAttr<T> {
    match x {
        ContainerArg::Name(s) => ContainerAttr { name: Some(s), ..a },
        ContainerArg::Description(s) => ContainerAttr { description: Some(s), ..a },
        ContainerArg::Context(t) => ContainerAttr { context: Some(t), ..a },
        ContainerArg::Scalar(t) => ContainerAttr { scalar: Some(t), ..a },
        ContainerArg::Behavior(t) => ContainerAttr { behavior: Some(t), ..a },
        ContainerArg::RenameAll(p) => ContainerAttr { rename_values: Some(p), ..a },
        ContainerArg::Internal => ContainerAttr { is_internal: true, ..a },
    }
}

/// The arguments of one attribute, read in order: each is recorded, and the
/// first one given a second time is refused, by its position.
pub open spec fn enum_parse_spec<T>(args: Seq<ContainerArg<T>>) -> Result<ContainerAttr<T>, int>
    decreases args.len(),
{
    if args.len() == 0 {
        Ok(enum_empty())
    } else {
        match enum_parse_spec(args.drop_last()) {
            Err(i) => Err(i),
            Ok(a) => if enum_dup(a, args.last()) {
                Err(args.len() - 1)
            } else {
                Ok(enum_with(a, args.last()))
            },
        }
    }
}

/// The first argument (in declaration order) given by both `a` and `b`.
pub open spec fn enum_first_common<T>(a: ContainerAttr<T>, b: ContainerAttr<T>) -> Option<ContainerArgKey> {
    if a.name is Some && b.name is Some {
        Some(ContainerArgKey::Name)
    } else if a.description is Some && b.description is Some {
        Some(ContainerArgKey::Description)
    } else if a.context is Some && b.context is Some {
        Some(ContainerArgKey::Context)
    } else if a.scalar is Some && b.scalar is Some {
        Some(ContainerArgKey::Scalar)
    } else if a.behavior is Some && b.behavior is Some {
        Some(ContainerArgKey::Behavior)
    } else if a.rename_values is Some && b.rename_values is Some {
        Some(ContainerArgKey::RenameAll)
    } else {
        None
    }
}

/// The arguments of `a` and `b` together, when no argument is in both.
pub open spec fn enum_merge_spec<T>(a: ContainerAttr<T>, b: ContainerAttr<T>) -> ContainerAttr<T> {
    ContainerAttr {
        name: merge_opt(a.name, b.name)->0,
        description: merge_opt(a.description, b.description)->0,
        context: merge_opt(a.context, b.context)->0,
        scalar: merge_opt(a.scalar, b.scalar)->0,
        behavior: merge_opt(a.behavior, b.behavior)->0,
        rename_values: merge_opt(a.rename_values, b.rename_values)->0,
        is_internal: a.is_internal || b.is_internal,
    }
}

proof fn lemma_enum_parse_error_stays<T>(args: Seq<ContainerArg<T>>, k: int)
    requires
        0 <= k <= args.len(),
        enum_parse_spec(args.take(k)) is Err,
    ensures
        enum_parse_spec(args) == enum_parse_spec(args.take(k)),
    decreases args.len() - k,
{
    if k < args.len() {
        assert(args.take(k + 1).drop_last() =~= args.take(k));
        lemma_enum_parse_error_stays(args, k + 1);
    } else {
        assert(args.take(k) =~= args);
    }
}

impl<T> ContainerAttr<T> {
    /// An attribute with no argument.
    pub fn new() -> (res: Self)
        ensures
            res == enum_empty::<T>(),
    {
        ContainerAttr {
            name: None,
            description: None,
            context: None,
            scalar: None,
            behavior: None,
            rename_values: None,
            is_internal: false,
        }
    }

    /// Records the argument `x`, at position `i` of its attribute, after
    /// those already recorded; refused, by its position, where it is given a
    /// second time: the step by which the arguments of one attribute are
    /// read.
    pub fn add(self, x: ContainerArg<T>, i: usize) -> (res: Result<Self, usize>)
        ensures
            forall|before: Seq<ContainerArg<T>>|
                before.len() == i && enum_parse_spec(before) == Ok::<ContainerAttr<T>, int>(self) ==> match #[trigger] enum_parse_spec(
                    before.push(x),
                ) {
                    Ok(a) => res matches Ok(r) && r == a,
                    Err(j) => res matches Err(e) && e == j,
                },
    {
        let mut out = self;
        proof {
            assert forall|before: Seq<ContainerArg<T>>| before.len() == i implies #[trigger] before.push(x).drop_last() == before by {
                assert(before.push(x).drop_last() =~= before);
            }
        }
        let dup = match &x {
            ContainerArg::Name(_) => out.name.is_some(),
            ContainerArg::Description(_) => out.description.is_some(),
            ContainerArg::Context(_) => out.context.is_some(),
            ContainerArg::Scalar(_) => out.scalar.is_some(),
            ContainerArg::Behavior(_) => out.behavior.is_some(),
            ContainerArg::RenameAll(_) => out.rename_values.is_some(),
            ContainerArg::Internal => false,
        };
        if dup {
            return Err(i);
        }
        match x {
            ContainerArg::Name(s) => out.name = Some(s),
            ContainerArg::Description(s) => out.description = Some(s),
            ContainerArg::Context(t) => out.context = Some(t),
            ContainerArg::Scalar(t) => out.scalar = Some(t),
            ContainerArg::Behavior(t) => out.behavior = Some(t),
            ContainerArg::RenameAll(p) => out.rename_values = Some(p),
            ContainerArg::Internal => out.is_internal = true,
        }
        Ok(out)
    }

    /// Records the arguments of one `#[graphql(...)]` attribute, refusing
    /// the first argument given twice, by its position.
    pub fn parse(args: Vec<ContainerArg<T>>) -> (res: Result<Self, usize>)
        ensures
            match enum_parse_spec(args@) {
                Ok(a) => res == Ok::<Self, usize>(a),
                Err(i) => res == Err::<Self, usize>(i as usize),
            },
    {
        let ghost all = args@;
        let n = args.len();
        let mut out = ContainerAttr::new();
        let mut i: usize = 0;
        let mut rest = reversed(args);
        while rest.len() > 0
            invariant
                i + rest@.len() == n,
                n == all.len(),
                all == args@,
                forall|j: int| 0 <= j < rest@.len() ==> #[trigger] rest@[j] == all[n - 1 - j],
                enum_parse_spec(all.take(i as int)) == Ok::<Self, int>(out),
            decreases rest.len(),
        {
            let x = rest.pop().unwrap();
            proof {
                assert(x == all[i as int]);
                assert(all.take(i + 1).drop_last() =~= all.take(i as int));
                assert(all.take(i + 1).last() == x);
            }
            out = match out.add(x, i) {
                Ok(r) => r,
                Err(e) => {
                    proof {
                        assert(all.take(i as int).push(all[i as int]) =~= all.take(i + 1));
                        lemma_enum_parse_error_stays(all, i + 1);
                    }
                    return Err(e);
                },
            };
            proof {
                assert(all.take(i as int).push(all[i as int]) =~= all.take(i + 1));
            }
            i += 1;
        }
        assert(all.take(n as int) =~= all);
        Ok(out)
    }

    /// Merges the arguments of two attributes, refusing the first argument
    /// (in declaration order) that both give.
    pub fn try_merge(self, another: Self) -> (res: Result<Self, ContainerArgKey>)
        ensures
            match enum_first_common(self, another) {
                Some(k) => res == Err::<Self, ContainerArgKey>(k),
                None => res == Ok::<Self, ContainerArgKey>(enum_merge_spec(self, another)),
            },
    {
        let name = match merge_option(self.name, another.name) {
            Ok(v) => v,
            Err(_) => return Err(ContainerArgKey::Name),
        };
        let description = match merge_option(self.description, another.description) {
            Ok(v) => v,
            Err(_) => return Err(ContainerArgKey::Description),
        };
        let context = match merge_option(self.context, another.context) {
            Ok(v) => v,
            Err(_) => return Err(ContainerArgKey::Context),
        };
        let scalar = match merge_option(self.scalar, another.scalar) {
            Ok(v) => v,
            Err(_) => return Err(ContainerArgKey::Scalar),
        };
        let behavior = match merge_option(self.behavior, another.behavior) {
            Ok(v) => v,
            Err(_) => return Err(ContainerArgKey::Behavior),
        };
        let rename_values = match merge_option(self.rename_values, another.rename_values) {
            Ok(v) => v,
            Err(_) => return Err(ContainerArgKey::RenameAll),
        };
        Ok(
            ContainerAttr {
                name,
                description,
                context,
                scalar,
                behavior,
                rename_values,
                is_internal: self.is_internal || another.is_internal,
            },
        )
    }

    /// Completes the merged arguments: a missing description is taken from
    /// the doc attributes `docs`; refused at the first doc attribute with a
    /// non-string value.
    pub fn from_attrs(self, docs: &[DocAttr]) -> (res: Result<Self, usize>)
        ensures
            self.description is Some ==> res == Ok::<Self, usize>(self),
            self.description is None ==> match res {
                Err(i) => i < docs@.len() && is_not_string(docs@[i as int]) && forall|j: int|
                    0 <= j < i ==> !is_not_string(#[trigger] docs@[j]),
                Ok(a) => {
                    &&& forall|j: int| 0 <= j < docs@.len() ==> !is_not_string(#[trigger] docs@[j])
                    &&& a.name == self.name && a.context == self.context && a.scalar == self.scalar
                    &&& a.behavior == self.behavior && a.rename_values == self.rename_values
                    &&& a.is_internal == self.is_internal
                    &&& if exists|j: int| 0 <= j < docs@.len() && is_text(#[trigger] docs@[j]) {
                        a.description matches Some(d) && d@ == concatenated(doc_texts(docs@, docs@.len() as int))
                    } else {
                        a.description is None
                    }
                },
            },
    {
        if self.description.is_some() {
            return Ok(self);
        }
        let mut attr = self;
        match parse_from_doc_attrs(docs) {
            Err(i) => Err(i),
            Ok(Some(d)) => {
                proof {
                    assert(is_text(docs@[d.first as int]));
                }
                attr.description = Some(d.description.text);
                Ok(attr)
            },
            Ok(None) => Ok(attr),
        }
    }
}

/// Arguments split over two `#[graphql]` attributes on an enum or an input
/// object mean what they mean in a single one: the two are accepted
/// together exactly when each is and they share no argument, and then they
/// give the same arguments.
pub proof fn law_split_container_attributes<T>(a: Seq<ContainerArg<T>>, b: Seq<ContainerArg<T>>)
    ensures
        enum_parse_spec(a + b) is Ok <==> (enum_parse_spec(a) is Ok && enum_parse_spec(b) is Ok
            && enum_first_common(enum_parse_spec(a)->Ok_0, enum_parse_spec(b)->Ok_0) is None),
        enum_parse_spec(a + b) is Ok ==> enum_parse_spec(a + b)->Ok_0 == enum_merge_spec(
            enum_parse_spec(a)->Ok_0,
            enum_parse_spec(b)->Ok_0,
        ),
    decreases b.len(),
{
    if b.len() == 0 {
        assert(a + b =~= a);
    } else {
        law_split_container_attributes(a, b.drop_last());
        assert((a + b).drop_last() =~= a + b.drop_last());
        assert((a + b).last() == b.last());
    }
}

/// A Rust enum variant, as far as its GraphQL enum value is concerned.
pub struct VariantInput<S> {
    /// Its `#[graphql]` arguments, completed, or the diagnostic refusing
    /// them.
    pub attr: Result<FieldAttr, Diagnostic<S>>,
    /// The text of its identifier.
    pub ident: String,
    /// Where its fields are, if it has any.
    pub fields: Option<S>,
}

/// A GraphQL enum value.
pub struct ValueDefinition {
    /// The identifier of the Rust variant behind it.
    pub ident: String,
    pub name: String,
    pub description: Option<String>,
    pub deprecated: Option<Option<String>>,
}

/// Message of the diagnostic about a non-ignored variant with fields.
pub const VARIANT_WITH_FIELDS: &'static str = "no fields allowed for non-ignored variants";

/// Message of the error about an enum with no value.
pub const NO_VALUES: &'static str = "expected at least 1 non-ignored enum variant";

/// Message of the error about values with the same name.
pub const VALUES_NOT_UNIQUE: &'static str = "expected all GraphQL enum values to have unique names";

/// Message of the error about deriving on something else than an enum.
pub const NOT_AN_ENUM: &'static str = "can only be derived on enums";

/// The diagnostic about a non-ignored variant with fields, pointing at
/// `span`.
pub fn err_variant_with_fields<S: Copy>(span: S) -> (res: Diagnostic<S>)
    ensures
        is_scoped_diag(res, Scope::EnumDerive, span, VARIANT_WITH_FIELDS@),
{
    Scope::EnumDerive.custom(span, VARIANT_WITH_FIELDS)
}

/// What a variant becomes.
pub enum ValueOutcome<S> {
    /// A GraphQL enum value.
    Value(ValueDefinition),
    /// Nothing: it is ignored.
    Ignored,
    /// Nothing, and this diagnostic is emitted.
    Refused(Diagnostic<S>),
}

/// The name of the value of a variant: the explicit one, or the variant's
/// identifier renamed.
pub open spec fn value_name<S>(v: VariantInput<S>, a: FieldAttr, renaming: Policy) -> Seq<char> {
    match a.name {
        Some(n) => n@,
        None => apply_spec(renaming, unraw_spec(v.ident@)),
    }
}

/// Whether renaming the variant, where that happens, is defined.
pub open spec fn variant_defined<S>(v: VariantInput<S>, renaming: Policy) -> bool {
    match v.attr {
        Ok(a) => !a.ignore && v.fields is None && a.name is None ==> apply_defined(
            renaming,
            unraw_spec(v.ident@),
        ),
        Err(_) => true,
    }
}

/// What the variant `v` becomes, given the `renaming` of the enum.
pub open spec fn value_outcome_ok<S>(v: VariantInput<S>, renaming: Policy, o: ValueOutcome<S>) -> bool {
    match v.attr {
        Err(d) => o == ValueOutcome::Refused(d),
        Ok(a) => if a.ignore {
            o is Ignored
        } else if v.fields is Some {
            o matches ValueOutcome::Refused(d) && is_scoped_diag(d, Scope::EnumDerive, v.fields->0, VARIANT_WITH_FIELDS@)
        } else {
            o matches ValueOutcome::Value(val) && val.ident == v.ident && val.name@ == value_name(v, a, renaming)
                && val.description == a.description && val.deprecated == a.deprecated
        },
    }
}

/// Decides what the variant `v` becomes.
pub fn parse_value<S: Copy>(v: VariantInput<S>, renaming: Policy) -> (res: ValueOutcome<S>)
    requires
        variant_defined(v, renaming),
    ensures
        value_outcome_ok(v, renaming, res),
{
    let a = match v.attr {
        Err(d) => return ValueOutcome::Refused(d),
        Ok(a) => a,
    };
    if a.ignore {
        return ValueOutcome::Ignored;
    }
    if let Some(span) = v.fields {
        return ValueOutcome::Refused(err_variant_with_fields(span));
    }
    let name = match a.name {
        Some(n) => n,
        None => {
            let u = unraw(v.ident.as_str());
            renaming.apply(u.as_str())
        },
    };
    ValueOutcome::Value(
        ValueDefinition { ident: v.ident, name, description: a.description, deprecated: a.deprecated },
    )
}

impl<T> ContainerAttr<T> {
    /// The renaming of an enum's values: the explicit one, or
    /// `SCREAMING_SNAKE_CASE`.
    pub fn renaming(&self) -> (res: Policy)
        ensures
            res == match self.rename_values {
                Some(p) => p,
                None => Policy::ScreamingSnakeCase,
            },
    {
        match self.rename_values {
            Some(p) => p,
            None => Policy::ScreamingSnakeCase,
        }
    }

    /// The renaming of an input object's fields: the explicit one, or
    /// `camelCase`.
    pub fn fields_renaming(&self) -> (res: Policy)
        ensures
            res == match self.rename_values {
                Some(p) => p,
                None => Policy::CamelCase,
            },
    {
        match self.rename_values {
            Some(p) => p,
            None => Policy::CamelCase,
        }
    }
}

/// The diagnostics of the refused variants among `outs`, in order.
pub open spec fn refused_diags<S>(outs: Seq<ValueOutcome<S>>) -> Seq<Diagnostic<S>>
    decreases outs.len(),
{
    if outs.len() == 0 {
        Seq::empty()
    } else {
        match outs.last() {
            ValueOutcome::Refused(d) => refused_diags(outs.drop_last()).push(d),
            _ => refused_diags(outs.drop_last()),
        }
    }
}

/// The values among `outs`, in order.
pub open spec fn values_in<S>(outs: Seq<ValueOutcome<S>>) -> Seq<ValueDefinition>
    decreases outs.len(),
{
    if outs.len() == 0 {
        Seq::empty()
    } else {
        match outs.last() {
            ValueOutcome::Value(v) => values_in(outs.drop_last()).push(v),
            _ => values_in(outs.drop_last()),
        }
    }
}

/// Whether some variant among `outs` gives no value.
pub open spec fn some_ignored<S>(outs: Seq<ValueOutcome<S>>) -> bool {
    exists|i: int| 0 <= i < outs.len() && !(#[trigger] outs[i] is Value)
}

/// The names of `values`.
pub open spec fn value_names(values: Seq<ValueDefinition>) -> Seq<Seq<char>> {
    values.map_values(|v: ValueDefinition| v.name@)
}

/// An enum, as far as its GraphQL enum is concerned.
pub struct EnumInput<S, T> {
    /// Its completed `#[graphql]` arguments.
    pub attr: ContainerAttr<T>,
    /// The text of its identifier.
    pub ident: String,
    /// Where a name starting with `__` is reported: the explicit name if
    /// there is one, else the identifier.
    pub name_span: S,
    /// Where the whole input is.
    pub span: S,
    /// Where its variants are.
    pub variants_span: S,
    /// What each variant becomes; `None` when the input is not an enum.
    pub values: Option<Vec<ValueOutcome<S>>>,
}

/// A GraphQL enum, ready for code generation.
pub struct EnumDefinition<T> {
    pub name: String,
    pub description: Option<String>,
    pub context: Option<T>,
    pub scalar: Option<T>,
    pub behavior: Option<T>,
    pub values: Vec<ValueDefinition>,
    pub has_ignored_variants: bool,
}

/// What deriving a GraphQL enum ends with.
pub enum EnumExpansion<S, T> {
    /// Diagnostics were emitted: the macro stops.
    Aborted,
    /// The derive fails with this message, pointing at `span`.
    Failed { span: S, msg: String },
    /// The GraphQL enum to generate code for.
    Done(EnumDefinition<T>),
}

/// The GraphQL name of the enum: the explicit one, or its identifier.
pub open spec fn enum_name<S, T>(input: EnumInput<S, T>) -> Seq<char> {
    match input.attr.name {
        Some(n) => n@,
        None => unraw_spec(input.ident@),
    }
}

/// Decides the GraphQL enum that `input` derives, emitting the diagnostics
/// of refused variants, and of a reserved name, into `session`.
pub fn expand<S: Copy, T>(input: EnumInput<S, T>, session: &mut Session<S>) -> (res: EnumExpansion<S, T>)
    requires
        old(session).state().depth > 0,
    ensures
        final(session).state().depth == old(session).state().depth,
        match input.values {
            None => final(session).state() == old(session).state() && (res matches EnumExpansion::Failed { span, msg }
                && span == input.span && msg@ == scoped_message(Scope::EnumDerive, NOT_AN_ENUM@)),
            Some(outs) => {
                let errs = old(session).state().errors + refused_diags(outs@);
                let values = values_in(outs@);
                if errs.len() > 0 {
                    final(session).state().errors == errs && res is Aborted
                } else if values.len() == 0 {
                    final(session).state().errors == errs && (res matches EnumExpansion::Failed { span, msg }
                        && span == input.variants_span && msg@ == scoped_message(Scope::EnumDerive, NO_VALUES@))
                } else if !pairwise_distinct(value_names(values)) {
                    final(session).state().errors == errs && (res matches EnumExpansion::Failed { span, msg }
                        && span == input.variants_span && msg@ == scoped_message(Scope::EnumDerive, VALUES_NOT_UNIQUE@))
                } else if !input.attr.is_internal && starts_with(enum_name(input), "__"@) {
                    final(session).state().errors.len() == 1 && is_reserved_diag(final(session).state().errors[0], input.name_span)
                        && res is Aborted
                } else {
                    final(session).state().errors == errs && (res matches EnumExpansion::Done(def) && {
                        &&& def.name@ == enum_name(input)
                        &&& def.description == input.attr.description
                        &&& def.context == input.attr.context
                        &&& def.scalar == input.attr.scalar
                        &&& def.behavior == input.attr.behavior
                        &&& def.values@ == values
                        &&& def.has_ignored_variants == some_ignored(outs@)
                    })
                }
            },
        },
{
    let outs = match input.values {
        None => {
            return EnumExpansion::Failed {
                span: input.span,
                msg: Scope::EnumDerive.custom_error_message(NOT_AN_ENUM),
            };
        },
        Some(outs) => outs,
    };
    let ghost all = outs@;
    let ghost start = session.state();
    let n = outs.len();
    let mut rest = reversed(outs);
    let mut values: Vec<ValueDefinition> = Vec::new();
    let mut names: Vec<String> = Vec::new();
    let mut has_ignored_variants = false;
    let mut i: usize = 0;
    while rest.len() > 0
        invariant
            i + rest@.len() == n,
            n == all.len(),
            forall|j: int| 0 <= j < rest@.len() ==> #[trigger] rest@[j] == all[n - 1 - j],
            session.state().depth == start.depth,
            start.depth > 0,
            session.state().errors == start.errors + refused_diags(all.take(i as int)),
            values@ == values_in(all.take(i as int)),
            names@.len() == values@.len(),
            forall|j: int| 0 <= j < names@.len() ==> #[trigger] names@[j]@ == values@[j].name@,
            has_ignored_variants == some_ignored(all.take(i as int)),
        decreases rest.len(),
    {
        let o = rest.pop().unwrap();
        let ghost pre = all.take(i as int);
        let ghost now = all.take(i + 1);
        proof {
            assert(o == all[i as int]);
            assert(now.drop_last() =~= pre);
            assert(now.last() == o);
        }
        match o {
            ValueOutcome::Value(v) => {
                names.push(v.name.clone());
                values.push(v);
                proof {
                    if some_ignored(now) {
                        let k = choose|k: int| 0 <= k < now.len() && !(#[trigger] now[k] is Value);
                        assert(pre[k] == now[k]);
                    }
                    if some_ignored(pre) {
                        let k = choose|k: int| 0 <= k < pre.len() && !(#[trigger] pre[k] is Value);
                        assert(now[k] == pre[k]);
                    }
                }
            },
            ValueOutcome::Ignored => {
                has_ignored_variants = true;
                assert(!(now[i as int] is Value));
            },
            ValueOutcome::Refused(d) => {
                session.emit(d);
                has_ignored_variants = true;
                assert(!(now[i as int] is Value));
                assert(start.errors + refused_diags(now) =~= (start.errors + refused_diags(pre)).push(d));
            },
        }
        i += 1;
    }
    assert(all.take(n as int) =~= all);
    if session.abort_if_dirty() == Control::Abort {
        return EnumExpansion::Aborted;
    }
    if values.len() == 0 {
        return EnumExpansion::Failed {
            span: input.variants_span,
            msg: Scope::EnumDerive.custom_error_message(NO_VALUES),
        };
    }
    let unique = all_different(names.as_slice());
    proof {
        assert(names@.map_values(|s: String| s@) =~= value_names(values@));
    }
    if !unique {
        return EnumExpansion::Failed {
            span: input.variants_span,
            msg: Scope::EnumDerive.custom_error_message(VALUES_NOT_UNIQUE),
        };
    }
    let name = match input.attr.name {
        Some(n) => n,
        None => unraw(input.ident.as_str()),
    };
    if !input.attr.is_internal && starts_with_double_underscore(&name) {
        session.emit(Scope::EnumDerive.no_double_underscore(input.name_span));
    }
    if session.abort_if_dirty() == Control::Abort {
        return EnumExpansion::Aborted;
    }
    EnumExpansion::Done(
        EnumDefinition {
            name,
            description: input.attr.description,
            context: input.attr.context,
            scalar: input.attr.scalar,
            behavior: input.attr.behavior,
            values,
            has_ignored_variants,
        },
    )
}

/// Message of the error that resolving an ignored variant gives.
pub const IGNORED_VARIANT_RESOLVED: &'static str = "Cannot resolve ignored enum variant";

/// The `match` of the enum's value resolver: one arm per value, from the
/// Rust variant to the value's GraphQL name, in order, and an arm refusing
/// ignored variants exactly when the enum has any.
pub struct ResolvePlan {
    /// The arms: the identifier of the variant and the name it resolves to.
    pub arms: Vec<(String, String)>,
    /// Whether the `match` ends with the arm refusing ignored variants.
    pub ignored_arm: bool,
}

/// The `match` of the value resolver of the enum `def`.
pub fn enum_resolve_plan<T>(def: &EnumDefinition<T>) -> (res: ResolvePlan)
    ensures
        res.arms@.len() == def.values@.len(),
        forall|i: int|
            0 <= i < res.arms@.len() ==> (#[trigger] res.arms@[i]).0 == def.values@[i].ident && res.arms@[i].1
                == def.values@[i].name,
        res.ignored_arm == def.has_ignored_variants,
{
    let mut arms: Vec<(String, String)> = Vec::new();
    let mut i: usize = 0;
    while i < def.values.len()
        invariant
            i <= def.values@.len(),
            arms@.len() == i,
            forall|j: int|
                0 <= j < i ==> (#[trigger] arms@[j]).0 == def.values@[j].ident && arms@[j].1 == def.values@[j].name,
        decreases def.values@.len() - i,
    {
        arms.push((def.values[i].ident.clone(), def.values[i].name.clone()));
        i += 1;
    }
    ResolvePlan { arms, ignored_arm: def.has_ignored_variants }
}

} // verus!

//! `#[derive(GraphQLInputObject)]`: the arguments of `#[graphql(...)]` on
//! an input object's fields, and the decisions that turn a struct, or an
//! enum (`@oneOf`), into a GraphQL input object.
use vstd::prelude::*;

use crate::arg::starts_with_double_underscore;
use crate::attr::{merge_opt, merge_option, reversed};
use crate::definition::{graphql_name, UNNAMED_FIELD};
use crate::description::{concatenated, doc_texts, is_not_string, is_text, parse_from_doc_attrs, DocAttr};
use crate::diagnostic::{
    double_underscore_message, is_reserved_diag, is_scoped_diag, schema_link, scoped_message, spec_link_of, Diagnostic, Scope,
};
use crate::field::{all_different, pairwise_distinct};
use crate::graphql_enum::ContainerAttr;
use crate::rename::{apply_defined, apply_spec, Policy};
use crate::session::{Control, Session};
use crate::text::{starts_with, text_is, unraw, unraw_spec};

verus! {

/// The arguments that `#[graphql(...)]` takes on an input object's field.
#[derive(Clone, Copy, Debug, PartialEq, Eq, Structural)]
pub enum InputFieldArgKey {
    /// `name = "..."`.
    Name,
    /// `desc = "..."` or `description = "..."`.
    Description,
    /// `default` or `default = <expr>`.
    Default,
    /// `behave = ...` or `behavior = ...`.
    Behavior,
    /// `ignore` or `skip`.
    Ignore,
}

/// The argument that `ident` names, if any.
pub open spec fn input_field_arg_key_spec(ident: Seq<char>) -> Option<InputFieldArgKey> {
    if ident == "name"@ {
        Some(InputFieldArgKey::Name)
    } else if ident == "desc"@ || ident == "description"@ {
        Some(InputFieldArgKey::Description)
    } else if ident == "default"@ {
        Some(InputFieldArgKey::Default)
    } else if ident == "behave"@ || ident == "behavior"@ {
        Some(InputFieldArgKey::Behavior)
    } else if ident == "ignore"@ || ident == "skip"@ {
        Some(InputFieldArgKey::Ignore)
    } else {
        None
    }
}

/// The keywords that name an argument here are exactly `name`, `desc`, `description`, `default`, `behave`, `behavior`, `ignore`, `skip`, each naming
/// the argument listed.
pub proof fn law_input_field_keywords(ident: Seq<char>)
    ensures
        ident == "name"@ ==> input_field_arg_key_spec(ident) == Some(InputFieldArgKey::Name),
        ident == "desc"@ ==> input_field_arg_key_spec(ident) == Some(InputFieldArgKey::Description),
        ident == "description"@ ==> input_field_arg_key_spec(ident) == Some(InputFieldArgKey::Description),
        ident == "default"@ ==> input_field_arg_key_spec(ident) == Some(InputFieldArgKey::Default),
        ident == "behave"@ ==> input_field_arg_key_spec(ident) == Some(InputFieldArgKey::Behavior),
        ident == "behavior"@ ==> input_field_arg_key_spec(ident) == Some(InputFieldArgKey::Behavior),
        ident == "ignore"@ ==> input_field_arg_key_spec(ident) == Some(InputFieldArgKey::Ignore),
        ident == "skip"@ ==> input_field_arg_key_spec(ident) == Some(InputFieldArgKey::Ignore),
        input_field_arg_key_spec(ident) is Some ==> (ident == "name"@ || ident == "desc"@ || ident == "description"@ || ident == "default"@ || ident == "behave"@ || ident == "behavior"@ || ident == "ignore"@ || ident == "skip"@),
{
    reveal_strlit("name");
    reveal_strlit("desc");
    reveal_strlit("description");
    reveal_strlit("default");
    reveal_strlit("behave");
    reveal_strlit("behavior");
    reveal_strlit("ignore");
    reveal_strlit("skip");
    assert("name"@[0] != "desc"@[0]);
    assert("name"@.len() != "description"@.len());
    assert("name"@.len() != "default"@.len());
    assert("name"@.len() != "behave"@.len());
    assert("name"@.len() != "behavior"@.len());
    assert("name"@.len() != "ignore"@.len());
    assert("name"@[0] != "skip"@[0]);
    assert("desc"@.len() != "description"@.len());
    assert("desc"@.len() != "default"@.len());
    assert("desc"@.len() != "behave"@.len());
    assert("desc"@.len() != "behavior"@.len());
    assert("desc"@.len() != "ignore"@.len());
    assert("desc"@[0] != "skip"@[0]);
    assert("description"@.len() != "default"@.len());
    assert("description"@.len() != "behave"@.len());
    assert("description"@.len() != "behavior"@.len());
    assert("description"@.len() != "ignore"@.len());
    assert("description"@.len() != "skip"@.len());
    assert("default"@.len() != "behave"@.len());
    assert("default"@.len() != "behavior"@.len());
    assert("default"@.len() != "ignore"@.len());
    assert("default"@.len() != "skip"@.len());
    assert("behave"@.len() != "behavior"@.len());
    assert("behave"@[0] != "ignore"@[0]);
    assert("behave"@.len() != "skip"@.len());
    assert("behavior"@.len() != "ignore"@.len());
    assert("behavior"@.len() != "skip"@.len());
    assert("ignore"@.len() != "skip"@.len());
}

/// The argument that `ident` names; `None` for an unknown argument.
pub fn input_field_arg_key(ident: &str) -> (res: Option<InputFieldArgKey>)
    ensures
        res == input_field_arg_key_spec(ident@),
        ident@ == "name"@ ==> res == Some(InputFieldArgKey::Name),
        ident@ == "desc"@ ==> res == Some(InputFieldArgKey::Description),
        ident@ == "description"@ ==> res == Some(InputFieldArgKey::Description),
        ident@ == "default"@ ==> res == Some(InputFieldArgKey::Default),
        ident@ == "behave"@ ==> res == Some(InputFieldArgKey::Behavior),
        ident@ == "behavior"@ ==> res == Some(InputFieldArgKey::Behavior),
        ident@ == "ignore"@ ==> res == Some(InputFieldArgKey::Ignore),
        ident@ == "skip"@ ==> res == Some(InputFieldArgKey::Ignore),
        res is Some ==> (ident@ == "name"@ || ident@ == "desc"@ || ident@ == "description"@ || ident@ == "default"@ || ident@ == "behave"@ || ident@ == "behavior"@ || ident@ == "ignore"@ || ident@ == "skip"@),
{
    proof {
        reveal_strlit("name");
        reveal_strlit("desc");
        reveal_strlit("description");
        reveal_strlit("default");
        reveal_strlit("behave");
        reveal_strlit("behavior");
        reveal_strlit("ignore");
        reveal_strlit("skip");
        assert("name"@[0] != "desc"@[0]);
        assert("name"@.len() != "description"@.len());
        assert("name"@.len() != "default"@.len());
        assert("name"@.len() != "behave"@.len());
        assert("name"@.len() != "behavior"@.len());
        assert("name"@.len() != "ignore"@.len());
        assert("name"@[0] != "skip"@[0]);
        assert("desc"@.len() != "description"@.len());
        assert("desc"@.len() != "default"@.len());
        assert("desc"@.len() != "behave"@.len());
        assert("desc"@.len() != "behavior"@.len());
        assert("desc"@.len() != "ignore"@.len());
        assert("desc"@[0] != "skip"@[0]);
        assert("description"@.len() != "default"@.len());
        assert("description"@.len() != "behave"@.len());
        assert("description"@.len() != "behavior"@.len());
        assert("description"@.len() != "ignore"@.len());
        assert("description"@.len() != "skip"@.len());
        assert("default"@.len() != "behave"@.len());
        assert("default"@.len() != "behavior"@.len());
        assert("default"@.len() != "ignore"@.len());
        assert("default"@.len() != "skip"@.len());
        assert("behave"@.len() != "behavior"@.len());
        assert("behave"@[0] != "ignore"@[0]);
        assert("behave"@.len() != "skip"@.len());
        assert("behavior"@.len() != "ignore"@.len());
        assert("behavior"@.len() != "skip"@.len());
        assert("ignore"@.len() != "skip"@.len());
    }
    if text_is(ident, "name") {
        Some(InputFieldArgKey::Name)
    } else if text_is(ident, "desc") || text_is(ident, "description") {
        Some(InputFieldArgKey::Description)
    } else if text_is(ident, "default") {
        Some(InputFieldArgKey::Default)
    } else if text_is(ident, "behave") || text_is(ident, "behavior") {
        Some(InputFieldArgKey::Behavior)
    } else if text_is(ident, "ignore") || text_is(ident, "skip") {
        Some(InputFieldArgKey::Ignore)
    } else {
        None
    }
}

/// One argument of `#[graphql(...)]` on an input object's field; `D`
/// stands for default values, `B` for behaviors.
pub enum InputFieldArg<D, B> {
    Name(String),
    Description(String),
    Default(D),
    Behavior(B),
    Ignore,
}

/// The arguments given by `#[graphql(...)]` attributes on an input object's
/// field.
pub struct InputFieldAttr<D, B> {
    pub name: Option<String>,
    pub description: Option<String>,
    pub default: Option<D>,
    pub behavior: Option<B>,
    pub ignore: bool,
}

/// No argument given.
pub open spec fn input_field_empty<D, B>() -> InputFieldAttr<D, B> {
    InputFieldAttr { name: None, description: None, default: None, behavior: None, ignore: false }
}

/// Whether giving `x` in `a` gives an argument a second time.
pub open spec fn input_field_dup<D, B>(a: InputFieldAttr<D, B>, x: InputFieldArg<D, B>) -> bool {
    match x {
        InputFieldArg::Name(_) => a.name is Some,
        InputFieldArg::Description(_) => a.description is Some,
        InputFieldArg::Default(_) => a.default is Some,
        InputFieldArg::Behavior(_) => a.behavior is Some,
        InputFieldArg::Ignore => a.ignore,
    }
}

/// `a` with the argument `x` given.
pub open spec fn input_field_with<D, B>(a: InputFieldAttr<D, B>, x: InputFieldArg<D, B>) -> InputFieldAttr<D, B> {
    match x {
        InputFieldArg::Name(s) => InputFieldAttr { name: Some(s), ..a },
        InputFieldArg::Description(s) => InputFieldAttr { description: Some(s), ..a },
        InputFieldArg::Default(d) => InputFieldAttr { default: Some(d), ..a },
        InputFieldArg::Behavior(b) => InputFieldAttr { behavior: Some(b), ..a },
        InputFieldArg::Ignore => InputFieldAttr { ignore: true, ..a },
    }
}

/// The arguments of one attribute, read in order: each is recorded, and the
/// first one given a second time is refused, by its position.
pub open spec fn input_field_parse_spec<D, B>(args: Seq<InputFieldArg<D, B>>) -> Result<InputFieldAttr<D, B>, int>
    decreases args.len(),
{
    if args.len() == 0 {
        Ok(input_field_empty())
    } else {
        match input_field_parse_spec(args.drop_last()) {
            Err(i) => Err(i),
            Ok(a) => if input_field_dup(a, args.last()) {
                Err(args.len() - 1)
            } else {
                Ok(input_field_with(a, args.last()))
            },
        }
    }
}

proof fn lemma_input_field_parse_error_stays<D, B>(args: Seq<InputFieldArg<D, B>>, k: int)
    requires
        0 <= k <= args.len(),
        input_field_parse_spec(args.take(k)) is Err,
    ensures
        input_field_parse_spec(args) == input_field_parse_spec(args.take(k)),
    decreases args.len() - k,
{
    if k < args.len() {
        assert(args.take(k + 1).drop_last() =~= args.take(k));
        lemma_input_field_parse_error_stays(args, k + 1);
    } else {
        assert(args.take(k) =~= args);
    }
}

/// The first argument (in declaration order) given by both `a` and `b`.
pub open spec fn input_field_first_common<D, B>(a: InputFieldAttr<D, B>, b: InputFieldAttr<D, B>) -> Option<InputFieldArgKey> {
    if a.name is Some && b.name is Some {
        Some(InputFieldArgKey::Name)
    } else if a.description is Some && b.description is Some {
        Some(InputFieldArgKey::Description)
    } else if a.default is Some && b.default is Some {
        Some(InputFieldArgKey::Default)
    } else if a.behavior is Some && b.behavior is Some {
        Some(InputFieldArgKey::Behavior)
    } else if a.ignore && b.ignore {
        Some(InputFieldArgKey::Ignore)
    } else {
        None
    }
}

/// The arguments of `a` and `b` together, when no argument is in both.
pub open spec fn input_field_merge_spec<D, B>(a: InputFieldAttr<D, B>, b: InputFieldAttr<D, B>) -> InputFieldAttr<D, B> {
    InputFieldAttr {
        name: merge_opt(a.name, b.name)->0,
        description: merge_opt(a.description, b.description)->0,
        default: merge_opt(a.default, b.default)->0,
        behavior: merge_opt(a.behavior, b.behavior)->0,
        ignore: a.ignore || b.ignore,
    }
}

impl<D, B> InputFieldAttr<D, B> {
    /// An attribute with no argument.
    pub fn new() -> (res: Self)
        ensures
            res == input_field_empty::<D, B>(),
    {
        InputFieldAttr { name: None, description: None, default: None, behavior: None, ignore: false }
    }

    /// Records the argument `x`, at position `i` of its attribute, after
    /// those already recorded; refused, by its position, where it is given a
    /// second time: the step by which the arguments of one attribute are
    /// read.
    pub fn add(self, x: InputFieldArg<D, B>, i: usize) -> (res: Result<Self, usize>)
        ensures
            forall|before: Seq<InputFieldArg<D, B>>|
                before.len() == i && input_field_parse_spec(before) == Ok::<InputFieldAttr<D, B>, int>(self) ==> match #[trigger] input_field_parse_spec(
                    before.push(x),
                ) {
                    Ok(a) => res matches Ok(r) && r == a,
                    Err(j) => res matches Err(e) && e == j,
                },
    {
        let mut out = self;
        proof {
            assert forall|before: Seq<InputFieldArg<D, B>>| before.len() == i implies #[trigger] before.push(x).drop_last() == before by {
                assert(before.push(x).drop_last() =~= before);
            }
        }
        let dup = match &x {
            InputFieldArg::Name(_) => out.name.is_some(),
            InputFieldArg::Description(_) => out.description.is_some(),
            InputFieldArg::Default(_) => out.default.is_some(),
            InputFieldArg::Behavior(_) => out.behavior.is_some(),
            InputFieldArg::Ignore => out.ignore,
        };
        if dup {
            return Err(i);
        }
        match x {
            InputFieldArg::Name(s) => out.name = Some(s),
            InputFieldArg::Description(s) => out.description = Some(s),
            InputFieldArg::Default(d) => out.default = Some(d),
            InputFieldArg::Behavior(b) => out.behavior = Some(b),
            InputFieldArg::Ignore => out.ignore = true,
        }
        Ok(out)
    }

    /// Records the arguments of one `#[graphql(...)]` attribute, refusing
    /// the first argument given twice, by its position.
    pub fn parse(args: Vec<InputFieldArg<D, B>>) -> (res: Result<Self, usize>)
        ensures
            match input_field_parse_spec(args@) {
                Ok(a) => res == Ok::<Self, usize>(a),
                Err(i) => res == Err::<Self, usize>(i as usize),
            },
    {
        let ghost all = args@;
        let n = args.len();
        let mut out = InputFieldAttr::new();
        let mut i: usize = 0;
        let mut rest = reversed(args);
        while rest.len() > 0
            invariant
                i + rest@.len() == n,
                n == all.len(),
                all == args@,
                forall|j: int| 0 <= j < rest@.len() ==> #[trigger] rest@[j] == all[n - 1 - j],
                input_field_parse_spec(all.take(i as int)) == Ok::<Self, int>(out),
            decreases rest.len(),
        {
            let x = rest.pop().unwrap();
            proof {
                assert(x == all[i as int]);
                assert(all.take(i + 1).drop_last() =~= all.take(i as int));
                assert(all.take(i + 1).last() == x);
            }
            out = match out.add(x, i) {
                Ok(r) => r,
                Err(e) => {
                    proof {
                        assert(all.take(i as int).push(all[i as int]) =~= all.take(i + 1));
                        lemma_input_field_parse_error_stays(all, i + 1);
                    }
                    return Err(e);
                },
            };
            proof {
                assert(all.take(i as int).push(all[i as int]) =~= all.take(i + 1));
            }
            i += 1;
        }
        assert(all.take(n as int) =~= all);
        Ok(out)
    }

    /// Merges the arguments of two attributes, refusing the first argument
    /// (in declaration order) that both give.
    pub fn try_merge(self, another: Self) -> (res: Result<Self, InputFieldArgKey>)
        ensures
            match input_field_first_common(self, another) {
                Some(k) => res == Err::<Self, InputFieldArgKey>(k),
                None => res == Ok::<Self, InputFieldArgKey>(input_field_merge_spec(self, another)),
            },
    {
        let name = match merge_option(self.name, another.name) {
            Ok(v) => v,
            Err(_) => return Err(InputFieldArgKey::Name),
        };
        let description = match merge_option(self.description, another.description) {
            Ok(v) => v,
            Err(_) => return Err(InputFieldArgKey::Description),
        };
        let default = match merge_option(self.default, another.default) {
            Ok(v) => v,
            Err(_) => return Err(InputFieldArgKey::Default),
        };
        let behavior = match merge_option(self.behavior, another.behavior) {
            Ok(v) => v,
            Err(_) => return Err(InputFieldArgKey::Behavior),
        };
        if self.ignore && another.ignore {
            return Err(InputFieldArgKey::Ignore);
        }
        Ok(InputFieldAttr { name, description, default, behavior, ignore: self.ignore || another.ignore })
    }

    /// Completes the merged arguments: a missing description is taken from
    /// the doc attributes `docs`; refused at the first doc attribute with a
    /// non-string value.
    pub fn from_attrs(self, docs: &[DocAttr]) -> (res: Result<Self, usize>)
        ensures
            self.description is Some ==> res == Ok::<Self, usize>(self),
            self.description is None ==> match res {
                Err(i) => i < docs@.len() && is_not_string(docs@[i as int]) && forall|j: int|
                    0 <= j < i ==> !is_not_string(#[trigger] docs@[j]),
                Ok(a) => {
                    &&& forall|j: int| 0 <= j < docs@.len() ==> !is_not_string(#[trigger] docs@[j])
                    &&& a == InputFieldAttr { description: a.description, ..self }
                    &&& if exists|j: int| 0 <= j < docs@.len() && is_text(#[trigger] docs@[j]) {
                        a.description matches Some(d) && d@ == concatenated(doc_texts(docs@, docs@.len() as int))
                    } else {
                        a.description is None
                    }
                },
            },
    {
        if self.description.is_some() {
            return Ok(self);
        }
        let mut attr = self;
        match parse_from_doc_attrs(docs) {
            Err(i) => Err(i),
            Ok(Some(d)) => {
                proof {
                    assert(is_text(docs@[d.first as int]));
                }
                attr.description = Some(d.description.text);
                Ok(attr)
            },
            Ok(None) => Ok(attr),
        }
    }
}

/// Message of the error about deriving an input object on a union.
pub const ON_UNION: &'static str = "cannot be derived on unions";

/// Message of the error about an input object whose fields are all
/// ignored.
pub const NO_FIELDS: &'static str = "expected at least 1 non-ignored field";

/// Message of the error about fields with the same name.
pub const FIELDS_NOT_UNIQUE: &'static str = "expected all fields to have unique names";

/// A struct field of an input object.
pub struct InputFieldInput<D, B, S> {
    /// Its `#[graphql]` arguments, completed, or the diagnostic refusing
    /// them.
    pub attr: Result<InputFieldAttr<D, B>, Diagnostic<S>>,
    /// The text of its identifier; `None` for an unnamed field.
    pub ident: Option<String>,
    /// Where the field is.
    pub span: S,
}

/// A field of a GraphQL input object, ready for code generation.
pub struct InputFieldDefinition<D, B> {
    /// The identifier of the Rust field behind it.
    pub ident: String,
    pub name: String,
    pub description: Option<String>,
    pub default: Option<D>,
    pub behavior: Option<B>,
    /// Whether the field is left out of the GraphQL input object.
    pub ignored: bool,
}

/// What a field or variant of an input object becomes: its definition, or
/// nothing; and the diagnostics it emits, in order.
pub struct InputFieldOutcome<D, B, S> {
    pub def: Option<InputFieldDefinition<D, B>>,
    pub diags: Vec<Diagnostic<S>>,
}

/// A diagnostic as expected: where it points, its message and its note.
pub open spec fn diag_has<S>(d: Diagnostic<S>, shape: (S, Seq<char>, Seq<char>)) -> bool {
    &&& d.first == shape.0
    &&& d.last == shape.0
    &&& d.msg@ == shape.1
    &&& d.notes@.len() == 1
    &&& d.notes@[0]@ == shape.2
}

/// The diagnostics `ds` are as expected by `shapes`, one for one.
pub open spec fn diags_have<S>(ds: Seq<Diagnostic<S>>, shapes: Seq<(S, Seq<char>, Seq<char>)>) -> bool {
    ds.len() == shapes.len() && forall|i: int| 0 <= i < ds.len() ==> diag_has(#[trigger] ds[i], shapes[i])
}

/// The diagnostic of the input object derive with the message `msg` at
/// `span`.
pub open spec fn derive_shape<S>(span: S, msg: Seq<char>) -> (S, Seq<char>, Seq<char>) {
    (span, scoped_message(Scope::InputObjectDerive, msg), spec_link_of(Scope::InputObjectDerive))
}

/// The diagnostic about a name starting with `__` at `span`.
pub open spec fn reserved_shape<S>(span: S) -> (S, Seq<char>, Seq<char>) {
    (span, double_underscore_message(), schema_link())
}

/// The GraphQL name of a field: the explicit one, or the identifier
/// `ident` renamed.
pub open spec fn input_field_name<D, B>(a: InputFieldAttr<D, B>, ident: Seq<char>, renaming: Policy) -> Seq<char> {
    match a.name {
        Some(n) => n@,
        None => apply_spec(renaming, unraw_spec(ident)),
    }
}

/// Whether renaming the field, where that happens, is defined.
pub open spec fn input_field_defined<D, B, S>(f: InputFieldInput<D, B, S>, renaming: Policy) -> bool {
    match (f.attr, f.ident) {
        (Ok(a), Some(i)) => a.name is None ==> apply_defined(renaming, unraw_spec(i@)),
        _ => true,
    }
}

/// What the field `f` becomes, given the `renaming` of the input object and
/// whether it is internal to the library.
pub open spec fn input_field_ok<D, B, S>(f: InputFieldInput<D, B, S>, renaming: Policy, is_internal: bool, o: InputFieldOutcome<D, B, S>) -> bool {
    match f.attr {
        Err(d) => o.def is None && o.diags@ == seq![d],
        Ok(a) => match f.ident {
            None => o.def is None && o.diags@.len() == 1 && is_scoped_diag(
                o.diags@[0],
                Scope::InputObjectDerive,
                f.span,
                UNNAMED_FIELD@,
            ),
            Some(i) => {
                let name = input_field_name(a, i@, renaming);
                &&& o.def matches Some(def) && def.ident == i && def.name@ == name
                    && def.description == a.description && def.default == a.default && def.behavior == a.behavior
                    && def.ignored == a.ignore
                &&& if !is_internal && starts_with(name, "__"@) {
                    o.diags@.len() == 1 && is_reserved_diag(o.diags@[0], f.span)
                } else {
                    o.diags@.len() == 0
                }
            },
        },
    }
}

/// Decides what a struct field of an input object becomes, given the
/// `renaming` of the input object and whether it is internal to the
/// library. A field whose name starts with `__` is still kept, beside the
/// diagnostic about it.
pub fn parse_input_field<D, B, S: Copy>(f: InputFieldInput<D, B, S>, renaming: Policy, is_internal: bool) -> (res: InputFieldOutcome<D, B, S>)
    requires
        input_field_defined(f, renaming),
    ensures
        input_field_ok(f, renaming, is_internal, res),
{
    let a = match f.attr {
        Err(d) => {
            let mut diags: Vec<Diagnostic<S>> = Vec::new();
            diags.push(d);
            assert(diags@ =~= seq![d]);
            return InputFieldOutcome { def: None, diags };
        },
        Ok(a) => a,
    };
    let ident = match f.ident {
        None => {
            return InputFieldOutcome {
                def: None,
                diags: vec![Scope::InputObjectDerive.custom(f.span, UNNAMED_FIELD)],
            };
        },
        Some(i) => i,
    };
    let name = match a.name {
        Some(n) => n,
        None => {
            let u = unraw(ident.as_str());
            renaming.apply(u.as_str())
        },
    };
    let diags = if !is_internal && starts_with_double_underscore(&name) {
        vec![Scope::InputObjectDerive.no_double_underscore(f.span)]
    } else {
        Vec::new()
    };
    InputFieldOutcome {
        def: Some(
            InputFieldDefinition {
                ident,
                name,
                description: a.description,
                default: a.default,
                behavior: a.behavior,
                ignored: a.ignore,
            },
        ),
        diags,
    }
}

/// Message of the error about an enum variant that does not hold exactly
/// one unnamed field.
pub const ONE_OF_SHAPE: &'static str = "enum variant must have exactly 1 unnamed field to represent `@oneOf` input object field";

/// Message of the error about `default` on an ignored variant.
pub const IGNORED_DEFAULT: &'static str = "`default` attribute argument has no meaning for ignored variants, as they are never constructed";

/// Message of the error about `default` on a variant.
pub const ONE_OF_DEFAULT: &'static str = "field cannot have default value in `@oneOf` input object";

/// An enum variant of a `@oneOf` input object.
pub struct VariantInput<D, B, S> {
    /// Its `#[graphql]` arguments, completed, or the diagnostic refusing
    /// them.
    pub attr: Result<InputFieldAttr<D, B>, Diagnostic<S>>,
    /// The text of its identifier.
    pub ident: String,
    /// How many fields it holds.
    pub field_count: usize,
    /// Whether its fields are unnamed (a tuple variant).
    pub unnamed: bool,
    /// Where its fields are.
    pub fields_span: S,
    /// Where its `default` argument is, when it has one.
    pub default_span: S,
    /// Where the variant is.
    pub span: S,
}

/// The GraphQL name of a variant, its renaming being `none`: the explicit
/// name, or the identifier.
pub open spec fn variant_name<D, B>(a: InputFieldAttr<D, B>, ident: Seq<char>) -> Seq<char> {
    match a.name {
        Some(n) => n@,
        None => unraw_spec(ident),
    }
}

/// Whether deciding on the variant `v` is defined: a variant that gets past
/// its attribute holds a field, and is named explicitly unless the
/// variants are not renamed.
pub open spec fn variant_defined<D, B, S>(v: VariantInput<D, B, S>, renaming: Policy) -> bool {
    v.attr matches Ok(a) ==> v.field_count > 0 && (a.name is None ==> renaming == Policy::Unchanged)
}

/// The diagnostic about the shape of `v`, if it is not a tuple variant of
/// one field.
pub open spec fn variant_shape_diags<D, B, S>(v: VariantInput<D, B, S>) -> Seq<(S, Seq<char>, Seq<char>)> {
    if v.field_count == 1 && v.unnamed {
        Seq::empty()
    } else {
        seq![derive_shape(v.fields_span, ONE_OF_SHAPE@)]
    }
}

/// What the variant `v` of a `@oneOf` input object becomes: its shape is
/// checked first, then its attribute; a `default` is refused, and a name
/// starting with `__`, but the variant is kept.
pub open spec fn variant_ok<D, B, S>(v: VariantInput<D, B, S>, is_internal: bool, o: InputFieldOutcome<D, B, S>) -> bool {
    let pre = variant_shape_diags(v);
    match v.attr {
        Err(d) => o.def is None && o.diags@.len() == pre.len() + 1 && diags_have(o.diags@.take(pre.len() as int), pre)
            && o.diags@.last() == d,
        Ok(a) => {
            let name = variant_name(a, v.ident@);
            let dflt = if a.default is Some {
                seq![derive_shape(v.default_span, if a.ignore { IGNORED_DEFAULT@ } else { ONE_OF_DEFAULT@ })]
            } else {
                Seq::empty()
            };
            let rsv = if !is_internal && starts_with(name, "__"@) {
                seq![reserved_shape(v.span)]
            } else {
                Seq::empty()
            };
            &&& o.def matches Some(def) && def.ident == v.ident && def.name@ == name
                && def.description == a.description && def.default is None && def.behavior == a.behavior
                && def.ignored == a.ignore
            &&& diags_have(o.diags@, pre + dflt + rsv)
        },
    }
}

/// Decides what an enum variant of a `@oneOf` input object becomes, given
/// whether the input object is internal to the library.
pub fn parse_input_variant<D, B, S: Copy>(v: VariantInput<D, B, S>, renaming: Policy, is_internal: bool) -> (res: InputFieldOutcome<D, B, S>)
    requires
        variant_defined(v, renaming),
    ensures
        variant_ok(v, is_internal, res),
{
    let ghost pre = variant_shape_diags(v);
    let mut diags: Vec<Diagnostic<S>> = Vec::new();
    if !(v.field_count == 1 && v.unnamed) {
        diags.push(Scope::InputObjectDerive.custom(v.fields_span, ONE_OF_SHAPE));
    }
    assert(diags_have(diags@, pre));
    let a = match v.attr {
        Err(d) => {
            diags.push(d);
            assert(diags@.take(pre.len() as int) =~= diags@.drop_last());
            return InputFieldOutcome { def: None, diags };
        },
        Ok(a) => a,
    };
    let ghost before_default = diags@;
    if a.default.is_some() {
        let msg = if a.ignore {
            IGNORED_DEFAULT
        } else {
            ONE_OF_DEFAULT
        };
        diags.push(Scope::InputObjectDerive.custom(v.default_span, msg));
    }
    let ghost dflt: Seq<(S, Seq<char>, Seq<char>)> = if a.default is Some {
        seq![derive_shape(v.default_span, if a.ignore { IGNORED_DEFAULT@ } else { ONE_OF_DEFAULT@ })]
    } else {
        Seq::empty()
    };
    assert(diags_have(diags@, pre + dflt)) by {
        assert forall|i: int| 0 <= i < diags@.len() implies diag_has(#[trigger] diags@[i], (pre + dflt)[i]) by {
            if i < before_default.len() {
                assert(diags@[i] == before_default[i]);
            }
        }
    }
    let name = match a.name {
        Some(n) => n,
        None => unraw(v.ident.as_str()),
    };
    let ghost before_name = diags@;
    if !is_internal && starts_with_double_underscore(&name) {
        diags.push(Scope::InputObjectDerive.no_double_underscore(v.span));
    }
    let ghost rsv: Seq<(S, Seq<char>, Seq<char>)> = if !is_internal && starts_with(name@, "__"@) {
        seq![reserved_shape(v.span)]
    } else {
        Seq::empty()
    };
    assert(diags_have(diags@, pre + dflt + rsv)) by {
        assert forall|i: int| 0 <= i < diags@.len() implies diag_has(#[trigger] diags@[i], (pre + dflt + rsv)[i]) by {
            if i < before_name.len() {
                assert(diags@[i] == before_name[i]);
                assert((pre + dflt + rsv)[i] == (pre + dflt)[i]);
            }
        }
    }
    InputFieldOutcome {
        def: Some(
            InputFieldDefinition {
                ident: v.ident,
                name,
                description: a.description,
                default: None,
                behavior: a.behavior,
                ignored: a.ignore,
            },
        ),
        diags,
    }
}

/// The diagnostics that the outcomes `outs` emit, in order.
pub open spec fn input_diags<D, B, S>(outs: Seq<InputFieldOutcome<D, B, S>>) -> Seq<Diagnostic<S>>
    decreases outs.len(),
{
    if outs.len() == 0 {
        Seq::empty()
    } else {
        input_diags(outs.drop_last()) + outs.last().diags@
    }
}

/// The definitions that the outcomes `outs` give, in order.
pub open spec fn input_defs<D, B, S>(outs: Seq<InputFieldOutcome<D, B, S>>) -> Seq<InputFieldDefinition<D, B>>
    decreases outs.len(),
{
    if outs.len() == 0 {
        Seq::empty()
    } else {
        match outs.last().def {
            Some(d) => input_defs(outs.drop_last()).push(d),
            None => input_defs(outs.drop_last()),
        }
    }
}

/// The names of `defs`.
pub open spec fn input_names<D, B>(defs: Seq<InputFieldDefinition<D, B>>) -> Seq<Seq<char>> {
    defs.map_values(|d: InputFieldDefinition<D, B>| d.name@)
}

/// Whether some of `defs` is not ignored.
pub open spec fn some_kept<D, B>(defs: Seq<InputFieldDefinition<D, B>>) -> bool {
    exists|i: int| 0 <= i < defs.len() && !(#[trigger] defs[i]).ignored
}

/// What a Rust item under `#[derive(GraphQLInputObject)]` is made of.
pub enum InputObjectData<D, B, S> {
    /// A struct, with its fields in order, and where they are.
    Struct { fields: Vec<InputFieldInput<D, B, S>>, fields_span: S },
    /// An enum, which makes a `@oneOf` input object, with its variants in
    /// order, and where they are.
    Enum { variants: Vec<VariantInput<D, B, S>>, variants_span: S },
    /// A union.
    Union,
}

/// A Rust item under `#[derive(GraphQLInputObject)]`; `T` stands for the
/// Rust types its attribute mentions.
pub struct InputObjectInput<D, B, T, S> {
    /// Its completed `#[graphql]` arguments.
    pub attr: ContainerAttr<T>,
    /// The text of its identifier.
    pub ident: String,
    /// Where a name starting with `__` is reported: the explicit name if
    /// there is one, else the identifier.
    pub name_span: S,
    /// Where the whole item is.
    pub span: S,
    pub data: InputObjectData<D, B, S>,
}

/// A GraphQL input object, ready for code generation.
pub struct InputObjectDefinition<D, B, T> {
    pub name: String,
    pub description: Option<String>,
    pub context: Option<T>,
    pub scalar: Option<T>,
    pub behavior: Option<T>,
    pub fields: Vec<InputFieldDefinition<D, B>>,
    /// Whether it is a `@oneOf` input object, made from an enum.
    pub is_one_of: bool,
}

/// What deriving a GraphQL input object ends with.
pub enum InputObjectExpansion<D, B, T, S> {
    /// Diagnostics were emitted: the macro stops.
    Aborted,
    /// The derive fails with this message, pointing at `span`.
    Failed { span: S, msg: String },
    /// The GraphQL input object to generate code for.
    Done(InputObjectDefinition<D, B, T>),
}

/// The renaming of an input object's fields.
pub open spec fn input_renaming<T>(attr: ContainerAttr<T>) -> Policy {
    match attr.rename_values {
        Some(p) => p,
        None => Policy::CamelCase,
    }
}

/// The GraphQL name of the input object.
pub open spec fn input_object_name<D, B, T, S>(input: InputObjectInput<D, B, T, S>) -> Seq<char> {
    match input.attr.name {
        Some(n) => n@,
        None => unraw_spec(input.ident@),
    }
}

/// Whether `outs` are what the `fields` become, in order.
pub open spec fn input_fields_ok<D, B, S>(
    fields: Seq<InputFieldInput<D, B, S>>,
    renaming: Policy,
    is_internal: bool,
    outs: Seq<InputFieldOutcome<D, B, S>>,
) -> bool {
    outs.len() == fields.len() && forall|i: int|
        0 <= i < fields.len() ==> input_field_ok(#[trigger] fields[i], renaming, is_internal, outs[i])
}

/// Whether `outs` are what the `variants` become, in order.
pub open spec fn input_variants_ok<D, B, S>(
    variants: Seq<VariantInput<D, B, S>>,
    is_internal: bool,
    outs: Seq<InputFieldOutcome<D, B, S>>,
) -> bool {
    outs.len() == variants.len() && forall|i: int| 0 <= i < variants.len() ==> variant_ok(#[trigger] variants[i], is_internal, outs[i])
}

/// Whether deciding on each field or variant of `data` is defined.
pub open spec fn data_defined<D, B, S>(data: InputObjectData<D, B, S>, renaming: Policy) -> bool {
    match data {
        InputObjectData::Struct { fields, .. } => forall|i: int|
            0 <= i < fields@.len() ==> input_field_defined(#[trigger] fields@[i], renaming),
        InputObjectData::Enum { variants, .. } => forall|i: int|
            0 <= i < variants@.len() ==> variant_defined(#[trigger] variants@[i], renaming),
        InputObjectData::Union => true,
    }
}

/// Whether `outs` are what the fields or variants of `data` become.
pub open spec fn data_ok<D, B, S>(data: InputObjectData<D, B, S>, renaming: Policy, is_internal: bool, outs: Seq<InputFieldOutcome<D, B, S>>) -> bool {
    match data {
        InputObjectData::Struct { fields, .. } => input_fields_ok(fields@, renaming, is_internal, outs),
        InputObjectData::Enum { variants, .. } => input_variants_ok(variants@, is_internal, outs),
        InputObjectData::Union => false,
    }
}

/// Where the fields or variants of `data` are.
pub open spec fn data_span<D, B, S>(data: InputObjectData<D, B, S>) -> S
    recommends
        !(data is Union),
{
    match data {
        InputObjectData::Struct { fields_span, .. } => fields_span,
        InputObjectData::Enum { variants_span, .. } => variants_span,
        InputObjectData::Union => arbitrary(),
    }
}

/// Decides each struct field, in order.
fn parse_struct_fields<D, B, S: Copy>(fields: Vec<InputFieldInput<D, B, S>>, renaming: Policy, is_internal: bool) -> (res: Vec<
    InputFieldOutcome<D, B, S>,
>)
    requires
        forall|i: int| 0 <= i < fields@.len() ==> input_field_defined(#[trigger] fields@[i], renaming),
    ensures
        input_fields_ok(fields@, renaming, is_internal, res@),
{
    let ghost all = fields@;
    let n = fields.len();
    let mut rest = reversed(fields);
    let mut out: Vec<InputFieldOutcome<D, B, S>> = Vec::new();
    while rest.len() > 0
        invariant
            out@.len() + rest@.len() == n,
            n == all.len(),
            forall|j: int| 0 <= j < rest@.len() ==> #[trigger] rest@[j] == all[n - 1 - j],
            forall|i: int| 0 <= i < all.len() ==> input_field_defined(#[trigger] all[i], renaming),
            forall|i: int| 0 <= i < out@.len() ==> input_field_ok(#[trigger] all[i], renaming, is_internal, out@[i]),
        decreases rest.len(),
    {
        let f = rest.pop().unwrap();
        let ghost k = out@.len() as int;
        assert(f == all[k]);
        let o = parse_input_field(f, renaming, is_internal);
        out.push(o);
        assert(out@[k] == o);
    }
    out
}

/// Decides each enum variant, in order.
fn parse_variants<D, B, S: Copy>(variants: Vec<VariantInput<D, B, S>>, renaming: Policy, is_internal: bool) -> (res: Vec<
    InputFieldOutcome<D, B, S>,
>)
    requires
        forall|i: int| 0 <= i < variants@.len() ==> variant_defined(#[trigger] variants@[i], renaming),
    ensures
        input_variants_ok(variants@, is_internal, res@),
{
    let ghost all = variants@;
    let n = variants.len();
    let mut rest = reversed(variants);
    let mut out: Vec<InputFieldOutcome<D, B, S>> = Vec::new();
    while rest.len() > 0
        invariant
            out@.len() + rest@.len() == n,
            n == all.len(),
            forall|j: int| 0 <= j < rest@.len() ==> #[trigger] rest@[j] == all[n - 1 - j],
            forall|i: int| 0 <= i < all.len() ==> variant_defined(#[trigger] all[i], renaming),
            forall|i: int| 0 <= i < out@.len() ==> variant_ok(#[trigger] all[i], is_internal, out@[i]),
        decreases rest.len(),
    {
        let v = rest.pop().unwrap();
        let ghost k = out@.len() as int;
        assert(v == all[k]);
        let o = parse_input_variant(v, renaming, is_internal);
        out.push(o);
        assert(out@[k] == o);
    }
    out
}

/// Decides the GraphQL input object that `input` derives, emitting the
/// diagnostics of refused fields or variants, and of reserved names, into
/// `session`; an enum makes a `@oneOf` input object.
pub fn expand<D, B, T, S: Copy>(input: InputObjectInput<D, B, T, S>, session: &mut Session<S>) -> (res: InputObjectExpansion<D, B, T, S>)
    requires
        old(session).state().depth > 0,
        data_defined(input.data, input_renaming(input.attr)),
    ensures
        final(session).state().depth == old(session).state().depth,
        input.data is Union ==> final(session).state() == old(session).state() && (res matches InputObjectExpansion::Failed {
            span,
            msg,
        } && span == input.span && msg@ == scoped_message(Scope::InputObjectDerive, ON_UNION@)),
        !(input.data is Union) ==> exists|outs: Seq<InputFieldOutcome<D, B, S>>| #[trigger]
            data_ok(input.data, input_renaming(input.attr), input.attr.is_internal, outs) && {
                let start = old(session).state().errors;
                let errs = start + input_diags(outs);
                let e = final(session).state().errors;
                let defs = input_defs(outs);
                let reserved = !input.attr.is_internal && starts_with(input_object_name(input), "__"@);
                if errs.len() > 0 {
                    e == errs && res is Aborted
                } else if !some_kept(defs) {
                    e == errs && (res matches InputObjectExpansion::Failed { span, msg } && span == data_span(input.data)
                        && msg@ == scoped_message(Scope::InputObjectDerive, NO_FIELDS@))
                } else if !pairwise_distinct(input_names(defs)) {
                    e == errs && (res matches InputObjectExpansion::Failed { span, msg } && span == data_span(input.data)
                        && msg@ == scoped_message(Scope::InputObjectDerive, FIELDS_NOT_UNIQUE@))
                } else if reserved {
                    e.len() == 1 && is_reserved_diag(e[0], input.name_span) && res is Aborted
                } else {
                    e.len() == 0 && (res matches InputObjectExpansion::Done(def) && {
                        &&& def.name@ == input_object_name(input)
                        &&& def.description == input.attr.description
                        &&& def.context == input.attr.context
                        &&& def.scalar == input.attr.scalar
                        &&& def.behavior == input.attr.behavior
                        &&& def.fields@ == defs
                        &&& def.is_one_of == input.data is Enum
                    })
                }
            },
{
    let ghost whole = input;
    let InputObjectInput { attr, ident, name_span, span, data } = input;
    let renaming = attr.fields_renaming();
    let is_internal = attr.is_internal;
    let is_one_of = match &data {
        InputObjectData::Enum { .. } => true,
        _ => false,
    };
    let (outs, fields_span) = match data {
        InputObjectData::Union => {
            return InputObjectExpansion::Failed { span, msg: Scope::InputObjectDerive.custom_error_message(ON_UNION) };
        },
        InputObjectData::Struct { fields, fields_span } => (parse_struct_fields(fields, renaming, is_internal), fields_span),
        InputObjectData::Enum { variants, variants_span } => (parse_variants(variants, renaming, is_internal), variants_span),
    };
    let ghost all = outs@;
    assert(data_ok(whole.data, renaming, is_internal, all));
    let ghost start = session.state();
    let n = outs.len();
    let mut rest = reversed(outs);
    let mut defs: Vec<InputFieldDefinition<D, B>> = Vec::new();
    let mut names: Vec<String> = Vec::new();
    let mut kept = false;
    let mut i: usize = 0;
    while rest.len() > 0
        invariant
            i + rest@.len() == n,
            n == all.len(),
            forall|j: int| 0 <= j < rest@.len() ==> #[trigger] rest@[j] == all[n - 1 - j],
            session.state().depth == start.depth,
            start.depth > 0,
            session.state().errors == start.errors + input_diags(all.take(i as int)),
            defs@ == input_defs(all.take(i as int)),
            names@.len() == defs@.len(),
            forall|j: int| 0 <= j < names@.len() ==> #[trigger] names@[j]@ == defs@[j].name@,
            kept == some_kept(defs@),
        decreases rest.len(),
    {
        let o = rest.pop().unwrap();
        proof {
            assert(o == all[i as int]);
            assert(all.take(i + 1).drop_last() =~= all.take(i as int));
            assert(all.take(i + 1).last() == o);
        }
        let ghost defs_before = defs@;
        let InputFieldOutcome { def, diags } = o;
        let ghost ds = diags@;
        let ghost before = session.state().errors;
        let count = diags.len();
        let mut pending = reversed(diags);
        let mut m: usize = 0;
        while pending.len() > 0
            invariant
                m + pending@.len() == ds.len(),
                count == ds.len(),
                forall|j: int| 0 <= j < pending@.len() ==> #[trigger] pending@[j] == ds[ds.len() - 1 - j],
                session.state().depth == start.depth,
                start.depth > 0,
                session.state().errors == before + ds.take(m as int),
            decreases pending.len(),
        {
            let d = pending.pop().unwrap();
            proof {
                assert(d == ds[m as int]);
            }
            session.emit(d);
            m += 1;
            assert(before + ds.take(m as int) =~= (before + ds.take(m - 1)).push(d));
        }
        assert(ds.take(ds.len() as int) =~= ds);
        assert(session.state().errors =~= start.errors + input_diags(all.take(i + 1)));
        if let Some(d) = def {
            names.push(d.name.clone());
            if !d.ignored {
                kept = true;
            }
            defs.push(d);
            proof {
                let last = defs@.len() - 1;
                if some_kept(defs@) && !some_kept(defs_before) {
                    let w = choose|w: int| 0 <= w < defs@.len() && !(#[trigger] defs@[w]).ignored;
                    if w < last {
                        assert(defs_before[w] == defs@[w]);
                    }
                }
                if some_kept(defs_before) {
                    let w = choose|w: int| 0 <= w < defs_before.len() && !(#[trigger] defs_before[w]).ignored;
                    assert(defs@[w] == defs_before[w]);
                }
                if !defs@[last].ignored {
                    assert(some_kept(defs@));
                }
            }
        }
        i += 1;
    }
    assert(all.take(n as int) =~= all);
    if session.abort_if_dirty() == Control::Abort {
        return InputObjectExpansion::Aborted;
    }
    if !kept {
        return InputObjectExpansion::Failed {
            span: fields_span,
            msg: Scope::InputObjectDerive.custom_error_message(NO_FIELDS),
        };
    }
    let unique = all_different(names.as_slice());
    proof {
        assert(names@.map_values(|s: String| s@) =~= input_names(defs@));
    }
    if !unique {
        return InputObjectExpansion::Failed {
            span: fields_span,
            msg: Scope::InputObjectDerive.custom_error_message(FIELDS_NOT_UNIQUE),
        };
    }
    let ContainerAttr { name, description, context, scalar, behavior, rename_values: _, is_internal: _ } = attr;
    let (name, reserved) = graphql_name(name, ident.as_str(), is_internal, name_span, Scope::InputObjectDerive);
    if let Some(d) = reserved {
        session.emit(d);
    }
    if session.abort_if_dirty() == Control::Abort {
        return InputObjectExpansion::Aborted;
    }
    InputObjectExpansion::Done(
        InputObjectDefinition { name, description, context, scalar, behavior, fields: defs, is_one_of },
    )
}

} // verus!

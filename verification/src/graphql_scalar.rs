//! Custom GraphQL scalars (`#[derive(GraphQLScalar)]` and
//! `#[graphql_scalar]`): the arguments of their attributes, and how the
//! functions resolving the scalar are chosen.
use vstd::prelude::*;

use crate::attr::{merge_opt, merge_option, reversed};
use crate::description::{concatenated, doc_texts, is_not_string, is_text, parse_from_doc_attrs, DocAttr};
use crate::diagnostic::{scoped_message, Scope};
use crate::scalar::{invalid_url_message, specified_by_url, url_parse_result};
use crate::text::text_is;

verus! {

/// The arguments that the attributes of a custom scalar take.
#[derive(Clone, Copy, Debug, PartialEq, Eq, Structural)]
pub enum ScalarArgKey {
    /// `name = "..."`.
    Name,
    /// `desc = "..."` or `description = "..."`.
    Description,
    /// `specified_by_url = "..."`.
    SpecifiedByUrl,
    /// `scalar = ...`, `Scalar = ...` or `ScalarValue = ...`.
    Scalar,
    /// `to_output_with = path`.
    ToOutputWith,
    /// `from_input_with = path`.
    FromInputWith,
    /// `parse_token_with = path`.
    ParseTokenWith,
    /// `parse_token(Type, ...)`.
    ParseToken,
    /// `with = path`.
    With,
    /// `where(predicate, ...)`.
    Where,
    /// `transparent`.
    Transparent,
}

/// The argument that `ident` names, if any.
pub open spec fn scalar_arg_key_spec(ident: Seq<char>) -> Option<ScalarArgKey> {
    if ident == "name"@ {
        Some(ScalarArgKey::Name)
    } else if ident == "desc"@ || ident == "description"@ {
        Some(ScalarArgKey::Description)
    } else if ident == "specified_by_url"@ {
        Some(ScalarArgKey::SpecifiedByUrl)
    } else if ident == "scalar"@ || ident == "Scalar"@ || ident == "ScalarValue"@ {
        Some(ScalarArgKey::Scalar)
    } else if ident == "to_output_with"@ {
        Some(ScalarArgKey::ToOutputWith)
    } else if ident == "from_input_with"@ {
        Some(ScalarArgKey::FromInputWith)
    } else if ident == "parse_token_with"@ {
        Some(ScalarArgKey::ParseTokenWith)
    } else if ident == "parse_token"@ {
        Some(ScalarArgKey::ParseToken)
    } else if ident == "with"@ {
        Some(ScalarArgKey::With)
    } else if ident == "where"@ {
        Some(ScalarArgKey::Where)
    } else if ident == "transparent"@ {
        Some(ScalarArgKey::Transparent)
    } else {
        None
    }
}

/// The keywords that name an argument here are exactly `name`, `desc`, `description`, `specified_by_url`, `scalar`, `Scalar`, `ScalarValue`, `to_output_with`, `from_input_with`, `parse_token_with`, `parse_token`, `with`, `where`, `transparent`, each naming
/// the argument listed.
pub proof fn law_scalar_keywords(ident: Seq<char>)
    ensures
        ident == "name"@ ==> scalar_arg_key_spec(ident) == Some(ScalarArgKey::Name),
        ident == "desc"@ ==> scalar_arg_key_spec(ident) == Some(ScalarArgKey::Description),
        ident == "description"@ ==> scalar_arg_key_spec(ident) == Some(ScalarArgKey::Description),
        ident == "specified_by_url"@ ==> scalar_arg_key_spec(ident) == Some(ScalarArgKey::SpecifiedByUrl),
        ident == "scalar"@ ==> scalar_arg_key_spec(ident) == Some(ScalarArgKey::Scalar),
        ident == "Scalar"@ ==> scalar_arg_key_spec(ident) == Some(ScalarArgKey::Scalar),
        ident == "ScalarValue"@ ==> scalar_arg_key_spec(ident) == Some(ScalarArgKey::Scalar),
        ident == "to_output_with"@ ==> scalar_arg_key_spec(ident) == Some(ScalarArgKey::ToOutputWith),
        ident == "from_input_with"@ ==> scalar_arg_key_spec(ident) == Some(ScalarArgKey::FromInputWith),
        ident == "parse_token_with"@ ==> scalar_arg_key_spec(ident) == Some(ScalarArgKey::ParseTokenWith),
        ident == "parse_token"@ ==> scalar_arg_key_spec(ident) == Some(ScalarArgKey::ParseToken),
        ident == "with"@ ==> scalar_arg_key_spec(ident) == Some(ScalarArgKey::With),
        ident == "where"@ ==> scalar_arg_key_spec(ident) == Some(ScalarArgKey::Where),
        ident == "transparent"@ ==> scalar_arg_key_spec(ident) == Some(ScalarArgKey::Transparent),
        scalar_arg_key_spec(ident) is Some ==> (ident == "name"@ || ident == "desc"@ || ident == "description"@ || ident == "specified_by_url"@ || ident == "scalar"@ || ident == "Scalar"@ || ident == "ScalarValue"@ || ident == "to_output_with"@ || ident == "from_input_with"@ || ident == "parse_token_with"@ || ident == "parse_token"@ || ident == "with"@ || ident == "where"@ || ident == "transparent"@),
{
    reveal_strlit("name");
    reveal_strlit("desc");
    reveal_strlit("description");
    reveal_strlit("specified_by_url");
    reveal_strlit("scalar");
    reveal_strlit("Scalar");
    reveal_strlit("ScalarValue");
    reveal_strlit("to_output_with");
    reveal_strlit("from_input_with");
    reveal_strlit("parse_token_with");
    reveal_strlit("parse_token");
    reveal_strlit("with");
    reveal_strlit("where");
    reveal_strlit("transparent");
    assert("name"@[0] != "desc"@[0]);
    assert("name"@.len() != "description"@.len());
    assert("name"@.len() != "specified_by_url"@.len());
    assert("name"@.len() != "scalar"@.len());
    assert("name"@.len() != "Scalar"@.len());
    assert("name"@.len() != "ScalarValue"@.len());
    assert("name"@.len() != "to_output_with"@.len());
    assert("name"@.len() != "from_input_with"@.len());
    assert("name"@.len() != "parse_token_with"@.len());
    assert("name"@.len() != "parse_token"@.len());
    assert("name"@[0] != "with"@[0]);
    assert("name"@.len() != "where"@.len());
    assert("name"@.len() != "transparent"@.len());
    assert("desc"@.len() != "description"@.len());
    assert("desc"@.len() != "specified_by_url"@.len());
    assert("desc"@.len() != "scalar"@.len());
    assert("desc"@.len() != "Scalar"@.len());
    assert("desc"@.len() != "ScalarValue"@.len());
    assert("desc"@.len() != "to_output_with"@.len());
    assert("desc"@.len() != "from_input_with"@.len());
    assert("desc"@.len() != "parse_token_with"@.len());
    assert("desc"@.len() != "parse_token"@.len());
    assert("desc"@[0] != "with"@[0]);
    assert("desc"@.len() != "where"@.len());
    assert("desc"@.len() != "transparent"@.len());
    assert("description"@.len() != "specified_by_url"@.len());
    assert("description"@.len() != "scalar"@.len());
    assert("description"@.len() != "Scalar"@.len());
    assert("description"@[0] != "ScalarValue"@[0]);
    assert("description"@.len() != "to_output_with"@.len());
    assert("description"@.len() != "from_input_with"@.len());
    assert("description"@.len() != "parse_token_with"@.len());
    assert("description"@[0] != "parse_token"@[0]);
    assert("description"@.len() != "with"@.len());
    assert("description"@.len() != "where"@.len());
    assert("description"@[0] != "transparent"@[0]);
    assert("specified_by_url"@.len() != "scalar"@.len());
    assert("specified_by_url"@.len() != "Scalar"@.len());
    assert("specified_by_url"@.len() != "ScalarValue"@.len());
    assert("specified_by_url"@.len() != "to_output_with"@.len());
    assert("specified_by_url"@.len() != "from_input_with"@.len());
    assert("specified_by_url"@[0] != "parse_token_with"@[0]);
    assert("specified_by_url"@.len() != "parse_token"@.len());
    assert("specified_by_url"@.len() != "with"@.len());
    assert("specified_by_url"@.len() != "where"@.len());
    assert("specified_by_url"@.len() != "transparent"@.len());
    assert("scalar"@[0] != "Scalar"@[0]);
    assert("scalar"@.len() != "ScalarValue"@.len());
    assert("scalar"@.len() != "to_output_with"@.len());
    assert("scalar"@.len() != "from_input_with"@.len());
    assert("scalar"@.len() != "parse_token_with"@.len());
    assert("scalar"@.len() != "parse_token"@.len());
    assert("scalar"@.len() != "with"@.len());
    assert("scalar"@.len() != "where"@.len());
    assert("scalar"@.len() != "transparent"@.len());
    assert("Scalar"@.len() != "ScalarValue"@.len());
    assert("Scalar"@.len() != "to_output_with"@.len());
    assert("Scalar"@.len() != "from_input_with"@.len());
    assert("Scalar"@.len() != "parse_token_with"@.len());
    assert("Scalar"@.len() != "parse_token"@.len());
    assert("Scalar"@.len() != "with"@.len());
    assert("Scalar"@.len() != "where"@.len());
    assert("Scalar"@.len() != "transparent"@.len());
    assert("ScalarValue"@.len() != "to_output_with"@.len());
    assert("ScalarValue"@.len() != "from_input_with"@.len());
    assert("ScalarValue"@.len() != "parse_token_with"@.len());
    assert("ScalarValue"@[0] != "parse_token"@[0]);
    assert("ScalarValue"@.len() != "with"@.len());
    assert("ScalarValue"@.len() != "where"@.len());
    assert("ScalarValue"@[0] != "transparent"@[0]);
    assert("to_output_with"@.len() != "from_input_with"@.len());
    assert("to_output_with"@.len() != "parse_token_with"@.len());
    assert("to_output_with"@.len() != "parse_token"@.len());
    assert("to_output_with"@.len() != "with"@.len());
    assert("to_output_with"@.len() != "where"@.len());
    assert("to_output_with"@.len() != "transparent"@.len());
    assert("from_input_with"@.len() != "parse_token_with"@.len());
    assert("from_input_with"@.len() != "parse_token"@.len());
    assert("from_input_with"@.len() != "with"@.len());
    assert("from_input_with"@.len() != "where"@.len());
    assert("from_input_with"@.len() != "transparent"@.len());
    assert("parse_token_with"@.len() != "parse_token"@.len());
    assert("parse_token_with"@.len() != "with"@.len());
    assert("parse_token_with"@.len() != "where"@.len());
    assert("parse_token_with"@.len() != "transparent"@.len());
    assert("parse_token"@.len() != "with"@.len());
    assert("parse_token"@.len() != "where"@.len());
    assert("parse_token"@[0] != "transparent"@[0]);
    assert("with"@.len() != "where"@.len());
    assert("with"@.len() != "transparent"@.len());
    assert("where"@.len() != "transparent"@.len());
}

/// The argument that `ident` names; `None` for an unknown argument.
pub fn scalar_arg_key(ident: &str) -> (res: Option<ScalarArgKey>)
    ensures
        res == scalar_arg_key_spec(ident@),
        ident@ == "name"@ ==> res == Some(ScalarArgKey::Name),
        ident@ == "desc"@ ==> res == Some(ScalarArgKey::Description),
        ident@ == "description"@ ==> res == Some(ScalarArgKey::Description),
        ident@ == "specified_by_url"@ ==> res == Some(ScalarArgKey::SpecifiedByUrl),
        ident@ == "scalar"@ ==> res == Some(ScalarArgKey::Scalar),
        ident@ == "Scalar"@ ==> res == Some(ScalarArgKey::Scalar),
        ident@ == "ScalarValue"@ ==> res == Some(ScalarArgKey::Scalar),
        ident@ == "to_output_with"@ ==> res == Some(ScalarArgKey::ToOutputWith),
        ident@ == "from_input_with"@ ==> res == Some(ScalarArgKey::FromInputWith),
        ident@ == "parse_token_with"@ ==> res == Some(ScalarArgKey::ParseTokenWith),
        ident@ == "parse_token"@ ==> res == Some(ScalarArgKey::ParseToken),
        ident@ == "with"@ ==> res == Some(ScalarArgKey::With),
        ident@ == "where"@ ==> res == Some(ScalarArgKey::Where),
        ident@ == "transparent"@ ==> res == Some(ScalarArgKey::Transparent),
        res is Some ==> (ident@ == "name"@ || ident@ == "desc"@ || ident@ == "description"@ || ident@ == "specified_by_url"@ || ident@ == "scalar"@ || ident@ == "Scalar"@ || ident@ == "ScalarValue"@ || ident@ == "to_output_with"@ || ident@ == "from_input_with"@ || ident@ == "parse_token_with"@ || ident@ == "parse_token"@ || ident@ == "with"@ || ident@ == "where"@ || ident@ == "transparent"@),
{
    proof {
        reveal_strlit("name");
        reveal_strlit("desc");
        reveal_strlit("description");
        reveal_strlit("specified_by_url");
        reveal_strlit("scalar");
        reveal_strlit("Scalar");
        reveal_strlit("ScalarValue");
        reveal_strlit("to_output_with");
        reveal_strlit("from_input_with");
        reveal_strlit("parse_token_with");
        reveal_strlit("parse_token");
        reveal_strlit("with");
        reveal_strlit("where");
        reveal_strlit("transparent");
        assert("name"@[0] != "desc"@[0]);
        assert("name"@.len() != "description"@.len());
        assert("name"@.len() != "specified_by_url"@.len());
        assert("name"@.len() != "scalar"@.len());
        assert("name"@.len() != "Scalar"@.len());
        assert("name"@.len() != "ScalarValue"@.len());
        assert("name"@.len() != "to_output_with"@.len());
        assert("name"@.len() != "from_input_with"@.len());
        assert("name"@.len() != "parse_token_with"@.len());
        assert("name"@.len() != "parse_token"@.len());
        assert("name"@[0] != "with"@[0]);
        assert("name"@.len() != "where"@.len());
        assert("name"@.len() != "transparent"@.len());
        assert("desc"@.len() != "description"@.len());
        assert("desc"@.len() != "specified_by_url"@.len());
        assert("desc"@.len() != "scalar"@.len());
        assert("desc"@.len() != "Scalar"@.len());
        assert("desc"@.len() != "ScalarValue"@.len());
        assert("desc"@.len() != "to_output_with"@.len());
        assert("desc"@.len() != "from_input_with"@.len());
        assert("desc"@.len() != "parse_token_with"@.len());
        assert("desc"@.len() != "parse_token"@.len());
        assert("desc"@[0] != "with"@[0]);
        assert("desc"@.len() != "where"@.len());
        assert("desc"@.len() != "transparent"@.len());
        assert("description"@.len() != "specified_by_url"@.len());
        assert("description"@.len() != "scalar"@.len());
        assert("description"@.len() != "Scalar"@.len());
        assert("description"@[0] != "ScalarValue"@[0]);
        assert("description"@.len() != "to_output_with"@.len());
        assert("description"@.len() != "from_input_with"@.len());
        assert("description"@.len() != "parse_token_with"@.len());
        assert("description"@[0] != "parse_token"@[0]);
        assert("description"@.len() != "with"@.len());
        assert("description"@.len() != "where"@.len());
        assert("description"@[0] != "transparent"@[0]);
        assert("specified_by_url"@.len() != "scalar"@.len());
        assert("specified_by_url"@.len() != "Scalar"@.len());
        assert("specified_by_url"@.len() != "ScalarValue"@.len());
        assert("specified_by_url"@.len() != "to_output_with"@.len());
        assert("specified_by_url"@.len() != "from_input_with"@.len());
        assert("specified_by_url"@[0] != "parse_token_with"@[0]);
        assert("specified_by_url"@.len() != "parse_token"@.len());
        assert("specified_by_url"@.len() != "with"@.len());
        assert("specified_by_url"@.len() != "where"@.len());
        assert("specified_by_url"@.len() != "transparent"@.len());
        assert("scalar"@[0] != "Scalar"@[0]);
        assert("scalar"@.len() != "ScalarValue"@.len());
        assert("scalar"@.len() != "to_output_with"@.len());
        assert("scalar"@.len() != "from_input_with"@.len());
        assert("scalar"@.len() != "parse_token_with"@.len());
        assert("scalar"@.len() != "parse_token"@.len());
        assert("scalar"@.len() != "with"@.len());
        assert("scalar"@.len() != "where"@.len());
        assert("scalar"@.len() != "transparent"@.len());
        assert("Scalar"@.len() != "ScalarValue"@.len());
        assert("Scalar"@.len() != "to_output_with"@.len());
        assert("Scalar"@.len() != "from_input_with"@.len());
        assert("Scalar"@.len() != "parse_token_with"@.len());
        assert("Scalar"@.len() != "parse_token"@.len());
        assert("Scalar"@.len() != "with"@.len());
        assert("Scalar"@.len() != "where"@.len());
        assert("Scalar"@.len() != "transparent"@.len());
        assert("ScalarValue"@.len() != "to_output_with"@.len());
        assert("ScalarValue"@.len() != "from_input_with"@.len());
        assert("ScalarValue"@.len() != "parse_token_with"@.len());
        assert("ScalarValue"@[0] != "parse_token"@[0]);
        assert("ScalarValue"@.len() != "with"@.len());
        assert("ScalarValue"@.len() != "where"@.len());
        assert("ScalarValue"@[0] != "transparent"@[0]);
        assert("to_output_with"@.len() != "from_input_with"@.len());
        assert("to_output_with"@.len() != "parse_token_with"@.len());
        assert("to_output_with"@.len() != "parse_token"@.len());
        assert("to_output_with"@.len() != "with"@.len());
        assert("to_output_with"@.len() != "where"@.len());
        assert("to_output_with"@.len() != "transparent"@.len());
        assert("from_input_with"@.len() != "parse_token_with"@.len());
        assert("from_input_with"@.len() != "parse_token"@.len());
        assert("from_input_with"@.len() != "with"@.len());
        assert("from_input_with"@.len() != "where"@.len());
        assert("from_input_with"@.len() != "transparent"@.len());
        assert("parse_token_with"@.len() != "parse_token"@.len());
        assert("parse_token_with"@.len() != "with"@.len());
        assert("parse_token_with"@.len() != "where"@.len());
        assert("parse_token_with"@.len() != "transparent"@.len());
        assert("parse_token"@.len() != "with"@.len());
        assert("parse_token"@.len() != "where"@.len());
        assert("parse_token"@[0] != "transparent"@[0]);
        assert("with"@.len() != "where"@.len());
        assert("with"@.len() != "transparent"@.len());
        assert("where"@.len() != "transparent"@.len());
    }
    if text_is(ident, "name") {
        Some(ScalarArgKey::Name)
    } else if text_is(ident, "desc") || text_is(ident, "description") {
        Some(ScalarArgKey::Description)
    } else if text_is(ident, "specified_by_url") {
        Some(ScalarArgKey::SpecifiedByUrl)
    } else if text_is(ident, "scalar") || text_is(ident, "Scalar") || text_is(ident, "ScalarValue") {
        Some(ScalarArgKey::Scalar)
    } else if text_is(ident, "to_output_with") {
        Some(ScalarArgKey::ToOutputWith)
    } else if text_is(ident, "from_input_with") {
        Some(ScalarArgKey::FromInputWith)
    } else if text_is(ident, "parse_token_with") {
        Some(ScalarArgKey::ParseTokenWith)
    } else if text_is(ident, "parse_token") {
        Some(ScalarArgKey::ParseToken)
    } else if text_is(ident, "with") {
        Some(ScalarArgKey::With)
    } else if text_is(ident, "where") {
        Some(ScalarArgKey::Where)
    } else if text_is(ident, "transparent") {
        Some(ScalarArgKey::Transparent)
    } else {
        None
    }
}

/// How a scalar parses a token: with a custom function `P`, or by trying
/// the types `T` in order.
pub enum ParseToken<P, T> {
    Custom(P),
    Delegated(Vec<T>),
}

/// One argument of the attributes of a custom scalar; `P` stands for paths
/// of functions or modules, `T` for Rust types, `W` for where predicates.
pub enum ScalarArg<P, T, W> {
    Name(String),
    Description(String),
    /// The text of the URL literal, as written.
    SpecifiedByUrl(String),
    Scalar(T),
    ToOutputWith(P),
    FromInputWith(P),
    ParseTokenWith(P),
    ParseToken(Vec<T>),
    With(P),
    Where(Vec<W>),
    Transparent,
}

/// The arguments given by the attributes of a custom scalar.
pub struct ScalarAttr<P, T, W> {
    pub name: Option<String>,
    pub description: Option<String>,
    /// The URL, serialized.
    pub specified_by_url: Option<String>,
    pub scalar: Option<T>,
    pub to_output: Option<P>,
    pub from_input: Option<P>,
    pub parse_token: Option<ParseToken<P, T>>,
    pub with: Option<P>,
    pub where_clause: Option<Vec<W>>,
    pub transparent: bool,
}

/// The view of the arguments of a custom scalar: the URL as text.
pub struct ScalarAttrView<P, T, W> {
    pub name: Option<String>,
    pub description: Option<String>,
    pub specified_by_url: Option<Seq<char>>,
    pub scalar: Option<T>,
    pub to_output: Option<P>,
    pub from_input: Option<P>,
    pub parse_token: Option<ParseToken<P, T>>,
    pub with: Option<P>,
    pub where_clause: Option<Vec<W>>,
    pub transparent: bool,
}

impl<P, T, W> ScalarAttr<P, T, W> {
    pub open spec fn view(&self) -> ScalarAttrView<P, T, W> {
        ScalarAttrView {
            name: self.name,
            description: self.description,
            specified_by_url: match self.specified_by_url {
                Some(u) => Some(u@),
                None => None,
            },
            scalar: self.scalar,
            to_output: self.to_output,
            from_input: self.from_input,
            parse_token: self.parse_token,
            with: self.with,
            where_clause: self.where_clause,
            transparent: self.transparent,
        }
    }
}

/// Message of the error about `parse_token()` with no type.
pub const NO_TYPES_MESSAGE: &'static str = "expected at least 1 type.";

/// Message of the error about `where()` with no predicate.
pub const NO_PREDICATES_MESSAGE: &'static str = "expected at least 1 where predicate";

/// Why the arguments of one attribute of a custom scalar are refused, with
/// the position of the argument refused.
pub enum ScalarParseError {
    /// The argument is given a second time.
    Duplicate(usize),
    /// The URL does not parse; the message says why.
    InvalidUrl(usize, String),
    /// `parse_token()` names no type.
    NoTypes(usize),
    /// `where()` holds no predicate.
    NoPredicates(usize),
}

/// Why the arguments of one attribute are refused, as a value.
pub enum ScalarParseFailure {
    Duplicate(int),
    InvalidUrl(int, Seq<char>),
    NoTypes(int),
    NoPredicates(int),
}

/// The view of `e`.
pub open spec fn failure_of(e: ScalarParseError) -> ScalarParseFailure {
    match e {
        ScalarParseError::Duplicate(i) => ScalarParseFailure::Duplicate(i as int),
        ScalarParseError::InvalidUrl(i, m) => ScalarParseFailure::InvalidUrl(i as int, m@),
        ScalarParseError::NoTypes(i) => ScalarParseFailure::NoTypes(i as int),
        ScalarParseError::NoPredicates(i) => ScalarParseFailure::NoPredicates(i as int),
    }
}

/// No argument given.
pub open spec fn scalar_empty<P, T, W>() -> ScalarAttrView<P, T, W> {
    ScalarAttrView {
        name: None,
        description: None,
        specified_by_url: None,
        scalar: None,
        to_output: None,
        from_input: None,
        parse_token: None,
        with: None,
        where_clause: None,
        transparent: false,
    }
}

/// Whether giving `x` in `a` gives an argument a second time: `parse_token`
/// and `parse_token_with` set the same thing; `transparent` may be repeated.
pub open spec fn scalar_dup<P, T, W>(a: ScalarAttrView<P, T, W>, x: ScalarArg<P, T, W>) -> bool {
    match x {
        ScalarArg::Name(_) => a.name is Some,
        ScalarArg::Description(_) => a.description is Some,
        ScalarArg::SpecifiedByUrl(_) => a.specified_by_url is Some,
        ScalarArg::Scalar(_) => a.scalar is Some,
        ScalarArg::ToOutputWith(_) => a.to_output is Some,
        ScalarArg::FromInputWith(_) => a.from_input is Some,
        ScalarArg::ParseTokenWith(_) => a.parse_token is Some,
        ScalarArg::ParseToken(_) => a.parse_token is Some,
        ScalarArg::With(_) => a.with is Some,
        ScalarArg::Where(_) => a.where_clause is Some,
        ScalarArg::Transparent => false,
    }
}

/// Why the argument `x`, at position `i`, is refused before it is
/// recorded, if it is: its value is invalid.
pub open spec fn scalar_invalid<P, T, W>(x: ScalarArg<P, T, W>, i: int) -> Option<ScalarParseFailure> {
    match x {
        ScalarArg::SpecifiedByUrl(u) => match url_parse_result(u@) {
            Err(e) => Some(ScalarParseFailure::InvalidUrl(i, invalid_url_message(e))),
            Ok(_) => None,
        },
        ScalarArg::ParseToken(ts) => if ts@.len() == 0 {
            Some(ScalarParseFailure::NoTypes(i))
        } else {
            None
        },
        ScalarArg::Where(ps) => if ps@.len() == 0 {
            Some(ScalarParseFailure::NoPredicates(i))
        } else {
            None
        },
        _ => None,
    }
}

/// `a` with the argument `x` given.
pub open spec fn scalar_with<P, T, W>(a: ScalarAttrView<P, T, W>, x: ScalarArg<P, T, W>) -> ScalarAttrView<P, T, W> {
    match x {
        ScalarArg::Name(s) => ScalarAttrView { name: Some(s), ..a },
        ScalarArg::Description(s) => ScalarAttrView { description: Some(s), ..a },
        ScalarArg::SpecifiedByUrl(u) => ScalarAttrView { specified_by_url: Some(url_parse_result(u@)->Ok_0), ..a },
        ScalarArg::Scalar(t) => ScalarAttrView { scalar: Some(t), ..a },
        ScalarArg::ToOutputWith(p) => ScalarAttrView { to_output: Some(p), ..a },
        ScalarArg::FromInputWith(p) => ScalarAttrView { from_input: Some(p), ..a },
        ScalarArg::ParseTokenWith(p) => ScalarAttrView { parse_token: Some(ParseToken::Custom(p)), ..a },
        ScalarArg::ParseToken(ts) => ScalarAttrView { parse_token: Some(ParseToken::Delegated(ts)), ..a },
        ScalarArg::With(p) => ScalarAttrView { with: Some(p), ..a },
        ScalarArg::Where(ps) => ScalarAttrView { where_clause: Some(ps), ..a },
        ScalarArg::Transparent => ScalarAttrView { transparent: true, ..a },
    }
}

/// One step of reading the arguments of an attribute: the argument `x`, at
/// position `i`, given after those that made `a`; refused where its value
/// is invalid, then where it is given a second time, else recorded.
pub open spec fn scalar_step<P, T, W>(a: ScalarAttrView<P, T, W>, x: ScalarArg<P, T, W>, i: int) -> Result<
    ScalarAttrView<P, T, W>,
    ScalarParseFailure,
> {
    match scalar_invalid(x, i) {
        Some(e) => Err(e),
        None => if scalar_dup(a, x) {
            Err(ScalarParseFailure::Duplicate(i))
        } else {
            Ok(scalar_with(a, x))
        },
    }
}

/// The arguments of one attribute, read in order, each by `scalar_step`
/// until the first that is refused.
pub open spec fn scalar_parse_spec<P, T, W>(args: Seq<ScalarArg<P, T, W>>) -> Result<ScalarAttrView<P, T, W>, ScalarParseFailure>
    decreases args.len(),
{
    if args.len() == 0 {
        Ok(scalar_empty())
    } else {
        match scalar_parse_spec(args.drop_last()) {
            Err(e) => Err(e),
            Ok(a) => scalar_step(a, args.last(), args.len() - 1),
        }
    }
}

proof fn lemma_scalar_parse_error_stays<P, T, W>(args: Seq<ScalarArg<P, T, W>>, k: int)
    requires
        0 <= k <= args.len(),
        scalar_parse_spec(args.take(k)) is Err,
    ensures
        scalar_parse_spec(args) == scalar_parse_spec(args.take(k)),
    decreases args.len() - k,
{
    if k < args.len() {
        assert(args.take(k + 1).drop_last() =~= args.take(k));
        lemma_scalar_parse_error_stays(args, k + 1);
    } else {
        assert(args.take(k) =~= args);
    }
}

/// The first argument (in declaration order) given by both `a` and `b`.
pub open spec fn scalar_first_common<P, T, W>(a: ScalarAttrView<P, T, W>, b: ScalarAttrView<P, T, W>) -> Option<ScalarArgKey> {
    if a.name is Some && b.name is Some {
        Some(ScalarArgKey::Name)
    } else if a.description is Some && b.description is Some {
        Some(ScalarArgKey::Description)
    } else if a.specified_by_url is Some && b.specified_by_url is Some {
        Some(ScalarArgKey::SpecifiedByUrl)
    } else if a.scalar is Some && b.scalar is Some {
        Some(ScalarArgKey::Scalar)
    } else if a.to_output is Some && b.to_output is Some {
        Some(ScalarArgKey::ToOutputWith)
    } else if a.from_input is Some && b.from_input is Some {
        Some(ScalarArgKey::FromInputWith)
    } else if a.parse_token is Some && b.parse_token is Some {
        Some(ScalarArgKey::ParseToken)
    } else if a.with is Some && b.with is Some {
        Some(ScalarArgKey::With)
    } else if a.where_clause is Some && b.where_clause is Some {
        Some(ScalarArgKey::Where)
    } else {
        None
    }
}

/// The arguments of `a` and `b` together, when no argument is in both.
pub open spec fn scalar_merge_spec<P, T, W>(a: ScalarAttrView<P, T, W>, b: ScalarAttrView<P, T, W>) -> ScalarAttrView<P, T, W> {
    ScalarAttrView {
        name: merge_opt(a.name, b.name)->0,
        description: merge_opt(a.description, b.description)->0,
        specified_by_url: merge_opt(a.specified_by_url, b.specified_by_url)->0,
        scalar: merge_opt(a.scalar, b.scalar)->0,
        to_output: merge_opt(a.to_output, b.to_output)->0,
        from_input: merge_opt(a.from_input, b.from_input)->0,
        parse_token: merge_opt(a.parse_token, b.parse_token)->0,
        with: merge_opt(a.with, b.with)->0,
        where_clause: merge_opt(a.where_clause, b.where_clause)->0,
        transparent: a.transparent || b.transparent,
    }
}

impl<P, T, W> ScalarAttr<P, T, W> {
    /// An attribute with no argument.
    pub fn new() -> (res: Self)
        ensures
            res.view() == scalar_empty::<P, T, W>(),
    {
        ScalarAttr {
            name: None,
            description: None,
            specified_by_url: None,
            scalar: None,
            to_output: None,
            from_input: None,
            parse_token: None,
            with: None,
            where_clause: None,
            transparent: false,
        }
    }

    /// Records the argument `x`, at position `i` of its attribute, after
    /// those already recorded: it is refused where its value is invalid (a
    /// URL that does not parse, `parse_token()` or `where()` empty), then
    /// where it is given a second time.
    pub fn add(self, x: ScalarArg<P, T, W>, i: usize) -> (res: Result<Self, ScalarParseError>)
        ensures
            match scalar_step(self.view(), x, i as int) {
                Ok(a) => res matches Ok(r) && r.view() == a,
                Err(f) => res matches Err(e) && failure_of(e) == f,
            },
    {
        let mut out = self;
        let invalid = match &x {
            ScalarArg::SpecifiedByUrl(u) => match specified_by_url(u.as_str()) {
                Err(m) => Some(ScalarParseError::InvalidUrl(i, m)),
                Ok(_) => None,
            },
            ScalarArg::ParseToken(ts) => if ts.len() == 0 {
                Some(ScalarParseError::NoTypes(i))
            } else {
                None
            },
            ScalarArg::Where(ps) => if ps.len() == 0 {
                Some(ScalarParseError::NoPredicates(i))
            } else {
                None
            },
            _ => None,
        };
        if let Some(e) = invalid {
            return Err(e);
        }
        let dup = match &x {
            ScalarArg::Name(_) => out.name.is_some(),
            ScalarArg::Description(_) => out.description.is_some(),
            ScalarArg::SpecifiedByUrl(_) => out.specified_by_url.is_some(),
            ScalarArg::Scalar(_) => out.scalar.is_some(),
            ScalarArg::ToOutputWith(_) => out.to_output.is_some(),
            ScalarArg::FromInputWith(_) => out.from_input.is_some(),
            ScalarArg::ParseTokenWith(_) => out.parse_token.is_some(),
            ScalarArg::ParseToken(_) => out.parse_token.is_some(),
            ScalarArg::With(_) => out.with.is_some(),
            ScalarArg::Where(_) => out.where_clause.is_some(),
            ScalarArg::Transparent => false,
        };
        if dup {
            return Err(ScalarParseError::Duplicate(i));
        }
        match x {
            ScalarArg::Name(s) => out.name = Some(s),
            ScalarArg::Description(s) => out.description = Some(s),
            ScalarArg::SpecifiedByUrl(u) => {
                match specified_by_url(u.as_str()) {
                    Ok(url) => out.specified_by_url = Some(url),
                    Err(_) => {},
                }
            },
            ScalarArg::Scalar(t) => out.scalar = Some(t),
            ScalarArg::ToOutputWith(p) => out.to_output = Some(p),
            ScalarArg::FromInputWith(p) => out.from_input = Some(p),
            ScalarArg::ParseTokenWith(p) => out.parse_token = Some(ParseToken::Custom(p)),
            ScalarArg::ParseToken(ts) => out.parse_token = Some(ParseToken::Delegated(ts)),
            ScalarArg::With(p) => out.with = Some(p),
            ScalarArg::Where(ps) => out.where_clause = Some(ps),
            ScalarArg::Transparent => out.transparent = true,
        }
        Ok(out)
    }

    /// Records the arguments of one attribute, refusing the first argument
    /// with an invalid value or given a second time.
    pub fn parse(args: Vec<ScalarArg<P, T, W>>) -> (res: Result<Self, ScalarParseError>)
        ensures
            match scalar_parse_spec(args@) {
                Ok(a) => res matches Ok(r) && r.view() == a,
                Err(f) => res matches Err(e) && failure_of(e) == f,
            },
    {
        let ghost all = args@;
        let n = args.len();
        let mut out = ScalarAttr::new();
        let mut i: usize = 0;
        let mut rest = reversed(args);
        while rest.len() > 0
            invariant
                i + rest@.len() == n,
                n == all.len(),
                all == args@,
                forall|j: int| 0 <= j < rest@.len() ==> #[trigger] rest@[j] == all[n - 1 - j],
                scalar_parse_spec(all.take(i as int)) == Ok::<ScalarAttrView<P, T, W>, ScalarParseFailure>(out.view()),
            decreases rest.len(),
        {
            let x = rest.pop().unwrap();
            proof {
                assert(x == all[i as int]);
                assert(all.take(i + 1).drop_last() =~= all.take(i as int));
                assert(all.take(i + 1).last() == x);
            }
            out = match out.add(x, i) {
                Ok(r) => r,
                Err(e) => {
                    proof {
                        lemma_scalar_parse_error_stays(all, i + 1);
                    }
                    return Err(e);
                },
            };
            i += 1;
        }
        assert(all.take(n as int) =~= all);
        Ok(out)
    }

    /// Merges the arguments of two attributes, refusing the first argument
    /// (in declaration order) that both give.
    pub fn try_merge(self, another: Self) -> (res: Result<Self, ScalarArgKey>)
        ensures
            match scalar_first_common(self.view(), another.view()) {
                Some(k) => res == Err::<Self, ScalarArgKey>(k),
                None => res matches Ok(a) && a.view() == scalar_merge_spec(self.view(), another.view()),
            },
    {
        let name = match merge_option(self.name, another.name) {
            Ok(v) => v,
            Err(_) => return Err(ScalarArgKey::Name),
        };
        let description = match merge_option(self.description, another.description) {
            Ok(v) => v,
            Err(_) => return Err(ScalarArgKey::Description),
        };
        let specified_by_url = match merge_option(self.specified_by_url, another.specified_by_url) {
            Ok(v) => v,
            Err(_) => return Err(ScalarArgKey::SpecifiedByUrl),
        };
        let scalar = match merge_option(self.scalar, another.scalar) {
            Ok(v) => v,
            Err(_) => return Err(ScalarArgKey::Scalar),
        };
        let to_output = match merge_option(self.to_output, another.to_output) {
            Ok(v) => v,
            Err(_) => return Err(ScalarArgKey::ToOutputWith),
        };
        let from_input = match merge_option(self.from_input, another.from_input) {
            Ok(v) => v,
            Err(_) => return Err(ScalarArgKey::FromInputWith),
        };
        let parse_token = match merge_option(self.parse_token, another.parse_token) {
            Ok(v) => v,
            Err(_) => return Err(ScalarArgKey::ParseToken),
        };
        let with = match merge_option(self.with, another.with) {
            Ok(v) => v,
            Err(_) => return Err(ScalarArgKey::With),
        };
        let where_clause = match merge_option(self.where_clause, another.where_clause) {
            Ok(v) => v,
            Err(_) => return Err(ScalarArgKey::Where),
        };
        Ok(
            ScalarAttr {
                name,
                description,
                specified_by_url,
                scalar,
                to_output,
                from_input,
                parse_token,
                with,
                where_clause,
                transparent: self.transparent || another.transparent,
            },
        )
    }

    /// Completes the merged arguments: a missing description is taken from
    /// the doc attributes `docs`; refused at the first doc attribute with a
    /// non-string value.
    pub fn from_attrs(self, docs: &[DocAttr]) -> (res: Result<Self, usize>)
        ensures
            self.description is Some ==> (res matches Ok(a) && a.view() == self.view()),
            self.description is None ==> match res {
                Err(i) => i < docs@.len() && is_not_string(docs@[i as int]) && forall|j: int|
                    0 <= j < i ==> !is_not_string(#[trigger] docs@[j]),
                Ok(a) => {
                    &&& forall|j: int| 0 <= j < docs@.len() ==> !is_not_string(#[trigger] docs@[j])
                    &&& a.view() == ScalarAttrView { description: a.description, ..self.view() }
                    &&& if exists|j: int| 0 <= j < docs@.len() && is_text(#[trigger] docs@[j]) {
                        a.description matches Some(d) && d@ == concatenated(doc_texts(docs@, docs@.len() as int))
                    } else {
                        a.description is None
                    }
                },
            },
    {
        if self.description.is_some() {
            return Ok(self);
        }
        let mut attr = self;
        match parse_from_doc_attrs(docs) {
            Err(i) => Err(i),
            Ok(Some(d)) => {
                proof {
                    assert(is_text(docs@[d.first as int]));
                }
                attr.description = Some(d.description.text);
                Ok(attr)
            },
            Ok(None) => Ok(attr),
        }
    }
}

/// The functions resolving a scalar.
pub enum ScalarMethods<P, T, F> {
    /// Custom functions: those given, and for those not given, the function
    /// of that name (`to_output`, `from_input`, `parse_token`) in `module`
    /// (`None` for `Self`).
    Custom { to_output: Option<P>, from_input: Option<P>, parse_token: Option<ParseToken<P, T>>, module: Option<P> },
    /// Delegated to the one field `field` of a `transparent` struct, but for
    /// the functions given.
    Delegated { to_output: Option<P>, from_input: Option<P>, parse_token: Option<ParseToken<P, T>>, field: F },
}

/// The custom functions of a scalar whose missing functions come from
/// `module` (`None` for `Self`).
pub open spec fn custom_methods<P, T, W, F>(a: ScalarAttrView<P, T, W>, module: Option<P>) -> ScalarMethods<P, T, F> {
    ScalarMethods::Custom { to_output: a.to_output, from_input: a.from_input, parse_token: a.parse_token, module }
}

/// The fields of an item deriving a scalar, as far as `transparent` is
/// concerned.
pub enum ScalarFields<F> {
    /// A struct with exactly one field.
    One(F),
    /// Anything else: another struct, an enum or a union.
    NotOne,
}

/// Message of the error about `transparent` on an item without exactly one
/// field.
pub const TRANSPARENT_ONE_FIELD: &'static str = "`transparent` attribute argument requires exactly 1 field";

/// Message of the error about `transparent` together with `with`.
pub const TRANSPARENT_WITH: &'static str = "`with = <path>` attribute argument cannot be combined with `transparent`. You can specify custom resolvers with `to_output_with`, `from_input_with`, `parse_token`/`parse_token_with` attribute arguments and still use `transparent` for unspecified ones.";

/// Message of the error about a type alias whose resolvers are not all
/// given.
pub const MISSING_RESOLVERS: &'static str = "all custom resolvers have to be provided via `with` or combination of `to_output_with`, `from_input_with`, `parse_token_with` attributes";

/// The functions of a scalar that an item derives: custom ones, where
/// missing ones come from `with` or `Self`; or, with `transparent`, those
/// of its one field, which `with` cannot go with. An error is its span
/// (`span` for the item, `with_span` for `with`) and message.
pub fn derived_methods<P, T, W, F, S>(attr: ScalarAttr<P, T, W>, fields: ScalarFields<F>, span: S, with_span: S) -> (res: Result<
    ScalarMethods<P, T, F>,
    (S, String),
>)
    ensures
        !attr.transparent ==> res == Ok::<ScalarMethods<P, T, F>, (S, String)>(custom_methods(attr.view(), attr.with)),
        attr.transparent && attr.with is Some ==> (res matches Err((s, m)) && s == with_span && m@ == scoped_message(
            Scope::ScalarDerive,
            TRANSPARENT_WITH@,
        )),
        attr.transparent && attr.with is None ==> match fields {
            ScalarFields::One(f) => res == Ok::<ScalarMethods<P, T, F>, (S, String)>(
                ScalarMethods::Delegated {
                    to_output: attr.to_output,
                    from_input: attr.from_input,
                    parse_token: attr.parse_token,
                    field: f,
                },
            ),
            ScalarFields::NotOne => res matches Err((s, m)) && s == span && m@ == scoped_message(
                Scope::ScalarDerive,
                TRANSPARENT_ONE_FIELD@,
            ),
        },
{
    let ScalarAttr { to_output, from_input, parse_token, with, transparent, .. } = attr;
    if !transparent {
        return Ok(ScalarMethods::Custom { to_output, from_input, parse_token, module: with });
    }
    if with.is_some() {
        return Err((with_span, Scope::ScalarDerive.custom_error_message(TRANSPARENT_WITH)));
    }
    match fields {
        ScalarFields::One(f) => Ok(ScalarMethods::Delegated { to_output, from_input, parse_token, field: f }),
        ScalarFields::NotOne => Err((span, Scope::ScalarDerive.custom_error_message(TRANSPARENT_ONE_FIELD))),
    }
}

/// The functions of a scalar that `#[graphql_scalar]` defines on a type
/// alias: all given, or completed from `with`; otherwise the error message.
pub fn alias_methods<P, T, W, F>(attr: ScalarAttr<P, T, W>) -> (res: Result<ScalarMethods<P, T, F>, String>)
    ensures
        attr.with is Some ==> res == Ok::<ScalarMethods<P, T, F>, String>(custom_methods(attr.view(), attr.with)),
        attr.with is None && attr.to_output is Some && attr.from_input is Some && attr.parse_token is Some ==> res
            == Ok::<ScalarMethods<P, T, F>, String>(custom_methods(attr.view(), None)),
        attr.with is None && !(attr.to_output is Some && attr.from_input is Some && attr.parse_token is Some) ==> (res matches Err(
            m,
        ) && m@ == scoped_message(Scope::ScalarAttr, MISSING_RESOLVERS@)),
{
    let ScalarAttr { to_output, from_input, parse_token, with, .. } = attr;
    if with.is_none() && !(to_output.is_some() && from_input.is_some() && parse_token.is_some()) {
        return Err(Scope::ScalarAttr.custom_error_message(MISSING_RESOLVERS));
    }
    Ok(ScalarMethods::Custom { to_output, from_input, parse_token, module: with })
}

/// The functions of a scalar that `#[graphql_scalar]` defines on a struct
/// or an enum: those given, the missing ones coming from `with` or `Self`
/// (`transparent` plays no part there).
pub fn item_methods<P, T, W, F>(attr: ScalarAttr<P, T, W>) -> (res: ScalarMethods<P, T, F>)
    ensures
        res == custom_methods::<P, T, W, F>(attr.view(), attr.with),
{
    let ScalarAttr { to_output, from_input, parse_token, with, .. } = attr;
    ScalarMethods::Custom { to_output, from_input, parse_token, module: with }
}

/// The GraphQL name of a scalar: the explicit one, or the identifier as
/// written (a raw identifier keeps its `r#`).
pub fn scalar_name(explicit: Option<String>, ident: String) -> (res: String)
    ensures
        res@ == match explicit {
            Some(n) => n@,
            None => ident@,
        },
{
    match explicit {
        Some(n) => n,
        None => ident,
    }
}

} // verus!

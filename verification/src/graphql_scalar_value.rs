//! `#[derive(GraphQLScalarValue)]` on a newtype: the arguments of its
//! `#[graphql(...)]` attributes, and how the functions resolving the scalar
//! are chosen: all given, or delegated to the one field of the struct.
use vstd::prelude::*;

use crate::attr::{merge_opt, merge_option, reversed};
use crate::description::{concatenated, doc_texts, is_not_string, is_text, parse_from_doc_attrs, DocAttr};
use crate::diagnostic::{scoped_message, Scope};
use crate::scalar::{invalid_url_message, specified_by_url, url_parse_result};
use crate::text::text_is;

verus! {

/// The arguments that `#[graphql(...)]` takes on a newtype scalar.
#[derive(Clone, Copy, Debug, PartialEq, Eq, Structural)]
pub enum NewtypeArgKey {
    /// `name = "..."`.
    Name,
    /// `desc = "..."` or `description = "..."`.
    Description,
    /// `specified_by_url = "..."`.
    SpecifiedByUrl,
    /// `scalar = ...`, `Scalar = ...` or `ScalarValue = ...`.
    Scalar,
    /// `resolve = path`.
    Resolve,
    /// `from_input_value = path`.
    FromInputValue,
    /// `from_input_value_err = Type`.
    FromInputValueErr,
    /// `from_str = path`.
    FromStr,
}

/// The argument that `ident` names, if any.
pub open spec fn newtype_arg_key_spec(ident: Seq<char>) -> Option<NewtypeArgKey> {
    if ident == "name"@ {
        Some(NewtypeArgKey::Name)
    } else if ident == "desc"@ || ident == "description"@ {
        Some(NewtypeArgKey::Description)
    } else if ident == "specified_by_url"@ {
        Some(NewtypeArgKey::SpecifiedByUrl)
    } else if ident == "scalar"@ || ident == "Scalar"@ || ident == "ScalarValue"@ {
        Some(NewtypeArgKey::Scalar)
    } else if ident == "resolve"@ {
        Some(NewtypeArgKey::Resolve)
    } else if ident == "from_input_value"@ {
        Some(NewtypeArgKey::FromInputValue)
    } else if ident == "from_input_value_err"@ {
        Some(NewtypeArgKey::FromInputValueErr)
    } else if ident == "from_str"@ {
        Some(NewtypeArgKey::FromStr)
    } else {
        None
    }
}

/// The keywords that name an argument here are exactly `name`, `desc`, `description`, `specified_by_url`, `scalar`, `Scalar`, `ScalarValue`, `resolve`, `from_input_value`, `from_input_value_err`, `from_str`, each naming
/// the argument listed.
pub proof fn law_newtype_keywords(ident: Seq<char>)
    ensures
        ident == "name"@ ==> newtype_arg_key_spec(ident) == Some(NewtypeArgKey::Name),
        ident == "desc"@ ==> newtype_arg_key_spec(ident) == Some(NewtypeArgKey::Description),
        ident == "description"@ ==> newtype_arg_key_spec(ident) == Some(NewtypeArgKey::Description),
        ident == "specified_by_url"@ ==> newtype_arg_key_spec(ident) == Some(NewtypeArgKey::SpecifiedByUrl),
        ident == "scalar"@ ==> newtype_arg_key_spec(ident) == Some(NewtypeArgKey::Scalar),
        ident == "Scalar"@ ==> newtype_arg_key_spec(ident) == Some(NewtypeArgKey::Scalar),
        ident == "ScalarValue"@ ==> newtype_arg_key_spec(ident) == Some(NewtypeArgKey::Scalar),
        ident == "resolve"@ ==> newtype_arg_key_spec(ident) == Some(NewtypeArgKey::Resolve),
        ident == "from_input_value"@ ==> newtype_arg_key_spec(ident) == Some(NewtypeArgKey::FromInputValue),
        ident == "from_input_value_err"@ ==> newtype_arg_key_spec(ident) == Some(NewtypeArgKey::FromInputValueErr),
        ident == "from_str"@ ==> newtype_arg_key_spec(ident) == Some(NewtypeArgKey::FromStr),
        newtype_arg_key_spec(ident) is Some ==> (ident == "name"@ || ident == "desc"@ || ident == "description"@ || ident == "specified_by_url"@ || ident == "scalar"@ || ident == "Scalar"@ || ident == "ScalarValue"@ || ident == "resolve"@ || ident == "from_input_value"@ || ident == "from_input_value_err"@ || ident == "from_str"@),
{
    reveal_strlit("name");
    reveal_strlit("desc");
    reveal_strlit("description");
    reveal_strlit("specified_by_url");
    reveal_strlit("scalar");
    reveal_strlit("Scalar");
    reveal_strlit("ScalarValue");
    reveal_strlit("resolve");
    reveal_strlit("from_input_value");
    reveal_strlit("from_input_value_err");
    reveal_strlit("from_str");
    assert("name"@[0] != "desc"@[0]);
    assert("name"@.len() != "description"@.len());
    assert("name"@.len() != "specified_by_url"@.len());
    assert("name"@.len() != "scalar"@.len());
    assert("name"@.len() != "Scalar"@.len());
    assert("name"@.len() != "ScalarValue"@.len());
    assert("name"@.len() != "resolve"@.len());
    assert("name"@.len() != "from_input_value"@.len());
    assert("name"@.len() != "from_input_value_err"@.len());
    assert("name"@.len() != "from_str"@.len());
    assert("desc"@.len() != "description"@.len());
    assert("desc"@.len() != "specified_by_url"@.len());
    assert("desc"@.len() != "scalar"@.len());
    assert("desc"@.len() != "Scalar"@.len());
    assert("desc"@.len() != "ScalarValue"@.len());
    assert("desc"@.len() != "resolve"@.len());
    assert("desc"@.len() != "from_input_value"@.len());
    assert("desc"@.len() != "from_input_value_err"@.len());
    assert("desc"@.len() != "from_str"@.len());
    assert("description"@.len() != "specified_by_url"@.len());
    assert("description"@.len() != "scalar"@.len());
    assert("description"@.len() != "Scalar"@.len());
    assert("description"@[0] != "ScalarValue"@[0]);
    assert("description"@.len() != "resolve"@.len());
    assert("description"@.len() != "from_input_value"@.len());
    assert("description"@.len() != "from_input_value_err"@.len());
    assert("description"@.len() != "from_str"@.len());
    assert("specified_by_url"@.len() != "scalar"@.len());
    assert("specified_by_url"@.len() != "Scalar"@.len());
    assert("specified_by_url"@.len() != "ScalarValue"@.len());
    assert("specified_by_url"@.len() != "resolve"@.len());
    assert("specified_by_url"@[0] != "from_input_value"@[0]);
    assert("specified_by_url"@.len() != "from_input_value_err"@.len());
    assert("specified_by_url"@.len() != "from_str"@.len());
    assert("scalar"@[0] != "Scalar"@[0]);
    assert("scalar"@.len() != "ScalarValue"@.len());
    assert("scalar"@.len() != "resolve"@.len());
    assert("scalar"@.len() != "from_input_value"@.len());
    assert("scalar"@.len() != "from_input_value_err"@.len());
    assert("scalar"@.len() != "from_str"@.len());
    assert("Scalar"@.len() != "ScalarValue"@.len());
    assert("Scalar"@.len() != "resolve"@.len());
    assert("Scalar"@.len() != "from_input_value"@.len());
    assert("Scalar"@.len() != "from_input_value_err"@.len());
    assert("Scalar"@.len() != "from_str"@.len());
    assert("ScalarValue"@.len() != "resolve"@.len());
    assert("ScalarValue"@.len() != "from_input_value"@.len());
    assert("ScalarValue"@.len() != "from_input_value_err"@.len());
    assert("ScalarValue"@.len() != "from_str"@.len());
    assert("resolve"@.len() != "from_input_value"@.len());
    assert("resolve"@.len() != "from_input_value_err"@.len());
    assert("resolve"@.len() != "from_str"@.len());
    assert("from_input_value"@.len() != "from_input_value_err"@.len());
    assert("from_input_value"@.len() != "from_str"@.len());
    assert("from_input_value_err"@.len() != "from_str"@.len());
}

/// The argument that `ident` names; `None` for an unknown argument.
pub fn newtype_arg_key(ident: &str) -> (res: Option<NewtypeArgKey>)
    ensures
        res == newtype_arg_key_spec(ident@),
        ident@ == "name"@ ==> res == Some(NewtypeArgKey::Name),
        ident@ == "desc"@ ==> res == Some(NewtypeArgKey::Description),
        ident@ == "description"@ ==> res == Some(NewtypeArgKey::Description),
        ident@ == "specified_by_url"@ ==> res == Some(NewtypeArgKey::SpecifiedByUrl),
        ident@ == "scalar"@ ==> res == Some(NewtypeArgKey::Scalar),
        ident@ == "Scalar"@ ==> res == Some(NewtypeArgKey::Scalar),
        ident@ == "ScalarValue"@ ==> res == Some(NewtypeArgKey::Scalar),
        ident@ == "resolve"@ ==> res == Some(NewtypeArgKey::Resolve),
        ident@ == "from_input_value"@ ==> res == Some(NewtypeArgKey::FromInputValue),
        ident@ == "from_input_value_err"@ ==> res == Some(NewtypeArgKey::FromInputValueErr),
        ident@ == "from_str"@ ==> res == Some(NewtypeArgKey::FromStr),
        res is Some ==> (ident@ == "name"@ || ident@ == "desc"@ || ident@ == "description"@ || ident@ == "specified_by_url"@ || ident@ == "scalar"@ || ident@ == "Scalar"@ || ident@ == "ScalarValue"@ || ident@ == "resolve"@ || ident@ == "from_input_value"@ || ident@ == "from_input_value_err"@ || ident@ == "from_str"@),
{
    proof {
        reveal_strlit("name");
        reveal_strlit("desc");
        reveal_strlit("description");
        reveal_strlit("specified_by_url");
        reveal_strlit("scalar");
        reveal_strlit("Scalar");
        reveal_strlit("ScalarValue");
        reveal_strlit("resolve");
        reveal_strlit("from_input_value");
        reveal_strlit("from_input_value_err");
        reveal_strlit("from_str");
        assert("name"@[0] != "desc"@[0]);
        assert("name"@.len() != "description"@.len());
        assert("name"@.len() != "specified_by_url"@.len());
        assert("name"@.len() != "scalar"@.len());
        assert("name"@.len() != "Scalar"@.len());
        assert("name"@.len() != "ScalarValue"@.len());
        assert("name"@.len() != "resolve"@.len());
        assert("name"@.len() != "from_input_value"@.len());
        assert("name"@.len() != "from_input_value_err"@.len());
        assert("name"@.len() != "from_str"@.len());
        assert("desc"@.len() != "description"@.len());
        assert("desc"@.len() != "specified_by_url"@.len());
        assert("desc"@.len() != "scalar"@.len());
        assert("desc"@.len() != "Scalar"@.len());
        assert("desc"@.len() != "ScalarValue"@.len());
        assert("desc"@.len() != "resolve"@.len());
        assert("desc"@.len() != "from_input_value"@.len());
        assert("desc"@.len() != "from_input_value_err"@.len());
        assert("desc"@.len() != "from_str"@.len());
        assert("description"@.len() != "specified_by_url"@.len());
        assert("description"@.len() != "scalar"@.len());
        assert("description"@.len() != "Scalar"@.len());
        assert("description"@[0] != "ScalarValue"@[0]);
        assert("description"@.len() != "resolve"@.len());
        assert("description"@.len() != "from_input_value"@.len());
        assert("description"@.len() != "from_input_value_err"@.len());
        assert("description"@.len() != "from_str"@.len());
        assert("specified_by_url"@.len() != "scalar"@.len());
        assert("specified_by_url"@.len() != "Scalar"@.len());
        assert("specified_by_url"@.len() != "ScalarValue"@.len());
        assert("specified_by_url"@.len() != "resolve"@.len());
        assert("specified_by_url"@[0] != "from_input_value"@[0]);
        assert("specified_by_url"@.len() != "from_input_value_err"@.len());
        assert("specified_by_url"@.len() != "from_str"@.len());
        assert("scalar"@[0] != "Scalar"@[0]);
        assert("scalar"@.len() != "ScalarValue"@.len());
        assert("scalar"@.len() != "resolve"@.len());
        assert("scalar"@.len() != "from_input_value"@.len());
        assert("scalar"@.len() != "from_input_value_err"@.len());
        assert("scalar"@.len() != "from_str"@.len());
        assert("Scalar"@.len() != "ScalarValue"@.len());
        assert("Scalar"@.len() != "resolve"@.len());
        assert("Scalar"@.len() != "from_input_value"@.len());
        assert("Scalar"@.len() != "from_input_value_err"@.len());
        assert("Scalar"@.len() != "from_str"@.len());
        assert("ScalarValue"@.len() != "resolve"@.len());
        assert("ScalarValue"@.len() != "from_input_value"@.len());
        assert("ScalarValue"@.len() != "from_input_value_err"@.len());
        assert("ScalarValue"@.len() != "from_str"@.len());
        assert("resolve"@.len() != "from_input_value"@.len());
        assert("resolve"@.len() != "from_input_value_err"@.len());
        assert("resolve"@.len() != "from_str"@.len());
        assert("from_input_value"@.len() != "from_input_value_err"@.len());
        assert("from_input_value"@.len() != "from_str"@.len());
        assert("from_input_value_err"@.len() != "from_str"@.len());
    }
    if text_is(ident, "name") {
        Some(NewtypeArgKey::Name)
    } else if text_is(ident, "desc") || text_is(ident, "description") {
        Some(NewtypeArgKey::Description)
    } else if text_is(ident, "specified_by_url") {
        Some(NewtypeArgKey::SpecifiedByUrl)
    } else if text_is(ident, "scalar") || text_is(ident, "Scalar") || text_is(ident, "ScalarValue") {
        Some(NewtypeArgKey::Scalar)
    } else if text_is(ident, "resolve") {
        Some(NewtypeArgKey::Resolve)
    } else if text_is(ident, "from_input_value") {
        Some(NewtypeArgKey::FromInputValue)
    } else if text_is(ident, "from_input_value_err") {
        Some(NewtypeArgKey::FromInputValueErr)
    } else if text_is(ident, "from_str") {
        Some(NewtypeArgKey::FromStr)
    } else {
        None
    }
}

/// One argument of `#[graphql(...)]` on a newtype scalar; `P` stands for
/// paths of functions, `T` for Rust types, `A` for values of `scalar`.
pub enum NewtypeArg<P, T, A> {
    Name(String),
    Description(String),
    /// The text of the URL literal, as written.
    SpecifiedByUrl(String),
    Scalar(A),
    Resolve(P),
    FromInputValue(P),
    FromInputValueErr(T),
    FromStr(P),
}

/// The arguments given by `#[graphql(...)]` attributes on a newtype scalar.
pub struct NewtypeAttr<P, T, A> {
    pub name: Option<String>,
    pub description: Option<String>,
    /// The URL, serialized.
    pub specified_by_url: Option<String>,
    pub scalar: Option<A>,
    pub resolve: Option<P>,
    pub from_input_value: Option<P>,
    pub from_input_value_err: Option<T>,
    pub from_str: Option<P>,
}

/// The view of the arguments of a newtype scalar: the URL as text.
pub struct NewtypeAttrView<P, T, A> {
    pub name: Option<String>,
    pub description: Option<String>,
    pub specified_by_url: Option<Seq<char>>,
    pub scalar: Option<A>,
    pub resolve: Option<P>,
    pub from_input_value: Option<P>,
    pub from_input_value_err: Option<T>,
    pub from_str: Option<P>,
}

impl<P, T, A> NewtypeAttr<P, T, A> {
    pub open spec fn view(&self) -> NewtypeAttrView<P, T, A> {
        NewtypeAttrView {
            name: self.name,
            description: self.description,
            specified_by_url: match self.specified_by_url {
                Some(u) => Some(u@),
                None => None,
            },
            scalar: self.scalar,
            resolve: self.resolve,
            from_input_value: self.from_input_value,
            from_input_value_err: self.from_input_value_err,
            from_str: self.from_str,
        }
    }
}

/// Why the arguments of one attribute are refused, with the position of the
/// argument refused.
pub enum NewtypeParseError {
    /// The argument is given a second time.
    Duplicate(usize),
    /// The URL does not parse; the message says why.
    InvalidUrl(usize, String),
}

/// Why the arguments of one attribute are refused, as a value.
pub enum NewtypeParseFailure {
    Duplicate(int),
    InvalidUrl(int, Seq<char>),
}

/// The view of `e`.
pub open spec fn newtype_failure_of(e: NewtypeParseError) -> NewtypeParseFailure {
    match e {
        NewtypeParseError::Duplicate(i) => NewtypeParseFailure::Duplicate(i as int),
        NewtypeParseError::InvalidUrl(i, m) => NewtypeParseFailure::InvalidUrl(i as int, m@),
    }
}

/// No argument given.
pub open spec fn newtype_empty<P, T, A>() -> NewtypeAttrView<P, T, A> {
    NewtypeAttrView {
        name: None,
        description: None,
        specified_by_url: None,
        scalar: None,
        resolve: None,
        from_input_value: None,
        from_input_value_err: None,
        from_str: None,
    }
}

/// Whether giving `x` in `a` gives an argument a second time.
pub open spec fn newtype_dup<P, T, A>(a: NewtypeAttrView<P, T, A>, x: NewtypeArg<P, T, A>) -> bool {
    match x {
        NewtypeArg::Name(_) => a.name is Some,
        NewtypeArg::Description(_) => a.description is Some,
        NewtypeArg::SpecifiedByUrl(_) => a.specified_by_url is Some,
        NewtypeArg::Scalar(_) => a.scalar is Some,
        NewtypeArg::Resolve(_) => a.resolve is Some,
        NewtypeArg::FromInputValue(_) => a.from_input_value is Some,
        NewtypeArg::FromInputValueErr(_) => a.from_input_value_err is Some,
        NewtypeArg::FromStr(_) => a.from_str is Some,
    }
}

/// `a` with the argument `x` given.
pub open spec fn newtype_with<P, T, A>(a: NewtypeAttrView<P, T, A>, x: NewtypeArg<P, T, A>) -> NewtypeAttrView<P, T, A> {
    match x {
        NewtypeArg::Name(s) => NewtypeAttrView { name: Some(s), ..a },
        NewtypeArg::Description(s) => NewtypeAttrView { description: Some(s), ..a },
        NewtypeArg::SpecifiedByUrl(u) => NewtypeAttrView { specified_by_url: Some(url_parse_result(u@)->Ok_0), ..a },
        NewtypeArg::Scalar(v) => NewtypeAttrView { scalar: Some(v), ..a },
        NewtypeArg::Resolve(p) => NewtypeAttrView { resolve: Some(p), ..a },
        NewtypeArg::FromInputValue(p) => NewtypeAttrView { from_input_value: Some(p), ..a },
        NewtypeArg::FromInputValueErr(t) => NewtypeAttrView { from_input_value_err: Some(t), ..a },
        NewtypeArg::FromStr(p) => NewtypeAttrView { from_str: Some(p), ..a },
    }
}

/// One step of reading the arguments of an attribute: the argument `x`, at
/// position `i`, given after those that made `a`; a URL that does not parse
/// is refused, then an argument given a second time; else it is recorded.
pub open spec fn newtype_step<P, T, A>(a: NewtypeAttrView<P, T, A>, x: NewtypeArg<P, T, A>, i: int) -> Result<
    NewtypeAttrView<P, T, A>,
    NewtypeParseFailure,
> {
    match x {
        NewtypeArg::SpecifiedByUrl(u) if url_parse_result(u@) is Err => Err(
            NewtypeParseFailure::InvalidUrl(i, invalid_url_message(url_parse_result(u@)->Err_0)),
        ),
        x => if newtype_dup(a, x) {
            Err(NewtypeParseFailure::Duplicate(i))
        } else {
            Ok(newtype_with(a, x))
        },
    }
}

/// The arguments of one attribute, read in order, each by `newtype_step`
/// until the first that is refused.
pub open spec fn newtype_parse_spec<P, T, A>(args: Seq<NewtypeArg<P, T, A>>) -> Result<NewtypeAttrView<P, T, A>, NewtypeParseFailure>
    decreases args.len(),
{
    if args.len() == 0 {
        Ok(newtype_empty())
    } else {
        match newtype_parse_spec(args.drop_last()) {
            Err(e) => Err(e),
            Ok(a) => newtype_step(a, args.last(), args.len() - 1),
        }
    }
}

proof fn lemma_newtype_parse_error_stays<P, T, A>(args: Seq<NewtypeArg<P, T, A>>, k: int)
    requires
        0 <= k <= args.len(),
        newtype_parse_spec(args.take(k)) is Err,
    ensures
        newtype_parse_spec(args) == newtype_parse_spec(args.take(k)),
    decreases args.len() - k,
{
    if k < args.len() {
        assert(args.take(k + 1).drop_last() =~= args.take(k));
        lemma_newtype_parse_error_stays(args, k + 1);
    } else {
        assert(args.take(k) =~= args);
    }
}

/// The first argument (in declaration order) given by both `a` and `b`.
pub open spec fn newtype_first_common<P, T, A>(a: NewtypeAttrView<P, T, A>, b: NewtypeAttrView<P, T, A>) -> Option<NewtypeArgKey> {
    if a.name is Some && b.name is Some {
        Some(NewtypeArgKey::Name)
    } else if a.description is Some && b.description is Some {
        Some(NewtypeArgKey::Description)
    } else if a.specified_by_url is Some && b.specified_by_url is Some {
        Some(NewtypeArgKey::SpecifiedByUrl)
    } else if a.scalar is Some && b.scalar is Some {
        Some(NewtypeArgKey::Scalar)
    } else if a.resolve is Some && b.resolve is Some {
        Some(NewtypeArgKey::Resolve)
    } else if a.from_input_value is Some && b.from_input_value is Some {
        Some(NewtypeArgKey::FromInputValue)
    } else if a.from_input_value_err is Some && b.from_input_value_err is Some {
        Some(NewtypeArgKey::FromInputValueErr)
    } else if a.from_str is Some && b.from_str is Some {
        Some(NewtypeArgKey::FromStr)
    } else {
        None
    }
}

/// The arguments of `a` and `b` together, when no argument is in both.
pub open spec fn newtype_merge_spec<P, T, A>(a: NewtypeAttrView<P, T, A>, b: NewtypeAttrView<P, T, A>) -> NewtypeAttrView<P, T, A> {
    NewtypeAttrView {
        name: merge_opt(a.name, b.name)->0,
        description: merge_opt(a.description, b.description)->0,
        specified_by_url: merge_opt(a.specified_by_url, b.specified_by_url)->0,
        scalar: merge_opt(a.scalar, b.scalar)->0,
        resolve: merge_opt(a.resolve, b.resolve)->0,
        from_input_value: merge_opt(a.from_input_value, b.from_input_value)->0,
        from_input_value_err: merge_opt(a.from_input_value_err, b.from_input_value_err)->0,
        from_str: merge_opt(a.from_str, b.from_str)->0,
    }
}

impl<P, T, A> NewtypeAttr<P, T, A> {
    /// An attribute with no argument.
    pub fn new() -> (res: Self)
        ensures
            res.view() == newtype_empty::<P, T, A>(),
    {
        NewtypeAttr {
            name: None,
            description: None,
            specified_by_url: None,
            scalar: None,
            resolve: None,
            from_input_value: None,
            from_input_value_err: None,
            from_str: None,
        }
    }

    /// Records the argument `x`, at position `i` of its attribute, after
    /// those already recorded: a URL that does not parse is refused, then an
    /// argument given a second time.
    pub fn add(self, x: NewtypeArg<P, T, A>, i: usize) -> (res: Result<Self, NewtypeParseError>)
        ensures
            match newtype_step(self.view(), x, i as int) {
                Ok(a) => res matches Ok(r) && r.view() == a,
                Err(f) => res matches Err(e) && newtype_failure_of(e) == f,
            },
    {
        let mut out = self;
        let url = match &x {
            NewtypeArg::SpecifiedByUrl(u) => match specified_by_url(u.as_str()) {
                Err(m) => return Err(NewtypeParseError::InvalidUrl(i, m)),
                Ok(url) => Some(url),
            },
            _ => None,
        };
        let dup = match &x {
            NewtypeArg::Name(_) => out.name.is_some(),
            NewtypeArg::Description(_) => out.description.is_some(),
            NewtypeArg::SpecifiedByUrl(_) => out.specified_by_url.is_some(),
            NewtypeArg::Scalar(_) => out.scalar.is_some(),
            NewtypeArg::Resolve(_) => out.resolve.is_some(),
            NewtypeArg::FromInputValue(_) => out.from_input_value.is_some(),
            NewtypeArg::FromInputValueErr(_) => out.from_input_value_err.is_some(),
            NewtypeArg::FromStr(_) => out.from_str.is_some(),
        };
        if dup {
            return Err(NewtypeParseError::Duplicate(i));
        }
        match x {
            NewtypeArg::Name(s) => out.name = Some(s),
            NewtypeArg::Description(s) => out.description = Some(s),
            NewtypeArg::SpecifiedByUrl(_) => out.specified_by_url = url,
            NewtypeArg::Scalar(v) => out.scalar = Some(v),
            NewtypeArg::Resolve(p) => out.resolve = Some(p),
            NewtypeArg::FromInputValue(p) => out.from_input_value = Some(p),
            NewtypeArg::FromInputValueErr(t) => out.from_input_value_err = Some(t),
            NewtypeArg::FromStr(p) => out.from_str = Some(p),
        }
        Ok(out)
    }

    /// Records the arguments of one attribute, refusing the first URL that
    /// does not parse or argument given a second time.
    pub fn parse(args: Vec<NewtypeArg<P, T, A>>) -> (res: Result<Self, NewtypeParseError>)
        ensures
            match newtype_parse_spec(args@) {
                Ok(a) => res matches Ok(r) && r.view() == a,
                Err(f) => res matches Err(e) && newtype_failure_of(e) == f,
            },
    {
        let ghost all = args@;
        let n = args.len();
        let mut out = NewtypeAttr::new();
        let mut i: usize = 0;
        let mut rest = reversed(args);
        while rest.len() > 0
            invariant
                i + rest@.len() == n,
                n == all.len(),
                all == args@,
                forall|j: int| 0 <= j < rest@.len() ==> #[trigger] rest@[j] == all[n - 1 - j],
                newtype_parse_spec(all.take(i as int)) == Ok::<NewtypeAttrView<P, T, A>, NewtypeParseFailure>(
                    out.view(),
                ),
            decreases rest.len(),
        {
            let x = rest.pop().unwrap();
            proof {
                assert(x == all[i as int]);
                assert(all.take(i + 1).drop_last() =~= all.take(i as int));
                assert(all.take(i + 1).last() == x);
            }
            out = match out.add(x, i) {
                Ok(r) => r,
                Err(e) => {
                    proof {
                        lemma_newtype_parse_error_stays(all, i + 1);
                    }
                    return Err(e);
                },
            };
            i += 1;
        }
        assert(all.take(n as int) =~= all);
        Ok(out)
    }

    /// Merges the arguments of two attributes, refusing the first argument
    /// (in declaration order) that both give.
    pub fn try_merge(self, another: Self) -> (res: Result<Self, NewtypeArgKey>)
        ensures
            match newtype_first_common(self.view(), another.view()) {
                Some(k) => res == Err::<Self, NewtypeArgKey>(k),
                None => res matches Ok(a) && a.view() == newtype_merge_spec(self.view(), another.view()),
            },
    {
        let name = match merge_option(self.name, another.name) {
            Ok(v) => v,
            Err(_) => return Err(NewtypeArgKey::Name),
        };
        let description = match merge_option(self.description, another.description) {
            Ok(v) => v,
            Err(_) => return Err(NewtypeArgKey::Description),
        };
        let specified_by_url = match merge_option(self.specified_by_url, another.specified_by_url) {
            Ok(v) => v,
            Err(_) => return Err(NewtypeArgKey::SpecifiedByUrl),
        };
        let scalar = match merge_option(self.scalar, another.scalar) {
            Ok(v) => v,
            Err(_) => return Err(NewtypeArgKey::Scalar),
        };
        let resolve = match merge_option(self.resolve, another.resolve) {
            Ok(v) => v,
            Err(_) => return Err(NewtypeArgKey::Resolve),
        };
        let from_input_value = match merge_option(self.from_input_value, another.from_input_value) {
            Ok(v) => v,
            Err(_) => return Err(NewtypeArgKey::FromInputValue),
        };
        let from_input_value_err = match merge_option(self.from_input_value_err, another.from_input_value_err) {
            Ok(v) => v,
            Err(_) => return Err(NewtypeArgKey::FromInputValueErr),
        };
        let from_str = match merge_option(self.from_str, another.from_str) {
            Ok(v) => v,
            Err(_) => return Err(NewtypeArgKey::FromStr),
        };
        Ok(
            NewtypeAttr {
                name,
                description,
                specified_by_url,
                scalar,
                resolve,
                from_input_value,
                from_input_value_err,
                from_str,
            },
        )
    }

    /// Completes the merged arguments: a missing description is taken from
    /// the doc attributes `docs`; refused at the first doc attribute with a
    /// non-string value.
    pub fn from_attrs(self, docs: &[DocAttr]) -> (res: Result<Self, usize>)
        ensures
            self.description is Some ==> (res matches Ok(a) && a.view() == self.view()),
            self.description is None ==> match res {
                Err(i) => i < docs@.len() && is_not_string(docs@[i as int]) && forall|j: int|
                    0 <= j < i ==> !is_not_string(#[trigger] docs@[j]),
                Ok(a) => {
                    &&& forall|j: int| 0 <= j < docs@.len() ==> !is_not_string(#[trigger] docs@[j])
                    &&& a.view() == NewtypeAttrView { description: a.description, ..self.view() }
                    &&& if exists|j: int| 0 <= j < docs@.len() && is_text(#[trigger] docs@[j]) {
                        a.description matches Some(d) && d@ == concatenated(doc_texts(docs@, docs@.len() as int))
                    } else {
                        a.description is None
                    }
                },
            },
    {
        if self.description.is_some() {
            return Ok(self);
        }
        let mut attr = self;
        match parse_from_doc_attrs(docs) {
            Err(i) => Err(i),
            Ok(Some(d)) => {
                proof {
                    assert(is_text(docs@[d.first as int]));
                }
                attr.description = Some(d.description.text);
                Ok(attr)
            },
            Ok(None) => Ok(attr),
        }
    }
}

/// The fields of an item deriving a newtype scalar.
pub enum NewtypeFields<F> {
    /// A struct with unnamed fields, in order.
    Unnamed(Vec<F>),
    /// A struct with named fields, in order.
    Named(Vec<F>),
    /// A unit struct.
    Unit,
    /// An enum or a union.
    NotStruct,
}

/// The functions resolving a newtype scalar.
pub enum NewtypeMethods<P, T, F> {
    /// All given.
    Custom { resolve: P, from_input_value: (P, T), from_str: P },
    /// Those given; the others delegated to the one field `field`.
    Delegated { resolve: Option<P>, from_input_value: Option<(P, T)>, from_str: Option<P>, field: F },
}

/// Message of the error about `from_input_value` without
/// `from_input_value_err`, or the other way round.
pub const FROM_INPUT_VALUE_TANDEM: &'static str = "`from_input_value` attribute should be provided in tandem with `from_input_value_err`";

/// Message of the error about a newtype scalar that is not a struct.
pub const NOT_SINGLE_FIELD_STRUCT: &'static str = "expected single-field struct or all `resolve`, `from_input_value` and `from_str` functions";

/// Message of the error about a unit struct.
pub const UNIT_STRUCT: &'static str = "expected exactly 1 field, e.g., `Test(i32)` or `Test { test: i32 }` or all `resolve`, `from_input_value` and `from_str` functions";

/// Message of the error about a tuple struct without exactly one field.
pub const UNNAMED_NOT_ONE: &'static str = "expected exactly 1 field, e.g., Test(i32)or all `resolve`, `from_input_value` and `from_str` functions";

/// Message of the error about a struct with named fields without exactly
/// one field.
pub const NAMED_NOT_ONE: &'static str = "expected exactly 1 field, e.g., Test { test: i32 }or all `resolve`, `from_input_value` and `from_str` functions";

/// The error message that the fields `fields` give when resolving is
/// delegated to the one field, if any.
pub open spec fn fields_error<F>(fields: NewtypeFields<F>) -> Option<Seq<char>> {
    match fields {
        NewtypeFields::NotStruct => Some(NOT_SINGLE_FIELD_STRUCT@),
        NewtypeFields::Unit => Some(UNIT_STRUCT@),
        NewtypeFields::Unnamed(fs) => if fs@.len() == 1 {
            None
        } else {
            Some(UNNAMED_NOT_ONE@)
        },
        NewtypeFields::Named(fs) => if fs@.len() == 1 {
            None
        } else {
            Some(NAMED_NOT_ONE@)
        },
    }
}

/// The one field of `fields`, when there is one.
pub open spec fn the_field<F>(fields: NewtypeFields<F>) -> F {
    match fields {
        NewtypeFields::Unnamed(fs) => fs@[0],
        NewtypeFields::Named(fs) => fs@[0],
        _ => arbitrary(),
    }
}

/// The functions resolving a newtype scalar: all four given make custom
/// functions; otherwise `from_input_value` and `from_input_value_err` go
/// together, and the others are delegated to the one field of the struct.
/// An error is the message about the item.
pub fn newtype_methods<P, T, A, F>(attr: NewtypeAttr<P, T, A>, fields: NewtypeFields<F>) -> (res: Result<NewtypeMethods<P, T, F>, String>)
    ensures
        ({
            let a = attr;
            if a.resolve is Some && a.from_input_value is Some && a.from_input_value_err is Some && a.from_str is Some {
                res == Ok::<NewtypeMethods<P, T, F>, String>(
                    NewtypeMethods::Custom {
                        resolve: a.resolve->0,
                        from_input_value: (a.from_input_value->0, a.from_input_value_err->0),
                        from_str: a.from_str->0,
                    },
                )
            } else if (a.from_input_value is Some) != (a.from_input_value_err is Some) {
                res matches Err(m) && m@ == scoped_message(Scope::ScalarDerive, FROM_INPUT_VALUE_TANDEM@)
            } else {
                match fields_error(fields) {
                    Some(msg) => res matches Err(m) && m@ == scoped_message(Scope::ScalarDerive, msg),
                    None => res == Ok::<NewtypeMethods<P, T, F>, String>(
                        NewtypeMethods::Delegated {
                            resolve: a.resolve,
                            from_input_value: if a.from_input_value is Some {
                                Some((a.from_input_value->0, a.from_input_value_err->0))
                            } else {
                                None
                            },
                            from_str: a.from_str,
                            field: the_field(fields),
                        },
                    ),
                }
            }
        }),
{
    let NewtypeAttr { resolve, from_input_value, from_input_value_err, from_str, .. } = attr;
    if resolve.is_some() && from_input_value.is_some() && from_input_value_err.is_some() && from_str.is_some() {
        return Ok(
            NewtypeMethods::Custom {
                resolve: resolve.unwrap(),
                from_input_value: (from_input_value.unwrap(), from_input_value_err.unwrap()),
                from_str: from_str.unwrap(),
            },
        );
    }
    let from_input_value = match (from_input_value, from_input_value_err) {
        (Some(f), Some(e)) => Some((f, e)),
        (None, None) => None,
        _ => return Err(Scope::ScalarDerive.custom_error_message(FROM_INPUT_VALUE_TANDEM)),
    };
    let field = match fields {
        NewtypeFields::NotStruct => return Err(Scope::ScalarDerive.custom_error_message(NOT_SINGLE_FIELD_STRUCT)),
        NewtypeFields::Unit => return Err(Scope::ScalarDerive.custom_error_message(UNIT_STRUCT)),
        NewtypeFields::Unnamed(mut fs) => {
            if fs.len() != 1 {
                return Err(Scope::ScalarDerive.custom_error_message(UNNAMED_NOT_ONE));
            }
            fs.pop().unwrap()
        },
        NewtypeFields::Named(mut fs) => {
            if fs.len() != 1 {
                return Err(Scope::ScalarDerive.custom_error_message(NAMED_NOT_ONE));
            }
            fs.pop().unwrap()
        },
    };
    Ok(NewtypeMethods::Delegated { resolve, from_input_value, from_str, field })
}

} // verus!

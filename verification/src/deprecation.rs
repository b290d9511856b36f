//! GraphQL deprecations: the `@deprecated` directive put into the schema
//! from `#[graphql(deprecated = ...)]` or from Rust `#[deprecated]`.
use vstd::prelude::*;

verus! {

/// A GraphQL deprecation directive, with its optional reason.
pub struct Directive {
    pub reason: Option<String>,
}

/// One argument inside `#[deprecated(...)]`.
pub enum DeprecatedArg {
    /// `path = value`: whether the path is `note`, and the text of the value
    /// if it is a string literal.
    NameValue { is_note: bool, text: Option<String> },
    /// Any other argument form.
    Other,
}

/// One attribute of an item, as far as its deprecation is concerned.
pub enum DeprecatedAttr {
    /// `#[deprecated(...)]` with its arguments.
    List(Vec<DeprecatedArg>),
    /// `#[deprecated(...)]` whose arguments are not a comma-separated list of
    /// attribute arguments.
    Unparsable,
    /// `#[deprecated]`.
    Bare,
    /// Any other attribute.
    Other,
}

/// Why a `#[deprecated(...)]` attribute is refused.
#[derive(Clone, Copy, Debug, PartialEq, Eq, Structural)]
pub enum DeprecationError {
    /// Its arguments are not a list of attribute arguments.
    Unparsable,
    /// Its first `name = value` argument is not `note = ...`.
    UnrecognizedSetting(usize),
    /// Its `note = ...` is not a string literal.
    NotString(usize),
}

impl DeprecationError {
    /// The message this error is reported with; for [`Unparsable`] it is the
    /// one of the failed parse of the arguments, which this crate does not
    /// write.
    ///
    /// [`Unparsable`]: DeprecationError::Unparsable
    pub fn message(&self) -> (res: Option<&'static str>)
        ensures
            match *self {
                DeprecationError::Unparsable => res is None,
                DeprecationError::UnrecognizedSetting(_) => res matches Some(m) && m@
                    == "unrecognized setting on #[deprecated(..)] attribute"@,
                DeprecationError::NotString(_) => res matches Some(m) && m@
                    == "only strings are allowed for deprecation"@,
            },
    {
        match self {
            DeprecationError::Unparsable => None,
            DeprecationError::UnrecognizedSetting(_) => Some(
                "unrecognized setting on #[deprecated(..)] attribute",
            ),
            DeprecationError::NotString(_) => Some("only strings are allowed for deprecation"),
        }
    }
}

/// Whether `a` is a `name = value` argument.
pub open spec fn is_name_value(a: DeprecatedArg) -> bool {
    a matches DeprecatedArg::NameValue { .. }
}

/// What the arguments of `#[deprecated(...)]` mean, decided by the first
/// `name = value` among them: its reason if it is `note = "..."`.
pub open spec fn meta_list_spec(args: Seq<DeprecatedArg>) -> Result<Option<Seq<char>>, DeprecationError>
    decreases args.len(),
{
    if args.len() == 0 {
        Ok(None)
    } else {
        match args[0] {
            DeprecatedArg::NameValue { is_note, text } => if !is_note {
                Err(DeprecationError::UnrecognizedSetting(0))
            } else {
                match text {
                    Some(t) => Ok(Some(t@)),
                    None => Err(DeprecationError::NotString(0)),
                }
            },
            DeprecatedArg::Other => match meta_list_spec(args.drop_first()) {
                Err(DeprecationError::UnrecognizedSetting(i)) => Err(
                    DeprecationError::UnrecognizedSetting((i + 1) as usize),
                ),
                Err(DeprecationError::NotString(i)) => Err(DeprecationError::NotString((i + 1) as usize)),
                r => r,
            },
        }
    }
}

/// Whether `a` is a `#[deprecated]` attribute of any form.
pub open spec fn is_deprecated_attr(a: DeprecatedAttr) -> bool {
    !(a matches DeprecatedAttr::Other)
}

impl Directive {
    /// Parses the arguments of a single `#[deprecated(...)]` attribute.
    pub fn parse_from_deprecated_meta_list(args: &[DeprecatedArg]) -> (res: Result<Directive, DeprecationError>)
        ensures
            match meta_list_spec(args@) {
                Ok(None) => res matches Ok(d) && d.reason is None,
                Ok(Some(t)) => res matches Ok(d) && d.reason matches Some(r) && r@ == t,
                Err(e) => res == Err::<Directive, DeprecationError>(e),
            },
    {
        let mut i: usize = 0;
        while i < args.len()
            invariant
                i <= args@.len(),
                forall|j: int| 0 <= j < i ==> !is_name_value(#[trigger] args@[j]),
            decreases args@.len() - i,
        {
            match &args[i] {
                DeprecatedArg::NameValue { is_note, text } => {
                    proof {
                        lemma_meta_list_skips(args@, i as int);
                    }
                    return if !*is_note {
                        Err(DeprecationError::UnrecognizedSetting(i))
                    } else {
                        match text {
                            Some(t) => Ok(Directive { reason: Some(t.clone()) }),
                            None => Err(DeprecationError::NotString(i)),
                        }
                    };
                },
                DeprecatedArg::Other => {},
            }
            i += 1;
        }
        proof {
            lemma_meta_list_skips(args@, i as int);
        }
        Ok(Directive { reason: None })
    }

    /// Looks for a deprecation among the attributes of an item: the first
    /// `#[deprecated]` attribute of any form decides; the position of that
    /// attribute comes with the directive.
    pub fn parse_from_deprecated_attr(attrs: &[DeprecatedAttr]) -> (res: Result<Option<(usize, Directive)>, (usize, DeprecationError)>)
        ensures
            match res {
                Ok(None) => forall|j: int| 0 <= j < attrs@.len() ==> !is_deprecated_attr(#[trigger] attrs@[j]),
                Ok(Some((i, d))) => {
                    &&& i < attrs@.len()
                    &&& forall|j: int| 0 <= j < i ==> !is_deprecated_attr(#[trigger] attrs@[j])
                    &&& match attrs@[i as int] {
                        DeprecatedAttr::Bare => d.reason is None,
                        DeprecatedAttr::List(args) => match meta_list_spec(args@) {
                            Ok(None) => d.reason is None,
                            Ok(Some(t)) => d.reason matches Some(r) && r@ == t,
                            Err(_) => false,
                        },
                        _ => false,
                    }
                },
                Err((i, e)) => {
                    &&& i < attrs@.len()
                    &&& forall|j: int| 0 <= j < i ==> !is_deprecated_attr(#[trigger] attrs@[j])
                    &&& match attrs@[i as int] {
                        DeprecatedAttr::Unparsable => e == DeprecationError::Unparsable,
                        DeprecatedAttr::List(args) => meta_list_spec(args@) == Err::<Option<Seq<char>>, DeprecationError>(e),
                        _ => false,
                    }
                },
            },
    {
        let mut i: usize = 0;
        while i < attrs.len()
            invariant
                i <= attrs@.len(),
                forall|j: int| 0 <= j < i ==> !is_deprecated_attr(#[trigger] attrs@[j]),
            decreases attrs@.len() - i,
        {
            match &attrs[i] {
                DeprecatedAttr::List(args) => {
                    return match Self::parse_from_deprecated_meta_list(args.as_slice()) {
                        Ok(d) => Ok(Some((i, d))),
                        Err(e) => Err((i, e)),
                    };
                },
                DeprecatedAttr::Unparsable => {
                    return Err((i, DeprecationError::Unparsable));
                },
                DeprecatedAttr::Bare => {
                    return Ok(Some((i, Directive { reason: None })));
                },
                DeprecatedAttr::Other => {},
            }
            i += 1;
        }
        Ok(None)
    }
}

/// Arguments before the first `name = value` one do not change what the
/// list means, but shift the positions of errors.
proof fn lemma_meta_list_skips(args: Seq<DeprecatedArg>, i: int)
    requires
        0 <= i <= args.len(),
        args.len() <= usize::MAX,
        forall|j: int| 0 <= j < i ==> !is_name_value(#[trigger] args[j]),
    ensures
        i == args.len() ==> meta_list_spec(args) == Ok::<Option<Seq<char>>, DeprecationError>(None),
        i < args.len() && is_name_value(args[i]) ==> match args[i] {
            DeprecatedArg::NameValue { is_note, text } => meta_list_spec(args) == (if !is_note {
                Err(DeprecationError::UnrecognizedSetting(i as usize))
            } else {
                match text {
                    Some(t) => Ok(Some(t@)),
                    None => Err(DeprecationError::NotString(i as usize)),
                }
            }),
            _ => true,
        },
    decreases i,
{
    if i > 0 {
        assert(!is_name_value(args[0]));
        let rest = args.drop_first();
        assert forall|j: int| 0 <= j < i - 1 implies !is_name_value(#[trigger] rest[j]) by {
            assert(rest[j] == args[j + 1]);
        }
        lemma_meta_list_skips(rest, i - 1);
        if i < args.len() {
            assert(rest[i - 1] == args[i]);
            if is_name_value(args[i]) {
                match args[i] {
                    DeprecatedArg::NameValue { is_note, text } => {
                        if !is_note {
                            assert(meta_list_spec(rest) == Err::<Option<Seq<char>>, DeprecationError>(
                                DeprecationError::UnrecognizedSetting((i - 1) as usize)));
                        } else {
                            match text {
                                Some(t) => {},
                                None => {
                                    assert(meta_list_spec(rest) == Err::<Option<Seq<char>>, DeprecationError>(
                                        DeprecationError::NotString((i - 1) as usize)));
                                },
                            }
                        }
                    },
                    _ => {},
                }
            }
        }
    }
}

} // verus!

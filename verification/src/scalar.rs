//! GraphQL scalars: the URL of the specification a custom scalar follows
//! (`#[graphql(specified_by_url = "...")]`).
use vstd::prelude::*;

verus! {

/// What `url::Url::parse` gives for `input`: the serialization of the
/// parsed URL, or the text of the parse error.
pub uninterp spec fn url_parse_result(input: Seq<char>) -> Result<Seq<char>, Seq<char>>;

/// Calls `url::Url::parse` on `input`.
///
/// Claimed: the serialization of the URL it returns (`Url::as_str`), or
/// the `Display` text of the `ParseError` it returns, is what
/// [`url_parse_result`] names for `input`. Nothing is claimed of which
/// inputs parse.
#[verifier::external_body]
fn parse_url(input: &str) -> (res: Result<String, String>)
    ensures
        match res {
            Ok(u) => url_parse_result(input@) == Ok::<Seq<char>, Seq<char>>(u@),
            Err(e) => url_parse_result(input@) == Err::<Seq<char>, Seq<char>>(e@),
        },
{
    match url::Url::parse(input) {
        Ok(url) => Ok(url.as_str().to_string()),
        Err(err) => Err(err.to_string()),
    }
}

/// The message of the error about a `specified_by_url` value that does not
/// parse with the error text `err`.
pub open spec fn invalid_url_message(err: Seq<char>) -> Seq<char> {
    "Invalid URL: "@ + err
}

/// What a `specified_by_url` argument becomes once its value was parsed:
/// the serialized URL, or the error about it.
pub fn specified_by_url_from(parsed: Result<String, String>) -> (res: Result<String, String>)
    ensures
        match parsed {
            Ok(u) => res matches Ok(r) && r@ == u@,
            Err(e) => res matches Err(m) && m@ == invalid_url_message(e@),
        },
{
    match parsed {
        Ok(u) => Ok(u),
        Err(e) => Err(String::from_str("Invalid URL: ").concat(e.as_str())),
    }
}

/// Parses the value of a `specified_by_url` argument: the serialized URL,
/// or the error message about it.
pub fn specified_by_url(value: &str) -> (res: Result<String, String>)
    ensures
        match url_parse_result(value@) {
            Ok(u) => res matches Ok(r) && r@ == u,
            Err(e) => res matches Err(m) && m@ == invalid_url_message(e),
        },
{
    specified_by_url_from(parse_url(value))
}

/// A value of `#[graphql(scalar = ...)]`: a concrete Rust type `T`, or a
/// generic type parameter with a bound predicate `P`.
pub enum ScalarAttrValue<T, P> {
    Concrete(T),
    Generic(P),
}

/// The `ScalarValue` parametrization of generated code.
pub enum ScalarType<T, I, P> {
    /// A concrete Rust type.
    Concrete(T),
    /// One of the type parameters `I` of the type the code is generated
    /// for.
    ExplicitGeneric(I),
    /// A generic parameter of the generated code, with an optional bound
    /// predicate.
    ImplicitGeneric(Option<P>),
}

impl<T, I, P> ScalarType<T, I, P> {
    /// Whether this parametrization is generic.
    pub fn is_generic(&self) -> (res: bool)
        ensures
            res == !(*self is Concrete),
    {
        match self {
            ScalarType::Concrete(_) => false,
            _ => true,
        }
    }

    /// Whether this parametrization is a generic parameter of the generated
    /// code.
    pub fn is_implicit_generic(&self) -> (res: bool)
        ensures
            res == (*self is ImplicitGeneric),
    {
        match self {
            ScalarType::ImplicitGeneric(_) => true,
            _ => false,
        }
    }

    /// The additional bound predicate of this parametrization, if any.
    pub fn bounds(&self) -> (res: Option<&P>)
        ensures
            match *self {
                ScalarType::ImplicitGeneric(Some(p)) => res == Some(&p),
                _ => res is None,
            },
    {
        match self {
            ScalarType::ImplicitGeneric(Some(p)) => Some(p),
            _ => None,
        }
    }

    /// The parametrization that `#[graphql(scalar = ...)]` gives: a
    /// concrete type that is one of the type parameters (`param_named` is
    /// that parameter) is that parameter; another concrete type is itself;
    /// a bound predicate, or nothing, makes the code generic.
    pub fn parse(explicit: Option<ScalarAttrValue<T, P>>, param_named: Option<I>) -> (res: Self)
        ensures
            match explicit {
                Some(ScalarAttrValue::Concrete(t)) => match param_named {
                    Some(i) => res == ScalarType::<T, I, P>::ExplicitGeneric(i),
                    None => res == ScalarType::<T, I, P>::Concrete(t),
                },
                Some(ScalarAttrValue::Generic(p)) => res == ScalarType::<T, I, P>::ImplicitGeneric(Some(p)),
                None => res == ScalarType::<T, I, P>::ImplicitGeneric(None),
            },
    {
        match explicit {
            Some(ScalarAttrValue::Concrete(t)) => match param_named {
                Some(i) => ScalarType::ExplicitGeneric(i),
                None => ScalarType::Concrete(t),
            },
            Some(ScalarAttrValue::Generic(p)) => ScalarType::ImplicitGeneric(Some(p)),
            None => ScalarType::ImplicitGeneric(None),
        }
    }
}

} // verus!

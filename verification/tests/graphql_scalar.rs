use juniper_codegen::graphql_scalar::{
    alias_methods, derived_methods, item_methods, scalar_arg_key, scalar_name, ParseToken, ScalarArg, ScalarArgKey,
    ScalarAttr, ScalarFields, ScalarMethods, ScalarParseError, NO_PREDICATES_MESSAGE, NO_TYPES_MESSAGE,
};

fn s(v: &str) -> String {
    v.to_string()
}

type Attr = ScalarAttr<u8, u8, u8>;

#[test]
fn scalar_argument_keys() {
    assert_eq!(scalar_arg_key("parse_token"), Some(ScalarArgKey::ParseToken));
    assert_eq!(scalar_arg_key("parse_token_with"), Some(ScalarArgKey::ParseTokenWith));
    assert_eq!(scalar_arg_key("where"), Some(ScalarArgKey::Where));
    assert_eq!(scalar_arg_key("transparent"), Some(ScalarArgKey::Transparent));
    assert_eq!(scalar_arg_key("specified_by_url"), Some(ScalarArgKey::SpecifiedByUrl));
    assert_eq!(scalar_arg_key("ignore"), None);
}

#[test]
fn scalar_attr_parse() {
    let a = Attr::parse(vec![ScalarArg::SpecifiedByUrl(s("https://tools.ietf.org/html/rfc4122")), ScalarArg::With(1)]).ok().unwrap();
    assert_eq!(a.specified_by_url, Some(s("https://tools.ietf.org/html/rfc4122")));
    match Attr::parse(vec![ScalarArg::Name(s("A")), ScalarArg::SpecifiedByUrl(s("not a url"))]) {
        Err(ScalarParseError::InvalidUrl(i, m)) => {
            assert_eq!(i, 1);
            assert_eq!(m, "Invalid URL: relative URL without a base");
        }
        _ => panic!("expected an invalid URL"),
    }
    assert!(matches!(Attr::parse(vec![ScalarArg::ParseToken(vec![])]), Err(ScalarParseError::NoTypes(0))));
    assert!(matches!(Attr::parse(vec![ScalarArg::Where(vec![])]), Err(ScalarParseError::NoPredicates(0))));
    assert!(matches!(
        Attr::parse(vec![ScalarArg::ParseTokenWith(1), ScalarArg::ParseToken(vec![2])]),
        Err(ScalarParseError::Duplicate(1))
    ));
    let b = Attr::parse(vec![ScalarArg::Transparent, ScalarArg::Transparent]).ok().unwrap();
    assert!(b.transparent);
    let c = Attr::parse(vec![ScalarArg::ToOutputWith(3)]).ok().unwrap();
    let d = Attr::parse(vec![ScalarArg::ToOutputWith(4)]).ok().unwrap();
    assert_eq!(c.try_merge(d).err(), Some(ScalarArgKey::ToOutputWith));
}

#[test]
fn derived_scalar_methods() {
    let a = Attr::parse(vec![ScalarArg::ToOutputWith(3), ScalarArg::With(7)]).ok().unwrap();
    match derived_methods::<u8, u8, u8, u8, u32>(a, ScalarFields::NotOne, 1, 2).ok().unwrap() {
        ScalarMethods::Custom { to_output, from_input, parse_token, module } => {
            assert_eq!(to_output, Some(3));
            assert_eq!(from_input, None);
            assert!(parse_token.is_none());
            assert_eq!(module, Some(7));
        }
        _ => panic!("expected custom methods"),
    }
    let t = Attr::parse(vec![ScalarArg::Transparent, ScalarArg::ParseToken(vec![5])]).ok().unwrap();
    match derived_methods::<u8, u8, u8, u8, u32>(t, ScalarFields::One(9), 1, 2).ok().unwrap() {
        ScalarMethods::Delegated { parse_token, field, .. } => {
            assert!(matches!(parse_token, Some(ParseToken::Delegated(ref ts)) if ts == &vec![5u8]));
            assert_eq!(field, 9);
        }
        _ => panic!("expected delegated methods"),
    }
    let t = Attr::parse(vec![ScalarArg::Transparent]).ok().unwrap();
    let (span, msg) = derived_methods::<u8, u8, u8, u8, u32>(t, ScalarFields::NotOne, 1, 2).err().unwrap();
    assert_eq!(span, 1);
    assert_eq!(msg, "GraphQL scalar `transparent` attribute argument requires exactly 1 field");
    let tw = Attr::parse(vec![ScalarArg::Transparent, ScalarArg::With(7)]).ok().unwrap();
    let (span, msg) = derived_methods::<u8, u8, u8, u8, u32>(tw, ScalarFields::One(9), 1, 2).err().unwrap();
    assert_eq!(span, 2);
    assert!(msg.starts_with("GraphQL scalar `with = <path>` attribute argument cannot be combined with `transparent`."));
}

#[test]
fn alias_and_item_methods() {
    let missing = Attr::parse(vec![ScalarArg::ToOutputWith(3)]).ok().unwrap();
    assert!(alias_methods::<u8, u8, u8, u8>(missing).err().unwrap().starts_with("GraphQL scalar all custom resolvers have to be provided"));
    let all = Attr::parse(vec![ScalarArg::ToOutputWith(3), ScalarArg::FromInputWith(4), ScalarArg::ParseTokenWith(5)]).ok().unwrap();
    assert!(matches!(alias_methods::<u8, u8, u8, u8>(all), Ok(ScalarMethods::Custom { module: None, .. })));
    let t = Attr::parse(vec![ScalarArg::Transparent]).ok().unwrap();
    assert!(matches!(item_methods::<u8, u8, u8, u8>(t), ScalarMethods::Custom { module: None, to_output: None, .. }));
    assert_eq!(scalar_name(None, s("r#Uuid")), "r#Uuid");
    assert_eq!(scalar_name(Some(s("UUID")), s("Uuid")), "UUID");
}

#[test]
fn scalar_arguments_one_at_a_time() {
    let a = Attr::new().add(ScalarArg::Name(s("Long")), 0).ok().unwrap();
    assert_eq!(a.name, Some(s("Long")));
    assert!(matches!(a.add(ScalarArg::Name(s("Other")), 1), Err(ScalarParseError::Duplicate(1))));
    let a = Attr::new().add(ScalarArg::ParseTokenWith(3), 0).ok().unwrap();
    assert!(matches!(a.add(ScalarArg::ParseToken(vec![1]), 1), Err(ScalarParseError::Duplicate(1))));
    let a = Attr::new().add(ScalarArg::Transparent, 0).ok().unwrap();
    assert!(a.add(ScalarArg::Transparent, 1).ok().unwrap().transparent);
    assert!(matches!(Attr::new().add(ScalarArg::ParseToken(vec![]), 4), Err(ScalarParseError::NoTypes(4))));
    assert!(matches!(Attr::new().add(ScalarArg::Where(vec![]), 2), Err(ScalarParseError::NoPredicates(2))));
    match Attr::new().add(ScalarArg::SpecifiedByUrl(s("not a url")), 0) {
        Err(ScalarParseError::InvalidUrl(0, msg)) => assert!(msg.starts_with("Invalid URL: ")),
        _ => panic!("expected an invalid URL"),
    }
    let a = Attr::new().add(ScalarArg::SpecifiedByUrl(s("https://tools.ietf.org/html/rfc4122")), 0).ok().unwrap();
    assert_eq!(a.specified_by_url, Some(s("https://tools.ietf.org/html/rfc4122")));
    assert_eq!(NO_TYPES_MESSAGE, "expected at least 1 type.");
    assert_eq!(NO_PREDICATES_MESSAGE, "expected at least 1 where predicate");
}

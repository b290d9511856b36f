use juniper_codegen::description::DocAttr;
use juniper_codegen::graphql_scalar_value::{
    newtype_arg_key, newtype_methods, NewtypeArg, NewtypeArgKey, NewtypeAttr, NewtypeFields, NewtypeMethods,
    NewtypeParseError,
};

fn s(v: &str) -> String {
    v.to_string()
}

type Attr = NewtypeAttr<u8, u8, u8>;

#[test]
fn newtype_argument_keys() {
    assert_eq!(newtype_arg_key("resolve"), Some(NewtypeArgKey::Resolve));
    assert_eq!(newtype_arg_key("from_input_value_err"), Some(NewtypeArgKey::FromInputValueErr));
    assert_eq!(newtype_arg_key("from_str"), Some(NewtypeArgKey::FromStr));
    assert_eq!(newtype_arg_key("with"), None);
}

#[test]
fn newtype_attr_parse_merge_and_docs() {
    assert!(matches!(
        Attr::parse(vec![NewtypeArg::FromStr(1), NewtypeArg::FromStr(2)]),
        Err(NewtypeParseError::Duplicate(1))
    ));
    match Attr::parse(vec![NewtypeArg::SpecifiedByUrl(s("::"))]) {
        Err(NewtypeParseError::InvalidUrl(0, m)) => assert!(m.starts_with("Invalid URL: ")),
        _ => panic!("expected an invalid URL"),
    }
    let a = Attr::parse(vec![NewtypeArg::SpecifiedByUrl(s("https://example.com"))]).ok().unwrap();
    assert_eq!(a.specified_by_url, Some(s("https://example.com/")));
    let b = Attr::parse(vec![NewtypeArg::Resolve(1)]).ok().unwrap();
    let m = a.try_merge(b).ok().unwrap();
    assert_eq!(m.resolve, Some(1));
    let c = Attr::parse(vec![NewtypeArg::Resolve(2)]).ok().unwrap();
    assert_eq!(m.try_merge(c).err(), Some(NewtypeArgKey::Resolve));
    let d = Attr::new().from_attrs(&[DocAttr::Text(s("An id."))]).ok().unwrap();
    assert_eq!(d.description, Some(s("An id.")));
}

#[test]
fn newtype_methods_choice() {
    let all = Attr::parse(vec![
        NewtypeArg::Resolve(1),
        NewtypeArg::FromInputValue(2),
        NewtypeArg::FromInputValueErr(3),
        NewtypeArg::FromStr(4),
    ])
    .ok()
    .unwrap();
    assert!(matches!(
        newtype_methods(all, NewtypeFields::<u8>::Unit),
        Ok(NewtypeMethods::Custom { resolve: 1, from_input_value: (2, 3), from_str: 4 })
    ));
    let half = Attr::parse(vec![NewtypeArg::FromInputValue(2)]).ok().unwrap();
    assert_eq!(
        newtype_methods(half, NewtypeFields::Unnamed(vec![9u8])).err().unwrap(),
        "GraphQL scalar `from_input_value` attribute should be provided in tandem with `from_input_value_err`"
    );
    let some = Attr::parse(vec![NewtypeArg::Resolve(1)]).ok().unwrap();
    match newtype_methods(some, NewtypeFields::Named(vec![9u8])).ok().unwrap() {
        NewtypeMethods::Delegated { resolve, from_input_value, from_str, field } => {
            assert_eq!(resolve, Some(1));
            assert!(from_input_value.is_none());
            assert!(from_str.is_none());
            assert_eq!(field, 9);
        }
        _ => panic!("expected delegated methods"),
    }
    assert_eq!(
        newtype_methods(Attr::new(), NewtypeFields::Unnamed(vec![1u8, 2])).err().unwrap(),
        "GraphQL scalar expected exactly 1 field, e.g., Test(i32)or all `resolve`, `from_input_value` and `from_str` functions"
    );
    assert!(newtype_methods(Attr::new(), NewtypeFields::<u8>::NotStruct).err().unwrap().contains("single-field struct"));
    assert!(newtype_methods(Attr::new(), NewtypeFields::<u8>::Unit).err().unwrap().contains("`Test(i32)` or"));
}

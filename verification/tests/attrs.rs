use juniper_codegen::arg::{
    arg_key, parse_method_arg, ArgArg, ArgAttr, ArgAttrError, ArgKey, DefaultValue, MethodArgError,
    MethodArgKind,
};
use juniper_codegen::deprecation::{DeprecatedArg, DeprecatedAttr, DeprecationError};
use juniper_codegen::description::DocAttr;
use juniper_codegen::field::{all_different, field_arg_key, FieldArg, FieldArgKey, FieldAttr, FieldAttrError};
use juniper_codegen::rename::Policy;

fn s(v: &str) -> String {
    v.to_string()
}

#[test]
fn field_argument_keys() {
    assert_eq!(field_arg_key("name"), Some(FieldArgKey::Name));
    assert_eq!(field_arg_key("desc"), Some(FieldArgKey::Description));
    assert_eq!(field_arg_key("description"), Some(FieldArgKey::Description));
    assert_eq!(field_arg_key("deprecated"), Some(FieldArgKey::Deprecated));
    assert_eq!(field_arg_key("skip"), Some(FieldArgKey::Ignore));
    assert_eq!(field_arg_key("ignore"), Some(FieldArgKey::Ignore));
    assert_eq!(field_arg_key("rename"), None);
}

#[test]
fn field_attr_parse_records_and_refuses_duplicates() {
    let a = FieldAttr::parse(&[FieldArg::Name(s("id")), FieldArg::Deprecated(Some(s("old")))]).ok().unwrap();
    assert_eq!(a.name.as_deref(), Some("id"));
    assert_eq!(a.deprecated, Some(Some(s("old"))));
    assert_eq!(a.description, None);
    assert!(!a.ignore);
    let dup = FieldAttr::parse(&[FieldArg::Ignore, FieldArg::Name(s("a")), FieldArg::Ignore, FieldArg::Name(s("b"))]);
    assert_eq!(dup.err(), Some(2));
}

#[test]
fn field_attr_merge() {
    let a = FieldAttr::parse(&[FieldArg::Name(s("id"))]).ok().unwrap();
    let b = FieldAttr::parse(&[FieldArg::Description(s("d"))]).ok().unwrap();
    let m = a.try_merge(b).ok().unwrap();
    assert_eq!(m.name.as_deref(), Some("id"));
    assert_eq!(m.description.as_deref(), Some("d"));
    let c = FieldAttr::parse(&[FieldArg::Description(s("e")), FieldArg::Name(s("x"))]).ok().unwrap();
    assert_eq!(m.try_merge(c).err(), Some(FieldArgKey::Name));
}

#[test]
fn field_attr_completion() {
    let ignored = FieldAttr::parse(&[FieldArg::Ignore, FieldArg::Name(s("x"))]).ok().unwrap();
    assert_eq!(ignored.from_attrs(&[], &[]).err(), Some(FieldAttrError::IgnoreNotComposable));

    let plain = FieldAttr::new();
    let done = plain
        .from_attrs(
            &[DocAttr::Text(s(" Some field.")), DocAttr::Other],
            &[DeprecatedAttr::List(vec![DeprecatedArg::NameValue { is_note: true, text: Some(s("gone")) }])],
        )
        .ok()
        .unwrap();
    assert_eq!(done.description.as_deref(), Some("Some field."));
    assert_eq!(done.deprecated, Some(Some(s("gone"))));

    let explicit = FieldAttr::parse(&[FieldArg::Description(s("mine"))]).ok().unwrap();
    let kept = explicit.from_attrs(&[DocAttr::NotString], &[]).ok().unwrap();
    assert_eq!(kept.description.as_deref(), Some("mine"));
    assert_eq!(kept.deprecated, None);

    assert_eq!(FieldAttr::new().from_attrs(&[DocAttr::NotString], &[]).err(), Some(FieldAttrError::Doc(0)));
    assert_eq!(
        FieldAttr::new().from_attrs(&[], &[DeprecatedAttr::Unparsable]).err(),
        Some(FieldAttrError::Deprecation(0, DeprecationError::Unparsable)),
    );
}

#[test]
fn field_names_must_differ() {
    assert!(all_different(&[s("a"), s("b"), s("c")]));
    assert!(!all_different(&[s("a"), s("b"), s("a")]));
    assert!(all_different(&[]));
}

fn arg_attr(args: Vec<ArgArg<u32>>) -> ArgAttr<u32> {
    ArgAttr::parse(args).ok().unwrap()
}

#[test]
fn argument_keys_and_parse() {
    assert_eq!(arg_key("ctx"), Some(ArgKey::Context));
    assert_eq!(arg_key("Context"), Some(ArgKey::Context));
    assert_eq!(arg_key("exec"), Some(ArgKey::Executor));
    assert_eq!(arg_key("default"), Some(ArgKey::Default));
    assert_eq!(arg_key("defaults"), None);
    let dup = ArgAttr::<u32>::parse(vec![ArgArg::Context, ArgArg::Context]);
    assert_eq!(dup.err(), Some(1));
}

#[test]
fn argument_attr_composability() {
    let ctx = arg_attr(vec![ArgArg::Context, ArgArg::Name(s("x"))]);
    assert_eq!(ctx.from_attrs().err(), Some(ArgAttrError::ContextNotComposable));
    let exec = arg_attr(vec![ArgArg::Executor, ArgArg::Default(DefaultValue::Default)]);
    assert_eq!(exec.from_attrs().err(), Some(ArgAttrError::ExecutorNotComposable));
    let both = arg_attr(vec![ArgArg::Executor, ArgArg::Context]);
    assert_eq!(both.from_attrs().err(), Some(ArgAttrError::ContextNotComposable));
    assert_eq!(
        ArgAttrError::ContextNotComposable.message(),
        "`context` attribute argument is not composable with any other arguments",
    );
    let a = arg_attr(vec![ArgArg::Name(s("n"))]);
    let b = arg_attr(vec![ArgArg::Name(s("m"))]);
    assert_eq!(a.try_merge(b).err(), Some(ArgKey::Name));
}

#[test]
fn method_argument_classification() {
    let plain: ArgAttr<u32> = ArgAttr::new();
    match parse_method_arg(plain, Some("first_name"), Policy::CamelCase, 0u8).ok().unwrap() {
        MethodArgKind::Regular { name, description, default } => {
            assert_eq!(name, "firstName");
            assert!(description.is_none());
            assert!(default.is_none());
        }
        _ => panic!("expected a regular argument"),
    }
    assert!(matches!(parse_method_arg(ArgAttr::<u32>::new(), Some("ctx"), Policy::CamelCase, 0u8), Ok(MethodArgKind::Context(0))));
    assert!(matches!(parse_method_arg(ArgAttr::<u32>::new(), Some("r#_executor"), Policy::CamelCase, 0u8), Ok(MethodArgKind::Executor)));
    assert!(matches!(parse_method_arg(arg_attr(vec![ArgArg::Executor]), Some("x"), Policy::CamelCase, 0u8), Ok(MethodArgKind::Executor)));
    let named = arg_attr(vec![ArgArg::Description(s("d"))]);
    assert_eq!(parse_method_arg(named, Some("context"), Policy::CamelCase, 0u8).err(), Some(MethodArgError::Disallowed(ArgKey::Description)));
    assert_eq!(parse_method_arg(ArgAttr::<u32>::new(), None, Policy::CamelCase, 0u8).err(), Some(MethodArgError::NotSingleIdent));
    assert_eq!(parse_method_arg(ArgAttr::<u32>::new(), Some("__typename"), Policy::Unchanged, 0u8).err(), Some(MethodArgError::DoubleUnderscore));
    match parse_method_arg(arg_attr(vec![ArgArg::Name(s("given")), ArgArg::Default(DefaultValue::Expr(5))]), None, Policy::CamelCase, 0u8).ok().unwrap() {
        MethodArgKind::Regular { name, default, .. } => {
            assert_eq!(name, "given");
            assert!(matches!(default, Some(DefaultValue::Expr(5))));
        }
        _ => panic!("expected a regular argument"),
    }
    let (msg, note) = MethodArgError::NotSingleIdent.message();
    assert_eq!(msg, "method argument should be declared as a single identifier");
    assert!(note.unwrap().starts_with("use `#[graphql(name = ...)]`"));
    let (msg, _) = MethodArgError::Disallowed(ArgKey::Name).message();
    assert_eq!(msg, "attribute argument `#[graphql(name = ...)]` is not allowed here");
}

#[test]
fn method_argument_arguments_one_at_a_time() {
    let a = ArgAttr::<u8>::new().add(ArgArg::Context, 0).ok().unwrap();
    assert!(a.context);
    assert_eq!(a.add(ArgArg::Context, 3).err(), Some(3));
}

#[test]
fn field_arguments_one_at_a_time() {
    let a = FieldAttr::new().add(&FieldArg::Name("id".to_string()), 0).ok().unwrap();
    assert_eq!(a.name.as_deref(), Some("id"));
    assert_eq!(a.add(&FieldArg::Name("other".to_string()), 1).err(), Some(1));
}

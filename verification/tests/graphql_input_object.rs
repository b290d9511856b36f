use juniper_codegen::diagnostic::Diagnostic;
use juniper_codegen::graphql_enum::{ContainerArg, ContainerAttr};
use juniper_codegen::graphql_input_object::{
    expand, input_field_arg_key, parse_input_field, parse_input_variant, InputFieldArg, InputFieldArgKey, InputFieldAttr,
    InputFieldInput, InputObjectData, InputObjectExpansion, InputObjectInput, VariantInput,
};
use juniper_codegen::rename::Policy;
use juniper_codegen::session::{Finish, Outcome, Session};

fn s(v: &str) -> String {
    v.to_string()
}

fn entered() -> Session<u32> {
    let mut session = Session::new();
    session.enter();
    session
}

fn diags(mut session: Session<u32>) -> Vec<Diagnostic<u32>> {
    match session.leave(Outcome::Aborted) {
        Finish::BodyWithErrors(v) => v,
        _ => panic!("expected diagnostics"),
    }
}

fn field(ident: &str, args: Vec<InputFieldArg<u8, u8>>, span: u32) -> InputFieldInput<u8, u8, u32> {
    InputFieldInput { attr: Ok(InputFieldAttr::parse(args).ok().unwrap()), ident: Some(s(ident)), span }
}

fn input(attr: ContainerAttr<u8>, fields: Vec<InputFieldInput<u8, u8, u32>>) -> InputObjectInput<u8, u8, u8, u32> {
    InputObjectInput {
        attr,
        ident: s("Point"),
        name_span: 1,
        span: 2,
        data: InputObjectData::Struct { fields, fields_span: 3 },
    }
}

#[test]
fn input_field_arguments() {
    assert_eq!(input_field_arg_key("skip"), Some(InputFieldArgKey::Ignore));
    assert_eq!(input_field_arg_key("behave"), Some(InputFieldArgKey::Behavior));
    assert_eq!(input_field_arg_key("default"), Some(InputFieldArgKey::Default));
    assert_eq!(input_field_arg_key("deprecated"), None);
    assert_eq!(InputFieldAttr::<u8, u8>::parse(vec![InputFieldArg::Ignore, InputFieldArg::Ignore]).err(), Some(1));
    let a = InputFieldAttr::<u8, u8>::parse(vec![InputFieldArg::Default(1)]).ok().unwrap();
    let b = InputFieldAttr::<u8, u8>::parse(vec![InputFieldArg::Default(2)]).ok().unwrap();
    assert_eq!(a.try_merge(b).err(), Some(InputFieldArgKey::Default));
}

#[test]
fn input_fields() {
    let o = parse_input_field(field("x_coord", vec![InputFieldArg::Default(4)], 9), Policy::CamelCase, false);
    let def = o.def.unwrap();
    assert_eq!(def.name, "xCoord");
    assert_eq!(def.default, Some(4));
    assert!(o.diags.is_empty());
    let o = parse_input_field(field("x", vec![InputFieldArg::Name(s("__x"))], 9), Policy::CamelCase, false);
    assert!(o.def.is_some());
    assert_eq!(o.diags.len(), 1);
    assert_eq!(o.diags[0].first, 9);
    let o = parse_input_field(field("x", vec![InputFieldArg::Name(s("__x"))], 9), Policy::CamelCase, true);
    assert!(o.diags.is_empty());
    let unnamed: InputFieldInput<u8, u8, u32> = InputFieldInput { attr: Ok(InputFieldAttr::new()), ident: None, span: 5 };
    let o = parse_input_field(unnamed, Policy::CamelCase, false);
    assert!(o.def.is_none());
    assert_eq!(o.diags[0].msg, "GraphQL input object expected named struct field");
}

#[test]
fn derived_input_object() {
    let mut session = entered();
    match expand(input(ContainerAttr::new(), vec![field("x_coord", vec![], 5), field("y", vec![], 6)]), &mut session) {
        InputObjectExpansion::Done(def) => {
            assert_eq!(def.name, "Point");
            let names: Vec<String> = def.fields.iter().map(|f| f.name.clone()).collect();
            assert_eq!(names, vec![s("xCoord"), s("y")]);
        }
        _ => panic!("expected an input object"),
    }
    match expand(input(ContainerAttr::new(), vec![field("x", vec![InputFieldArg::Ignore], 5)]), &mut session) {
        InputObjectExpansion::Failed { span, msg } => {
            assert_eq!(span, 3);
            assert_eq!(msg, "GraphQL input object expected at least 1 non-ignored field");
        }
        _ => panic!("expected a failure"),
    }
    match expand(input(ContainerAttr::new(), vec![field("x", vec![], 5), field("y", vec![InputFieldArg::Name(s("x"))], 6)]), &mut session) {
        InputObjectExpansion::Failed { msg, .. } => {
            assert_eq!(msg, "GraphQL input object expected all fields to have unique names");
        }
        _ => panic!("expected a failure"),
    }
    let union: InputObjectInput<u8, u8, u8, u32> =
        InputObjectInput { attr: ContainerAttr::new(), ident: s("U"), name_span: 1, span: 2, data: InputObjectData::Union };
    match expand(union, &mut session) {
        InputObjectExpansion::Failed { span, msg } => {
            assert_eq!(span, 2);
            assert_eq!(msg, "GraphQL input object cannot be derived on unions");
        }
        _ => panic!("expected a failure"),
    }
    let renamed = ContainerAttr::parse(vec![ContainerArg::RenameAll(Policy::Unchanged), ContainerArg::Name(s("__P"))]).ok().unwrap();
    let mut session = entered();
    assert!(matches!(expand(input(renamed, vec![field("x_coord", vec![], 5)]), &mut session), InputObjectExpansion::Aborted));
    let ds = diags(session);
    assert_eq!(ds.len(), 1);
    assert_eq!(ds[0].first, 1);
}

fn variant(ident: &str, args: Vec<InputFieldArg<u8, u8>>, field_count: usize, unnamed: bool) -> VariantInput<u8, u8, u32> {
    VariantInput {
        attr: Ok(InputFieldAttr::parse(args).ok().unwrap()),
        ident: s(ident),
        field_count,
        unnamed,
        fields_span: 10,
        default_span: 11,
        span: 12,
    }
}

#[test]
fn one_of_variants() {
    let o = parse_input_variant(variant("Cat", vec![], 1, true), Policy::Unchanged, false);
    let def = o.def.unwrap();
    assert_eq!(def.name, "Cat");
    assert_eq!(def.ident, "Cat");
    assert!(o.diags.is_empty());

    let o = parse_input_variant(variant("Cat", vec![InputFieldArg::Name(s("cat"))], 2, true), Policy::CamelCase, false);
    assert_eq!(o.def.unwrap().name, "cat");
    assert_eq!(o.diags.len(), 1);
    assert_eq!(o.diags[0].first, 10);
    assert_eq!(
        o.diags[0].msg,
        "GraphQL input object enum variant must have exactly 1 unnamed field to represent `@oneOf` input object field",
    );

    let o = parse_input_variant(variant("Cat", vec![InputFieldArg::Default(1)], 1, false), Policy::Unchanged, false);
    let def = o.def.unwrap();
    assert_eq!(def.default, None);
    assert_eq!(o.diags.len(), 2);
    assert_eq!(o.diags[1].first, 11);
    assert_eq!(o.diags[1].msg, "GraphQL input object field cannot have default value in `@oneOf` input object");

    let o = parse_input_variant(
        variant("Cat", vec![InputFieldArg::Default(1), InputFieldArg::Ignore], 1, true),
        Policy::Unchanged,
        false,
    );
    assert!(o.def.unwrap().ignored);
    assert_eq!(
        o.diags[0].msg,
        "GraphQL input object `default` attribute argument has no meaning for ignored variants, as they are never constructed",
    );

    let o = parse_input_variant(variant("__Cat", vec![], 1, true), Policy::Unchanged, false);
    assert!(o.def.is_some());
    assert_eq!(o.diags.len(), 1);
    assert_eq!(o.diags[0].first, 12);

    let refused: VariantInput<u8, u8, u32> = VariantInput {
        attr: Err(Diagnostic::spanned(7, s("bad"))),
        ident: s("Cat"),
        field_count: 0,
        unnamed: false,
        fields_span: 10,
        default_span: 11,
        span: 12,
    };
    let o = parse_input_variant(refused, Policy::CamelCase, false);
    assert!(o.def.is_none());
    assert_eq!(o.diags.len(), 2);
    assert_eq!(o.diags[1].first, 7);
}

#[test]
fn one_of_input_object_from_enum() {
    let attr = ContainerAttr::parse(vec![ContainerArg::RenameAll(Policy::Unchanged)]).ok().unwrap();
    let one_of: InputObjectInput<u8, u8, u8, u32> = InputObjectInput {
        attr,
        ident: s("Pet"),
        name_span: 1,
        span: 2,
        data: InputObjectData::Enum { variants: vec![variant("Cat", vec![], 1, true), variant("Dog", vec![], 1, true)], variants_span: 3 },
    };
    let mut session = entered();
    match expand(one_of, &mut session) {
        InputObjectExpansion::Done(def) => {
            assert!(def.is_one_of);
            let names: Vec<String> = def.fields.iter().map(|f| f.name.clone()).collect();
            assert_eq!(names, vec![s("Cat"), s("Dog")]);
        }
        _ => panic!("expected an input object"),
    }
    let mut session = entered();
    match expand(input(ContainerAttr::new(), vec![field("x", vec![], 5)]), &mut session) {
        InputObjectExpansion::Done(def) => assert!(!def.is_one_of),
        _ => panic!("expected an input object"),
    }
}

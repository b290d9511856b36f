use juniper_codegen::diagnostic::Diagnostic;
use juniper_codegen::field::{FieldArg, FieldAttr};
use juniper_codegen::graphql_enum::{
    container_arg_key, enum_resolve_plan, err_variant_with_fields, expand, EnumDefinition, ValueDefinition, parse_value, ContainerArg, ContainerArgKey, ContainerAttr, EnumExpansion, EnumInput,
    ValueOutcome, VariantInput,
};
use juniper_codegen::rename::Policy;
use juniper_codegen::session::Session;

fn s(v: &str) -> String {
    v.to_string()
}

fn variant(ident: &str) -> VariantInput<u32> {
    VariantInput { attr: Ok(FieldAttr::new()), ident: s(ident), fields: None }
}

fn value(ident: &str, renaming: Policy) -> ValueOutcome<u32> {
    parse_value(variant(ident), renaming)
}

fn input(values: Option<Vec<ValueOutcome<u32>>>, attr: ContainerAttr<u8>) -> EnumInput<u32, u8> {
    EnumInput { attr, ident: s("Episode"), name_span: 1, span: 2, variants_span: 3, values }
}

fn entered() -> Session<u32> {
    let mut session = Session::new();
    session.enter();
    session
}

#[test]
fn enum_argument_keys() {
    assert_eq!(container_arg_key("behave"), Some(ContainerArgKey::Behavior));
    assert_eq!(container_arg_key("ScalarValue"), Some(ContainerArgKey::Scalar));
    assert_eq!(container_arg_key("rename_all"), Some(ContainerArgKey::RenameAll));
    assert_eq!(container_arg_key("internal"), Some(ContainerArgKey::Internal));
    assert_eq!(container_arg_key("interfaces"), None);
}

#[test]
fn enum_attr_parse_and_merge() {
    let a = ContainerAttr::<u8>::parse(vec![ContainerArg::Name(s("Ep")), ContainerArg::Internal, ContainerArg::Internal]).ok().unwrap();
    assert!(a.is_internal);
    assert_eq!(a.renaming(), Policy::ScreamingSnakeCase);
    assert_eq!(ContainerAttr::<u8>::parse(vec![ContainerArg::Context(1), ContainerArg::Context(2)]).err(), Some(1));
    let b = ContainerAttr::<u8>::parse(vec![ContainerArg::RenameAll(Policy::Unchanged)]).ok().unwrap();
    let m = a.try_merge(b).ok().unwrap();
    assert_eq!(m.renaming(), Policy::Unchanged);
    let c = ContainerAttr::<u8>::parse(vec![ContainerArg::Name(s("Other"))]).ok().unwrap();
    assert_eq!(m.try_merge(c).err(), Some(ContainerArgKey::Name));
}

#[test]
fn enum_values_from_variants() {
    match value("NewHope", Policy::ScreamingSnakeCase) {
        ValueOutcome::Value(v) => {
            assert_eq!(v.name, "NEW_HOPE");
            assert_eq!(v.ident, "NewHope");
        }
        _ => panic!("expected a value"),
    }
    let ignored = VariantInput {
        attr: Ok(FieldAttr::parse(&[FieldArg::Ignore]).ok().unwrap()),
        ident: s("Hidden"),
        fields: Some(9u32),
    };
    assert!(matches!(parse_value(ignored, Policy::ScreamingSnakeCase), ValueOutcome::Ignored));
    let with_fields = VariantInput { attr: Ok(FieldAttr::new()), ident: s("Wrapped"), fields: Some(9u32) };
    match parse_value(with_fields, Policy::ScreamingSnakeCase) {
        ValueOutcome::Refused(d) => {
            assert_eq!(d.first, 9);
            assert_eq!(d.msg, "GraphQL enum no fields allowed for non-ignored variants");
        }
        _ => panic!("expected a refusal"),
    }
    let named: VariantInput<u32> = VariantInput {
        attr: Ok(FieldAttr::parse(&[FieldArg::Name(s("JEDI"))]).ok().unwrap()),
        ident: s("Empire"),
        fields: None,
    };
    assert!(matches!(parse_value(named, Policy::ScreamingSnakeCase), ValueOutcome::Value(v) if v.name == "JEDI"));
}

#[test]
fn enum_expansion_succeeds() {
    let mut session = entered();
    let values = vec![
        value("NewHope", Policy::ScreamingSnakeCase),
        parse_value(
            VariantInput { attr: Ok(FieldAttr::parse(&[FieldArg::Ignore]).ok().unwrap()), ident: s("X"), fields: None },
            Policy::ScreamingSnakeCase,
        ),
        value("Empire", Policy::ScreamingSnakeCase),
    ];
    match expand(input(Some(values), ContainerAttr::new()), &mut session) {
        EnumExpansion::Done(def) => {
            assert_eq!(def.name, "Episode");
            assert_eq!(def.values.iter().map(|v| v.name.clone()).collect::<Vec<_>>(), ["NEW_HOPE", "EMPIRE"]);
            assert!(def.has_ignored_variants);
        }
        _ => panic!("expected a definition"),
    }
    assert_eq!(session.emitted(), 0);
}

#[test]
fn enum_expansion_refusals() {
    let mut session = entered();
    assert!(matches!(
        expand(input(None, ContainerAttr::new()), &mut session),
        EnumExpansion::Failed { span: 2, msg } if msg == "GraphQL enum can only be derived on enums"
    ));
    assert!(matches!(
        expand(input(Some(vec![]), ContainerAttr::new()), &mut session),
        EnumExpansion::Failed { span: 3, msg } if msg == "GraphQL enum expected at least 1 non-ignored enum variant"
    ));
    let twice = vec![value("a", Policy::Unchanged), value("a", Policy::Unchanged)];
    assert!(matches!(
        expand(input(Some(twice), ContainerAttr::new()), &mut session),
        EnumExpansion::Failed { span: 3, msg } if msg == "GraphQL enum expected all GraphQL enum values to have unique names"
    ));
    assert_eq!(session.emitted(), 0);

    let refused = vec![ValueOutcome::Refused(Diagnostic::spanned(5u32, s("bad"))), value("A", Policy::Unchanged)];
    assert!(matches!(expand(input(Some(refused), ContainerAttr::new()), &mut session), EnumExpansion::Aborted));
    assert_eq!(session.emitted(), 1);
}

#[test]
fn enum_with_reserved_name_is_aborted_unless_internal() {
    let mut session = entered();
    let reserved = ContainerAttr::<u8>::parse(vec![ContainerArg::Name(s("__Kind"))]).ok().unwrap();
    assert!(matches!(
        expand(input(Some(vec![value("A", Policy::Unchanged)]), reserved), &mut session),
        EnumExpansion::Aborted
    ));
    assert_eq!(session.emitted(), 1);

    let mut session = entered();
    let internal = ContainerAttr::<u8>::parse(vec![ContainerArg::Name(s("__Kind")), ContainerArg::Internal]).ok().unwrap();
    assert!(matches!(
        expand(input(Some(vec![value("A", Policy::Unchanged)]), internal), &mut session),
        EnumExpansion::Done(def) if def.name == "__Kind"
    ));
}

#[test]
fn split_container_attributes_mean_one() {
    let one = ContainerAttr::<u8>::parse(vec![ContainerArg::Name(s("Ep")), ContainerArg::Context(1), ContainerArg::Internal]).ok().unwrap();
    let a = ContainerAttr::<u8>::parse(vec![ContainerArg::Name(s("Ep"))]).ok().unwrap();
    let b = ContainerAttr::<u8>::parse(vec![ContainerArg::Context(1), ContainerArg::Internal]).ok().unwrap();
    let merged = a.try_merge(b).ok().unwrap();
    assert_eq!(merged.name, one.name);
    assert_eq!(merged.context, one.context);
    assert_eq!(merged.is_internal, one.is_internal);
    let c = ContainerAttr::<u8>::parse(vec![ContainerArg::Context(2)]).ok().unwrap();
    assert!(merged.try_merge(c).is_err());
}

#[test]
fn variant_with_fields_diagnostic() {
    let d = err_variant_with_fields(4u32);
    assert_eq!(d.first, 4);
    assert_eq!(d.last, 4);
    assert_eq!(d.msg, "GraphQL enum no fields allowed for non-ignored variants");
    assert_eq!(d.notes, vec![s("https://spec.graphql.org/October2021#sec-Enums")]);
}

#[test]
fn container_arguments_one_at_a_time() {
    let a = ContainerAttr::<u8>::new().add(ContainerArg::RenameAll(Policy::Unchanged), 0).ok().unwrap();
    assert_eq!(a.rename_values, Some(Policy::Unchanged));
    assert_eq!(a.add(ContainerArg::RenameAll(Policy::CamelCase), 1).err(), Some(1));
    let a = ContainerAttr::<u8>::new().add(ContainerArg::Internal, 0).ok().unwrap();
    assert!(a.add(ContainerArg::Internal, 1).ok().unwrap().is_internal);
}

#[test]
fn resolve_plan_has_one_arm_per_value() {
    let value = |ident: &str, name: &str| ValueDefinition { ident: ident.to_string(), name: name.to_string(), description: None, deprecated: None };
    let def: EnumDefinition<u8> = EnumDefinition {
        name: "Episode".to_string(),
        description: None,
        context: None,
        scalar: None,
        behavior: None,
        values: vec![value("NewHope", "NEW_HOPE"), value("Empire", "EMPIRE")],
        has_ignored_variants: true,
    };
    let plan = enum_resolve_plan(&def);
    assert_eq!(plan.arms, vec![("NewHope".to_string(), "NEW_HOPE".to_string()), ("Empire".to_string(), "EMPIRE".to_string())]);
    assert!(plan.ignored_arm);
}

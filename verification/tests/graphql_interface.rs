use juniper_codegen::arg::{ArgAttr, MethodArgKind};
use juniper_codegen::definition::{ArgSpans, MethodArgInput, MethodFieldInput, StructFieldInput};
use juniper_codegen::diagnostic::Diagnostic;
use juniper_codegen::field::FieldAttr;
use juniper_codegen::graphql_interface::{
    enum_idents, expand, interface_enum_plan, interface_field_plans, resolver_field_plans, EnumParam, GenericKind, InterfaceExpansion,
    InterfaceInput, InterfaceMembers, PhantomField,
};
use juniper_codegen::session::{Finish, Outcome, Session};
use juniper_codegen::type_attr::{TypeArg, TypeAttr, TypeRef};

fn s(v: &str) -> String {
    v.to_string()
}

fn entered() -> Session<u32> {
    let mut session = Session::new();
    session.enter();
    session
}

fn diags(mut session: Session<u32>) -> Vec<Diagnostic<u32>> {
    match session.leave(Outcome::Aborted) {
        Finish::BodyWithErrors(v) => v,
        _ => panic!("expected diagnostics"),
    }
}

fn ctx_arg(ty: u64) -> MethodArgInput<u8, u64, u32> {
    MethodArgInput {
        attr: Ok(ArgAttr::new()),
        spans: ArgSpans { name: 0, description: 0, default: 0 },
        ident: Some(s("ctx")),
        pat_span: 0,
        context_ty: ty,
    }
}

fn method(ident: &str, arguments: Vec<MethodArgInput<u8, u64, u32>>) -> MethodFieldInput<u8, u64, u32> {
    MethodFieldInput {
        attr: Ok(FieldAttr::new()),
        ident: s(ident),
        name_span: 30,
        sig_span: 31,
        is_async: false,
        default_impl: None,
        has_receiver: true,
        bad_receiver: None,
        arguments,
    }
}

fn input(attr: TypeAttr<u64>, members: InterfaceMembers<u8, u64, u32>) -> InterfaceInput<u8, u64, u32> {
    InterfaceInput { attr, ident: s("Character"), name_span: 1, span: 2, generics: vec![], members }
}

#[test]
fn enum_idents_default_and_alias() {
    let (e, a) = enum_idents("Character", None);
    assert_eq!(e, "CharacterValueEnum");
    assert_eq!(a, "CharacterValue");
    let (e, a) = enum_idents("Character", Some("Alias"));
    assert_eq!(e, "AliasEnum");
    assert_eq!(a, "Alias");
}

#[test]
fn interface_on_trait() {
    let attr = TypeAttr::parse(vec![TypeArg::For(TypeRef { key: 3, ty: 3 }), TypeArg::Enum(s("CharacterEnum"))]).ok().unwrap();
    let members = InterfaceMembers::Methods(vec![method("id", vec![]), method("home_planet", vec![ctx_arg(8)])]);
    let mut session = entered();
    match expand(input(attr, members), false, &mut session) {
        InterfaceExpansion::Done(def) => {
            assert_eq!(def.name, "Character");
            let names: Vec<String> = def.fields.iter().map(|f| f.name.clone()).collect();
            assert_eq!(names, vec![s("id"), s("homePlanet")]);
            assert_eq!(def.context, Some(8));
            assert_eq!(def.implemented_for.len(), 1);
            assert_eq!(def.enum_ident, "CharacterEnumEnum");
            assert_eq!(def.enum_alias_ident, "CharacterEnum");
            assert!(matches!(def.fields[1].arguments.as_ref().unwrap()[0], MethodArgKind::Context(8)));
        }
        _ => panic!("expected an interface"),
    }
    assert_eq!(session.emitted(), 0);
}

#[test]
fn interface_on_struct_and_errors() {
    let fields = vec![
        StructFieldInput { attr: Ok(FieldAttr::new()), ident: Some(s("id")), name_span: 5, span: 6 },
        StructFieldInput { attr: Ok(FieldAttr::new()), ident: None, name_span: 7, span: 8 },
    ];
    let mut session = entered();
    assert!(matches!(
        expand(input(TypeAttr::new(), InterfaceMembers::StructFields(fields)), true, &mut session),
        InterfaceExpansion::Aborted
    ));
    let ds = diags(session);
    assert_eq!(ds.len(), 1);
    assert_eq!(ds[0].first, 8);
    assert_eq!(ds[0].msg, "GraphQL interface expected named struct field");

    let mut session = entered();
    assert!(matches!(
        expand(input(TypeAttr::new(), InterfaceMembers::Methods(vec![])), true, &mut session),
        InterfaceExpansion::Aborted
    ));
    let ds = diags(session);
    assert_eq!(ds[0].msg, "GraphQL interface must have at least one field");

    let mut session = entered();
    match expand(input(TypeAttr::new(), InterfaceMembers::Other), false, &mut session) {
        InterfaceExpansion::Failed { span, msg } => {
            assert_eq!(span, 2);
            assert_eq!(
                msg,
                "GraphQL interface #[graphql_interface] attribute is applicable to trait and struct definitions only"
            );
        }
        _ => panic!("expected a failure"),
    }
    match expand(input(TypeAttr::new(), InterfaceMembers::Other), true, &mut session) {
        InterfaceExpansion::Failed { msg, .. } => assert_eq!(msg, "GraphQL interface can only be derived on structs"),
        _ => panic!("expected a failure"),
    }

    let named = TypeAttr::parse(vec![TypeArg::Name(s("__Character"))]).ok().unwrap();
    let mut session = entered();
    assert!(matches!(
        expand(input(named, InterfaceMembers::Methods(vec![method("id", vec![])])), false, &mut session),
        InterfaceExpansion::Aborted
    ));
    let ds = diags(session);
    assert_eq!(ds.len(), 1);
    assert_eq!(ds[0].first, 1);
}

fn param_text(p: &EnumParam) -> String {
    match p {
        EnumParam::Generic(GenericKind::Lifetime(n)) => format!("'{n}"),
        EnumParam::Generic(GenericKind::Type(n)) => n.clone(),
        EnumParam::Generic(GenericKind::Const(n)) => format!("const {n}"),
        EnumParam::Implementer(i) => format!("__I{i}"),
    }
}

#[test]
fn enum_plan_orders_lifetimes_implementers_then_types() {
    let generics = vec![GenericKind::Type(s("S")), GenericKind::Lifetime(s("a")), GenericKind::Const(s("N"))];
    let plan = interface_enum_plan("CharacterValueEnum", "CharacterValue", &vec![s("Human"), s("Droid")], &generics);
    assert_eq!(plan.enum_ident, "CharacterValueEnum");
    assert_eq!(plan.alias_ident, "CharacterValue");
    let params: Vec<String> = plan.params.iter().map(param_text).collect();
    assert_eq!(params, vec!["'a", "__I0", "__I1", "S", "const N"]);
    let variants: Vec<(String, usize)> = plan.variants.iter().map(|v| (v.ident.clone(), v.param)).collect();
    assert_eq!(variants, vec![(s("Human"), 0), (s("Droid"), 1)]);
    match plan.phantom {
        Some(fields) => {
            assert_eq!(fields.len(), 2);
            assert!(matches!(&fields[0], PhantomField::Type(t) if t == "S"));
            assert!(matches!(&fields[1], PhantomField::Lifetime(l) if l == "a"));
        }
        None => panic!("expected a hidden variant"),
    }
}

#[test]
fn enum_plan_without_generics_has_no_hidden_variant() {
    let plan = interface_enum_plan("E", "A", &vec![s("Human")], &vec![]);
    assert!(plan.phantom.is_none());
    let params: Vec<String> = plan.params.iter().map(param_text).collect();
    assert_eq!(params, vec!["__I0"]);
}

#[test]
fn field_plans_dispatch_to_each_implementer() {
    let attr = TypeAttr::parse(vec![TypeArg::For(TypeRef { key: 3, ty: 3 })]).ok().unwrap();
    let members = InterfaceMembers::Methods(vec![method("id", vec![]), method("name", vec![])]);
    let mut session = entered();
    let def = match expand(input(attr, members), false, &mut session) {
        InterfaceExpansion::Done(def) => def,
        _ => panic!("expected an interface"),
    };
    let plans = interface_field_plans(&def, &vec![s("Human")], true);
    assert_eq!(plans.len(), 2);
    assert_eq!(plans[0].name, "id");
    assert_eq!(plans[1].name, "name");
    assert_eq!(plans[0].arms, vec![s("Human")]);
    assert!(!plans[0].unreachable_arm);
    assert!(plans[0].async_trait);
    let plans = interface_field_plans(&def, &vec![], false);
    assert!(plans[1].unreachable_arm);
    assert!(plans[1].arms.is_empty());
    assert!(!plans[1].async_trait);
    assert!(def.fields[0].has_receiver);
    assert!(!def.fields[0].is_async);
}

#[test]
fn resolver_plans_leave_async_fields_to_the_async_form() {
    let attr = TypeAttr::parse(vec![TypeArg::For(TypeRef { key: 3, ty: 3 })]).ok().unwrap();
    let mut slow = method("slow", vec![]);
    slow.is_async = true;
    let arg = MethodArgInput {
        attr: Ok(ArgAttr::new()),
        spans: ArgSpans { name: 0, description: 0, default: 0 },
        ident: Some(s("first_name")),
        pat_span: 0,
        context_ty: 0,
    };
    let members = InterfaceMembers::Methods(vec![method("id", vec![arg, ctx_arg(8)]), slow]);
    let mut session = entered();
    let def = match expand(input(attr, members), false, &mut session) {
        InterfaceExpansion::Done(def) => def,
        _ => panic!("expected an interface"),
    };
    let sync = resolver_field_plans(&def, &vec![s("Human")], false);
    assert_eq!(sync.len(), 1);
    assert_eq!(sync[0].name, "id");
    assert_eq!(sync[0].arguments, vec![s("firstName")]);
    let all = resolver_field_plans(&def, &vec![s("Human")], true);
    let names: Vec<String> = all.iter().map(|p| p.name.clone()).collect();
    assert_eq!(names, vec![s("id"), s("slow")]);
    assert!(all[1].async_trait);
    let plans = interface_field_plans(&def, &vec![s("Human")], false);
    assert_eq!(plans.len(), 2);
}

use juniper_codegen::definition::{MethodFieldInput, StructFieldInput};
use juniper_codegen::diagnostic::Diagnostic;
use juniper_codegen::field::FieldAttr;
use juniper_codegen::graphql_object::{
    expand_impl, expand_struct, ObjectExpansion, ObjectImplInput, ObjectStructFields, ObjectStructInput,
};
use juniper_codegen::session::{Finish, Outcome, Session};
use juniper_codegen::type_attr::{TypeArg, TypeAttr, TypeRef};

fn s(v: &str) -> String {
    v.to_string()
}

fn entered() -> Session<u32> {
    let mut session = Session::new();
    session.enter();
    session
}

fn diags(mut session: Session<u32>) -> Vec<Diagnostic<u32>> {
    match session.leave(Outcome::Aborted) {
        Finish::BodyWithErrors(v) => v,
        _ => panic!("expected diagnostics"),
    }
}

fn method(ident: &str, is_async: bool) -> MethodFieldInput<u8, u64, u32> {
    MethodFieldInput {
        attr: Ok(FieldAttr::new()),
        ident: s(ident),
        name_span: 30,
        sig_span: 31,
        is_async,
        default_impl: None,
        has_receiver: true,
        bad_receiver: None,
        arguments: vec![],
    }
}

fn impl_input(attr: TypeAttr<u64>, type_ident: Option<&str>, methods: Vec<MethodFieldInput<u8, u64, u32>>) -> ObjectImplInput<u8, u64, u32> {
    ObjectImplInput { attr, type_ident: type_ident.map(s), name_span: 1, type_span: 2, methods }
}

#[test]
fn object_on_impl_block() {
    let attr = TypeAttr::parse(vec![TypeArg::Implements(TypeRef { key: 4, ty: 4 }), TypeArg::Context(9)]).ok().unwrap();
    let mut session = entered();
    match expand_impl(impl_input(attr, Some("Human"), vec![method("home_planet", false)]), false, &mut session) {
        ObjectExpansion::Done(def) => {
            assert_eq!(def.name, "Human");
            assert_eq!(def.fields[0].name, "homePlanet");
            assert_eq!(def.context, Some(9));
            assert_eq!(def.interfaces.len(), 1);
        }
        _ => panic!("expected an object"),
    }
    match expand_impl(impl_input(TypeAttr::new(), None, vec![]), false, &mut session) {
        ObjectExpansion::Failed { span, msg } => {
            assert_eq!(span, 2);
            assert_eq!(msg, "GraphQL object could not determine ident for the `impl` type");
        }
        _ => panic!("expected a failure"),
    }
}

#[test]
fn subscription_needs_async_resolvers() {
    let mut session = entered();
    assert!(matches!(
        expand_impl(impl_input(TypeAttr::new(), Some("Subscription"), vec![method("events", false)]), true, &mut session),
        ObjectExpansion::Aborted
    ));
    let ds = diags(session);
    assert_eq!(ds.len(), 1);
    assert_eq!(ds[0].msg, "GraphQL object synchronous resolvers are not supported");
    let mut session = entered();
    assert!(matches!(
        expand_impl(impl_input(TypeAttr::new(), Some("Subscription"), vec![method("events", true)]), true, &mut session),
        ObjectExpansion::Done(_)
    ));
}

#[test]
fn derived_object() {
    let fields = vec![
        StructFieldInput { attr: Ok(FieldAttr::new()), ident: Some(s("first_name")), name_span: 5, span: 6 },
        StructFieldInput { attr: Ok(FieldAttr::new()), ident: Some(s("age")), name_span: 7, span: 8 },
    ];
    let input = ObjectStructInput { attr: TypeAttr::new(), ident: s("Person"), name_span: 1, span: 2, fields: Some(ObjectStructFields::Named(fields)) };
    let mut session = entered();
    match expand_struct::<u8, u64, u32>(input, &mut session) {
        ObjectExpansion::Done(def) => {
            let names: Vec<String> = def.fields.iter().map(|f| f.name.clone()).collect();
            assert_eq!(names, vec![s("firstName"), s("age")]);
            assert_eq!(def.context, None);
        }
        _ => panic!("expected an object"),
    }
    let tuple = ObjectStructInput { attr: TypeAttr::new(), ident: s("Person"), name_span: 1, span: 2, fields: Some(ObjectStructFields::Unnamed) };
    let mut session = entered();
    assert!(matches!(expand_struct::<u8, u64, u32>(tuple, &mut session), ObjectExpansion::Aborted));
    let ds = diags(session);
    assert_eq!(ds.len(), 1);
    assert_eq!(ds[0].msg, "GraphQL object only named fields are allowed");
    let not_struct: ObjectStructInput<u64, u32> = ObjectStructInput { attr: TypeAttr::new(), ident: s("E"), name_span: 1, span: 2, fields: None };
    let mut session = entered();
    match expand_struct::<u8, u64, u32>(not_struct, &mut session) {
        ObjectExpansion::Failed { msg, .. } => assert_eq!(msg, "GraphQL object can only be derived for structs"),
        _ => panic!("expected a failure"),
    }
}

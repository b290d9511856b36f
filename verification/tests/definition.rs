use juniper_codegen::arg::{ArgArg, ArgAttr, MethodArgError, MethodArgKind};
use juniper_codegen::definition::{
    arg_error_diagnostic, collect_fields, context_of, finish_fields, graphql_name, parse_method_argument,
    parse_method_field, parse_struct_field, ArgSpans, FieldDef, FieldOut, FieldOutcome, MethodArgInput,
    MethodFieldInput, StructFieldInput,
};
use juniper_codegen::diagnostic::{Diagnostic, Scope};
use juniper_codegen::field::{FieldArg, FieldAttr};
use juniper_codegen::rename::Policy;
use juniper_codegen::session::{Finish, Outcome, Session};

fn s(v: &str) -> String {
    v.to_string()
}

fn spans() -> ArgSpans<u32> {
    ArgSpans { name: 11, description: 12, default: 13 }
}

fn arg(ident: Option<&str>, attr: ArgAttr<u8>, ctx: u64) -> MethodArgInput<u8, u64, u32> {
    MethodArgInput { attr: Ok(attr), spans: spans(), ident: ident.map(s), pat_span: 20, context_ty: ctx }
}

fn method(ident: &str, arguments: Vec<MethodArgInput<u8, u64, u32>>) -> MethodFieldInput<u8, u64, u32> {
    MethodFieldInput {
        attr: Ok(FieldAttr::new()),
        ident: s(ident),
        name_span: 30,
        sig_span: 31,
        is_async: false,
        default_impl: None,
        has_receiver: true,
        bad_receiver: None,
        arguments,
    }
}

fn entered() -> Session<u32> {
    let mut session = Session::new();
    session.enter();
    session
}

fn diags(mut session: Session<u32>) -> Vec<Diagnostic<u32>> {
    match session.leave(Outcome::Aborted) {
        Finish::BodyWithErrors(v) => v,
        _ => panic!("expected diagnostics"),
    }
}

#[test]
fn argument_errors_become_diagnostics() {
    let named = ArgAttr::<u8>::parse(vec![ArgArg::Description(s("d"))]).ok().unwrap();
    match parse_method_argument(arg(Some("ctx"), named, 5), Policy::CamelCase, Scope::ObjectAttr) {
        Err(d) => {
            assert_eq!(d.first, 12);
            assert_eq!(d.msg, "GraphQL object attribute argument `#[graphql(description = ...)]` is not allowed here");
            assert_eq!(d.notes, vec![s("https://spec.graphql.org/October2021#sec-Objects")]);
        }
        Ok(_) => panic!("expected a refusal"),
    }
    match parse_method_argument(arg(None, ArgAttr::new(), 5), Policy::CamelCase, Scope::InterfaceAttr) {
        Err(d) => {
            assert_eq!(d.first, 20);
            assert_eq!(d.msg, "GraphQL interface method argument should be declared as a single identifier");
            assert_eq!(d.notes.len(), 2);
            assert!(d.notes[1].starts_with("use `#[graphql(name = ...)]`"));
        }
        Ok(_) => panic!("expected a refusal"),
    }
    let reserved = ArgAttr::<u8>::parse(vec![ArgArg::Name(s("__x"))]).ok().unwrap();
    match parse_method_argument(arg(Some("x"), reserved, 5), Policy::CamelCase, Scope::ObjectAttr) {
        Err(d) => {
            assert_eq!(d.first, 11);
            assert!(d.msg.starts_with("All types and directives defined within a schema must not have a name"));
        }
        Ok(_) => panic!("expected a refusal"),
    }
    let d = arg_error_diagnostic(MethodArgError::DoubleUnderscore, Scope::ObjectAttr, spans(), 20, false);
    assert_eq!(d.first, 20);
    assert!(matches!(
        parse_method_argument(arg(Some("context"), ArgAttr::new(), 5), Policy::CamelCase, Scope::ObjectAttr),
        Ok(MethodArgKind::Context(5))
    ));
    let refused: MethodArgInput<u8, u64, u32> = MethodArgInput {
        attr: Err(Scope::ObjectAttr.custom(3u32, "bad")),
        spans: spans(),
        ident: Some(s("x")),
        pat_span: 20,
        context_ty: 0,
    };
    match parse_method_argument(refused, Policy::CamelCase, Scope::ObjectAttr) {
        Err(d) => assert_eq!(d.msg, "GraphQL object bad"),
        Ok(_) => panic!("expected a refusal"),
    }
}

#[test]
fn method_fields() {
    let f = method("human_name", vec![arg(Some("ctx"), ArgAttr::new(), 9), arg(Some("first_arg"), ArgAttr::new(), 0)]);
    match parse_method_field(f, Policy::CamelCase, Scope::ObjectAttr, false) {
        FieldOutcome::Field(out) => {
            assert_eq!(out.name, "humanName");
            let args = out.arguments.unwrap();
            assert_eq!(args.len(), 2);
            assert!(matches!(args[0], Ok(MethodArgKind::Context(9))));
            match &args[1] {
                Ok(MethodArgKind::Regular { name, .. }) => assert_eq!(name, "firstArg"),
                _ => panic!("expected a regular argument"),
            }
        }
        _ => panic!("expected a field"),
    }
    let mut with_default = method("id", vec![]);
    with_default.default_impl = Some(40);
    match parse_method_field(with_default, Policy::CamelCase, Scope::InterfaceAttr, false) {
        FieldOutcome::Refused(d) => {
            assert_eq!(d.first, 40);
            assert_eq!(d.msg, "GraphQL interface trait method can't have default implementation");
        }
        _ => panic!("expected a refusal"),
    }
    match parse_method_field(method("id", vec![]), Policy::CamelCase, Scope::ObjectAttr, true) {
        FieldOutcome::Refused(d) => {
            assert_eq!(d.first, 31);
            assert_eq!(d.msg, "GraphQL object synchronous resolvers are not supported");
            assert_eq!(d.notes[1], "Specify that this function is async: `async fn foo()`");
        }
        _ => panic!("expected a refusal"),
    }
    let mut bad_receiver = method("id", vec![]);
    bad_receiver.bad_receiver = Some(41);
    match parse_method_field(bad_receiver, Policy::CamelCase, Scope::ObjectAttr, false) {
        FieldOutcome::Refused(d) => {
            assert_eq!(d.first, 41);
            assert_eq!(
                d.msg,
                "GraphQL object method should have a shared reference receiver `&self`, or no receiver at all"
            );
        }
        _ => panic!("expected a refusal"),
    }
    match parse_method_field(method("__typename", vec![]), Policy::Unchanged, Scope::ObjectAttr, false) {
        FieldOutcome::Refused(d) => assert_eq!(d.first, 30),
        _ => panic!("expected a refusal"),
    }
    let mut ignored = method("__typename", vec![]);
    ignored.attr = Ok(FieldAttr::parse(&[FieldArg::Ignore]).ok().unwrap());
    assert!(matches!(
        parse_method_field(ignored, Policy::Unchanged, Scope::ObjectAttr, false),
        FieldOutcome::Ignored
    ));
}

#[test]
fn struct_fields() {
    let unnamed: StructFieldInput<u32> = StructFieldInput { attr: Ok(FieldAttr::new()), ident: None, name_span: 1, span: 2 };
    match parse_struct_field::<u8, u64, u32>(unnamed, Policy::CamelCase, Scope::InterfaceAttr) {
        FieldOutcome::Refused(d) => {
            assert_eq!(d.first, 2);
            assert_eq!(d.msg, "GraphQL interface expected named struct field");
        }
        _ => panic!("expected a refusal"),
    }
    let named: StructFieldInput<u32> = StructFieldInput { attr: Ok(FieldAttr::new()), ident: Some(s("r#type")), name_span: 1, span: 2 };
    match parse_struct_field::<u8, u64, u32>(named, Policy::CamelCase, Scope::ObjectDerive) {
        FieldOutcome::Field(out) => {
            assert_eq!(out.name, "type");
            assert!(out.arguments.is_none());
        }
        _ => panic!("expected a field"),
    }
}

fn field(name: &str, arguments: Option<Vec<Result<MethodArgKind<u8, u64>, Diagnostic<u32>>>>) -> FieldOutcome<u8, u64, u32> {
    FieldOutcome::Field(FieldOut { name: s(name), description: None, deprecated: None, arguments, has_receiver: false, is_async: false })
}

#[test]
fn collecting_and_checking_fields() {
    let mut session = entered();
    let refused_arg: Result<MethodArgKind<u8, u64>, Diagnostic<u32>> = Err(Scope::ObjectAttr.custom(7u32, "arg"));
    let outs = vec![
        field("a", Some(vec![Ok(MethodArgKind::Executor), refused_arg])),
        FieldOutcome::Refused(Scope::ObjectAttr.custom(8u32, "field")),
        FieldOutcome::Ignored,
    ];
    let defs = collect_fields(outs, &mut session);
    assert_eq!(defs.len(), 1);
    assert_eq!(defs[0].arguments.as_ref().unwrap().len(), 1);
    let ds = diags(session);
    assert_eq!(ds.len(), 2);
    assert_eq!(ds[0].first, 7);
    assert_eq!(ds[1].first, 8);

    let mut session = entered();
    assert!(finish_fields::<u8, u64, u32>(vec![FieldOutcome::Ignored], 5, Scope::ObjectAttr, &mut session).is_none());
    let ds = diags(session);
    assert_eq!(ds.len(), 1);
    assert_eq!(ds[0].msg, "GraphQL object must have at least one field");

    let mut session = entered();
    assert!(finish_fields(vec![field("a", None), field("a", None)], 5, Scope::InterfaceAttr, &mut session).is_none());
    let ds = diags(session);
    assert_eq!(ds.len(), 1);
    assert_eq!(ds[0].msg, "GraphQL interface must have a different name for each field");

    let mut session = entered();
    let defs = finish_fields(vec![field("a", None), field("b", Some(vec![]))], 5, Scope::InterfaceAttr, &mut session).unwrap();
    assert_eq!(defs.len(), 2);
    assert_eq!(session.emitted(), 0);
}

#[test]
fn context_comes_from_first_context_argument() {
    let defs: Vec<FieldDef<u8, u64>> = vec![
        FieldDef { name: s("a"), description: None, deprecated: None, arguments: None, has_receiver: false, is_async: false },
        FieldDef { name: s("b"), description: None, deprecated: None, arguments: Some(vec![MethodArgKind::Executor]), has_receiver: true, is_async: false },
        FieldDef {
            name: s("c"),
            description: None,
            deprecated: None,
            arguments: Some(vec![MethodArgKind::Executor, MethodArgKind::Context(4), MethodArgKind::Context(5)]),
            has_receiver: true,
            is_async: true,
        },
    ];
    assert_eq!(context_of(None, &defs), Some(4));
    assert_eq!(context_of(Some(1), &defs), Some(1));
    assert_eq!(context_of::<u8, u64>(None, &vec![]), None);
}

#[test]
fn graphql_names() {
    let (name, d) = graphql_name(None, "r#__Type", false, 3u32, Scope::ObjectAttr);
    assert_eq!(name, "__Type");
    assert_eq!(d.unwrap().first, 3);
    let (name, d) = graphql_name(None, "__Type", true, 3u32, Scope::ObjectAttr);
    assert_eq!(name, "__Type");
    assert!(d.is_none());
    let (name, d) = graphql_name(Some(s("Human")), "__Type", false, 3u32, Scope::ObjectAttr);
    assert_eq!(name, "Human");
    assert!(d.is_none());
}

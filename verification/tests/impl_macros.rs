use juniper_codegen::diagnostic::Diagnostic;
use juniper_codegen::gql::{
    to_graphql_definition, GqlArgClass, GqlFieldItem, GqlInput, GqlMethodItem, GqlObjectInput, GqlPanic,
    INTERFACES_UNSUPPORTED,
};
use juniper_codegen::impl_object::{create, ImplBlockItem, ImplMethodItem, ImplObjectInput, RegularArgItem, RETURN_REQUIRED};
use juniper_codegen::impl_union::{
    expand, ImplUnionInput, ImplUnionVerdict, ResolveMethodItem, UnionImplBlockItem, INVALID_TARGET_TRAIT,
    NO_RESOLVE_METHOD,
};
use juniper_codegen::rename::{ascii_case_facts_hold, renaming_is_idempotent_on};
use juniper_codegen::type_definition::{ArgAttributes, FieldAttributes, ObjectAttributes, ScopeDiag, Verdict};

fn s(v: &str) -> String {
    v.to_string()
}

fn object_attrs() -> ObjectAttributes<u8, u32> {
    ObjectAttributes {
        name: None,
        name_span: 1,
        description: None,
        context: None,
        scalar: None,
        scalar_span: 2,
        interfaces: vec![],
        rename: None,
        is_internal: false,
        no_async: false,
    }
}

fn field_attrs() -> FieldAttributes<u8, u32> {
    FieldAttributes {
        name: None,
        name_span: 10,
        description: None,
        description_span: 13,
        deprecation: None,
        deprecation_span: 11,
        skip: None,
        default: None,
        default_span: 12,
        arguments: vec![],
    }
}

fn method(ident: &str, args: Vec<&str>) -> ImplMethodItem<u8, u8, u32> {
    ImplMethodItem {
        return_ty: Some(3),
        sig_span: 60,
        is_async: false,
        attrs: Ok(field_attrs()),
        arguments: args.into_iter().map(|a| RegularArgItem { ident: s(a), ident_span: 70, ty: 4 }).collect(),
        signature_error: None,
        ident: s(ident),
        ident_span: 61,
    }
}

fn impl_input(methods: Vec<ImplMethodItem<u8, u8, u32>>) -> ImplObjectInput<u8, u8, u32> {
    ImplObjectInput {
        block: Ok(ImplBlockItem { attrs: object_attrs(), type_ident: s("Query"), type_ident_span: 5, description: None, methods }),
        body_span: 6,
        is_internal: false,
        dirty: false,
    }
}

#[test]
fn impl_object_fields_and_arguments() {
    let mut described = field_attrs();
    described.arguments = vec![ArgAttributes { arg: s("first_name"), rename: None, rename_span: 80, description: Some(s("d")), default: Some(9) }];
    let mut m = method("human_by_name", vec!["first_name", "r#type"]);
    m.attrs = Ok(described);
    m.is_async = true;
    let res = create(impl_input(vec![m]));
    match res.verdict {
        Verdict::Done(def) => {
            assert_eq!(def.name, "Query");
            assert_eq!(def.fields[0].name, "humanByName");
            assert!(def.fields[0].is_async);
            let args: Vec<String> = def.fields[0].args.iter().map(|a| a.name.clone()).collect();
            assert_eq!(args, vec![s("firstName"), s("type")]);
            assert_eq!(def.fields[0].args[0].description, Some(s("d")));
            assert_eq!(def.fields[0].args[0].default, Some(9));
            assert_eq!(def.interfaces, None);
        }
        _ => panic!("expected a definition"),
    }
}

#[test]
fn impl_object_refusals() {
    let mut no_ret = method("a", vec![]);
    no_ret.return_ty = None;
    let mut renamed = field_attrs();
    renamed.arguments = vec![ArgAttributes { arg: s("x"), rename: Some(s("__x")), rename_span: 81, description: None, default: None }];
    let mut bad_arg = method("b", vec!["x"]);
    bad_arg.attrs = Ok(renamed);
    bad_arg.signature_error = Some(Diagnostic::spanned(90, s("sig")));
    let res = create(impl_input(vec![no_ret, bad_arg]));
    assert!(matches!(res.verdict, Verdict::Aborted));
    assert_eq!(res.diags.len(), 3);
    assert!(matches!(res.diags[0], ScopeDiag::Custom(60, m) if m == RETURN_REQUIRED));
    assert!(matches!(res.diags[1], ScopeDiag::NoDoubleUnderscore(81)));
    assert!(matches!(&res.diags[2], ScopeDiag::Error(d) if d.first == 90));

    let res = create(impl_input(vec![method("a", vec![]), method("a", vec![])]));
    assert!(matches!(res.diags[0], ScopeDiag::Duplicate));
    let res = create(impl_input(vec![]));
    assert!(matches!(res.diags[0], ScopeDiag::NotEmpty(6)));
}

fn union_block(target: Option<&str>, methods: Vec<ResolveMethodItem<u8, u8, u32>>) -> ImplUnionInput<u8, u8, u32> {
    ImplUnionInput {
        block: Ok(UnionImplBlockItem {
            attrs: object_attrs(),
            type_ident: s("Character"),
            target_trait: target.map(|t| (s(t), 15)),
            description: None,
            methods,
        }),
        body_span: 16,
        dirty: false,
    }
}

#[test]
fn impl_union_resolve_method() {
    let other = ResolveMethodItem { is_resolve: false, body: Ok(vec![]), span: 17 };
    let resolve = ResolveMethodItem { is_resolve: true, body: Ok(vec![(1, 2), (3, 4)]), span: 18 };
    match expand(union_block(Some("juniper.GraphQLUnion"), vec![other, resolve])).verdict {
        ImplUnionVerdict::Done(def) => {
            assert_eq!(def.name, "Character");
            assert_eq!(def.variants, vec![(1, 2), (3, 4)]);
        }
        _ => panic!("expected a union"),
    }
    assert!(matches!(expand(union_block(Some("Other"), vec![])).verdict, ImplUnionVerdict::Failed(15, m) if m == INVALID_TARGET_TRAIT));
    assert!(matches!(expand(union_block(None, vec![])).verdict, ImplUnionVerdict::Failed(16, m) if m == NO_RESOLVE_METHOD));
    let empty = ResolveMethodItem { is_resolve: true, body: Ok(vec![]), span: 18 };
    let res = expand(union_block(None, vec![empty]));
    assert!(matches!(res.verdict, ImplUnionVerdict::Aborted));
    assert!(matches!(res.diags[0], ScopeDiag::NotEmpty(18)));
}

fn gql_input(fields: Vec<GqlFieldItem<u8, u8, u32>>, methods: Vec<GqlMethodItem<u8, u8, u32>>) -> GqlObjectInput<u8, u8, u32> {
    GqlObjectInput { attrs: Ok(object_attrs()), ident: s("Droid"), fields, methods }
}

fn gql_method(ident: &str, inputs: Vec<GqlInput<u8>>) -> GqlMethodItem<u8, u8, u32> {
    GqlMethodItem { return_ty: Some(5), is_async: false, attrs: Ok(field_attrs()), ident: s(ident), inputs }
}

#[test]
fn gql_object_definition() {
    let mut skipped = field_attrs();
    skipped.skip = Some(1);
    let fields = vec![
        GqlFieldItem { attrs: Ok(field_attrs()), ident: s("primary_function"), ty: 1 },
        GqlFieldItem { attrs: Ok(skipped), ident: s("hidden"), ty: 2 },
    ];
    let inputs = vec![
        GqlInput::Receiver { by_shared_ref: true },
        GqlInput::Typed { ident: Some(s("exec")), ty: 6, class: GqlArgClass::ExecutorRef },
        GqlInput::Typed { ident: Some(s("first_name")), ty: 7, class: GqlArgClass::Regular },
    ];
    let def = to_graphql_definition(gql_input(fields, vec![gql_method("friends_of", inputs)])).ok().unwrap();
    let names: Vec<String> = def.fields.iter().map(|f| f.name.clone()).collect();
    assert_eq!(names, vec![s("primaryFunction"), s("friendsOf")]);
    assert_eq!(def.fields[1].args.len(), 1);
    assert_eq!(def.fields[1].args[0].name, "firstName");
}

#[test]
fn gql_object_panics() {
    let mut attrs = object_attrs();
    attrs.interfaces = vec![(1, 2)];
    let input = GqlObjectInput::<u8, u8, u32> { attrs: Ok(attrs), ident: s("Droid"), fields: vec![], methods: vec![] };
    let p = to_graphql_definition(input).err().unwrap();
    assert!(matches!(p, GqlPanic::Interfaces));
    assert_eq!(p.message(), INTERFACES_UNSUPPORTED);

    let mut no_ret = gql_method("name", vec![]);
    no_ret.return_ty = None;
    let p = to_graphql_definition(gql_input(vec![], vec![no_ret])).err().unwrap();
    assert_eq!(p.message(), "Invalid field method name: must return a value");

    let bad = gql_method("name", vec![GqlInput::Receiver { by_shared_ref: false }]);
    let p = to_graphql_definition(gql_input(vec![], vec![bad])).err().unwrap();
    assert_eq!(p.message(), "Invalid method receiver name(self, ...): did you mean '&self'?");

    let ctx = gql_method("name", vec![GqlInput::Typed { ident: Some(s("c")), ty: 1, class: GqlArgClass::ContextValue }]);
    assert!(matches!(to_graphql_definition(gql_input(vec![], vec![ctx])).err().unwrap(), GqlPanic::ContextByValue));

    let field = GqlFieldItem { attrs: Err(Diagnostic::spanned(3, s("oops"))), ident: s("x"), ty: 1 };
    let p = to_graphql_definition(gql_input(vec![field], vec![])).err().unwrap();
    assert_eq!(p.message(), "Invalid #[graphql] attribute: \noops");
}

#[test]
fn ascii_renaming_is_idempotent() {
    assert!(ascii_case_facts_hold());
    assert!(renaming_is_idempotent_on("some_field_name"));
    assert!(renaming_is_idempotent_on("__typename"));
    assert!(!renaming_is_idempotent_on("naïve"));
}

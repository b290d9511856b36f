use juniper_codegen::diagnostic::Diagnostic;
use juniper_codegen::graphql_union::{
    expand_on_trait, parse_trait_variant, ExternalResolver, Resolver, TraitVariantInput, UnionArg, UnionAttr,
    UnionExpansion, UnionTraitInput, UnionVariantAttr,
};
use juniper_codegen::session::{Finish, Outcome, Session};

fn s(v: &str) -> String {
    v.to_string()
}

fn entered() -> Session<u32> {
    let mut session = Session::new();
    session.enter();
    session
}

fn diags(mut session: Session<u32>) -> Vec<Diagnostic<u32>> {
    match session.leave(Outcome::Aborted) {
        Finish::BodyWithErrors(v) => v,
        _ => panic!("expected diagnostics"),
    }
}

fn method(ident: &str, ty: u64, context: Option<u64>) -> TraitVariantInput<u32, u8, String, u64> {
    TraitVariantInput {
        attr: Ok(UnionVariantAttr { ignore: false, external_resolver: None }),
        with_span: 1,
        ident: s(ident),
        ident_text: s(ident),
        sig_span: 2,
        output: Ok((ty, format!("T{ty}"))),
        context: Ok(context),
        async_span: None,
    }
}

fn resolver(ty: u64, path: u8) -> ExternalResolver<u8> {
    ExternalResolver { ty, path, text: format!("resolve_{ty}") }
}

#[test]
fn trait_method_variants() {
    let rs = vec![resolver(7, 70)];
    let o = parse_trait_variant(method("as_human", 1, Some(5)), &rs);
    assert!(o.diags.is_empty());
    let v = o.variant.unwrap();
    assert_eq!(v.ty, 1);
    match v.resolver {
        Resolver::Own(m) => {
            assert_eq!(m.ident, "as_human");
            assert_eq!(m.context, Some(5));
        }
        _ => panic!("expected the method"),
    }
    let o = parse_trait_variant(method("as_droid", 7, None), &rs);
    assert_eq!(o.diags.len(), 1);
    assert_eq!(
        o.diags[0].msg,
        "GraphQL union trait method `as_droid` conflicts with the external resolver function `resolve_7` declared on the trait to resolve the variant type `T7`"
    );
    assert!(o.variant.is_some());
    let mut with = method("as_x", 1, None);
    with.attr = Ok(UnionVariantAttr { ignore: true, external_resolver: Some(3) });
    let o = parse_trait_variant(with, &rs);
    assert_eq!(o.diags.len(), 1);
    assert_eq!(o.diags[0].msg, "GraphQL union cannot use #[graphql(with = ...)] attribute on a trait method");
    assert!(o.variant.is_none());
    let mut bad = method("as_y", 1, None);
    bad.output = Err(9);
    let o = parse_trait_variant(bad, &rs);
    assert_eq!(o.diags[0].first, 9);
    assert_eq!(o.diags[0].msg, "GraphQL union expects trait method return type to be `Option<&VariantType>` only");
    let mut asynchronous = method("as_z", 1, None);
    asynchronous.async_span = Some(4);
    let o = parse_trait_variant(asynchronous, &rs);
    assert_eq!(o.diags[0].msg, "GraphQL union async downcast to union variants is not supported");
}

#[test]
fn union_on_trait() {
    let attr = UnionAttr::parse(vec![UnionArg::On(resolver(3, 30))]).ok().unwrap();
    let input = UnionTraitInput {
        attr,
        ident: s("Character"),
        name_span: 1,
        span: 2,
        methods: vec![method("as_human", 1, None), method("as_droid", 2, Some(6))],
    };
    let mut session = entered();
    match expand_on_trait(input, &mut session) {
        UnionExpansion::Done(def) => {
            assert_eq!(def.name, "Character");
            assert_eq!(def.context, Some(6));
            let tys: Vec<u64> = def.variants.iter().map(|v| v.ty).collect();
            assert_eq!(tys, vec![1, 2, 3]);
        }
        _ => panic!("expected a union"),
    }
    let empty = UnionTraitInput { attr: UnionAttr::new(), ident: s("Nothing"), name_span: 1, span: 2, methods: vec![] };
    let mut session = entered();
    assert!(matches!(expand_on_trait::<u32, u64, u8, String>(empty, &mut session), UnionExpansion::Aborted));
    let ds = diags(session);
    assert_eq!(ds.len(), 1);
    assert_eq!(ds[0].msg, "GraphQL union expects at least one union variant");
}

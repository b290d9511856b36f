use juniper_codegen::diagnostic::Diagnostic;
use juniper_codegen::graphql_union::{
    all_variants_different, emerge_union_variants_from_attr, expand, parse_variant, union_arg_key,
    union_variant_arg_key, ExternalResolver, Resolver, UnionArg, UnionArgKey, UnionAttr,
    UnionExpansion, UnionInput, UnionMergeError, UnionVariant, UnionVariantArg, UnionVariantAttr,
    UnionVariantInput, UnionVariantOutcome, VariantFields,
};
use juniper_codegen::session::Session;

fn s(v: &str) -> String {
    v.to_string()
}

fn ext(ty: u64, path: &'static str) -> ExternalResolver<&'static str> {
    ExternalResolver { ty, path, text: s(path) }
}

fn own(ty: u64, v: &'static str) -> UnionVariant<&'static str, &'static str> {
    UnionVariant { ty, resolver: Resolver::Own(v) }
}

fn single(ty: u64, ident: &'static str) -> UnionVariantInput<u32, &'static str, &'static str> {
    UnionVariantInput {
        attr: Ok(UnionVariantAttr { ignore: false, external_resolver: None }),
        ident,
        ident_span: 10,
        with_span: 11,
        fields: VariantFields::Single { ty, text: format!("T{ty}") },
    }
}

fn entered() -> Session<u32> {
    let mut session = Session::new();
    session.enter();
    session
}

#[test]
fn union_argument_keys() {
    assert_eq!(union_arg_key("on"), Some(UnionArgKey::On));
    assert_eq!(union_arg_key("Context"), Some(UnionArgKey::Context));
    assert_eq!(union_arg_key("with"), None);
    assert_eq!(union_variant_arg_key("skip"), Some(true));
    assert_eq!(union_variant_arg_key("with"), Some(false));
    assert_eq!(union_variant_arg_key("on"), None);
}

#[test]
fn union_attr_parse_and_merge() {
    let a = UnionAttr::<u8, &str>::parse(vec![UnionArg::On(ext(1, "f")), UnionArg::On(ext(2, "g"))]).ok().unwrap();
    assert_eq!(a.external_resolvers.len(), 2);
    assert_eq!(UnionAttr::<u8, &str>::parse(vec![UnionArg::On(ext(1, "f")), UnionArg::On(ext(1, "h"))]).err(), Some(1));
    let b = UnionAttr::<u8, &str>::parse(vec![UnionArg::On(ext(3, "k")), UnionArg::On(ext(2, "m"))]).ok().unwrap();
    assert_eq!(a.try_merge(b).err(), Some(UnionMergeError::Resolver(1)));
    let c = UnionAttr::<u8, &str>::parse(vec![UnionArg::Name(s("U"))]).ok().unwrap();
    let d = UnionAttr::<u8, &str>::parse(vec![UnionArg::Name(s("V"))]).ok().unwrap();
    assert_eq!(c.try_merge(d).err(), Some(UnionMergeError::Both(UnionArgKey::Name)));
}

#[test]
fn union_variant_attr() {
    let a = UnionVariantAttr::parse(vec![UnionVariantArg::With("f")]).ok().unwrap();
    assert_eq!(a.external_resolver, Some("f"));
    assert_eq!(UnionVariantAttr::parse(vec![UnionVariantArg::<&str>::Ignore, UnionVariantArg::Ignore]).err(), Some(1));
    let b = UnionVariantAttr::parse(vec![UnionVariantArg::With("g")]).ok().unwrap();
    assert_eq!(a.try_merge(b).err(), Some(false));
}

#[test]
fn emerging_external_resolvers() {
    let mut vs = vec![own(1, "A"), own(2, "B"), own(1, "C")];
    emerge_union_variants_from_attr(&mut vs, vec![ext(1, "f"), ext(3, "g")]);
    assert_eq!(vs.len(), 4);
    assert!(matches!(vs[0].resolver, Resolver::External("f")));
    assert!(matches!(vs[2].resolver, Resolver::Own("C")));
    assert_eq!(vs[3].ty, 3);
    assert!(!all_variants_different(&vs));
    assert!(all_variants_different(&vec![own(1, "A"), own(2, "B")]));
}

#[test]
fn union_variants_from_enum_variants() {
    let rs = vec![ext(1, "on_enum")];
    assert!(matches!(parse_variant(single(2, "B"), &rs), UnionVariantOutcome::Variant(v, None) if v.ty == 2));
    let mut with = single(1, "A");
    with.attr = Ok(UnionVariantAttr { ignore: false, external_resolver: Some("own_fn") });
    match parse_variant(with, &rs) {
        UnionVariantOutcome::Variant(v, Some(d)) => {
            assert!(matches!(v.resolver, Resolver::External("own_fn")));
            assert_eq!(d.first, 11);
            assert_eq!(d.msg, "GraphQL union variant `T1` already has external resolver function `on_enum` declared on the enum");
        }
        _ => panic!("expected a variant with a warning"),
    }
    let mut many = single(1, "A");
    many.fields = VariantFields::Many(12);
    assert!(matches!(parse_variant(many, &rs), UnionVariantOutcome::Refused(d) if d.first == 12
        && d.msg == "GraphQL union enum allows only unnamed variants with a single field, e.g. `Some(T)`"));
    let mut unit = single(1, "A");
    unit.fields = VariantFields::NotUnnamed;
    assert!(matches!(parse_variant(unit, &rs), UnionVariantOutcome::Refused(d) if d.first == 10));
}

#[test]
fn union_expansion() {
    let mut session = entered();
    let attr = UnionAttr::<u8, &str>::parse(vec![UnionArg::On(ext(3, "g"))]).ok().unwrap();
    let outs = vec![parse_variant(single(1, "A"), &attr.external_resolvers), parse_variant(single(2, "B"), &attr.external_resolvers)];
    let input = UnionInput { attr, ident: s("Character"), name_span: 1, span: 2, variants: Some(outs) };
    match expand(input, &mut session) {
        UnionExpansion::Done(def) => {
            assert_eq!(def.name, "Character");
            assert_eq!(def.variants.iter().map(|v| v.ty).collect::<Vec<_>>(), [1, 2, 3]);
        }
        _ => panic!("expected a definition"),
    }
    assert_eq!(session.emitted(), 0);
}

#[test]
fn union_expansion_refusals() {
    let mut session = entered();
    let input = UnionInput { attr: UnionAttr::<u8, &str>::new(), ident: s("Empty"), name_span: 1, span: 2, variants: None::<Vec<UnionVariantOutcome<u32, &str, &str>>> };
    assert!(matches!(expand(input, &mut session), UnionExpansion::Aborted));
    assert_eq!(session.emitted(), 1);

    let mut session = entered();
    let outs = vec![parse_variant(single(1, "A"), &vec![]), parse_variant(single(1, "B"), &vec![])];
    let input = UnionInput { attr: UnionAttr::<u8, &str>::new(), ident: s("Same"), name_span: 1, span: 2, variants: Some(outs) };
    assert!(matches!(expand(input, &mut session), UnionExpansion::Aborted));
    assert_eq!(session.emitted(), 1);

    let mut session = entered();
    let outs: Vec<UnionVariantOutcome<u32, &str, &str>> = vec![UnionVariantOutcome::Refused(Diagnostic::spanned(4u32, s("bad")))];
    let attr = UnionAttr::<u8, &str>::parse(vec![UnionArg::Name(s("__U"))]).ok().unwrap();
    let input = UnionInput { attr, ident: s("U"), name_span: 1, span: 2, variants: Some(outs) };
    assert!(matches!(expand(input, &mut session), UnionExpansion::Aborted));
    assert_eq!(session.emitted(), 2);
}

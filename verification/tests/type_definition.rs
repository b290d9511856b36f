use juniper_codegen::derive_enum::{impl_enum, EnumDeriveInput, EnumVariantItem, ENUMS_ONLY, NO_GENERICS, UNIT_VARIANTS_ONLY};
use juniper_codegen::derive_input_object::impl_input_object;
use juniper_codegen::derive_object::{build_derive_object, NAMED_FIELDS_ONLY};
use juniper_codegen::derive_union::{expand, UnionDeriveInput, UnionShape, UnionVariantItem, VariantFields, SAME_TYPE, SINGLE_ELEMENT, UNNAMED_ONLY};
use juniper_codegen::diagnostic::Diagnostic;
use juniper_codegen::rename::Policy;
use juniper_codegen::type_definition::{
    FieldAttributes, ObjectAttributes, ScopeDiag, StructDeriveInput, StructFieldItem, StructShape,
    UnsupportedAttribute, Verdict,
};

fn s(v: &str) -> String {
    v.to_string()
}

fn object_attrs() -> ObjectAttributes<u8, u32> {
    ObjectAttributes {
        name: None,
        name_span: 1,
        description: None,
        context: None,
        scalar: None,
        scalar_span: 2,
        interfaces: vec![],
        rename: None,
        is_internal: false,
        no_async: false,
    }
}

fn field_attrs() -> FieldAttributes<u8, u32> {
    FieldAttributes {
        name: None,
        name_span: 10,
        description: None,
        description_span: 13,
        deprecation: None,
        deprecation_span: 11,
        skip: None,
        default: None,
        default_span: 12,
        arguments: vec![],
    }
}

fn variant(ident: &str, attrs: FieldAttributes<u8, u32>, is_unit: bool) -> EnumVariantItem<u8, u8, u32> {
    EnumVariantItem { attrs: Ok(attrs), ident: s(ident), ident_span: 20, is_unit, fields_span: 21, ty: 0 }
}

fn enum_input(variants: Option<Vec<EnumVariantItem<u8, u8, u32>>>, attrs: ObjectAttributes<u8, u32>) -> EnumDeriveInput<u8, u8, u32> {
    EnumDeriveInput { has_generics: false, span: 3, ident: s("Episode"), ident_span: 4, variants, attrs: Ok(attrs), dirty: false }
}

#[test]
fn enum_derive_names_variants_in_screaming_snake_case() {
    let res = impl_enum(enum_input(Some(vec![variant("NewHope", field_attrs(), true), variant("Empire", field_attrs(), true)]), object_attrs()));
    assert!(res.diags.is_empty());
    match res.verdict {
        Verdict::Done(def) => {
            assert_eq!(def.name, "Episode");
            let names: Vec<String> = def.fields.iter().map(|f| f.name.clone()).collect();
            assert_eq!(names, vec![s("NEW_HOPE"), s("EMPIRE")]);
        }
        _ => panic!("expected a definition"),
    }
}

#[test]
fn enum_derive_refusals_in_order() {
    let mut generic = enum_input(None, object_attrs());
    generic.has_generics = true;
    assert!(matches!(impl_enum(generic).verdict, Verdict::Failed(3, m) if m == NO_GENERICS));
    assert!(matches!(impl_enum(enum_input(None, object_attrs())).verdict, Verdict::Failed(3, m) if m == ENUMS_ONLY));

    let mut skipped = field_attrs();
    skipped.skip = Some(30);
    let mut defaulted = field_attrs();
    defaulted.default = Some(Some(1));
    let res = impl_enum(enum_input(
        Some(vec![variant("A", field_attrs(), false), variant("B", skipped, true), variant("C", defaulted, true)]),
        object_attrs(),
    ));
    assert!(matches!(res.verdict, Verdict::Aborted));
    assert_eq!(res.diags.len(), 3);
    assert!(matches!(res.diags[0], ScopeDiag::Custom(21, m) if m == UNIT_VARIANTS_ONLY));
    assert!(matches!(res.diags[1], ScopeDiag::UnsupportedAttribute(30, UnsupportedAttribute::Skip)));
    assert!(matches!(res.diags[2], ScopeDiag::UnsupportedAttributeWithin(12, UnsupportedAttribute::Default)));

    let mut with_scalar = object_attrs();
    with_scalar.scalar = Some(7);
    with_scalar.interfaces = vec![(5, 40)];
    let res = impl_enum(enum_input(Some(vec![variant("A", field_attrs(), true), variant("A", field_attrs(), true)]), with_scalar));
    assert_eq!(res.diags.len(), 3);
    assert!(matches!(res.diags[0], ScopeDiag::Duplicate));
    assert!(matches!(res.diags[1], ScopeDiag::UnsupportedAttribute(40, UnsupportedAttribute::Interface)));
    assert!(matches!(res.diags[2], ScopeDiag::UnsupportedAttribute(2, UnsupportedAttribute::Scalar)));

    let res = impl_enum(enum_input(Some(vec![]), object_attrs()));
    assert!(matches!(res.diags[0], ScopeDiag::NotEmpty(3)));

    let refused = EnumDeriveInput::<u8, u8, u32> {
        has_generics: false,
        span: 3,
        ident: s("E"),
        ident_span: 4,
        variants: Some(vec![]),
        attrs: Err(Diagnostic::spanned(9, s("bad"))),
        dirty: false,
    };
    assert!(matches!(impl_enum(refused).verdict, Verdict::Error(d) if d.first == 9));
}

fn struct_field(ident: &str, attrs: FieldAttributes<u8, u32>) -> StructFieldItem<u8, u8, u32> {
    StructFieldItem { attrs: Ok(attrs), ident: s(ident), ident_span: 50, ty: 1 }
}

fn struct_input(data: StructShape<StructFieldItem<u8, u8, u32>>, attrs: ObjectAttributes<u8, u32>) -> StructDeriveInput<u8, u8, u32> {
    StructDeriveInput { span: 3, ident: s("r#Human"), ident_span: 4, data, attrs: Ok(attrs), dirty: false }
}

#[test]
fn object_derive_skips_and_names_fields() {
    let mut skipped = field_attrs();
    skipped.skip = Some(31);
    let mut attrs = object_attrs();
    attrs.interfaces = vec![(8, 41)];
    let res = build_derive_object(struct_input(
        StructShape::Named(vec![struct_field("home_planet", field_attrs()), struct_field("secret", skipped)]),
        attrs,
    ));
    match res.verdict {
        Verdict::Done(def) => {
            assert_eq!(def.name, "Human");
            assert_eq!(def.fields.len(), 1);
            assert_eq!(def.fields[0].name, "homePlanet");
            assert_eq!(def.interfaces, Some(vec![8]));
        }
        _ => panic!("expected a definition"),
    }
    assert!(matches!(build_derive_object(struct_input(StructShape::Unnamed, object_attrs())).verdict, Verdict::Failed(3, m) if m == NAMED_FIELDS_ONLY));
    let mut reserved = object_attrs();
    reserved.name = Some(s("__Human"));
    let res = build_derive_object(struct_input(StructShape::Named(vec![]), reserved));
    assert_eq!(res.diags.len(), 2);
    assert!(matches!(res.diags[0], ScopeDiag::NoDoubleUnderscore(1)));
    assert!(matches!(res.diags[1], ScopeDiag::NotEmpty(3)));
}

#[test]
fn input_object_derive_reports_skip_and_deprecation() {
    let mut odd = field_attrs();
    odd.skip = Some(32);
    odd.deprecation = Some(None);
    let res = impl_input_object(struct_input(StructShape::Named(vec![struct_field("x", odd)]), object_attrs()), 99);
    assert!(matches!(res.verdict, Verdict::Aborted));
    assert!(matches!(res.diags[0], ScopeDiag::UnsupportedAttributeWithin(32, UnsupportedAttribute::Skip)));
    assert!(matches!(res.diags[1], ScopeDiag::UnsupportedAttributeWithin(11, UnsupportedAttribute::Deprecation)));

    let mut defaulted = field_attrs();
    defaulted.default = Some(None);
    let mut renamed = object_attrs();
    renamed.rename = Some(Policy::Unchanged);
    let res = impl_input_object(struct_input(StructShape::Named(vec![struct_field("x_coord", defaulted)]), renamed), 99);
    match res.verdict {
        Verdict::Done(def) => {
            assert_eq!(def.name, "r#Human");
            assert_eq!(def.fields[0].name, "x_coord");
            assert_eq!(def.fields[0].default, Some(None));
        }
        _ => panic!("expected a definition"),
    }
    let mut reserved = field_attrs();
    reserved.name = None;
    let res = impl_input_object(struct_input(StructShape::Named(vec![struct_field("__x", reserved)]), object_attrs()), 99);
    assert!(matches!(res.diags[0], ScopeDiag::NoDoubleUnderscore(99)));
}

fn union_variant(ident: &str, fields: VariantFields<u32>) -> UnionVariantItem<u8, u32> {
    UnionVariantItem { attrs: Ok(field_attrs()), ident: s(ident), ident_span: 60, fields }
}

fn union_input(variants: Vec<UnionVariantItem<u8, u32>>) -> UnionDeriveInput<u8, u32> {
    let mut attrs = ObjectAttributes::<u64, u32> {
        name: None,
        name_span: 1,
        description: None,
        context: None,
        scalar: None,
        scalar_span: 2,
        interfaces: vec![],
        rename: None,
        is_internal: false,
        no_async: false,
    };
    attrs.description = Some(s("d"));
    UnionDeriveInput { span: 3, ident: s("Character"), ident_span: 4, data: UnionShape::Enum(variants), attrs: Ok(attrs), is_public: true, dirty: false }
}

#[test]
fn union_derive_variants() {
    let one = |ty: u64| VariantFields::Unnamed { count: 1, first_ty: ty, span: 61 };
    let res = expand(union_input(vec![union_variant("Human", one(1)), union_variant("Droid", one(2))]));
    match res.verdict {
        Verdict::Done(def) => {
            let names: Vec<String> = def.fields.iter().map(|f| f.name.clone()).collect();
            assert_eq!(names, vec![s("Human"), s("Droid")]);
            assert_eq!(def.description, Some(s("d")));
        }
        _ => panic!("expected a union"),
    }
    let res = expand(union_input(vec![union_variant("Human", one(1)), union_variant("Other", one(1))]));
    assert!(matches!(res.diags[0], ScopeDiag::Custom(4, m) if m == SAME_TYPE));
    let res = expand(union_input(vec![
        union_variant("Pair", VariantFields::Unnamed { count: 2, first_ty: 1, span: 62 }),
        union_variant("Named", VariantFields::Other),
    ]));
    assert_eq!(res.diags.len(), 2);
    assert!(matches!(res.diags[0], ScopeDiag::Custom(62, m) if m == SINGLE_ELEMENT));
    assert!(matches!(res.diags[1], ScopeDiag::Custom(60, m) if m == UNNAMED_ONLY));
}

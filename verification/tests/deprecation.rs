use juniper_codegen::deprecation::{DeprecatedArg, DeprecatedAttr, DeprecationError, Directive};

fn note(text: &str) -> DeprecatedArg {
    DeprecatedArg::NameValue { is_note: true, text: Some(text.to_string()) }
}

#[test]
fn deprecation_single() {
    let (at, directive) =
        Directive::parse_from_deprecated_attr(&[DeprecatedAttr::List(vec![note("foo")])])
            .unwrap()
            .unwrap();
    assert_eq!(at, 0);
    assert_eq!(directive.reason.as_deref(), Some("foo"));
}

#[test]
fn no_reason() {
    let (_, directive) = Directive::parse_from_deprecated_attr(&[DeprecatedAttr::Bare])
        .unwrap()
        .unwrap();
    assert_eq!(directive.reason, None);
}

#[test]
fn not_deprecation() {
    let desc = Directive::parse_from_deprecated_attr(&[DeprecatedAttr::Other]).unwrap();
    assert!(desc.is_none());
}

#[test]
fn first_deprecated_attribute_decides() {
    let (at, directive) = Directive::parse_from_deprecated_attr(&[
        DeprecatedAttr::Other,
        DeprecatedAttr::Bare,
        DeprecatedAttr::List(vec![note("later")]),
    ])
    .unwrap()
    .unwrap();
    assert_eq!(at, 1);
    assert_eq!(directive.reason, None);
}

#[test]
fn unrecognized_setting_is_refused() {
    let args = vec![
        DeprecatedArg::Other,
        DeprecatedArg::NameValue { is_note: false, text: Some("x".to_string()) },
        note("foo"),
    ];
    assert_eq!(
        Directive::parse_from_deprecated_meta_list(&args).err(),
        Some(DeprecationError::UnrecognizedSetting(1)),
    );
    assert_eq!(
        DeprecationError::UnrecognizedSetting(1).message(),
        Some("unrecognized setting on #[deprecated(..)] attribute"),
    );
}

#[test]
fn non_string_note_is_refused() {
    let args = vec![DeprecatedArg::NameValue { is_note: true, text: None }];
    assert_eq!(
        Directive::parse_from_deprecated_attr(&[DeprecatedAttr::List(args)]).err(),
        Some((0, DeprecationError::NotString(0))),
    );
    assert_eq!(
        DeprecationError::NotString(0).message(),
        Some("only strings are allowed for deprecation"),
    );
}

#[test]
fn unparsable_arguments_are_refused() {
    assert_eq!(
        Directive::parse_from_deprecated_attr(&[DeprecatedAttr::Other, DeprecatedAttr::Unparsable]).err(),
        Some((1, DeprecationError::Unparsable)),
    );
    assert_eq!(DeprecationError::Unparsable.message(), None);
}

#[test]
fn list_without_name_value_has_no_reason() {
    let d = Directive::parse_from_deprecated_meta_list(&[DeprecatedArg::Other]).unwrap();
    assert_eq!(d.reason, None);
}

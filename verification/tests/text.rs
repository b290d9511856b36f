use juniper_codegen::attr::{disallowed_message, filter_attrs, path_eq_single, unknown_arg_message, DUP_ARG_MESSAGE};
use juniper_codegen::span_container::SpanContainer;
use juniper_codegen::text::{chars_of, is_whitespace, text_is, unraw};

#[test]
fn unraw_strips_raw_marker() {
    assert_eq!(unraw("r#type"), "type");
    assert_eq!(unraw("rtype"), "rtype");
    assert_eq!(unraw("r#"), "");
    assert_eq!(unraw("r#r#x"), "r#x");
}

#[test]
fn chars_and_equality() {
    assert_eq!(chars_of("aé"), vec!['a', 'é']);
    assert!(text_is("graphql", "graphql"));
    assert!(!text_is("graphql", "graphq"));
}

#[test]
fn argument_error_messages() {
    assert_eq!(unknown_arg_message("foo"), "unknown `foo` attribute argument");
    assert_eq!(
        disallowed_message("default"),
        "attribute argument `#[graphql(default = ...)]` is not allowed here",
    );
    assert_eq!(DUP_ARG_MESSAGE, "duplicated attribute argument found");
}

#[test]
fn single_segment_paths() {
    let graphql = vec!["graphql".to_string()];
    let long = vec!["juniper".to_string(), "graphql".to_string()];
    let other = vec!["doc".to_string()];
    assert!(path_eq_single(&graphql, &["graphql"]));
    assert!(path_eq_single(&graphql, &["graphql_union", "graphql"]));
    assert!(!path_eq_single(&long, &["graphql"]));
    assert!(!path_eq_single(&other, &["graphql"]));
    assert_eq!(filter_attrs(&["graphql"], &[other.clone(), graphql.clone(), long, graphql]), vec![1, 3]);
}

#[test]
fn span_container_spans() {
    let with_value = SpanContainer::new(1u8, Some(2u8), "v");
    assert_eq!(with_value.span_ident(), 1);
    assert_eq!(with_value.span_joined(), 2);
    let without_value = SpanContainer::new(1u8, None, "v");
    assert_eq!(without_value.span_joined(), 1);
    assert_eq!(*without_value.as_ref(), "v");
    assert_eq!(without_value.into_inner(), "v");
}

#[test]
fn whitespace_agrees_with_std_on_every_char() {
    for u in 0u32..=0x10FFFF {
        if let Some(c) = char::from_u32(u) {
            assert_eq!(is_whitespace(c), c.is_whitespace(), "{u:#x}");
        }
    }
}

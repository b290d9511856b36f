use juniper_codegen::description::{concatenate, parse_from_doc_attrs, DocAttr};

fn to_strings<'i>(source: impl IntoIterator<Item = &'i str>) -> Vec<String> {
    source.into_iter().map(Into::into).collect()
}

fn doc(s: &str) -> DocAttr {
    DocAttr::Text(s.to_string())
}

#[test]
fn parse_from_doc_attrs_single() {
    let desc = parse_from_doc_attrs(&[doc("foo")]).unwrap().unwrap();
    assert_eq!(desc.description.text, "foo");
    assert_eq!(desc.first, 0);
}

#[test]
fn many() {
    let desc = parse_from_doc_attrs(&[doc("foo"), doc("\n"), doc("bar")])
        .unwrap()
        .unwrap();
    assert_eq!(desc.description.text, "foo\n\nbar");
}

#[test]
fn not_doc() {
    let desc = parse_from_doc_attrs(&[DocAttr::Other]).unwrap();
    assert!(desc.is_none());
}

#[test]
fn doc_with_non_string_value_is_refused() {
    assert_eq!(
        parse_from_doc_attrs(&[DocAttr::Other, doc("foo"), DocAttr::NotString, DocAttr::NotString]).err(),
        Some(2),
    );
}

#[test]
fn description_starts_at_first_doc() {
    let desc = parse_from_doc_attrs(&[DocAttr::Other, doc(" foo"), DocAttr::Other, doc("bar")])
        .unwrap()
        .unwrap();
    assert_eq!(desc.first, 1);
    assert_eq!(desc.description.text, "foo\nbar");
}

#[test]
fn description_single() {
    assert_eq!(concatenate(&to_strings(["foo"])), "foo");
}

#[test]
fn multiple() {
    assert_eq!(concatenate(&to_strings(["foo", "bar"])), "foo\nbar");
}

#[test]
fn trims_spaces() {
    assert_eq!(concatenate(&to_strings([" foo ", "bar ", " baz"])), "foo\nbar\nbaz");
}

#[test]
fn empty() {
    assert_eq!(concatenate(&to_strings(["foo", "", "bar"])), "foo\n\nbar");
}

#[test]
fn newline_spaces() {
    assert_eq!(concatenate(&to_strings(["foo ", "", " bar"])), "foo\n\nbar");
}

#[test]
fn continuation_backslash() {
    assert_eq!(concatenate(&to_strings(["foo\\", "x\\", "y", "bar"])), "foo x y\nbar");
}

#[test]
fn only_one_leading_space_is_removed() {
    assert_eq!(concatenate(&to_strings(["  foo", "\tbar\t"])), " foo\n\tbar");
}

#[test]
fn all_trailing_backslashes_are_removed() {
    assert_eq!(concatenate(&to_strings(["foo\\\\\\", "bar\\"])), "foo bar\\");
}

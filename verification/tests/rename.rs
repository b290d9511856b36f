use juniper_codegen::rename::{camel_case_is_defined, to_camel_case, to_upper_snake_case, try_from_lit, Policy};

#[test]
fn converts_correctly() {
    for (input, expected) in [
        ("test", "test"),
        ("_test", "test"),
        ("__test", "__test"),
        ("first_second", "firstSecond"),
        ("first_", "first"),
        ("a_b_c", "aBC"),
        ("a_bc", "aBc"),
        ("a_b", "aB"),
        ("a", "a"),
        ("", ""),
    ] {
        assert_eq!(to_camel_case(input), expected);
    }
}

#[test]
fn rename_converts_correctly() {
    for (input, expected) in [
        ("abc", "ABC"),
        ("a_bc", "A_BC"),
        ("ABC", "ABC"),
        ("A_BC", "A_BC"),
        ("SomeInput", "SOME_INPUT"),
        ("someInput", "SOME_INPUT"),
        ("someINpuT", "SOME_INPU_T"),
        ("some_INpuT", "SOME_INPU_T"),
    ] {
        assert_eq!(to_upper_snake_case(input), expected);
    }
}

#[test]
fn policy_from_str_and_apply() {
    assert_eq!(Policy::from_str("none"), Ok(Policy::Unchanged));
    assert_eq!(Policy::from_str("camelCase"), Ok(Policy::CamelCase));
    assert_eq!(Policy::from_str("SCREAMING_SNAKE_CASE"), Ok(Policy::ScreamingSnakeCase));
    assert_eq!(Policy::from_str("snake_case"), Err(()));
    assert_eq!(Policy::Unchanged.apply("some_name"), "some_name");
    assert_eq!(Policy::CamelCase.apply("some_name"), "someName");
    assert_eq!(Policy::ScreamingSnakeCase.apply("someName"), "SOME_NAME");
}

#[test]
fn camel_case_of_non_ascii_words() {
    assert!(camel_case_is_defined("grüße_x"));
    assert!(!camel_case_is_defined("a_é"));
    assert_eq!(to_camel_case("grüße_x"), "grüßeX");
    assert_eq!(to_camel_case("a__b"), "aB");
    assert_eq!(to_camel_case("___a"), "__A");
}

#[test]
fn upper_snake_case_uses_unicode_mapping() {
    assert_eq!(to_upper_snake_case("straße"), "STRASSE");
    assert_eq!(to_upper_snake_case("aBC1d"), "A_BC1D");
    assert_eq!(to_upper_snake_case("a1B"), "A1_B");
}

#[test]
fn rename_all_values() {
    assert_eq!(try_from_lit("camelCase"), Ok(Policy::CamelCase));
    assert_eq!(try_from_lit("kebab-case"), Err("unknown renaming policy"));
}

#[test]
fn camel_case_is_idempotent_on_ascii_names() {
    for name in ["some_input", "__typename", "_unused", "a__b", "___a", "_", "__", "fooBar", "x_1_y", "A_b_C"] {
        let once = to_camel_case(name);
        assert_eq!(to_camel_case(&once), once, "{name}");
    }
}

#[test]
fn upper_snake_case_is_idempotent_on_ascii_names() {
    for name in ["someInput", "some_input", "XMLHttp", "aB1c", "_x", "ALREADY_UPPER", ""] {
        let once = to_upper_snake_case(name);
        assert_eq!(to_upper_snake_case(&once), once, "{name}");
    }
}

#[test]
fn ascii_case_facts_hold_in_std() {
    for u in 0u8..128 {
        let c = u as char;
        let upper: Vec<char> = c.to_uppercase().collect();
        assert_eq!(upper, vec![c.to_ascii_uppercase()]);
        assert_eq!(c.is_lowercase(), c.is_ascii_lowercase());
        assert_eq!(c.is_uppercase(), c.is_ascii_uppercase());
    }
}

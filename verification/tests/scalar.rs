use juniper_codegen::scalar::{specified_by_url, specified_by_url_from, ScalarAttrValue, ScalarType};

#[test]
fn specified_by_url_is_parsed_and_serialized() {
    assert_eq!(specified_by_url("https://example.com"), Ok("https://example.com/".to_string()));
    assert_eq!(
        specified_by_url("https://tools.ietf.org/html/rfc4122"),
        Ok("https://tools.ietf.org/html/rfc4122".to_string()),
    );
}

#[test]
fn invalid_specified_by_url_is_refused() {
    assert_eq!(specified_by_url("not a url"), Err("Invalid URL: relative URL without a base".to_string()));
    assert_eq!(specified_by_url("http://[::1"), Err("Invalid URL: invalid IPv6 address".to_string()));
    assert_eq!(specified_by_url_from(Err("empty host".to_string())), Err("Invalid URL: empty host".to_string()));
}

#[test]
fn scalar_parametrization() {
    let t: ScalarType<&str, &str, &str> = ScalarType::parse(Some(ScalarAttrValue::Concrete("S")), Some("S"));
    assert!(matches!(t, ScalarType::ExplicitGeneric("S")));
    assert!(t.is_generic() && !t.is_implicit_generic());
    let t: ScalarType<&str, &str, &str> = ScalarType::parse(Some(ScalarAttrValue::Concrete("MyScalar")), None);
    assert!(matches!(t, ScalarType::Concrete("MyScalar")));
    assert!(!t.is_generic());
    let t: ScalarType<&str, &str, &str> = ScalarType::parse(Some(ScalarAttrValue::Generic("S: ScalarValue")), None);
    assert_eq!(t.bounds(), Some(&"S: ScalarValue"));
    let t: ScalarType<&str, &str, &str> = ScalarType::parse(None, None);
    assert!(t.is_implicit_generic());
    assert_eq!(t.bounds(), None);
}

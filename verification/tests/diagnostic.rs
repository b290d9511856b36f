use juniper_codegen::diagnostic::{Diagnostic, Scope, SPEC_URL};
use juniper_codegen::session::{Control, Finish, Outcome, Session};

#[test]
fn scope_texts() {
    assert_eq!(Scope::EnumDerive.spec_section(), "#sec-Enums");
    assert_eq!(Scope::ScalarValueDerive.spec_section(), "#sec-Scalars.Built-in-Scalars");
    assert_eq!(Scope::InterfaceAttr.spec_section(), Scope::InterfaceDerive.spec_section());
    assert_eq!(
        Scope::UnionAttr.spec_link(),
        "https://spec.graphql.org/October2021#sec-Unions",
    );
    assert_eq!(Scope::InputObjectDerive.to_string(), "GraphQL input object");
    assert_eq!(Scope::ScalarValueDerive.to_string(), "GraphQL built-in scalars");
    assert_eq!(
        Scope::ObjectDerive.custom_error_message("can only be derived on structs"),
        "GraphQL object can only be derived on structs",
    );
    assert_eq!(SPEC_URL, "https://spec.graphql.org/October2021");
}

#[test]
fn custom_diagnostic_has_spec_note() {
    let d = Scope::EnumDerive.custom(7u32, "expected at least 1 non-ignored enum variant");
    assert_eq!(d.first, 7);
    assert_eq!(d.last, 7);
    assert_eq!(d.msg, "GraphQL enum expected at least 1 non-ignored enum variant");
    assert_eq!(d.notes, vec!["https://spec.graphql.org/October2021#sec-Enums".to_string()]);
    assert_eq!(
        d.full_text(),
        "GraphQL enum expected at least 1 non-ignored enum variant\n\
         · note: https://spec.graphql.org/October2021#sec-Enums\n",
    );
}

#[test]
fn diagnostic_without_notes_shows_message_alone() {
    let d = Diagnostic::spanned(1u8, "oops".to_string());
    assert_eq!(d.full_text(), "oops");
    let d = d.note("first\n".to_string()).note("second".to_string());
    assert_eq!(d.full_text(), "oops\n· note: first\n· note: second\n");
}

#[test]
fn expect_or_abort_prefixes_message() {
    let d = Diagnostic::spanned(0u8, "bad".to_string()).with_context("while parsing");
    assert_eq!(d.msg, "while parsing: bad");
}

#[test]
fn double_underscore_diagnostic() {
    let d = Scope::ObjectAttr.no_double_underscore(3u8);
    assert!(d.msg.starts_with("All types and directives defined within a schema must not have a name which begins with `__`"));
    assert_eq!(d.notes, vec!["https://spec.graphql.org/October2021#sec-Schema".to_string()]);
}

#[test]
fn session_outside_entry_point_is_misuse() {
    let mut s: Session<u8> = Session::new();
    assert_eq!(s.check_correctness(), Control::Misuse);
    assert_eq!(s.abort_now(), Control::Misuse);
    assert_eq!(s.abort_if_dirty(), Control::Misuse);
    assert_eq!(s.emit(Diagnostic::spanned(0, "x".to_string())), Control::Misuse);
    assert_eq!(s.emitted(), 0);
}

#[test]
fn session_collects_and_reports() {
    let mut s: Session<u8> = Session::new();
    s.enter();
    assert_eq!(s.check_correctness(), Control::Continue);
    assert_eq!(s.abort_if_dirty(), Control::Continue);
    assert_eq!(s.emit(Diagnostic::spanned(1, "a".to_string())), Control::Continue);
    assert_eq!(s.emit(Diagnostic::spanned(2, "b".to_string())), Control::Continue);
    assert_eq!(s.abort_if_dirty(), Control::Abort);
    match s.leave(Outcome::Returned) {
        Finish::BodyWithErrors(errs) => {
            assert_eq!(errs.iter().map(|d| d.msg.clone()).collect::<Vec<_>>(), ["a", "b"]);
        }
        _ => panic!("expected errors"),
    }
    assert_eq!(s.depth(), 0);
    assert_eq!(s.emitted(), 0);
}

#[test]
fn session_clean_run_keeps_output() {
    let mut s: Session<u8> = Session::new();
    s.enter();
    assert!(matches!(s.leave(Outcome::Returned), Finish::Output));
    s.enter();
    assert!(matches!(s.leave(Outcome::Aborted), Finish::BodyWithErrors(v) if v.is_empty()));
    s.enter();
    s.emit(Diagnostic::spanned(1, "a".to_string()));
    assert!(matches!(s.leave(Outcome::Panicked), Finish::Resume));
    assert_eq!(s.emitted(), 0);
}

#[test]
fn abort_emits_then_stops() {
    let mut s: Session<u8> = Session::new();
    s.enter();
    assert_eq!(s.abort(Diagnostic::spanned(1, "fatal".to_string())), Control::Abort);
    assert_eq!(s.emitted(), 1);
    assert_eq!(s.abort_now(), Control::Abort);
}

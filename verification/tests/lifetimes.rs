use juniper_codegen::lifetimes::{lifetimes_anonymized, to_hrtb_lifetimes};

fn lt(v: Option<&str>) -> Option<String> {
    v.map(|s| s.to_string())
}

/// The type `shape` with its lifetimes written back, renamed, and its
/// binder: `{i}` stands for the lifetime of a reference (followed by a
/// space when present), `[i]` for a lifetime argument.
fn render(input: &[Option<&str>], shape: &str) -> String {
    let lts: Vec<Option<String>> = input.iter().map(|l| lt(*l)).collect();
    let (binder, renamed) = to_hrtb_lifetimes(&lts);
    let mut out = String::new();
    if !binder.is_empty() {
        let list: Vec<String> = binder.iter().map(|b| format!("'{b}")).collect();
        out.push_str(&format!("for<{}>: ", list.join(", ")));
    }
    let mut ty = shape.to_string();
    for (i, (orig, new)) in lts.iter().zip(renamed.iter()).enumerate() {
        let written = match (orig, new) {
            (_, Some(n)) => format!("'{n}"),
            (Some(o), None) => format!("'{o}"),
            (None, None) => String::new(),
        };
        let spaced = if written.is_empty() { written.clone() } else { format!("{written} ") };
        ty = ty.replacen(&format!("{{{i}}}"), &spaced, 1).replacen(&format!("[{i}]"), &written, 1);
    }
    out.push_str(&ty);
    out
}

#[test]
fn test() {
    assert_eq!(render(&[Some("static")], "&{0}T"), "&'static T");
    assert_eq!(render(&[None], "&{0}T"), "for<'__fa_f__>: &'__fa_f__ T");
    assert_eq!(render(&[Some("a")], "&{0}mut T"), "for<'__fa_f_a>: &'__fa_f_a mut T");
    assert_eq!(render(&[None], "&{0}str"), "for<'__fa_f__>: &'__fa_f__ str");
    assert_eq!(render(&[None, Some("static")], "&{0}Cow<[1], str>"), "for<'__fa_f__>: &'__fa_f__ Cow<'static, str>");
    assert_eq!(
        render(&[None, Some("a")], "&{0}Cow<[1], str>"),
        "for<'__fa_f__, '__fa_f_a>: &'__fa_f__ Cow<'__fa_f_a, str>"
    );
}

#[test]
fn hrtb_binder_lists_each_lifetime_once() {
    let lts = vec![lt(Some("a")), lt(None), lt(Some("a")), lt(Some("static")), lt(None)];
    let (binder, renamed) = to_hrtb_lifetimes(&lts);
    assert_eq!(binder, vec!["__fa_f_a".to_string(), "__fa_f__".to_string()]);
    assert_eq!(renamed[2], Some("__fa_f_a".to_string()));
    assert_eq!(renamed[3], None);
    let (binder, renamed) = to_hrtb_lifetimes(&vec![]);
    assert!(binder.is_empty());
    assert!(renamed.is_empty());
}

#[test]
fn anonymized_lifetimes() {
    let lts = vec!["a".to_string(), "_".to_string(), "static".to_string(), "b".to_string()];
    assert_eq!(lifetimes_anonymized(&lts), vec![true, false, false, true]);
}

//! Shared parts of the `#[graphql(...)]` attribute arguments: the errors
//! about them, and how optional string values are viewed.
use vstd::prelude::*;

verus! {

/// Message of the error about an attribute argument given twice.
pub const DUP_ARG_MESSAGE: &'static str = "duplicated attribute argument found";

/// The message of the error about an unknown attribute argument `name`.
pub open spec fn unknown_arg_message_spec(name: Seq<char>) -> Seq<char> {
    "unknown `"@ + name + "` attribute argument"@
}

/// The message of the error about an unknown attribute argument `name`.
pub fn unknown_arg_message(name: &str) -> (res: String)
    ensures
        res@ == unknown_arg_message_spec(name@),
{
    String::from_str("unknown `").concat(name).concat("` attribute argument")
}

/// The message of the error about the argument `arg` where it is not
/// allowed.
pub open spec fn disallowed_message_spec(arg: Seq<char>) -> Seq<char> {
    "attribute argument `#[graphql("@ + arg + " = ...)]` is not allowed here"@
}

/// The message of the error about the argument `arg` where it is not
/// allowed.
pub fn disallowed_message(arg: &str) -> (res: String)
    ensures
        res@ == disallowed_message_spec(arg@),
{
    String::from_str("attribute argument `#[graphql(").concat(arg).concat(" = ...)]` is not allowed here")
}

/// Whether a path made of `segments` is a single segment equal to one of
/// `names`.
pub open spec fn path_eq_single_spec(segments: Seq<Seq<char>>, names: Seq<Seq<char>>) -> bool {
    segments.len() == 1 && names.contains(segments[0])
}

/// The views of the strings of `v`.
pub open spec fn str_views(v: Seq<&str>) -> Seq<Seq<char>> {
    v.map_values(|s: &str| s@)
}

/// The views of the strings of `v`.
pub open spec fn string_views(v: Seq<String>) -> Seq<Seq<char>> {
    v.map_values(|s: String| s@)
}

/// Checks whether a path, given by its `segments`, is a single segment
/// equal to one of `names`.
pub fn path_eq_single(segments: &[String], names: &[&str]) -> (res: bool)
    ensures
        res == path_eq_single_spec(string_views(segments@), str_views(names@)),
{
    if segments.len() != 1 {
        return false;
    }
    let ghost first = segments@[0]@;
    let mut i: usize = 0;
    while i < names.len()
        invariant
            i <= names@.len(),
            segments@.len() == 1,
            first == segments@[0]@,
            forall|j: int| 0 <= j < i ==> names@[j]@ != first,
        decreases names@.len() - i,
    {
        if crate::text::text_is(segments[0].as_str(), names[i]) {
            assert(str_views(names@)[i as int] == first);
            return true;
        }
        i += 1;
    }
    proof {
        if str_views(names@).contains(first) {
            let k = choose|k: int| 0 <= k < str_views(names@).len() && str_views(names@)[k] == first;
            assert(names@[k]@ == first);
        }
    }
    false
}

/// The positions of the attributes, given by the segments of their paths,
/// whose path is a single segment equal to one of `names`.
pub fn filter_attrs(names: &[&str], paths: &[Vec<String>]) -> (res: Vec<usize>)
    ensures
        forall|k: int| 0 <= k < res@.len() ==> #[trigger] res@[k] < paths@.len(),
        forall|k: int, l: int| 0 <= k < l < res@.len() ==> #[trigger] res@[k] < #[trigger] res@[l],
        forall|i: int|
            0 <= i < paths@.len() ==> (res@.contains(i as usize) <==> path_eq_single_spec(
                string_views(#[trigger] paths@[i]@),
                str_views(names@),
            )),
{
    let mut out: Vec<usize> = Vec::new();
    let mut i: usize = 0;
    while i < paths.len()
        invariant
            i <= paths@.len(),
            forall|k: int| 0 <= k < out@.len() ==> #[trigger] out@[k] < i,
            forall|k: int, l: int| 0 <= k < l < out@.len() ==> #[trigger] out@[k] < #[trigger] out@[l],
            forall|j: int|
                0 <= j < i ==> (out@.contains(j as usize) <==> path_eq_single_spec(
                    string_views(#[trigger] paths@[j]@),
                    str_views(names@),
                )),
        decreases paths@.len() - i,
    {
        let keep = path_eq_single(paths[i].as_slice(), names);
        let ghost before = out@;
        if keep {
            out.push(i);
        }
        proof {
            assert forall|j: int| 0 <= j < i + 1 implies (out@.contains(j as usize) <==> path_eq_single_spec(
                string_views(#[trigger] paths@[j]@),
                str_views(names@),
            )) by {
                if j < i {
                    if out@.contains(j as usize) && !before.contains(j as usize) {
                        let k = choose|k: int| 0 <= k < out@.len() && out@[k] == j as usize;
                        assert(k == before.len());
                    }
                    if before.contains(j as usize) {
                        let k = choose|k: int| 0 <= k < before.len() && before[k] == j as usize;
                        assert(out@[k] == j as usize);
                    }
                } else {
                    if keep {
                        assert(out@[before.len() as int] == i);
                    } else if out@.contains(j as usize) {
                        let k = choose|k: int| 0 <= k < out@.len() && out@[k] == j as usize;
                        assert(out@[k] < i);
                    }
                }
            }
        }
        i += 1;
    }
    out
}

/// The view of an optional string.
pub open spec fn opt_view(o: Option<String>) -> Option<Seq<char>> {
    match o {
        Some(s) => Some(s@),
        None => None,
    }
}

/// The view of an optional optional string.
pub open spec fn opt_opt_view(o: Option<Option<String>>) -> Option<Option<Seq<char>>> {
    match o {
        Some(s) => Some(opt_view(s)),
        None => None,
    }
}

/// Merges two optional values of an argument: the one that is present, and
/// a refusal when both are.
pub open spec fn merge_opt<T>(a: Option<T>, b: Option<T>) -> Option<Option<T>> {
    match (a, b) {
        (Some(_), Some(_)) => None,
        (Some(x), None) => Some(Some(x)),
        (None, y) => Some(y),
    }
}

/// Merges two optional argument values, refusing when both are present.
pub fn merge_option<T>(a: Option<T>, b: Option<T>) -> (res: Result<Option<T>, ()>)
    ensures
        match merge_opt(a, b) {
            Some(m) => res == Ok::<Option<T>, ()>(m),
            None => res is Err,
        },
{
    match (a, b) {
        (Some(_), Some(_)) => Err(()),
        (Some(x), None) => Ok(Some(x)),
        (None, y) => Ok(y),
    }
}

/// The elements of `v` in reverse order.
pub fn reversed<T>(v: Vec<T>) -> (res: Vec<T>)
    ensures
        res@.len() == v@.len(),
        forall|j: int| 0 <= j < v@.len() ==> #[trigger] res@[j] == v@[v@.len() - 1 - j],
{
    let ghost orig = v@;
    let mut v = v;
    let mut out: Vec<T> = Vec::new();
    while v.len() > 0
        invariant
            out@.len() + v@.len() == orig.len(),
            v@ == orig.take(v@.len() as int),
            forall|j: int| 0 <= j < out@.len() ==> #[trigger] out@[j] == orig[orig.len() - 1 - j],
        decreases v.len(),
    {
        let x = v.pop().unwrap();
        out.push(x);
        assert(v@ =~= orig.take(v@.len() as int));
    }
    out
}

} // verus!

//! Character-level helpers shared by the naming and description logic, and
//! the Unicode character properties that they rest on.
use vstd::prelude::*;

verus! {

/// The Unicode uppercase mapping of `c`, as `char::to_uppercase` yields it.
pub uninterp spec fn uppercase_mapping(c: char) -> Seq<char>;

/// Whether `c` has the Unicode `Lowercase` property (`char::is_lowercase`).
pub uninterp spec fn has_lowercase_property(c: char) -> bool;

/// Whether `c` has the Unicode `Uppercase` property (`char::is_uppercase`).
pub uninterp spec fn has_uppercase_property(c: char) -> bool;

/// Whether `c` has the Unicode `White_Space` property, which `char::is_whitespace`
/// tests: tab, line feed, vertical tab, form feed, carriage return, space,
/// next line, no-break space, ogham space mark, the spaces from en quad to
/// hair space, line and paragraph separators, narrow no-break space, medium
/// mathematical space and ideographic space.
pub open spec fn has_whitespace_property(c: char) -> bool {
    let u = c as u32;
    ||| 0x9 <= u <= 0xD
    ||| u == 0x20
    ||| u == 0x85
    ||| u == 0xA0
    ||| u == 0x1680
    ||| 0x2000 <= u <= 0x200A
    ||| u == 0x2028
    ||| u == 0x2029
    ||| u == 0x202F
    ||| u == 0x205F
    ||| u == 0x3000
}

/// Whether `c` is encoded by a single byte in UTF-8.
pub open spec fn is_ascii_char(c: char) -> bool {
    (c as u32) < 128
}

/// Calls `char::to_uppercase` and collects what it yields.
///
/// Claimed: the characters equal the uppercase mapping of `c`, and there is at
/// least one of them (std documents that the iterator yields "one or more"
/// chars, and the char itself where it has no mapping).
#[verifier::external_body]
pub(crate) fn to_uppercase(c: char) -> (res: Vec<char>)
    ensures
        res@ == uppercase_mapping(c),
        res@.len() >= 1,
{
    c.to_uppercase().collect()
}

/// Calls `char::is_lowercase`; claimed to return the `Lowercase` property.
#[verifier::external_body]
pub(crate) fn is_lowercase(c: char) -> (res: bool)
    ensures
        res == has_lowercase_property(c),
{
    c.is_lowercase()
}

/// Calls `char::is_uppercase`; claimed to return the `Uppercase` property.
#[verifier::external_body]
pub(crate) fn is_uppercase(c: char) -> (res: bool)
    ensures
        res == has_uppercase_property(c),
{
    c.is_uppercase()
}

/// Whether `c` is white space, as `char::is_whitespace` decides.
pub fn is_whitespace(c: char) -> (res: bool)
    ensures
        res == has_whitespace_property(c),
{
    let u = c as u32;
    (0x9 <= u && u <= 0xD) || u == 0x20 || u == 0x85 || u == 0xA0 || u == 0x1680 || (0x2000 <= u && u <= 0x200A)
        || u == 0x2028 || u == 0x2029 || u == 0x202F || u == 0x205F || u == 0x3000
}

/// Calls `String::push`, which std documents as appending `c` at the end.
#[verifier::external_body]
pub(crate) fn push_char(s: &mut String, c: char)
    ensures
        final(s)@ == old(s)@.push(c),
{
    s.push(c)
}

/// The characters of `s`, in order.
pub fn chars_of(s: &str) -> (res: Vec<char>)
    ensures
        res@ == s@,
{
    let mut out: Vec<char> = Vec::new();
    for c in it: s.chars()
        invariant
            out@ == it.seq().take(it.index() as int),
    {
        out.push(c);
    }
    out
}

/// Appends all of `cs` to `s`.
pub(crate) fn push_chars(s: &mut String, cs: &Vec<char>)
    ensures
        final(s)@ == old(s)@ + cs@,
{
    let mut i: usize = 0;
    while i < cs.len()
        invariant
            i <= cs.len(),
            s@ == old(s)@ + cs@.take(i as int),
        decreases cs.len() - i,
    {
        push_char(s, cs[i]);
        i += 1;
        assert(cs@.take(i as int) == cs@.take((i - 1) as int).push(cs@[i - 1]));
    }
    assert(cs@.take(cs.len() as int) == cs@);
}

/// Whether `s` and `t` hold the same characters.
pub fn text_is(s: &str, t: &str) -> (res: bool)
    ensures
        res == (s@ == t@),
{
    let a = chars_of(s);
    let b = chars_of(t);
    if a.len() != b.len() {
        return false;
    }
    let mut i: usize = 0;
    while i < a.len()
        invariant
            a.len() == b.len(),
            a@ == s@,
            b@ == t@,
            i <= a.len(),
            forall|j: int| 0 <= j < i ==> a@[j] == b@[j],
        decreases a.len() - i,
    {
        if a[i] != b[i] {
            return false;
        }
        i += 1;
    }
    assert(a@ =~= b@);
    true
}

/// Whether `s` begins with the characters of `prefix`.
pub open spec fn starts_with(s: Seq<char>, prefix: Seq<char>) -> bool {
    prefix.len() <= s.len() && s.take(prefix.len() as int) == prefix
}

/// The text of an identifier with its raw-identifier marker `r#` removed, as
/// `IdentExt::unraw` leaves it.
pub open spec fn unraw_spec(name: Seq<char>) -> Seq<char> {
    if starts_with(name, seq!['r', '#']) {
        name.skip(2)
    } else {
        name
    }
}

/// Removes the raw-identifier marker `r#` from the text of an identifier.
pub fn unraw(name: &str) -> (res: String)
    ensures
        res@ == unraw_spec(name@),
{
    let cs = chars_of(name);
    let mut out = String::new();
    let start: usize = if cs.len() >= 2 && cs[0] == 'r' && cs[1] == '#' {
        2
    } else {
        0
    };
    proof {
        if cs.len() >= 2 {
            assert(cs@.take(2)[0] == cs@[0]);
            assert(cs@.take(2)[1] == cs@[1]);
            if start == 2 {
                assert(cs@.take(2) =~= seq!['r', '#']);
            }
        }
    }
    let mut i: usize = start;
    while i < cs.len()
        invariant
            cs@ == name@,
            start <= i <= cs.len(),
            start == 2 ==> starts_with(name@, seq!['r', '#']),
            start == 0 ==> !starts_with(name@, seq!['r', '#']),
            out@ == cs@.subrange(start as int, i as int),
        decreases cs.len() - i,
    {
        push_char(&mut out, cs[i]);
        i += 1;
        assert(cs@.subrange(start as int, i as int) == cs@.subrange(start as int, (i - 1) as int).push(cs@[i - 1]));
    }
    proof {
        if start == 0 && cs.len() >= 2 {
            assert(!(cs@[0] == 'r' && cs@[1] == '#'));
            assert(cs@.take(2)[0] == cs@[0]);
            assert(cs@.take(2)[1] == cs@[1]);
        }
        assert(cs@.subrange(start as int, cs.len() as int) == cs@.skip(start as int));
    }
    out
}

} // verus!

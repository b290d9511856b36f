//! Renaming policies of `#[graphql(rename_all = ...)]`: how Rust names of
//! fields, arguments and enum variants become GraphQL names.
use vstd::prelude::*;

use crate::text::{
    chars_of, has_lowercase_property, has_uppercase_property, is_ascii_char, is_lowercase,
    is_uppercase, push_char, push_chars, starts_with, text_is, to_uppercase, uppercase_mapping,
};

verus! {

/// Possible ways to rename all GraphQL fields or GraphQL enum values.
#[derive(Clone, Copy, Debug, PartialEq, Eq, Structural)]
pub enum Policy {
    /// Keep the name as it is.
    Unchanged,
    /// Rename in `camelCase` style.
    CamelCase,
    /// Rename in `SCREAMING_SNAKE_CASE` style.
    ScreamingSnakeCase,
}

/// How many leading underscores `to_camel_case` keeps aside: a leading `__`
/// (GraphQL introspection names) is kept, a single leading `_` (the Rust
/// convention for unused names) is dropped.
pub open spec fn camel_prefix_len(s: Seq<char>) -> int {
    if starts_with(s, seq!['_', '_']) {
        2
    } else if starts_with(s, seq!['_']) {
        1
    } else {
        0
    }
}

/// What the character at `j` of the camel-cased text becomes: an underscore
/// disappears, a character right after an underscore is uppercased, any
/// other character stays.
pub open spec fn camel_piece(s: Seq<char>, j: int) -> Seq<char> {
    if s[j] == '_' {
        Seq::empty()
    } else if j > 0 && s[j - 1] == '_' {
        uppercase_mapping(s[j])
    } else {
        seq![s[j]]
    }
}

/// The pieces of all characters of `s`, concatenated in order.
pub open spec fn camel_words(s: Seq<char>) -> Seq<char>
    decreases s.len(),
{
    if s.len() == 0 {
        Seq::empty()
    } else {
        camel_words(s.drop_last()) + camel_piece(s, s.len() - 1)
    }
}

/// `s` in `camelCase`: the kept prefix, then the words of the rest.
pub open spec fn camel_case(s: Seq<char>) -> Seq<char> {
    if camel_prefix_len(s) == 2 {
        seq!['_', '_'] + camel_words(s.skip(2))
    } else {
        camel_words(s.skip(camel_prefix_len(s)))
    }
}

/// The inputs on which camel-casing is defined: every word after an
/// underscore starts with a character of one UTF-8 byte (the conversion
/// slices a word after its first byte).
pub open spec fn camel_case_defined(s: Seq<char>) -> bool {
    let body = s.skip(camel_prefix_len(s));
    forall|j: int|
        1 <= j < body.len() && body[j - 1] == '_' && body[j] != '_' ==> is_ascii_char(#[trigger] body[j])
}

/// Whether the last cased character of `s` (since the last underscore) was
/// a lowercase one.
pub open spec fn after_lowercase(s: Seq<char>) -> bool
    decreases s.len(),
{
    if s.len() == 0 {
        false
    } else {
        let c = s.last();
        if c == '_' {
            false
        } else if has_lowercase_property(c) {
            true
        } else if has_uppercase_property(c) {
            false
        } else {
            after_lowercase(s.drop_last())
        }
    }
}

/// Whether an underscore goes in front of the last character of `s`: it is
/// an uppercase one that follows a lowercase one.
pub open spec fn snake_break_before_last(s: Seq<char>) -> bool {
    let c = s.last();
    c != '_' && !has_lowercase_property(c) && has_uppercase_property(c) && after_lowercase(
        s.drop_last(),
    )
}

/// `s` in `SCREAMING_SNAKE_CASE`: every character uppercased, with an
/// underscore inserted where a lowercase character is followed by an
/// uppercase one.
pub open spec fn upper_snake_case(s: Seq<char>) -> Seq<char>
    decreases s.len(),
{
    if s.len() == 0 {
        Seq::empty()
    } else {
        upper_snake_case(s.drop_last()) + (if snake_break_before_last(s) {
            seq!['_']
        } else {
            Seq::empty()
        }) + uppercase_mapping(s.last())
    }
}

/// The name that `policy` gives to `name`.
pub open spec fn apply_spec(policy: Policy, name: Seq<char>) -> Seq<char> {
    match policy {
        Policy::Unchanged => name,
        Policy::CamelCase => camel_case(name),
        Policy::ScreamingSnakeCase => upper_snake_case(name),
    }
}

/// The names on which `policy` is defined.
pub open spec fn apply_defined(policy: Policy, name: Seq<char>) -> bool {
    policy == Policy::CamelCase ==> camel_case_defined(name)
}

/// The policy that a `rename_all` value names, if any.
pub open spec fn policy_named(rule: Seq<char>) -> Option<Policy> {
    if rule == "none"@ {
        Some(Policy::Unchanged)
    } else if rule == "camelCase"@ {
        Some(Policy::CamelCase)
    } else if rule == "SCREAMING_SNAKE_CASE"@ {
        Some(Policy::ScreamingSnakeCase)
    } else {
        None
    }
}

impl Policy {
    /// Applies this policy to the given `name`.
    pub fn apply(&self, name: &str) -> (res: String)
        requires
            apply_defined(*self, name@),
        ensures
            res@ == apply_spec(*self, name@),
    {
        match self {
            Policy::Unchanged => String::from_str(name),
            Policy::CamelCase => to_camel_case(name),
            Policy::ScreamingSnakeCase => to_upper_snake_case(name),
        }
    }

    /// Parses a `rename_all` value: `none`, `camelCase` or
    /// `SCREAMING_SNAKE_CASE`; any other value is refused.
    pub fn from_str(rule: &str) -> (res: Result<Policy, ()>)
        ensures
            match policy_named(rule@) {
                Some(p) => res == Ok::<Policy, ()>(p),
                None => res is Err,
            },
    {
        if text_is(rule, "none") {
            Ok(Policy::Unchanged)
        } else if text_is(rule, "camelCase") {
            Ok(Policy::CamelCase)
        } else if text_is(rule, "SCREAMING_SNAKE_CASE") {
            Ok(Policy::ScreamingSnakeCase)
        } else {
            Err(())
        }
    }
}

/// Message of the error about an unknown `rename_all` value.
pub const UNKNOWN_POLICY: &'static str = "unknown renaming policy";

/// Parses the value of a `rename_all = "..."` argument; an unknown value is
/// refused with [`UNKNOWN_POLICY`].
pub fn try_from_lit(value: &str) -> (res: Result<Policy, &'static str>)
    ensures
        match policy_named(value@) {
            Some(p) => res == Ok::<Policy, &'static str>(p),
            None => res matches Err(m) && m@ == UNKNOWN_POLICY@,
        },
{
    match Policy::from_str(value) {
        Ok(p) => Ok(p),
        Err(()) => Err(UNKNOWN_POLICY),
    }
}

/// Whether `to_camel_case` is defined on `s` (see [`camel_case_defined`]).
pub fn camel_case_is_defined(s: &str) -> (res: bool)
    ensures
        res == camel_case_defined(s@),
{
    let cs = chars_of(s);
    let n = cs.len();
    let start: usize = if n >= 2 && cs[0] == '_' && cs[1] == '_' {
        2
    } else if n >= 1 && cs[0] == '_' {
        1
    } else {
        0
    };
    proof {
        lemma_prefix_len(s@);
    }
    let ghost body = s@.skip(start as int);
    let mut i: usize = start + 1;
    while i < n
        invariant
            cs@ == s@,
            n == cs.len(),
            start <= n,
            start == camel_prefix_len(s@),
            body == s@.skip(start as int),
            start + 1 <= i,
            forall|j: int|
                1 <= j < i - start && j < body.len() && body[j - 1] == '_' && body[j] != '_'
                    ==> is_ascii_char(#[trigger] body[j]),
        decreases n - i,
    {
        let c = cs[i];
        if cs[i - 1] == '_' && c != '_' && !((c as u32) < 128) {
            assert(body[(i - start) as int] == c);
            return false;
        }
        i += 1;
    }
    true
}

proof fn lemma_prefix_len(s: Seq<char>)
    ensures
        camel_prefix_len(s) == 2 <==> (s.len() >= 2 && s[0] == '_' && s[1] == '_'),
        camel_prefix_len(s) == 1 <==> (s.len() >= 1 && s[0] == '_' && !(s.len() >= 2 && s[1]
            == '_')),
        0 <= camel_prefix_len(s) <= 2,
        camel_prefix_len(s) <= s.len(),
{
    if s.len() >= 2 {
        assert(s.take(2)[0] == s[0]);
        assert(s.take(2)[1] == s[1]);
        if s[0] == '_' && s[1] == '_' {
            assert(s.take(2) =~= seq!['_', '_']);
        }
    }
    if s.len() >= 1 {
        assert(s.take(1)[0] == s[0]);
        if s[0] == '_' {
            assert(s.take(1) =~= seq!['_']);
        }
    }
}

/// Camel-casing characters that hold no underscore keeps them as they are.
proof fn lemma_camel_words_no_underscore(s: Seq<char>)
    requires
        !s.contains('_'),
    ensures
        camel_words(s) == s,
    decreases s.len(),
{
    if s.len() > 0 {
        let t = s.drop_last();
        assert(!t.contains('_')) by {
            if t.contains('_') {
                let k = choose|k: int| 0 <= k < t.len() && t[k] == '_';
                assert(s[k] == '_');
            }
        }
        lemma_camel_words_no_underscore(t);
        assert(s[s.len() - 1] != '_');
        assert(t.push(s.last()) =~= s);
    }
}

/// A name without underscores is its own `camelCase` form.
pub proof fn law_camel_case_keeps_plain_names(s: Seq<char>)
    requires
        !s.contains('_'),
    ensures
        camel_case_defined(s),
        camel_case(s) == s,
{
    lemma_prefix_len(s);
    if s.len() > 0 {
        assert(s[0] != '_');
    }
    assert(s.skip(0) =~= s);
    lemma_camel_words_no_underscore(s);
}

/// A single leading underscore (the Rust convention for unused names) makes
/// no difference to the `camelCase` form of a name.
pub proof fn law_camel_case_drops_single_underscore(t: Seq<char>)
    requires
        !starts_with(t, seq!['_']),
    ensures
        camel_case(seq!['_'] + t) == camel_case(t),
        camel_case_defined(seq!['_'] + t) == camel_case_defined(t),
{
    let s = seq!['_'] + t;
    lemma_prefix_len(s);
    lemma_prefix_len(t);
    assert(s[0] == '_');
    if t.len() > 0 {
        assert(s[1] == t[0]);
        assert(t[0] != '_') by {
            if t[0] == '_' {
                assert(t.take(1) =~= seq!['_']);
            }
        }
    }
    assert(s.skip(1) =~= t);
    assert(t.skip(0) =~= t);
}

/// A leading `__` (reserved for GraphQL introspection names) is kept by the
/// `camelCase` form of a name.
pub proof fn law_camel_case_keeps_introspection_prefix(t: Seq<char>)
    ensures
        starts_with(camel_case(seq!['_', '_'] + t), seq!['_', '_']),
{
    let s = seq!['_', '_'] + t;
    lemma_prefix_len(s);
    assert(s[0] == '_' && s[1] == '_');
    let c = camel_case(s);
    assert(c.take(2) =~= seq!['_', '_']);
}

/// Whether `s` is already in upper case: no character of it is lowercase,
/// and each is its own uppercase mapping.
pub open spec fn is_upper_already(s: Seq<char>) -> bool {
    forall|i: int|
        0 <= i < s.len() ==> !has_lowercase_property(#[trigger] s[i]) && uppercase_mapping(s[i])
            == seq![s[i]]
}

/// No character of an upper-case text follows a lowercase one.
proof fn lemma_upper_not_after_lowercase(s: Seq<char>)
    requires
        forall|i: int| 0 <= i < s.len() ==> !has_lowercase_property(#[trigger] s[i]),
    ensures
        !after_lowercase(s),
    decreases s.len(),
{
    if s.len() > 0 {
        let t = s.drop_last();
        assert forall|i: int| 0 <= i < t.len() implies !has_lowercase_property(#[trigger] t[i]) by {
            assert(t[i] == s[i]);
        }
        lemma_upper_not_after_lowercase(t);
        assert(!has_lowercase_property(s[s.len() - 1]));
    }
}

/// A name already in `SCREAMING_SNAKE_CASE` (no lowercase character, every
/// character its own uppercase) is kept as it is.
pub proof fn law_upper_snake_case_keeps_upper_names(s: Seq<char>)
    requires
        is_upper_already(s),
    ensures
        upper_snake_case(s) == s,
    decreases s.len(),
{
    if s.len() > 0 {
        let t = s.drop_last();
        assert forall|i: int| 0 <= i < t.len() implies !has_lowercase_property(#[trigger] t[i]) && uppercase_mapping(t[i]) == seq![t[i]] by {
            assert(t[i] == s[i]);
        }
        law_upper_snake_case_keeps_upper_names(t);
        lemma_upper_not_after_lowercase(t);
        assert(!snake_break_before_last(s));
        assert(uppercase_mapping(s.last()) == seq![s.last()]) by {
            assert(s.last() == s[s.len() - 1]);
        }
        assert(t + Seq::<char>::empty() + seq![s.last()] =~= s);
    }
}

/// The uppercase of an ASCII character: `a` to `z` become `A` to `Z`, the
/// others stay.
pub open spec fn ascii_upper(c: char) -> char {
    if 97 <= (c as u32) && (c as u32) <= 122 {
        ((c as u32) - 32) as char
    } else {
        c
    }
}

/// What std documents of the case of ASCII characters: the uppercase
/// mapping of one is its ASCII uppercase, the lowercase ones are `a` to
/// `z`, and the uppercase ones `A` to `Z`.
pub open spec fn ascii_case_facts() -> bool {
    &&& forall|c: char| is_ascii_char(c) ==> #[trigger] uppercase_mapping(c) == seq![ascii_upper(c)]
    &&& forall|c: char|
        is_ascii_char(c) ==> (#[trigger] has_lowercase_property(c) <==> (97 <= (c as u32) && (c as u32) <= 122))
    &&& forall|c: char|
        is_ascii_char(c) ==> (#[trigger] has_uppercase_property(c) <==> (65 <= (c as u32) && (c as u32) <= 90))
}

/// Whether every character of `s` is ASCII.
pub open spec fn all_ascii(s: Seq<char>) -> bool {
    forall|i: int| 0 <= i < s.len() ==> is_ascii_char(#[trigger] s[i])
}

/// The ASCII uppercase of a character is ASCII, not a lowercase letter, and
/// no underscore unless the character is one.
proof fn lemma_ascii_upper(c: char)
    requires
        is_ascii_char(c),
    ensures
        is_ascii_char(ascii_upper(c)),
        !(97 <= (ascii_upper(c) as u32) && (ascii_upper(c) as u32) <= 122),
        ascii_upper(c) == '_' <==> c == '_',
        !(97 <= (c as u32) && (c as u32) <= 122) ==> ascii_upper(c) == c,
{
    if 97 <= (c as u32) && (c as u32) <= 122 {
        let u = ((c as u32) - 32) as char;
        assert((u as u32) == (c as u32) - 32);
        assert(('_' as u32) == 95);
    }
}

/// The words of an ASCII text, camel-cased, hold no underscore.
proof fn lemma_camel_words_no_underscore_out(b: Seq<char>)
    requires
        ascii_case_facts(),
        all_ascii(b),
    ensures
        !camel_words(b).contains('_'),
    decreases b.len(),
{
    if b.len() > 0 {
        let t = b.drop_last();
        assert(all_ascii(t)) by {
            assert forall|i: int| 0 <= i < t.len() implies is_ascii_char(#[trigger] t[i]) by {
                assert(t[i] == b[i]);
            }
        }
        lemma_camel_words_no_underscore_out(t);
        let j = b.len() - 1;
        let c = b[j];
        assert(is_ascii_char(c));
        lemma_ascii_upper(c);
        let piece = camel_piece(b, j);
        assert(!piece.contains('_')) by {
            if c != '_' && j > 0 && b[j - 1] == '_' {
                assert(uppercase_mapping(c) == seq![ascii_upper(c)]);
                assert(piece =~= seq![ascii_upper(c)]);
                if piece.contains('_') {
                    let k = choose|k: int| 0 <= k < piece.len() && piece[k] == '_';
                    assert(k == 0);
                }
            } else if c != '_' {
                if piece.contains('_') {
                    let k = choose|k: int| 0 <= k < piece.len() && piece[k] == '_';
                    assert(k == 0);
                }
            }
        }
        let w = camel_words(t);
        assert(camel_words(b) == w + piece);
        if (w + piece).contains('_') {
            let k = choose|k: int| 0 <= k < (w + piece).len() && (w + piece)[k] == '_';
            if k < w.len() {
                assert(w[k] == '_');
            } else {
                assert(piece[k - w.len()] == '_');
            }
        }
    }
}

/// A text that holds no underscore after its kept prefix is one that
/// camel-casing is defined on.
proof fn lemma_defined_without_underscores(c: Seq<char>)
    requires
        !c.skip(camel_prefix_len(c)).contains('_'),
    ensures
        camel_case_defined(c),
{
    let body = c.skip(camel_prefix_len(c));
    assert forall|j: int| 1 <= j < body.len() && body[j - 1] == '_' && body[j] != '_' implies is_ascii_char(
        #[trigger] body[j],
    ) by {
        assert(body.contains(body[j - 1]));
    }
}

/// On ASCII names, `camelCase` is idempotent: a name once converted is its
/// own `camelCase` form (no underscore is left but a kept leading `__`).
pub proof fn law_camel_case_idempotent_on_ascii(s: Seq<char>)
    requires
        ascii_case_facts(),
        all_ascii(s),
    ensures
        camel_case_defined(s),
        camel_case_defined(camel_case(s)),
        camel_case(camel_case(s)) == camel_case(s),
{
    lemma_prefix_len(s);
    let p = camel_prefix_len(s);
    let body = s.skip(p);
    assert(all_ascii(body)) by {
        assert forall|i: int| 0 <= i < body.len() implies is_ascii_char(#[trigger] body[i]) by {
            assert(body[i] == s[i + p]);
        }
    }
    assert(camel_case_defined(s)) by {
        assert forall|j: int| 1 <= j < body.len() && body[j - 1] == '_' && body[j] != '_' implies is_ascii_char(
            #[trigger] body[j],
        ) by {}
    }
    lemma_camel_words_no_underscore_out(body);
    let w = camel_words(body);
    let c = camel_case(s);
    if p == 2 {
        assert(c == seq!['_', '_'] + w);
        lemma_prefix_len(c);
        assert(c[0] == '_' && c[1] == '_');
        assert(c.skip(2) =~= w);
        lemma_defined_without_underscores(c);
        lemma_camel_words_no_underscore(w);
    } else {
        assert(c == w);
        law_camel_case_keeps_plain_names(w);
    }
}

/// Every character of the `SCREAMING_SNAKE_CASE` form of an ASCII name is
/// ASCII and no lowercase letter.
proof fn lemma_upper_snake_case_out(s: Seq<char>)
    requires
        ascii_case_facts(),
        all_ascii(s),
    ensures
        forall|i: int|
            0 <= i < upper_snake_case(s).len() ==> is_ascii_char(#[trigger] upper_snake_case(s)[i]) && !(97
                <= (upper_snake_case(s)[i] as u32) && (upper_snake_case(s)[i] as u32) <= 122),
    decreases s.len(),
{
    if s.len() > 0 {
        let t = s.drop_last();
        assert(all_ascii(t)) by {
            assert forall|i: int| 0 <= i < t.len() implies is_ascii_char(#[trigger] t[i]) by {
                assert(t[i] == s[i]);
            }
        }
        lemma_upper_snake_case_out(t);
        let c = s.last();
        assert(is_ascii_char(c)) by {
            assert(c == s[s.len() - 1]);
        }
        lemma_ascii_upper(c);
        assert(('_' as u32) == 95);
        let mid: Seq<char> = if snake_break_before_last(s) {
            seq!['_']
        } else {
            Seq::empty()
        };
        let u = upper_snake_case(t);
        let r = u + mid + seq![ascii_upper(c)];
        assert(upper_snake_case(s) == r);
        assert forall|i: int| 0 <= i < r.len() implies is_ascii_char(#[trigger] r[i]) && !(97 <= (r[i] as u32) && (r[i]
            as u32) <= 122) by {
            if i < u.len() {
                assert(r[i] == u[i]);
            } else if i < u.len() + mid.len() {
                assert(r[i] == '_');
            } else {
                assert(r[i] == ascii_upper(c));
            }
        }
    }
}

/// On ASCII names, `SCREAMING_SNAKE_CASE` is idempotent: a converted name
/// holds no lowercase letter, so converting it again inserts no underscore
/// and changes no character.
pub proof fn law_upper_snake_case_idempotent_on_ascii(s: Seq<char>)
    requires
        ascii_case_facts(),
        all_ascii(s),
    ensures
        upper_snake_case(upper_snake_case(s)) == upper_snake_case(s),
{
    lemma_upper_snake_case_out(s);
    let u = upper_snake_case(s);
    assert forall|i: int| 0 <= i < u.len() implies !has_lowercase_property(#[trigger] u[i]) && uppercase_mapping(u[i])
        == seq![u[i]] by {
        let c = u[i];
        lemma_ascii_upper(c);
    }
    law_upper_snake_case_keeps_upper_names(u);
}

/// What std documents of the case of the ASCII character `c`.
pub open spec fn ascii_case_fact(c: char) -> bool {
    &&& uppercase_mapping(c) == seq![ascii_upper(c)]
    &&& (has_lowercase_property(c) <==> (97 <= (c as u32) && (c as u32) <= 122))
    &&& (has_uppercase_property(c) <==> (65 <= (c as u32) && (c as u32) <= 90))
}

/// Tests, through std, the ASCII case facts on each of the 128 ASCII
/// characters: the result is whether they hold.
#[verifier::spinoff_prover]
pub fn ascii_case_facts_hold() -> (ok: bool)
    ensures
        ok == ascii_case_facts(),
{
    let mut u: u8 = 0;
    while u < 128
        invariant
            u <= 128,
            forall|c: char| is_ascii_char(c) && (c as u32) < u ==> #[trigger] ascii_case_fact(c),
        decreases 128 - u,
    {
        let c = u as char;
        assert((c as u32) == u);
        let expected = if 97 <= u && u <= 122 {
            (u - 32) as char
        } else {
            c
        };
        assert(expected == ascii_upper(c));
        let up = to_uppercase(c);
        if !(up.len() == 1 && up[0] == expected) {
            assert(!ascii_case_fact(c)) by {
                if uppercase_mapping(c) == seq![ascii_upper(c)] {
                    assert(up@ == seq![expected]);
                }
            }
            assert(is_ascii_char(c));
            return false;
        }
        assert(up@ =~= seq![expected]);
        if is_lowercase(c) != (97 <= u && u <= 122) {
            assert(!ascii_case_fact(c));
            assert(is_ascii_char(c));
            return false;
        }
        if is_uppercase(c) != (65 <= u && u <= 90) {
            assert(!ascii_case_fact(c));
            assert(is_ascii_char(c));
            return false;
        }
        assert(ascii_case_fact(c));
        assert forall|d: char| is_ascii_char(d) && (d as u32) < u + 1 implies #[trigger] ascii_case_fact(d) by {
            if (d as u32) == u {
                vstd::utf8::char_u32_cast(d, d as u32);
                vstd::utf8::char_u32_cast(c, c as u32);
            }
        }
        u += 1;
    }
    assert forall|c: char| is_ascii_char(c) implies #[trigger] uppercase_mapping(c) == seq![ascii_upper(c)] by {
        assert(ascii_case_fact(c));
    }
    assert forall|c: char| is_ascii_char(c) implies #[trigger] has_lowercase_property(c) <==> (97 <= (c as u32) && (c
        as u32) <= 122) by {
        assert(ascii_case_fact(c));
    }
    assert forall|c: char| is_ascii_char(c) implies #[trigger] has_uppercase_property(c) <==> (65 <= (c as u32) && (c
        as u32) <= 90) by {
        assert(ascii_case_fact(c));
    }
    true
}

/// Whether `s` is an ASCII name on which both renamings are idempotent,
/// as the laws on ASCII names give once std's ASCII case is tested:
/// `camelCase` and `SCREAMING_SNAKE_CASE` forms converted again are left
/// as they are.
pub fn renaming_is_idempotent_on(s: &str) -> (res: bool)
    ensures
        res == (all_ascii(s@) && ascii_case_facts()),
        res ==> camel_case_defined(s@) && camel_case(camel_case(s@)) == camel_case(s@) && upper_snake_case(
            upper_snake_case(s@),
        ) == upper_snake_case(s@),
{
    let cs = chars_of(s);
    let mut i: usize = 0;
    while i < cs.len()
        invariant
            i <= cs@.len(),
            cs@ == s@,
            forall|j: int| 0 <= j < i ==> is_ascii_char(#[trigger] s@[j]),
        decreases cs@.len() - i,
    {
        if !((cs[i] as u32) < 128) {
            return false;
        }
        i += 1;
    }
    if !ascii_case_facts_hold() {
        return false;
    }
    proof {
        law_camel_case_idempotent_on_ascii(s@);
        law_upper_snake_case_idempotent_on_ascii(s@);
    }
    true
}

/// Renaming with [`Policy::Unchanged`] keeps every name as it is.
pub proof fn law_unchanged_policy_is_identity(name: Seq<char>)
    ensures
        apply_defined(Policy::Unchanged, name),
        apply_spec(Policy::Unchanged, name) == name,
{
}

/// Exactly the three documented `rename_all` values name a policy, and
/// each names a different one.
pub proof fn law_policy_names(rule: Seq<char>)
    ensures
        policy_named(rule) is Some <==> (rule == "none"@ || rule == "camelCase"@ || rule
            == "SCREAMING_SNAKE_CASE"@),
        policy_named("none"@) == Some(Policy::Unchanged),
        policy_named("camelCase"@) == Some(Policy::CamelCase),
        policy_named("SCREAMING_SNAKE_CASE"@) == Some(Policy::ScreamingSnakeCase),
{
    reveal_strlit("none");
    reveal_strlit("camelCase");
    reveal_strlit("SCREAMING_SNAKE_CASE");
    assert("none"@.len() == 4);
    assert("camelCase"@.len() == 9);
    assert("SCREAMING_SNAKE_CASE"@.len() == 20);
}

/// Converts `s` into `camelCase`: `first_second` becomes `firstSecond`, a
/// leading `_` is dropped and a leading `__` is kept.
pub fn to_camel_case(s: &str) -> (res: String)
    requires
        camel_case_defined(s@),
    ensures
        res@ == camel_case(s@),
{
    let cs = chars_of(s);
    let n = cs.len();
    let mut dest = String::new();
    let start: usize = if n >= 2 && cs[0] == '_' && cs[1] == '_' {
        push_char(&mut dest, '_');
        push_char(&mut dest, '_');
        2
    } else if n >= 1 && cs[0] == '_' {
        1
    } else {
        0
    };
    proof {
        lemma_prefix_len(s@);
    }
    let ghost prefix: Seq<char> = dest@;
    let ghost body = s@.skip(start as int);
    let mut i: usize = start;
    while i < n
        invariant
            cs@ == s@,
            n == cs.len(),
            start <= i <= n,
            body == s@.skip(start as int),
            dest@ == prefix + camel_words(body.take(i - start)),
        decreases n - i,
    {
        let c = cs[i];
        let ghost k = i - start;
        proof {
            assert(body.take(k + 1).drop_last() =~= body.take(k));
            assert(body.take(k + 1)[k] == c);
            if k > 0 {
                assert(body.take(k + 1)[k - 1] == cs@[i - 1]);
            }
        }
        if c == '_' {
        } else if i > start && cs[i - 1] == '_' {
            let up = to_uppercase(c);
            push_chars(&mut dest, &up);
        } else {
            push_char(&mut dest, c);
        }
        assert(dest@ == prefix + camel_words(body.take(k + 1)));
        i += 1;
    }
    assert(body.take(n - start) =~= body);
    proof {
        if start == 2 {
            assert(prefix =~= seq!['_', '_']);
        } else {
            assert(prefix =~= Seq::<char>::empty());
        }
    }
    dest
}

/// Converts `s` into `SCREAMING_SNAKE_CASE`: `someInput` becomes
/// `SOME_INPUT`.
pub fn to_upper_snake_case(s: &str) -> (res: String)
    ensures
        res@ == upper_snake_case(s@),
{
    let cs = chars_of(s);
    let n = cs.len();
    let mut last_lower = false;
    let mut upper = String::new();
    let mut i: usize = 0;
    while i < n
        invariant
            cs@ == s@,
            n == cs.len(),
            i <= n,
            last_lower == after_lowercase(s@.take(i as int)),
            upper@ == upper_snake_case(s@.take(i as int)),
        decreases n - i,
    {
        let c = cs[i];
        let ghost pre = s@.take(i as int);
        let ghost now = s@.take(i + 1);
        proof {
            assert(now.drop_last() =~= pre);
            assert(now.last() == c);
        }
        if c == '_' {
            last_lower = false;
        } else if is_lowercase(c) {
            last_lower = true;
        } else if is_uppercase(c) {
            if last_lower {
                push_char(&mut upper, '_');
            }
            last_lower = false;
        }
        let up = to_uppercase(c);
        push_chars(&mut upper, &up);
        proof {
            if snake_break_before_last(now) {
                assert(upper@ == upper_snake_case(pre) + seq!['_'] + uppercase_mapping(c));
            } else {
                assert(upper@ =~= upper_snake_case(pre) + Seq::<char>::empty() + uppercase_mapping(c));
            }
        }
        i += 1;
    }
    assert(s@.take(n as int) =~= s@);
    upper
}

} // verus!

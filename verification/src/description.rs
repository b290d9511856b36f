//! GraphQL descriptions: the text put into the schema from
//! `#[graphql(description = ...)]` or from Rust doc comments.
use vstd::prelude::*;

use crate::text::{chars_of, has_whitespace_property, is_whitespace, push_char};

verus! {

/// `s` without its trailing white space.
pub open spec fn trim_end(s: Seq<char>) -> Seq<char>
    decreases s.len(),
{
    if s.len() > 0 && has_whitespace_property(s.last()) {
        trim_end(s.drop_last())
    } else {
        s
    }
}

/// `s` without its trailing backslashes.
pub open spec fn trim_backslashes(s: Seq<char>) -> Seq<char>
    decreases s.len(),
{
    if s.len() > 0 && s.last() == '\\' {
        trim_backslashes(s.drop_last())
    } else {
        s
    }
}

/// A doc line as it enters a description: trailing white space removed,
/// then one leading space removed if there is one.
pub open spec fn norm_line(s: Seq<char>) -> Seq<char> {
    let t = trim_end(s);
    if t.len() > 0 && t[0] == ' ' {
        t.drop_first()
    } else {
        t
    }
}

/// What a doc line contributes: the last line as it is; a line ending in a
/// continuation backslash without its backslashes and followed by a space;
/// any other line followed by a line feed.
pub open spec fn line_piece(s: Seq<char>, is_last: bool) -> Seq<char> {
    let t = norm_line(s);
    if is_last {
        t
    } else if t.len() > 0 && t.last() == '\\' {
        trim_backslashes(t).push(' ')
    } else {
        t.push('\n')
    }
}

/// The pieces of the first `k` of `lines`, concatenated.
pub open spec fn joined_upto(lines: Seq<Seq<char>>, k: int) -> Seq<char>
    decreases k,
{
    if k <= 0 {
        Seq::empty()
    } else {
        joined_upto(lines, k - 1) + line_piece(lines[k - 1], k - 1 == lines.len() - 1)
    }
}

/// The description made of the doc lines `lines`.
pub open spec fn concatenated(lines: Seq<Seq<char>>) -> Seq<char> {
    joined_upto(lines, lines.len() as int)
}

/// The views of the strings of `v`.
pub open spec fn string_views(v: Seq<String>) -> Seq<Seq<char>> {
    v.map_values(|s: String| s@)
}

/// Where the characters of `norm_line(cs)` lie in `cs`.
fn norm_bounds(cs: &Vec<char>) -> (res: (usize, usize))
    ensures
        res.0 <= res.1 <= cs@.len(),
        norm_line(cs@) == cs@.subrange(res.0 as int, res.1 as int),
{
    let mut end = cs.len();
    assert(cs@.take(end as int) =~= cs@);
    while end > 0 && is_whitespace(cs[end - 1])
        invariant
            end <= cs@.len(),
            trim_end(cs@) == trim_end(cs@.take(end as int)),
        decreases end,
    {
        assert(cs@.take(end as int).drop_last() =~= cs@.take(end - 1));
        end -= 1;
    }
    assert(trim_end(cs@.take(end as int)) == cs@.take(end as int));
    let start: usize = if end > 0 && cs[0] == ' ' {
        1
    } else {
        0
    };
    if end > 0 {
        assert(cs@.take(end as int).drop_first() =~= cs@.subrange(1, end as int));
    }
    assert(cs@.take(end as int) =~= cs@.subrange(0, end as int));
    (start, end)
}

/// Where the characters of `trim_backslashes(cs[start..end])` end.
fn backslash_bound(cs: &Vec<char>, start: usize, end: usize) -> (res: usize)
    requires
        start <= end <= cs@.len(),
    ensures
        start <= res <= end,
        trim_backslashes(cs@.subrange(start as int, end as int)) == cs@.subrange(
            start as int,
            res as int,
        ),
{
    let mut e = end;
    while e > start && cs[e - 1] == '\\'
        invariant
            start <= e <= end,
            end <= cs@.len(),
            trim_backslashes(cs@.subrange(start as int, end as int)) == trim_backslashes(
                cs@.subrange(start as int, e as int),
            ),
        decreases e,
    {
        assert(cs@.subrange(start as int, e as int).drop_last() =~= cs@.subrange(
            start as int,
            e - 1,
        ));
        e -= 1;
    }
    e
}

fn push_range(buf: &mut String, cs: &Vec<char>, start: usize, end: usize)
    requires
        start <= end <= cs@.len(),
    ensures
        final(buf)@ == old(buf)@ + cs@.subrange(start as int, end as int),
{
    let mut i = start;
    while i < end
        invariant
            start <= i <= end,
            end <= cs@.len(),
            buf@ == old(buf)@ + cs@.subrange(start as int, i as int),
        decreases end - i,
    {
        push_char(buf, cs[i]);
        i += 1;
        assert(cs@.subrange(start as int, i as int) =~= cs@.subrange(start as int, i - 1).push(
            cs@[i - 1],
        ));
    }
}

/// Concatenates doc lines into a single description: lines are joined by
/// line feeds, except that a line ending in a continuation backslash is
/// joined to the next one by a space.
pub fn concatenate(descriptions: &[String]) -> (res: String)
    requires
        descriptions@.len() > 0,
    ensures
        res@ == concatenated(string_views(descriptions@)),
{
    let ghost lines = string_views(descriptions@);
    let last_index = descriptions.len() - 1;
    let mut buffer = String::new();
    let mut index: usize = 0;
    while index < descriptions.len()
        invariant
            lines == string_views(descriptions@),
            last_index == descriptions@.len() - 1,
            index <= descriptions@.len(),
            buffer@ == joined_upto(lines, index as int),
        decreases descriptions@.len() - index,
    {
        let cs = chars_of(descriptions[index].as_str());
        assert(cs@ == lines[index as int]);
        let (start, end) = norm_bounds(&cs);
        let ghost t = norm_line(cs@);
        if index == last_index {
            push_range(&mut buffer, &cs, start, end);
        } else if end > start && cs[end - 1] == '\\' {
            let e = backslash_bound(&cs, start, end);
            push_range(&mut buffer, &cs, start, e);
            push_char(&mut buffer, ' ');
        } else {
            push_range(&mut buffer, &cs, start, end);
            push_char(&mut buffer, '\n');
        }
        assert(buffer@ == joined_upto(lines, index as int) + line_piece(
            lines[index as int],
            index == lines.len() - 1,
        ));
        index += 1;
    }
    buffer
}

/// Adding a line after the others leaves the pieces of all lines but the
/// last one as they were.
proof fn lemma_joined_prefix(lines: Seq<Seq<char>>, l: Seq<char>, k: int)
    requires
        0 <= k < lines.len(),
    ensures
        joined_upto(lines.push(l), k) == joined_upto(lines, k),
    decreases k,
{
    if k > 0 {
        lemma_joined_prefix(lines, l, k - 1);
        assert(lines.push(l)[k - 1] == lines[k - 1]);
    }
}

/// A description of a single doc line is that line, without its trailing
/// white space and one leading space.
pub proof fn law_single_line(l: Seq<char>)
    ensures
        concatenated(seq![l]) == norm_line(l),
{
    assert(joined_upto(seq![l], 0) == Seq::<char>::empty());
    assert(Seq::<char>::empty() + norm_line(l) =~= norm_line(l));
}

/// Adding a doc line after others: the former last line is joined to the
/// new one by a line feed, or, if it ends in a continuation backslash, by a
/// space in place of its backslashes.
pub proof fn law_add_line(lines: Seq<Seq<char>>, l: Seq<char>)
    requires
        lines.len() > 0,
    ensures
        concatenated(lines) == joined_upto(lines, lines.len() - 1) + norm_line(lines.last()),
        concatenated(lines.push(l)) == joined_upto(lines, lines.len() - 1) + line_piece(
            lines.last(),
            false,
        ) + norm_line(l),
        !(norm_line(lines.last()).len() > 0 && norm_line(lines.last()).last() == '\\')
            ==> concatenated(lines.push(l)) == concatenated(lines) + seq!['\n'] + norm_line(l),
{
    let n = lines.len() as int;
    let m = lines.push(l);
    lemma_joined_prefix(lines, l, n - 1);
    assert(m[n - 1] == lines.last());
    assert(m[n] == l);
    assert(joined_upto(m, n) == joined_upto(lines, n - 1) + line_piece(lines.last(), false));
    let t = norm_line(lines.last());
    if !(t.len() > 0 && t.last() == '\\') {
        assert(joined_upto(lines, n - 1) + t.push('\n') + norm_line(l) =~= joined_upto(lines, n - 1)
            + t + seq!['\n'] + norm_line(l));
    }
}

/// A GraphQL description.
pub struct Description {
    pub text: String,
}

/// One attribute of an item, as far as its description is concerned.
pub enum DocAttr {
    /// `#[doc = "..."]`, or a doc comment, with the text of its literal.
    Text(String),
    /// `#[doc = ...]` whose value is not a string literal.
    NotString,
    /// Any other attribute.
    Other,
}

/// A description taken from doc attributes, with the position of the first
/// of them (where the description points at).
pub struct DocDescription {
    pub first: usize,
    pub description: Description,
}

/// The texts of the doc attributes among the first `k` of `attrs`.
pub open spec fn doc_texts(attrs: Seq<DocAttr>, k: int) -> Seq<Seq<char>>
    decreases k,
{
    if k <= 0 {
        Seq::empty()
    } else {
        match attrs[k - 1] {
            DocAttr::Text(t) => doc_texts(attrs, k - 1).push(t@),
            _ => doc_texts(attrs, k - 1),
        }
    }
}

/// Whether the attribute at `i` is a doc text.
pub open spec fn is_text(a: DocAttr) -> bool {
    a matches DocAttr::Text(_)
}

/// Whether the attribute at `i` is a doc attribute with a non-string value.
pub open spec fn is_not_string(a: DocAttr) -> bool {
    a matches DocAttr::NotString
}

/// Parses a description from doc attributes: the texts of all of them,
/// concatenated; none when there is no doc attribute; refused at the first
/// doc attribute whose value is not a string literal.
pub fn parse_from_doc_attrs(attrs: &[DocAttr]) -> (res: Result<Option<DocDescription>, usize>)
    ensures
        match res {
            Err(i) => i < attrs@.len() && is_not_string(attrs@[i as int]) && forall|j: int|
                0 <= j < i ==> !is_not_string(#[trigger] attrs@[j]),
            Ok(None) => forall|j: int| 0 <= j < attrs@.len() ==> !is_text(#[trigger] attrs@[j]) && !is_not_string(attrs@[j]),
            Ok(Some(d)) => {
                &&& d.first < attrs@.len()
                &&& is_text(attrs@[d.first as int])
                &&& forall|j: int| 0 <= j < d.first ==> !is_text(#[trigger] attrs@[j])
                &&& forall|j: int| 0 <= j < attrs@.len() ==> !is_not_string(#[trigger] attrs@[j])
                &&& d.description.text@ == concatenated(doc_texts(attrs@, attrs@.len() as int))
            },
        },
{
    let mut first: Option<usize> = None;
    let mut descriptions: Vec<String> = Vec::new();
    let mut i: usize = 0;
    while i < attrs.len()
        invariant
            i <= attrs@.len(),
            string_views(descriptions@) == doc_texts(attrs@, i as int),
            forall|j: int| 0 <= j < i ==> !is_not_string(#[trigger] attrs@[j]),
            match first {
                None => forall|j: int| 0 <= j < i ==> !is_text(#[trigger] attrs@[j]),
                Some(f) => f < i && is_text(attrs@[f as int]) && forall|j: int|
                    0 <= j < f ==> !is_text(#[trigger] attrs@[j]),
            },
            first is None <==> descriptions@.len() == 0,
        decreases attrs@.len() - i,
    {
        match &attrs[i] {
            DocAttr::Text(t) => {
                if first.is_none() {
                    first = Some(i);
                }
                descriptions.push(t.clone());
                assert(string_views(descriptions@) =~= string_views(descriptions@.drop_last()).push(t@));
            },
            DocAttr::NotString => {
                return Err(i);
            },
            DocAttr::Other => {},
        }
        i += 1;
    }
    match first {
        None => Ok(None),
        Some(f) => {
            let text = concatenate(descriptions.as_slice());
            Ok(Some(DocDescription { first: f, description: Description { text } }))
        },
    }
}

} // verus!

//! GraphQL fields (and enum values): the arguments of their `#[graphql]`
//! attribute, and the check that their names differ.
use vstd::prelude::*;

use crate::attr::{merge_opt, merge_option, opt_opt_view, opt_view};
use crate::deprecation::{
    is_deprecated_attr, meta_list_spec, DeprecatedAttr, DeprecationError, Directive,
};
use crate::description::{
    concatenated, doc_texts, is_not_string, is_text, parse_from_doc_attrs, DocAttr,
};
use crate::text::text_is;

verus! {

/// The arguments that `#[graphql(...)]` takes on a field or an enum value.
#[derive(Clone, Copy, Debug, PartialEq, Eq, Structural)]
pub enum FieldArgKey {
    /// `name = "..."`.
    Name,
    /// `desc = "..."` or `description = "..."`.
    Description,
    /// `deprecated` or `deprecated = "..."`.
    Deprecated,
    /// `ignore` or `skip`.
    Ignore,
}

/// The argument that `ident` names, if any.
pub open spec fn field_arg_key_spec(ident: Seq<char>) -> Option<FieldArgKey> {
    if ident == "name"@ {
        Some(FieldArgKey::Name)
    } else if ident == "desc"@ || ident == "description"@ {
        Some(FieldArgKey::Description)
    } else if ident == "deprecated"@ {
        Some(FieldArgKey::Deprecated)
    } else if ident == "ignore"@ || ident == "skip"@ {
        Some(FieldArgKey::Ignore)
    } else {
        None
    }
}

/// The keywords that name an argument here are exactly `name`, `desc`, `description`, `deprecated`, `ignore`, `skip`, each naming
/// the argument listed.
pub proof fn law_field_keywords(ident: Seq<char>)
    ensures
        ident == "name"@ ==> field_arg_key_spec(ident) == Some(FieldArgKey::Name),
        ident == "desc"@ ==> field_arg_key_spec(ident) == Some(FieldArgKey::Description),
        ident == "description"@ ==> field_arg_key_spec(ident) == Some(FieldArgKey::Description),
        ident == "deprecated"@ ==> field_arg_key_spec(ident) == Some(FieldArgKey::Deprecated),
        ident == "ignore"@ ==> field_arg_key_spec(ident) == Some(FieldArgKey::Ignore),
        ident == "skip"@ ==> field_arg_key_spec(ident) == Some(FieldArgKey::Ignore),
        field_arg_key_spec(ident) is Some ==> (ident == "name"@ || ident == "desc"@ || ident == "description"@ || ident == "deprecated"@ || ident == "ignore"@ || ident == "skip"@),
{
    reveal_strlit("name");
    reveal_strlit("desc");
    reveal_strlit("description");
    reveal_strlit("deprecated");
    reveal_strlit("ignore");
    reveal_strlit("skip");
    assert("name"@[0] != "desc"@[0]);
    assert("name"@.len() != "description"@.len());
    assert("name"@.len() != "deprecated"@.len());
    assert("name"@.len() != "ignore"@.len());
    assert("name"@[0] != "skip"@[0]);
    assert("desc"@.len() != "description"@.len());
    assert("desc"@.len() != "deprecated"@.len());
    assert("desc"@.len() != "ignore"@.len());
    assert("desc"@[0] != "skip"@[0]);
    assert("description"@.len() != "deprecated"@.len());
    assert("description"@.len() != "ignore"@.len());
    assert("description"@.len() != "skip"@.len());
    assert("deprecated"@.len() != "ignore"@.len());
    assert("deprecated"@.len() != "skip"@.len());
    assert("ignore"@.len() != "skip"@.len());
}

/// The argument that `ident` names; `None` for an unknown argument.
pub fn field_arg_key(ident: &str) -> (res: Option<FieldArgKey>)
    ensures
        res == field_arg_key_spec(ident@),
        ident@ == "name"@ ==> res == Some(FieldArgKey::Name),
        ident@ == "desc"@ ==> res == Some(FieldArgKey::Description),
        ident@ == "description"@ ==> res == Some(FieldArgKey::Description),
        ident@ == "deprecated"@ ==> res == Some(FieldArgKey::Deprecated),
        ident@ == "ignore"@ ==> res == Some(FieldArgKey::Ignore),
        ident@ == "skip"@ ==> res == Some(FieldArgKey::Ignore),
        res is Some ==> (ident@ == "name"@ || ident@ == "desc"@ || ident@ == "description"@ || ident@ == "deprecated"@ || ident@ == "ignore"@ || ident@ == "skip"@),
{
    proof {
        reveal_strlit("name");
        reveal_strlit("desc");
        reveal_strlit("description");
        reveal_strlit("deprecated");
        reveal_strlit("ignore");
        reveal_strlit("skip");
        assert("name"@[0] != "desc"@[0]);
        assert("name"@.len() != "description"@.len());
        assert("name"@.len() != "deprecated"@.len());
        assert("name"@.len() != "ignore"@.len());
        assert("name"@[0] != "skip"@[0]);
        assert("desc"@.len() != "description"@.len());
        assert("desc"@.len() != "deprecated"@.len());
        assert("desc"@.len() != "ignore"@.len());
        assert("desc"@[0] != "skip"@[0]);
        assert("description"@.len() != "deprecated"@.len());
        assert("description"@.len() != "ignore"@.len());
        assert("description"@.len() != "skip"@.len());
        assert("deprecated"@.len() != "ignore"@.len());
        assert("deprecated"@.len() != "skip"@.len());
        assert("ignore"@.len() != "skip"@.len());
    }
    if text_is(ident, "name") {
        Some(FieldArgKey::Name)
    } else if text_is(ident, "desc") || text_is(ident, "description") {
        Some(FieldArgKey::Description)
    } else if text_is(ident, "deprecated") {
        Some(FieldArgKey::Deprecated)
    } else if text_is(ident, "ignore") || text_is(ident, "skip") {
        Some(FieldArgKey::Ignore)
    } else {
        None
    }
}

/// One argument of `#[graphql(...)]` on a field, with its value.
pub enum FieldArg {
    Name(String),
    Description(String),
    /// The deprecation, with its reason if one is given.
    Deprecated(Option<String>),
    Ignore,
}

/// Which argument `a` is.
pub open spec fn key_of(a: FieldArg) -> FieldArgKey {
    match a {
        FieldArg::Name(_) => FieldArgKey::Name,
        FieldArg::Description(_) => FieldArgKey::Description,
        FieldArg::Deprecated(_) => FieldArgKey::Deprecated,
        FieldArg::Ignore => FieldArgKey::Ignore,
    }
}

/// The arguments given by `#[graphql(...)]` attributes on a field.
pub struct FieldAttr {
    /// Explicit GraphQL name.
    pub name: Option<String>,
    /// Explicit description.
    pub description: Option<String>,
    /// Explicit deprecation, with its reason if one is given.
    pub deprecated: Option<Option<String>>,
    /// Whether the field is left out of the GraphQL definition.
    pub ignore: bool,
}

/// A [`FieldAttr`] as a value.
pub struct FieldAttrView {
    pub name: Option<Seq<char>>,
    pub description: Option<Seq<char>>,
    pub deprecated: Option<Option<Seq<char>>>,
    pub ignore: bool,
}

impl FieldAttr {
    pub open spec fn view(&self) -> FieldAttrView {
        FieldAttrView {
            name: opt_view(self.name),
            description: opt_view(self.description),
            deprecated: opt_opt_view(self.deprecated),
            ignore: self.ignore,
        }
    }
}

/// The value of an attribute with no argument.
pub open spec fn empty_view() -> FieldAttrView {
    FieldAttrView { name: None, description: None, deprecated: None, ignore: false }
}

/// Whether argument `k` is already given in `v`.
pub open spec fn has_key(v: FieldAttrView, k: FieldArgKey) -> bool {
    match k {
        FieldArgKey::Name => v.name is Some,
        FieldArgKey::Description => v.description is Some,
        FieldArgKey::Deprecated => v.deprecated is Some,
        FieldArgKey::Ignore => v.ignore,
    }
}

/// `v` with the argument `a` given.
pub open spec fn with_arg(v: FieldAttrView, a: FieldArg) -> FieldAttrView {
    match a {
        FieldArg::Name(s) => FieldAttrView { name: Some(s@), ..v },
        FieldArg::Description(s) => FieldAttrView { description: Some(s@), ..v },
        FieldArg::Deprecated(r) => FieldAttrView { deprecated: Some(opt_view(r)), ..v },
        FieldArg::Ignore => FieldAttrView { ignore: true, ..v },
    }
}

/// The arguments of one attribute, read in order: each is recorded, and the
/// first one given a second time is refused, by its position.
pub open spec fn parse_spec(args: Seq<FieldArg>) -> Result<FieldAttrView, int>
    decreases args.len(),
{
    if args.len() == 0 {
        Ok(empty_view())
    } else {
        match parse_spec(args.drop_last()) {
            Err(i) => Err(i),
            Ok(v) => if has_key(v, key_of(args.last())) {
                Err(args.len() - 1)
            } else {
                Ok(with_arg(v, args.last()))
            },
        }
    }
}

/// A refused prefix makes the whole argument list refused, at the same
/// position.
proof fn lemma_parse_error_stays(args: Seq<FieldArg>, k: int)
    requires
        0 <= k <= args.len(),
        parse_spec(args.take(k)) is Err,
    ensures
        parse_spec(args) == parse_spec(args.take(k)),
    decreases args.len() - k,
{
    if k < args.len() {
        assert(args.take(k + 1).drop_last() =~= args.take(k));
        lemma_parse_error_stays(args, k + 1);
    } else {
        assert(args.take(k) =~= args);
    }
}

/// The first argument given by both `a` and `b`, in declaration order.
pub open spec fn first_common_key(a: FieldAttrView, b: FieldAttrView) -> Option<FieldArgKey> {
    if a.name is Some && b.name is Some {
        Some(FieldArgKey::Name)
    } else if a.description is Some && b.description is Some {
        Some(FieldArgKey::Description)
    } else if a.deprecated is Some && b.deprecated is Some {
        Some(FieldArgKey::Deprecated)
    } else if a.ignore && b.ignore {
        Some(FieldArgKey::Ignore)
    } else {
        None
    }
}

/// The arguments of `a` and `b` together, when no argument is in both.
pub open spec fn merge_spec(a: FieldAttrView, b: FieldAttrView) -> FieldAttrView {
    FieldAttrView {
        name: merge_opt(a.name, b.name)->0,
        description: merge_opt(a.description, b.description)->0,
        deprecated: merge_opt(a.deprecated, b.deprecated)->0,
        ignore: a.ignore || b.ignore,
    }
}

/// Why the arguments of a field are refused as a whole.
#[derive(Clone, Copy, Debug, PartialEq, Eq, Structural)]
pub enum FieldAttrError {
    /// `ignore` is given together with other arguments.
    IgnoreNotComposable,
    /// The doc attribute at this position has a non-string value.
    Doc(usize),
    /// The `#[deprecated]` attribute at this position is refused.
    Deprecation(usize, DeprecationError),
}

/// Message of [`FieldAttrError::IgnoreNotComposable`].
pub const IGNORE_NOT_COMPOSABLE: &'static str = "`ignore` attribute argument is not composable with any other arguments";

/// Message of [`FieldAttrError::Doc`].
pub const DOC_NOT_STRING: &'static str = "#[doc] attributes may only have a string literal";

impl FieldAttr {
    /// An attribute with no argument.
    pub fn new() -> (res: FieldAttr)
        ensures
            res.view() == empty_view(),
    {
        FieldAttr { name: None, description: None, deprecated: None, ignore: false }
    }

    /// Records the argument `x`, at position `i` of its attribute, after
    /// those already recorded; refused, by its position, where it is given a
    /// second time: the step by which the arguments of one attribute are
    /// read.
    pub fn add(self, x: &FieldArg, i: usize) -> (res: Result<FieldAttr, usize>)
        ensures
            forall|before: Seq<FieldArg>|
                before.len() == i && parse_spec(before) == Ok::<FieldAttrView, int>(self.view()) ==> match #[trigger] parse_spec(
                    before.push(*x),
                ) {
                    Ok(v) => res matches Ok(a) && a.view() == v,
                    Err(j) => res matches Err(e) && e == j,
                },
    {
        let mut out = self;
        proof {
            assert forall|before: Seq<FieldArg>| before.len() == i implies #[trigger] before.push(*x).drop_last() == before by {
                assert(before.push(*x).drop_last() =~= before);
            }
        }
        let dup = match x {
            FieldArg::Name(_) => out.name.is_some(),
            FieldArg::Description(_) => out.description.is_some(),
            FieldArg::Deprecated(_) => out.deprecated.is_some(),
            FieldArg::Ignore => out.ignore,
        };
        if dup {
            return Err(i);
        }
        match x {
            FieldArg::Name(s) => out.name = Some(s.clone()),
            FieldArg::Description(s) => out.description = Some(s.clone()),
            FieldArg::Deprecated(r) => out.deprecated = Some(
                match r {
                    Some(t) => Some(t.clone()),
                    None => None,
                },
            ),
            FieldArg::Ignore => out.ignore = true,
        }
        Ok(out)
    }

    /// Records the arguments of one `#[graphql(...)]` attribute, refusing
    /// the first argument given twice, by its position.
    pub fn parse(args: &[FieldArg]) -> (res: Result<FieldAttr, usize>)
        ensures
            match parse_spec(args@) {
                Ok(v) => res matches Ok(a) && a.view() == v,
                Err(i) => res == Err::<FieldAttr, usize>(i as usize),
            },
    {
        let mut out = FieldAttr::new();
        let mut i: usize = 0;
        while i < args.len()
            invariant
                i <= args@.len(),
                parse_spec(args@.take(i as int)) == Ok::<FieldAttrView, int>(out.view()),
            decreases args@.len() - i,
        {
            let ghost pre = args@.take(i as int);
            proof {
                assert(args@.take(i + 1).drop_last() =~= pre);
                assert(args@.take(i + 1).last() == args@[i as int]);
            }
            out = match out.add(&args[i], i) {
                Ok(r) => r,
                Err(e) => {
                    proof {
                        assert(pre.push(args@[i as int]) =~= args@.take(i + 1));
                        lemma_parse_error_stays(args@, i + 1);
                    }
                    return Err(e);
                },
            };
            proof {
                assert(pre.push(args@[i as int]) =~= args@.take(i + 1));
            }
            i += 1;
        }
        assert(args@.take(args@.len() as int) =~= args@);
        Ok(out)
    }

    /// Merges the arguments of two attributes, refusing the first argument
    /// (in declaration order) that both give.
    pub fn try_merge(self, another: FieldAttr) -> (res: Result<FieldAttr, FieldArgKey>)
        ensures
            match first_common_key(self.view(), another.view()) {
                Some(k) => res == Err::<FieldAttr, FieldArgKey>(k),
                None => res matches Ok(a) && a.view() == merge_spec(self.view(), another.view()),
            },
    {
        let name = match merge_option(self.name, another.name) {
            Ok(v) => v,
            Err(_) => return Err(FieldArgKey::Name),
        };
        let description = match merge_option(self.description, another.description) {
            Ok(v) => v,
            Err(_) => return Err(FieldArgKey::Description),
        };
        let deprecated = match merge_option(self.deprecated, another.deprecated) {
            Ok(v) => v,
            Err(_) => return Err(FieldArgKey::Deprecated),
        };
        if self.ignore && another.ignore {
            return Err(FieldArgKey::Ignore);
        }
        Ok(FieldAttr { name, description, deprecated, ignore: self.ignore || another.ignore })
    }

    /// Completes the merged arguments of a field: `ignore` must stand
    /// alone; a missing description is taken from the doc attributes
    /// `docs`, and a missing deprecation from the `#[deprecated]` attributes
    /// `deprecations`.
    pub fn from_attrs(self, docs: &[DocAttr], deprecations: &[DeprecatedAttr]) -> (res: Result<FieldAttr, FieldAttrError>)
        ensures
            self.ignore && (self.name is Some || self.description is Some || self.deprecated is Some)
                ==> res == Err::<FieldAttr, FieldAttrError>(FieldAttrError::IgnoreNotComposable),
            !(self.ignore && (self.name is Some || self.description is Some || self.deprecated is Some))
                ==> from_attrs_ok(self.view(), docs@, deprecations@, res),
    {
        if self.ignore && (self.name.is_some() || self.description.is_some() || self.deprecated.is_some()) {
            return Err(FieldAttrError::IgnoreNotComposable);
        }
        let mut attr = self;
        if attr.description.is_none() {
            match parse_from_doc_attrs(docs) {
                Err(i) => {
                    proof {
                        lemma_doc_error(docs@, i as int);
                    }
                    return Err(FieldAttrError::Doc(i));
                },
                Ok(Some(d)) => {
                    proof {
                        assert(is_text(docs@[d.first as int]));
                        assert(doc_error(docs@) is None);
                    }
                    attr.description = Some(d.description.text);
                },
                Ok(None) => {
                    proof {
                        assert(doc_error(docs@) is None);
                        assert(doc_description(docs@) is None);
                    }
                },
            }
        }
        let ghost v1 = attr.view();
        if attr.deprecated.is_none() {
            match Directive::parse_from_deprecated_attr(deprecations) {
                Err((i, e)) => {
                    proof {
                        lemma_first_deprecated(deprecations@, i as int);
                    }
                    return Err(FieldAttrError::Deprecation(i, e));
                },
                Ok(Some((i, d))) => {
                    proof {
                        lemma_first_deprecated(deprecations@, i as int);
                    }
                    proof {
                        assert(deprecated_meaning(deprecations@[i as int]) == Ok::<Option<Seq<char>>, DeprecationError>(opt_view(d.reason)));
                    }
                    attr.deprecated = Some(d.reason);
                    assert(attr.view() == FieldAttrView { deprecated: Some(opt_view(d.reason)), ..v1 });
                },
                Ok(None) => {
                    assert(first_deprecated(deprecations@) is None);
                },
            }
        }
        Ok(attr)
    }
}

/// Merging with an attribute that gives no argument changes nothing.
pub proof fn law_merge_with_empty(a: FieldAttrView)
    ensures
        first_common_key(a, empty_view()) is None,
        first_common_key(empty_view(), a) is None,
        merge_spec(a, empty_view()) == a,
        merge_spec(empty_view(), a) == a,
{
}

/// Merging attributes does not depend on their order: the same argument is
/// refused, or the same arguments result.
pub proof fn law_merge_commutes(a: FieldAttrView, b: FieldAttrView)
    ensures
        first_common_key(a, b) == first_common_key(b, a),
        first_common_key(a, b) is None ==> merge_spec(a, b) == merge_spec(b, a),
{
}

/// Arguments split over two `#[graphql]` attributes mean what they mean in
/// a single one: the two are accepted together exactly when each is and
/// they give no argument in common, and then they give the same
/// arguments.
pub proof fn law_split_attributes(a: Seq<FieldArg>, b: Seq<FieldArg>)
    ensures
        parse_spec(a + b) is Ok <==> (parse_spec(a) is Ok && parse_spec(b) is Ok
            && first_common_key(parse_spec(a)->Ok_0, parse_spec(b)->Ok_0) is None),
        parse_spec(a + b) is Ok ==> parse_spec(a + b)->Ok_0 == merge_spec(
            parse_spec(a)->Ok_0,
            parse_spec(b)->Ok_0,
        ),
    decreases b.len(),
{
    if b.len() == 0 {
        assert(a + b =~= a);
    } else {
        let b1 = b.drop_last();
        let x = b.last();
        law_split_attributes(a, b1);
        assert((a + b).drop_last() =~= a + b1);
        assert((a + b).last() == x);
    }
}

/// Whether no two of `names` are equal.
pub open spec fn pairwise_distinct(names: Seq<Seq<char>>) -> bool {
    forall|i: int, j: int| 0 <= i < j < names.len() ==> #[trigger] names[i] != #[trigger] names[j]
}

/// Checks whether all GraphQL fields have different names.
pub fn all_different(names: &[String]) -> (res: bool)
    ensures
        res == pairwise_distinct(names@.map_values(|s: String| s@)),
{
    let ghost views = names@.map_values(|s: String| s@);
    let mut j: usize = 0;
    while j < names.len()
        invariant
            j <= names@.len(),
            views == names@.map_values(|s: String| s@),
            forall|a: int, b: int| 0 <= a < b < j ==> #[trigger] views[a] != #[trigger] views[b],
        decreases names@.len() - j,
    {
        let mut i: usize = 0;
        while i < j
            invariant
                i <= j < names@.len(),
                views == names@.map_values(|s: String| s@),
                forall|a: int| 0 <= a < i ==> #[trigger] views[a] != views[j as int],
            decreases j - i,
        {
            if text_is(names[i].as_str(), names[j].as_str()) {
                assert(views[i as int] == views[j as int]);
                return false;
            }
            i += 1;
        }
        j += 1;
    }
    true
}

/// The first doc attribute with a non-string value, if any.
pub open spec fn doc_error(docs: Seq<DocAttr>) -> Option<int> {
    if exists|i: int| 0 <= i < docs.len() && is_not_string(#[trigger] docs[i]) {
        Some(choose|i: int| 0 <= i < docs.len() && is_not_string(#[trigger] docs[i]) && forall|j: int| 0 <= j < i ==> !is_not_string(#[trigger] docs[j]))
    } else {
        None
    }
}

/// The description that doc attributes give, if any.
pub open spec fn doc_description(docs: Seq<DocAttr>) -> Option<Seq<char>> {
    if exists|i: int| 0 <= i < docs.len() && is_text(#[trigger] docs[i]) {
        Some(concatenated(doc_texts(docs, docs.len() as int)))
    } else {
        None
    }
}

/// The first `#[deprecated]` attribute, if any.
pub open spec fn first_deprecated(ds: Seq<DeprecatedAttr>) -> Option<int> {
    if exists|i: int| 0 <= i < ds.len() && is_deprecated_attr(#[trigger] ds[i]) {
        Some(choose|i: int| 0 <= i < ds.len() && is_deprecated_attr(#[trigger] ds[i]) && forall|j: int| 0 <= j < i ==> !is_deprecated_attr(#[trigger] ds[j]))
    } else {
        None
    }
}

/// What a `#[deprecated]` attribute means: its reason, or why it is
/// refused.
pub open spec fn deprecated_meaning(a: DeprecatedAttr) -> Result<Option<Seq<char>>, DeprecationError> {
    match a {
        DeprecatedAttr::List(args) => meta_list_spec(args@),
        DeprecatedAttr::Unparsable => Err(DeprecationError::Unparsable),
        _ => Ok(None),
    }
}

proof fn lemma_doc_error(docs: Seq<DocAttr>, i: int)
    requires
        0 <= i < docs.len(),
        is_not_string(docs[i]),
        forall|j: int| 0 <= j < i ==> !is_not_string(#[trigger] docs[j]),
    ensures
        doc_error(docs) == Some(i),
{
    let c = choose|c: int| 0 <= c < docs.len() && is_not_string(#[trigger] docs[c]) && forall|j: int| 0 <= j < c ==> !is_not_string(#[trigger] docs[j]);
    assert(0 <= c < docs.len() && is_not_string(docs[c]) && forall|j: int| 0 <= j < c ==> !is_not_string(#[trigger] docs[j]));
    if c < i {
        assert(!is_not_string(docs[c]));
    }
    if i < c {
        assert(!is_not_string(docs[i]));
    }
}

proof fn lemma_first_deprecated(ds: Seq<DeprecatedAttr>, i: int)
    requires
        0 <= i < ds.len(),
        is_deprecated_attr(ds[i]),
        forall|j: int| 0 <= j < i ==> !is_deprecated_attr(#[trigger] ds[j]),
    ensures
        first_deprecated(ds) == Some(i),
{
    let c = choose|c: int| 0 <= c < ds.len() && is_deprecated_attr(#[trigger] ds[c]) && forall|j: int| 0 <= j < c ==> !is_deprecated_attr(#[trigger] ds[j]);
    assert(0 <= c < ds.len() && is_deprecated_attr(ds[c]) && forall|j: int| 0 <= j < c ==> !is_deprecated_attr(#[trigger] ds[j]));
    if c < i {
        assert(!is_deprecated_attr(ds[c]));
    }
    if i < c {
        assert(!is_deprecated_attr(ds[i]));
    }
}

/// The result of completing the arguments `v` of a field that are not
/// refused for `ignore`.
pub open spec fn from_attrs_ok(v: FieldAttrView, docs: Seq<DocAttr>, ds: Seq<DeprecatedAttr>, res: Result<FieldAttr, FieldAttrError>) -> bool {
    if v.description is None && doc_error(docs) is Some {
        res == Err::<FieldAttr, FieldAttrError>(FieldAttrError::Doc(doc_error(docs)->0 as usize))
    } else {
        let v1 = if v.description is None { FieldAttrView { description: doc_description(docs), ..v } } else { v };
        if v1.deprecated is None && first_deprecated(ds) is Some {
            let i = first_deprecated(ds)->0;
            match deprecated_meaning(ds[i]) {
                Err(e) => res == Err::<FieldAttr, FieldAttrError>(FieldAttrError::Deprecation(i as usize, e)),
                Ok(r) => res matches Ok(a) && a.view() == FieldAttrView { deprecated: Some(r), ..v1 },
            }
        } else {
            res matches Ok(a) && a.view() == v1
        }
    }
}

} // verus!

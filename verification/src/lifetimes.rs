//! The lifetimes of a Rust type, taken in the order a type visitor meets
//! them: making them higher-ranked (`for<...>`), and anonymizing them.
//!
//! A lifetime is given by its identifier without the apostrophe; `None`
//! stands for an elided one (as in `&T`).
use vstd::prelude::*;

use crate::text::text_is;

verus! {

/// The identifier a lifetime goes by: `_` when elided.
pub open spec fn lifetime_ident(lt: Option<Seq<char>>) -> Seq<char> {
    match lt {
        Some(i) => i,
        None => "_"@,
    }
}

/// What a lifetime becomes in a higher-ranked type: `'static` stays, any
/// other becomes `'__fa_f_<ident>`.
pub open spec fn hrtb_renamed(lt: Option<Seq<char>>) -> Option<Seq<char>> {
    if lifetime_ident(lt) == "static"@ {
        None
    } else {
        Some("__fa_f_"@ + lifetime_ident(lt))
    }
}

/// The lifetimes that the `for<...>` binder of the type introduces: the
/// renamed ones, each once, in the order they first appear.
pub open spec fn hrtb_binder(lts: Seq<Option<Seq<char>>>) -> Seq<Seq<char>>
    decreases lts.len(),
{
    if lts.len() == 0 {
        Seq::empty()
    } else {
        let pre = hrtb_binder(lts.drop_last());
        match hrtb_renamed(lts.last()) {
            Some(n) => if pre.contains(n) {
                pre
            } else {
                pre.push(n)
            },
            None => pre,
        }
    }
}

/// The views of optional strings.
pub open spec fn opt_views(v: Seq<Option<String>>) -> Seq<Option<Seq<char>>> {
    v.map_values(|o: Option<String>| match o {
        Some(s) => Some(s@),
        None => None,
    })
}

/// Whether one of `names` is `n`.
fn contains_name(names: &Vec<String>, n: &String) -> (res: bool)
    ensures
        res == names@.map_values(|s: String| s@).contains(n@),
{
    let ghost views = names@.map_values(|s: String| s@);
    let mut i: usize = 0;
    while i < names.len()
        invariant
            i <= names@.len(),
            views == names@.map_values(|s: String| s@),
            forall|j: int| 0 <= j < i ==> views[j] != n@,
        decreases names@.len() - i,
    {
        if text_is(names[i].as_str(), n.as_str()) {
            assert(views[i as int] == n@);
            return true;
        }
        i += 1;
    }
    proof {
        if views.contains(n@) {
            let k = choose|k: int| 0 <= k < views.len() && views[k] == n@;
            assert(views[k] == n@);
        }
    }
    false
}

/// Makes the lifetimes `lts` of a type higher-ranked: what each becomes
/// (`None` where it stays), and the lifetimes of the `for<...>` binder (an
/// empty binder is none at all).
pub fn to_hrtb_lifetimes(lts: &Vec<Option<String>>) -> (res: (Vec<String>, Vec<Option<String>>))
    ensures
        res.0@.map_values(|s: String| s@) == hrtb_binder(opt_views(lts@)),
        res.1@.len() == lts@.len(),
        forall|i: int| 0 <= i < lts@.len() ==> #[trigger] opt_views(res.1@)[i] == hrtb_renamed(opt_views(lts@)[i]),
{
    let ghost all = opt_views(lts@);
    let mut binder: Vec<String> = Vec::new();
    let mut renamed: Vec<Option<String>> = Vec::new();
    let mut i: usize = 0;
    while i < lts.len()
        invariant
            i <= lts@.len(),
            all == opt_views(lts@),
            binder@.map_values(|s: String| s@) == hrtb_binder(all.take(i as int)),
            renamed@.len() == i,
            forall|j: int| 0 <= j < i ==> #[trigger] opt_views(renamed@)[j] == hrtb_renamed(all[j]),
        decreases lts@.len() - i,
    {
        let ident: String = match &lts[i] {
            Some(s) => s.clone(),
            None => String::from_str("_"),
        };
        proof {
            reveal_strlit("_");
            assert(ident@ == lifetime_ident(all[i as int]));
            assert(all.take(i + 1).drop_last() =~= all.take(i as int));
            assert(all.take(i + 1).last() == all[i as int]);
        }
        let ghost before = renamed@;
        let ghost binder_before = binder@;
        if text_is(ident.as_str(), "static") {
            renamed.push(None);
        } else {
            let new = String::from_str("__fa_f_").concat(ident.as_str());
            if !contains_name(&binder, &new) {
                binder.push(new.clone());
                assert(binder@.map_values(|s: String| s@) =~= binder_before.map_values(|s: String| s@).push(new@));
            }
            renamed.push(Some(new));
        }
        proof {
            assert forall|j: int| 0 <= j < i + 1 implies #[trigger] opt_views(renamed@)[j] == hrtb_renamed(all[j]) by {
                if j < i {
                    assert(renamed@[j] == before[j]);
                    assert(opt_views(before)[j] == hrtb_renamed(all[j]));
                }
            }
        }
        i += 1;
    }
    assert(all.take(lts@.len() as int) =~= all);
    (binder, renamed)
}

/// Whether a named lifetime `lt` becomes `'_` when the lifetimes of a type
/// are anonymized: all but `'_` and `'static` do.
pub open spec fn anonymized(lt: Seq<char>) -> bool {
    lt != "_"@ && lt != "static"@
}

/// Which of the named lifetimes `lts` of a type become `'_` when it is
/// anonymized.
pub fn lifetimes_anonymized(lts: &Vec<String>) -> (res: Vec<bool>)
    ensures
        res@.len() == lts@.len(),
        forall|i: int| 0 <= i < lts@.len() ==> #[trigger] res@[i] == anonymized(lts@[i]@),
{
    let mut out: Vec<bool> = Vec::new();
    let mut i: usize = 0;
    while i < lts.len()
        invariant
            i <= lts@.len(),
            out@.len() == i,
            forall|j: int| 0 <= j < i ==> #[trigger] out@[j] == anonymized(lts@[j]@),
        decreases lts@.len() - i,
    {
        let s = lts[i].as_str();
        out.push(!text_is(s, "_") && !text_is(s, "static"));
        i += 1;
    }
    out
}

/// Each lifetime of the binder is introduced once.
pub proof fn law_binder_distinct(lts: Seq<Option<Seq<char>>>)
    ensures
        hrtb_binder(lts).no_duplicates(),
    decreases lts.len(),
{
    if lts.len() > 0 {
        law_binder_distinct(lts.drop_last());
        let pre = hrtb_binder(lts.drop_last());
        match hrtb_renamed(lts.last()) {
            Some(n) => if !pre.contains(n) {
                assert forall|i: int, j: int| 0 <= i < j < pre.push(n).len() implies pre.push(n)[i] != pre.push(n)[j] by {
                    if j == pre.len() {
                        assert(pre.push(n)[i] == pre[i]);
                    }
                }
            },
            None => {},
        }
    }
}

/// Every lifetime renamed in the type is one the binder introduces.
pub proof fn law_binder_covers(lts: Seq<Option<Seq<char>>>, i: int)
    requires
        0 <= i < lts.len(),
        hrtb_renamed(lts[i]) is Some,
    ensures
        hrtb_binder(lts).contains(hrtb_renamed(lts[i])->0),
    decreases lts.len(),
{
    let pre = lts.drop_last();
    if i < lts.len() - 1 {
        assert(pre[i] == lts[i]);
        law_binder_covers(pre, i);
        let b = hrtb_binder(pre);
        let k = choose|k: int| 0 <= k < b.len() && b[k] == hrtb_renamed(lts[i])->0;
        match hrtb_renamed(lts.last()) {
            Some(n) => if !b.contains(n) {
                assert(b.push(n)[k] == b[k]);
            },
            None => {},
        }
    } else {
        let b = hrtb_binder(pre);
        let n = hrtb_renamed(lts.last())->0;
        if !b.contains(n) {
            assert(b.push(n)[b.len() as int] == n);
        }
    }
}

} // verus!

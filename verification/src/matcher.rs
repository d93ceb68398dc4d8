//! Classifying candidates against the query, and the default matcher:
//! a stable three-way partition into exact, prefix and substring matches.

use vstd::multiset::Multiset;
use vstd::prelude::*;

use crate::item::{Item, MatchCode};
use crate::result::{CompResult, Die};

verus! {

/// The query occurs in `t` starting at position `i`.
pub open spec fn occurs_at(t: Seq<char>, q: Seq<char>, i: int) -> bool {
    0 <= i && i + q.len() <= t.len() && t.subrange(i, i + q.len()) == q
}

/// The query occurs somewhere in `t`.
pub open spec fn occurs(t: Seq<char>, q: Seq<char>) -> bool {
    exists|i: int| occurs_at(t, q, i)
}

/// `t` begins with the query.
pub open spec fn starts_with(t: Seq<char>, q: Seq<char>) -> bool {
    occurs_at(t, q, 0)
}

/// Whether the query occurs in `t` when both are compared case-insensitively.
/// Named, not defined: the answer is fixed by Unicode case folding, which the
/// regex engine implements.
pub uninterp spec fn ci_occurs(t: Seq<char>, q: Seq<char>) -> bool;

/// Whether `t` begins with the query, compared case-insensitively.
pub uninterp spec fn ci_starts_with(t: Seq<char>, q: Seq<char>) -> bool;

/// Whether the whole of `t` matches the query, compared case-insensitively.
pub uninterp spec fn ci_whole(t: Seq<char>, q: Seq<char>) -> bool;

/// The query occurs in `t`, under the configured case sensitivity.
pub open spec fn query_occurs(q: Seq<char>, t: Seq<char>, cs: bool) -> bool {
    if cs {
        occurs(t, q)
    } else {
        ci_occurs(t, q)
    }
}

/// `t` begins with the query, under the configured case sensitivity.
pub open spec fn query_starts(q: Seq<char>, t: Seq<char>, cs: bool) -> bool {
    if cs {
        starts_with(t, q)
    } else {
        ci_starts_with(t, q)
    }
}

/// The query covers the whole of `t`, under the configured case sensitivity.
pub open spec fn query_whole(q: Seq<char>, t: Seq<char>, cs: bool) -> bool {
    if cs {
        t == q
    } else {
        ci_whole(t, q)
    }
}

/// How a candidate text classifies against the query: no occurrence drops
/// the candidate; a whole-text match is exact; a match at the start is a
/// prefix; anything else is a substring match.
pub open spec fn match_class(q: Seq<char>, t: Seq<char>, cs: bool) -> MatchCode {
    if !query_occurs(q, t, cs) {
        MatchCode::NoMatch
    } else if query_whole(q, t, cs) {
        MatchCode::Exact
    } else if query_starts(q, t, cs) {
        MatchCode::Prefix
    } else {
        MatchCode::Substring
    }
}

/// Whether the matcher's patterns can be built from the query: the escaped
/// literal and its anchored forms either all compile or the matcher fails.
/// Named, not defined: compilation can only fail on the engine's size
/// limit, and the outcome depends on the query and the case sensitivity
/// alone.
pub uninterp spec fn pattern_builds(q: Seq<char>, cs: bool) -> bool;

/// Relies on `regex::escape`, `regex::RegexBuilder` and
/// `regex::Regex::is_match`: an escaped pattern matches itself literally,
/// and `^`/`$` anchor it to the ends of the haystack, so the three tests
/// report whether the query occurs anywhere in `text`, whether `text`
/// begins with it, and whether it covers the whole of `text`.  `None`
/// exactly when compilation failed, which depends on the query and the
/// case sensitivity alone.
#[verifier::external_body]
fn regex_classify(query: &str, text: &str, case_sensitive: bool) -> (r: Option<(bool, bool, bool)>)
    ensures
        r is Some <==> pattern_builds(query@, case_sensitive),
        case_sensitive ==> (r matches Some(t) ==> t.0 == occurs(text@, query@) && t.1
            == starts_with(text@, query@) && t.2 == (text@ == query@)),
        !case_sensitive ==> (r matches Some(t) ==> t.0 == ci_occurs(text@, query@) && t.1
            == ci_starts_with(text@, query@) && t.2 == ci_whole(text@, query@)),
{
    let pat = regex::escape(query);
    let ci = !case_sensitive;
    let any = regex::RegexBuilder::new(&pat).case_insensitive(ci).build();
    let pre = regex::RegexBuilder::new(&format!("^{}", pat)).case_insensitive(ci).build();
    let whole = regex::RegexBuilder::new(&format!("^{}$", pat)).case_insensitive(ci).build();
    match (any, pre, whole) {
        (Ok(a), Ok(p), Ok(w)) => Some((a.is_match(text), p.is_match(text), w.is_match(text))),
        _ => None,
    }
}

impl Item {
    /// Classify this entry against the query.  The classification comes
    /// back exactly when the matcher's pattern builds.
    pub fn matches(&self, query: &str, case_sensitive: bool) -> (r: Option<MatchCode>)
        ensures
            r is Some <==> pattern_builds(query@, case_sensitive),
            r matches Some(code) ==> code == match_class(query@, self.text@, case_sensitive),
    {
        match regex_classify(query, self.text.as_str(), case_sensitive) {
            Option::None => Option::None,
            Some((any, pre, whole)) => {
                if !any {
                    Some(MatchCode::NoMatch)
                } else if whole {
                    Some(MatchCode::Exact)
                } else if pre {
                    Some(MatchCode::Prefix)
                } else {
                    Some(MatchCode::Substring)
                }
            },
        }
    }
}

/// The entries of `items` whose text classifies as `code`, in source order.
pub open spec fn class_filter(items: Seq<Item>, q: Seq<char>, cs: bool, code: MatchCode) -> Seq<
    Item,
> {
    items.filter(|it: Item| match_class(q, it.text@, cs) == code)
}

/// What the default matcher returns: all exact matches, then all prefix
/// matches, then all substring matches, each group in source order.
pub open spec fn matched_seq(items: Seq<Item>, q: Seq<char>, cs: bool) -> Seq<Item> {
    class_filter(items, q, cs, MatchCode::Exact) + class_filter(items, q, cs, MatchCode::Prefix)
        + class_filter(items, q, cs, MatchCode::Substring)
}

/// Appending one entry extends the class filter by that entry exactly when
/// the entry classifies as `code`.
proof fn lemma_class_filter_push(items: Seq<Item>, x: Item, q: Seq<char>, cs: bool, code: MatchCode)
    ensures
        class_filter(items.push(x), q, cs, code) == if match_class(q, x.text@, cs) == code {
            class_filter(items, q, cs, code).push(x)
        } else {
            class_filter(items, q, cs, code)
        },
{
    reveal(Seq::filter);
    assert(items.push(x).drop_last() =~= items);
    assert(items.push(x).last() == x);
}

/// The default matcher.  It succeeds exactly when there is nothing to
/// classify or the query's pattern builds, and the result is then the
/// stable three-way partition of the candidates; the only error is a
/// pattern that failed to build.
pub fn gen_matches(items: &Vec<Item>, query: &str, case_sensitive: bool) -> (r: CompResult<
    Vec<Item>,
>)
    ensures
        r is Ok <==> (items@.len() == 0 || pattern_builds(query@, case_sensitive)),
        r matches Ok(v) ==> v@ == matched_seq(items@, query@, case_sensitive),
        r matches Err(d) ==> d matches Die::Stderr(m) && m@ == "Could not build regex"@,
{
    let ghost q = query@;
    let mut exact: Vec<Item> = Vec::new();
    let mut prefix: Vec<Item> = Vec::new();
    let mut substring: Vec<Item> = Vec::new();
    let mut k: usize = 0;
    while k < items.len()
        invariant
            k <= items@.len(),
            q == query@,
            k > 0 ==> pattern_builds(q, case_sensitive),
            exact@ == class_filter(items@.take(k as int), q, case_sensitive, MatchCode::Exact),
            prefix@ == class_filter(items@.take(k as int), q, case_sensitive, MatchCode::Prefix),
            substring@ == class_filter(
                items@.take(k as int),
                q,
                case_sensitive,
                MatchCode::Substring,
            ),
        decreases items@.len() - k,
    {
        let it = &items[k];
        match it.matches(query, case_sensitive) {
            Option::None => {
                return Die::stderr("Could not build regex".to_owned());
            },
            Some(code) => {
                match code {
                    MatchCode::Exact => exact.push(it.clone()),
                    MatchCode::Prefix => prefix.push(it.clone()),
                    MatchCode::Substring => substring.push(it.clone()),
                    MatchCode::NoMatch => {},
                }
                proof {
                    assert(items@.take(k as int + 1) =~= items@.take(k as int).push(items@[k as int]));
                    lemma_class_filter_push(items@.take(k as int), items@[k as int], q, case_sensitive, MatchCode::Exact);
                    lemma_class_filter_push(items@.take(k as int), items@[k as int], q, case_sensitive, MatchCode::Prefix);
                    lemma_class_filter_push(items@.take(k as int), items@[k as int], q, case_sensitive, MatchCode::Substring);
                }
            },
        }
        k = k + 1;
    }
    proof {
        assert(items@.take(items@.len() as int) =~= items@);
    }
    let mut result = exact;
    result.append(&mut prefix);
    result.append(&mut substring);
    Ok(result)
}

/// `a` can be read off `b` left to right: an order-preserving selection.
pub open spec fn is_subsequence(a: Seq<Item>, b: Seq<Item>) -> bool
    decreases b.len(),
{
    if a.len() == 0 {
        true
    } else if b.len() == 0 {
        false
    } else {
        (a.last() == b.last() && is_subsequence(a.drop_last(), b.drop_last())) || is_subsequence(
            a,
            b.drop_last(),
        )
    }
}

/// Filtering keeps the relative order of the source: the result is an
/// order-preserving selection from it.
pub proof fn lemma_filter_is_subsequence(items: Seq<Item>, pred: spec_fn(Item) -> bool)
    ensures
        is_subsequence(items.filter(pred), items),
    decreases items.len(),
{
    reveal(Seq::filter);
    if items.len() > 0 {
        let dl = items.drop_last();
        lemma_filter_is_subsequence(dl, pred);
        if pred(items.last()) {
            assert(items.filter(pred) == dl.filter(pred).push(items.last()));
            assert(items.filter(pred).drop_last() =~= dl.filter(pred));
            assert(items.filter(pred).last() == items.last());
        }
    }
}

/// Each of the exact, prefix and substring groups preserves the relative
/// order of the source list: the matcher partitions, it never reorders.
pub proof fn lemma_match_groups_stable(items: Seq<Item>, q: Seq<char>, cs: bool, code: MatchCode)
    ensures
        is_subsequence(class_filter(items, q, cs, code), items),
{
    lemma_filter_is_subsequence(items, |it: Item| match_class(q, it.text@, cs) == code);
}

/// The four classes cover every candidate exactly once: their multisets add
/// up to the full candidate list, and the groups are pairwise disjoint
/// because each candidate has exactly one class.
pub proof fn lemma_match_partition_covers(items: Seq<Item>, q: Seq<char>, cs: bool)
    ensures
        class_filter(items, q, cs, MatchCode::Exact).to_multiset().add(
            class_filter(items, q, cs, MatchCode::Prefix).to_multiset(),
        ).add(class_filter(items, q, cs, MatchCode::Substring).to_multiset()).add(
            class_filter(items, q, cs, MatchCode::NoMatch).to_multiset(),
        ) =~= items.to_multiset(),
        forall|code1: MatchCode, code2: MatchCode, it: Item|
            code1 != code2 && #[trigger] class_filter(items, q, cs, code1).contains(it)
                ==> !(#[trigger] class_filter(items, q, cs, code2).contains(it)),
    decreases items.len(),
{
    broadcast use vstd::seq_lib::group_to_multiset_ensures;

    reveal(Seq::filter);
    if items.len() == 0 {
        assert(items.to_multiset() =~= Multiset::<Item>::empty());
    } else {
        let dl = items.drop_last();
        let x = items.last();
        lemma_match_partition_covers(dl, q, cs);
        assert(items =~= dl.push(x));
        lemma_class_filter_push(dl, x, q, cs, MatchCode::Exact);
        lemma_class_filter_push(dl, x, q, cs, MatchCode::Prefix);
        lemma_class_filter_push(dl, x, q, cs, MatchCode::Substring);
        lemma_class_filter_push(dl, x, q, cs, MatchCode::NoMatch);
        assert(items.to_multiset() =~= dl.to_multiset().insert(x));
    }
    assert forall|code1: MatchCode, code2: MatchCode, it: Item|
        code1 != code2 && #[trigger] class_filter(items, q, cs, code1).contains(it)
        implies !(#[trigger] class_filter(items, q, cs, code2).contains(it)) by {
        if class_filter(items, q, cs, code2).contains(it) {
            let i1 = choose|i: int|
                0 <= i < class_filter(items, q, cs, code1).len() && class_filter(
                    items,
                    q,
                    cs,
                    code1,
                )[i] == it;
            let i2 = choose|i: int|
                0 <= i < class_filter(items, q, cs, code2).len() && class_filter(
                    items,
                    q,
                    cs,
                    code2,
                )[i] == it;
            items.lemma_filter_pred(|t: Item| match_class(q, t.text@, cs) == code1, i1);
            items.lemma_filter_pred(|t: Item| match_class(q, t.text@, cs) == code2, i2);
        }
    }
}

} // verus!

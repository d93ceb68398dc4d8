//! The strategy hooks and their bundled implementations.
//!
//! Exactly one implementation of each hook is active per run, chosen when
//! the process starts: how candidates are matched, how the input text is
//! presented, and what happens to the matched list before it is drawn.

use vstd::prelude::*;

use crate::input::InputState;
use crate::item::Item;
use crate::result::{CompResult, Die};
use crate::run::Menu;

use fuzzy_matcher::FuzzyMatcher;

verus! {

/// Which matcher runs on every keystroke.
#[derive(Clone, Copy, PartialEq, Eq, Structural, Debug)]
pub enum MatcherChoice {
    /// The stable three-way partition into exact, prefix and substring.
    Standard,
    /// Fuzzy subsequence scoring; the ranking is the matcher's own.
    Fuzzy,
}

/// How the input text is presented in the input box.
#[derive(Clone, Copy, PartialEq, Eq, Structural, Debug)]
pub enum FormatterChoice {
    Plain,
    /// One mask character per grapheme cluster, for secret input.
    Password,
}

/// What happens to the matched list after matching.
#[derive(Clone, Copy, PartialEq, Eq, Structural, Debug)]
pub enum PostprocessChoice {
    Keep,
    /// Commit immediately when exactly one candidate is left.
    AutoSelect,
    /// Commit the input once it has grown to the given cluster count;
    /// zero disables the limit.
    MaxLength(usize),
}

/// What the post-process hook decided: keep showing a list, or commit
/// some text at once and leave.
#[derive(Debug)]
pub enum PostOutcome {
    Show(Vec<Item>),
    EarlyDispose(String),
}

/// How the input formatter presents the buffer: the text itself, or one
/// asterisk per cluster.
pub fn format_input(input: &InputState, choice: FormatterChoice) -> (r: String)
    requires
        input.wf(),
    ensures
        choice == FormatterChoice::Plain ==> r@ == input.text(),
        choice == FormatterChoice::Password ==> r@.len() == input.buf().len() && (forall|k: int|
            0 <= k < r@.len() ==> r@[k] == '*'),
{
    match choice {
        FormatterChoice::Plain => input.text_string(),
        FormatterChoice::Password => {
            let n = input.grapheme_count();
            let mut r = String::new();
            let mut k: usize = 0;
            while k < n
                invariant
                    k <= n,
                    r@.len() == k,
                    forall|j: int| 0 <= j < k ==> r@[j] == '*',
                decreases n - k,
            {
                proof {
                    reveal_strlit("*");
                }
                r.append("*");
                k = k + 1;
            }
            r
        },
    }
}

/// The post-process hook.
///
/// `Keep` shows the list untouched.  `AutoSelect` commits the single
/// remaining candidate.  `MaxLength` commits the first `max` clusters of
/// the input once the input has reached `max` clusters.
pub fn postprocess_matches(menu: &Menu, items: Vec<Item>, choice: PostprocessChoice) -> (r:
    PostOutcome)
    requires
        menu.wf(),
    ensures
        choice == PostprocessChoice::Keep ==> (r matches PostOutcome::Show(v) && v == items),
        choice == PostprocessChoice::AutoSelect ==> (if items@.len() == 1 {
            r matches PostOutcome::EarlyDispose(t) && t@ == items@[0].text@
        } else {
            r matches PostOutcome::Show(v) && v == items
        }),
        choice matches PostprocessChoice::MaxLength(max) ==> (if max > 0 && menu.input.buf().len()
            >= max {
            r matches PostOutcome::EarlyDispose(t) && t@ == menu.input.buf().take(
                max as int,
            ).flatten()
        } else {
            r matches PostOutcome::Show(v) && v == items
        }),
{
    match choice {
        PostprocessChoice::Keep => PostOutcome::Show(items),
        PostprocessChoice::AutoSelect => {
            if items.len() == 1 {
                PostOutcome::EarlyDispose(items[0].text.clone())
            } else {
                PostOutcome::Show(items)
            }
        },
        PostprocessChoice::MaxLength(max) => {
            if max > 0 && menu.input.grapheme_count() >= max {
                PostOutcome::EarlyDispose(menu.input.prefix_string(max))
            } else {
                PostOutcome::Show(items)
            }
        },
    }
}

/// The default stdin post-processor: the lines pass through untouched.
/// Strategies that take no candidate list replace this with one that
/// returns nothing.
pub fn format_stdin(lines: Vec<String>) -> (r: CompResult<Vec<String>>)
    ensures
        r == Ok::<Vec<String>, Die>(lines),
{
    Ok(lines)
}

/// The expression the calculator strategy evaluates: the prompt, one
/// space, then the input text.
pub fn calc_expression(menu: &Menu) -> (r: String)
    requires
        menu.wf(),
    ensures
        r@ == menu.config.prompt@ + seq![' '] + menu.input.text(),
{
    let mut r = menu.config.prompt.clone();
    proof {
        reveal_strlit(" ");
    }
    r.append(" ");
    let text = menu.input.text_string();
    r.append(text.as_str());
    r
}

/// How the calculator strategy folds an evaluation back into the state:
/// the result becomes the prompt, and the input starts over empty.
pub fn calc_apply_result(menu: &mut Menu, output: String)
    requires
        old(menu).wf(),
    ensures
        final(menu).wf(),
        final(menu).config == (crate::config::Config { prompt: output, ..old(menu).config }),
        final(menu).input.buf() == Seq::<Seq<char>>::empty(),
        final(menu).input.cur() == 0,
        final(menu).items == old(menu).items,
{
    menu.input = InputState::new();
    menu.config.prompt = output;
}

/// The score the fuzzy matcher assigns to a candidate against a pattern.
/// Named, not defined: the subsequence scoring tables are the matcher
/// crate's own, and the score depends on the two strings alone.
pub uninterp spec fn fuzzy_score(choice: Seq<char>, pattern: Seq<char>) -> Option<int>;

/// Relies on `fuzzy_matcher::skim::SkimMatcherV2::fuzzy_match` with the
/// default configuration: `None` when the pattern is no subsequence of the
/// choice, otherwise the relevance score.
#[verifier::external_body]
fn skim_fuzzy_match(choice: &str, pattern: &str) -> (r: Option<i64>)
    ensures
        r matches Some(s) ==> fuzzy_score(choice@, pattern@) == Some(s as int),
        r is None ==> fuzzy_score(choice@, pattern@) is None,
{
    let matcher = fuzzy_matcher::skim::SkimMatcherV2::default();
    matcher.fuzzy_match(choice, pattern)
}

/// The sort rank of a candidate: matched candidates rank by their negated
/// score, unmatched candidates rank above every match and are dropped.
pub open spec fn fuzzy_rank(it: Item, q: Seq<char>) -> int {
    match fuzzy_score(it.text@, q) {
        Some(s) => -s,
        Option::None => 1,
    }
}

/// Whether a candidate clears the relevance threshold.
pub open spec fn fuzzy_kept(it: Item, q: Seq<char>) -> bool {
    fuzzy_rank(it, q) <= 0
}

/// The ranking order: better (lower) rank first, shorter text first among
/// equal ranks, so exact matches surface.
pub open spec fn fuzzy_le(a: Item, b: Item, q: Seq<char>) -> bool {
    fuzzy_rank(a, q) < fuzzy_rank(b, q) || (fuzzy_rank(a, q) == fuzzy_rank(b, q) && a.text@.len()
        <= b.text@.len())
}

/// The candidates that clear the threshold, in source order.
pub open spec fn fuzzy_filter(items: Seq<Item>, q: Seq<char>) -> Seq<Item> {
    items.filter(|it: Item| fuzzy_kept(it, q))
}

/// The candidates that share one sort key: the same rank and the same
/// text length.  The ranking cannot tell such candidates apart, so their
/// relative order is the stability obligation.
pub open spec fn key_class(q: Seq<char>, rk: int, ln: int) -> spec_fn(Item) -> bool {
    |it: Item| fuzzy_rank(it, q) == rk && it.text@.len() == ln
}

/// Filtering distributes over concatenation.
proof fn lemma_filter_concat(a: Seq<Item>, b: Seq<Item>, pred: spec_fn(Item) -> bool)
    ensures
        (a + b).filter(pred) == a.filter(pred) + b.filter(pred),
    decreases b.len(),
{
    reveal(Seq::filter);
    if b.len() == 0 {
        assert(a + b =~= a);
        assert(b =~= Seq::<Item>::empty());
        assert(a.filter(pred) + b.filter(pred) =~= a.filter(pred));
    } else {
        lemma_filter_concat(a, b.drop_last(), pred);
        assert((a + b).drop_last() =~= a + b.drop_last());
        assert((a + b).last() == b.last());
        if pred(b.last()) {
            assert((a + b).filter(pred) == (a + b.drop_last()).filter(pred).push(b.last()));
            assert(a.filter(pred) + b.drop_last().filter(pred).push(b.last()) =~= (a.filter(pred)
                + b.drop_last().filter(pred)).push(b.last()));
        }
    }
}

/// Swapping two adjacent entries that cannot share a key class leaves
/// every key class's subsequence unchanged.
proof fn lemma_swap_keeps_class(s: Seq<Item>, j: int, pred: spec_fn(Item) -> bool)
    requires
        1 <= j < s.len(),
        !(pred(s[j - 1]) && pred(s[j])),
    ensures
        s.update(j - 1, s[j]).update(j, s[j - 1]).filter(pred) == s.filter(pred),
{
    reveal(Seq::filter);
    let t = s.update(j - 1, s[j]).update(j, s[j - 1]);
    let a = s.take(j - 1);
    let m1 = seq![s[j - 1], s[j]];
    let m2 = seq![s[j], s[j - 1]];
    let b = s.skip(j + 1);
    assert(s =~= (a + m1) + b);
    assert(t =~= (a + m2) + b);
    lemma_filter_concat(a + m1, b, pred);
    lemma_filter_concat(a, m1, pred);
    lemma_filter_concat(a + m2, b, pred);
    lemma_filter_concat(a, m2, pred);
    assert(m1.drop_last() =~= seq![s[j - 1]]);
    assert(m2.drop_last() =~= seq![s[j]]);
    assert(seq![s[j - 1]].drop_last() =~= Seq::<Item>::empty());
    assert(seq![s[j]].drop_last() =~= Seq::<Item>::empty());
    assert(Seq::<Item>::empty().filter(pred) == Seq::<Item>::empty());
    if pred(s[j - 1]) {
        assert(seq![s[j - 1]].filter(pred) == Seq::<Item>::empty().push(s[j - 1]));
        assert(m1.filter(pred) == seq![s[j - 1]].filter(pred));
        assert(seq![s[j]].filter(pred) == Seq::<Item>::empty());
        assert(m2.filter(pred) == seq![s[j]].filter(pred).push(s[j - 1]));
        assert(m1.filter(pred) =~= m2.filter(pred));
    } else if pred(s[j]) {
        assert(seq![s[j - 1]].filter(pred) == Seq::<Item>::empty());
        assert(m1.filter(pred) == seq![s[j - 1]].filter(pred).push(s[j]));
        assert(seq![s[j]].filter(pred) == Seq::<Item>::empty().push(s[j]));
        assert(m2.filter(pred) == seq![s[j]].filter(pred));
        assert(m1.filter(pred) =~= m2.filter(pred));
    } else {
        assert(seq![s[j - 1]].filter(pred) == Seq::<Item>::empty());
        assert(seq![s[j]].filter(pred) == Seq::<Item>::empty());
        assert(m1.filter(pred) == Seq::<Item>::empty());
        assert(m2.filter(pred) == Seq::<Item>::empty());
    }
    assert(m1.filter(pred) =~= m2.filter(pred));
}

/// Appending one candidate extends the kept list exactly when it clears
/// the threshold.
proof fn lemma_fuzzy_filter_push(items: Seq<Item>, x: Item, q: Seq<char>)
    ensures
        fuzzy_filter(items.push(x), q) == if fuzzy_kept(x, q) {
            fuzzy_filter(items, q).push(x)
        } else {
            fuzzy_filter(items, q)
        },
{
    reveal(Seq::filter);
    assert(items.push(x).drop_last() =~= items);
    assert(items.push(x).last() == x);
}

/// The rank of a kept candidate, executably.
fn rank_exec(it: &Item, query: &str) -> (r: i64)
    requires
        fuzzy_kept(*it, query@),
    ensures
        r as int == fuzzy_rank(*it, query@),
{
    match skim_fuzzy_match(it.text.as_str(), query) {
        Some(s) => -s,
        Option::None => {
            proof {
                assert(false);
            }
            unreached()
        },
    }
}

/// The ranking order, executably.
fn fuzzy_le_exec(a: &Item, b: &Item, query: &str) -> (r: bool)
    requires
        fuzzy_kept(*a, query@),
        fuzzy_kept(*b, query@),
    ensures
        r == fuzzy_le(*a, *b, query@),
{
    let ra = rank_exec(a, query);
    let rb = rank_exec(b, query);
    if ra < rb {
        true
    } else if ra == rb {
        a.text.as_str().unicode_len() <= b.text.as_str().unicode_len()
    } else {
        false
    }
}

/// The fuzzy matcher: every candidate that clears the relevance threshold,
/// ordered by the ranking.  The result is a permutation of the kept
/// candidates sorted by rank, shorter texts first among equals; the sort
/// is stable, so candidates sharing a key keep their source order -- the
/// last clause says their subsequence is untouched, and together with the
/// ordering it pins the whole result.
pub fn gen_matches_fuzzy(items: &Vec<Item>, query: &str) -> (r: Vec<Item>)
    ensures
        r@.to_multiset() == fuzzy_filter(items@, query@).to_multiset(),
        forall|k1: int, k2: int|
            0 <= k1 < k2 < r@.len() ==> fuzzy_le(#[trigger] r@[k1], #[trigger] r@[k2], query@),
        forall|rk: int, ln: int| #[trigger] r@.filter(key_class(query@, rk, ln)) == fuzzy_filter(
            items@,
            query@,
        ).filter(key_class(query@, rk, ln)),
{
    let ghost q = query@;
    let mut kept: Vec<Item> = Vec::new();
    let mut k: usize = 0;
    while k < items.len()
        invariant
            k <= items@.len(),
            q == query@,
            kept@ == fuzzy_filter(items@.take(k as int), q),
            forall|j: int| 0 <= j < kept@.len() ==> fuzzy_kept(#[trigger] kept@[j], q),
        decreases items@.len() - k,
    {
        let keep = match skim_fuzzy_match(items[k].text.as_str(), query) {
            Some(s) => s >= 0,
            Option::None => false,
        };
        if keep {
            kept.push(items[k].clone());
        }
        proof {
            assert(items@.take(k as int + 1) =~= items@.take(k as int).push(items@[k as int]));
            lemma_fuzzy_filter_push(items@.take(k as int), items@[k as int], q);
        }
        k = k + 1;
    }
    proof {
        assert(items@.take(items@.len() as int) =~= items@);
    }
    let ghost kept0 = kept@;
    let mut i: usize = 1;
    while i < kept.len()
        invariant
            1 <= i <= kept@.len() + 1,
            kept@.len() == kept0.len(),
            q == query@,
            kept@.to_multiset() == kept0.to_multiset(),
            forall|rk: int, ln: int| #[trigger] kept@.filter(key_class(q, rk, ln))
                == kept0.filter(key_class(q, rk, ln)),
            forall|j: int| 0 <= j < kept@.len() ==> fuzzy_kept(#[trigger] kept@[j], q),
            forall|a: int, b: int|
                0 <= a < b < i && b < kept@.len() ==> fuzzy_le(
                    #[trigger] kept@[a],
                    #[trigger] kept@[b],
                    q,
                ),
        decreases kept@.len() - i,
    {
        let mut j: usize = i;
        while j > 0 && !fuzzy_le_exec(&kept[j - 1], &kept[j], query)
            invariant
                q == query@,
                j <= i < kept@.len(),
                kept@.len() == kept0.len(),
                kept@.to_multiset() == kept0.to_multiset(),
                forall|rk: int, ln: int| #[trigger] kept@.filter(key_class(q, rk, ln))
                    == kept0.filter(key_class(q, rk, ln)),
                forall|m: int| 0 <= m < kept@.len() ==> fuzzy_kept(#[trigger] kept@[m], q),
                forall|a: int, b: int|
                    0 <= a < b <= i as int && b != j as int ==> fuzzy_le(
                        #[trigger] kept@[a],
                        #[trigger] kept@[b],
                        q,
                    ),
                forall|b: int|
                    j < b <= i as int ==> fuzzy_le(kept@[j as int], #[trigger] kept@[b], q),
            decreases j,
        {
            let ghost pre = kept@;
            let moved = kept.remove(j - 1);
            kept.insert(j, moved);
            proof {
                broadcast use vstd::seq_lib::group_to_multiset_ensures;

                assert(kept@ =~= pre.update(j - 1, pre[j as int]).update(j as int, pre[j - 1]));
                assert(pre.remove(j - 1).to_multiset() =~= pre.to_multiset().remove(pre[j - 1]));
                assert(kept@.to_multiset() =~= pre.to_multiset());
                assert forall|rk: int, ln: int| #[trigger] kept@.filter(key_class(q, rk, ln))
                    == kept0.filter(key_class(q, rk, ln)) by {
                    let pred = key_class(q, rk, ln);
                    assert(!(pred(pre[j - 1]) && pred(pre[j as int])));
                    lemma_swap_keeps_class(pre, j as int, pred);
                }
            }
            j = j - 1;
        }
        proof {
            assert forall|a: int, b: int| 0 <= a < b <= i as int implies fuzzy_le(
                #[trigger] kept@[a],
                #[trigger] kept@[b],
                q,
            ) by {
                if b == j as int {
                    assert(j > 0);
                    assert(fuzzy_le(kept@[j - 1], kept@[j as int], q));
                    if a < j - 1 {
                        assert(fuzzy_le(kept@[a], kept@[j - 1], q));
                    }
                }
            }
        }
        i = i + 1;
    }
    kept
}

/// The web-search strategy's engine table: each engine name and its query
/// URL, where `%s` stands for the search string.
pub open spec fn engine_url(e: Seq<char>) -> Option<Seq<char>> {
    if e == "ddg"@ {
        Some("https://duckduckgo.com/%s"@)
    } else if e == "crates"@ {
        Some("https://crates.io/crates/%s"@)
    } else if e == "docs"@ {
        Some("https://docs.rs/%s"@)
    } else if e == "rust"@ {
        Some("https://doc.rust-lang.org/std/?search=%s"@)
    } else if e == "github"@ {
        Some("https://github.com/search?q=%s"@)
    } else if e == "archwiki"@ {
        Some("https://wiki.archlinux.org/index.php?search=%s"@)
    } else if e == "dictionary"@ {
        Some("https://www.merriam-webster.com/dictionary/%s"@)
    } else if e == "thesaurus"@ {
        Some("https://www.merriam-webster.com/thesaurus/%s"@)
    } else {
        Option::None
    }
}

/// The query URL of an engine, or nothing for an unknown name.
pub fn engine_lookup(engine: &str) -> (r: Option<&'static str>)
    ensures
        r matches Some(u) ==> engine_url(engine@) == Some(u@),
        r is None <==> engine_url(engine@) is None,
{
    let e = engine.to_owned();
    if e.eq(&"ddg".to_owned()) {
        Some("https://duckduckgo.com/%s")
    } else if e.eq(&"crates".to_owned()) {
        Some("https://crates.io/crates/%s")
    } else if e.eq(&"docs".to_owned()) {
        Some("https://docs.rs/%s")
    } else if e.eq(&"rust".to_owned()) {
        Some("https://doc.rust-lang.org/std/?search=%s")
    } else if e.eq(&"github".to_owned()) {
        Some("https://github.com/search?q=%s")
    } else if e.eq(&"archwiki".to_owned()) {
        Some("https://wiki.archlinux.org/index.php?search=%s")
    } else if e.eq(&"dictionary".to_owned()) {
        Some("https://www.merriam-webster.com/dictionary/%s")
    } else if e.eq(&"thesaurus".to_owned()) {
        Some("https://www.merriam-webster.com/thesaurus/%s")
    } else {
        Option::None
    }
}

/// Every engine name the web-search strategy knows, in its fixed order.
pub fn engine_names() -> (r: Vec<String>)
    ensures
        r@.len() == 8,
        forall|k: int| 0 <= k < 8 ==> engine_url((#[trigger] r@[k])@) is Some,
{
    let mut v: Vec<String> = Vec::new();
    v.push("ddg".to_owned());
    v.push("crates".to_owned());
    v.push("docs".to_owned());
    v.push("rust".to_owned());
    v.push("github".to_owned());
    v.push("archwiki".to_owned());
    v.push("dictionary".to_owned());
    v.push("thesaurus".to_owned());
    v
}

/// The prompt the web-search strategy shows for an engine.
pub open spec fn search_prompt(engine: Seq<char>) -> Seq<char> {
    "[Search "@ + engine + "]"@
}

/// Format an engine name as the search prompt; an unknown engine is the
/// one error.
pub fn create_search_input(engine: &str) -> (r: CompResult<String>)
    ensures
        r matches Ok(s) ==> engine_url(engine@) is Some && s@ == search_prompt(engine@),
        r matches Err(d) ==> engine_url(engine@) is None && d is Stderr,
{
    match engine_lookup(engine) {
        Some(_) => {
            let mut s = "[Search ".to_owned();
            s.append(engine);
            s.append("]");
            Ok(s)
        },
        Option::None => {
            let mut m = "Invalid search engine ".to_owned();
            m.append(engine);
            m.append(". Valid options are: ");
            let names = engine_names();
            let mut k: usize = 0;
            while k < names.len()
                invariant
                    k <= names@.len(),
                decreases names@.len() - k,
            {
                if k > 0 {
                    m.append(", ");
                }
                m.append("\"");
                m.append(names[k].as_str());
                m.append("\"");
                k = k + 1;
            }
            Err(Die::Stderr(m))
        },
    }
}

/// The engine name carried inside a search prompt: everything between the
/// fixed prefix and the closing bracket.
pub open spec fn prompt_engine(prompt: Seq<char>) -> Seq<char> {
    if prompt.len() >= 9 {
        prompt.subrange(8, prompt.len() - 1)
    } else {
        Seq::empty()
    }
}

/// Extract the engine name back out of the search prompt.
pub fn engine_of_prompt(prompt: &str) -> (r: String)
    ensures
        r@ == prompt_engine(prompt@),
{
    let n = prompt.unicode_len();
    if n >= 9 {
        prompt.substring_char(8, n - 1).to_owned()
    } else {
        String::new()
    }
}

/// `s` with every occurrence of `%s`, scanned left to right, replaced.
pub open spec fn substituted(s: Seq<char>, rep: Seq<char>) -> Seq<char>
    decreases s.len(),
{
    if s.len() < 2 {
        s
    } else if s[0] == '%' && s[1] == 's' {
        rep + substituted(s.skip(2), rep)
    } else {
        seq![s[0]] + substituted(s.drop_first(), rep)
    }
}

/// The search URL for a committed query: the engine's URL with the query
/// substituted for `%s`.
pub fn substitute_query(url: &str, query: &str) -> (r: String)
    ensures
        r@ == substituted(url@, query@),
{
    let mut r = String::new();
    let n = url.unicode_len();
    let mut i: usize = 0;
    proof {
        assert(url@.skip(0) =~= url@);
        assert(r@ + substituted(url@, query@) =~= substituted(url@, query@));
    }
    while i < n
        invariant
            i <= n,
            n == url@.len(),
            r@ + substituted(url@.skip(i as int), query@) == substituted(url@, query@),
        decreases n - i,
    {
        let ghost r0 = r@;
        let ghost rest = url@.skip(i as int);
        let c = url.get_char(i);
        if c == '%' && i + 1 < n && url.get_char(i + 1) == 's' {
            r.append(query);
            proof {
                assert(rest.len() >= 2);
                assert(rest[0] == '%' && rest[1] == 's');
                assert(rest.skip(2) =~= url@.skip(i as int + 2));
                assert(substituted(rest, query@) == query@ + substituted(
                    url@.skip(i as int + 2),
                    query@,
                ));
                assert(r@ + substituted(url@.skip(i as int + 2), query@) =~= r0 + substituted(
                    rest,
                    query@,
                ));
            }
            i = i + 2;
        } else {
            r.append(url.substring_char(i, i + 1));
            proof {
                assert(url@.subrange(i as int, i as int + 1) =~= seq![url@[i as int]]);
                assert(rest[0] == url@[i as int]);
                if rest.len() < 2 {
                    assert(substituted(rest, query@) == rest);
                    assert(url@.skip(i as int + 1) =~= Seq::<char>::empty());
                    assert(rest =~= seq![url@[i as int]]);
                } else {
                    assert(rest[1] == url@[i as int + 1]);
                    assert(rest.drop_first() =~= url@.skip(i as int + 1));
                    assert(substituted(rest, query@) == seq![url@[i as int]] + substituted(
                        url@.skip(i as int + 1),
                        query@,
                    ));
                }
                assert(r@ + substituted(url@.skip(i as int + 1), query@) =~= r0 + substituted(
                    rest,
                    query@,
                ));
            }
            i = i + 1;
        }
    }
    proof {
        assert(url@.skip(n as int) =~= Seq::<char>::empty());
        assert(r@ + Seq::<char>::empty() =~= r@);
    }
    r
}

/// The spell-check strategy runs on text with no spaces: every space
/// cluster is dropped, and the cursor keeps its position among the
/// clusters that remain.
pub fn spellcheck_normalize(input: &mut InputState)
    requires
        old(input).wf(),
    ensures
        final(input).buf() == crate::input::keep_nonspace(old(input).buf()),
        final(input).cur() == crate::input::keep_nonspace(
            old(input).buf().take(old(input).cur()),
        ).len(),
        final(input).wf(),
{
    input.remove_space_graphemes()
}

} // verus!

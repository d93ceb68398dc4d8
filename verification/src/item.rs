//! Menu entries, and the pages they are laid out into.

use vstd::prelude::*;

verus! {

/// How a candidate relates to the current query.
#[derive(Debug, Clone, Copy, PartialEq, Eq, Structural)]
pub enum MatchCode {
    Exact,
    Prefix,
    Substring,
    NoMatch,
}

/// Layout direction of the menu: one row of items, or a column of lines.
#[derive(Debug, Clone, Copy, PartialEq, Eq, Structural)]
pub enum Direction {
    Vertical,
    Horizontal,
}

/// One selectable menu entry.
///
/// `width` is the rendered width in pixels, measured once by the rendering
/// collaborator when the entry is created and cached here.
#[derive(Debug)]
pub struct Item {
    pub text: String,
    pub out: bool,
    pub width: i32,
}

impl Item {
    /// A new entry; `width` is the measured rendered width of `text`.
    pub fn new(text: String, out: bool, width: i32) -> (r: Self)
        ensures
            r.text == text,
            r.out == out,
            r.width == width,
    {
        Item { text, out, width }
    }
}

impl Clone for Item {
    fn clone(&self) -> (r: Self)
        ensures
            r == *self,
    {
        Item { text: self.text.clone(), out: self.out, width: self.width }
    }
}

/// One page of matched entries, i.e. one screenful.
///
/// `leftover` is the slack: the width that remained unused when the page was
/// closed, available for right-alignment or for growing the input box.
#[derive(Debug)]
pub struct Partition {
    pub data: Vec<Item>,
    pub leftover: i32,
}

impl Partition {
    pub fn new(data: Vec<Item>, leftover: i32) -> (r: Self)
        ensures
            r.data == data,
            r.leftover == leftover,
    {
        Partition { data, leftover }
    }

    pub fn len(&self) -> (r: usize)
        ensures
            r == self.data@.len(),
    {
        self.data.len()
    }

    /// The entry at `index` within this page.
    pub fn get(&self, index: usize) -> (r: &Item)
        requires
            index < self.data@.len(),
        ensures
            *r == self.data@[index as int],
    {
        &self.data[index]
    }

    /// Splits a global selection index into `(local offset, page index)` by
    /// walking pages in order, exactly as the selection is resolved while
    /// drawing and navigating.
    pub fn decompose(haystack: &Vec<Partition>, curr: usize) -> (r: (usize, usize))
        requires
            curr < sum_lens(haystack@),
        ensures
            valid_pair(haystack@, r.1 as int, r.0 as int),
            curr == pair_to_index(haystack@, r.1 as int, r.0 as int),
            r.0 == resolve_spec(haystack@, curr as int).0,
            r.1 == resolve_spec(haystack@, curr as int).1,
    {
        proof {
            lemma_sum_upto_monotone(haystack@, 0, haystack@.len() as int);
        }
        let n: usize = haystack.len();
        let mut partition_i: usize = curr;
        let mut partition: usize = 0;
        while partition_i >= haystack[partition].data.len()
            invariant
                n == haystack@.len(),
                n > 0,
                partition < n,
                partition_i == curr - sum_lens_upto(haystack@, partition as int),
                sum_lens_upto(haystack@, partition as int) <= curr,
                curr < sum_lens(haystack@),
            decreases haystack@.len() - partition,
        {
            proof {
                if partition + 1 == haystack@.len() {
                    assert(sum_lens_upto(haystack@, partition as int + 1) == sum_lens(haystack@));
                }
            }
            partition_i = partition_i - haystack[partition].data.len();
            partition = partition + 1;
        }
        proof {
            lemma_resolve_spec_valid(haystack@, curr as int);
            let rs = resolve_spec(haystack@, curr as int);
            lemma_resolve_unique(
                haystack@,
                partition as int,
                partition_i as int,
                rs.1,
                rs.0,
            );
        }
        (partition_i, partition)
    }
}

/// The candidate set, the cached pages computed from it, and the selection.
#[derive(Debug)]
pub struct Items {
    /// Every candidate read from the source, in source order.
    pub data: Vec<Item>,
    /// The pages computed for the current query; rebuilt after every edit.
    pub cached_partitions: Vec<Partition>,
    /// Global index of the selected entry over all pages.
    pub curr: usize,
}

impl Items {
    /// The selection is in range whenever there is anything to select.
    pub open spec fn nav_wf(&self) -> bool {
        self.curr < sum_lens(self.cached_partitions@) || self.curr == 0
    }

    pub fn new(data: Vec<Item>) -> (r: Self)
        ensures
            r.data == data,
            r.cached_partitions@ == Seq::<Partition>::empty(),
            r.curr == 0,
            r.nav_wf(),
    {
        Items { data, cached_partitions: Vec::new(), curr: 0 }
    }

    /// Number of cached pages.
    pub fn match_len(&self) -> (r: usize)
        ensures
            r == self.cached_partitions@.len(),
    {
        self.cached_partitions.len()
    }

    /// Total number of matched entries over all cached pages.
    pub fn total_matched(&self) -> (r: usize)
        requires
            sum_lens(self.cached_partitions@) <= usize::MAX,
        ensures
            r == sum_lens(self.cached_partitions@),
    {
        total_len(&self.cached_partitions)
    }
}

/// Sum of the lengths of the first `k` pages.
pub open spec fn sum_lens_upto(ps: Seq<Partition>, k: int) -> int
    decreases k,
{
    if k <= 0 {
        0
    } else {
        sum_lens_upto(ps, k - 1) + ps[k - 1].data@.len()
    }
}

/// Total number of entries over all pages.
pub open spec fn sum_lens(ps: Seq<Partition>) -> int {
    sum_lens_upto(ps, ps.len() as int)
}

/// `(page, local)` points at an entry of one of the pages.
pub open spec fn valid_pair(ps: Seq<Partition>, page: int, local: int) -> bool {
    0 <= page < ps.len() && 0 <= local < ps[page].data@.len()
}

/// The global index that a `(page, local)` pair stands for.
pub open spec fn pair_to_index(ps: Seq<Partition>, page: int, local: int) -> int {
    sum_lens_upto(ps, page) + local
}

/// Some valid pair resolves to the global index `i`.
pub open spec fn has_pair(ps: Seq<Partition>, i: int) -> bool {
    exists|p: int, l: int| valid_pair(ps, p, l) && i == pair_to_index(ps, p, l)
}

/// The `(local, page)` pair that the walk of `decompose` arrives at:
/// subtract page lengths from the front until the remainder fits.
pub open spec fn resolve_spec(ps: Seq<Partition>, i: int) -> (int, int)
    decreases ps.len(),
{
    if ps.len() == 0 {
        (i, 0)
    } else if i < ps[0].data@.len() {
        (i, 0)
    } else {
        let rest = resolve_spec(ps.drop_first(), i - ps[0].data@.len());
        (rest.0, rest.1 + 1)
    }
}

/// For an index in range, the resolved pair is valid and resolves back to
/// the index.
pub proof fn lemma_resolve_spec_valid(ps: Seq<Partition>, i: int)
    requires
        0 <= i < sum_lens(ps),
    ensures
        valid_pair(ps, resolve_spec(ps, i).1, resolve_spec(ps, i).0),
        i == pair_to_index(ps, resolve_spec(ps, i).1, resolve_spec(ps, i).0),
    decreases ps.len(),
{
    if ps.len() == 0 {
        assert(sum_lens(ps) == 0);
    } else if i < ps[0].data@.len() {
        assert(sum_lens_upto(ps, 0) == 0);
    } else {
        let df = ps.drop_first();
        lemma_sum_lens_drop_first(ps);
        lemma_resolve_spec_valid(df, i - ps[0].data@.len());
        let p = resolve_spec(df, i - ps[0].data@.len()).1;
        lemma_sum_upto_drop_first(ps, p + 1);
        assert(df[p] == ps[p + 1]);
    }
}

/// The total is the first page's length plus the total of the rest.
pub proof fn lemma_sum_lens_drop_first(ps: Seq<Partition>)
    requires
        ps.len() > 0,
    ensures
        sum_lens(ps) == ps[0].data@.len() + sum_lens(ps.drop_first()),
{
    lemma_sum_upto_drop_first(ps, ps.len() as int);
}

/// The same, for every prefix length.
proof fn lemma_sum_upto_drop_first(ps: Seq<Partition>, k: int)
    requires
        ps.len() > 0,
        1 <= k <= ps.len(),
    ensures
        sum_lens_upto(ps, k) == ps[0].data@.len() + sum_lens_upto(ps.drop_first(), k - 1),
    decreases k,
{
    if k == 1 {
        assert(sum_lens_upto(ps, 1) == sum_lens_upto(ps, 0) + ps[0].data@.len());
        assert(sum_lens_upto(ps, 0) == 0);
        assert(sum_lens_upto(ps.drop_first(), 0) == 0);
    } else {
        lemma_sum_upto_drop_first(ps, k - 1);
        assert(ps.drop_first()[k - 2] == ps[k - 1]);
        assert(sum_lens_upto(ps, k) == sum_lens_upto(ps, k - 1) + ps[k - 1].data@.len());
        assert(sum_lens_upto(ps.drop_first(), k - 1) == sum_lens_upto(ps.drop_first(), k - 2)
            + ps.drop_first()[k - 2].data@.len());
    }
}

/// Prefix sums of page lengths never decrease.
pub proof fn lemma_sum_upto_monotone(ps: Seq<Partition>, k: int, m: int)
    requires
        k <= m,
    ensures
        sum_lens_upto(ps, k) <= sum_lens_upto(ps, m),
    decreases m - k,
{
    if k < m {
        lemma_sum_upto_monotone(ps, k, m - 1);
    }
}

/// Exact total of the cached pages, computed by walking them.
///
/// The total fits in a `usize` because the pages are slices of one list
/// that itself fits in memory; the caller knows this, the walk does not.
pub fn total_len(ps: &Vec<Partition>) -> (r: usize)
    requires
        sum_lens(ps@) <= usize::MAX,
    ensures
        r == sum_lens(ps@),
{
    let mut acc: usize = 0;
    let mut k: usize = 0;
    while k < ps.len()
        invariant
            k <= ps@.len(),
            acc == sum_lens_upto(ps@, k as int),
            sum_lens(ps@) <= usize::MAX,
        decreases ps@.len() - k,
    {
        proof {
            lemma_sum_upto_fits(ps@, k as int + 1);
            lemma_sum_upto_monotone(ps@, 0, k as int);
        }
        acc = acc + ps[k].data.len();
        k = k + 1;
    }
    acc
}

/// Each page holds at most `usize::MAX` entries and they all exist in
/// memory, so the running totals fit in a `usize`.
pub proof fn lemma_sum_upto_fits(ps: Seq<Partition>, k: int)
    requires
        0 <= k <= ps.len(),
    ensures
        sum_lens_upto(ps, k) <= sum_lens(ps),
{
    lemma_sum_upto_monotone(ps, k, ps.len() as int);
}

/// No two distinct `(page, local)` pairs stand for the same global index.
pub proof fn lemma_resolve_unique(ps: Seq<Partition>, p1: int, l1: int, p2: int, l2: int)
    requires
        valid_pair(ps, p1, l1),
        valid_pair(ps, p2, l2),
        pair_to_index(ps, p1, l1) == pair_to_index(ps, p2, l2),
    ensures
        p1 == p2,
        l1 == l2,
{
    if p1 < p2 {
        lemma_sum_upto_monotone(ps, p1 + 1, p2);
    }
    if p2 < p1 {
        lemma_sum_upto_monotone(ps, p2 + 1, p1);
    }
}

/// Resolving a global index to a `(page, local)` pair is a bijection
/// between `[0, total)` and the valid pairs: every valid pair maps into
/// range, no two pairs share an index, and every index is hit.
pub proof fn lemma_resolve_bijection(ps: Seq<Partition>)
    ensures
        forall|p: int, l: int|
            valid_pair(ps, p, l) ==> 0 <= #[trigger] pair_to_index(ps, p, l) < sum_lens(ps),
        forall|p1: int, l1: int, p2: int, l2: int|
            valid_pair(ps, p1, l1) && valid_pair(ps, p2, l2)
                && #[trigger] pair_to_index(ps, p1, l1) == #[trigger] pair_to_index(ps, p2, l2)
                ==> p1 == p2 && l1 == l2,
        forall|i: int| 0 <= i < sum_lens(ps) ==> #[trigger] has_pair(ps, i),
{
    assert forall|p: int, l: int| valid_pair(ps, p, l)
        implies 0 <= #[trigger] pair_to_index(ps, p, l) < sum_lens(ps) by {
        lemma_sum_upto_monotone(ps, 0, p);
        lemma_sum_upto_monotone(ps, p + 1, ps.len() as int);
    }
    assert forall|p1: int, l1: int, p2: int, l2: int|
        valid_pair(ps, p1, l1) && valid_pair(ps, p2, l2)
            && #[trigger] pair_to_index(ps, p1, l1) == #[trigger] pair_to_index(ps, p2, l2)
        implies p1 == p2 && l1 == l2 by {
        lemma_resolve_unique(ps, p1, l1, p2, l2);
    }
    assert forall|i: int| 0 <= i < sum_lens(ps) implies #[trigger] has_pair(ps, i) by {
        lemma_index_has_pair(ps, i, 0);
    }
}

/// Every global index in range comes from some valid pair at or after
/// page `k`, provided the first `k` pages end at or before it.
proof fn lemma_index_has_pair(ps: Seq<Partition>, i: int, k: int)
    requires
        0 <= k <= ps.len(),
        sum_lens_upto(ps, k) <= i < sum_lens(ps),
    ensures
        has_pair(ps, i),
    decreases ps.len() - k,
{
    if k == ps.len() {
        assert(false);
    } else if i < sum_lens_upto(ps, k + 1) {
        let l = i - sum_lens_upto(ps, k);
        assert(valid_pair(ps, k, l) && i == pair_to_index(ps, k, l));
    } else {
        lemma_index_has_pair(ps, i, k + 1);
    }
}

} // verus!

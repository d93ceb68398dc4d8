//! The paginator: splitting the matched list into pages.
//!
//! Two modes.  With `lines > 0` the list is cut into consecutive chunks of
//! that many entries.  With `lines == 0` entries flow horizontally: a running
//! width starts at the room taken by the prompt and the input box, and a page
//! closes when the next entry would not fit beside the reserved arrow glyph.

use vstd::prelude::*;

use crate::config::{Config, DefaultWidth};
use crate::item::{Direction, Item, Partition};

verus! {

/// Pixel widths handed to the paginator stay below this bound, so the
/// running totals fit comfortably in an `i32` exactly as they are computed.
pub const WIDTH_LIMIT: i32 = 0x100_0000;

/// The measured widths that the paginator works from.
pub struct Layout {
    /// Total width available to the menu bar.
    pub avail_w: i32,
    /// Width reserved for the prompt label.
    pub prompt_w: i32,
    /// Width reserved for the input box.
    pub input_w: i32,
}

impl Layout {
    /// The input-box width may go negative under the maximised policy,
    /// when the selected entry and the glyphs take more than the bar has.
    pub open spec fn wf(&self) -> bool {
        0 <= self.avail_w <= WIDTH_LIMIT && 0 <= self.prompt_w <= WIDTH_LIMIT && -4 * WIDTH_LIMIT
            <= self.input_w <= WIDTH_LIMIT
    }
}

/// A page reduced to what it says: its entries and its leftover slack.
pub type PageView = (Seq<Item>, int);

/// The pages as mathematical values.
pub open spec fn pages_view(ps: Seq<Partition>) -> Seq<PageView> {
    ps.map_values(|p: Partition| (p.data@, p.leftover as int))
}

/// Concatenation of all pages, in order.
pub open spec fn flatten_pages(ps: Seq<PageView>) -> Seq<Item>
    decreases ps.len(),
{
    if ps.len() == 0 {
        Seq::empty()
    } else {
        ps[0].0 + flatten_pages(ps.drop_first())
    }
}

/// Every page holds at least one entry.
pub open spec fn pages_nonempty(ps: Seq<PageView>) -> bool {
    forall|k: int| 0 <= k < ps.len() ==> #[trigger] ps[k].0.len() > 0
}

/// The fixed inputs of one horizontal layout pass.
pub struct FlowParams {
    /// Width available to the whole bar.
    pub w: int,
    /// Running width at the start of the first page.
    pub seed_first: int,
    /// Running width at the start of every later page, before its first item.
    pub seed_rest: int,
    /// Width of the leading "back" glyph.
    pub langle: int,
    /// Width of the trailing "more" glyph.
    pub rangle: int,
    /// Close a page after every entry (the maximised input-box policy).
    pub force_break: bool,
}

/// The widths the original pass seeds itself with: prompt plus input box,
/// with the back-glyph width reserved up front under the `Items` policy,
/// and always reserved once a page has a back glyph to draw.
pub open spec fn flow_params(cfg: Config, lay: Layout, langle_w: int, rangle_w: int) -> FlowParams {
    let base = lay.prompt_w + lay.input_w;
    FlowParams {
        w: lay.avail_w as int,
        seed_first: if cfg.render_default_width == DefaultWidth::Items {
            base + langle_w
        } else {
            base
        },
        seed_rest: base + langle_w,
        langle: langle_w,
        rangle: rangle_w,
        force_break: cfg.render_default_width == DefaultWidth::Max,
    }
}

/// One step of the greedy flow: the page closes when the entry just added
/// overruns the width left beside the trailing glyph (the final entry is
/// measured against the full width instead), or unconditionally under the
/// forced policy -- unless this is the one page there will ever be and only
/// the reserved trailing glyph made it overrun, or the page is still empty.
pub open spec fn flow_rec(
    items: Seq<Item>,
    i: int,
    x: int,
    build: Seq<Item>,
    pages: Seq<PageView>,
    p: FlowParams,
) -> Seq<PageView>
    decreases items.len() - i,
{
    if i < 0 || i >= items.len() {
        if build.len() > 0 {
            let leftover = if pages.len() == 0 {
                p.w - x
            } else {
                p.w - x - p.langle
            };
            pages.push((build, leftover))
        } else {
            pages
        }
    } else {
        let item = items[i];
        let last = i == items.len() - 1;
        let x1 = x + item.width;
        let width_comp = if last {
            p.w
        } else {
            p.w - p.rangle
        };
        let leftover = width_comp - x;
        let close = (x1 > width_comp || p.force_break) && !(pages.len() == 0 && last && x1 < p.w
            + p.rangle) && build.len() > 0;
        if close {
            flow_rec(
                items,
                i + 1,
                p.seed_rest + item.width,
                seq![item],
                pages.push((build, leftover)),
                p,
            )
        } else {
            flow_rec(items, i + 1, x1, build.push(item), pages, p)
        }
    }
}

/// The pages of the horizontal flow layout.
pub open spec fn flow_spec(items: Seq<Item>, p: FlowParams) -> Seq<PageView> {
    flow_rec(items, 0, p.seed_first, Seq::empty(), Seq::empty(), p)
}

/// The pages of the vertical layout: consecutive chunks of `lines` entries.
pub open spec fn chunk_spec(items: Seq<Item>, lines: int) -> Seq<PageView> {
    Seq::new(
        ((items.len() + lines - 1) / lines) as nat,
        |k: int|
            (
                items.subrange(
                    k * lines,
                    if (k + 1) * lines <= items.len() {
                        (k + 1) * lines
                    } else {
                        items.len() as int
                    },
                ),
                0,
            ),
    )
}

/// Every width the paginator adds up is a small nonnegative pixel count.
pub open spec fn widths_bounded(items: Seq<Item>) -> bool {
    forall|k: int| 0 <= k < items.len() ==> 0 <= #[trigger] items[k].width <= WIDTH_LIMIT
}

/// Splits the matched list into pages.
///
/// Vertically the pages are exactly the consecutive chunks of `cfg.lines`
/// entries.  Horizontally they are exactly the greedy flow of `flow_spec`.
/// Either way the pages concatenate back to the input with nothing dropped,
/// duplicated or reordered, and no page is empty.
pub fn partition_matches(
    input: Vec<Item>,
    direction: &Direction,
    cfg: &Config,
    lay: &Layout,
    langle_width: i32,
    rangle_width: i32,
) -> (r: Vec<Partition>)
    requires
        *direction == Direction::Vertical ==> cfg.lines > 0,
        *direction == Direction::Horizontal ==> lay.wf() && widths_bounded(input@) && 0
            <= langle_width <= WIDTH_LIMIT && 0 <= rangle_width <= WIDTH_LIMIT,
    ensures
        *direction == Direction::Horizontal ==> pages_view(r@) == flow_spec(
            input@,
            flow_params(*cfg, *lay, langle_width as int, rangle_width as int),
        ),
        *direction == Direction::Vertical ==> pages_view(r@) == chunk_spec(
            input@,
            cfg.lines as int,
        ),
        flatten_pages(pages_view(r@)) == input@,
        pages_nonempty(pages_view(r@)),
        leftovers_bounded(r@),
{
    match direction {
        Direction::Horizontal => {
            let r = flow_partition(input, cfg, lay, langle_width, rangle_width);
            proof {
                lemma_flow_spec_covers(
                    input@,
                    flow_params(*cfg, *lay, langle_width as int, rangle_width as int),
                );
            }
            r
        },
        Direction::Vertical => {
            let r = chunk_partition(input, cfg.lines);
            proof {
                lemma_chunk_covers(input@, cfg.lines as int);
            }
            r
        },
    }
}

/// Every page's slack is a modest multiple of the width limit, so later
/// arithmetic on it cannot overflow.
pub open spec fn leftovers_bounded(ps: Seq<Partition>) -> bool {
    forall|k: int|
        0 <= k < ps.len() ==> -6 * WIDTH_LIMIT <= (#[trigger] ps[k]).leftover <= 6 * WIDTH_LIMIT
}

/// Appending a page with modest slack keeps every slack modest.
proof fn lemma_leftovers_push(ps: Seq<Partition>, p: Partition)
    requires
        leftovers_bounded(ps),
        -6 * WIDTH_LIMIT <= p.leftover <= 6 * WIDTH_LIMIT,
    ensures
        leftovers_bounded(ps.push(p)),
{
    assert forall|k: int| 0 <= k < ps.push(p).len() implies -6 * WIDTH_LIMIT <= (#[trigger] ps.push(
        p,
    )[k]).leftover <= 6 * WIDTH_LIMIT by {
        if k < ps.len() {
            assert(ps.push(p)[k] == ps[k]);
        } else {
            assert(ps.push(p)[k] == p);
        }
    }
}

/// The greedy horizontal pass, exactly as `flow_spec` describes it.
fn flow_partition(
    input: Vec<Item>,
    cfg: &Config,
    lay: &Layout,
    langle_width: i32,
    rangle_width: i32,
) -> (r: Vec<Partition>)
    requires
        lay.wf(),
        widths_bounded(input@),
        0 <= langle_width <= WIDTH_LIMIT,
        0 <= rangle_width <= WIDTH_LIMIT,
    ensures
        pages_view(r@) == flow_spec(
            input@,
            flow_params(*cfg, *lay, langle_width as int, rangle_width as int),
        ),
        leftovers_bounded(r@),
{
    let ghost p = flow_params(*cfg, *lay, langle_width as int, rangle_width as int);
    let mut partitions: Vec<Partition> = Vec::new();
    let mut partition_build: Vec<Item> = Vec::new();
    let mut x: i32 = if cfg.render_default_width == DefaultWidth::Items {
        lay.prompt_w + lay.input_w + langle_width
    } else {
        lay.prompt_w + lay.input_w
    };
    let force_break = cfg.render_default_width == DefaultWidth::Max;
    let n = input.len();
    let mut i: usize = 0;
    proof {
        assert(pages_view(partitions@) =~= Seq::<PageView>::empty());
        assert(partition_build@ =~= Seq::<Item>::empty());
    }
    while i < n
        invariant
            n == input@.len(),
            i <= n,
            widths_bounded(input@),
            lay.wf(),
            0 <= langle_width <= WIDTH_LIMIT,
            0 <= rangle_width <= WIDTH_LIMIT,
            p == flow_params(*cfg, *lay, langle_width as int, rangle_width as int),
            force_break == p.force_break,
            -4 * WIDTH_LIMIT <= x <= 4 * WIDTH_LIMIT,
            partition_build@.len() == 0 ==> x <= 3 * WIDTH_LIMIT,
            i > 0 && i < n ==> partition_build@.len() > 0,
            leftovers_bounded(partitions@),
            flow_rec(input@, i as int, x as int, partition_build@, pages_view(partitions@), p)
                == flow_spec(input@, p),
        decreases n - i,
    {
        let item_width = input[i].width;
        let precomp_width = x;
        let x1 = x + item_width;
        let width_comp = if i + 1 < n {
            lay.avail_w - rangle_width
        } else {
            lay.avail_w
        };
        let leftover = width_comp - precomp_width;
        let overrun = x1 > width_comp || force_break;
        let exempt = partitions.len() == 0 && i + 1 == n && x1 < lay.avail_w + rangle_width;
        if overrun && !exempt && partition_build.len() > 0 {
            let ghost old_pages = pages_view(partitions@);
            let ghost old_build = partition_build@;
            let ghost old_parts = partitions@;
            let full = partition_build;
            partition_build = Vec::new();
            let closed = Partition::new(full, leftover);
            proof {
                lemma_leftovers_push(old_parts, closed);
            }
            partitions.push(closed);
            proof {
                assert(pages_view(partitions@) =~= old_pages.push((old_build, leftover as int)));
            }
            x = lay.prompt_w + lay.input_w + langle_width + item_width;
            partition_build.push(input[i].clone());
            proof {
                assert(partition_build@ =~= seq![input@[i as int]]);
            }
        } else {
            x = x1;
            partition_build.push(input[i].clone());
        }
        i = i + 1;
    }
    if partition_build.len() > 0 {
        let leftover = if partitions.len() == 0 {
            lay.avail_w - x
        } else {
            lay.avail_w - x - langle_width
        };
        let ghost old_pages = pages_view(partitions@);
        let ghost old_build = partition_build@;
        let ghost old_parts = partitions@;
        let closed = Partition::new(partition_build, leftover);
        proof {
            lemma_leftovers_push(old_parts, closed);
        }
        partitions.push(closed);
        proof {
            assert(pages_view(partitions@) =~= old_pages.push((old_build, leftover as int)));
        }
    }
    partitions
}

/// The vertical pass: consecutive chunks of `lines` entries, zero slack.
fn chunk_partition(input: Vec<Item>, lines: u32) -> (r: Vec<Partition>)
    requires
        lines > 0,
    ensures
        pages_view(r@) == chunk_spec(input@, lines as int),
        leftovers_bounded(r@),
{
    let l = lines as usize;
    let mut partitions: Vec<Partition> = Vec::new();
    let mut k: usize = 0;
    let n = input.len();
    let ghost q = (input@.len() + lines - 1) as int / lines as int;
    while k < n
        invariant
            n == input@.len(),
            k <= n,
            l == lines as usize,
            l > 0,
            q == (n + l - 1) as int / l as int,
            partitions@.len() <= q,
            k as int == if partitions@.len() * l <= n {
                partitions@.len() * l
            } else {
                n as int
            },
            pages_view(partitions@) =~= chunk_spec(input@, lines as int).take(
                partitions@.len() as int,
            ),
            leftovers_bounded(partitions@),
        decreases n - k,
    {
        proof {
            lemma_chunk_step(n as int, l as int, partitions@.len() as int);
        }
        let end = if n - k > l {
            k + l
        } else {
            n
        };
        let mut chunk: Vec<Item> = Vec::new();
        let mut j: usize = k;
        while j < end
            invariant
                k <= j <= end <= n,
                n == input@.len(),
                chunk@ =~= input@.subrange(k as int, j as int),
            decreases end - j,
        {
            chunk.push(input[j].clone());
            proof {
                assert(chunk@ =~= input@.subrange(k as int, j as int + 1));
            }
            j = j + 1;
        }
        let ghost old_pages = pages_view(partitions@);
        let ghost chunk_view = chunk@;
        let ghost old_parts = partitions@;
        let page = Partition::new(chunk, 0);
        proof {
            lemma_chunk_take_push(input@, lines as int, old_pages.len() as int);
            lemma_leftovers_push(old_parts, page);
        }
        partitions.push(page);
        proof {
            assert(pages_view(partitions@) =~= old_pages.push((chunk_view, 0int)));
        }
        k = end;
    }
    proof {
        lemma_chunk_count(input@.len() as int, lines as int, partitions@.len() as int);
        assert(pages_view(partitions@) =~= chunk_spec(input@, lines as int));
    }
    partitions
}

/// Arithmetic facts for one chunking step: a page count that has not yet
/// covered the list is below the rounded-up total, and the next chunk's
/// bounds line up.
proof fn lemma_chunk_step(n: int, lines: int, count: int)
    requires
        lines > 0,
        n >= 0,
        count >= 0,
        count * lines < n,
    ensures
        count + 1 <= (n + lines - 1) / lines,
        (count + 1) * lines == count * lines + lines,
{
    let q = (n + lines - 1) / lines;
    vstd::arithmetic::div_mod::lemma_fundamental_div_mod(n + lines - 1, lines);
    vstd::arithmetic::div_mod::lemma_mod_bound(n + lines - 1, lines);
    if count + 1 > q {
        vstd::arithmetic::mul::lemma_mul_inequality(q, count, lines);
    }
    vstd::arithmetic::mul::lemma_mul_is_distributive_add_other_way(lines, count, 1);
}

/// Arithmetic helper: once `count * lines` reaches the end of the list and
/// `count` never overshot, `count` is exactly the rounded-up page count.
proof fn lemma_chunk_count(n: int, lines: int, count: int)
    requires
        lines > 0,
        n >= 0,
        count >= 0,
        count * lines >= n,
        count <= (n + lines - 1) / lines,
    ensures
        count == (n + lines - 1) / lines,
{
    let q = (n + lines - 1) / lines;
    vstd::arithmetic::div_mod::lemma_fundamental_div_mod(n + lines - 1, lines);
    vstd::arithmetic::div_mod::lemma_mod_bound(n + lines - 1, lines);
    if count < q {
        vstd::arithmetic::mul::lemma_mul_inequality(count, q - 1, lines);
        vstd::arithmetic::mul::lemma_mul_is_distributive_sub_other_way(lines, q, 1);
    }
}

/// Facts about the rounded-up page count `q = (n + l - 1) / l`: it is the
/// least count whose pages cover `n` entries.
proof fn lemma_ceil_div(n: int, l: int)
    requires
        l > 0,
        n >= 0,
    ensures
        ((n + l - 1) / l) >= 0,
        ((n + l - 1) / l) * l >= n,
        ((n + l - 1) / l) * l < n + l,
{
    let q = (n + l - 1) / l;
    vstd::arithmetic::div_mod::lemma_fundamental_div_mod(n + l - 1, l);
    vstd::arithmetic::div_mod::lemma_mod_bound(n + l - 1, l);
    vstd::arithmetic::div_mod::lemma_div_pos_is_pos(n + l - 1, l);
    vstd::arithmetic::mul::lemma_mul_is_commutative(q, l);
}

/// A page index below the rounded-up count starts strictly inside the list.
proof fn lemma_chunk_in_range(n: int, l: int, k: int)
    requires
        l > 0,
        n >= 0,
        0 <= k < (n + l - 1) / l,
    ensures
        k * l < n,
        k * l + l == (k + 1) * l,
{
    let q = (n + l - 1) / l;
    lemma_ceil_div(n, l);
    vstd::arithmetic::mul::lemma_mul_inequality(k, q - 1, l);
    vstd::arithmetic::mul::lemma_mul_is_distributive_sub_other_way(l, q, 1);
    vstd::arithmetic::mul::lemma_mul_is_distributive_add_other_way(l, k, 1);
}

/// Extending the taken prefix of the chunk spec by one page appends the
/// next chunk.
proof fn lemma_chunk_take_push(items: Seq<Item>, lines: int, k: int)
    requires
        lines > 0,
        0 <= k,
        k * lines < items.len(),
    ensures
        k + 1 <= chunk_spec(items, lines).len(),
        chunk_spec(items, lines).take(k + 1) =~= chunk_spec(items, lines).take(k).push(
            chunk_spec(items, lines)[k],
        ),
{
    let n = items.len() as int;
    let q = (n + lines - 1) / lines;
    lemma_ceil_div(n, lines);
    if k + 1 > q {
        vstd::arithmetic::mul::lemma_mul_inequality(q, k, lines);
    }
}

/// Chunked mode produces exactly the rounded-up page count; every page
/// except possibly the last holds exactly `lines` entries, and the last
/// holds whatever remains.
pub proof fn lemma_chunk_sizes(items: Seq<Item>, lines: int)
    requires
        lines > 0,
    ensures
        chunk_spec(items, lines).len() == (items.len() + lines - 1) / lines,
        forall|k: int|
            0 <= k < chunk_spec(items, lines).len() - 1 ==> (#[trigger] chunk_spec(
                items,
                lines,
            )[k]).0.len() == lines,
        chunk_spec(items, lines).len() > 0 ==> chunk_spec(items, lines).last().0.len()
            == items.len() - (chunk_spec(items, lines).len() - 1) * lines,
{
    let n = items.len() as int;
    let q = (n + lines - 1) / lines;
    lemma_ceil_div(n, lines);
    assert forall|k: int| 0 <= k < q - 1 implies (#[trigger] chunk_spec(items, lines)[k]).0.len()
        == lines by {
        lemma_chunk_in_range(n, lines, k);
        lemma_chunk_in_range(n, lines, k + 1);
    }
    if q > 0 {
        lemma_chunk_in_range(n, lines, q - 1);
    }
}

/// The chunks concatenate back to the whole list and none is empty.
pub proof fn lemma_chunk_covers(items: Seq<Item>, lines: int)
    requires
        lines > 0,
    ensures
        flatten_pages(chunk_spec(items, lines)) == items,
        pages_nonempty(chunk_spec(items, lines)),
{
    let n = items.len() as int;
    lemma_chunk_covers_from(items, lines, 0);
    assert(chunk_spec(items, lines).skip(0) =~= chunk_spec(items, lines));
    assert(items.skip(0) =~= items);
    assert forall|k: int| 0 <= k < chunk_spec(items, lines).len()
        implies #[trigger] chunk_spec(items, lines)[k].0.len() > 0 by {
        lemma_chunk_in_range(n, lines, k);
    }
}

/// The chunks from page `k` on concatenate to the tail that starts where
/// page `k` starts.
proof fn lemma_chunk_covers_from(items: Seq<Item>, lines: int, k: int)
    requires
        lines > 0,
        0 <= k <= chunk_spec(items, lines).len(),
    ensures
        flatten_pages(chunk_spec(items, lines).skip(k)) =~= items.skip(
            if k * lines <= items.len() {
                k * lines
            } else {
                items.len() as int
            },
        ),
    decreases chunk_spec(items, lines).len() - k,
{
    let cs = chunk_spec(items, lines);
    let n = items.len() as int;
    let q = (n + lines - 1) / lines;
    lemma_ceil_div(n, lines);
    if k == cs.len() {
        if k * lines < n {
            lemma_chunk_in_range(n, lines, k);
            assert(false);
        }
        assert(cs.skip(k).len() == 0);
        assert(items.skip(n).len() == 0);
    } else {
        lemma_chunk_in_range(n, lines, k);
        lemma_chunk_covers_from(items, lines, k + 1);
        assert(cs.skip(k).drop_first() =~= cs.skip(k + 1));
        assert(flatten_pages(cs.skip(k)) == cs.skip(k)[0].0 + flatten_pages(cs.skip(k + 1)));
        let m = if (k + 1) * lines <= n {
            (k + 1) * lines
        } else {
            n
        };
        assert(cs[k].0 == items.subrange(k * lines, m));
        assert(items.subrange(k * lines, m) + items.skip(m) =~= items.skip(k * lines));
    }
}

/// The flow pages concatenate back to the whole list and none is empty.
pub proof fn lemma_flow_spec_covers(items: Seq<Item>, p: FlowParams)
    ensures
        flatten_pages(flow_spec(items, p)) == items,
        pages_nonempty(flow_spec(items, p)),
{
    lemma_flow_rec_covers(items, 0, p.seed_first, Seq::empty(), Seq::empty(), p);
    assert(flatten_pages(Seq::<PageView>::empty()) + Seq::<Item>::empty() =~= items.take(0));
    assert(flatten_pages(flow_spec(items, p)) =~= items.take(items.len() as int));
    assert(items.take(items.len() as int) =~= items);
}

/// Invariant of the greedy pass: the closed pages plus the page being built
/// hold exactly the entries seen so far, and closed pages are never empty.
proof fn lemma_flow_rec_covers(
    items: Seq<Item>,
    i: int,
    x: int,
    build: Seq<Item>,
    pages: Seq<PageView>,
    p: FlowParams,
)
    requires
        0 <= i <= items.len(),
        flatten_pages(pages) + build =~= items.take(i),
        pages_nonempty(pages),
        i > 0 && i < items.len() ==> build.len() > 0,
    ensures
        flatten_pages(flow_rec(items, i, x, build, pages, p)) =~= items.take(items.len() as int),
        pages_nonempty(flow_rec(items, i, x, build, pages, p)),
    decreases items.len() - i,
{
    if i >= items.len() {
        if build.len() > 0 {
            let leftover = if pages.len() == 0 {
                p.w - x
            } else {
                p.w - x - p.langle
            };
            lemma_flatten_push(pages, (build, leftover));
            lemma_nonempty_push(pages, (build, leftover));
        }
    } else {
        let item = items[i];
        let last = i == items.len() - 1;
        let x1 = x + item.width;
        let width_comp = if last {
            p.w
        } else {
            p.w - p.rangle
        };
        let leftover = width_comp - x;
        let close = (x1 > width_comp || p.force_break) && !(pages.len() == 0 && last && x1 < p.w
            + p.rangle) && build.len() > 0;
        assert(items.take(i + 1) =~= items.take(i).push(item));
        if close {
            lemma_flatten_push(pages, (build, leftover));
            lemma_nonempty_push(pages, (build, leftover));
            lemma_flow_rec_covers(
                items,
                i + 1,
                p.seed_rest + item.width,
                seq![item],
                pages.push((build, leftover)),
                p,
            );
        } else {
            lemma_flow_rec_covers(items, i + 1, x1, build.push(item), pages, p);
        }
    }
}

/// Appending a non-empty page keeps every page non-empty.
proof fn lemma_nonempty_push(pages: Seq<PageView>, page: PageView)
    requires
        pages_nonempty(pages),
        page.0.len() > 0,
    ensures
        pages_nonempty(pages.push(page)),
{
    assert forall|k: int| 0 <= k < pages.push(page).len()
        implies #[trigger] pages.push(page)[k].0.len() > 0 by {
        if k < pages.len() {
            assert(pages.push(page)[k] == pages[k]);
        } else {
            assert(pages.push(page)[k] == page);
        }
    }
}

/// Concatenation distributes over appending one page.
proof fn lemma_flatten_push(pages: Seq<PageView>, page: PageView)
    ensures
        flatten_pages(pages.push(page)) =~= flatten_pages(pages) + page.0,
    decreases pages.len(),
{
    if pages.len() == 0 {
        assert(pages.push(page).drop_first() =~= Seq::<PageView>::empty());
        assert(flatten_pages(pages.push(page)) == page.0 + flatten_pages(
            Seq::<PageView>::empty(),
        ));
        assert(flatten_pages(pages.push(page)) =~= page.0);
        assert(flatten_pages(pages) + page.0 =~= page.0);
    } else {
        lemma_flatten_push(pages.drop_first(), page);
        assert(pages.push(page).drop_first() =~= pages.drop_first().push(page));
        assert(flatten_pages(pages.push(page)) == pages[0].0 + flatten_pages(
            pages.drop_first().push(page),
        ));
        assert(pages[0].0 + (flatten_pages(pages.drop_first()) + page.0) =~= (pages[0].0
            + flatten_pages(pages.drop_first())) + page.0);
    }
}

/// The total entry count over the pages equals the length of what they
/// concatenate to.
pub proof fn lemma_flatten_len(ps: Seq<Partition>)
    ensures
        flatten_pages(pages_view(ps)).len() == crate::item::sum_lens(ps),
    decreases ps.len(),
{
    if ps.len() > 0 {
        assert(pages_view(ps).drop_first() =~= pages_view(ps.drop_first()));
        lemma_flatten_len(ps.drop_first());
        crate::item::lemma_sum_lens_drop_first(ps);
    }
}

} // verus!

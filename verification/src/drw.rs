//! The compute side of drawing one frame: which width the input box gets,
//! how the matched entries become pages, and where the text cursor lands.
//!
//! The rendering collaborator measures text and draws; everything it needs
//! to decide is computed here from plain pixel widths.

use vstd::prelude::*;

use crate::config::DefaultWidth;
use crate::item::{resolve_spec, sum_lens, Item, Partition};
use crate::pages::{
    chunk_spec, flow_spec, pages_view, partition_matches, widths_bounded, Layout, PageView,
    WIDTH_LIMIT,
};
use crate::run::Menu;

verus! {

/// What a draw call is asked to render.
#[derive(PartialEq, Debug)]
pub enum TextOption<'a> {
    /// The prompt label.
    Prompt,
    /// The current input text, as the input formatter hook presents it.
    Input,
    /// Any other string.
    Other(&'a String),
}

/// The smaller of two widths.
pub open spec fn min_i(a: int, b: int) -> int {
    if a <= b {
        a
    } else {
        b
    }
}

/// The widest rendered width in the list, at least zero.
pub open spec fn max_item_width(items: Seq<Item>) -> int
    decreases items.len(),
{
    if items.len() == 0 {
        0
    } else {
        let m = max_item_width(items.drop_last());
        if items.last().width > m {
            items.last().width as int
        } else {
            m
        }
    }
}

/// The width the input box is given under each policy, before any flex
/// growth: the widest matched entry capped by a third of the bar and by
/// the query itself; the widest source entry capped by a third; whatever
/// the selected entry leaves over; or a fixed percentage.
pub open spec fn input_width_spec(
    policy: DefaultWidth,
    matched: Seq<Item>,
    all: Seq<Item>,
    curr: int,
    avail: int,
    prompt: int,
    query_w: int,
    langle: int,
    rangle: int,
) -> int {
    match policy {
        DefaultWidth::Min => min_i(min_i(max_item_width(matched), avail / 3), query_w),
        DefaultWidth::Items => min_i(max_item_width(all), avail / 3),
        DefaultWidth::Max => {
            if matched.len() == 0 {
                avail - prompt
            } else {
                let sel = if 0 <= curr < matched.len() {
                    curr
                } else {
                    0
                };
                avail - prompt - matched[sel].width - (if sel + 1 < matched.len() {
                    rangle
                } else {
                    0
                }) - (if sel > 0 {
                    langle
                } else {
                    0
                })
            }
        },
        DefaultWidth::Custom(p) => (avail * p) / 100,
    }
}

/// How the flex policy grows the input box: up to the width the query
/// needs, but never past what the current page's slack allows.
pub open spec fn flex_width_spec(inputw: int, desired: int, leftover: int) -> int {
    if desired > inputw {
        if desired - inputw - leftover < 0 {
            desired
        } else {
            inputw + leftover
        }
    } else {
        inputw
    }
}

/// Horizontal pixel offset of the text cursor inside the input box: the
/// width of the input up to the cursor, plus half the side padding, less
/// one.
pub open spec fn cursor_offset_spec(inputw: int, otherw: int, lrpad: int) -> int {
    inputw - otherw + lrpad / 2 - 1
}

/// The widest rendered width in the list, executably.
pub fn max_width(items: &Vec<Item>) -> (r: i32)
    requires
        widths_bounded(items@),
    ensures
        r == max_item_width(items@),
        0 <= r <= WIDTH_LIMIT,
{
    let mut m: i32 = 0;
    let mut k: usize = 0;
    while k < items.len()
        invariant
            k <= items@.len(),
            widths_bounded(items@),
            m == max_item_width(items@.take(k as int)),
            0 <= m <= WIDTH_LIMIT,
        decreases items@.len() - k,
    {
        proof {
            assert(items@.take(k as int + 1).drop_last() =~= items@.take(k as int));
        }
        if items[k].width > m {
            m = items[k].width;
        }
        k = k + 1;
    }
    proof {
        assert(items@.take(items@.len() as int) =~= items@);
    }
    m
}

/// The input-box width under the configured policy, executably.
pub fn compute_input_width(
    policy: DefaultWidth,
    matched: &Vec<Item>,
    all: &Vec<Item>,
    curr: usize,
    avail: i32,
    prompt: i32,
    query_w: i32,
    langle: i32,
    rangle: i32,
) -> (r: i32)
    requires
        widths_bounded(matched@),
        widths_bounded(all@),
        0 <= avail <= WIDTH_LIMIT,
        0 <= prompt <= WIDTH_LIMIT,
        0 <= query_w <= WIDTH_LIMIT,
        0 <= langle <= WIDTH_LIMIT,
        0 <= rangle <= WIDTH_LIMIT,
        policy matches DefaultWidth::Custom(p) ==> p <= 100,
    ensures
        r == input_width_spec(
            policy,
            matched@,
            all@,
            curr as int,
            avail as int,
            prompt as int,
            query_w as int,
            langle as int,
            rangle as int,
        ),
        -4 * WIDTH_LIMIT <= r <= WIDTH_LIMIT,
{
    match policy {
        DefaultWidth::Min => {
            let mut w = max_width(matched);
            if avail / 3 < w {
                w = avail / 3;
            }
            if query_w < w {
                w = query_w;
            }
            w
        },
        DefaultWidth::Items => {
            let w = max_width(all);
            if avail / 3 < w {
                avail / 3
            } else {
                w
            }
        },
        DefaultWidth::Max => {
            if matched.len() == 0 {
                avail - prompt
            } else {
                let sel = if curr < matched.len() {
                    curr
                } else {
                    0
                };
                let mut w = avail - prompt - matched[sel].width;
                if sel + 1 < matched.len() {
                    w = w - rangle;
                }
                if sel > 0 {
                    w = w - langle;
                }
                w
            }
        },
        DefaultWidth::Custom(p) => {
            proof {
                assert(0 <= (avail as int) * (p as int) <= WIDTH_LIMIT * 100) by (nonlinear_arith)
                    requires
                        0 <= avail <= WIDTH_LIMIT,
                        0 <= p <= 100,
                ;
            }
            let wide = (avail as i64) * (p as i64) / 100;
            proof {
                vstd::arithmetic::div_mod::lemma_div_is_ordered(
                    (avail as int) * (p as int),
                    WIDTH_LIMIT * 100,
                    100,
                );
                vstd::arithmetic::div_mod::lemma_div_is_ordered(0, (avail as int) * (p as int), 100);
            }
            let r = wide as i32;
            r
        },
    }
}

/// The flex growth of the input box, executably.
pub fn flex_input_width(inputw: i32, desired: i32, leftover: i32) -> (r: i32)
    requires
        -4 * WIDTH_LIMIT <= inputw <= WIDTH_LIMIT,
        0 <= desired <= WIDTH_LIMIT,
        -8 * WIDTH_LIMIT <= leftover <= 8 * WIDTH_LIMIT,
    ensures
        r == flex_width_spec(inputw as int, desired as int, leftover as int),
{
    if desired > inputw {
        let delta = desired - inputw - leftover;
        if delta < 0 {
            desired
        } else {
            desired - delta
        }
    } else {
        inputw
    }
}

/// Pixel offset of the text cursor inside the input box, executably.
pub fn cursor_offset(inputw: i32, otherw: i32, lrpad: i32) -> (r: i32)
    requires
        -8 * WIDTH_LIMIT <= inputw <= 8 * WIDTH_LIMIT,
        -8 * WIDTH_LIMIT <= otherw <= 8 * WIDTH_LIMIT,
        0 <= lrpad <= WIDTH_LIMIT,
    ensures
        r == cursor_offset_spec(inputw as int, otherw as int, lrpad as int),
{
    inputw - otherw + lrpad / 2 - 1
}

/// The measured widths a frame depends on besides the layout.
pub struct FrameWidths {
    /// Width of the leading "back" glyph.
    pub langle_w: i32,
    /// Width of the trailing "more" glyph.
    pub rangle_w: i32,
    /// Width the current input text would take.
    pub query_w: i32,
}

impl FrameWidths {
    pub open spec fn wf(&self) -> bool {
        0 <= self.langle_w <= WIDTH_LIMIT && 0 <= self.rangle_w <= WIDTH_LIMIT && 0 <= self.query_w
            <= WIDTH_LIMIT
    }
}

/// The back-glyph width the paginator is seeded with: the narrowest
/// input-box policy keeps the first page flush with the input box.
pub open spec fn effective_langle(policy: DefaultWidth, langle: int) -> int {
    if policy == DefaultWidth::Min {
        0
    } else {
        langle
    }
}

impl Menu {
    /// Lay the matched entries out into pages for this frame.
    ///
    /// Computes the input-box width under the configured policy, splits
    /// `matched` into pages (vertical chunks when `lines > 0`, horizontal
    /// flow otherwise), parks the selection back on the first entry if the
    /// rebuilt list left it out of range, and grows the input box out of
    /// the current page's slack under the flex policy.  Returns whether
    /// there is anything to draw, and the input-box width to draw with.
    pub fn rebuild_pages(&mut self, matched: Vec<Item>, lay: &Layout, fw: &FrameWidths) -> (r: (
        bool,
        i32,
    ))
        requires
            old(self).wf(),
            old(self).config.lines == 0 ==> widths_bounded(matched@) && widths_bounded(
                old(self).items.data@,
            ) && lay.wf() && fw.wf(),
            old(self).config.render_default_width matches DefaultWidth::Custom(p) ==> p <= 100,
        ensures
            final(self).config == old(self).config,
            final(self).input == old(self).input,
            final(self).items.data == old(self).items.data,
            final(self).wf(),
            ({
                let cfg = old(self).config;
                let iw = input_width_spec(
                    cfg.render_default_width,
                    matched@,
                    old(self).items.data@,
                    old(self).items.curr as int,
                    lay.avail_w as int,
                    lay.prompt_w as int,
                    fw.query_w as int,
                    fw.langle_w as int,
                    fw.rangle_w as int,
                );
                let views = pages_view(final(self).items.cached_partitions@);
                let expected = if cfg.lines > 0 {
                    chunk_spec(matched@, cfg.lines as int)
                } else {
                    flow_rebuilt(cfg, *lay, iw, fw.langle_w as int, fw.rangle_w as int, matched@)
                };
                let grown = if r.0 && cfg.render_flex && fw.query_w > iw {
                    flex_width_spec(
                        iw,
                        fw.query_w as int,
                        current_leftover(
                            final(self).items.cached_partitions@,
                            final(self).items.curr as int,
                        ),
                    )
                } else {
                    iw
                };
                &&& views == expected
                &&& final(self).items.curr == (if old(self).items.curr < sum_lens(
                    final(self).items.cached_partitions@,
                ) {
                    old(self).items.curr as int
                } else {
                    0
                })
                &&& r.0 == (final(self).items.cached_partitions@.len() > 0)
                &&& (cfg.lines > 0 ==> r.1 == 0)
                &&& (cfg.lines == 0 ==> r.1 == grown)
            }),
    {
        let cfg_lines = self.config.lines;
        let direction = if cfg_lines > 0 {
            crate::item::Direction::Vertical
        } else {
            crate::item::Direction::Horizontal
        };
        let policy = self.config.render_default_width;
        let inputw = if cfg_lines > 0 {
            0
        } else {
            compute_input_width(
                policy,
                &matched,
                &self.items.data,
                self.items.curr,
                lay.avail_w,
                lay.prompt_w,
                fw.query_w,
                fw.langle_w,
                fw.rangle_w,
            )
        };
        let lay2 = Layout { avail_w: lay.avail_w, prompt_w: lay.prompt_w, input_w: inputw };
        let langle_eff = if matches!(policy, DefaultWidth::Min) {
            0
        } else {
            fw.langle_w
        };
        let n_matched = matched.len();
        let parts = partition_matches(
            matched,
            &direction,
            &self.config,
            &lay2,
            langle_eff,
            fw.rangle_w,
        );
        proof {
            crate::pages::lemma_flatten_len(parts@);
            assert(sum_lens(parts@) == n_matched);
        }
        let total = crate::item::total_len(&parts);
        if self.items.curr >= total {
            self.items.curr = 0;
        }
        let has_pages = parts.len() > 0;
        let mut width_out = inputw;
        if has_pages && cfg_lines == 0 && self.config.render_flex && fw.query_w > inputw {
            proof {
                assert forall|k: int| 0 <= k < parts@.len() implies (#[trigger] parts@[k]).data@.len()
                    > 0 by {
                    assert(pages_view(parts@)[k].0 == parts@[k].data@);
                }
                crate::nav::lemma_total_positive(parts@);
            }
            let (local, page) = Partition::decompose(&parts, self.items.curr);
            let leftover = parts[page].leftover;
            width_out = flex_input_width(inputw, fw.query_w, leftover);
        }
        proof {
            assert forall|k: int| 0 <= k < parts@.len() implies (#[trigger] parts@[k]).data@.len()
                > 0 by {
                assert(pages_view(parts@)[k].0 == parts@[k].data@);
            }
        }
        self.items.cached_partitions = parts;
        (has_pages, width_out)
    }
}

/// The slack of the page that the selection currently sits on.
pub open spec fn current_leftover(ps: Seq<Partition>, curr: int) -> int {
    ps[resolve_spec(ps, curr).1].leftover as int
}

/// Screen coordinates stay below this bound, so intersection areas fit.
pub const SCREEN_LIMIT: i32 = 0x2000;

/// The larger of zero and a value.
pub open spec fn clamp_zero(v: int) -> int {
    if v > 0 {
        v
    } else {
        0
    }
}

/// Area of the overlap of two rectangles; how much of a window sits on a
/// monitor when the menu picks where to appear.
pub open spec fn intersect_spec(
    x: int,
    y: int,
    w: int,
    h: int,
    rx: int,
    ry: int,
    rw: int,
    rh: int,
) -> int {
    clamp_zero(min_i(x + w, rx + rw) - (if x >= rx {
        x
    } else {
        rx
    })) * clamp_zero(min_i(y + h, ry + rh) - (if y >= ry {
        y
    } else {
        ry
    }))
}

/// The overlap area, executably.
pub fn intersect(x: i32, y: i32, w: i32, h: i32, rx: i32, ry: i32, rw: i32, rh: i32) -> (r: i32)
    requires
        -SCREEN_LIMIT <= x <= SCREEN_LIMIT,
        -SCREEN_LIMIT <= y <= SCREEN_LIMIT,
        0 <= w <= SCREEN_LIMIT,
        0 <= h <= SCREEN_LIMIT,
        -SCREEN_LIMIT <= rx <= SCREEN_LIMIT,
        -SCREEN_LIMIT <= ry <= SCREEN_LIMIT,
        0 <= rw <= SCREEN_LIMIT,
        0 <= rh <= SCREEN_LIMIT,
    ensures
        r == intersect_spec(
            x as int,
            y as int,
            w as int,
            h as int,
            rx as int,
            ry as int,
            rw as int,
            rh as int,
        ),
{
    let xe = if x + w <= rx + rw {
        x + w
    } else {
        rx + rw
    };
    let xs = if x >= rx {
        x
    } else {
        rx
    };
    let xspan = if xe - xs > 0 {
        xe - xs
    } else {
        0
    };
    let ye = if y + h <= ry + rh {
        y + h
    } else {
        ry + rh
    };
    let ys = if y >= ry {
        y
    } else {
        ry
    };
    let yspan = if ye - ys > 0 {
        ye - ys
    } else {
        0
    };
    proof {
        assert(0 <= (xspan as int) * (yspan as int) <= (4 * SCREEN_LIMIT) * (4 * SCREEN_LIMIT))
            by (nonlinear_arith)
            requires
                0 <= xspan <= 4 * SCREEN_LIMIT,
                0 <= yspan <= 4 * SCREEN_LIMIT,
        ;
    }
    xspan * yspan
}

/// A run of text waiting to be drawn, split into slices that share a font:
/// each slice carries the index of the font that can render it.  The final
/// slice starts as a single dot and is tripled into an ellipsis when the
/// text had to be cut.
#[derive(Debug)]
pub struct Spool {
    pub data: Vec<(String, Option<usize>)>,
    pub elipsed: bool,
}

impl Spool {
    pub fn new() -> (r: Self)
        ensures
            r.data@ == Seq::<(String, Option<usize>)>::empty(),
            !r.elipsed,
    {
        Spool { data: Vec::new(), elipsed: false }
    }

    /// Append one slice.
    pub fn push(&mut self, arg: (String, Option<usize>))
        ensures
            final(self).data@ == old(self).data@.push(arg),
            final(self).elipsed == old(self).elipsed,
    {
        self.data.push(arg);
    }

    /// Take one character off the end: the whole last slice if it is a
    /// single character, otherwise just its last character, returned as a
    /// slice of the same font.
    pub fn pop(&mut self) -> (r: (String, Option<usize>))
        requires
            old(self).data@.len() > 0,
            old(self).data@.last().0@.len() > 0,
        ensures
            final(self).elipsed == old(self).elipsed,
            ({
                let lastel = old(self).data@.last();
                if lastel.0@.len() == 1 {
                    final(self).data@ == old(self).data@.drop_last() && r == lastel
                } else {
                    final(self).data@.len() == old(self).data@.len() && final(self).data@.drop_last() == old(self).data@.drop_last() && final(self).data@.last().0@ == lastel.0@.drop_last() && final(self).data@.last().1
                        == lastel.1 && r.0@ == seq![lastel.0@.last()] && r.1 == lastel.1
                }
            }),
    {
        let e = match self.data.pop() {
            Some(e) => e,
            Option::None => {
                proof {
                    assert(false);
                }
                unreached()
            },
        };
        let n = e.0.as_str().unicode_len();
        if n == 1 {
            proof {
                assert(e.0@ =~= seq![e.0@.last()]);
            }
            e
        } else {
            let head = e.0.as_str().substring_char(0, n - 1).to_owned();
            let tail = e.0.as_str().substring_char(n - 1, n).to_owned();
            self.data.push((head, e.1));
            proof {
                assert(self.data@.drop_last() =~= old(self).data@.drop_last());
                assert(e.0@.subrange(0, e.0@.len() - 1) =~= e.0@.drop_last());
                assert(e.0@.subrange(e.0@.len() - 1, e.0@.len() as int) =~= seq![e.0@.last()]);
            }
            (tail, e.1)
        }
    }

    /// Shorten the text by one character, keeping the trailing ellipsis
    /// intact: the character comes off the slice just before the three
    /// ellipsis slices, and a whole slice is dropped once it runs dry.
    pub fn elipse_pop(&mut self)
        ensures
            final(self).elipsed == old(self).elipsed,
            ({
                let n = old(self).data@.len();
                if n == 0 {
                    final(self).data@ == old(self).data@
                } else if n <= 3 {
                    final(self).data@ == old(self).data@.drop_last()
                } else {
                    let idx = n - 4;
                    if old(self).data@[idx].0@.len() <= 1 {
                        final(self).data@ == old(self).data@.remove(idx)
                    } else {
                        final(self).data@.len() == n && (forall|k: int|
                            0 <= k < n && k != idx ==> final(self).data@[k] == old(self).data@[k]) && final(self).data@[idx].0@ == old(self).data@[idx].0@.drop_last() && final(self).data@[idx].1 == old(self).data@[idx].1
                    }
                }
            }),
    {
        let len = self.data.len();
        if len == 0 {
            return ;
        } else if len <= 3 {
            self.data.pop();
        } else {
            let idx = len - 4;
            let n = self.data[idx].0.as_str().unicode_len();
            if n <= 1 {
                self.data.remove(idx);
            } else {
                let e = self.data.remove(idx);
                let head = e.0.as_str().substring_char(0, n - 1).to_owned();
                self.data.insert(idx, (head, e.1));
                proof {
                    assert forall|k: int| 0 <= k < old(self).data@.len() && k != idx implies final(self).data@[k] == old(self).data@[k] by {
                        assert(old(self).data@.remove(idx as int).insert(
                            idx as int,
                            final(self).data@[idx as int],
                        ) =~= final(self).data@);
                    }
                    assert(e.0@.subrange(0, e.0@.len() - 1) =~= e.0@.drop_last());
                }
            }
        }
    }

    /// Hand the slices out for drawing, front to back.
    pub fn into_iter(self) -> (r: std::vec::IntoIter<(String, Option<usize>)>)
        ensures
            r == vstd::std_specs::vec::spec_into_iter(self.data),
    {
        self.data.into_iter()
    }
}

/// The pages the horizontal flow produces for this frame, given the
/// computed input-box width.
pub open spec fn flow_rebuilt(
    cfg: crate::config::Config,
    lay: Layout,
    iw: int,
    langle: int,
    rangle: int,
    matched: Seq<Item>,
) -> Seq<PageView> {
    let base = lay.prompt_w + iw;
    let langle_eff = effective_langle(cfg.render_default_width, langle);
    flow_spec(
        matched,
        crate::pages::FlowParams {
            w: lay.avail_w as int,
            seed_first: if cfg.render_default_width == DefaultWidth::Items {
                base + langle_eff
            } else {
                base
            },
            seed_rest: base + langle_eff,
            langle: langle_eff,
            rangle,
            force_break: cfg.render_default_width == DefaultWidth::Max,
        },
    )
}

} // verus!

//! The navigator: moving the selection across the cached pages.
//!
//! Every operation is a pure transformation of the selection index.  None of
//! them touches the candidate list or the pages; each returns whether the
//! menu needs to be redrawn.

use vstd::prelude::*;

use crate::item::{
    lemma_resolve_bijection, lemma_sum_upto_monotone, pair_to_index, resolve_spec, sum_lens,
    valid_pair, Items, Partition,
};

verus! {

impl Items {
    /// No cached page is empty; the paginator guarantees this.
    pub open spec fn pages_wf(&self) -> bool {
        forall|k: int|
            0 <= k < self.cached_partitions@.len() ==> (#[trigger] self.cached_partitions@[k]).data@.len() > 0
    }

    /// Everything the navigator relies on: pages are non-empty, the
    /// selection is in range whenever anything is selectable, and the
    /// total fits the machine.
    pub open spec fn wf(&self) -> bool {
        self.pages_wf() && self.nav_wf() && sum_lens(self.cached_partitions@) <= usize::MAX
    }

    /// Move the selection to the very first entry.  A redraw is owed
    /// exactly when there was any page to select on.
    pub fn nav_home(&mut self) -> (r: bool)
        ensures
            final(self).data == old(self).data,
            final(self).cached_partitions == old(self).cached_partitions,
            r == (old(self).cached_partitions@.len() > 0),
            r ==> final(self).curr == 0,
            !r ==> final(self).curr == old(self).curr,
            old(self).wf() ==> final(self).wf(),
    {
        if self.cached_partitions.len() > 0 {
            self.curr = 0;
            true
        } else {
            false
        }
    }

    /// Move the selection to the very last entry; a no-op without pages.
    pub fn nav_end(&mut self) -> (r: bool)
        requires
            old(self).wf(),
        ensures
            final(self).data == old(self).data,
            final(self).cached_partitions == old(self).cached_partitions,
            r == (old(self).cached_partitions@.len() > 0),
            r ==> final(self).curr == sum_lens(final(self).cached_partitions@) - 1,
            !r ==> final(self).curr == old(self).curr,
            final(self).wf(),
    {
        if self.cached_partitions.len() > 0 {
            proof {
                lemma_total_positive(self.cached_partitions@);
            }
            let total = self.total_matched();
            self.curr = total - 1;
            true
        } else {
            false
        }
    }

    /// Move the selection one entry back, clamped at the start.
    pub fn nav_up(&mut self) -> (r: bool)
        ensures
            final(self).data == old(self).data,
            final(self).cached_partitions == old(self).cached_partitions,
            r == (old(self).curr > 0),
            r ==> final(self).curr == old(self).curr - 1,
            !r ==> final(self).curr == old(self).curr,
            old(self).wf() ==> final(self).wf(),
    {
        if self.curr > 0 {
            self.curr = self.curr - 1;
            true
        } else {
            false
        }
    }

    /// Move the selection one entry forward, clamped at the end.
    pub fn nav_down(&mut self) -> (r: bool)
        requires
            old(self).wf(),
        ensures
            final(self).data == old(self).data,
            final(self).cached_partitions == old(self).cached_partitions,
            r == (old(self).curr + 1 < sum_lens(old(self).cached_partitions@)),
            r ==> final(self).curr == old(self).curr + 1,
            !r ==> final(self).curr == old(self).curr,
            final(self).wf(),
    {
        let total = self.total_matched();
        if self.curr + 1 < total {
            self.curr = self.curr + 1;
            true
        } else {
            false
        }
    }

    /// Jump forward past the rest of the current page, landing on the
    /// first entry of the next page; a no-op on the last page or with no
    /// pages at all.
    pub fn nav_page_down(&mut self) -> (r: bool)
        requires
            old(self).wf(),
        ensures
            final(self).data == old(self).data,
            final(self).cached_partitions == old(self).cached_partitions,
            ({
                let ps = old(self).cached_partitions@;
                let total = sum_lens(ps);
                if old(self).curr < total && resolve_spec(ps, old(self).curr as int).1 + 1
                    < ps.len() {
                    r && final(self).curr == pair_to_index(
                        ps,
                        resolve_spec(ps, old(self).curr as int).1 + 1,
                        0,
                    )
                } else {
                    !r && final(self).curr == old(self).curr
                }
            }),
            final(self).wf(),
    {
        let total = self.total_matched();
        if self.curr >= total {
            return false;
        }
        let (partition_i, partition) = Partition::decompose(&self.cached_partitions, self.curr);
        let page_count = self.cached_partitions.len();
        if partition < page_count && partition + 1 < page_count {
            proof {
                let ps = self.cached_partitions@;
                lemma_resolve_bijection(ps);
                assert(valid_pair(ps, partition as int + 1, 0));
                assert(pair_to_index(ps, partition as int + 1, 0) < sum_lens(ps));
                assert(crate::item::sum_lens_upto(ps, partition as int + 1)
                    == crate::item::sum_lens_upto(ps, partition as int)
                    + ps[partition as int].data@.len());
            }
            self.curr = self.curr + (self.cached_partitions[partition].data.len() - partition_i);
            true
        } else {
            false
        }
    }

    /// Jump back past the previous page, landing on its first entry; a
    /// no-op on the first page or with no pages at all.
    pub fn nav_page_up(&mut self) -> (r: bool)
        requires
            old(self).wf(),
        ensures
            final(self).data == old(self).data,
            final(self).cached_partitions == old(self).cached_partitions,
            ({
                let ps = old(self).cached_partitions@;
                let total = sum_lens(ps);
                if old(self).curr < total && resolve_spec(ps, old(self).curr as int).1 > 0 {
                    r && final(self).curr == pair_to_index(
                        ps,
                        resolve_spec(ps, old(self).curr as int).1 - 1,
                        0,
                    )
                } else {
                    !r && final(self).curr == old(self).curr
                }
            }),
            final(self).wf(),
    {
        let total = self.total_matched();
        if self.curr >= total {
            return false;
        }
        let (partition_i, partition) = Partition::decompose(&self.cached_partitions, self.curr);
        if partition > 0 {
            proof {
                let ps = self.cached_partitions@;
                lemma_resolve_bijection(ps);
                assert(valid_pair(ps, partition as int - 1, 0));
                lemma_sum_upto_monotone(ps, 0, partition as int - 1);
                assert(crate::item::sum_lens_upto(ps, partition as int)
                    == crate::item::sum_lens_upto(ps, partition as int - 1)
                    + ps[partition as int - 1].data@.len());
            }
            self.curr = self.curr - (self.cached_partitions[partition - 1].data.len()
                + partition_i);
            true
        } else {
            false
        }
    }

    /// The text of the selected entry, when anything is selected.
    pub fn selected_text(&self) -> (r: Option<String>)
        requires
            self.wf(),
        ensures
            ({
                let ps = self.cached_partitions@;
                if self.curr < sum_lens(ps) {
                    r matches Some(t) && t@ == ps[resolve_spec(ps, self.curr as int).1].data@[resolve_spec(
                        ps,
                        self.curr as int,
                    ).0].text@
                } else {
                    r is None
                }
            }),
    {
        let total = self.total_matched();
        if self.curr >= total {
            return Option::None;
        }
        let (partition_i, partition) = Partition::decompose(&self.cached_partitions, self.curr);
        Some(self.cached_partitions[partition].get(partition_i).text.clone())
    }
}

/// With at least one page and no page empty, there is something to select.
pub proof fn lemma_total_positive(ps: Seq<Partition>)
    requires
        ps.len() > 0,
        forall|k: int| 0 <= k < ps.len() ==> (#[trigger] ps[k]).data@.len() > 0,
    ensures
        sum_lens(ps) > 0,
{
    lemma_sum_upto_monotone(ps, 1, ps.len() as int);
    assert(crate::item::sum_lens_upto(ps, 0) == 0);
    assert(crate::item::sum_lens_upto(ps, 1) == ps[0].data@.len());
}

} // verus!

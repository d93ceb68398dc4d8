//! The input buffer: the query text and a grapheme-indexed cursor.
//!
//! The text is held as its grapheme clusters, so no editing operation can
//! ever split a user-perceived character.  The cursor counts clusters and
//! always sits between `0` and the cluster count.

use vstd::prelude::*;
use vstd::seq_lib::*;

use unicode_segmentation::UnicodeSegmentation;

verus! {

/// The grapheme clusters of a string, in order.  Named, not defined: the
/// boundaries are fixed by Unicode text segmentation, which the
/// segmentation crate implements.
pub uninterp spec fn graphemes_of(s: Seq<char>) -> Seq<Seq<char>>;

/// Relies on `unicode_segmentation::UnicodeSegmentation::graphemes` with
/// extended clusters: the clusters partition the string in order, and no
/// cluster is empty.
#[verifier::external_body]
fn split_graphemes(s: &str) -> (r: Vec<String>)
    ensures
        r@.map_values(|g: String| g@) == graphemes_of(s@),
        r@.map_values(|g: String| g@).flatten() == s@,
        forall|i: int| 0 <= i < r@.len() ==> (#[trigger] r@[i]@).len() > 0,
{
    s.graphemes(true).map(|g| g.to_string()).collect()
}

/// Every carriage return and line feed removed.
pub open spec fn strip_crlf(s: Seq<char>) -> Seq<char> {
    s.filter(|c: char| c != '\r' && c != '\n')
}

/// Every tab replaced by four spaces.
pub open spec fn expand_tabs(s: Seq<char>) -> Seq<char>
    decreases s.len(),
{
    if s.len() == 0 {
        Seq::empty()
    } else {
        (if s[0] == '\t' {
            seq![' ', ' ', ' ', ' ']
        } else {
            seq![s[0]]
        }) + expand_tabs(s.drop_first())
    }
}

/// Relies on `regex::Regex::new` and `regex::Regex::replace_all` with the
/// class `[\r\n]` and an empty replacement: each matched character is
/// deleted and nothing else changes.  The constant pattern always
/// compiles, so the unwrap never fires.
#[verifier::external_body]
fn regex_strip_crlf(s: &str) -> (r: String)
    ensures
        r@ == strip_crlf(s@),
{
    let re = regex::Regex::new(r"[\r\n]").unwrap();
    re.replace_all(s, "").into_owned()
}

/// Relies on `regex::Regex::new` and `regex::Regex::replace_all` with the
/// class `[\t]` and four spaces as the replacement: each tab becomes four
/// spaces and nothing else changes.  The constant pattern always compiles,
/// so the unwrap never fires.
#[verifier::external_body]
fn regex_expand_tabs(s: &str) -> (r: String)
    ensures
        r@ == expand_tabs(s@),
{
    let re = regex::Regex::new(r"[\t]").unwrap();
    re.replace_all(s, "    ").into_owned()
}

/// The buffer with `ins` spliced in at cluster position `cur`.
pub open spec fn splice(buf: Seq<Seq<char>>, cur: int, ins: Seq<Seq<char>>) -> Seq<Seq<char>> {
    buf.take(cur) + ins + buf.skip(cur)
}

/// The single space grapheme, the separator the word operations scan for.
pub open spec fn space_g() -> Seq<char> {
    seq![' ']
}

/// The buffer with every space cluster dropped.
pub open spec fn keep_nonspace(buf: Seq<Seq<char>>) -> Seq<Seq<char>> {
    buf.filter(|g: Seq<char>| g != space_g())
}

/// Filtering an empty buffer leaves an empty buffer.
proof fn lemma_keep_nonspace_empty()
    ensures
        keep_nonspace(Seq::<Seq<char>>::empty()) == Seq::<Seq<char>>::empty(),
{
    reveal(Seq::filter);
}

/// Appending one cluster extends the filtered buffer exactly when the
/// cluster is not a space.
proof fn lemma_keep_nonspace_push(buf: Seq<Seq<char>>, g: Seq<char>)
    ensures
        keep_nonspace(buf.push(g)) == if g != space_g() {
            keep_nonspace(buf).push(g)
        } else {
            keep_nonspace(buf)
        },
{
    reveal(Seq::filter);
    assert(buf.push(g).drop_last() =~= buf);
    assert(buf.push(g).last() == g);
}

/// Position after walking left from `j` over a run of spaces.
pub open spec fn skip_spaces_left(buf: Seq<Seq<char>>, j: int) -> int
    decreases j,
{
    if j <= 0 {
        0
    } else if buf[j - 1] == space_g() {
        skip_spaces_left(buf, j - 1)
    } else {
        j
    }
}

/// Position after walking left from `j` over a run of non-spaces.
pub open spec fn skip_word_left(buf: Seq<Seq<char>>, j: int) -> int
    decreases j,
{
    if j <= 0 {
        0
    } else if buf[j - 1] != space_g() {
        skip_word_left(buf, j - 1)
    } else {
        j
    }
}

/// Where the word adjacent to the left of `cur` starts: skip the run of
/// spaces, then the run of non-spaces.
pub open spec fn word_start_left(buf: Seq<Seq<char>>, cur: int) -> int {
    skip_word_left(buf, skip_spaces_left(buf, cur))
}

/// Position after walking right from `j` over a run of spaces.
pub open spec fn skip_spaces_right(buf: Seq<Seq<char>>, j: int) -> int
    decreases buf.len() - j,
{
    if j < 0 || j >= buf.len() {
        buf.len() as int
    } else if buf[j] == space_g() {
        skip_spaces_right(buf, j + 1)
    } else {
        j
    }
}

/// Position after walking right from `j` over a run of non-spaces.
pub open spec fn skip_word_right(buf: Seq<Seq<char>>, j: int) -> int
    decreases buf.len() - j,
{
    if j < 0 || j >= buf.len() {
        buf.len() as int
    } else if buf[j] != space_g() {
        skip_word_right(buf, j + 1)
    } else {
        j
    }
}

/// Where the word span to the right of `j` ends: skip the run of spaces,
/// then the run of non-spaces.
pub open spec fn word_end_right(buf: Seq<Seq<char>>, j: int) -> int {
    skip_word_right(buf, skip_spaces_right(buf, j))
}

/// The query text and its cursor.
#[derive(Debug)]
pub struct InputState {
    graphemes: Vec<String>,
    cursor: usize,
}

impl InputState {
    /// The text as its sequence of grapheme clusters.
    pub closed spec fn buf(&self) -> Seq<Seq<char>> {
        self.graphemes@.map_values(|g: String| g@)
    }

    /// The cursor, as a cluster index.
    pub closed spec fn cur(&self) -> int {
        self.cursor as int
    }

    /// The whole text, as characters.
    pub open spec fn text(&self) -> Seq<char> {
        self.buf().flatten()
    }

    /// The cursor never leaves the buffer.
    pub open spec fn wf(&self) -> bool {
        0 <= self.cur() <= self.buf().len()
    }

    /// An empty buffer with the cursor at its only position.
    pub fn new() -> (r: Self)
        ensures
            r.buf() == Seq::<Seq<char>>::empty(),
            r.cur() == 0,
            r.wf(),
    {
        let r = InputState { graphemes: Vec::new(), cursor: 0 };
        proof {
            assert(r.buf() =~= Seq::<Seq<char>>::empty());
        }
        r
    }

    /// How many grapheme clusters the text holds.
    pub fn grapheme_count(&self) -> (r: usize)
        ensures
            r == self.buf().len(),
    {
        self.graphemes.len()
    }

    /// The cursor position, in clusters.
    pub fn cursor(&self) -> (r: usize)
        ensures
            r == self.cur(),
    {
        self.cursor
    }

    /// The cluster at `index`.
    pub fn grapheme_at(&self, index: usize) -> (r: &String)
        requires
            index < self.buf().len(),
        ensures
            r@ == self.buf()[index as int],
    {
        &self.graphemes[index]
    }

    /// Splice `text` in at the cursor and move the cursor past it.
    pub fn insert_text(&mut self, text: &str)
        requires
            old(self).wf(),
        ensures
            final(self).buf() == splice(old(self).buf(), old(self).cur(), graphemes_of(text@)),
            final(self).cur() == old(self).cur() + graphemes_of(text@).len(),
            final(self).wf(),
    {
        let gs = split_graphemes(text);
        self.insert_graphemes(gs);
    }

    /// Splice already-split clusters in at the cursor.
    pub fn insert_graphemes(&mut self, gs: Vec<String>)
        requires
            old(self).wf(),
        ensures
            final(self).buf() == splice(
                old(self).buf(),
                old(self).cur(),
                gs@.map_values(|g: String| g@),
            ),
            final(self).cur() == old(self).cur() + gs@.len(),
            final(self).wf(),
    {
        let mut out: Vec<String> = Vec::new();
        let mut j: usize = 0;
        while j < self.cursor
            invariant
                old(self).wf(),
                self == old(self),
                j <= self.cursor,
                out@ =~= self.graphemes@.take(j as int),
            decreases self.cursor - j,
        {
            out.push(self.graphemes[j].clone());
            proof {
                assert(out@ =~= self.graphemes@.take(j as int + 1));
            }
            j = j + 1;
        }
        let mut k: usize = 0;
        let insert_len = gs.len();
        while k < insert_len
            invariant
                old(self).wf(),
                self == old(self),
                insert_len == gs@.len(),
                k <= insert_len,
                out@ =~= self.graphemes@.take(self.cursor as int) + gs@.take(k as int),
            decreases insert_len - k,
        {
            out.push(gs[k].clone());
            proof {
                assert(out@ =~= self.graphemes@.take(self.cursor as int) + gs@.take(k as int + 1));
            }
            k = k + 1;
        }
        let mut m: usize = self.cursor;
        let total = self.graphemes.len();
        while m < total
            invariant
                old(self).wf(),
                self == old(self),
                total == self.graphemes@.len(),
                self.cursor <= m <= total,
                insert_len == gs@.len(),
                out@ =~= self.graphemes@.take(self.cursor as int) + gs@ + self.graphemes@.subrange(
                    self.cursor as int,
                    m as int,
                ),
            decreases total - m,
        {
            out.push(self.graphemes[m].clone());
            proof {
                assert(out@ =~= self.graphemes@.take(self.cursor as int) + gs@
                    + self.graphemes@.subrange(self.cursor as int, m as int + 1));
            }
            m = m + 1;
        }
        let suffix_len = total - self.cursor;
        let new_cursor = out.len() - suffix_len;
        self.graphemes = out;
        self.cursor = new_cursor;
        proof {
            lemma_map_values_concat3(
                old(self).graphemes@.take(old(self).cur()),
                gs@,
                old(self).graphemes@.skip(old(self).cur()),
            );
            assert(old(self).graphemes@.subrange(old(self).cur(), old(self).graphemes@.len() as int)
                =~= old(self).graphemes@.skip(old(self).cur()));
            assert(self.graphemes@ =~= old(self).graphemes@.take(old(self).cur()) + gs@ + old(
                self,
            ).graphemes@.skip(old(self).cur()));
            assert(old(self).graphemes@.take(old(self).cur()).map_values(|g: String| g@) =~= old(
                self,
            ).buf().take(old(self).cur()));
            assert(old(self).graphemes@.skip(old(self).cur()).map_values(|g: String| g@) =~= old(
                self,
            ).buf().skip(old(self).cur()));
            assert(final(self).buf() =~= splice(
                old(self).buf(),
                old(self).cur(),
                gs@.map_values(|g: String| g@),
            ));
        }
    }

    /// Remove the cluster just left of the cursor and step the cursor back;
    /// a no-op at the start of the buffer.
    pub fn delete_left(&mut self) -> (r: bool)
        requires
            old(self).wf(),
        ensures
            r == (old(self).cur() > 0),
            r ==> final(self).buf() == old(self).buf().remove(old(self).cur() - 1),
            r ==> final(self).cur() == old(self).cur() - 1,
            !r ==> *final(self) == *old(self),
            final(self).wf(),
    {
        if self.cursor > 0 {
            self.graphemes.remove(self.cursor - 1);
            self.cursor = self.cursor - 1;
            proof {
                lemma_map_values_remove(old(self).graphemes@, old(self).cur() - 1);
            }
            true
        } else {
            false
        }
    }

    /// Remove the cluster under the cursor; a no-op at the end.
    pub fn delete_right(&mut self) -> (r: bool)
        requires
            old(self).wf(),
        ensures
            r == (old(self).cur() < old(self).buf().len()),
            r ==> final(self).buf() == old(self).buf().remove(old(self).cur()),
            r ==> final(self).cur() == old(self).cur(),
            !r ==> *final(self) == *old(self),
            final(self).wf(),
    {
        if self.cursor < self.graphemes.len() {
            self.graphemes.remove(self.cursor);
            proof {
                lemma_map_values_remove(old(self).graphemes@, old(self).cur());
            }
            true
        } else {
            false
        }
    }

    /// Drop everything left of the cursor; the cursor moves to the start.
    pub fn clear_left_of_cursor(&mut self)
        requires
            old(self).wf(),
        ensures
            final(self).buf() == old(self).buf().skip(old(self).cur()),
            final(self).cur() == 0,
            final(self).wf(),
    {
        let tail = self.graphemes.split_off(self.cursor);
        self.graphemes = tail;
        self.cursor = 0;
        proof {
            assert(old(self).graphemes@.subrange(old(self).cur(), old(self).graphemes@.len() as int)
                =~= old(self).graphemes@.skip(old(self).cur()));
            assert(final(self).buf() =~= old(self).buf().skip(old(self).cur()));
        }
    }

    /// Drop everything right of the cursor; the cursor stays put.
    pub fn clear_right_of_cursor(&mut self)
        requires
            old(self).wf(),
        ensures
            final(self).buf() == old(self).buf().take(old(self).cur()),
            final(self).cur() == old(self).cur(),
            final(self).wf(),
    {
        self.graphemes.truncate(self.cursor);
        proof {
            assert(old(self).graphemes@.subrange(0, old(self).cur()) =~= old(
                self,
            ).graphemes@.take(old(self).cur()));
            assert(final(self).buf() =~= old(self).buf().take(old(self).cur()));
        }
    }

    /// Step the cursor one cluster left; a no-op at the start.
    pub fn move_left(&mut self) -> (r: bool)
        requires
            old(self).wf(),
        ensures
            final(self).buf() == old(self).buf(),
            r == (old(self).cur() > 0),
            r ==> final(self).cur() == old(self).cur() - 1,
            !r ==> *final(self) == *old(self),
            final(self).wf(),
    {
        if self.cursor > 0 {
            self.cursor = self.cursor - 1;
            true
        } else {
            false
        }
    }

    /// Step the cursor one cluster right; a no-op at the end.
    pub fn move_right(&mut self) -> (r: bool)
        requires
            old(self).wf(),
        ensures
            final(self).buf() == old(self).buf(),
            r == (old(self).cur() < old(self).buf().len()),
            r ==> final(self).cur() == old(self).cur() + 1,
            !r ==> *final(self) == *old(self),
            final(self).wf(),
    {
        if self.cursor < self.graphemes.len() {
            self.cursor = self.cursor + 1;
            true
        } else {
            false
        }
    }

    /// Put the cursor at the start of the text.
    pub fn home(&mut self)
        ensures
            final(self).buf() == old(self).buf(),
            final(self).cur() == 0,
            final(self).wf(),
    {
        self.cursor = 0;
    }

    /// Put the cursor at the end of the text.
    pub fn end(&mut self)
        ensures
            final(self).buf() == old(self).buf(),
            final(self).cur() == old(self).buf().len(),
            final(self).wf(),
    {
        self.cursor = self.graphemes.len();
    }

    /// Jump the cursor to the start of the word on its left: over the run
    /// of spaces, then over the run of non-spaces.
    pub fn jump_word_left(&mut self)
        requires
            old(self).wf(),
        ensures
            final(self).buf() == old(self).buf(),
            final(self).cur() == word_start_left(old(self).buf(), old(self).cur()),
            final(self).wf(),
    {
        let j = self.scan_word_left(self.cursor);
        self.cursor = j;
    }

    /// Jump the cursor to the end of the word on its right: one step in,
    /// then over the run of spaces, then over the run of non-spaces.
    pub fn jump_word_right(&mut self)
        requires
            old(self).wf(),
        ensures
            final(self).buf() == old(self).buf(),
            final(self).cur() == word_end_right(
                old(self).buf(),
                if old(self).cur() + 1 <= old(self).buf().len() {
                    old(self).cur() + 1
                } else {
                    old(self).buf().len() as int
                },
            ),
            final(self).wf(),
    {
        let start = if self.cursor < self.graphemes.len() {
            self.cursor + 1
        } else {
            self.graphemes.len()
        };
        let k = self.scan_word_right(start);
        self.cursor = k;
    }

    /// Delete from the start of the word on the left up to the cursor.
    pub fn delete_word_left(&mut self)
        requires
            old(self).wf(),
        ensures
            final(self).buf() == old(self).buf().take(
                word_start_left(old(self).buf(), old(self).cur()),
            ) + old(self).buf().skip(old(self).cur()),
            final(self).cur() == word_start_left(old(self).buf(), old(self).cur()),
            final(self).wf(),
    {
        let j = self.scan_word_left(self.cursor);
        let mut t = self.cursor;
        while t > j
            invariant
                old(self).wf(),
                j <= t <= old(self).cur(),
                j == word_start_left(old(self).buf(), old(self).cur()),
                self.cursor == old(self).cursor,
                self.graphemes@.map_values(|g: String| g@) =~= old(self).buf().take(t as int)
                    + old(self).buf().skip(old(self).cur()),
            decreases t,
        {
            let ghost pre = self.graphemes@;
            proof {
                assert(pre.len() == pre.map_values(|g: String| g@).len());
            }
            self.graphemes.remove(t - 1);
            t = t - 1;
            proof {
                lemma_map_values_remove(pre, t as int);
                assert((old(self).buf().take(t as int + 1) + old(self).buf().skip(
                    old(self).cur(),
                )).remove(t as int) =~= old(self).buf().take(t as int) + old(self).buf().skip(
                    old(self).cur(),
                ));
            }
        }
        self.cursor = j;
    }

    /// Delete from the cursor through the end of the word on the right.
    pub fn delete_word_right(&mut self)
        requires
            old(self).wf(),
        ensures
            final(self).buf() == old(self).buf().take(old(self).cur()) + old(self).buf().skip(
                word_end_right(old(self).buf(), old(self).cur()),
            ),
            final(self).cur() == old(self).cur(),
            final(self).wf(),
    {
        let k = self.scan_word_right(self.cursor);
        let ghost end = k as int;
        let mut remaining = k - self.cursor;
        proof {
            assert(self.graphemes@.map_values(|g: String| g@) =~= old(self).buf().take(
                old(self).cur(),
            ) + old(self).buf().skip(end - remaining));
        }
        while remaining > 0
            invariant
                old(self).wf(),
                0 <= remaining,
                old(self).cur() <= end - remaining,
                end <= old(self).buf().len(),
                end == word_end_right(old(self).buf(), old(self).cur()),
                self.cursor == old(self).cursor,
                self.graphemes@.map_values(|g: String| g@) =~= old(self).buf().take(
                    old(self).cur(),
                ) + old(self).buf().skip(end - remaining),
            decreases remaining,
        {
            let ghost pre = self.graphemes@;
            proof {
                assert(pre.len() == pre.map_values(|g: String| g@).len());
            }
            self.graphemes.remove(self.cursor);
            remaining = remaining - 1;
            proof {
                lemma_map_values_remove(pre, self.cursor as int);
                assert((old(self).buf().take(old(self).cur()) + old(self).buf().skip(
                    end - remaining - 1,
                )).remove(old(self).cur()) =~= old(self).buf().take(old(self).cur()) + old(
                    self,
                ).buf().skip(end - remaining));
            }
        }
        proof {
            assert(final(self).buf() =~= old(self).buf().take(old(self).cur()) + old(
                self,
            ).buf().skip(word_end_right(old(self).buf(), old(self).cur())));
        }
    }

    /// Replace the whole text and park the cursor at its end.
    pub fn replace_with(&mut self, text: &str)
        ensures
            final(self).buf() == graphemes_of(text@),
            final(self).cur() == graphemes_of(text@).len(),
            final(self).wf(),
    {
        let gs = split_graphemes(text);
        let count = gs.len();
        self.graphemes = gs;
        self.cursor = count;
    }

    /// Sanitize pasted text -- line breaks dropped, tabs turned into four
    /// spaces -- and splice it in at the cursor.
    pub fn paste(&mut self, clip: &str)
        requires
            old(self).wf(),
        ensures
            final(self).buf() == splice(
                old(self).buf(),
                old(self).cur(),
                graphemes_of(expand_tabs(strip_crlf(clip@))),
            ),
            final(self).cur() == old(self).cur() + graphemes_of(
                expand_tabs(strip_crlf(clip@)),
            ).len(),
            final(self).wf(),
    {
        let stripped = regex_strip_crlf(clip);
        let sanitized = regex_expand_tabs(stripped.as_str());
        self.insert_text(sanitized.as_str());
    }

    /// The whole text as one string.
    pub fn text_string(&self) -> (r: String)
        ensures
            r@ == self.text(),
    {
        let r = self.concat_range(0, self.graphemes.len());
        proof {
            assert(self.buf().subrange(0, self.buf().len() as int) =~= self.buf());
        }
        r
    }

    /// The text from the cursor to the end, as one string; what the
    /// renderer draws right of the cursor.
    pub fn suffix_string(&self) -> (r: String)
        requires
            self.wf(),
        ensures
            r@ == self.buf().skip(self.cur()).flatten(),
    {
        let r = self.concat_range(self.cursor, self.graphemes.len());
        proof {
            lemma_flatten_subrange_skip(self.buf(), self.cur());
        }
        r
    }

    /// The first `to` clusters as one string.
    pub fn prefix_string(&self, to: usize) -> (r: String)
        requires
            to <= self.buf().len(),
        ensures
            r@ == self.buf().take(to as int).flatten(),
    {
        let r = self.concat_range(0, to);
        proof {
            assert(self.buf().subrange(0, to as int) =~= self.buf().take(to as int));
        }
        r
    }

    /// Drop every space cluster; the cursor keeps its position among the
    /// clusters that remain.
    pub fn remove_space_graphemes(&mut self)
        requires
            old(self).wf(),
        ensures
            final(self).buf() == keep_nonspace(old(self).buf()),
            final(self).cur() == keep_nonspace(old(self).buf().take(old(self).cur())).len(),
            final(self).wf(),
    {
        let n = self.graphemes.len();
        let mut out: Vec<String> = Vec::new();
        let mut newcur: usize = 0;
        let mut j: usize = 0;
        proof {
            assert(out@.map_values(|g: String| g@) =~= Seq::<Seq<char>>::empty());
            assert(self.buf().take(0) =~= Seq::<Seq<char>>::empty());
            lemma_keep_nonspace_empty();
        }
        while j < n
            invariant
                old(self).wf(),
                self == old(self),
                n == self.graphemes@.len(),
                j <= n,
                out@.map_values(|g: String| g@) =~= keep_nonspace(self.buf().take(j as int)),
                newcur <= out@.len(),
                j <= self.cursor ==> newcur == keep_nonspace(self.buf().take(j as int)).len(),
                j > self.cursor ==> newcur == keep_nonspace(
                    self.buf().take(self.cursor as int),
                ).len(),
            decreases n - j,
        {
            proof {
                lemma_keep_nonspace_push(self.buf().take(j as int), self.buf()[j as int]);
                assert(self.buf().take(j as int + 1) =~= self.buf().take(j as int).push(
                    self.buf()[j as int],
                ));
            }
            if !is_space(&self.graphemes[j]) {
                out.push(self.graphemes[j].clone());
                if j < self.cursor {
                    newcur = newcur + 1;
                }
            }
            j = j + 1;
        }
        proof {
            assert(self.buf().take(n as int) =~= self.buf());
        }
        self.graphemes = out;
        self.cursor = newcur;
    }

    /// The clusters of `[from, to)` joined back into a string.
    fn concat_range(&self, from: usize, to: usize) -> (r: String)
        requires
            from <= to <= self.buf().len(),
        ensures
            r@ == self.buf().subrange(from as int, to as int).flatten(),
    {
        let mut r = String::new();
        let mut j: usize = from;
        proof {
            assert(self.buf().subrange(from as int, from as int) =~= Seq::<Seq<char>>::empty());
            assert(Seq::<Seq<char>>::empty().flatten() =~= Seq::<char>::empty());
        }
        while j < to
            invariant
                from <= j <= to <= self.buf().len(),
                self.graphemes@.len() == self.buf().len(),
                r@ == self.buf().subrange(from as int, j as int).flatten(),
            decreases to - j,
        {
            r.append(self.graphemes[j].as_str());
            proof {
                let pre = self.buf().subrange(from as int, j as int);
                let post = self.buf().subrange(from as int, j as int + 1);
                assert(post =~= pre.push(self.buf()[j as int]));
                pre.lemma_flatten_and_flatten_alt_are_equivalent();
                post.lemma_flatten_and_flatten_alt_are_equivalent();
                assert(post.drop_last() =~= pre);
            }
            j = j + 1;
        }
        r
    }

    /// Walk left from `j`: over the run of spaces, then the run of
    /// non-spaces.
    fn scan_word_left(&self, j: usize) -> (r: usize)
        requires
            self.wf(),
            j <= self.buf().len(),
        ensures
            r == word_start_left(self.buf(), j as int),
            r <= j,
    {
        let mut t = j;
        while t > 0 && is_space(&self.graphemes[t - 1])
            invariant
                t <= j <= self.buf().len(),
                self.graphemes@.len() == self.buf().len(),
                skip_spaces_left(self.buf(), t as int) == skip_spaces_left(self.buf(), j as int),
            decreases t,
        {
            t = t - 1;
        }
        while t > 0 && !is_space(&self.graphemes[t - 1])
            invariant
                t <= j <= self.buf().len(),
                self.graphemes@.len() == self.buf().len(),
                skip_word_left(self.buf(), t as int) == word_start_left(self.buf(), j as int),
            decreases t,
        {
            t = t - 1;
        }
        t
    }

    /// Walk right from `j`: over the run of spaces, then the run of
    /// non-spaces.
    fn scan_word_right(&self, j: usize) -> (r: usize)
        requires
            self.wf(),
            j <= self.buf().len(),
        ensures
            r == word_end_right(self.buf(), j as int),
            j <= r <= self.buf().len(),
    {
        let n = self.graphemes.len();
        let mut t = j;
        while t < n && is_space(&self.graphemes[t])
            invariant
                j <= t <= n,
                n == self.buf().len(),
                skip_spaces_right(self.buf(), t as int) == skip_spaces_right(self.buf(), j as int),
            decreases n - t,
        {
            t = t + 1;
        }
        while t < n && !is_space(&self.graphemes[t])
            invariant
                j <= t <= n,
                n == self.buf().len(),
                skip_word_right(self.buf(), t as int) == word_end_right(self.buf(), j as int),
            decreases n - t,
        {
            t = t + 1;
        }
        t
    }
}

/// Inserting a single cluster at the cursor and then deleting one cluster
/// to the left of the (advanced) cursor is the identity on the buffer and
/// on the cursor: exactly the inserted cluster comes back out.
pub proof fn lemma_insert_then_delete_left_identity(buf: Seq<Seq<char>>, cur: int, g: Seq<char>)
    requires
        0 <= cur <= buf.len(),
    ensures
        splice(buf, cur, seq![g]).remove((cur + seq![g].len()) - 1) == buf,
        (cur + seq![g].len()) - 1 == cur,
{
    assert(splice(buf, cur, seq![g]).remove(cur) =~= buf);
}

/// Whether one cluster is the plain space character.
fn is_space(g: &String) -> (r: bool)
    ensures
        r == (g@ == space_g()),
{
    let sp: String = " ".to_owned();
    let r = g.eq(&sp);
    proof {
        reveal_strlit(" ");
        assert(sp@ =~= space_g());
    }
    r
}

/// Mapping a view over a concatenation of three parts concatenates the
/// mapped parts.
proof fn lemma_map_values_concat3(a: Seq<String>, b: Seq<String>, c: Seq<String>)
    ensures
        (a + b + c).map_values(|g: String| g@) =~= a.map_values(|g: String| g@) + b.map_values(
            |g: String| g@,
        ) + c.map_values(|g: String| g@),
{
}

/// Mapping a view commutes with removing one element.
proof fn lemma_map_values_remove(s: Seq<String>, i: int)
    requires
        0 <= i < s.len(),
    ensures
        s.remove(i).map_values(|g: String| g@) =~= s.map_values(|g: String| g@).remove(i),
{
}

/// Flattening the tail from `cur` equals flattening the subrange to the
/// end.
proof fn lemma_flatten_subrange_skip(buf: Seq<Seq<char>>, cur: int)
    requires
        0 <= cur <= buf.len(),
    ensures
        buf.subrange(cur, buf.len() as int).flatten() == buf.skip(cur).flatten(),
{
    assert(buf.subrange(cur, buf.len() as int) =~= buf.skip(cur));
}

} // verus!

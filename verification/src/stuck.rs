//! The stuck-glyph table: glyphs left behind by expired drops, each
//! kept for a bounded time at one screen cell.
//!
//! The table is a small vector of entries with pairwise distinct
//! positions. Insertion beyond the configured capacity fails silently
//! and never evicts; a purge each frame removes entries older than the
//! retention window; a drop drawing over a cell removes the entry there.

use vstd::prelude::*;

verus! {

/// How long a stuck glyph survives, in milliseconds.
pub const RETENTION_MS: u64 = 10_000;

/// One stuck glyph: the cell it sits in, the glyph, and when it was
/// inserted.
#[derive(Clone, Copy, Debug, PartialEq, Eq, Structural)]
pub struct StuckEntry {
    pub col: u16,
    pub row: u16,
    pub glyph: char,
    pub at_ms: u64,
}

/// Whether an entry inserted at `at_ms` is still alive at `now_ms`.
pub open spec fn spec_retained(e: StuckEntry, now_ms: u64) -> bool {
    now_ms < e.at_ms + RETENTION_MS
}

/// Whether the entries of `s` sit at pairwise distinct cells.
pub open spec fn distinct_positions(s: Seq<StuckEntry>) -> bool {
    forall|i: int, j: int|
        0 <= i < j < s.len() ==> !(s[i].col == s[j].col && s[i].row == s[j].row)
}

/// Whether some entry of `s` sits at the cell `(col, row)`.
pub open spec fn seq_has_pos(s: Seq<StuckEntry>, col: u16, row: u16) -> bool {
    exists|i: int| 0 <= i < s.len() && s[i].col == col && s[i].row == row
}

/// A filtered sequence keeps only elements of the original, and keeps
/// their cells pairwise distinct when they were.
proof fn lemma_filter_distinct(s: Seq<StuckEntry>, pred: spec_fn(StuckEntry) -> bool)
    requires
        distinct_positions(s),
    ensures
        distinct_positions(s.filter(pred)),
        forall|i: int| 0 <= i < s.filter(pred).len() ==> s.contains(#[trigger] s.filter(pred)[i]),
    decreases s.len(),
{
    reveal(Seq::filter);
    if s.len() > 0 {
        let head = s.drop_last();
        assert(distinct_positions(head));
        lemma_filter_distinct(head, pred);
        let f = head.filter(pred);
        assert forall|i: int| 0 <= i < f.len() implies s.contains(f[i]) by {
            let j = choose|j: int| 0 <= j < head.len() && head[j] == f[i];
            assert(s[j] == f[i]);
        }
        if pred(s.last()) {
            assert(s.filter(pred) == f.push(s.last()));
            assert(s.last() == s[s.len() - 1]);
            assert forall|i: int|
                0 <= i < f.len() implies !(f[i].col == s.last().col && f[i].row
                == s.last().row) by {
                let j = choose|j: int| 0 <= j < head.len() && head[j] == f[i];
            }
        }
    }
}

/// How one more element changes a filtered sequence.
proof fn lemma_filter_push(s: Seq<StuckEntry>, e: StuckEntry, pred: spec_fn(StuckEntry) -> bool)
    ensures
        s.push(e).filter(pred) == if pred(e) {
            s.filter(pred).push(e)
        } else {
            s.filter(pred)
        },
{
    reveal(Seq::filter);
    assert(s.push(e).drop_last() =~= s);
    assert(s.push(e).last() == e);
}

/// The table of stuck glyphs.
pub struct StuckTable {
    /// The live entries; positions are pairwise distinct while `wf()`
    /// holds.
    pub entries: Vec<StuckEntry>,
}

impl StuckTable {
    /// The table's invariant: no two entries share a cell.
    pub open spec fn wf(&self) -> bool {
        distinct_positions(self.entries@)
    }

    /// Whether some entry sits at the cell `(col, row)`.
    pub open spec fn spec_contains_pos(&self, col: u16, row: u16) -> bool {
        seq_has_pos(self.entries@, col, row)
    }

    pub fn new() -> (r: StuckTable)
        ensures
            r.wf(),
            r.entries@.len() == 0,
    {
        StuckTable { entries: Vec::new() }
    }

    pub fn len(&self) -> (r: usize)
        ensures
            r == self.entries@.len(),
    {
        self.entries.len()
    }

    /// The entry at index `i`.
    pub fn get(&self, i: usize) -> (e: StuckEntry)
        requires
            i < self.entries@.len(),
        ensures
            e == self.entries@[i as int],
    {
        self.entries[i]
    }

    /// The index of the entry at `(col, row)`, if any.
    fn find(&self, col: u16, row: u16) -> (r: Option<usize>)
        ensures
            match r {
                Some(i) => i < self.entries@.len() && self.entries@[i as int].col == col
                    && self.entries@[i as int].row == row,
                None => !self.spec_contains_pos(col, row),
            },
    {
        let n = self.entries.len();
        let mut i: usize = 0;
        while i < n
            invariant
                n == self.entries@.len(),
                i <= n,
                forall|j: int|
                    0 <= j < i ==> !(self.entries@[j].col == col && self.entries@[j].row == row),
            decreases n - i,
        {
            if self.entries[i].col == col && self.entries[i].row == row {
                return Some(i);
            }
            i += 1;
        }
        None
    }

    pub fn contains(&self, col: u16, row: u16) -> (r: bool)
        ensures
            r == self.spec_contains_pos(col, row),
    {
        match self.find(col, row) {
            Some(_) => true,
            None => false,
        }
    }

    /// Stores a glyph at a cell. A table already at the configured
    /// capacity (`capacity != 0`) is left unchanged; otherwise the
    /// entry at the cell, if any, is overwritten, and a fresh cell
    /// gets a new entry.
    pub fn insert(&mut self, col: u16, row: u16, glyph: char, now_ms: u64, capacity: usize)
        requires
            old(self).wf(),
        ensures
            final(self).wf(),
            capacity != 0 && old(self).entries@.len() >= capacity ==> *final(self) == *old(self),
            capacity == 0 || old(self).entries@.len() < capacity ==> {
                let e = (StuckEntry { col, row, glyph, at_ms: now_ms });
                if old(self).spec_contains_pos(col, row) {
                    exists|i: int|
                        0 <= i < old(self).entries@.len() && old(self).entries@[i].col == col
                            && old(self).entries@[i].row == row && final(self).entries@ == old(
                            self,
                        ).entries@.update(i, e)
                } else {
                    final(self).entries@ == old(self).entries@.push(e)
                }
            },
            final(self).entries@.len() <= old(self).entries@.len() + 1,
            capacity != 0 ==> final(self).entries@.len() <= if old(self).entries@.len() > capacity {
                old(self).entries@.len()
            } else {
                capacity as nat
            },
            forall|k: int|
                0 <= k < final(self).entries@.len() ==> #[trigger] final(self).entries@[k] == (
                StuckEntry { col, row, glyph, at_ms: now_ms }) || old(self).entries@.contains(
                    final(self).entries@[k],
                ),
    {
        if capacity != 0 && self.entries.len() >= capacity {
            return;
        }
        let e = StuckEntry { col, row, glyph, at_ms: now_ms };
        match self.find(col, row) {
            Some(i) => {
                self.entries.set(i, e);
            },
            None => {
                self.entries.push(e);
            },
        }
        proof {
            assert forall|k: int|
                0 <= k < self.entries@.len() implies #[trigger] self.entries@[k] == e || old(
                self,
            ).entries@.contains(self.entries@[k]) by {
                if self.entries@[k] != e {
                    assert(self.entries@[k] == old(self).entries@[k]);
                }
            }
        }
    }

    /// Removes the entry at a cell, if any.
    pub fn remove(&mut self, col: u16, row: u16)
        requires
            old(self).wf(),
        ensures
            final(self).wf(),
            !final(self).spec_contains_pos(col, row),
            old(self).spec_contains_pos(col, row) ==> exists|i: int|
                0 <= i < old(self).entries@.len() && old(self).entries@[i].col == col && old(
                    self,
                ).entries@[i].row == row && final(self).entries@ == old(self).entries@.remove(i),
            !old(self).spec_contains_pos(col, row) ==> *final(self) == *old(self),
            final(self).entries@.len() <= old(self).entries@.len(),
    {
        match self.find(col, row) {
            Some(i) => {
                self.entries.remove(i);
                proof {
                    assert forall|k: int|
                        0 <= k < self.entries@.len() implies !(self.entries@[k].col == col
                        && self.entries@[k].row == row) by {
                        if k < i {
                            assert(self.entries@[k] == old(self).entries@[k]);
                        } else {
                            assert(self.entries@[k] == old(self).entries@[k + 1]);
                        }
                    }
                }
            },
            None => {},
        }
    }

    /// Drops every entry whose retention window has passed.
    pub fn purge(&mut self, now_ms: u64)
        requires
            old(self).wf(),
        ensures
            final(self).wf(),
            final(self).entries@ == old(self).entries@.filter(
                |e: StuckEntry| spec_retained(e, now_ms),
            ),
            final(self).entries@.len() <= old(self).entries@.len(),
            forall|i: int|
                0 <= i < final(self).entries@.len() ==> spec_retained(
                    final(self).entries@[i],
                    now_ms,
                ),
            forall|i: int|
                0 <= i < final(self).entries@.len() ==> old(self).entries@.contains(
                    #[trigger] final(self).entries@[i],
                ),
    {
        let ghost pred = |e: StuckEntry| spec_retained(e, now_ms);
        let n = self.entries.len();
        let mut kept: Vec<StuckEntry> = Vec::new();
        let mut i: usize = 0;
        while i < n
            invariant
                n == self.entries@.len(),
                i <= n,
                pred == (|e: StuckEntry| spec_retained(e, now_ms)),
                kept@ == self.entries@.take(i as int).filter(pred),
            decreases n - i,
        {
            let e = self.entries[i];
            let keep = if now_ms >= e.at_ms {
                now_ms - e.at_ms < RETENTION_MS
            } else {
                true
            };
            proof {
                lemma_filter_push(self.entries@.take(i as int), self.entries@[i as int], pred);
                assert(self.entries@.take(i as int).push(self.entries@[i as int])
                    =~= self.entries@.take(i + 1));
                assert(keep == spec_retained(self.entries@[i as int], now_ms));
                assert(pred(self.entries@[i as int]) == spec_retained(
                    self.entries@[i as int],
                    now_ms,
                ));
            }
            if keep {
                kept.push(e);
            }
            i += 1;
        }
        proof {
            assert(self.entries@.take(n as int) =~= self.entries@);
            lemma_filter_distinct(self.entries@, pred);
            self.entries@.lemma_filter_len(pred);
        }
        self.entries = kept;
        proof {
            assert forall|i: int|
                0 <= i < self.entries@.len() implies spec_retained(self.entries@[i], now_ms) by {
                old(self).entries@.lemma_filter_pred(pred, i);
            }
        }
    }

    /// Forgets every entry, as after a terminal resize.
    pub fn clear(&mut self)
        ensures
            final(self).wf(),
            final(self).entries@.len() == 0,
    {
        self.entries.clear();
    }
}

} // verus!

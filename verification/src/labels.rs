//! Label allocation and recovery.
//!
//! A label is a signed 64-bit row identifier, assigned once and never
//! reused.  The allocator hands out labels monotonically; on reopen it
//! is recovered from the maximum label stored in the table, because the
//! row count is wrong once rows have been deleted.

use vstd::prelude::*;

use crate::errors::Error;

verus! {

/// The largest value of the i64 label space.
pub const LABEL_MAX: i64 = 0x7fff_ffff_ffff_ffff;

/// The maximum of a sequence of labels, with `-1` for the empty
/// sequence, so that `seq_max(s) + 1` is the next free label of a
/// table whose live rows carry the labels `s`.
pub open spec fn seq_max(s: Seq<i64>) -> int
    decreases s.len(),
{
    if s.len() == 0 {
        -1int
    } else {
        let rest = seq_max(s.drop_last());
        if s.last() > rest {
            s.last() as int
        } else {
            rest
        }
    }
}

/// `seq_max` is at least every element, is never below `-1`, and any
/// non-negative maximum is attained by some element.
pub proof fn lemma_seq_max_bounds(s: Seq<i64>)
    ensures
        forall|i: int| 0 <= i < s.len() ==> s[i] <= seq_max(s),
        seq_max(s) >= -1,
        seq_max(s) >= 0 ==> exists|i: int| 0 <= i < s.len() && s[i] == seq_max(s),
    decreases s.len(),
{
    if s.len() > 0 {
        lemma_seq_max_bounds(s.drop_last());
        if s.last() > seq_max(s.drop_last()) {
            assert(s[s.len() - 1] == seq_max(s));
        } else {
            if seq_max(s) >= 0 {
                let i = choose|i: int|
                    0 <= i < s.drop_last().len() && s.drop_last()[i] == seq_max(s.drop_last());
                assert(s.drop_last()[i] == s[i]);
                assert(s[i] == seq_max(s));
            }
        }
        assert forall|i: int| 0 <= i < s.len() implies s[i] <= seq_max(s) by {
            if i < s.len() - 1 {
                assert(s.drop_last()[i] == s[i]);
            }
        }
    }
}

/// Appending to a sequence can only raise its maximum.
pub proof fn lemma_seq_max_push(s: Seq<i64>, v: i64)
    ensures
        seq_max(s.push(v)) == if v > seq_max(s) {
            v as int
        } else {
            seq_max(s)
        },
{
    assert(s.push(v).drop_last() =~= s);
}

/// A monotonic label generator.  `advance` reserves a contiguous range
/// of fresh labels; ranges reserved by successive calls never overlap.
pub struct LabelAllocator {
    next: i64,
}

impl LabelAllocator {
    /// The next label that will be handed out.
    pub closed spec fn spec_next(&self) -> int {
        self.next as int
    }

    /// The counter never leaves the label space.
    pub open spec fn wf(&self) -> bool {
        0 <= self.spec_next() <= LABEL_MAX
    }

    /// A fresh allocator, as used for a newly created table: the first
    /// label assigned is 0.
    pub fn new() -> (r: LabelAllocator)
        ensures
            r.wf(),
            r.spec_next() == 0,
    {
        LabelAllocator { next: 0 }
    }

    /// An allocator recovered from the maximum label stored in a
    /// reopened table, `-1` when the table holds no rows: the next
    /// label assigned is one past everything ever stored live.
    pub fn recover(max_label: i64) -> (r: Result<LabelAllocator, Error>)
        ensures
            max_label < LABEL_MAX ==> (r matches Ok(a) && a.wf() && a.spec_next() == (
            if max_label >= -1 {
                max_label + 1
            } else {
                0int
            })),
            max_label == LABEL_MAX ==> (r matches Err(e) && e == Error::Capacity),
    {
        if max_label == LABEL_MAX {
            Err(Error::Capacity)
        } else if max_label < -1 {
            Ok(LabelAllocator { next: 0 })
        } else {
            Ok(LabelAllocator { next: max_label + 1 })
        }
    }

    /// An allocator whose next label is exactly `next`, as recorded
    /// in a metadata snapshot.
    pub fn from_next(next: i64) -> (r: LabelAllocator)
        requires
            0 <= next,
        ensures
            r.wf(),
            r.spec_next() == next,
    {
        LabelAllocator { next }
    }

    /// The next label, without reserving it.
    pub fn peek(&self) -> (r: i64)
        ensures
            r as int == self.spec_next(),
    {
        self.next
    }

    /// Whether `n` more labels fit in the label space, so that
    /// `advance(n)` would succeed.
    pub fn can_advance(&self, n: usize) -> (r: bool)
        requires
            self.wf(),
        ensures
            r == (self.spec_next() + n <= LABEL_MAX),
    {
        n as u64 <= (LABEL_MAX - self.next) as u64
    }

    /// Reserves `n` fresh labels and returns the first of them; the
    /// reserved range is `[r, r + n)` and the counter moves past it.
    /// Fails with `Capacity`, leaving the counter alone, exactly when
    /// the range would leave the 64-bit label space.
    pub fn advance(&mut self, n: usize) -> (r: Result<i64, Error>)
        requires
            old(self).wf(),
        ensures
            final(self).wf(),
            match r {
                Ok(start) => {
                    &&& start as int == old(self).spec_next()
                    &&& final(self).spec_next() == old(self).spec_next() + n
                    &&& old(self).spec_next() + n <= LABEL_MAX
                },
                Err(e) => {
                    &&& e == Error::Capacity
                    &&& *final(self) == *old(self)
                    &&& old(self).spec_next() + n > LABEL_MAX
                },
            },
    {
        if n as u64 <= (LABEL_MAX - self.next) as u64 {
            let start = self.next;
            self.next = self.next + n as i64;
            Ok(start)
        } else {
            Err(Error::Capacity)
        }
    }
}

/// Label uniqueness under deletion: take any labels ever stored in a
/// table and any subset of them that survives deletion.  As long as
/// the stored maximum is among the survivors, the counter recovered
/// by scanning the survivors — `seq_max(survivors) + 1` — lies
/// strictly above every label ever stored, so the next label
/// assigned after reopening is fresh.  (When the maximum itself was
/// deleted, a scan of live rows alone cannot see it; the metadata
/// snapshot exists for that case.)
pub proof fn lemma_label_unique_after_deletes(stored: Seq<i64>, survivors: Seq<i64>)
    requires
        forall|i: int| 0 <= i < survivors.len() ==> stored.contains(survivors[i]),
        exists|j: int| 0 <= j < survivors.len() && survivors[j] as int == seq_max(stored),
    ensures
        seq_max(survivors) == seq_max(stored),
        forall|i: int| 0 <= i < stored.len() ==> stored[i] < seq_max(survivors) + 1,
{
    lemma_seq_max_bounds(stored);
    lemma_seq_max_bounds(survivors);
    let j = choose|j: int| 0 <= j < survivors.len() && survivors[j] as int == seq_max(stored);
    assert(survivors[j] <= seq_max(survivors));
    if seq_max(survivors) > seq_max(stored) {
        assert(seq_max(survivors) >= 0);
        let k = choose|k: int|
            0 <= k < survivors.len() && survivors[k] as int == seq_max(survivors);
        let m = choose|m: int| 0 <= m < stored.len() && stored[m] == survivors[k];
        assert(stored[m] <= seq_max(stored));
        assert(false);
    }
}

/// Empty reopen: a table with no rows scans to the maximum `-1`, so
/// the counter recovered from it (`recover(-1)`) assigns 0 to the
/// first subsequent add — the same first label a freshly created
/// index assigns.
pub proof fn lemma_empty_reopen()
    ensures
        seq_max(Seq::<i64>::empty()) == -1,
{
}


} // verus!

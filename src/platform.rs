use vstd::prelude::*;

verus! {

/// The number of indices of platforms `lo` to `hi - 1`.
pub open spec fn index_total(counts: Seq<u32>, lo: int, hi: int) -> nat
    decreases hi - lo,
{
    if hi <= lo {
        0
    } else {
        index_total(counts, lo, hi - 1) + counts[hi - 1] as nat
    }
}

/// The first position from `start` on, up to `limit`, whose flag is down.
pub open spec fn advance_while(flags: Seq<bool>, start: int, limit: int) -> int
    decreases limit - start,
{
    if start >= limit || !flags[start] {
        start
    } else {
        advance_while(flags, start + 1, limit)
    }
}

/// The part of a platform index buffer that is drawn: `index_count` indices
/// from `index_offset`, covering platforms `first_platform_index` to
/// `last_platform_index`.
#[derive(Debug, Clone, Copy, PartialEq, Eq, Structural)]
pub struct DrawRange {
    pub index_offset: u32,
    pub index_count: u32,
    pub first_platform_index: usize,
    pub last_platform_index: usize,
}

impl DrawRange {
    /// The empty range at the start of the buffer.
    pub fn new() -> (r: DrawRange)
        ensures
            r.index_offset == 0,
            r.index_count == 0,
            r.first_platform_index == 0,
            r.last_platform_index == 0,
    {
        DrawRange { index_offset: 0, index_count: 0, first_platform_index: 0, last_platform_index: 0 }
    }

    /// The range covers platforms `first_platform_index` to
    /// `last_platform_index - 1` of a buffer that holds the platforms' indices
    /// back to back, `index_counts[i]` of them for platform `i`.
    pub open spec fn covers(&self, index_counts: Seq<u32>) -> bool {
        &&& self.first_platform_index <= self.last_platform_index <= index_counts.len()
        &&& self.index_offset == index_total(index_counts, 0, self.first_platform_index as int)
        &&& self.index_count == index_total(index_counts, self.first_platform_index as int, self.last_platform_index as int)
    }

    /// Slides the range along the platforms as the runner moves. Platforms
    /// join at the far end, in order, while `started[i]` holds (platform `i`
    /// begins inside the visible distance); then they leave at the near end,
    /// in order, while `passed[i]` holds (platform `i` lies wholly behind the
    /// runner). Only platforms inside the range can leave it.
    pub fn update(&mut self, index_counts: &[u32], started: &[bool], passed: &[bool])
        requires
            old(self).covers(index_counts@),
            started@.len() == index_counts@.len(),
            passed@.len() == index_counts@.len(),
            index_total(index_counts@, 0, index_counts@.len() as int) <= u32::MAX,
        ensures
            final(self).covers(index_counts@),
            final(self).last_platform_index == advance_while(
                started@, old(self).last_platform_index as int, index_counts@.len() as int),
            final(self).first_platform_index == advance_while(
                passed@, old(self).first_platform_index as int, final(self).last_platform_index as int),
    {
        let n = index_counts.len();
        proof {
            lemma_index_total_split(index_counts@, 0, self.first_platform_index as int, n as int);
            lemma_index_total_split(index_counts@, self.first_platform_index as int, self.last_platform_index as int, n as int);
        }
        while self.last_platform_index < n && started[self.last_platform_index]
            invariant
                n == index_counts@.len(),
                started@.len() == n,
                self.covers(index_counts@),
                self.first_platform_index == old(self).first_platform_index,
                old(self).last_platform_index <= self.last_platform_index,
                advance_while(started@, self.last_platform_index as int, n as int)
                    == advance_while(started@, old(self).last_platform_index as int, n as int),
                index_total(index_counts@, 0, n as int) <= u32::MAX,
            decreases n - self.last_platform_index,
        {
            let last = self.last_platform_index;
            proof {
                lemma_index_total_split(index_counts@, 0, self.first_platform_index as int, last + 1);
                lemma_index_total_split(index_counts@, 0, last + 1, n as int);
            }
            self.index_count = self.index_count + index_counts[last];
            self.last_platform_index = last + 1;
        }
        let ghost last = self.last_platform_index as int;
        while self.first_platform_index < self.last_platform_index && passed[self.first_platform_index]
            invariant
                n == index_counts@.len(),
                passed@.len() == n,
                self.covers(index_counts@),
                self.last_platform_index == last,
                last == advance_while(started@, old(self).last_platform_index as int, n as int),
                old(self).first_platform_index <= self.first_platform_index,
                advance_while(passed@, self.first_platform_index as int, last)
                    == advance_while(passed@, old(self).first_platform_index as int, last),
                index_total(index_counts@, 0, n as int) <= u32::MAX,
            decreases last - self.first_platform_index,
        {
            let first = self.first_platform_index;
            proof {
                lemma_index_total_split(index_counts@, 0, first as int, last);
                lemma_index_total_split(index_counts@, 0, last, n as int);
                lemma_index_total_first(index_counts@, first as int, last);
            }
            self.index_offset = self.index_offset + index_counts[first];
            self.index_count = self.index_count - index_counts[first];
            self.first_platform_index = first + 1;
        }
    }
}

/// Index totals add up over adjacent spans.
proof fn lemma_index_total_split(counts: Seq<u32>, lo: int, mid: int, hi: int)
    requires
        lo <= mid <= hi,
    ensures
        index_total(counts, lo, hi) == index_total(counts, lo, mid) + index_total(counts, mid, hi),
    decreases hi - mid,
{
    if mid < hi {
        lemma_index_total_split(counts, lo, mid, hi - 1);
    }
}

/// A span's total is its first platform's count plus the rest.
proof fn lemma_index_total_first(counts: Seq<u32>, lo: int, hi: int)
    requires
        lo < hi,
    ensures
        index_total(counts, lo, hi) == counts[lo] + index_total(counts, lo + 1, hi),
    decreases hi - lo,
{
    if lo + 1 < hi {
        lemma_index_total_first(counts, lo, hi - 1);
    } else {
        assert(index_total(counts, lo, lo) == 0);
        assert(index_total(counts, lo + 1, hi) == 0);
    }
}

} // verus!

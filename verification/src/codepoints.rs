//! Sets of Unicode codepoints, kept as sorted lists of inclusive ranges.
//!
//! A list is *canonical* when its ranges are non-empty, ascending, and separated by at
//! least one codepoint that belongs to none of them. Every set of codepoints has exactly
//! one canonical list, so two equal sets are stored the same way.

use vstd::prelude::*;

verus! {

/// The codepoints from `first` to `last`, both included. Empty when `first > last`.
#[derive(Clone, Copy, Debug, PartialEq, Eq, Structural)]
pub struct CodepointRange {
    pub first: u32,
    pub last: u32,
}

impl CodepointRange {
    /// Whether `c` lies in the range.
    pub open spec fn spec_contains(self, c: u32) -> bool {
        self.first <= c <= self.last
    }

    /// The range as a set.
    pub open spec fn codepoints(self) -> Set<u32> {
        Set::new(|c: u32| self.spec_contains(c))
    }

    /// Whether `c` lies in the range.
    pub fn contains(&self, c: u32) -> (found: bool)
        ensures
            found == self.spec_contains(c),
    {
        self.first <= c && c <= self.last
    }
}

/// The largest Unicode codepoint.
pub const MAX_CODEPOINT: u32 = 0x10FFFF;

/// Whether a glyph can stand for `c`: every Unicode codepoint but zero, which ends a
/// string and a glyph table.
pub open spec fn drawable(c: u32) -> bool {
    1 <= c <= MAX_CODEPOINT
}

/// Whether `c` lies between `lo` and `hi`, both included.
pub open spec fn between(lo: u32, hi: u32, c: u32) -> bool {
    lo <= c <= hi
}

/// Whether one of `ranges` holds `c`.
pub open spec fn ranges_cover(ranges: Seq<CodepointRange>, c: u32) -> bool {
    exists|i: int| 0 <= i < ranges.len() && #[trigger] ranges[i].spec_contains(c)
}

/// All the codepoints that `ranges` hold.
pub open spec fn ranges_set(ranges: Seq<CodepointRange>) -> Set<u32> {
    Set::new(|c: u32| ranges_cover(ranges, c))
}

/// Non-empty ranges in ascending order, with a gap between any two of them.
pub open spec fn canonical(ranges: Seq<CodepointRange>) -> bool {
    &&& forall|i: int| 0 <= i < ranges.len() ==> (#[trigger] ranges[i]).first <= ranges[i].last
    &&& forall|i: int, j: int|
        0 <= i < j < ranges.len() ==> (#[trigger] ranges[i]).last + 1 < (#[trigger] ranges[j]).first
}

/// Adds `c` to a canonical list all of whose codepoints are below `c`: the last range
/// grows by one where `c` follows it directly, else `c` starts a range of its own.
pub(crate) fn append_codepoint(ranges: &mut Vec<CodepointRange>, c: u32)
    requires
        canonical(old(ranges)@),
        forall|i: int| 0 <= i < old(ranges)@.len() ==> (#[trigger] old(ranges)@[i]).last < c,
    ensures
        canonical(final(ranges)@),
        forall|i: int| 0 <= i < final(ranges)@.len() ==> (#[trigger] final(ranges)@[i]).last <= c,
        forall|x: u32| ranges_cover(final(ranges)@, x) <==> (ranges_cover(old(ranges)@, x) || x == c),
        final(ranges)@.len() > 0,
        final(ranges)@.last().last == c,
{
    let n: usize = ranges.len();
    let ghost before = ranges@;
    if n > 0 && ranges[n - 1].last as u64 + 1 == c as u64 {
        let grown = CodepointRange { first: ranges[n - 1].first, last: c };
        ranges.set(n - 1, grown);
        proof {
            let after = ranges@;
            assert forall|x: u32| ranges_cover(after, x) <==> (ranges_cover(before, x) || x == c) by {
                if ranges_cover(after, x) {
                    let i = choose|i: int| 0 <= i < after.len() && #[trigger] after[i].spec_contains(x);
                    if i < n - 1 {
                        assert(before[i].spec_contains(x));
                    } else if x != c {
                        assert(before[n - 1].spec_contains(x));
                    }
                }
                if ranges_cover(before, x) {
                    let i = choose|i: int| 0 <= i < before.len() && #[trigger] before[i].spec_contains(x);
                    assert(after[i].spec_contains(x));
                }
                if x == c {
                    assert(after[n - 1].spec_contains(x));
                }
            }
            assert forall|i: int, j: int| 0 <= i < j < after.len() implies (#[trigger] after[i]).last + 1 < (
            #[trigger] after[j]).first by {
                assert(before[i].last + 1 < before[j].first);
            }
        }
    } else {
        ranges.push(CodepointRange { first: c, last: c });
        proof {
            let after = ranges@;
            assert forall|x: u32| ranges_cover(after, x) <==> (ranges_cover(before, x) || x == c) by {
                if ranges_cover(after, x) {
                    let i = choose|i: int| 0 <= i < after.len() && #[trigger] after[i].spec_contains(x);
                    if i < n {
                        assert(before[i].spec_contains(x));
                    }
                }
                if ranges_cover(before, x) {
                    let i = choose|i: int| 0 <= i < before.len() && #[trigger] before[i].spec_contains(x);
                    assert(after[i].spec_contains(x));
                }
                if x == c {
                    assert(after[n as int].spec_contains(x));
                }
            }
            assert forall|i: int, j: int| 0 <= i < j < after.len() implies (#[trigger] after[i]).last + 1 < (
            #[trigger] after[j]).first by {
                if j < n {
                    assert(before[i].last + 1 < before[j].first);
                } else {
                    assert(before[i].last < c);
                    if i == n - 1 {
                        assert(before[n - 1].last + 1 != c);
                    } else {
                        assert(before[i].last + 1 < before[n - 1].first);
                    }
                }
            }
        }
    }
}

/// A set of codepoints.
#[derive(Debug, PartialEq, Eq)]
pub struct CodepointSet {
    ranges: Vec<CodepointRange>,
}

impl View for CodepointSet {
    type V = Set<u32>;

    open spec fn view(&self) -> Set<u32> {
        ranges_set(self.spec_ranges())
    }
}

impl CodepointSet {
    /// The ranges that the set is stored as.
    pub closed spec fn spec_ranges(&self) -> Seq<CodepointRange> {
        self.ranges@
    }

    /// The set is stored as its canonical list.
    pub open spec fn wf(&self) -> bool {
        canonical(self.spec_ranges())
    }

    /// The empty set.
    pub fn new() -> (set: CodepointSet)
        ensures
            set.wf(),
            set.spec_ranges() == Seq::<CodepointRange>::empty(),
            set@ == Set::<u32>::empty(),
    {
        let set = CodepointSet { ranges: Vec::new() };
        assert(set@ =~= Set::<u32>::empty());
        set
    }

    /// Wraps a list that is canonical already.
    pub(crate) fn from_canonical(ranges: Vec<CodepointRange>) -> (set: CodepointSet)
        requires
            canonical(ranges@),
        ensures
            set.wf(),
            set.spec_ranges() == ranges@,
    {
        CodepointSet { ranges }
    }

    /// The canonical list of the set's ranges, in ascending order.
    pub fn ranges(&self) -> (ranges: &Vec<CodepointRange>)
        ensures
            ranges@ == self.spec_ranges(),
    {
        &self.ranges
    }

    /// Whether the set holds no codepoint.
    pub fn is_empty(&self) -> (empty: bool)
        requires
            self.wf(),
        ensures
            empty == (self@ == Set::<u32>::empty()),
    {
        let empty = self.ranges.len() == 0;
        proof {
            if empty {
                assert(self@ =~= Set::<u32>::empty());
            } else {
                assert(self.ranges@[0].spec_contains(self.ranges@[0].first));
                assert(self@.contains(self.ranges@[0].first));
            }
        }
        empty
    }

    /// Whether `c` is in the set, by binary search over the ranges.
    pub fn contains(&self, c: u32) -> (found: bool)
        requires
            self.wf(),
        ensures
            found == self@.contains(c),
    {
        let mut lo: usize = 0;
        let mut hi: usize = self.ranges.len();
        while lo < hi
            invariant
                lo <= hi <= self.ranges.len(),
                canonical(self.ranges@),
                forall|k: int| 0 <= k < lo ==> (#[trigger] self.ranges@[k]).last < c,
                forall|k: int| hi <= k < self.ranges.len() ==> (#[trigger] self.ranges@[k]).last >= c,
            decreases hi - lo,
        {
            let mid: usize = lo + (hi - lo) / 2;
            if self.ranges[mid].last < c {
                proof {
                    assert forall|k: int| 0 <= k < mid + 1 implies (#[trigger] self.ranges@[k]).last < c by {
                        if k < mid {
                            assert(self.ranges@[k].last + 1 < self.ranges@[mid as int].first);
                        }
                    }
                }
                lo = mid + 1;
            } else {
                proof {
                    assert forall|k: int| mid <= k < self.ranges.len() implies (#[trigger] self.ranges@[k]).last
                        >= c by {
                        if k > mid {
                            assert(self.ranges@[mid as int].last + 1 < self.ranges@[k].first);
                        }
                    }
                }
                hi = mid;
            }
        }
        let found = lo < self.ranges.len() && self.ranges[lo].first <= c;
        proof {
            if found {
                assert(self.ranges@[lo as int].spec_contains(c));
            } else {
                assert forall|k: int| 0 <= k < self.ranges.len() implies !(#[trigger] self.ranges@[k]).spec_contains(
                    c,
                ) by {
                    if k > lo {
                        assert(self.ranges@[lo as int].last + 1 < self.ranges@[k].first);
                    }
                }
            }
        }
        found
    }

    /// Adds the codepoints from `first` to `last`, both included; nothing when
    /// `first > last`. Ranges that the new one overlaps or touches are fused with it.
    pub fn insert_range(&mut self, first: u32, last: u32)
        requires
            old(self).wf(),
        ensures
            final(self).wf(),
            final(self)@ == old(self)@.union((CodepointRange { first, last }).codepoints()),
    {
        let ghost before = self.ranges@;
        if first > last {
            assert(self@ =~= self@.union((CodepointRange { first, last }).codepoints()));
            return ;
        }
        let n: usize = self.ranges.len();
        let mut out: Vec<CodepointRange> = Vec::new();
        let mut i: usize = 0;
        while i < n && (self.ranges[i].last as u64) + 1 < first as u64
            invariant
                i <= n,
                n == self.ranges.len(),
                self.ranges@ == before,
                canonical(before),
                out@ == before.subrange(0, i as int),
                forall|k: int| 0 <= k < i ==> (#[trigger] before[k]).last + 1 < first,
            decreases n - i,
        {
            out.push(self.ranges[i]);
            i += 1;
            assert(out@ == before.subrange(0, i as int));
        }
        let ghost start = i as int;
        let mut lo: u32 = first;
        let mut hi: u32 = last;
        while i < n && self.ranges[i].first as u64 <= hi as u64 + 1
            invariant
                0 <= start <= i <= n,
                n == self.ranges.len(),
                self.ranges@ == before,
                canonical(before),
                first <= last,
                lo <= first,
                last <= hi,
                start < n ==> before[start].last + 1 >= first,
                forall|k: int| 0 <= k < start ==> (#[trigger] before[k]).last + 1 < lo,
                forall|k: int| start <= k < i ==> lo <= (#[trigger] before[k]).first && before[k].last <= hi,
                forall|c: u32| #[trigger]
                    between(lo, hi, c) ==> (first <= c <= last || exists|k: int|
                        start <= k < i && #[trigger] before[k].spec_contains(c)),
            decreases n - i,
        {
            let r = self.ranges[i];
            let ghost lo0 = lo;
            let ghost hi0 = hi;
            proof {
                if i > start {
                    assert(before[i - 1].last + 1 < before[i as int].first);
                }
                assert(r.last + 1 >= lo);
                assert forall|k: int| 0 <= k < start implies (#[trigger] before[k]).last + 1 < r.first by {
                    assert(before[k].last + 1 < before[i as int].first);
                }
            }
            if r.first < lo {
                lo = r.first;
            }
            if r.last > hi {
                hi = r.last;
            }
            i += 1;
            proof {
                assert forall|c: u32| #[trigger] between(lo, hi, c) implies (first <= c <= last || exists|k: int|
                    start <= k < i && #[trigger] before[k].spec_contains(c)) by {
                    if lo0 <= c <= hi0 {
                        assert(between(lo0, hi0, c));
                        if !(first <= c <= last) {
                            let k = choose|k: int| start <= k < i - 1 && #[trigger] before[k].spec_contains(c);
                            assert(start <= k < i && before[k].spec_contains(c));
                        }
                    } else {
                        assert(before[i - 1].spec_contains(c));
                    }
                }
            }
        }
        let ghost rest = i as int;
        let merged = CodepointRange { first: lo, last: hi };
        out.push(merged);
        while i < n
            invariant
                0 <= start <= rest <= i <= n,
                n == self.ranges.len(),
                self.ranges@ == before,
                out@ == before.subrange(0, start).push(merged) + before.subrange(rest, i as int),
            decreases n - i,
        {
            out.push(self.ranges[i]);
            i += 1;
        }
        proof {
            let after = out@;
            let tail = before.subrange(rest, n as int);
            assert(after.len() == start + 1 + (n - rest));
            assert(forall|k: int| 0 <= k < start ==> after[k] == before[k]);
            assert(after[start] == merged);
            assert(forall|k: int| start < k < after.len() ==> after[k] == before[k - start - 1 + rest]);
            assert forall|k: int| rest <= k < n implies hi + 1 < (#[trigger] before[k]).first by {
                if k > rest {
                    assert(before[rest].last + 1 < before[k].first);
                }
            }
            assert forall|a: int, b: int| 0 <= a < b < after.len() implies (#[trigger] after[a]).last + 1 < (
            #[trigger] after[b]).first by {
                if b < start {
                    assert(before[a].last + 1 < before[b].first);
                } else if b == start {
                    assert(before[a].last + 1 < lo);
                } else if a < start {
                    assert(before[a].last + 1 < before[b - start - 1 + rest].first);
                } else if a == start {
                    assert(hi + 1 < before[b - start - 1 + rest].first);
                } else {
                    assert(before[a - start - 1 + rest].last + 1 < before[b - start - 1 + rest].first);
                }
            }
            assert forall|k: int| 0 <= k < after.len() implies (#[trigger] after[k]).first <= after[k].last by {
                if k < start {
                    assert(before[k].first <= before[k].last);
                } else if k > start {
                    assert(before[k - start - 1 + rest].first <= before[k - start - 1 + rest].last);
                }
            }
            let added = (CodepointRange { first, last }).codepoints();
            assert forall|c: u32| ranges_cover(after, c) <==> (ranges_cover(before, c) || added.contains(c)) by {
                if ranges_cover(after, c) {
                    let k = choose|k: int| 0 <= k < after.len() && #[trigger] after[k].spec_contains(c);
                    if k < start {
                        assert(before[k].spec_contains(c));
                    } else if k > start {
                        assert(before[k - start - 1 + rest].spec_contains(c));
                    } else if !(first <= c <= last) {
                        assert(between(lo, hi, c));
                        let j = choose|j: int| start <= j < rest && #[trigger] before[j].spec_contains(c);
                        assert(before[j].spec_contains(c));
                    }
                }
                if ranges_cover(before, c) {
                    let k = choose|k: int| 0 <= k < before.len() && #[trigger] before[k].spec_contains(c);
                    if k < start {
                        assert(after[k].spec_contains(c));
                    } else if k < rest {
                        assert(after[start].spec_contains(c));
                    } else {
                        assert(after[k - rest + start + 1] == before[k]);
                        assert(after[k - rest + start + 1].spec_contains(c));
                    }
                }
                if added.contains(c) {
                    assert(after[start].spec_contains(c));
                }
            }
            assert(ranges_set(after) =~= ranges_set(before).union(added));
        }
        self.ranges = out;
    }

    /// The set of all the codepoints that `ranges` hold, in whatever order and however
    /// they overlap.
    pub fn from_ranges(ranges: &Vec<CodepointRange>) -> (set: CodepointSet)
        ensures
            set.wf(),
            set@ == ranges_set(ranges@),
    {
        let mut set = CodepointSet::new();
        let mut i: usize = 0;
        while i < ranges.len()
            invariant
                i <= ranges.len(),
                set.wf(),
                set@ == ranges_set(ranges@.subrange(0, i as int)),
            decreases ranges.len() - i,
        {
            let ghost done = ranges@.subrange(0, i as int);
            let ghost next = ranges@.subrange(0, i + 1);
            let r = ranges[i];
            set.insert_range(r.first, r.last);
            proof {
                assert forall|c: u32| ranges_cover(next, c) <==> (ranges_cover(done, c) || r.spec_contains(c)) by {
                    if ranges_cover(next, c) {
                        let k = choose|k: int| 0 <= k < next.len() && #[trigger] next[k].spec_contains(c);
                        if k < i {
                            assert(done[k].spec_contains(c));
                        }
                    }
                    if ranges_cover(done, c) {
                        let k = choose|k: int| 0 <= k < done.len() && #[trigger] done[k].spec_contains(c);
                        assert(next[k].spec_contains(c));
                    }
                    if r.spec_contains(c) {
                        assert(next[i as int].spec_contains(c));
                    }
                }
                assert(set@ =~= ranges_set(next));
            }
            i += 1;
        }
        assert(ranges@.subrange(0, i as int) == ranges@);
        set
    }
}

} // verus!

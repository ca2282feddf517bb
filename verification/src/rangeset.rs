//! A compact set of `usize` values stored as sorted, disjoint closed ranges.
//!
//! The scraper records the pages it has fully ingested here: page numbers are
//! discovered in long contiguous runs, so a handful of ranges stands for
//! thousands of values.

use vstd::prelude::*;

verus! {

/// Well-formedness of the underlying range list: every range has
/// `start <= end`, and consecutive ranges are separated by a gap of at least
/// one value. Together these make the list strictly sorted by start and the
/// ranges pairwise disjoint, and no two ranges can be merged further.
pub open spec fn ranges_wf(ranges: Seq<(usize, usize)>) -> bool {
    &&& forall|i: int|
        0 <= i < ranges.len() ==> (#[trigger] ranges[i]).0 <= ranges[i].1
    &&& forall|i: int|
        0 <= i && i + 1 < ranges.len() ==> (#[trigger] ranges[i]).1 + 2 <= ranges[i + 1].0
}

/// Membership of a value in a range list.
pub open spec fn in_ranges(ranges: Seq<(usize, usize)>, v: int) -> bool {
    exists|i: int| 0 <= i < ranges.len() && (#[trigger] ranges[i]).0 <= v <= ranges[i].1
}

/// Ranges further right start strictly after earlier ranges end, with a gap.
pub proof fn lemma_ranges_sorted(ranges: Seq<(usize, usize)>, i: int, j: int)
    requires
        ranges_wf(ranges),
        0 <= i < j < ranges.len(),
    ensures
        ranges[i].1 + 2 <= ranges[j].0,
    decreases j - i,
{
    if i + 1 < j {
        lemma_ranges_sorted(ranges, i, j - 1);
    }
}

/// A set of `usize` values kept as disjoint, sorted closed ranges, so that
/// contiguous runs of values take constant space.
pub struct RangeSet {
    /// Sorted, disjoint closed ranges; see [`ranges_wf`]. Exposed for
    /// inspection and persistence; the methods require and preserve [`RangeSet::wf`].
    pub ranges: Vec<(usize, usize)>,
}

impl View for RangeSet {
    type V = Set<int>;

    /// The mathematical set of values held.
    open spec fn view(&self) -> Set<int> {
        Set::new(|v: int| in_ranges(self.ranges@, v))
    }
}

impl RangeSet {
    /// The internal invariant; established by `new` and preserved by `insert`.
    pub open spec fn wf(self) -> bool {
        ranges_wf(self.ranges@)
    }

    /// An empty set.
    pub fn new() -> (r: RangeSet)
        ensures
            r.wf(),
            r@ == Set::<int>::empty(),
    {
        let r = RangeSet { ranges: Vec::new() };
        proof {
            assert(r@ =~= Set::<int>::empty());
        }
        r
    }

    /// Rebuild a set from a stored range list, refusing lists that do not
    /// satisfy the invariant.
    pub fn from_ranges(ranges: Vec<(usize, usize)>) -> (r: Option<RangeSet>)
        ensures
            r is Some <==> ranges_wf(ranges@),
            r is Some ==> r.unwrap().wf() && r.unwrap().ranges@ == ranges@,
    {
        let n = ranges.len();
        let mut i: usize = 0;
        while i < n
            invariant
                i <= n,
                n == ranges.len(),
                forall|k: int| 0 <= k < i ==> (#[trigger] ranges@[k]).0 <= ranges@[k].1,
                forall|k: int|
                    0 <= k && k + 1 <= i && k + 1 < n ==> (#[trigger] ranges@[k]).1 + 2
                        <= ranges@[k + 1].0,
            decreases n - i,
        {
            let (s, e) = ranges[i];
            if s > e {
                return None;
            }
            if i + 1 < n {
                let next_start = ranges[i + 1].0;
                if e >= usize::MAX - 1 || e + 2 > next_start {
                    return None;
                }
            }
            i += 1;
        }
        Some(RangeSet { ranges })
    }

    /// Whether `value` is in the set.
    pub fn contains(&self, value: &usize) -> (r: bool)
        ensures
            r == self@.contains(*value as int),
    {
        let n = self.ranges.len();
        let mut i: usize = 0;
        while i < n
            invariant
                i <= n,
                n == self.ranges.len(),
                forall|k: int|
                    0 <= k < i ==> !((#[trigger] self.ranges@[k]).0 <= *value as int
                        <= self.ranges@[k].1),
            decreases n - i,
        {
            let (s, e) = self.ranges[i];
            if s <= *value && *value <= e {
                return true;
            }
            i += 1;
        }
        assert(!in_ranges(self.ranges@, *value as int));
        false
    }

    /// The smallest value `>= min` that is not in the set: `min` itself when
    /// `min` is not held, otherwise one past the end of the range holding
    /// `min`. The requirement says only that such a value exists below
    /// `usize::MAX`.
    pub fn get_first_missing(&self, min: usize) -> (r: usize)
        requires
            self.wf(),
            exists|v: int| min as int <= v <= usize::MAX as int && !self@.contains(v),
        ensures
            min <= r,
            !self@.contains(r as int),
            forall|v: int| min as int <= v < r as int ==> self@.contains(v),
    {
        let n = self.ranges.len();
        let mut i: usize = 0;
        while i < n
            invariant
                i <= n,
                n == self.ranges@.len(),
                self.wf(),
                exists|v: int| min as int <= v <= usize::MAX as int && !self@.contains(v),
                forall|k: int|
                    0 <= k < i ==> !((#[trigger] self.ranges@[k]).0 <= min as int
                        <= self.ranges@[k].1),
            decreases n - i,
        {
            let (s, e) = self.ranges[i];
            if s <= min && min <= e {
                proof {
                    let w = choose|v: int|
                        min as int <= v <= usize::MAX as int && !self@.contains(v);
                    if e == usize::MAX {
                        assert((#[trigger] self.ranges@[i as int]).0 <= w
                            <= self.ranges@[i as int].1);
                        assert(false);
                    }
                    assert forall|v: int| min as int <= v < e + 1 implies self@.contains(v) by {
                        assert((#[trigger] self.ranges@[i as int]).0 <= v
                            <= self.ranges@[i as int].1);
                    }
                    assert(!self@.contains(e + 1)) by {
                        if in_ranges(self.ranges@, e + 1) {
                            let j = choose|j: int|
                                0 <= j < self.ranges@.len() && (#[trigger] self.ranges@[j]).0 <= e
                                    + 1 <= self.ranges@[j].1;
                            if j < i {
                                lemma_ranges_sorted(self.ranges@, j, i as int);
                            } else if i < j {
                                lemma_ranges_sorted(self.ranges@, i as int, j);
                            }
                            assert(false);
                        }
                    }
                }
                return e + 1;
            }
            i += 1;
        }
        assert(!in_ranges(self.ranges@, min as int));
        min
    }

    /// Index of the first range whose start is greater than `value`.
    fn find_pos(&self, value: usize) -> (pos: usize)
        requires
            self.wf(),
        ensures
            pos <= self.ranges@.len(),
            forall|j: int| 0 <= j < pos ==> (#[trigger] self.ranges@[j]).0 <= value as int,
            forall|j: int|
                pos <= j < self.ranges@.len() ==> (#[trigger] self.ranges@[j]).0 > value as int,
    {
        let n = self.ranges.len();
        let mut lo: usize = 0;
        let mut hi: usize = n;
        while lo < hi
            invariant
                lo <= hi <= n,
                n == self.ranges@.len(),
                self.wf(),
                forall|j: int| 0 <= j < lo ==> (#[trigger] self.ranges@[j]).0 <= value as int,
                forall|j: int| hi <= j < n ==> (#[trigger] self.ranges@[j]).0 > value as int,
            decreases hi - lo,
        {
            let mid = lo + (hi - lo) / 2;
            if self.ranges[mid].0 <= value {
                proof {
                    assert forall|j: int| 0 <= j <= mid implies (#[trigger] self.ranges@[j]).0
                        <= value as int by {
                        if j < mid {
                            lemma_ranges_sorted(self.ranges@, j, mid as int);
                        }
                    }
                }
                lo = mid + 1;
            } else {
                proof {
                    assert forall|j: int| mid <= j < n implies (#[trigger] self.ranges@[j]).0
                        > value as int by {
                        if mid < j {
                            lemma_ranges_sorted(self.ranges@, mid as int, j);
                        }
                    }
                }
                hi = mid;
            }
        }
        lo
    }

    /// Add `value` to the set, merging with a neighbouring range when the
    /// value is adjacent to it, so that the invariant is kept.
    pub fn insert(&mut self, value: usize)
        requires
            old(self).wf(),
        ensures
            final(self).wf(),
            final(self)@ == old(self)@.insert(value as int),
    {
        let ghost r0 = self.ranges@;
        if self.ranges.len() == 0 {
            self.ranges.push((value, value));
            proof {
                let r1 = self.ranges@;
                assert(r1[0] == (value, value));
                assert(in_ranges(r1, value as int));
                assert(self@ =~= old(self)@.insert(value as int));
            }
            return;
        }

        let pos = self.find_pos(value);
        let n = self.ranges.len();

        if pos > 0 {
            let (ps, pe) = self.ranges[pos - 1];
            if ps <= value && value <= pe {
                proof {
                    assert((#[trigger] r0[pos - 1]).0 <= value as int <= r0[pos - 1].1);
                    assert(self@ =~= old(self)@.insert(value as int));
                }
                return;
            }
        }

        proof {
            lemma_value_absent(r0, pos as int, value as int);
        }

        let merge_prev = pos > 0 && value == self.ranges[pos - 1].1 + 1;
        let merge_next = pos < n && value + 1 == self.ranges[pos].0;

        if merge_prev && merge_next {
            let prev = self.ranges[pos - 1];
            let next_end = self.ranges[pos].1;
            self.ranges.set(pos - 1, (prev.0, next_end));
            self.ranges.remove(pos);
            proof {
                lemma_insert_merge_both(r0, pos as int, value as int);
                assert(self@ =~= old(self)@.insert(value as int));
            }
        } else if merge_prev {
            let prev = self.ranges[pos - 1];
            self.ranges.set(pos - 1, (prev.0, value));
            proof {
                lemma_insert_merge_prev(r0, pos as int, value as int);
                assert(self@ =~= old(self)@.insert(value as int));
            }
        } else if merge_next {
            let next = self.ranges[pos];
            self.ranges.set(pos, (value, next.1));
            proof {
                lemma_insert_merge_next(r0, pos as int, value as int);
                assert(self@ =~= old(self)@.insert(value as int));
            }
        } else {
            self.ranges.insert(pos, (value, value));
            proof {
                lemma_insert_singleton(r0, pos as int, value as int);
                assert(self@ =~= old(self)@.insert(value as int));
            }
        }
    }
}

/// The facts `insert` has in hand after locating the insertion position for a
/// value that is not yet present.
pub open spec fn insert_frame(r0: Seq<(usize, usize)>, pos: int, value: int) -> bool {
    &&& ranges_wf(r0)
    &&& 0 <= value <= usize::MAX
    &&& 0 <= pos <= r0.len()
    &&& forall|j: int| 0 <= j < pos ==> (#[trigger] r0[j]).0 <= value
    &&& forall|j: int| pos <= j < r0.len() ==> (#[trigger] r0[j]).0 > value
    &&& forall|j: int| 0 <= j < r0.len() ==> !((#[trigger] r0[j]).0 <= value <= r0[j].1)
}

/// After the position search, a value whose range would have to sit at `pos`
/// is contained in no range at all.
proof fn lemma_value_absent(r0: Seq<(usize, usize)>, pos: int, value: int)
    requires
        ranges_wf(r0),
        0 <= value <= usize::MAX,
        0 <= pos <= r0.len(),
        forall|j: int| 0 <= j < pos ==> (#[trigger] r0[j]).0 <= value,
        forall|j: int| pos <= j < r0.len() ==> (#[trigger] r0[j]).0 > value,
        pos > 0 ==> !(r0[pos - 1].0 <= value <= r0[pos - 1].1),
    ensures
        insert_frame(r0, pos, value),
{
    assert forall|j: int| 0 <= j < r0.len() implies !((#[trigger] r0[j]).0 <= value <= r0[j].1) by {
        if j < pos - 1 {
            lemma_ranges_sorted(r0, j, pos - 1);
        }
    }
}

/// Inserting a value adjacent to both neighbours coalesces them into one
/// range.
#[verifier::rlimit(50)]
proof fn lemma_insert_merge_both(r0: Seq<(usize, usize)>, pos: int, value: int)
    requires
        insert_frame(r0, pos, value),
        0 < pos < r0.len(),
        value == r0[pos - 1].1 + 1,
        value + 1 == r0[pos].0,
    ensures
        ({
            let r1 = r0.update(pos - 1, (r0[pos - 1].0, r0[pos].1)).remove(pos);
            &&& ranges_wf(r1)
            &&& Set::new(|v: int| in_ranges(r1, v)) =~= Set::new(|v: int| in_ranges(r0, v)).insert(
                value,
            )
        }),
{
    let r1 = r0.update(pos - 1, (r0[pos - 1].0, r0[pos].1)).remove(pos);
    assert forall|j: int|
        0 <= j < r1.len() implies (#[trigger] r1[j]).0 <= r1[j].1 && (j + 1 < r1.len() ==> r1[j].1
        + 2 <= r1[j + 1].0) by {
        assert(r0[pos].0 <= r0[pos].1);
        if j + 1 < r1.len() && j + 1 > pos - 1 {
            assert(r1[j + 1] == r0[j + 2]);
        }
    }
    assert forall|u: int| in_ranges(r1, u) implies (in_ranges(r0, u) || u == value) by {
        let i = choose|i: int| 0 <= i < r1.len() && (#[trigger] r1[i]).0 <= u <= r1[i].1;
        if i < pos - 1 {
            assert((#[trigger] r0[i]).0 <= u <= r0[i].1);
        } else if i == pos - 1 {
            if u <= r0[pos - 1].1 {
                assert((#[trigger] r0[pos - 1]).0 <= u <= r0[pos - 1].1);
            } else if u >= r0[pos].0 {
                assert((#[trigger] r0[pos]).0 <= u <= r0[pos].1);
            }
        } else {
            assert((#[trigger] r0[i + 1]).0 <= u <= r0[i + 1].1);
        }
    }
    assert forall|u: int| in_ranges(r0, u) || u == value implies in_ranges(r1, u) by {
        if u == value {
            assert((#[trigger] r1[pos - 1]).0 <= u <= r1[pos - 1].1);
        } else {
            let i = choose|i: int| 0 <= i < r0.len() && (#[trigger] r0[i]).0 <= u <= r0[i].1;
            if i < pos - 1 {
                assert((#[trigger] r1[i]).0 <= u <= r1[i].1);
            } else if i == pos - 1 || i == pos {
                assert(r0[pos - 1].0 <= r0[pos - 1].1);
                assert((#[trigger] r1[pos - 1]).0 <= u <= r1[pos - 1].1);
            } else {
                assert((#[trigger] r1[i - 1]).0 <= u <= r1[i - 1].1);
            }
        }
    }
}

/// Inserting a value adjacent only to the range on its left extends that
/// range by one.
proof fn lemma_insert_merge_prev(r0: Seq<(usize, usize)>, pos: int, value: int)
    requires
        insert_frame(r0, pos, value),
        0 < pos,
        value == r0[pos - 1].1 + 1,
        pos < r0.len() ==> value + 1 < r0[pos].0,
    ensures
        ({
            let r1 = r0.update(pos - 1, (r0[pos - 1].0, value as usize));
            &&& ranges_wf(r1)
            &&& Set::new(|v: int| in_ranges(r1, v)) =~= Set::new(|v: int| in_ranges(r0, v)).insert(
                value,
            )
        }),
{
    let r1 = r0.update(pos - 1, (r0[pos - 1].0, value as usize));
    assert forall|j: int|
        0 <= j < r1.len() implies (#[trigger] r1[j]).0 <= r1[j].1 && (j + 1 < r1.len() ==> r1[j].1
        + 2 <= r1[j + 1].0) by {}
    assert forall|u: int| in_ranges(r1, u) implies (in_ranges(r0, u) || u == value) by {
        let i = choose|i: int| 0 <= i < r1.len() && (#[trigger] r1[i]).0 <= u <= r1[i].1;
        if i != pos - 1 || u <= r0[pos - 1].1 {
            assert((#[trigger] r0[i]).0 <= u <= r0[i].1);
        }
    }
    assert forall|u: int| in_ranges(r0, u) || u == value implies in_ranges(r1, u) by {
        if u == value {
            assert((#[trigger] r1[pos - 1]).0 <= u <= r1[pos - 1].1);
        } else {
            let i = choose|i: int| 0 <= i < r0.len() && (#[trigger] r0[i]).0 <= u <= r0[i].1;
            if i == pos - 1 {
                assert((#[trigger] r1[pos - 1]).0 <= u <= r1[pos - 1].1);
            } else {
                assert((#[trigger] r1[i]).0 <= u <= r1[i].1);
            }
        }
    }
}

/// Inserting a value adjacent only to the range on its right extends that
/// range backwards by one.
proof fn lemma_insert_merge_next(r0: Seq<(usize, usize)>, pos: int, value: int)
    requires
        insert_frame(r0, pos, value),
        pos < r0.len(),
        pos > 0 ==> value > r0[pos - 1].1 + 1,
        value + 1 == r0[pos].0,
    ensures
        ({
            let r1 = r0.update(pos, (value as usize, r0[pos].1));
            &&& ranges_wf(r1)
            &&& Set::new(|v: int| in_ranges(r1, v)) =~= Set::new(|v: int| in_ranges(r0, v)).insert(
                value,
            )
        }),
{
    let r1 = r0.update(pos, (value as usize, r0[pos].1));
    assert forall|j: int|
        0 <= j < r1.len() implies (#[trigger] r1[j]).0 <= r1[j].1 && (j + 1 < r1.len() ==> r1[j].1
        + 2 <= r1[j + 1].0) by {
        assert(r0[pos].0 <= r0[pos].1);
    }
    assert forall|u: int| in_ranges(r1, u) implies (in_ranges(r0, u) || u == value) by {
        let i = choose|i: int| 0 <= i < r1.len() && (#[trigger] r1[i]).0 <= u <= r1[i].1;
        if i != pos || u >= r0[pos].0 {
            assert((#[trigger] r0[i]).0 <= u <= r0[i].1);
        }
    }
    assert forall|u: int| in_ranges(r0, u) || u == value implies in_ranges(r1, u) by {
        if u == value {
            assert((#[trigger] r1[pos]).0 <= u <= r1[pos].1);
        } else {
            let i = choose|i: int| 0 <= i < r0.len() && (#[trigger] r0[i]).0 <= u <= r0[i].1;
            if i == pos {
                assert((#[trigger] r1[pos]).0 <= u <= r1[pos].1);
            } else {
                assert((#[trigger] r1[i]).0 <= u <= r1[i].1);
            }
        }
    }
}

/// Inserting a value adjacent to neither neighbour adds a singleton range.
proof fn lemma_insert_singleton(r0: Seq<(usize, usize)>, pos: int, value: int)
    requires
        insert_frame(r0, pos, value),
        pos > 0 ==> value > r0[pos - 1].1 + 1,
        pos < r0.len() ==> value + 1 < r0[pos].0,
    ensures
        ({
            let r1 = r0.insert(pos, (value as usize, value as usize));
            &&& ranges_wf(r1)
            &&& Set::new(|v: int| in_ranges(r1, v)) =~= Set::new(|v: int| in_ranges(r0, v)).insert(
                value,
            )
        }),
{
    let r1 = r0.insert(pos, (value as usize, value as usize));
    assert forall|j: int|
        0 <= j < r1.len() implies (#[trigger] r1[j]).0 <= r1[j].1 && (j + 1 < r1.len() ==> r1[j].1
        + 2 <= r1[j + 1].0) by {
        if j < pos - 1 || j > pos {
            assert(r1[j] == r0[if j < pos { j } else { j - 1 }]);
        }
    }
    assert forall|u: int| in_ranges(r1, u) implies (in_ranges(r0, u) || u == value) by {
        let i = choose|i: int| 0 <= i < r1.len() && (#[trigger] r1[i]).0 <= u <= r1[i].1;
        if i < pos {
            assert((#[trigger] r0[i]).0 <= u <= r0[i].1);
        } else if i > pos {
            assert((#[trigger] r0[i - 1]).0 <= u <= r0[i - 1].1);
        }
    }
    assert forall|u: int| in_ranges(r0, u) || u == value implies in_ranges(r1, u) by {
        if u == value {
            assert((#[trigger] r1[pos]).0 <= u <= r1[pos].1);
        } else {
            let i = choose|i: int| 0 <= i < r0.len() && (#[trigger] r0[i]).0 <= u <= r0[i].1;
            if i < pos {
                assert((#[trigger] r1[i]).0 <= u <= r1[i].1);
            } else {
                assert((#[trigger] r1[i + 1]).0 <= u <= r1[i + 1].1);
            }
        }
    }
}

/// Law: a well-formed range list is strictly sorted by range start, its
/// ranges are pairwise disjoint, and every range has `start <= end`.
pub proof fn lemma_wf_sorted_disjoint(ranges: Seq<(usize, usize)>)
    requires
        ranges_wf(ranges),
    ensures
        forall|i: int, j: int|
            0 <= i < j < ranges.len() ==> (#[trigger] ranges[i]).0 < (#[trigger] ranges[j]).0,
        forall|i: int, j: int|
            0 <= i < j < ranges.len() ==> (#[trigger] ranges[i]).1 < (#[trigger] ranges[j]).0,
        forall|i: int| 0 <= i < ranges.len() ==> (#[trigger] ranges[i]).0 <= ranges[i].1,
{
    assert forall|i: int, j: int| 0 <= i < j < ranges.len() implies (#[trigger] ranges[i]).0 < (
    #[trigger] ranges[j]).0 && ranges[i].1 < ranges[j].0 by {
        lemma_ranges_sorted(ranges, i, j);
    }
}

/// Law: a value just inserted is contained, over the set view that
/// `RangeSet::insert` and `RangeSet::contains` are specified with.
pub proof fn lemma_insert_then_contains(s: Set<int>, v: int)
    ensures
        s.insert(v).contains(v),
{
}

/// Law: when the set holds exactly the values `1..=k`, the first missing
/// value from `m` is `k + 1` for `1 <= m <= k` and `m` itself for `m > k`.
/// From `m == 0` it would be `0`, which is why `m >= 1` is required. The
/// requirements on `r` are what `RangeSet::get_first_missing` ensures of its
/// result.
pub proof fn lemma_first_missing_dense(s: Set<int>, k: int, m: int, r: int)
    requires
        forall|v: int| s.contains(v) <==> 1 <= v <= k,
        1 <= m,
        m <= r,
        !s.contains(r),
        forall|v: int| m <= v < r ==> s.contains(v),
    ensures
        m <= k ==> r == k + 1,
        m > k ==> r == m,
{
    if m <= k {
        assert(!s.contains(r));
        if r > k + 1 {
            assert(s.contains(k + 1));
            assert(false);
        }
    } else {
        if r > m {
            assert(s.contains(m));
            assert(false);
        }
    }
}

} // verus!

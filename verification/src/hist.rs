//! Counting histogram over the intensity range 0..256, with an O(256) lower
//! median query. The running `count` always equals the sum of all bins, so
//! the median can be answered from one cumulative pass.

use vstd::prelude::*;

verus! {

/// Sum of `bins[0..n]`.
pub open spec fn sum_prefix(bins: Seq<int>, n: int) -> int
    decreases n,
{
    if n <= 0 {
        0
    } else {
        sum_prefix(bins, n - 1) + bins[n - 1]
    }
}

/// Number of indices `k` with `s[k] == v`.
pub open spec fn count_eq(s: Seq<int>, v: int) -> int
    decreases s.len(),
{
    if s.len() == 0 {
        0
    } else {
        count_eq(s.drop_last(), v) + if s.last() == v { 1int } else { 0int }
    }
}

/// Number of indices `k` with `s[k] < b`.
pub open spec fn count_lt(s: Seq<int>, b: int) -> int
    decreases s.len(),
{
    if s.len() == 0 {
        0
    } else {
        count_lt(s.drop_last(), b) + if s.last() < b { 1int } else { 0int }
    }
}

/// `s` is sorted in non-decreasing order.
pub open spec fn sorted(s: Seq<int>) -> bool {
    forall|i: int, j: int| 0 <= i <= j < s.len() ==> s[i] <= s[j]
}

/// The lower median selected by a cumulative walk that starts at bin `i`
/// with the partial sum `acc` already accumulated: the first bin at which
/// twice the cumulative count reaches `total`, or 255 if none does.
pub open spec fn median_from(bins: Seq<int>, total: int, i: int, acc: int) -> int
    decreases 256 - i,
{
    if i < 0 || i >= 256 {
        255
    } else if 2 * (acc + bins[i]) >= total {
        i
    } else {
        median_from(bins, total, i + 1, acc + bins[i])
    }
}

/// The lower median of a histogram: the smallest bin index `i` such that
/// twice the cumulative count through `i` is at least `total`.
pub open spec fn median_spec(bins: Seq<int>, total: int) -> int {
    median_from(bins, total, 0, 0)
}

/// A counting histogram over values 0..256 together with the number of
/// samples it currently represents.
pub struct HistSet {
    pub data: Vec<u32>,
    pub count: u32,
}

impl HistSet {
    /// The bins as mathematical integers.
    pub open spec fn bins(self) -> Seq<int> {
        self.data@.map_values(|v: u32| v as int)
    }

    /// The number of represented samples.
    pub open spec fn total(self) -> int {
        self.count as int
    }

    /// There are exactly 256 bins and `count` equals the sum of all of them.
    pub open spec fn wf(self) -> bool {
        &&& self.data@.len() == 256
        &&& self.count as int == sum_prefix(self.bins(), 256)
    }

    /// An empty histogram: all bins zero, count zero.
    pub fn new() -> (r: HistSet)
        ensures
            r.wf(),
            r.total() == 0,
            r.bins() == Seq::new(256, |v: int| 0int),
    {
        let mut data: Vec<u32> = Vec::new();
        let mut k: usize = 0;
        while k < 256
            invariant
                k <= 256,
                data@.len() == k,
                forall|j: int| 0 <= j < k ==> data@[j] == 0u32,
            decreases 256 - k,
        {
            data.push(0);
            k = k + 1;
        }
        let r = HistSet { data, count: 0 };
        proof {
            assert(r.bins() =~= Seq::new(256, |v: int| 0int));
            lemma_sum_prefix_zero(r.bins(), 256);
        }
        r
    }

    /// Adds one sample with value `bin`.
    pub fn incr(&mut self, bin: u8)
        requires
            old(self).wf(),
            old(self).total() < u32::MAX,
        ensures
            final(self).wf(),
            final(self).bins() == old(self).bins().update(
                bin as int,
                old(self).bins()[bin as int] + 1,
            ),
            final(self).total() == old(self).total() + 1,
    {
        proof {
            lemma_sum_prefix_ge_elem(old(self).bins(), bin as int, 256);
        }
        let v = self.data[bin as usize];
        self.data[bin as usize] = v + 1;
        self.count = self.count + 1;
        proof {
            assert(self.bins() =~= old(self).bins().update(
                bin as int,
                old(self).bins()[bin as int] + 1,
            ));
            lemma_sum_prefix_update(old(self).bins(), bin as int, old(self).bins()[bin as int] + 1, 256);
        }
    }

    /// Removes one sample with value `bin`; the bin must be non-empty.
    pub fn decr(&mut self, bin: u8)
        requires
            old(self).wf(),
            old(self).bins()[bin as int] > 0,
        ensures
            final(self).wf(),
            final(self).bins() == old(self).bins().update(
                bin as int,
                old(self).bins()[bin as int] - 1,
            ),
            final(self).total() == old(self).total() - 1,
    {
        proof {
            lemma_sum_prefix_ge_elem(old(self).bins(), bin as int, 256);
        }
        let v = self.data[bin as usize];
        self.data[bin as usize] = v - 1;
        self.count = self.count - 1;
        proof {
            assert(self.bins() =~= old(self).bins().update(
                bin as int,
                old(self).bins()[bin as int] - 1,
            ));
            lemma_sum_prefix_update(old(self).bins(), bin as int, old(self).bins()[bin as int] - 1, 256);
        }
    }

    /// The lower median of the represented samples: the smallest value `m`
    /// such that twice the number of samples at most `m` reaches the count.
    pub fn median(&self) -> (r: u8)
        requires
            self.wf(),
        ensures
            r as int == median_spec(self.bins(), self.total()),
    {
        let mut acc: u64 = 0;
        let mut i: usize = 0;
        while i < 256
            invariant
                self.wf(),
                i <= 256,
                acc == sum_prefix(self.bins(), i as int),
                0 <= acc <= self.total(),
                median_spec(self.bins(), self.total()) == median_from(
                    self.bins(),
                    self.total(),
                    i as int,
                    acc as int,
                ),
            decreases 256 - i,
        {
            proof {
                lemma_sum_prefix_ge_elem(self.bins(), i as int, 256);
                lemma_sum_prefix_nonneg_mono(self.bins(), i as int + 1, 256);
                lemma_sum_prefix_nonneg(self.bins(), i as int + 1);
            }
            acc = acc + self.data[i] as u64;
            if 2 * acc >= self.count as u64 {
                return i as u8;
            }
            i = i + 1;
        }
        255
    }
}

/// A sequence of zeros sums to zero.
pub proof fn lemma_sum_prefix_zero(bins: Seq<int>, n: int)
    requires
        forall|j: int| 0 <= j < n ==> bins[j] == 0,
    ensures
        sum_prefix(bins, n) == 0,
    decreases n,
{
    if n > 0 {
        lemma_sum_prefix_zero(bins, n - 1);
    }
}

/// A prefix sum of non-negative bins is non-negative.
pub proof fn lemma_sum_prefix_nonneg(bins: Seq<int>, n: int)
    requires
        forall|j: int| 0 <= j < n ==> bins[j] >= 0,
    ensures
        sum_prefix(bins, n) >= 0,
    decreases n,
{
    if n > 0 {
        lemma_sum_prefix_nonneg(bins, n - 1);
    }
}

/// With non-negative bins, prefix sums grow with the prefix length.
pub proof fn lemma_sum_prefix_nonneg_mono(bins: Seq<int>, m: int, n: int)
    requires
        m <= n,
        forall|j: int| 0 <= j < n ==> bins[j] >= 0,
    ensures
        sum_prefix(bins, m) <= sum_prefix(bins, n),
    decreases n,
{
    if m < n && n > 0 {
        lemma_sum_prefix_nonneg_mono(bins, m, n - 1);
    }
}

/// With non-negative bins, one bin never exceeds a prefix sum covering it.
pub proof fn lemma_sum_prefix_ge_elem(bins: Seq<int>, i: int, n: int)
    requires
        0 <= i < n,
        forall|j: int| 0 <= j < n ==> bins[j] >= 0,
    ensures
        sum_prefix(bins, n) >= bins[i],
    decreases n,
{
    if i == n - 1 {
        lemma_sum_prefix_nonneg(bins, n - 1);
    } else {
        lemma_sum_prefix_ge_elem(bins, i, n - 1);
    }
}

/// Updating one bin shifts a prefix sum covering it by the difference.
pub proof fn lemma_sum_prefix_update(bins: Seq<int>, i: int, v: int, n: int)
    requires
        0 <= i < bins.len(),
        n <= bins.len(),
    ensures
        sum_prefix(bins.update(i, v), n) == sum_prefix(bins, n) + if i < n {
            v - bins[i]
        } else {
            0int
        },
    decreases n,
{
    if n > 0 {
        lemma_sum_prefix_update(bins, i, v, n - 1);
    }
}

/// A value occurring in `s` has a positive count.
pub proof fn lemma_count_eq_ge_one(s: Seq<int>, k: int)
    requires
        0 <= k < s.len(),
    ensures
        count_eq(s, s[k]) >= 1,
    decreases s.len(),
{
    if k < s.len() - 1 {
        lemma_count_eq_ge_one(s.drop_last(), k);
        lemma_count_eq_nonneg(s.drop_last(), s[k]);
    } else {
        lemma_count_eq_nonneg(s.drop_last(), s[k]);
    }
}

/// Counts are non-negative.
pub proof fn lemma_count_eq_nonneg(s: Seq<int>, v: int)
    ensures
        count_eq(s, v) >= 0,
    decreases s.len(),
{
    if s.len() > 0 {
        lemma_count_eq_nonneg(s.drop_last(), v);
    }
}

/// Overwriting position `k` with `g` moves one count from the old value to
/// the new one.
pub proof fn lemma_count_eq_update(s: Seq<int>, k: int, g: int, v: int)
    requires
        0 <= k < s.len(),
    ensures
        count_eq(s.update(k, g), v) == count_eq(s, v) - (if s[k] == v {
            1int
        } else {
            0int
        }) + (if g == v {
            1int
        } else {
            0int
        }),
    decreases s.len(),
{
    let t = s.update(k, g);
    if k == s.len() - 1 {
        assert(t.drop_last() =~= s.drop_last());
    } else {
        assert(t.drop_last() =~= s.drop_last().update(k, g));
        lemma_count_eq_update(s.drop_last(), k, g, v);
    }
}

/// `count_lt` never exceeds the sequence length.
pub proof fn lemma_count_lt_le_len(s: Seq<int>, b: int)
    ensures
        0 <= count_lt(s, b) <= s.len(),
    decreases s.len(),
{
    if s.len() > 0 {
        lemma_count_lt_le_len(s.drop_last(), b);
    }
}

/// `count_lt` grows with the bound.
pub proof fn lemma_count_lt_mono(s: Seq<int>, b1: int, b2: int)
    requires
        b1 <= b2,
    ensures
        count_lt(s, b1) <= count_lt(s, b2),
    decreases s.len(),
{
    if s.len() > 0 {
        lemma_count_lt_mono(s.drop_last(), b1, b2);
    }
}

/// Stepping the bound by one picks up exactly the values equal to `b - 1`.
pub proof fn lemma_count_lt_succ(s: Seq<int>, b: int)
    ensures
        count_lt(s, b) == count_lt(s, b - 1) + count_eq(s, b - 1),
    decreases s.len(),
{
    if s.len() > 0 {
        lemma_count_lt_succ(s.drop_last(), b);
    }
}

/// Everything is below a bound that is above every value.
pub proof fn lemma_count_lt_all(s: Seq<int>, b: int)
    requires
        forall|k: int| 0 <= k < s.len() ==> s[k] < b,
    ensures
        count_lt(s, b) == s.len(),
    decreases s.len(),
{
    if s.len() > 0 {
        lemma_count_lt_all(s.drop_last(), b);
    }
}

/// Nothing is below a bound that is at most every value.
pub proof fn lemma_count_lt_zero(s: Seq<int>, b: int)
    requires
        forall|k: int| 0 <= k < s.len() ==> s[k] >= b,
    ensures
        count_lt(s, b) == 0,
    decreases s.len(),
{
    if s.len() > 0 {
        lemma_count_lt_zero(s.drop_last(), b);
    }
}

/// In a sorted sequence, everything up to position `k` lies strictly below
/// any bound strictly above `s[k]`.
pub proof fn lemma_count_lt_lower(s: Seq<int>, b: int, k: int)
    requires
        sorted(s),
        0 <= k < s.len(),
        s[k] < b,
    ensures
        count_lt(s, b) >= k + 1,
    decreases s.len(),
{
    if k == s.len() - 1 {
        if k == 0 {
            lemma_count_lt_le_len(s.drop_last(), b);
        } else {
            assert(sorted(s.drop_last()));
            lemma_count_lt_lower(s.drop_last(), b, k - 1);
        }
    } else {
        assert(sorted(s.drop_last()));
        lemma_count_lt_lower(s.drop_last(), b, k);
    }
}

/// In a sorted sequence, at most `k` values lie strictly below a bound that
/// `s[k]` already reaches.
pub proof fn lemma_count_lt_upper(s: Seq<int>, b: int, k: int)
    requires
        sorted(s),
        0 <= k < s.len(),
        s[k] >= b,
    ensures
        count_lt(s, b) <= k,
    decreases s.len(),
{
    if k == s.len() - 1 {
        lemma_count_lt_le_len(s.drop_last(), b);
    } else {
        assert(sorted(s.drop_last()));
        lemma_count_lt_upper(s.drop_last(), b, k);
    }
}

/// A histogram prefix sum counts exactly the values below the prefix bound.
pub proof fn lemma_prefix_counts(bins: Seq<int>, s: Seq<int>, i: int)
    requires
        bins.len() == 256,
        forall|v: int| 0 <= v < 256 ==> bins[v] == count_eq(s, v),
        forall|k: int| 0 <= k < s.len() ==> 0 <= #[trigger] s[k] && s[k] < 256,
        0 <= i <= 256,
    ensures
        sum_prefix(bins, i) == count_lt(s, i),
    decreases i,
{
    if i == 0 {
        lemma_count_lt_zero(s, 0);
    } else {
        lemma_prefix_counts(bins, s, i - 1);
        lemma_count_lt_succ(s, i);
    }
}

/// The cumulative walk starting at `i` with partial sum `acc` lands on the
/// first bin from `i` on at which twice the cumulative sum reaches `total`.
proof fn lemma_median_from_props(bins: Seq<int>, total: int, i: int, acc: int)
    requires
        bins.len() == 256,
        0 <= i < 256,
        acc == sum_prefix(bins, i),
        2 * sum_prefix(bins, 256) >= total,
    ensures
        i <= median_from(bins, total, i, acc) < 256,
        2 * sum_prefix(bins, median_from(bins, total, i, acc) + 1) >= total,
        forall|j: int|
            i < j <= median_from(bins, total, i, acc) ==> 2 * #[trigger] sum_prefix(bins, j)
                < total,
    decreases 256 - i,
{
    if 2 * (acc + bins[i]) >= total {
    } else if i < 255 {
        lemma_median_from_props(bins, total, i + 1, acc + bins[i]);
    }
}

/// The cumulative walk always lands on a bin index.
proof fn lemma_median_from_range(bins: Seq<int>, total: int, i: int, acc: int)
    ensures
        0 <= median_from(bins, total, i, acc) <= 255,
    decreases 256 - i,
{
    if 0 <= i < 256 && !(2 * (acc + bins[i]) >= total) {
        lemma_median_from_range(bins, total, i + 1, acc + bins[i]);
    }
}

/// The median is always a value in the intensity range.
pub proof fn lemma_median_range(bins: Seq<int>, total: int)
    ensures
        0 <= median_spec(bins, total) <= 255,
{
    lemma_median_from_range(bins, total, 0, 0);
}

/// The median is the smallest bin index at which twice the cumulative count
/// reaches the total.
pub proof fn lemma_median_characterization(bins: Seq<int>, total: int)
    requires
        bins.len() == 256,
        2 * sum_prefix(bins, 256) >= total,
    ensures
        0 <= median_spec(bins, total) < 256,
        2 * sum_prefix(bins, median_spec(bins, total) + 1) >= total,
        forall|j: int|
            0 < j <= median_spec(bins, total) ==> 2 * #[trigger] sum_prefix(bins, j) < total,
{
    lemma_median_from_props(bins, total, 0, 0);
}

/// The histogram median is the lower median of the represented samples: for
/// a histogram of the values `s`, sorted as `t`, the median is the value at
/// sorted rank `ceil(len / 2)` (1-indexed).
pub proof fn lemma_median_is_sorted_rank(bins: Seq<int>, total: int, s: Seq<int>)
    requires
        bins.len() == 256,
        s.len() == total,
        total >= 1,
        forall|v: int| 0 <= v < 256 ==> bins[v] == count_eq(s, v),
        forall|k: int| 0 <= k < s.len() ==> 0 <= #[trigger] s[k] && s[k] < 256,
        sorted(s),
    ensures
        median_spec(bins, total) == s[(total + 1) / 2 - 1],
{
    let n = total;
    let r = (n + 1) / 2;
    let m = s[r - 1];
    assert(2 * sum_prefix(bins, 256) >= total) by {
        lemma_prefix_counts(bins, s, 256);
        lemma_count_lt_all(s, 256);
    }
    lemma_median_characterization(bins, total);
    let med = median_spec(bins, total);
    // m itself satisfies the cumulative condition.
    assert(2 * sum_prefix(bins, m + 1) >= n) by {
        lemma_prefix_counts(bins, s, m + 1);
        lemma_count_lt_lower(s, m + 1, r - 1);
    }
    // No bin below m does.
    assert forall|j: int| 0 < j <= m implies 2 * #[trigger] sum_prefix(bins, j) < n by {
        lemma_prefix_counts(bins, s, j);
        lemma_count_lt_mono(s, j, m);
        lemma_count_lt_upper(s, m, r - 1);
    }
    if med < m {
        assert(2 * sum_prefix(bins, med + 1) < n);
    } else if med > m {
        assert(2 * sum_prefix(bins, m + 1) < n);
    }
}

} // verus!

//! The per-worker latency recorder: a bucketed frequency distribution
//! over latency values at microsecond resolution, with a bounded maximum
//! value, supporting merge and quantile queries.
//!
//! A recorder is owned exclusively by one worker while samples are
//! recorded, then handed to the coordinator, which merges all recorders
//! into a single aggregate distribution and computes summary statistics
//! (mean and percentiles) from it.  The merge is commutative:
//! `lemma_merge_commutative` shows that the merged table, and with it
//! every statistic derived from it, does not depend on the merge order.

use vstd::prelude::*;

verus! {

/// Why a sample or a merge was rejected.
#[derive(Clone, Copy, Debug, PartialEq, Eq, Structural)]
pub enum RecordError {
    /// The value lies above the recorder's configured maximum.
    ValueOutOfRange,
    /// Accepting the samples would push the total count past `u64::MAX`.
    CountOverflow,
}

/// Total number of recorded samples in a frequency table.
pub open spec fn count_total(counts: Seq<u64>) -> int
    decreases counts.len(),
{
    if counts.len() == 0 {
        0
    } else {
        count_total(counts.drop_last()) + counts.last()
    }
}

/// Sum of all recorded latency values: slot `v` contributes `v` times its count.
pub open spec fn weighted_total(counts: Seq<u64>) -> int
    decreases counts.len(),
{
    if counts.len() == 0 {
        0
    } else {
        weighted_total(counts.drop_last()) + (counts.len() - 1) * counts.last()
    }
}

/// Number of recorded samples whose value is at most `v`.
pub open spec fn cumulative(counts: Seq<u64>, v: int) -> int {
    count_total(counts.take(v + 1))
}

/// Both totals of a frequency table are non-negative.
pub proof fn lemma_totals_nonneg(s: Seq<u64>)
    ensures
        count_total(s) >= 0,
        weighted_total(s) >= 0,
    decreases s.len(),
{
    if s.len() > 0 {
        lemma_totals_nonneg(s.drop_last());
        assert((s.len() - 1) * s.last() >= 0) by (nonlinear_arith)
            requires
                s.len() >= 1,
                s.last() >= 0,
        ;
    }
}

/// No single slot exceeds the total count.
proof fn lemma_element_le_count_total(s: Seq<u64>, i: int)
    requires
        0 <= i < s.len(),
    ensures
        0 <= s[i] <= count_total(s),
    decreases s.len(),
{
    if i == s.len() - 1 {
        lemma_totals_nonneg(s.drop_last());
    } else {
        lemma_element_le_count_total(s.drop_last(), i);
        assert(s.drop_last()[i] == s[i]);
    }
}

/// Appending a slot adds its count to both totals.
proof fn lemma_push_totals(s: Seq<u64>, x: u64)
    ensures
        count_total(s.push(x)) == count_total(s) + x,
        weighted_total(s.push(x)) == weighted_total(s) + s.len() * x,
{
    assert(s.push(x).drop_last() =~= s);
    assert(s.push(x).last() == x);
}

/// Replacing one slot shifts both totals by the slot's change.
proof fn lemma_update_totals(s: Seq<u64>, i: int, x: u64)
    requires
        0 <= i < s.len(),
    ensures
        count_total(s.update(i, x)) == count_total(s) - s[i] + x,
        weighted_total(s.update(i, x)) == weighted_total(s) - i * s[i] + i * x,
    decreases s.len(),
{
    if i == s.len() - 1 {
        assert(s.update(i, x).drop_last() =~= s.drop_last());
        assert(s.update(i, x).last() == x);
    } else {
        assert(s.update(i, x).drop_last() =~= s.drop_last().update(i, x));
        assert(s.update(i, x).last() == s.last());
        lemma_update_totals(s.drop_last(), i, x);
        assert(s.drop_last()[i] == s[i]);
    }
}

/// The latency sum is at most the sample count times the largest value.
proof fn lemma_weighted_le(s: Seq<u64>)
    requires
        s.len() >= 1,
    ensures
        weighted_total(s) <= count_total(s) * (s.len() - 1),
    decreases s.len(),
{
    lemma_totals_nonneg(s.drop_last());
    if s.len() == 1 {
        assert(weighted_total(s) == weighted_total(s.drop_last()) + 0 * s.last());
        assert(weighted_total(s) <= count_total(s) * 0) by (nonlinear_arith)
            requires
                weighted_total(s) == 0,
        ;
    } else {
        lemma_weighted_le(s.drop_last());
        assert(weighted_total(s) <= count_total(s) * (s.len() - 1)) by (nonlinear_arith)
            requires
                weighted_total(s) == weighted_total(s.drop_last()) + (s.len() - 1) * s.last(),
                weighted_total(s.drop_last()) <= count_total(s.drop_last()) * (s.len() - 2),
                count_total(s) == count_total(s.drop_last()) + s.last(),
                count_total(s.drop_last()) >= 0,
                s.last() >= 0,
                s.len() >= 2,
        ;
    }
}

/// Slot-by-slot addition adds the totals.
proof fn lemma_pointwise_sum_totals(a: Seq<u64>, b: Seq<u64>, c: Seq<u64>)
    requires
        a.len() == b.len(),
        c.len() == a.len(),
        forall|j: int| 0 <= j < c.len() ==> c[j] == a[j] + b[j],
    ensures
        count_total(c) == count_total(a) + count_total(b),
        weighted_total(c) == weighted_total(a) + weighted_total(b),
    decreases c.len(),
{
    if c.len() > 0 {
        lemma_pointwise_sum_totals(a.drop_last(), b.drop_last(), c.drop_last());
        assert(c.last() == a.last() + b.last());
        assert((c.len() - 1) * (a.last() + b.last()) == (c.len() - 1) * a.last() + (c.len() - 1)
            * b.last()) by (nonlinear_arith);
    }
}

/// Cumulative counts grow slot by slot.
proof fn lemma_cumulative_step(s: Seq<u64>, v: int)
    requires
        0 <= v < s.len(),
    ensures
        cumulative(s, v) == cumulative(s, v - 1) + s[v],
{
    assert(s.take(v + 1).drop_last() =~= s.take(v));
    assert(s.take(v + 1).last() == s[v]);
}

/// The cumulative count over the whole range is the total count.
proof fn lemma_cumulative_full(s: Seq<u64>)
    requires
        s.len() >= 1,
    ensures
        cumulative(s, s.len() - 1) == count_total(s),
{
    assert(s.take(s.len() as int) =~= s);
}

/// A cumulative count never exceeds the total count.
proof fn lemma_cumulative_le_total(s: Seq<u64>, v: int)
    requires
        -1 <= v < s.len(),
    ensures
        0 <= cumulative(s, v) <= count_total(s),
    decreases s.len() - v,
{
    lemma_totals_nonneg(s.take(v + 1));
    if s.len() == 0 {
        assert(s.take(v + 1) =~= s);
    } else if v == s.len() - 1 {
        lemma_cumulative_full(s);
    } else {
        lemma_cumulative_step(s, v + 1);
        lemma_cumulative_le_total(s, v + 1);
    }
}

/// A per-worker recorder of latency samples: a frequency table over
/// values `0 ..= max_value`, with cached sample count and latency sum.
pub struct LatencyRecorder {
    counts: Vec<u64>,
    total: u64,
    sum: u128,
}

impl LatencyRecorder {
    /// The frequency table: slot `v` holds how many samples of value `v`
    /// were recorded.
    pub closed spec fn counts(&self) -> Seq<u64> {
        self.counts@
    }

    /// The largest recordable latency value.
    pub open spec fn max_value(&self) -> int {
        self.counts().len() - 1
    }

    /// Validity: the table is non-empty and the cached sample count and
    /// latency sum agree with it.
    pub closed spec fn well_formed(&self) -> bool {
        &&& self.counts@.len() >= 1
        &&& self.total == count_total(self.counts@)
        &&& self.sum == weighted_total(self.counts@)
    }

    /// A fresh, empty recorder covering values `0 ..= max_value`.
    pub fn new(max_value: u64) -> (r: LatencyRecorder)
        requires
            max_value + 1 <= usize::MAX,
        ensures
            r.well_formed(),
            r.counts().len() == max_value + 1,
            forall|j: int| 0 <= j <= max_value ==> r.counts()[j] == 0,
            count_total(r.counts()) == 0,
            weighted_total(r.counts()) == 0,
    {
        let n: usize = (max_value as usize) + 1;
        let mut counts: Vec<u64> = Vec::new();
        while counts.len() < n
            invariant
                counts@.len() <= n,
                forall|j: int| 0 <= j < counts@.len() ==> counts@[j] == 0,
                count_total(counts@) == 0,
                weighted_total(counts@) == 0,
            decreases n - counts@.len(),
        {
            proof {
                lemma_push_totals(counts@, 0);
            }
            counts.push(0);
        }
        LatencyRecorder { counts, total: 0, sum: 0 }
    }

    /// Number of recorded samples.
    pub fn total_count(&self) -> (n: u64)
        requires
            self.well_formed(),
        ensures
            n == count_total(self.counts()),
    {
        self.total
    }

    /// Sum of all recorded samples' values.
    pub fn latency_sum(&self) -> (s: u128)
        requires
            self.well_formed(),
        ensures
            s == weighted_total(self.counts()),
    {
        self.sum
    }

    /// The largest recordable latency value.
    pub fn max_recordable(&self) -> (m: u64)
        requires
            self.well_formed(),
        ensures
            m == self.max_value(),
    {
        (self.counts.len() - 1) as u64
    }

    /// Records one latency sample: adds one to the sample's slot.
    /// Rejects a value above the configured maximum, and a table whose
    /// sample count has already reached its limit; a rejected sample
    /// leaves the recorder unchanged.
    pub fn record(&mut self, v: u64) -> (r: Result<(), RecordError>)
        requires
            old(self).well_formed(),
        ensures
            final(self).well_formed(),
            final(self).counts().len() == old(self).counts().len(),
            match r {
                Ok(()) => {
                    &&& v <= old(self).max_value()
                    &&& count_total(old(self).counts()) < u64::MAX
                    &&& final(self).counts() == old(self).counts().update(
                        v as int,
                        (old(self).counts()[v as int] + 1) as u64,
                    )
                },
                Err(RecordError::ValueOutOfRange) => {
                    &&& v > old(self).max_value()
                    &&& final(self).counts() == old(self).counts()
                },
                Err(RecordError::CountOverflow) => {
                    &&& v <= old(self).max_value()
                    &&& count_total(old(self).counts()) == u64::MAX
                    &&& final(self).counts() == old(self).counts()
                },
            },
    {
        let n = self.counts.len();
        if v >= n as u64 {
            return Err(RecordError::ValueOutOfRange);
        }
        if self.total == u64::MAX {
            return Err(RecordError::CountOverflow);
        }
        let idx: usize = v as usize;
        proof {
            lemma_element_le_count_total(self.counts@, idx as int);
            lemma_update_totals(
                self.counts@,
                idx as int,
                (self.counts@[idx as int] + 1) as u64,
            );
            lemma_weighted_le(self.counts@);
            lemma_totals_nonneg(self.counts@);
            assert((idx as int) * (self.counts@[idx as int] + 1) == (idx as int)
                * self.counts@[idx as int] + idx) by (nonlinear_arith);
            assert(weighted_total(self.counts@) + v <= u128::MAX) by (nonlinear_arith)
                requires
                    weighted_total(self.counts@) <= count_total(self.counts@) * (
                    self.counts@.len() - 1),
                    0 <= count_total(self.counts@) < 0xffff_ffff_ffff_ffffu64,
                    1 <= self.counts@.len(),
                    self.counts@.len() - 1 <= 0xffff_ffff_ffff_ffffu64,
                    0 <= v < self.counts@.len(),
            ;
        }
        let c = self.counts[idx];
        self.counts[idx] = c + 1;
        self.total = self.total + 1;
        self.sum = self.sum + (v as u128);
        Ok(())
    }

    /// Merges another recorder of the same range into this one by adding
    /// its frequency table slot by slot.  Fails, leaving this recorder
    /// unchanged, when the combined sample count would not fit.
    pub fn merge(&mut self, other: &LatencyRecorder) -> (r: Result<(), RecordError>)
        requires
            old(self).well_formed(),
            other.well_formed(),
            old(self).counts().len() == other.counts().len(),
        ensures
            final(self).well_formed(),
            final(self).counts().len() == old(self).counts().len(),
            match r {
                Ok(()) => {
                    &&& count_total(old(self).counts()) + count_total(other.counts()) <= u64::MAX
                    &&& forall|j: int|
                        0 <= j < old(self).counts().len() ==> final(self).counts()[j] == old(
                            self,
                        ).counts()[j] + other.counts()[j]
                    &&& count_total(final(self).counts()) == count_total(old(self).counts())
                        + count_total(other.counts())
                    &&& weighted_total(final(self).counts()) == weighted_total(old(self).counts())
                        + weighted_total(other.counts())
                },
                Err(RecordError::CountOverflow) => {
                    &&& count_total(old(self).counts()) + count_total(other.counts()) > u64::MAX
                    &&& final(self).counts() == old(self).counts()
                },
                Err(RecordError::ValueOutOfRange) => false,
            },
    {
        let t = match self.total.checked_add(other.total) {
            Some(t) => t,
            None => {
                return Err(RecordError::CountOverflow);
            },
        };
        let ghost a = self.counts@;
        let ghost b = other.counts@;
        let n = self.counts.len();
        let mut i: usize = 0;
        while i < n
            invariant
                a.len() == n,
                b.len() == n,
                self.counts@.len() == n,
                other.counts@ == b,
                other.well_formed(),
                i <= n,
                count_total(a) + count_total(b) <= u64::MAX,
                count_total(a) >= 0,
                count_total(b) >= 0,
                forall|j: int| 0 <= j < i ==> self.counts@[j] == a[j] + b[j],
                forall|j: int| i <= j < n ==> self.counts@[j] == a[j],
                self.total == count_total(a),
                self.sum == weighted_total(a),
            decreases n - i,
        {
            proof {
                lemma_element_le_count_total(a, i as int);
                lemma_element_le_count_total(b, i as int);
            }
            let add_count = other.counts[i];
            let cur = self.counts[i];
            self.counts[i] = cur + add_count;
            i = i + 1;
        }
        proof {
            lemma_pointwise_sum_totals(a, b, self.counts@);
            lemma_weighted_le(self.counts@);
            lemma_totals_nonneg(a);
            lemma_totals_nonneg(b);
            assert(weighted_total(a) + weighted_total(b) <= u128::MAX) by (nonlinear_arith)
                requires
                    weighted_total(a) + weighted_total(b) == weighted_total(self.counts@),
                    weighted_total(self.counts@) <= count_total(self.counts@) * (
                    self.counts@.len() - 1),
                    0 <= count_total(self.counts@) <= 0xffff_ffff_ffff_ffffu64,
                    1 <= self.counts@.len(),
                    self.counts@.len() - 1 <= 0xffff_ffff_ffff_ffffu64,
                    weighted_total(a) >= 0,
                    weighted_total(b) >= 0,
            ;
        }
        self.total = t;
        self.sum = self.sum + other.sum;
        Ok(())
    }

    /// The value at the given percentile: the smallest recorded-value
    /// slot `r` such that at least `p` percent of all samples are at
    /// most `r`.  An empty recorder reports zero.
    pub fn value_at_percentile(&self, p: u64) -> (r: u64)
        requires
            self.well_formed(),
            1 <= p <= 100,
        ensures
            count_total(self.counts()) == 0 ==> r == 0,
            count_total(self.counts()) > 0 ==> {
                &&& r < self.counts().len()
                &&& 100 * cumulative(self.counts(), r as int) >= p * count_total(self.counts())
                &&& forall|v: int|
                    0 <= v < r ==> 100 * cumulative(self.counts(), v) < p * count_total(
                        self.counts(),
                    )
            },
    {
        if self.total == 0 {
            return 0;
        }
        let ghost s = self.counts@;
        let n = self.counts.len();
        let total = self.total;
        let mut cum: u64 = 0;
        let mut v: usize = 0;
        proof {
            assert(s.take(0) =~= Seq::<u64>::empty());
        }
        while v < n
            invariant
                s == self.counts@,
                self.well_formed(),
                n == s.len(),
                1 <= n,
                total == count_total(s),
                total > 0,
                1 <= p <= 100,
                0 <= v <= n,
                cum == cumulative(s, v - 1),
                forall|j: int| 0 <= j < v ==> 100 * cumulative(s, j) < p * count_total(s),
            decreases n - v,
        {
            proof {
                lemma_cumulative_step(s, v as int);
                lemma_cumulative_le_total(s, v as int);
                assert((p as u128) * (total as u128) <= u128::MAX) by (nonlinear_arith)
                    requires
                        p <= 100,
                        total <= 0xffff_ffff_ffff_ffffu64,
                ;
            }
            cum = cum + self.counts[v];
            if (cum as u128) * 100 >= (p as u128) * (total as u128) {
                return v as u64;
            }
            v = v + 1;
        }
        proof {
            lemma_cumulative_full(s);
            assert(false) by (nonlinear_arith)
                requires
                    100 * count_total(s) < p * count_total(s),
                    p <= 100,
                    count_total(s) > 0,
            ;
        }
        0
    }
}

/// What validity guarantees about a recorder's totals: the sample count
/// fits the cached 64-bit counter and the latency sum its 128-bit one.
pub proof fn lemma_well_formed_bounds(r: &LatencyRecorder)
    requires
        r.well_formed(),
    ensures
        r.counts().len() >= 1,
        0 <= count_total(r.counts()) <= u64::MAX,
        0 <= weighted_total(r.counts()) <= u128::MAX,
{
    lemma_totals_nonneg(r.counts());
}

/// Merging is commutative: two frequency tables merged in either order
/// yield the same merged table, so every summary statistic derived from
/// the merge (sample count, latency sum, mean, any percentile) is the
/// same; and the merged table's count and sum are the sums of the parts,
/// so its mean is the mean of the combined samples.
pub proof fn lemma_merge_commutative(a: Seq<u64>, b: Seq<u64>, ab: Seq<u64>, ba: Seq<u64>)
    requires
        a.len() == b.len(),
        ab.len() == a.len(),
        ba.len() == a.len(),
        forall|j: int| 0 <= j < ab.len() ==> ab[j] == a[j] + b[j],
        forall|j: int| 0 <= j < ba.len() ==> ba[j] == b[j] + a[j],
    ensures
        ab == ba,
        count_total(ab) == count_total(a) + count_total(b),
        weighted_total(ab) == weighted_total(a) + weighted_total(b),
{
    assert(ab =~= ba);
    lemma_pointwise_sum_totals(a, b, ab);
}

} // verus!

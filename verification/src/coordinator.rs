//! The run coordinator's verified work: folding the per-worker latency
//! recorders into one aggregate distribution and computing the summary
//! statistics printed at the end of a bounded run.  Spawning workers,
//! joining their tasks and printing happen outside the library.

use vstd::prelude::*;

use crate::recorder::{
    count_total, lemma_totals_nonneg, weighted_total, LatencyRecorder, RecordError,
};
use crate::reporter::reporter_continues;
use crate::worker::{worker_continues, RunMode};

verus! {

/// The frequency tables of a list of recorders.
pub open spec fn recorder_views(recorders: Seq<LatencyRecorder>) -> Seq<Seq<u64>> {
    recorders.map_values(|r: LatencyRecorder| r.counts())
}

/// Total sample count over a list of frequency tables.
pub open spec fn combined_count(views: Seq<Seq<u64>>) -> int
    decreases views.len(),
{
    if views.len() == 0 {
        0
    } else {
        combined_count(views.drop_last()) + count_total(views.last())
    }
}

/// Total latency sum over a list of frequency tables.
pub open spec fn combined_weighted(views: Seq<Seq<u64>>) -> int
    decreases views.len(),
{
    if views.len() == 0 {
        0
    } else {
        combined_weighted(views.drop_last()) + weighted_total(views.last())
    }
}

/// Combined count of slot `j` over a list of frequency tables.
pub open spec fn slot_sum(views: Seq<Seq<u64>>, j: int) -> int
    decreases views.len(),
{
    if views.len() == 0 {
        0
    } else {
        slot_sum(views.drop_last(), j) + views.last()[j]
    }
}

proof fn lemma_combined_step(views: Seq<Seq<u64>>, k: int)
    requires
        0 <= k < views.len(),
    ensures
        combined_count(views.take(k + 1)) == combined_count(views.take(k)) + count_total(views[k]),
        combined_weighted(views.take(k + 1)) == combined_weighted(views.take(k)) + weighted_total(
            views[k],
        ),
        forall|j: int| slot_sum(views.take(k + 1), j) == slot_sum(views.take(k), j) + views[k][j],
{
    assert(views.take(k + 1).drop_last() =~= views.take(k));
    assert(views.take(k + 1).last() == views[k]);
}

proof fn lemma_combined_count_mono(views: Seq<Seq<u64>>, k: int)
    requires
        0 <= k <= views.len(),
    ensures
        combined_count(views.take(k)) <= combined_count(views),
    decreases views.len() - k,
{
    if k == views.len() {
        assert(views.take(k) =~= views);
    } else {
        lemma_combined_step(views, k);
        lemma_totals_nonneg(views[k]);
        lemma_combined_count_mono(views, k + 1);
    }
}

/// Folds the per-worker recorders into the coordinator's base recorder.
/// All recorders cover the same value range; the fold succeeds exactly
/// when the combined sample count fits in 64 bits, and then the
/// aggregate's table is the slot-by-slot sum of all the parts, so its
/// sample count and latency sum are the sums over all workers.
pub fn merge_all(agg: &mut LatencyRecorder, others: &Vec<LatencyRecorder>) -> (r: Result<
    (),
    RecordError,
>)
    requires
        old(agg).well_formed(),
        forall|i: int|
            0 <= i < others@.len() ==> (#[trigger] others@[i]).well_formed() && others@[i].counts().len()
                == old(agg).counts().len(),
    ensures
        final(agg).well_formed(),
        final(agg).counts().len() == old(agg).counts().len(),
        match r {
            Ok(()) => {
                &&& count_total(old(agg).counts()) + combined_count(recorder_views(others@))
                    <= u64::MAX
                &&& forall|j: int|
                    0 <= j < old(agg).counts().len() ==> final(agg).counts()[j] == old(
                        agg,
                    ).counts()[j] + slot_sum(recorder_views(others@), j)
                &&& count_total(final(agg).counts()) == count_total(old(agg).counts())
                    + combined_count(recorder_views(others@))
                &&& weighted_total(final(agg).counts()) == weighted_total(old(agg).counts())
                    + combined_weighted(recorder_views(others@))
            },
            Err(RecordError::CountOverflow) => count_total(old(agg).counts()) + combined_count(
                recorder_views(others@),
            ) > u64::MAX,
            Err(RecordError::ValueOutOfRange) => false,
        },
{
    let ghost views = recorder_views(others@);
    let ghost base_counts = old(agg).counts();
    let mut k: usize = 0;
    proof {
        assert(views.take(0) =~= Seq::<Seq<u64>>::empty());
        crate::recorder::lemma_well_formed_bounds(agg);
    }
    while k < others.len()
        invariant
            base_counts == old(agg).counts(),
            views == recorder_views(others@),
            views.len() == others@.len(),
            forall|i: int|
                0 <= i < others@.len() ==> (#[trigger] others@[i]).well_formed()
                    && others@[i].counts().len() == base_counts.len(),
            forall|i: int| 0 <= i < views.len() ==> views[i] == others@[i].counts(),
            k <= others@.len(),
            agg.well_formed(),
            agg.counts().len() == base_counts.len(),
            count_total(agg.counts()) <= u64::MAX,
            forall|j: int|
                0 <= j < base_counts.len() ==> agg.counts()[j] == base_counts[j] + slot_sum(
                    views.take(k as int),
                    j,
                ),
            count_total(agg.counts()) == count_total(base_counts) + combined_count(
                views.take(k as int),
            ),
            weighted_total(agg.counts()) == weighted_total(base_counts) + combined_weighted(
                views.take(k as int),
            ),
        decreases others@.len() - k,
    {
        proof {
            lemma_combined_step(views, k as int);
        }
        let merged = agg.merge(&others[k]);
        match merged {
            Ok(()) => {},
            Err(_) => {
                proof {
                    lemma_combined_count_mono(views, k as int + 1);
                    lemma_totals_nonneg(base_counts);
                }
                return Err(RecordError::CountOverflow);
            },
        }
        k = k + 1;
    }
    proof {
        assert(views.take(others@.len() as int) =~= views);
    }
    Ok(())
}

/// The summary statistics printed at the end of a bounded run: the
/// sample count and latency sum (whose quotient is the mean latency),
/// and the 99th-percentile latency.
pub struct RunSummary {
    pub sample_count: u64,
    pub latency_sum: u128,
    pub p99: u64,
}

/// Computes the final summary from the aggregate distribution.
pub fn summarize(h: &LatencyRecorder) -> (s: RunSummary)
    requires
        h.well_formed(),
    ensures
        s.sample_count == count_total(h.counts()),
        s.latency_sum == weighted_total(h.counts()),
        count_total(h.counts()) == 0 ==> s.p99 == 0,
        count_total(h.counts()) > 0 ==> {
            &&& s.p99 < h.counts().len()
            &&& 100 * crate::recorder::cumulative(h.counts(), s.p99 as int) >= 99 * count_total(
                h.counts(),
            )
            &&& forall|v: int|
                0 <= v < s.p99 ==> 100 * crate::recorder::cumulative(h.counts(), v) < 99
                    * count_total(h.counts())
        },
{
    RunSummary {
        sample_count: h.total_count(),
        latency_sum: h.latency_sum(),
        p99: h.value_at_percentile(99),
    }
}

/// In a bounded run termination is cooperative and certain: once any
/// task observes a counter value above the threshold, a worker that saw
/// it decides to stop, and the reporter stops at its next check, so the
/// whole run ends within one reporting interval of the counter first
/// exceeding the threshold.
pub proof fn lemma_bounded_run_stops(threshold: u64, observed: u64)
    requires
        observed > threshold,
    ensures
        !worker_continues(RunMode::Bounded(threshold), observed),
        !reporter_continues(RunMode::Bounded(threshold), observed),
{
}

} // verus!

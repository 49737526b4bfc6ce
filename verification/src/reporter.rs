//! The throughput reporter: once per fixed interval it samples the
//! shared counter, prints the delta since the previous sample, and in a
//! bounded run stops once the previously sampled value has exceeded the
//! run's threshold.  Waiting out the interval and printing happen
//! outside the library; the delta arithmetic and the termination
//! decision are verified here, and `lemma_deltas_sum_to_counter_range`
//! shows that the printed deltas over a whole run sum to the final
//! counter value minus the value at the first sample.

use vstd::prelude::*;

use crate::worker::RunMode;

verus! {

/// The throughput printed for one tick: completed requests between two
/// consecutive counter samples.  The counter never decreases between
/// samples, so the difference is exact.
pub fn throughput_delta(last: u64, curr: u64) -> (d: u64)
    requires
        last <= curr,
    ensures
        d == curr - last,
{
    curr - last
}

/// Whether the reporter keeps ticking after having sampled `last`.
pub open spec fn reporter_continues(mode: RunMode, last: u64) -> bool {
    match mode {
        RunMode::Unbounded => true,
        RunMode::Bounded(threshold) => last <= threshold,
    }
}

/// The reporter's termination decision: tick forever in an unbounded
/// run, stop once the previous sample exceeds the threshold.
pub fn reporter_should_continue(mode: RunMode, last: u64) -> (c: bool)
    ensures
        c == reporter_continues(mode, last),
{
    match mode {
        RunMode::Unbounded => true,
        RunMode::Bounded(threshold) => last <= threshold,
    }
}

/// The sum of the per-tick deltas over a run of counter samples.
pub open spec fn delta_sum(samples: Seq<u64>) -> int
    decreases samples.len(),
{
    if samples.len() < 2 {
        0
    } else {
        delta_sum(samples.drop_last()) + (samples.last() - samples[samples.len() - 2])
    }
}

/// The reporter's printed deltas telescope: over any run of counter
/// samples they sum to the final sampled value minus the value at the
/// first sample.
pub proof fn lemma_deltas_sum_to_counter_range(samples: Seq<u64>)
    requires
        samples.len() >= 1,
    ensures
        delta_sum(samples) == samples.last() - samples[0],
    decreases samples.len(),
{
    if samples.len() > 1 {
        lemma_deltas_sum_to_counter_range(samples.drop_last());
        assert(samples.drop_last()[0] == samples[0]);
        assert(samples.drop_last().last() == samples[samples.len() - 2]);
    }
}

} // verus!

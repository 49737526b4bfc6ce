use rpc_bench::recorder::{LatencyRecorder, RecordError};

#[test]
fn fresh_recorder_is_empty() {
    let r = LatencyRecorder::new(1000);
    assert_eq!(r.total_count(), 0);
    assert_eq!(r.latency_sum(), 0);
    assert_eq!(r.max_recordable(), 1000);
    assert_eq!(r.value_at_percentile(99), 0);
}

#[test]
fn record_accumulates_count_and_sum() {
    let mut r = LatencyRecorder::new(1000);
    assert_eq!(r.record(1), Ok(()));
    assert_eq!(r.record(2), Ok(()));
    assert_eq!(r.record(3), Ok(()));
    assert_eq!(r.total_count(), 3);
    assert_eq!(r.latency_sum(), 6);
}

#[test]
fn record_rejects_value_above_maximum() {
    let mut r = LatencyRecorder::new(1000);
    assert_eq!(r.record(1001), Err(RecordError::ValueOutOfRange));
    assert_eq!(r.record(u64::MAX), Err(RecordError::ValueOutOfRange));
    assert_eq!(r.total_count(), 0);
    assert_eq!(r.record(1000), Ok(()));
    assert_eq!(r.total_count(), 1);
}

#[test]
fn merged_mean_is_mean_of_combined_samples() {
    // Recorder A holds {1, 2, 3} and recorder B holds {4, 5}: the merge
    // holds all five samples, so its mean is 15 / 5 = 3.
    let mut a = LatencyRecorder::new(1000);
    for v in [1u64, 2, 3] {
        assert_eq!(a.record(v), Ok(()));
    }
    let mut b = LatencyRecorder::new(1000);
    for v in [4u64, 5] {
        assert_eq!(b.record(v), Ok(()));
    }
    assert_eq!(a.merge(&b), Ok(()));
    assert_eq!(a.total_count(), 5);
    assert_eq!(a.latency_sum(), 15);
    assert_eq!(a.latency_sum() / a.total_count() as u128, 3);
}

#[test]
fn merge_is_commutative_for_all_summary_statistics() {
    let mut a1 = LatencyRecorder::new(1000);
    for v in [1u64, 2, 3] {
        assert_eq!(a1.record(v), Ok(()));
    }
    let mut b1 = LatencyRecorder::new(1000);
    for v in [4u64, 5] {
        assert_eq!(b1.record(v), Ok(()));
    }
    let mut a2 = LatencyRecorder::new(1000);
    for v in [1u64, 2, 3] {
        assert_eq!(a2.record(v), Ok(()));
    }
    let mut b2 = LatencyRecorder::new(1000);
    for v in [4u64, 5] {
        assert_eq!(b2.record(v), Ok(()));
    }
    // merge(A, B) against merge(B, A)
    assert_eq!(a1.merge(&b1), Ok(()));
    assert_eq!(b2.merge(&a2), Ok(()));
    assert_eq!(a1.total_count(), b2.total_count());
    assert_eq!(a1.latency_sum(), b2.latency_sum());
    for p in 1..=100 {
        assert_eq!(a1.value_at_percentile(p), b2.value_at_percentile(p));
    }
}

#[test]
fn p99_of_uniform_hundred_samples_is_99() {
    // 100 uniformly distributed samples, one each of 1..=100 microseconds.
    let mut r = LatencyRecorder::new(1000);
    for v in 1..=100u64 {
        assert_eq!(r.record(v), Ok(()));
    }
    assert_eq!(r.value_at_percentile(99), 99);
    assert_eq!(r.value_at_percentile(100), 100);
    assert_eq!(r.value_at_percentile(1), 1);
    assert_eq!(r.value_at_percentile(50), 50);
}

#[test]
fn percentile_of_single_sample_is_that_sample() {
    let mut r = LatencyRecorder::new(1000);
    assert_eq!(r.record(42), Ok(()));
    assert_eq!(r.value_at_percentile(1), 42);
    assert_eq!(r.value_at_percentile(99), 42);
    assert_eq!(r.value_at_percentile(100), 42);
}

#[test]
fn percentile_with_repeated_samples() {
    let mut r = LatencyRecorder::new(1000);
    for _ in 0..99 {
        assert_eq!(r.record(10), Ok(()));
    }
    assert_eq!(r.record(500), Ok(()));
    // 99 of 100 samples are at most 10.
    assert_eq!(r.value_at_percentile(99), 10);
    assert_eq!(r.value_at_percentile(100), 500);
}

use rpc_bench::coordinator::{merge_all, summarize};
use rpc_bench::counter::RequestCounter;
use rpc_bench::recorder::LatencyRecorder;
use rpc_bench::reporter::{reporter_should_continue, throughput_delta};
use rpc_bench::service::echo_response;
use rpc_bench::worker::{
    make_request, process_response, validate_response, worker_should_continue, BenchError,
    Request, Response, RunMode,
};

#[test]
fn counter_counts_every_request() {
    // 4 workers each completing 3 requests: 12 increments, no lost updates.
    let mut c = RequestCounter::new();
    for _worker in 0..4 {
        for _request in 0..3 {
            c.increment();
        }
    }
    assert_eq!(c.load(), 4 * 3);
}

#[test]
fn echo_service_returns_the_request_key() {
    let req = make_request();
    assert_eq!(req.key, b"key".to_vec());
    let resp = echo_response(&req);
    assert_eq!(resp.value, b"key".to_vec());
    assert_eq!(validate_response(&req, &resp), Ok(()));
}

#[test]
fn any_other_response_value_is_a_validation_failure() {
    let req = make_request();
    let resp = Response { value: b"other".to_vec() };
    assert_eq!(validate_response(&req, &resp), Err(BenchError::Validation));
    let empty = Response { value: Vec::new() };
    assert_eq!(validate_response(&req, &empty), Err(BenchError::Validation));
    let close = Response { value: b"kez".to_vec() };
    assert_eq!(validate_response(&req, &close), Err(BenchError::Validation));
}

#[test]
fn echo_works_for_any_key() {
    let req = Request { key: vec![0, 255, 7, 7] };
    let resp = echo_response(&req);
    assert_eq!(resp.value, vec![0, 255, 7, 7]);
    assert_eq!(validate_response(&req, &resp), Ok(()));
}

#[test]
fn worker_step_records_latency_and_continues() {
    let mut rec = LatencyRecorder::new(1000);
    let req = make_request();
    let resp = echo_response(&req);
    let r = process_response(&mut rec, &req, &resp, 250, 10, RunMode::Bounded(1000));
    assert_eq!(r, Ok(true));
    assert_eq!(rec.total_count(), 1);
    assert_eq!(rec.latency_sum(), 250);
}

#[test]
fn worker_step_rejects_a_bad_echo_and_records_nothing() {
    let mut rec = LatencyRecorder::new(1000);
    let req = make_request();
    let resp = Response { value: b"wrong".to_vec() };
    let r = process_response(&mut rec, &req, &resp, 250, 10, RunMode::Bounded(1000));
    assert_eq!(r, Err(BenchError::Validation));
    assert_eq!(rec.total_count(), 0);
}

#[test]
fn worker_step_stops_past_the_threshold() {
    let mut rec = LatencyRecorder::new(1000);
    let req = make_request();
    let resp = echo_response(&req);
    let r = process_response(&mut rec, &req, &resp, 3, 1001, RunMode::Bounded(1000));
    assert_eq!(r, Ok(false));
    // The stopping sample is still recorded, as the last of the run.
    assert_eq!(rec.total_count(), 1);
}

#[test]
fn bounded_run_stops_within_one_check_after_the_threshold() {
    let threshold: u64 = 1_000_000;
    let mode = RunMode::Bounded(threshold);
    // At the threshold both keep going; one past it both stop.
    assert!(worker_should_continue(mode, threshold));
    assert!(reporter_should_continue(mode, threshold));
    assert!(!worker_should_continue(mode, threshold + 1));
    assert!(!reporter_should_continue(mode, threshold + 1));
}

#[test]
fn unbounded_run_never_stops_on_its_own() {
    assert!(worker_should_continue(RunMode::Unbounded, u64::MAX));
    assert!(reporter_should_continue(RunMode::Unbounded, u64::MAX));
}

#[test]
fn reporter_deltas_sum_to_the_counter_range() {
    // Counter samples taken once per interval over a short bounded run.
    let samples: [u64; 6] = [0, 17, 40, 41, 90, 123];
    let mut printed: Vec<u64> = Vec::new();
    for w in samples.windows(2) {
        printed.push(throughput_delta(w[0], w[1]));
    }
    assert_eq!(printed, vec![17, 23, 1, 49, 33]);
    let total: u64 = printed.iter().sum();
    assert_eq!(total, samples[samples.len() - 1] - samples[0]);
}

#[test]
fn coordinator_merges_all_worker_recorders() {
    let mut agg = LatencyRecorder::new(1000);
    let mut workers: Vec<LatencyRecorder> = Vec::new();
    for w in 0..4u64 {
        let mut rec = LatencyRecorder::new(1000);
        for v in 1..=3u64 {
            assert_eq!(rec.record(10 * w + v), Ok(()));
        }
        workers.push(rec);
    }
    assert_eq!(merge_all(&mut agg, &workers), Ok(()));
    assert_eq!(agg.total_count(), 12);
    // Sum over all workers of (10w + 1) + (10w + 2) + (10w + 3).
    let expected: u128 = (0..4u128).map(|w| 30 * w + 6).sum();
    assert_eq!(agg.latency_sum(), expected);
}

#[test]
fn summary_reports_count_sum_and_p99() {
    let mut rec = LatencyRecorder::new(1000);
    for v in 1..=100u64 {
        assert_eq!(rec.record(v), Ok(()));
    }
    let s = summarize(&rec);
    assert_eq!(s.sample_count, 100);
    assert_eq!(s.latency_sum, 5050);
    assert_eq!(s.p99, 99);
}

#[test]
fn summary_of_an_empty_run_is_all_zero() {
    let rec = LatencyRecorder::new(1000);
    let s = summarize(&rec);
    assert_eq!(s.sample_count, 0);
    assert_eq!(s.latency_sum, 0);
    assert_eq!(s.p99, 0);
}

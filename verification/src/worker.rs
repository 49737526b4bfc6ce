//! The worker: the per-request step of a load-generating task.
//!
//! A worker repeatedly issues one fixed echo request, awaits the
//! response, validates that the service echoed the request key, records
//! the measured latency into its own recorder, increments the shared
//! counter, and decides from the counter value it observed whether to
//! continue.  Issuing the request and measuring time happen outside the
//! library; `process_response` is the verified remainder of one loop
//! iteration.  A transport failure or a response that fails validation
//! is fatal to the worker: it aborts rather than retrying.

use vstd::prelude::*;

use crate::recorder::{count_total, LatencyRecorder};

verus! {

/// The request shape: a single key, the same fixed bytes every iteration.
pub struct Request {
    pub key: Vec<u8>,
}

/// The response shape: the value the service returned for the key.
pub struct Response {
    pub value: Vec<u8>,
}

/// How a run ends: never (a soak run), or once the shared counter has
/// exceeded a fixed total-request threshold.
#[derive(Clone, Copy, Debug, PartialEq, Eq, Structural)]
pub enum RunMode {
    Unbounded,
    Bounded(u64),
}

/// A fatal condition for a worker, and with it for the whole run.
#[derive(Clone, Copy, Debug, PartialEq, Eq, Structural)]
pub enum BenchError {
    /// The request could not be sent or the response not received.
    Transport,
    /// The response value did not equal the echoed request key.
    Validation,
}

/// The fixed key bytes every worker submits: `"key"`.
pub open spec fn fixed_key_bytes() -> Seq<u8> {
    seq![107u8, 101u8, 121u8]
}

/// A fresh request carrying the fixed key.
pub fn make_request() -> (r: Request)
    ensures
        r.key@ == fixed_key_bytes(),
{
    let mut key: Vec<u8> = Vec::new();
    key.push(107);
    key.push(101);
    key.push(121);
    proof {
        assert(key@ =~= fixed_key_bytes());
    }
    Request { key }
}

/// Byte-for-byte comparison of two byte vectors.
pub fn bytes_equal(a: &Vec<u8>, b: &Vec<u8>) -> (r: bool)
    ensures
        r == (a@ == b@),
{
    if a.len() != b.len() {
        proof {
            assert(a@ != b@);
        }
        return false;
    }
    let mut i: usize = 0;
    while i < a.len()
        invariant
            a@.len() == b@.len(),
            i <= a@.len(),
            forall|j: int| 0 <= j < i ==> a@[j] == b@[j],
        decreases a@.len() - i,
    {
        if a[i] != b[i] {
            proof {
                assert(a@ != b@) by {
                    if a@ == b@ {
                        assert(a@[i as int] == b@[i as int]);
                    }
                }
            }
            return false;
        }
        i = i + 1;
    }
    proof {
        assert(a@ =~= b@);
    }
    true
}

/// Accepts a response exactly when the service echoed the request key;
/// anything else is a fatal validation failure.
pub fn validate_response(req: &Request, resp: &Response) -> (r: Result<(), BenchError>)
    ensures
        resp.value@ == req.key@ ==> r == Ok::<(), BenchError>(()),
        resp.value@ != req.key@ ==> r == Err::<(), BenchError>(BenchError::Validation),
{
    if bytes_equal(&resp.value, &req.key) {
        Ok(())
    } else {
        Err(BenchError::Validation)
    }
}

/// Whether a worker that just observed `prev_count` as the counter value
/// before its own increment keeps looping.
pub open spec fn worker_continues(mode: RunMode, prev_count: u64) -> bool {
    match mode {
        RunMode::Unbounded => true,
        RunMode::Bounded(threshold) => prev_count <= threshold,
    }
}

/// The worker's termination decision: loop forever in an unbounded run,
/// stop once the observed counter value exceeds the threshold.
pub fn worker_should_continue(mode: RunMode, prev_count: u64) -> (c: bool)
    ensures
        c == worker_continues(mode, prev_count),
{
    match mode {
        RunMode::Unbounded => true,
        RunMode::Bounded(threshold) => prev_count <= threshold,
    }
}

/// One worker step after a response arrives: validate the echo, record
/// the measured latency, and decide from the counter value observed at
/// the increment whether to keep looping.  A response that fails
/// validation is fatal and leaves the recorder unchanged.
pub fn process_response(
    recorder: &mut LatencyRecorder,
    req: &Request,
    resp: &Response,
    latency_micros: u64,
    prev_count: u64,
    mode: RunMode,
) -> (r: Result<bool, BenchError>)
    requires
        old(recorder).well_formed(),
        latency_micros <= old(recorder).max_value(),
        count_total(old(recorder).counts()) < u64::MAX,
    ensures
        final(recorder).well_formed(),
        final(recorder).counts().len() == old(recorder).counts().len(),
        resp.value@ == req.key@ ==> {
            &&& r == Ok::<bool, BenchError>(worker_continues(mode, prev_count))
            &&& final(recorder).counts() == old(recorder).counts().update(
                latency_micros as int,
                (old(recorder).counts()[latency_micros as int] + 1) as u64,
            )
        },
        resp.value@ != req.key@ ==> {
            &&& r == Err::<bool, BenchError>(BenchError::Validation)
            &&& final(recorder).counts() == old(recorder).counts()
        },
{
    match validate_response(req, resp) {
        Ok(()) => {},
        Err(e) => {
            return Err(e);
        },
    }
    match recorder.record(latency_micros) {
        Ok(()) => Ok(worker_should_continue(mode, prev_count)),
        Err(_) => {
            proof {
                assert(false);
            }
            Err(BenchError::Validation)
        },
    }
}

} // verus!

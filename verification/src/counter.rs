//! The shared request counter, modelled as a 64-bit value that advances
//! by exactly one per completed request and wraps on overflow.
//!
//! In a running harness the counter is a single process-wide atomic
//! integer: every worker increments it once per completed request, and
//! the reporter and coordinator only read it.  Atomicity means that no
//! increment is lost, so the value after a run is exactly the number of
//! increments performed, reduced modulo 2^64.  This module captures that
//! arithmetic: `increment` adds one (wrapping), and
//! `lemma_counter_counts_all_requests` shows that a run of `n` workers,
//! each completing `m` requests, drives the counter from zero to exactly
//! `n * m` whenever that product fits in 64 bits.

use vstd::prelude::*;

verus! {

/// Number of distinct values a 64-bit counter can take.
pub open spec fn u64_modulus() -> int {
    0x1_0000_0000_0000_0000
}

/// The counter's value after `k` increments starting from zero.
pub open spec fn counter_after(k: nat) -> nat {
    k % (u64_modulus() as nat)
}

/// Total requests completed over all workers, given each worker's count.
pub open spec fn total_completed(per_worker: Seq<nat>) -> nat
    decreases per_worker.len(),
{
    if per_worker.len() == 0 {
        0
    } else {
        total_completed(per_worker.drop_last()) + per_worker.last()
    }
}

/// The process-wide request counter: monotonically advanced by one per
/// completed request, wrapping per unsigned arithmetic on overflow.
pub struct RequestCounter {
    value: u64,
}

impl RequestCounter {
    /// The current count.
    pub closed spec fn spec_value(&self) -> u64 {
        self.value
    }

    /// A fresh counter starts at zero.
    pub fn new() -> (c: RequestCounter)
        ensures
            c.spec_value() == 0,
    {
        RequestCounter { value: 0 }
    }

    /// Adds one, wrapping on overflow: exactly one step of `counter_after`.
    pub fn increment(&mut self)
        ensures
            final(self).spec_value() == (old(self).spec_value() + 1) % u64_modulus(),
    {
        self.value = self.value.wrapping_add(1);
    }

    /// Reads the current value.
    pub fn load(&self) -> (v: u64)
        ensures
            v == self.spec_value(),
    {
        self.value
    }
}

proof fn lemma_total_completed_uniform(per_worker: Seq<nat>, m: nat)
    requires
        forall|i: int| 0 <= i < per_worker.len() ==> per_worker[i] == m,
    ensures
        total_completed(per_worker) == per_worker.len() * m,
    decreases per_worker.len(),
{
    if per_worker.len() == 0 {
    } else {
        lemma_total_completed_uniform(per_worker.drop_last(), m);
        assert(per_worker.len() * m == (per_worker.len() - 1) * m + m) by (nonlinear_arith);
    }
}

/// No increments are lost: when `n` workers each complete `m` requests
/// with no failures, the total number of increments is `n * m`, and a
/// counter that starts at zero and receives one increment per completed
/// request ends at exactly `n * m` whenever that product fits in 64 bits.
pub proof fn lemma_counter_counts_all_requests(per_worker: Seq<nat>, m: nat)
    requires
        per_worker.len() >= 1,
        forall|i: int| 0 <= i < per_worker.len() ==> per_worker[i] == m,
        per_worker.len() * m <= u64::MAX,
    ensures
        total_completed(per_worker) == per_worker.len() * m,
        counter_after(total_completed(per_worker)) == per_worker.len() * m,
{
    lemma_total_completed_uniform(per_worker, m);
    vstd::arithmetic::div_mod::lemma_small_mod(total_completed(per_worker), u64_modulus() as nat);
}

} // verus!

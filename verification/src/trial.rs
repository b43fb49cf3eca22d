//! Timed-trial runner: measures a caller-supplied operation and turns
//! the elapsed wall-clock time into a throughput/latency sample.
//!
//! The clock readings themselves come from the platform and carry no
//! promises; everything derived from a reading is computed by verified
//! code that holds for every value the clock could return.

use vstd::prelude::*;

verus! {

use crate::Error;
use crate::Ratio;

#[verifier::external_type_specification]
#[verifier::external_body]
pub struct ExInstant(std::time::Instant);

/// Relies on std::time::Instant::now: a reading of the monotonic clock.
/// Nothing can be promised of it.
pub assume_specification[ std::time::Instant::now ]() -> std::time::Instant;

/// Relies on std::time::Instant::elapsed: the time between this instant
/// and now.  Nothing can be promised of it.
pub assume_specification[ std::time::Instant::elapsed ](
    start: &std::time::Instant,
) -> std::time::Duration;

/// Relies on std::time::Duration::as_nanos: the duration in whole
/// nanoseconds.  The result depends on the clock reading, so nothing is
/// promised; the cast keeps the low 64 bits.
#[verifier::external_body]
fn duration_to_ns(d: &std::time::Duration) -> u64 {
    d.as_nanos() as u64
}

/// Number of bytes in a mebibyte, the unit of the throughput numerator.
pub open spec fn bytes_per_mb() -> int {
    0x10_0000
}

/// Number of nanoseconds in a second.
pub open spec fn ns_per_s() -> int {
    1_000_000_000
}

/// One completed timed run of `measured_count` operations, reduced to a
/// throughput/latency pair.  Both fields are exact rationals.
#[derive(Clone, Copy, Debug, PartialEq, Eq, Structural)]
pub struct Sample {
    /// Megabytes processed per second of wall-clock time.
    pub throughput_mb_per_s: Ratio,
    /// Wall-clock nanoseconds per single operation.
    pub latency_ns: Ratio,
}

/// The sample that a run of `measured_count` operations over
/// `payload_size_bytes`-byte payloads yields when it takes
/// `elapsed_ns` nanoseconds:
/// `throughput = (payload * measured / 2^20 bytes) / (elapsed / 10^9 s)`
/// and `latency = elapsed / measured`, both as exact rationals.
pub open spec fn is_sample_of(
    s: Sample,
    payload_size_bytes: u64,
    measured_count: u64,
    elapsed_ns: u64,
) -> bool {
    &&& elapsed_ns >= 1
    &&& s.throughput_mb_per_s.num == payload_size_bytes * measured_count * ns_per_s()
    &&& s.throughput_mb_per_s.den == elapsed_ns * bytes_per_mb()
    &&& s.latency_ns.num == elapsed_ns
    &&& s.latency_ns.den == measured_count
    &&& s.throughput_mb_per_s.wf()
    &&& s.latency_ns.wf()
}

/// Converts an elapsed measurement into a sample:
/// `throughput = (payload * measured / 2^20 bytes) / (elapsed / 10^9 s)`
/// and `latency = elapsed / measured`, both as exact rationals.
///
/// Fails with `ClockDegenerate` exactly when the elapsed time is zero,
/// so a clock too coarse for the workload is reported rather than
/// silently producing a meaningless sample.
pub fn sample_from_elapsed(
    payload_size_bytes: u64,
    measured_count: u64,
    elapsed_ns: u64,
) -> (r: Result<Sample, Error>)
    requires
        measured_count >= 1,
        payload_size_bytes * measured_count * ns_per_s() <= u128::MAX,
    ensures
        r is Ok <==> elapsed_ns >= 1,
        r is Err ==> r == Err::<Sample, Error>(Error::ClockDegenerate),
        r matches Ok(s) ==> is_sample_of(s, payload_size_bytes, measured_count, elapsed_ns),
{
    if elapsed_ns == 0 {
        return Err(Error::ClockDegenerate);
    }
    proof {
        assert(payload_size_bytes * measured_count <= 0xFFFF_FFFF_FFFF_FFFFu64
            * 0xFFFF_FFFF_FFFF_FFFFu64) by (nonlinear_arith)
            requires payload_size_bytes <= 0xFFFF_FFFF_FFFF_FFFFu64 && measured_count
                <= 0xFFFF_FFFF_FFFF_FFFFu64;
        assert(payload_size_bytes * measured_count * 1_000_000_000
            == payload_size_bytes * measured_count * ns_per_s());
        assert(elapsed_ns * 0x10_0000u128 <= 0xFFFF_FFFF_FFFF_FFFFu64 * 0x10_0000u128)
            by (nonlinear_arith)
            requires elapsed_ns <= 0xFFFF_FFFF_FFFF_FFFFu64;
        assert(elapsed_ns * 0x10_0000u128 >= 1) by (nonlinear_arith)
            requires elapsed_ns >= 1;
    }
    let total: u128 = (payload_size_bytes as u128) * (measured_count as u128);
    let throughput = Ratio { num: total * 1_000_000_000u128, den: (elapsed_ns as u128) * 0x10_0000u128 };
    let latency = Ratio { num: elapsed_ns as u128, den: measured_count as u128 };
    Ok(Sample { throughput_mb_per_s: throughput, latency_ns: latency })
}

/// Throughput and latency of one sample are two views of the same
/// elapsed measurement: their product is the payload size per
/// operation, unit-adjusted.  Written over cross-multiplied integers,
/// `(throughput * latency) * 2^20 == payload_size_bytes * 10^9`.
pub proof fn lemma_sample_consistent(
    s: Sample,
    payload_size_bytes: u64,
    measured_count: u64,
    elapsed_ns: u64,
)
    requires
        is_sample_of(s, payload_size_bytes, measured_count, elapsed_ns),
    ensures
        s.throughput_mb_per_s.num * s.latency_ns.num * bytes_per_mb()
            == s.throughput_mb_per_s.den * s.latency_ns.den * payload_size_bytes * ns_per_s(),
{
    assert((payload_size_bytes * measured_count * ns_per_s()) * elapsed_ns * bytes_per_mb()
        == (elapsed_ns * bytes_per_mb()) * measured_count * payload_size_bytes * ns_per_s())
        by (nonlinear_arith);
}

/// Runs one timed trial of the operation.
///
/// The operation is first invoked `warmup_count` times outside the
/// timing window; each warmup result is evaluated but a warmup failure
/// is not a measurement failure.  The operation is then invoked exactly
/// `measured_count` times inside the timing window.  A failed measured
/// invocation aborts the trial immediately with `OperationFailed`, so no
/// partial sample can escape.  Otherwise the elapsed time is reduced to
/// a sample by `sample_from_elapsed`.
///
/// The contract pins every outcome: an `Ok` sample comes from some
/// positive elapsed time through the `sample_from_elapsed` formulas; an
/// operation that cannot fail never yields `OperationFailed`; an
/// operation that cannot succeed always yields `OperationFailed`.
pub fn run_trial<F: Fn() -> bool>(
    op: F,
    payload_size_bytes: u64,
    warmup_count: u64,
    measured_count: u64,
) -> (r: Result<Sample, Error>)
    requires
        measured_count >= 1,
        call_requires(op, ()),
        payload_size_bytes * measured_count * ns_per_s() <= u128::MAX,
    ensures
        r matches Ok(s) ==> exists|elapsed_ns: u64|
            #[trigger] is_sample_of(s, payload_size_bytes, measured_count, elapsed_ns),
        r matches Err(e) ==> e == Error::OperationFailed || e == Error::ClockDegenerate,
        (forall|ok: bool| call_ensures(op, (), ok) ==> ok) ==> r != Err::<Sample, Error>(
            Error::OperationFailed,
        ),
        (forall|ok: bool| call_ensures(op, (), ok) ==> !ok) ==> r == Err::<Sample, Error>(
            Error::OperationFailed,
        ),
{
    let mut w: u64 = 0;
    while w < warmup_count
        invariant
            call_requires(op, ()),
        decreases warmup_count - w,
    {
        let _warm_ok: bool = op();
        w = w + 1;
    }
    let start = std::time::Instant::now();
    let mut i: u64 = 0;
    while i < measured_count
        invariant
            call_requires(op, ()),
            0 <= i <= measured_count,
            i > 0 ==> call_ensures(op, (), true),
        decreases measured_count - i,
    {
        let ok = op();
        if !ok {
            return Err(Error::OperationFailed);
        }
        i = i + 1;
    }
    let elapsed = start.elapsed();
    let ns = duration_to_ns(&elapsed);
    let r = sample_from_elapsed(payload_size_bytes, measured_count, ns);
    proof {
        if r is Ok {
            assert(is_sample_of(r->Ok_0, payload_size_bytes, measured_count, ns));
        }
    }
    r
}

} // verus!

use bench_stats::trial::{run_trial, sample_from_elapsed};
use bench_stats::{Error, Ratio};

fn ratio_denotes(r: Ratio, num: u128, den: u128) -> bool {
    r.num * den == num * r.den
}

#[test]
fn sample_formulas_are_exact() {
    // 4 operations over a 1 MiB payload taking 2 seconds in total:
    // latency is 2e9 / 4 = 5e8 ns, throughput is (4 MiB / 1 MiB) / 2 s
    // = 2 MB/s.
    let payload: u64 = 1 << 20;
    let measured: u64 = 4;
    let elapsed_ns: u64 = 2_000_000_000;
    let s = sample_from_elapsed(payload, measured, elapsed_ns).unwrap();
    assert!(ratio_denotes(s.latency_ns, 500_000_000, 1));
    assert!(ratio_denotes(s.throughput_mb_per_s, 2, 1));
    assert_eq!(s.latency_ns.num, 2_000_000_000);
    assert_eq!(s.latency_ns.den, 4);
}

#[test]
fn zero_elapsed_time_is_clock_degenerate() {
    assert_eq!(
        sample_from_elapsed(1024, 10, 0),
        Err(Error::ClockDegenerate)
    );
}

#[test]
fn failure_on_third_measured_call_aborts_the_trial() {
    // The operation succeeds twice, then fails on its 3rd measured call
    // out of measured_count = 5: no partial sample may escape.
    let calls = std::cell::Cell::new(0u32);
    let op = || {
        calls.set(calls.get() + 1);
        calls.get() != 3
    };
    let r = run_trial(op, 1024, 0, 5);
    assert_eq!(r, Err(Error::OperationFailed));
    assert_eq!(calls.get(), 3);
}

#[test]
fn warmup_calls_precede_the_measured_window() {
    // The operation fails only during its first two (warmup) calls, so
    // the measured phase sees only successes.
    let calls = std::cell::Cell::new(0u32);
    let op = || {
        calls.set(calls.get() + 1);
        calls.get() > 2
    };
    let r = run_trial(op, 1024, 2, 3);
    assert_eq!(calls.get(), 5);
    assert!(r.is_ok());
}

#[test]
fn successful_trial_yields_a_consistent_sample() {
    let sink = std::cell::Cell::new(1u64);
    let op = || {
        // Enough arithmetic that the measured window cannot take zero
        // time on any realistic clock.
        let mut x = sink.get();
        for _ in 0..64 {
            x = x.wrapping_mul(6364136223846793005).wrapping_add(1442695040888963407);
        }
        sink.set(x);
        true
    };
    let payload: u64 = 512;
    let measured: u64 = 1000;
    let r = run_trial(op, payload, 10, measured).unwrap();
    // latency = elapsed / 1000 with the elapsed time the clock saw
    assert_eq!(r.latency_ns.den, measured as u128);
    assert!(r.latency_ns.num >= 1);
    // throughput numerator and denominator follow the fixed formulas
    assert_eq!(
        r.throughput_mb_per_s.num,
        payload as u128 * measured as u128 * 1_000_000_000
    );
    assert_eq!(
        r.throughput_mb_per_s.den,
        r.latency_ns.num * (1 << 20)
    );
}

//! Statistical sampling engine for a micro-benchmark harness.
//!
//! The library reduces a series of per-trial measurements to summary
//! statistics (mean, median, population standard deviation) and derives
//! throughput/latency samples from timed runs of a caller-supplied
//! operation.  All statistics are computed over exact rationals so that
//! every result is pinned precisely by its contract.

use vstd::prelude::*;

pub mod structs;
pub mod trial;

verus! {

use vstd::relations::{sorted_by, total_ordering};
use vstd::seq_lib::lemma_sorted_unique;
use vstd::seq_lib::group_to_multiset_ensures;
use vstd::multiset::group_multiset_axioms;

/// An exact non-negative rational number: `num / den`, with `den > 0`
/// for any value produced by this library.
#[derive(Clone, Copy, Debug, PartialEq, Eq, Structural)]
pub struct Ratio {
    pub num: u128,
    pub den: u128,
}

impl Ratio {
    /// A well-formed ratio has a positive denominator.
    pub open spec fn wf(self) -> bool {
        self.den > 0
    }

    /// The ratio denotes exactly the integer `v`.
    pub open spec fn is_int(self, v: int) -> bool {
        self.den > 0 && self.num == v * self.den
    }
}

/// Failures of the sampling and aggregation engine.
#[derive(Clone, Copy, Debug, PartialEq, Eq, Structural)]
pub enum Error {
    /// An aggregation function received a series with no elements.
    EmptySeries,
    /// A measured (non-warmup) invocation of the operation reported failure.
    OperationFailed,
    /// The measured elapsed time was zero, so no meaningful sample exists.
    ClockDegenerate,
}

/// Sum of the elements of a series, as an unbounded integer.
pub open spec fn sum_seq(s: Seq<u64>) -> int
    decreases s.len(),
{
    if s.len() == 0 {
        0
    } else {
        sum_seq(s.drop_last()) + s.last()
    }
}

/// The sum of a series is bounded by `len * u64::MAX` and is non-negative.
pub proof fn lemma_sum_seq_bounds(s: Seq<u64>)
    ensures
        0 <= sum_seq(s) <= s.len() * u64::MAX,
    decreases s.len(),
{
    if s.len() == 0 {
    } else {
        lemma_sum_seq_bounds(s.drop_last());
        assert(s.drop_last().len() * u64::MAX + u64::MAX == s.len() * u64::MAX)
            by (nonlinear_arith)
            requires s.len() >= 1 && s.drop_last().len() == s.len() - 1;
    }
}

/// Arithmetic mean of the series, as the exact rational
/// `sum(data) / len(data)`.
///
/// Fails with `EmptySeries` exactly when the series is empty.
pub fn mean(data: &Vec<u64>) -> (r: Result<Ratio, Error>)
    ensures
        r is Ok <==> data@.len() > 0,
        r matches Ok(m) ==> m.num == sum_seq(data@) && m.den == data@.len(),
        r is Err ==> r == Err::<Ratio, Error>(Error::EmptySeries),
{
    if data.len() == 0 {
        return Err(Error::EmptySeries);
    }
    let mut acc: u128 = 0;
    let mut i: usize = 0;
    proof {
        lemma_sum_seq_bounds(data@);
    }
    while i < data.len()
        invariant
            0 <= i <= data@.len(),
            acc == sum_seq(data@.take(i as int)),
        decreases data@.len() - i,
    {
        proof {
            assert(data@.take(i + 1).drop_last() =~= data@.take(i as int));
            assert(data@.take(i + 1).last() == data@[i as int]);
            lemma_sum_seq_bounds(data@.take(i + 1));
        }
        acc = acc + data[i] as u128;
        i = i + 1;
    }
    proof {
        assert(data@.take(data@.len() as int) =~= data@);
    }
    Ok(Ratio { num: acc, den: data.len() as u128 })
}

/// The ordering by which a series is sorted before taking its median.
pub open spec fn u64_le() -> spec_fn(u64, u64) -> bool {
    |a: u64, b: u64| a <= b
}

/// The series rearranged into non-decreasing order.
pub open spec fn sorted_of(s: Seq<u64>) -> Seq<u64> {
    s.sort_by(u64_le())
}

/// Numerator of the median of a non-empty series: the middle element of
/// the sorted series for odd length, the sum of the two central elements
/// for even length.
pub open spec fn median_num(s: Seq<u64>) -> int {
    let t = sorted_of(s);
    let mid = s.len() as int / 2;
    if s.len() % 2 == 1 {
        t[mid] as int
    } else {
        t[mid - 1] + t[mid]
    }
}

/// Denominator of the median: 1 for odd length, 2 for even length.
pub open spec fn median_den(s: Seq<u64>) -> int {
    if s.len() % 2 == 1 {
        1
    } else {
        2
    }
}

proof fn lemma_u64_le_total()
    ensures
        total_ordering(u64_le()),
{
}

/// The sorted rearrangement is sorted, has the same multiset of
/// elements, and has the same length as the series it came from.
pub proof fn lemma_sorted_of_ensures(s: Seq<u64>)
    ensures
        sorted_by(sorted_of(s), u64_le()),
        sorted_of(s).to_multiset() == s.to_multiset(),
        sorted_of(s).len() == s.len(),
{
    broadcast use group_to_multiset_ensures;

    lemma_u64_le_total();
    s.lemma_sort_by_ensures(u64_le());
    assert(sorted_of(s).to_multiset().len() == sorted_of(s).len());
    assert(s.to_multiset().len() == s.len());
}

/// Produces a sorted copy of the series, leaving the argument untouched.
fn sorted_copy(data: &Vec<u64>) -> (r: Vec<u64>)
    ensures
        r@ == sorted_of(data@),
{
    broadcast use group_to_multiset_ensures;
    broadcast use group_multiset_axioms;

    let mut out: Vec<u64> = Vec::new();
    let mut i: usize = 0;
    while i < data.len()
        invariant
            0 <= i <= data@.len(),
            out@.len() == i,
            sorted_by(out@, u64_le()),
            out@.to_multiset() == data@.take(i as int).to_multiset(),
        decreases data@.len() - i,
    {
        let x = data[i];
        let mut p: usize = 0;
        while p < out.len() && out[p] <= x
            invariant
                0 <= p <= out@.len(),
                forall|k: int| 0 <= k < p ==> out@[k] <= x,
            decreases out@.len() - p,
        {
            p = p + 1;
        }
        assert(forall|k: int| p <= k < out@.len() ==> x < out@[k]) by {
            if p < out@.len() {
                assert(forall|k: int| p < k < out@.len() ==> u64_le()(out@[p as int], out@[k]));
            }
        }
        let ghost prev = out@;
        out.insert(p, x);
        proof {
            assert(sorted_by(out@, u64_le())) by {
                assert(forall|a: int, b: int|
                    0 <= a < b < out@.len() ==> u64_le()(out@[a], out@[b])) by {
                    assert forall|a: int, b: int|
                        0 <= a < b < out@.len() implies u64_le()(out@[a], out@[b]) by {
                        if b < p {
                            assert(u64_le()(prev[a], prev[b]));
                        } else if a < p && b == p {
                            assert(out@[b] == x);
                        } else if a < p && b > p {
                            assert(u64_le()(prev[a], prev[b - 1]));
                        } else if a == p {
                            assert(out@[a] == x);
                        } else {
                            assert(u64_le()(prev[a - 1], prev[b - 1]));
                        }
                    }
                }
            }
            assert(out@ == prev.insert(p as int, x));
            vstd::seq_lib::to_multiset_insert(prev, p as int, x);
            vstd::seq_lib::to_multiset_build(data@.take(i as int), x);
            assert(data@.take(i + 1) =~= data@.take(i as int).push(x));
            assert(out@.to_multiset() =~= data@.take(i + 1).to_multiset());
        }
        i = i + 1;
    }
    proof {
        assert(data@.take(data@.len() as int) =~= data@);
        lemma_u64_le_total();
        lemma_sorted_of_ensures(data@);
        lemma_sorted_unique(out@, sorted_of(data@), u64_le());
    }
    out
}

/// Median of the series, as an exact rational: the middle element of a
/// sorted copy, or the arithmetic mean of the two central elements when
/// the length is even.  The series itself is left unmodified.
///
/// Fails with `EmptySeries` exactly when the series is empty.
pub fn median(data: &Vec<u64>) -> (r: Result<Ratio, Error>)
    ensures
        r is Ok <==> data@.len() > 0,
        r matches Ok(m) ==> m.num == median_num(data@) && m.den == median_den(data@),
        r is Err ==> r == Err::<Ratio, Error>(Error::EmptySeries),
{
    if data.len() == 0 {
        return Err(Error::EmptySeries);
    }
    let sorted = sorted_copy(data);
    proof {
        lemma_sorted_of_ensures(data@);
    }
    let n = sorted.len();
    let mid = n / 2;
    if n % 2 == 1 {
        Ok(Ratio { num: sorted[mid] as u128, den: 1 })
    } else {
        Ok(Ratio { num: sorted[mid - 1] as u128 + sorted[mid] as u128, den: 2 })
    }
}

/// The square of `x * md - mn`: the squared difference between `x` and
/// the rational `mn / md`, scaled by `md^2`.
pub open spec fn scaled_diff_sq(x: u64, mn: int, md: int) -> int {
    (x * md - mn) * (x * md - mn)
}

/// Sum over the series of the squared scaled differences from the
/// rational `mn / md`: the population variance of the series times
/// `md^2 * len`.
pub open spec fn sq_diff_sum(s: Seq<u64>, mn: int, md: int) -> int
    decreases s.len(),
{
    if s.len() == 0 {
        0
    } else {
        sq_diff_sum(s.drop_last(), mn, md) + scaled_diff_sq(s.last(), mn, md)
    }
}

proof fn lemma_sq_diff_sum_nonneg(s: Seq<u64>, mn: int, md: int)
    ensures
        sq_diff_sum(s, mn, md) >= 0,
    decreases s.len(),
{
    if s.len() == 0 {
    } else {
        lemma_sq_diff_sum_nonneg(s.drop_last(), mn, md);
        let d = s.last() * md - mn;
        assert(d * d >= 0) by (nonlinear_arith);
    }
}

proof fn lemma_sq_diff_sum_prefix(s: Seq<u64>, mn: int, md: int, i: int)
    requires
        0 <= i <= s.len(),
    ensures
        sq_diff_sum(s.take(i), mn, md) <= sq_diff_sum(s, mn, md),
    decreases s.len() - i,
{
    if i == s.len() {
        assert(s.take(i) =~= s);
    } else {
        lemma_sq_diff_sum_prefix(s, mn, md, i + 1);
        assert(s.take(i + 1).drop_last() =~= s.take(i));
        assert(s.take(i + 1).last() == s[i]);
        let d = s[i] * md - mn;
        assert(d * d >= 0) by (nonlinear_arith);
    }
}

/// Integer square root: the largest integer whose square does not
/// exceed `v`.
fn isqrt(v: u128) -> (r: u128)
    ensures
        r * r <= v,
        v < (r + 1) * (r + 1),
        r <= u64::MAX,
{
    let mut lo: u128 = 0;
    let mut hi: u128 = 0x1_0000_0000_0000_0000;
    proof {
        assert(v < 0x1_0000_0000_0000_0000u128 * 0x1_0000_0000_0000_0000u128);
    }
    while lo + 1 < hi
        invariant
            lo < hi <= 0x1_0000_0000_0000_0000,
            lo * lo <= v,
            v < hi * hi,
        decreases hi - lo,
    {
        let mid: u128 = lo + (hi - lo) / 2;
        proof {
            assert(mid * mid <= 0xFFFF_FFFF_FFFF_FFFFu128 * 0xFFFF_FFFF_FFFF_FFFFu128)
                by (nonlinear_arith)
                requires mid <= 0xFFFF_FFFF_FFFF_FFFFu128;
        }
        if mid * mid <= v {
            lo = mid;
        } else {
            hi = mid;
        }
    }
    lo
}

/// Population standard deviation of the series, given its mean.
///
/// The caller supplies the mean; the precondition demands that it
/// denote `sum(data) / len(data)` exactly.  The result is the exact
/// rational `floor(sqrt(sq_diff_sum * len)) / (mean.den * len)`: the
/// square root of the population variance
/// `sq_diff_sum / (mean.den^2 * len)`, rounded down to a multiple of
/// `1 / (mean.den * len)`.
///
/// Fails with `EmptySeries` exactly when the series is empty.
pub fn std_deviation(data: &Vec<u64>, mean: Ratio) -> (r: Result<Ratio, Error>)
    requires
        mean.den > 0,
        mean.den <= u64::MAX,
        mean.num * data@.len() == sum_seq(data@) * mean.den,
        sq_diff_sum(data@, mean.num as int, mean.den as int) * data@.len() <= u128::MAX,
    ensures
        r is Ok <==> data@.len() > 0,
        r is Err ==> r == Err::<Ratio, Error>(Error::EmptySeries),
        r matches Ok(sd) ==> ({
            let scaled = sq_diff_sum(data@, mean.num as int, mean.den as int) * data@.len();
            &&& sd.den == mean.den * data@.len()
            &&& sd.num * sd.num <= scaled
            &&& scaled < (sd.num + 1) * (sd.num + 1)
            &&& sd.wf()
        }),
{
    if data.len() == 0 {
        return Err(Error::EmptySeries);
    }
    let ghost mn_i: int = mean.num as int;
    let ghost md_i: int = mean.den as int;
    let ghost total: int = sq_diff_sum(data@, mn_i, md_i);
    proof {
        lemma_sq_diff_sum_nonneg(data@, mn_i, md_i);
        assert(total * 1 <= total * data@.len()) by (nonlinear_arith)
            requires total >= 0 && data@.len() >= 1;
    }
    let mut acc: u128 = 0;
    let mut i: usize = 0;
    while i < data.len()
        invariant
            0 <= i <= data@.len(),
            data@.len() >= 1,
            mean.den > 0,
            mean.den <= u64::MAX,
            mn_i == mean.num as int,
            md_i == mean.den as int,
            total == sq_diff_sum(data@, mn_i, md_i),
            0 <= total <= u128::MAX,
            acc == sq_diff_sum(data@.take(i as int), mn_i, md_i),
        decreases data@.len() - i,
    {
        let x = data[i];
        proof {
            assert((x as u128) * mean.den <= 0xFFFF_FFFF_FFFF_FFFFu128
                * 0xFFFF_FFFF_FFFF_FFFFu128) by (nonlinear_arith)
                requires x <= 0xFFFF_FFFF_FFFF_FFFFu128 && mean.den
                    <= 0xFFFF_FFFF_FFFF_FFFFu128;
        }
        let xm: u128 = (x as u128) * mean.den;
        let d: u128 = if xm >= mean.num {
            xm - mean.num
        } else {
            mean.num - xm
        };
        proof {
            if xm < mean.num {
                assert((mn_i - x * md_i) * (mn_i - x * md_i) == (x * md_i - mn_i) * (x * md_i
                    - mn_i)) by (nonlinear_arith);
            }
            assert(d * d == scaled_diff_sq(x, mn_i, md_i));
            lemma_sq_diff_sum_prefix(data@, mn_i, md_i, i + 1);
            lemma_sq_diff_sum_nonneg(data@.take(i as int), mn_i, md_i);
            assert(data@.take(i + 1).drop_last() =~= data@.take(i as int));
            assert(data@.take(i + 1).last() == data@[i as int]);
        }
        let sq: u128 = d * d;
        acc = acc + sq;
        i = i + 1;
    }
    proof {
        assert(data@.take(data@.len() as int) =~= data@);
        assert((mean.den as int) * (data@.len() as int) <= 0xFFFF_FFFF_FFFF_FFFFu128
            * 0xFFFF_FFFF_FFFF_FFFFu128) by (nonlinear_arith)
            requires mean.den <= 0xFFFF_FFFF_FFFF_FFFFu128 && data@.len()
                <= 0xFFFF_FFFF_FFFF_FFFFu128;
        assert((mean.den as int) * (data@.len() as int) >= 1) by (nonlinear_arith)
            requires mean.den >= 1 && data@.len() >= 1;
    }
    let scaled: u128 = acc * (data.len() as u128);
    let root = isqrt(scaled);
    let den: u128 = mean.den * (data.len() as u128);
    Ok(Ratio { num: root, den })
}

/// The median is a function of the series alone: any two results meeting
/// the median contract for the same series are equal, so repeated calls
/// on an unchanged series agree.
pub proof fn lemma_median_deterministic(s: Seq<u64>, a: Ratio, b: Ratio)
    requires
        a.num == median_num(s),
        a.den == median_den(s),
        b.num == median_num(s),
        b.den == median_den(s),
    ensures
        a == b,
{
}

proof fn lemma_constant_sum(s: Seq<u64>, v: u64)
    requires
        forall|i: int| 0 <= i < s.len() ==> s[i] == v,
    ensures
        sum_seq(s) == v * s.len(),
    decreases s.len(),
{
    if s.len() == 0 {
    } else {
        lemma_constant_sum(s.drop_last(), v);
        assert(v * (s.len() - 1) + v == v * s.len()) by (nonlinear_arith);
    }
}

proof fn lemma_constant_sq_diff(s: Seq<u64>, v: u64, mn: int, md: int)
    requires
        mn == v * md,
        forall|i: int| 0 <= i < s.len() ==> s[i] == v,
    ensures
        sq_diff_sum(s, mn, md) == 0,
    decreases s.len(),
{
    if s.len() == 0 {
    } else {
        lemma_constant_sq_diff(s.drop_last(), v, mn, md);
        assert(s.last() == s[s.len() - 1]);
        assert(s.last() == v);
        assert(scaled_diff_sq(s.last(), mn, md) == 0);
    }
}

/// A series holding a single repeated value `v` has mean `v`, median
/// `v`, and zero spread: any ratio built as the mean contract demands
/// denotes `v`, any ratio built as the median contract demands denotes
/// `v`, and the squared deviations from a mean denoting `v` sum to
/// zero, so any ratio meeting the standard-deviation contract
/// denotes `0`.
pub proof fn lemma_constant_series(s: Seq<u64>, v: u64, m: Ratio)
    requires
        s.len() > 0,
        forall|i: int| 0 <= i < s.len() ==> s[i] == v,
        m.is_int(v as int),
    ensures
        sum_seq(s) == v * s.len(),
        median_num(s) == v * median_den(s),
        sq_diff_sum(s, m.num as int, m.den as int) == 0,
        forall|mr: Ratio|
            mr.num == sum_seq(s) && mr.den == s.len() ==> mr.is_int(v as int),
        forall|dr: Ratio|
            dr.num == median_num(s) && dr.den == median_den(s) ==> dr.is_int(v as int),
        forall|sd: Ratio|
            sd.den > 0 && sd.num * sd.num <= sq_diff_sum(s, m.num as int, m.den as int)
                * s.len() ==> sd.is_int(0),
{
    broadcast use group_to_multiset_ensures;
    broadcast use group_multiset_axioms;

    lemma_constant_sum(s, v);
    lemma_constant_sq_diff(s, v, m.num as int, m.den as int);
    lemma_sorted_of_ensures(s);
    let t = sorted_of(s);
    assert forall|i: int| 0 <= i < t.len() implies t[i] == v by {
        assert(t.contains(t[i]));
        assert(t.to_multiset().count(t[i]) > 0);
        assert(s.to_multiset().count(t[i]) > 0);
        assert(s.contains(t[i]));
        let j = choose|j: int| 0 <= j < s.len() && s[j] == t[i];
        assert(s[j] == v);
    }
    let mid = s.len() as int / 2;
    if s.len() % 2 == 1 {
        assert(median_num(s) == v * 1);
    } else {
        assert(t[mid - 1] == v && t[mid] == v);
        assert(v + v == v * 2) by (nonlinear_arith);
    }
    assert forall|sd: Ratio|
        sd.den > 0 && sd.num * sd.num <= sq_diff_sum(s, m.num as int, m.den as int)
            * s.len() implies sd.is_int(0) by {
        assert(sd.num * sd.num <= 0) by (nonlinear_arith)
            requires sd.num * sd.num <= sq_diff_sum(s, m.num as int, m.den as int) * s.len()
                && sq_diff_sum(s, m.num as int, m.den as int) == 0;
        assert(sd.num == 0) by (nonlinear_arith)
            requires sd.num * sd.num <= 0 && sd.num >= 0;
    }
}

/// The mean of a one-element series is that element.
pub proof fn lemma_mean_singleton(s: Seq<u64>, m: Ratio)
    requires
        s.len() == 1,
        m.num == sum_seq(s),
        m.den == s.len(),
    ensures
        m.is_int(s[0] as int),
{
    assert(s.drop_last().len() == 0);
    assert(sum_seq(s.drop_last()) == 0);
    assert(sum_seq(s) == s[0]);
    assert(s[0] as int * 1 == s[0] as int);
}

/// Runs the operation once per trial and collects its results into a
/// sample series, one value per trial, in call order.
pub fn collect_data<F: Fn() -> u64>(func: F, trials: usize) -> (r: Vec<u64>)
    requires
        call_requires(func, ()),
    ensures
        r@.len() == trials,
        forall|i: int| 0 <= i < trials ==> call_ensures(func, (), #[trigger] r@[i]),
{
    let mut r: Vec<u64> = Vec::new();
    let mut i: usize = 0;
    while i < trials
        invariant
            call_requires(func, ()),
            0 <= i <= trials,
            r@.len() == i,
            forall|j: int| 0 <= j < i ==> call_ensures(func, (), #[trigger] r@[j]),
        decreases trials - i,
    {
        r.push(func());
        i = i + 1;
    }
    r
}

} // verus!


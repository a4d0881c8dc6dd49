use vstd::prelude::*;

use crate::scalar::{Scalar, COUNT_CAP, RAW_MAX};

verus! {

/// Sum of a sequence of sample values, in fixed-point units.
pub open spec fn sum_of(s: Seq<int>) -> int
    decreases s.len(),
{
    if s.len() == 0 {
        0
    } else {
        sum_of(s.drop_last()) + s.last()
    }
}

/// Sum of the squares of a sequence of sample values, in squared
/// fixed-point units.
pub open spec fn sum_sq_of(s: Seq<int>) -> int
    decreases s.len(),
{
    if s.len() == 0 {
        0
    } else {
        sum_sq_of(s.drop_last()) + s.last() * s.last()
    }
}

/// Every sample of the sequence lies within the representable range.
pub open spec fn in_range(s: Seq<int>) -> bool {
    forall|i: int| 0 <= i < s.len() ==> -RAW_MAX <= #[trigger] s[i] <= RAW_MAX
}

/// The sample history an accumulator ends up with after consuming `value`:
/// admissible values are appended, not-a-number and out-of-range values are
/// dropped, and a full accumulator stays as it is.
pub open spec fn spec_consume(s: Seq<int>, value: Scalar) -> Seq<int> {
    if value.admissible() && s.len() < COUNT_CAP {
        s.push(value.raw_spec())
    } else {
        s
    }
}

proof fn lemma_sum_push(s: Seq<int>, x: int)
    ensures
        sum_of(s.push(x)) == sum_of(s) + x,
        sum_sq_of(s.push(x)) == sum_sq_of(s) + x * x,
{
    assert(s.push(x).drop_last() =~= s);
    assert(s.push(x).last() == x);
}

proof fn lemma_sum_bounds(s: Seq<int>)
    requires
        in_range(s),
    ensures
        -(s.len() * RAW_MAX) <= sum_of(s) <= s.len() * RAW_MAX,
        0 <= sum_sq_of(s) <= s.len() * (RAW_MAX * RAW_MAX),
    decreases s.len(),
{
    if s.len() == 0 {
    } else {
        let prefix = s.drop_last();
        assert(in_range(prefix)) by {
            assert(forall|i: int|
                0 <= i < prefix.len() ==> #[trigger] prefix[i] == s[i]);
        }
        lemma_sum_bounds(prefix);
        let x = s.last();
        assert(-RAW_MAX <= x <= RAW_MAX);
        assert(0 <= x * x <= RAW_MAX * RAW_MAX) by (nonlinear_arith)
            requires
                -RAW_MAX <= x <= RAW_MAX,
        ;
        assert(s.len() * RAW_MAX == prefix.len() * RAW_MAX + RAW_MAX);
        assert(s.len() * (RAW_MAX * RAW_MAX)
            == prefix.len() * (RAW_MAX * RAW_MAX) + RAW_MAX * RAW_MAX) by (nonlinear_arith)
            requires
                s.len() == prefix.len() + 1,
        ;
    }
}

/// The mean of the samples in fixed-point units, rounded toward zero;
/// 0 for an empty history.
pub open spec fn spec_mean_raw(s: Seq<int>) -> int {
    if s.len() == 0 {
        0
    } else if sum_of(s) >= 0 {
        sum_of(s) / s.len() as int
    } else {
        -((-sum_of(s)) / s.len() as int)
    }
}

/// What `Acc::value` reports: the rounded mean of the consumed samples.
pub open spec fn spec_value(s: Seq<int>) -> Scalar {
    Scalar::Num(spec_mean_raw(s) as i64)
}

/// The integer square root: the unique `r >= 0` with
/// `r * r <= x < (r+1) * (r+1)` (see `lemma_isqrt_bounds`); 0 for negative
/// arguments.
pub open spec fn spec_isqrt(x: int) -> int
    decreases x,
{
    if x < 1 {
        0
    } else {
        let r = spec_isqrt(x - 1);
        if (r + 1) * (r + 1) <= x {
            r + 1
        } else {
            r
        }
    }
}

/// What `Acc::uncertainty` reports for a non-empty history, in fixed-point
/// units: the integer square root of `variance / n`, where the discrete
/// variance is the floored mean of squares minus the square of the floored
/// absolute mean. This is the fixed-point form of the standard error of the
/// mean, `sqrt((mean2 - mean^2) / n)`; the fixed-point scale cancels inside
/// the square root. The subtraction is defensively clamped at zero, though
/// `lemma_variance_never_negative` proves the clamp can never fire: unlike
/// floating-point round-off, the integer rounding here cannot produce a
/// negative radicand.
pub open spec fn spec_uncertainty_raw(s: Seq<int>) -> int {
    let n = s.len() as int;
    let mean_sq = sum_sq_of(s) / n;
    let mag = if sum_of(s) >= 0 { sum_of(s) } else { -sum_of(s) };
    let q = mag / n;
    let variance = if mean_sq >= q * q { mean_sq - q * q } else { 0 };
    spec_isqrt(variance / n)
}

/// What `Acc::uncertainty` reports: not-a-number for an empty history
/// (0/0), else the discrete standard error of the mean.
pub open spec fn spec_uncertainty(s: Seq<int>) -> Scalar {
    if s.len() == 0 {
        Scalar::Nan
    } else {
        Scalar::Num(spec_uncertainty_raw(s) as i64)
    }
}

proof fn lemma_cauchy_schwarz(s: Seq<int>)
    ensures
        sum_of(s) * sum_of(s) <= s.len() * sum_sq_of(s),
    decreases s.len(),
{
    if s.len() == 0 {
    } else {
        let prefix = s.drop_last();
        lemma_cauchy_schwarz(prefix);
        let n = prefix.len() as int;
        let sm = sum_of(prefix);
        let qs = sum_sq_of(prefix);
        let v = s.last();
        if n == 0 {
            assert(sm == 0 && qs == 0);
            assert(v * v <= 1 * (v * v)) by (nonlinear_arith);
        } else {
            assert(sm * sm - 2 * n * sm * v + n * n * (v * v) >= 0) by (nonlinear_arith);
            assert(n * (qs + n * (v * v) - 2 * sm * v) >= 0) by (nonlinear_arith)
                requires
                    sm * sm <= n * qs,
                    sm * sm - 2 * n * sm * v + n * n * (v * v) >= 0,
            ;
            assert(qs + n * (v * v) - 2 * sm * v >= 0) by (nonlinear_arith)
                requires
                    0 < n,
                    n * (qs + n * (v * v) - 2 * sm * v) >= 0,
            ;
            assert((sm + v) * (sm + v) <= (n + 1) * (qs + v * v)) by (nonlinear_arith)
                requires
                    sm * sm <= n * qs,
                    qs + n * (v * v) - 2 * sm * v >= 0,
            ;
        }
    }
}

/// Law: the radicand of the uncertainty never goes negative. By the
/// Cauchy–Schwarz inequality the floored mean of squares always dominates
/// the square of the floored absolute mean, so the defensive clamp in the
/// uncertainty computation can never fire: integer rounding alone cannot
/// produce the negative-variance artifact that floating arithmetic is
/// known for with very small samples.
pub proof fn lemma_variance_never_negative(s: Seq<int>)
    requires
        s.len() > 0,
    ensures
        ({
            let n = s.len() as int;
            let mag = if sum_of(s) >= 0 { sum_of(s) } else { -sum_of(s) };
            let q = mag / n;
            sum_sq_of(s) / n >= q * q
        }),
{
    lemma_cauchy_schwarz(s);
    let n = s.len() as int;
    let mag = if sum_of(s) >= 0 { sum_of(s) } else { -sum_of(s) };
    let q = mag / n;
    assert(mag * mag == sum_of(s) * sum_of(s)) by (nonlinear_arith)
        requires
            mag == sum_of(s) || mag == -sum_of(s),
    ;
    vstd::arithmetic::div_mod::lemma_fundamental_div_mod(mag, n);
    vstd::arithmetic::div_mod::lemma_mod_division_less_than_divisor(mag, n);
    assert(q * n <= mag);
    assert(0 <= q) by {
        assert(mag <= n * mag) by (nonlinear_arith)
            requires
                0 < n,
                0 <= mag,
        ;
        lemma_div_bound(mag, n, mag);
    }
    assert((q * q) * n <= sum_sq_of(s)) by (nonlinear_arith)
        requires
            0 <= q,
            0 < n,
            q * n <= mag,
            mag * mag <= n * sum_sq_of(s),
    ;
    vstd::arithmetic::div_mod::lemma_div_is_ordered((q * q) * n, sum_sq_of(s), n);
    vstd::arithmetic::div_mod::lemma_div_by_multiple(q * q, n);
}

proof fn lemma_sum_concat(a: Seq<int>, b: Seq<int>)
    ensures
        sum_of(a + b) == sum_of(a) + sum_of(b),
        sum_sq_of(a + b) == sum_sq_of(a) + sum_sq_of(b),
    decreases b.len(),
{
    if b.len() == 0 {
        assert(a + b =~= a);
    } else {
        assert((a + b).drop_last() =~= a + b.drop_last());
        assert((a + b).last() == b.last());
        lemma_sum_concat(a, b.drop_last());
    }
}

pub(crate) proof fn lemma_div_bound(x: int, n: int, m: int)
    requires
        0 <= x,
        0 < n,
        0 <= m,
        x <= n * m,
    ensures
        0 <= x / n <= m,
{
    vstd::arithmetic::div_mod::lemma_div_is_ordered(0, x, n);
    vstd::arithmetic::div_mod::lemma_div_is_ordered(x, n * m, n);
    vstd::arithmetic::div_mod::lemma_div_multiples_vanish(m, n);
    assert(0int / n == 0) by (nonlinear_arith)
        requires
            0 < n,
    ;
}

/// The defining property of `spec_isqrt` on non-negative arguments.
pub proof fn lemma_isqrt_bounds(x: int)
    requires
        0 <= x,
    ensures
        0 <= spec_isqrt(x),
        spec_isqrt(x) * spec_isqrt(x) <= x,
        x < (spec_isqrt(x) + 1) * (spec_isqrt(x) + 1),
    decreases x,
{
    if x == 0 {
    } else {
        lemma_isqrt_bounds(x - 1);
        let r = spec_isqrt(x - 1);
        if (r + 1) * (r + 1) <= x {
            assert(x < (r + 2) * (r + 2)) by (nonlinear_arith)
                requires
                    0 <= r,
                    x - 1 < (r + 1) * (r + 1),
            ;
        }
    }
}

proof fn lemma_isqrt_fixes(x: int, r: int)
    requires
        0 <= r,
        r * r <= x,
        x < (r + 1) * (r + 1),
    ensures
        spec_isqrt(x) == r,
{
    lemma_isqrt_bounds(x);
    let picked = spec_isqrt(x);
    assert(picked == r) by (nonlinear_arith)
        requires
            0 <= r,
            r * r <= x,
            x < (r + 1) * (r + 1),
            0 <= picked,
            picked * picked <= x,
            x < (picked + 1) * (picked + 1),
    ;
}

fn isqrt128(x: u128) -> (r: u128)
    ensures
        r * r <= x,
        x < (r + 1) * (r + 1),
{
    let mut lo: u128 = 0;
    let mut hi: u128 = 18446744073709551616;
    while lo + 1 < hi
        invariant
            lo < hi <= 18446744073709551616,
            lo * lo <= x,
            x < hi * hi,
        decreases hi - lo,
    {
        let mid = lo + (hi - lo) / 2;
        assert(lo < mid < hi);
        assert(mid * mid < 340282366920938463463374607431768211456) by (nonlinear_arith)
            requires
                0 <= mid < 18446744073709551616,
        ;
        if mid * mid <= x {
            lo = mid;
        } else {
            hi = mid;
        }
    }
    lo
}

spec fn addf() -> spec_fn(int, int) -> int {
    |x: int, b: int| x + b
}

spec fn addsqf() -> spec_fn(int, int) -> int {
    |x: int, b: int| x * x + b
}

proof fn lemma_sum_as_fold(s: Seq<int>, v: int)
    ensures
        s.fold_right(addf(), v) == sum_of(s) + v,
        s.fold_right(addsqf(), v) == sum_sq_of(s) + v,
    decreases s.len(),
{
    if s.len() == 0 {
    } else {
        assert(addf()(s.last(), v) == s.last() + v);
        assert(addsqf()(s.last(), v) == s.last() * s.last() + v);
        lemma_sum_as_fold(s.drop_last(), s.last() + v);
        lemma_sum_as_fold(s.drop_last(), s.last() * s.last() + v);
    }
}

proof fn lemma_sum_permutation(s: Seq<int>, t: Seq<int>)
    requires
        s.to_multiset() == t.to_multiset(),
    ensures
        s.len() == t.len(),
        sum_of(s) == sum_of(t),
        sum_sq_of(s) == sum_sq_of(t),
{
    assert(vstd::seq_lib::commutative_foldr(addf())) by {
        assert forall|x: int, y: int, v: int|
            #[trigger] addf()(x, addf()(y, v)) == addf()(y, addf()(x, v)) by {
        }
    }
    assert(vstd::seq_lib::commutative_foldr(addsqf())) by {
        assert forall|x: int, y: int, v: int|
            #[trigger] addsqf()(x, addsqf()(y, v)) == addsqf()(y, addsqf()(x, v)) by {
        }
    }
    vstd::seq_lib::lemma_fold_right_permutation(s, t, addf(), 0);
    vstd::seq_lib::lemma_fold_right_permutation(s, t, addsqf(), 0);
    lemma_sum_as_fold(s, 0);
    lemma_sum_as_fold(t, 0);
    s.to_multiset_ensures();
    t.to_multiset_ensures();
}

/// Law: the reported statistics depend only on which values were consumed,
/// never on the order they were consumed in. Two sample histories that are
/// permutations of each other have the same number of samples, the same
/// mean, and the same uncertainty; in particular an accumulator fed
/// `v1..vn` in any order matches one fed them in any other order.
pub proof fn lemma_statistics_order_irrelevant(s: Seq<int>, t: Seq<int>)
    requires
        s.to_multiset() == t.to_multiset(),
    ensures
        s.len() == t.len(),
        spec_value(s) == spec_value(t),
        spec_uncertainty(s) == spec_uncertainty(t),
{
    lemma_sum_permutation(s, t);
}

/// Law: merging is commutative. Merging accumulator histories `a` and `b`
/// in either order yields the same number of samples, the same mean, and
/// the same uncertainty.
pub proof fn lemma_merge_commutative(a: Seq<int>, b: Seq<int>)
    ensures
        (a + b).len() == (b + a).len(),
        spec_value(a + b) == spec_value(b + a),
        spec_uncertainty(a + b) == spec_uncertainty(b + a),
{
    vstd::seq_lib::lemma_seq_union_to_multiset_commutative(a, b);
    lemma_statistics_order_irrelevant(a + b, b + a);
}

/// Law: merging is associative. However a set of samples was partitioned
/// into accumulators `a`, `b`, `c`, merging them as `(a + b) + c` or as
/// `a + (b + c)` yields identical sample histories, and therefore the same
/// count, mean, and uncertainty.
pub proof fn lemma_merge_associative(a: Seq<int>, b: Seq<int>, c: Seq<int>)
    ensures
        (a + b) + c == a + (b + c),
        spec_value((a + b) + c) == spec_value(a + (b + c)),
        spec_uncertainty((a + b) + c) == spec_uncertainty(a + (b + c)),
{
    assert((a + b) + c =~= a + (b + c));
}

/// An online accumulator of running statistics for one scalar observable.
///
/// It keeps the number of consumed samples together with their exact sum
/// and exact sum of squares, all in fixed-point units, so the mean and the
/// standard error it reports are the integer-rounded values of the exact
/// statistics of the consumed sample stream. No individual sample is
/// stored; the ghost sample history only ties the fields to their meaning.
#[derive(Clone, Copy)]
pub struct Acc {
    count: u64,
    sum: i128,
    sum2: u128,
    samples: Ghost<Seq<int>>,
}

impl View for Acc {
    type V = Seq<int>;

    closed spec fn view(&self) -> Seq<int> {
        self.samples@
    }
}

impl Acc {
    #[verifier::type_invariant]
    spec fn wf(self) -> bool {
        &&& self.samples@.len() == self.count
        &&& self.count <= COUNT_CAP
        &&& in_range(self.samples@)
        &&& self.sum == sum_of(self.samples@)
        &&& self.sum2 == sum_sq_of(self.samples@)
    }

    /// Constructs an empty accumulator: no samples, mean 0, and an
    /// undefined (not-a-number) uncertainty.
    pub fn new() -> (acc: Acc)
        ensures
            acc@ == Seq::<int>::empty(),
    {
        Acc { count: 0, sum: 0, sum2: 0, samples: Ghost(Seq::empty()) }
    }

    /// Gives the number of recorded samples, which never exceeds the
    /// accumulator's capacity.
    pub fn num_of_samples(&self) -> (n: u64)
        ensures
            n == self@.len(),
            n <= COUNT_CAP,
    {
        proof {
            use_type_invariant(&*self);
        }
        self.count
    }

    /// Consumes a sample value. A not-a-number value is silently dropped,
    /// so that an occasional undefined physics evaluation does not corrupt
    /// the statistics; a value beyond the representable fixed-point range,
    /// or a sample arriving at a full accumulator, is dropped the same way.
    pub fn consume(&mut self, value: Scalar)
        ensures
            final(self)@ == spec_consume(old(self)@, value),
    {
        proof {
            use_type_invariant(&*self);
        }
        match value {
            Scalar::Nan => {
            }
            Scalar::Num(raw) => {
                if -RAW_MAX <= raw && raw <= RAW_MAX && self.count < COUNT_CAP {
                    proof {
                        lemma_sum_bounds(self.samples@);
                        lemma_sum_push(self.samples@, raw as int);
                    }
                    assert((raw as i128) * (raw as i128) <= RAW_MAX as i128 * RAW_MAX as i128
                        && 0 <= (raw as i128) * (raw as i128)) by (nonlinear_arith)
                        requires
                            -RAW_MAX <= raw <= RAW_MAX,
                    ;
                    let sq: i128 = (raw as i128) * (raw as i128);
                    let updated = Acc {
                        count: self.count + 1,
                        sum: self.sum + raw as i128,
                        sum2: self.sum2 + sq as u128,
                        samples: Ghost(self.samples@.push(raw as int)),
                    };
                    *self = updated;
                }
            }
        }
    }

    /// Gives the mean of the previously consumed samples, in fixed-point
    /// units rounded toward zero. It approximates the expectation value of
    /// the physical observable this accumulator belongs to. An empty
    /// accumulator reports 0.
    pub fn value(&self) -> (v: Scalar)
        ensures
            v == spec_value(self@),
    {
        proof {
            use_type_invariant(&*self);
        }
        if self.count == 0 {
            Scalar::Num(0)
        } else {
            proof {
                lemma_sum_bounds(self.samples@);
            }
            let n: u128 = self.count as u128;
            if self.sum >= 0 {
                proof {
                    lemma_div_bound(self.sum as int, n as int, RAW_MAX as int);
                }
                let q: u128 = (self.sum as u128) / n;
                Scalar::Num(q as i64)
            } else {
                let mag: u128 = (-self.sum) as u128;
                proof {
                    lemma_div_bound(mag as int, n as int, RAW_MAX as int);
                }
                let q: u128 = mag / n;
                Scalar::Num(-(q as i64))
            }
        }
    }

    /// Gives the statistical error estimate of the reported mean: the
    /// standard deviation of the consumed samples divided by the square
    /// root of their number, computed in fixed-point units. An empty
    /// accumulator reports not-a-number (a 0/0). Where integer rounding
    /// would make the variance negative, it is clamped at zero.
    pub fn uncertainty(&self) -> (u: Scalar)
        ensures
            u == spec_uncertainty(self@),
    {
        proof {
            use_type_invariant(&*self);
        }
        if self.count == 0 {
            Scalar::Nan
        } else {
            proof {
                lemma_sum_bounds(self.samples@);
            }
            let n: u128 = self.count as u128;
            proof {
                lemma_div_bound(
                    self.sum2 as int,
                    n as int,
                    (RAW_MAX as int) * (RAW_MAX as int),
                );
            }
            let mean_sq: u128 = self.sum2 / n;
            let mag: u128 = if self.sum >= 0 {
                self.sum as u128
            } else {
                (-self.sum) as u128
            };
            proof {
                lemma_div_bound(mag as int, n as int, RAW_MAX as int);
            }
            let q: u128 = mag / n;
            assert(q * q <= (RAW_MAX as int) * (RAW_MAX as int)) by (nonlinear_arith)
                requires
                    0 <= q <= RAW_MAX,
            ;
            let b: u128 = q * q;
            let d: u128 = if mean_sq >= b {
                mean_sq - b
            } else {
                0
            };
            proof {
                assert((RAW_MAX as int) * (RAW_MAX as int)
                    <= (n as int) * ((RAW_MAX as int) * (RAW_MAX as int))) by (nonlinear_arith)
                    requires
                        1 <= n as int,
                ;
                lemma_div_bound(d as int, n as int, (RAW_MAX as int) * (RAW_MAX as int));
            }
            let e: u128 = d / n;
            let r = isqrt128(e);
            proof {
                lemma_isqrt_fixes(e as int, r as int);
                assert(r <= RAW_MAX as u128) by (nonlinear_arith)
                    requires
                        r * r <= e as int,
                        e as int <= (RAW_MAX as int) * (RAW_MAX as int),
                        0 < RAW_MAX,
                ;
            }
            Scalar::Num(r as i64)
        }
    }

    /// Merges another accumulator into this one: afterwards the statistics
    /// are exactly those of the combined sample streams, as if every sample
    /// ever consumed by `other` had instead been consumed by `self`. The
    /// right-hand accumulator is consumed. The combined number of samples
    /// must stay within the accumulator's capacity.
    pub fn merge(&mut self, other: Acc)
        requires
            old(self)@.len() + other@.len() <= COUNT_CAP,
        ensures
            final(self)@ == old(self)@ + other@,
    {
        proof {
            use_type_invariant(&*self);
            use_type_invariant(&other);
            lemma_sum_bounds(self.samples@);
            lemma_sum_bounds(other.samples@);
            lemma_sum_concat(self.samples@, other.samples@);
            let combined = self.samples@ + other.samples@;
            assert(in_range(combined)) by {
                assert(forall|i: int| 0 <= i < combined.len() ==> #[trigger] combined[i]
                    == if i < self.samples@.len() {
                        self.samples@[i]
                    } else {
                        other.samples@[i - self.samples@.len()]
                    });
            }
        }
        let updated = Acc {
            count: self.count + other.count,
            sum: self.sum + other.sum,
            sum2: self.sum2 + other.sum2,
            samples: Ghost(self.samples@ + other.samples@),
        };
        *self = updated;
    }
}

} // verus!

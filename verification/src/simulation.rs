use vstd::prelude::*;

use crate::export::Exporter;
use crate::measure::Measures;

verus! {

/// A configuration sample from the ergodic distribution. A concrete
/// simulation implements this capability; the driver owns the sample and
/// invokes it, but implements none of the physics.
pub trait Sample: Sized {
    /// Creates a new configuration sample with randomized degrees of
    /// freedom. Freshly randomized samples are usually highly atypical.
    fn prepare() -> Self;

    /// Brings a freshly prepared sample closer to the ergodic ensemble by
    /// mutating it for a couple dozen iterations before anything is
    /// measured, removing initialization bias. Concrete samples may
    /// override this with a better-suited schedule.
    fn thermalize(&mut self) {
        let mut i: u64 = 0;
        while i < 20
            decreases 20u64 - i,
        {
            self.mutate();
            i += 1;
        }
    }

    /// Makes one randomized ergodic transition in configuration space,
    /// for instance a single Metropolis step. The implementation must
    /// statistically preserve the target distribution; the driver assumes
    /// this and cannot verify it, and the correctness of all downstream
    /// statistics depends on it.
    fn mutate(&mut self);
}

/// The user measurement function: called by the driver once per mutated
/// sample, it computes the values of the physical observables for the
/// sample and records each of them with `Measures::accumulate`.
pub trait Measurer<S: Sample> {
    /// Measures the observables of `sample` and records them in
    /// `measures`.
    fn measure(&self, sample: &S, measures: &mut Measures);
}

/// Everything the driver needs to run a simulation: the frozen measures,
/// the exporter that periodically receives them, the export cadence (a
/// base interval in time units plus a randomization fraction in
/// thousandths), and the failure cap.
pub struct Parameters<E: Exporter> {
    /// The name of the simulation.
    pub name: String,
    /// The measures the simulation accumulates statistics into. Exported
    /// and reset on every successful flush.
    pub measures: Measures,
    /// The data sink receiving a snapshot of the measures every flush
    /// interval.
    pub exporter: E,
    /// Base interval between flushes of the accumulated values, in time
    /// units (seconds).
    pub flush_interval_secs: u64,
    /// Randomization of the flush interval, in thousandths of the base
    /// interval; must be below 1000 (a fraction in [0, 1)). Each cycle
    /// draws the interval uniformly from
    /// [base * (1 - r), base * (1 + r)], never below one time unit, so
    /// that independently running simulation instances do not synchronize
    /// their export bursts against a shared sink.
    pub flush_randomization_millis: u64,
    /// Abort the run after this many export errors in a row; `None`
    /// tolerates failures indefinitely.
    pub max_export_errors_in_row: Option<u64>,
}

/// A condition that ends the run: persistent export failure or an invalid
/// configuration. The driver hands it to the host program, which decides
/// the exit code and the diagnostic format; fatal means the whole process
/// is expected to stop.
#[derive(Clone, Copy, Debug, PartialEq, Eq, Structural)]
pub enum FatalError {
    /// The flush-interval randomization lay outside [0, 1): `millis`
    /// thousandths were asked for.
    InvalidRandomization { millis: u64 },
    /// The configured maximum of consecutive export failures was reached.
    TooManyExportFailures { limit: u64 },
}

#[verifier::external_type_specification]
#[verifier::external_body]
/// An opaque monotonic timestamp of the standard library.
pub struct ExInstant(std::time::Instant);

/// Relies on std::time::Instant::now: an opaque timestamp of the current
/// instant, used to measure how long ago the last export attempt was.
#[verifier::external_body]
fn monotonic_now() -> std::time::Instant {
    std::time::Instant::now()
}

/// Relies on std::time::Instant::elapsed: the wall-clock seconds passed
/// since `earlier`. Nothing can be promised of a clock reading, and the
/// driver's contracts do not depend on one.
#[verifier::external_body]
fn seconds_since(earlier: &std::time::Instant) -> u64 {
    earlier.elapsed().as_secs()
}

/// Relies on rand::random_range: a uniformly random integer drawn from the
/// inclusive range, which must not be empty.
#[verifier::external_body]
fn draw_uniform_u64(lo: u64, hi: u64) -> (drawn: u64)
    requires
        lo <= hi,
    ensures
        lo <= drawn <= hi,
{
    rand::random_range(lo..=hi)
}

/// The lower end of the flush-interval range: the base interval scaled by
/// (1 - r), rounded to the nearest time unit (half up) and floored at one
/// time unit.
pub open spec fn spec_flush_lo(base: u64, millis: u64) -> int {
    let scaled = (base * (1000 - millis) + 500) / 1000;
    if scaled >= 1 {
        scaled
    } else {
        1
    }
}

/// The upper end of the flush-interval range: the base interval scaled by
/// (1 + r), saturated at the largest time unit and never below the lower
/// end.
pub open spec fn spec_flush_hi(base: u64, millis: u64) -> int {
    let scaled = (base * (1000 + millis)) / 1000;
    let capped = if scaled > u64::MAX { u64::MAX as int } else { scaled };
    if capped >= spec_flush_lo(base, millis) {
        capped
    } else {
        spec_flush_lo(base, millis)
    }
}

/// Computes the inclusive range the next flush interval is drawn from:
/// [base * (1 - r), base * (1 + r)] in time units, floored at one unit,
/// where r is `randomization_millis` thousandths.
pub fn flush_interval_bounds(base: u64, randomization_millis: u64) -> (bounds: (u64, u64))
    requires
        randomization_millis < 1000,
    ensures
        bounds.0 as int == spec_flush_lo(base, randomization_millis),
        bounds.1 as int == spec_flush_hi(base, randomization_millis),
        1 <= bounds.0 <= bounds.1,
{
    proof {
        assert((base as int) * ((1000 - randomization_millis) as int)
            <= 18446744073709551615int * 2000) by (nonlinear_arith)
            requires
                0 <= base as int <= 18446744073709551615int,
                0 <= (1000 - randomization_millis) as int <= 2000,
        ;
        assert((base as int) * ((1000 + randomization_millis) as int)
            <= 18446744073709551615int * 2000) by (nonlinear_arith)
            requires
                0 <= base as int <= 18446744073709551615int,
                0 <= (1000 + randomization_millis) as int <= 2000,
        ;
    }
    let lo_scaled: u128 = ((base as u128) * ((1000 - randomization_millis) as u128) + 500)
        / 1000;
    proof {
        let lo_dividend = (base as int) * ((1000 - randomization_millis) as int) + 500;
        assert(0 <= lo_dividend && lo_dividend <= 1000 * (base as int) + 999) by (nonlinear_arith)
            requires
                0 <= base as int,
                0 <= (1000 - randomization_millis) as int <= 1000,
                lo_dividend == (base as int) * ((1000 - randomization_millis) as int) + 500,
        ;
        vstd::arithmetic::div_mod::lemma_div_is_ordered(
            lo_dividend,
            1000 * (base as int) + 999,
            1000,
        );
        vstd::arithmetic::div_mod::lemma_fundamental_div_mod_converse_div(
            1000 * (base as int) + 999,
            1000,
            base as int,
            999,
        );
        assert(1000 * (base as int) + 999 == (base as int) * 1000 + 999) by (nonlinear_arith);
        vstd::arithmetic::div_mod::lemma_div_is_ordered(0, lo_dividend, 1000);
        assert(0int / 1000 == 0) by (nonlinear_arith);
    }
    let lo_raw: u64 = lo_scaled as u64;
    let lo: u64 = if lo_raw < 1 {
        1
    } else {
        lo_raw
    };
    let hi_scaled: u128 = (base as u128) * ((1000 + randomization_millis) as u128) / 1000;
    proof {
        assert(0 <= (base as int) * ((1000 + randomization_millis) as int)) by (nonlinear_arith)
            requires
                0 <= base as int,
                0 <= (1000 + randomization_millis) as int,
        ;
        assert((base as int) * ((1000 + randomization_millis) as int)
            <= 1000 * ((base as int) * 2)) by (nonlinear_arith)
            requires
                0 <= base as int,
                0 <= (1000 + randomization_millis) as int <= 2000,
        ;
        crate::accumulate::lemma_div_bound(
            (base as int) * ((1000 + randomization_millis) as int),
            1000,
            (base as int) * 2,
        );
    }
    let hi_capped: u64 = if hi_scaled > u64::MAX as u128 {
        u64::MAX
    } else {
        hi_scaled as u64
    };
    let hi: u64 = if hi_capped < lo {
        lo
    } else {
        hi_capped
    };
    (lo, hi)
}

/// Draws the next flush interval afresh: uniformly random within the
/// randomized range around the base interval, and never below one time
/// unit.
pub fn next_flush_interval(base: u64, randomization_millis: u64) -> (interval: u64)
    requires
        randomization_millis < 1000,
    ensures
        spec_flush_lo(base, randomization_millis) <= interval as int
            <= spec_flush_hi(base, randomization_millis),
{
    let (lo, hi) = flush_interval_bounds(base, randomization_millis);
    draw_uniform_u64(lo, hi)
}

/// Law: with randomization 0 the flush-interval range collapses to the
/// base interval itself (floored at one time unit), so every export cycle
/// fires after exactly that many time units.
pub proof fn lemma_zero_randomization_pins_interval(base: u64)
    ensures
        spec_flush_lo(base, 0) == spec_flush_hi(base, 0),
        spec_flush_lo(base, 0) == if base >= 1 { base as int } else { 1int },
{
    assert(((base as int) * 1000 + 500) / 1000 == base as int) by {
        vstd::arithmetic::div_mod::lemma_fundamental_div_mod_converse_div(
            (base as int) * 1000 + 500,
            1000,
            base as int,
            500,
        );
        assert((base as int) * 1000 + 500 == (base as int) * 1000 + 500);
    }
    assert(((base as int) * 1000) / 1000 == base as int) by {
        assert((base as int) * 1000 == 1000 * (base as int)) by (nonlinear_arith);
        vstd::arithmetic::div_mod::lemma_div_multiples_vanish(base as int, 1000);
    }
}

/// The consecutive-failure counter after one more failed export: one
/// higher, saturated at the largest representable count.
pub open spec fn spec_bump(errors: u64) -> int {
    if errors < u64::MAX {
        errors + 1
    } else {
        errors as int
    }
}

/// The driver's bookkeeping after one export attempt. On success the
/// consecutive-failure counter restarts at zero and every accumulator is
/// reset: the exported snapshot becomes the new from-zero baseline, so
/// exported data points are not cumulative across flushes. On failure the
/// counter grows and the measures are left untouched, so the statistics
/// survive until the next successful export. The returned decision is
/// whether the run must abort: whether the counter has reached the
/// configured maximum.
pub fn apply_export_outcome(
    measures: &mut Measures,
    errors_in_row: &mut u64,
    max_errors_in_row: Option<u64>,
    success: bool,
) -> (abort: bool)
    ensures
        success ==> *final(errors_in_row) == 0,
        !success ==> *final(errors_in_row) as int == spec_bump(*old(errors_in_row)),
        success ==> {
            &&& final(measures)@.len() == old(measures)@.len()
            &&& (forall|j: int| 0 <= j < old(measures)@.len()
                ==> #[trigger] final(measures)@[j].name == old(measures)@[j].name)
            &&& (forall|j: int| 0 <= j < old(measures)@.len()
                ==> #[trigger] final(measures)@[j].acc@ == Seq::<int>::empty())
        },
        !success ==> *final(measures) == *old(measures),
        abort == (max_errors_in_row matches Some(limit) && *final(errors_in_row) >= limit),
{
    if success {
        *errors_in_row = 0;
        measures.reset();
    } else {
        if *errors_in_row < u64::MAX {
            *errors_in_row = *errors_in_row + 1;
        }
    }
    match max_errors_in_row {
        Some(limit) => *errors_in_row >= limit,
        None => false,
    }
}

/// The consecutive-failure counter after `k` failed exports in a row,
/// starting from zero: `spec_bump` applied `k` times.
pub open spec fn spec_failures_after(k: nat) -> int
    decreases k,
{
    if k == 0 {
        0
    } else {
        let previous = spec_failures_after((k - 1) as nat);
        if previous < u64::MAX {
            previous + 1
        } else {
            previous
        }
    }
}

/// Law: starting from a zero counter, `k` consecutive failed exports
/// leave the counter at exactly `k`; with a cap of `limit` failures in a
/// row the driver therefore aborts at the `limit`-th consecutive failure
/// and at none before it. Failed exports never touch the measures (see
/// `apply_export_outcome`), so no accumulator is reset in between.
pub proof fn lemma_failure_escalation(k: nat, limit: u64)
    requires
        k <= u64::MAX,
    ensures
        spec_failures_after(k) == k,
        (spec_failures_after(k) >= limit) <==> (k >= limit),
    decreases k,
{
    if k > 0 {
        lemma_failure_escalation((k - 1) as nat, limit);
    }
}

/// The driver's control state between iterations of the run loop: the
/// exporter, the export cadence, the freshly drawn flush interval, the
/// timestamp of the last export attempt, and the consecutive-failure
/// counter. The host program owns the unbounded loop itself — one bare
/// `loop` around `run_cycle` — and everything the loop decides is decided
/// here.
pub struct Driver<E: Exporter> {
    exporter: E,
    flush_interval_secs: u64,
    flush_randomization_millis: u64,
    max_export_errors_in_row: Option<u64>,
    errors_in_row: u64,
    last_export_attempt: std::time::Instant,
    interval: u64,
}

impl<E: Exporter> Driver<E> {
    /// A driver is well-formed when its randomization is a fraction in
    /// [0, 1) and its pending flush interval lies within the randomized
    /// range. `start` establishes this and every step preserves it.
    pub closed spec fn wf(&self) -> bool {
        &&& self.flush_randomization_millis < 1000
        &&& spec_flush_lo(self.flush_interval_secs, self.flush_randomization_millis)
            <= self.interval as int
        &&& self.interval as int
            <= spec_flush_hi(self.flush_interval_secs, self.flush_randomization_millis)
    }

    /// How many export attempts in a row have failed.
    pub closed spec fn spec_errors_in_row(&self) -> int {
        self.errors_in_row as int
    }

    /// The configured cap on consecutive export failures.
    pub closed spec fn spec_max(&self) -> Option<u64> {
        self.max_export_errors_in_row
    }

    /// The configured base flush interval, in time units.
    pub closed spec fn spec_base(&self) -> u64 {
        self.flush_interval_secs
    }

    /// The configured flush randomization, in thousandths.
    pub closed spec fn spec_millis(&self) -> u64 {
        self.flush_randomization_millis
    }

    /// Begins a run: consumes the validated parameters, draws the first
    /// flush interval, starts the export clock, and hands the measures
    /// back to the caller, who owns them through the run loop.
    pub fn start(parameters: Parameters<E>) -> (started: (Driver<E>, Measures))
        requires
            parameters.flush_randomization_millis < 1000,
        ensures
            started.0.wf(),
            started.0.spec_errors_in_row() == 0,
            started.0.spec_max() == parameters.max_export_errors_in_row,
            started.0.spec_base() == parameters.flush_interval_secs,
            started.0.spec_millis() == parameters.flush_randomization_millis,
            started.1 == parameters.measures,
    {
        let Parameters {
            name: _,
            measures,
            exporter,
            flush_interval_secs,
            flush_randomization_millis,
            max_export_errors_in_row,
        } = parameters;
        let interval = next_flush_interval(flush_interval_secs, flush_randomization_millis);
        let driver = Driver {
            exporter,
            flush_interval_secs,
            flush_randomization_millis,
            max_export_errors_in_row,
            errors_in_row: 0,
            last_export_attempt: monotonic_now(),
            interval,
        };
        (driver, measures)
    }

    /// The time-triggered part of one loop iteration. If the pending flush
    /// interval has not passed since the last export attempt, nothing
    /// happens. Otherwise the measures are exported: on success the
    /// consecutive-failure counter restarts and all accumulators are
    /// reset; on failure the counter grows and the measures are kept, so
    /// their statistics survive for the next attempt. Either way the next
    /// flush interval is drawn afresh. Returns the fatal error that ends
    /// the run once the counter reaches the configured maximum.
    pub fn maybe_export(&mut self, measures: &mut Measures) -> (outcome: Option<FatalError>)
        requires
            old(self).wf(),
        ensures
            final(self).wf(),
            final(self).spec_max() == old(self).spec_max(),
            final(self).spec_base() == old(self).spec_base(),
            final(self).spec_millis() == old(self).spec_millis(),
            ({
                // the interval had not passed: nothing happens
                &&& *final(measures) == *old(measures)
                &&& final(self).spec_errors_in_row() == old(self).spec_errors_in_row()
                &&& outcome is None
            }) || ({
                // exported successfully: statistics restart from zero
                &&& final(measures)@.len() == old(measures)@.len()
                &&& (forall|j: int| 0 <= j < old(measures)@.len()
                    ==> #[trigger] final(measures)@[j].name == old(measures)@[j].name)
                &&& (forall|j: int| 0 <= j < old(measures)@.len()
                    ==> #[trigger] final(measures)@[j].acc@ == Seq::<int>::empty())
                &&& final(self).spec_errors_in_row() == 0
            }) || ({
                // export failed: measures untouched, counter bumped
                &&& *final(measures) == *old(measures)
                &&& final(self).spec_errors_in_row()
                    == spec_bump(old(self).spec_errors_in_row() as u64)
            }),
            outcome matches Some(fatal) ==> (fatal matches FatalError::TooManyExportFailures {
                limit,
            } && old(self).spec_max() == Some(limit)
                && final(self).spec_errors_in_row() >= limit),
            outcome is None ==> (({
                &&& *final(measures) == *old(measures)
                &&& final(self).spec_errors_in_row() == old(self).spec_errors_in_row()
            }) || (old(self).spec_max() matches Some(limit)
                ==> final(self).spec_errors_in_row() < limit)),
    {
        if seconds_since(&self.last_export_attempt) >= self.interval {
            self.last_export_attempt = monotonic_now();
            let max_errors = self.max_export_errors_in_row;
            let success = self.exporter.export(measures).is_ok();
            let abort = apply_export_outcome(
                measures,
                &mut self.errors_in_row,
                max_errors,
                success,
            );
            self.interval = next_flush_interval(
                self.flush_interval_secs,
                self.flush_randomization_millis,
            );
            if abort {
                match max_errors {
                    Some(limit) => Some(FatalError::TooManyExportFailures { limit }),
                    None => {
                        proof {
                            assert(false);
                        }
                        None
                    }
                }
            } else {
                None
            }
        } else {
            None
        }
    }
}

/// One iteration of the simulation's steady state: mutate the sample to
/// draw a new configuration from the ergodic distribution, invoke the user
/// measurement function on it, and, when the flush interval has passed,
/// export the accumulated measures (see `Driver::maybe_export`). The host
/// program repeats this in an unbounded loop until a fatal error comes
/// back; with no failure cap configured none ever does.
pub fn run_cycle<S: Sample, M: Measurer<S>, E: Exporter>(
    driver: &mut Driver<E>,
    sample: &mut S,
    measurer: &M,
    measures: &mut Measures,
) -> (outcome: Option<FatalError>)
    requires
        old(driver).wf(),
    ensures
        final(driver).wf(),
        final(driver).spec_max() == old(driver).spec_max(),
        final(driver).spec_base() == old(driver).spec_base(),
        final(driver).spec_millis() == old(driver).spec_millis(),
        final(driver).spec_errors_in_row() == old(driver).spec_errors_in_row()
            || final(driver).spec_errors_in_row() == 0
            || final(driver).spec_errors_in_row()
                == spec_bump(old(driver).spec_errors_in_row() as u64),
        outcome matches Some(fatal) ==> (fatal matches FatalError::TooManyExportFailures {
            limit,
        } && old(driver).spec_max() == Some(limit)
            && final(driver).spec_errors_in_row() >= limit),
        outcome is None ==> (final(driver).spec_errors_in_row()
            == old(driver).spec_errors_in_row() || (old(driver).spec_max() matches Some(limit)
            ==> final(driver).spec_errors_in_row() < limit)),
{
    sample.mutate();
    measurer.measure(sample, measures);
    driver.maybe_export(measures)
}

} // verus!

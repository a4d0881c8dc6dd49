use vstd::prelude::*;

verus! {

/// Number of fixed-point units that stand for 1.0 of an observable's value.
/// Observables are carried as signed fixed-point numbers with 16 fractional
/// bits, so the quantum is 1/65536 and verified integer arithmetic replaces
/// machine floating point throughout the statistics.
pub const SCALE: i64 = 65536;

/// Largest magnitude, in fixed-point units, that a sample value may have and
/// still be consumed by an accumulator (2^39 - 1 units, about 2^23 — some
/// 8.4 million — in real value). The bound keeps every running sum of
/// samples and of squared samples inside 128-bit integers.
pub const RAW_MAX: i64 = 549755813887;

/// Largest number of samples a single accumulator keeps statistics over
/// (2^48). Together with `RAW_MAX` it guarantees that no intermediate
/// quantity of the mean or uncertainty computation can overflow.
pub const COUNT_CAP: u64 = 281474976710656;

/// One scalar measurement of a physical observable.
///
/// A measurement is either a number, held in fixed-point units of
/// 1/`SCALE`, or not-a-number, which stands for an undefined physics
/// evaluation (for instance a 0/0 in user measurement code). Accumulators
/// silently drop not-a-number samples instead of corrupting statistics.
#[derive(Clone, Copy, Debug, PartialEq, Eq, Structural)]
pub enum Scalar {
    /// An undefined measurement; dropped by accumulators.
    Nan,
    /// A finite measurement, in fixed-point units of 1/`SCALE`.
    Num(i64),
}

impl Scalar {
    /// Whether this scalar is the not-a-number marker.
    pub open spec fn is_nan_spec(self) -> bool {
        self is Nan
    }

    /// The fixed-point units of a numeric scalar; 0 for not-a-number.
    pub open spec fn raw_spec(self) -> int {
        match self {
            Scalar::Nan => 0,
            Scalar::Num(raw) => raw as int,
        }
    }

    /// Whether an accumulator consumes this scalar: it must be numeric and
    /// within the representable range of the statistics.
    pub open spec fn admissible(self) -> bool {
        match self {
            Scalar::Nan => false,
            Scalar::Num(raw) => -RAW_MAX <= raw <= RAW_MAX,
        }
    }

    /// The not-a-number scalar.
    pub fn nan() -> (r: Scalar)
        ensures
            r == Scalar::Nan,
    {
        Scalar::Nan
    }

    /// A numeric scalar of `raw` fixed-point units.
    pub fn num(raw: i64) -> (r: Scalar)
        ensures
            r == Scalar::Num(raw),
    {
        Scalar::Num(raw)
    }

    /// Whether this scalar is the not-a-number marker.
    pub fn is_nan(&self) -> (r: bool)
        ensures
            r == self.is_nan_spec(),
    {
        match self {
            Scalar::Nan => true,
            Scalar::Num(_) => false,
        }
    }

    /// Whether an accumulator would consume this scalar: callers that must
    /// not lose samples can test this before recording one.
    pub fn is_admissible(&self) -> (r: bool)
        ensures
            r == self.admissible(),
    {
        match self {
            Scalar::Nan => false,
            Scalar::Num(raw) => -RAW_MAX <= *raw && *raw <= RAW_MAX,
        }
    }

    /// The fixed-point units of a numeric scalar; 0 for not-a-number.
    pub fn raw(&self) -> (r: i64)
        ensures
            r as int == self.raw_spec(),
    {
        match self {
            Scalar::Nan => 0,
            Scalar::Num(raw) => *raw,
        }
    }
}

} // verus!

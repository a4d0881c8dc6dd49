use ergothic::accumulate::Acc;
use ergothic::scalar::{Scalar, RAW_MAX, SCALE};

fn fx(x: f64) -> Scalar {
    Scalar::num((x * SCALE as f64).round() as i64)
}

fn approx(s: Scalar, expected: f64, tolerance: f64) -> bool {
    assert!(!s.is_nan());
    let got = s.raw() as f64 / SCALE as f64;
    (got - expected).abs() <= tolerance
}

#[test]
fn empty_accumulator_reports_zero_samples_and_nan_uncertainty() {
    let acc = Acc::new();
    assert_eq!(acc.num_of_samples(), 0);
    assert!(acc.uncertainty().is_nan());
    assert!(!acc.value().is_nan());
    assert_eq!(acc.value().raw(), 0);
}

#[test]
fn mean_and_uncertainty_exact_fixed_point_values() {
    // Samples 1.0 and 3.0: mean is exactly 2.0 = 131072 units, and the
    // standard error of the mean is sqrt(((1 + 9)/2 - 4) / 2) = sqrt(1/2),
    // whose fixed-point floor is 46340 units.
    let mut acc = Acc::new();
    acc.consume(fx(1.0));
    acc.consume(fx(3.0));
    assert_eq!(acc.num_of_samples(), 2);
    assert_eq!(acc.value().raw(), 131072);
    assert_eq!(acc.uncertainty().raw(), 46340);
}

#[test]
fn value_is_arithmetic_mean_in_any_consumption_order() {
    let values = [1.0, 2.0, 3.0, 4.0];
    let mut forward = Acc::new();
    for v in values {
        forward.consume(fx(v));
    }
    let mut backward = Acc::new();
    for v in values.iter().rev() {
        backward.consume(fx(*v));
    }
    assert_eq!(forward.num_of_samples(), backward.num_of_samples());
    assert_eq!(forward.value(), backward.value());
    assert_eq!(forward.uncertainty(), backward.uncertainty());
    // mean 2.5; population sd sqrt(1.25); standard error sqrt(1.25/4).
    assert!(approx(forward.value(), 2.5, 1e-4));
    assert!(approx(forward.uncertainty(), (1.25f64 / 4.0).sqrt(), 1e-4));
}

#[test]
fn nan_values_are_silently_dropped() {
    let mut acc = Acc::new();
    acc.consume(fx(2.0));
    let value_before = acc.value();
    let uncertainty_before = acc.uncertainty();
    acc.consume(Scalar::nan());
    assert_eq!(acc.num_of_samples(), 1);
    assert_eq!(acc.value(), value_before);
    assert_eq!(acc.uncertainty(), uncertainty_before);
}

#[test]
fn out_of_range_values_are_dropped_like_nan() {
    let mut acc = Acc::new();
    assert!(Scalar::num(RAW_MAX).is_admissible());
    acc.consume(Scalar::num(RAW_MAX));
    assert_eq!(acc.num_of_samples(), 1);
    assert!(!Scalar::num(RAW_MAX + 1).is_admissible());
    assert!(!Scalar::nan().is_admissible());
    acc.consume(Scalar::num(RAW_MAX + 1));
    acc.consume(Scalar::num(-(RAW_MAX + 1)));
    assert_eq!(acc.num_of_samples(), 1);
    assert_eq!(acc.value().raw(), RAW_MAX);
}

#[test]
fn values_of_millions_are_representable() {
    // The representable magnitude reaches about 8.4 million in real
    // value: a sample of 8 million round-trips exactly.
    let mut acc = Acc::new();
    acc.consume(fx(8000000.0));
    acc.consume(fx(-2000000.0));
    assert_eq!(acc.num_of_samples(), 2);
    assert_eq!(acc.value().raw(), 3000000 * SCALE);
}

#[test]
fn merge_is_commutative_and_associative() {
    let left = [1.0, 2.0];
    let middle = [3.0];
    let right = [4.0, 5.5];

    let build = |values: &[f64]| {
        let mut acc = Acc::new();
        for v in values {
            acc.consume(fx(*v));
        }
        acc
    };

    // merge(A, merge(B, C))
    let mut bc = build(&middle);
    bc.merge(build(&right));
    let mut a_bc = build(&left);
    a_bc.merge(bc);

    // merge(merge(A, B), C)
    let mut ab = build(&left);
    ab.merge(build(&middle));
    let mut ab_c = ab;
    ab_c.merge(build(&right));

    // commuted: merge(merge(B, C), A)
    let mut bc2 = build(&middle);
    bc2.merge(build(&right));
    let mut bc_a = bc2;
    bc_a.merge(build(&left));

    // a from-scratch accumulator fed all values in one different order
    let mut scratch = Acc::new();
    for v in [5.5, 1.0, 4.0, 3.0, 2.0] {
        scratch.consume(fx(v));
    }

    for other in [&ab_c, &bc_a, &scratch] {
        assert_eq!(a_bc.num_of_samples(), other.num_of_samples());
        assert_eq!(a_bc.value(), other.value());
        assert_eq!(a_bc.uncertainty(), other.uncertainty());
    }
    assert_eq!(a_bc.num_of_samples(), 5);
    assert!(approx(a_bc.value(), 3.1, 1e-4));
}

#[test]
fn negative_values_round_toward_zero() {
    let mut acc = Acc::new();
    acc.consume(fx(-1.0));
    acc.consume(fx(-2.0));
    assert_eq!(acc.value().raw(), -(3 * SCALE) / 2);
    assert!(approx(acc.value(), -1.5, 1e-4));
}

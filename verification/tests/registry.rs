use ergothic::accumulate::Acc;
use ergothic::export::{interpret_insert_reply, snapshot_records};
use ergothic::measure::MeasureRegistry;
use ergothic::scalar::{Scalar, SCALE};

#[test]
fn duplicate_names_fail_and_distinct_names_get_distinct_handles() {
    let mut registry = MeasureRegistry::new();
    let first = registry.register("energy".to_string()).unwrap();
    assert!(registry.register("energy".to_string()).is_none());
    let second = registry.register("action".to_string()).unwrap();
    let third = registry.register("charge".to_string()).unwrap();
    assert_ne!(first, second);
    assert_ne!(first, third);
    assert_ne!(second, third);

    // Each handle resolves to an independently zero-initialized accumulator.
    let measures = registry.freeze();
    for idx in [first, second, third] {
        assert_eq!(measures.get(idx).acc.num_of_samples(), 0);
        assert!(measures.get(idx).acc.uncertainty().is_nan());
    }
    assert_eq!(measures.get(first).name, "energy");
    assert_eq!(measures.get(second).name, "action");
    assert_eq!(measures.get(third).name, "charge");
}

#[test]
fn find_reports_registered_names_only() {
    let mut registry = MeasureRegistry::new();
    let idx = registry.register("plaquette".to_string()).unwrap();
    assert_eq!(registry.find(&"plaquette".to_string()), Some(idx));
    assert_eq!(registry.find(&"wilson loop".to_string()), None);
}

#[test]
fn reset_clears_statistics_but_keeps_names_and_handles() {
    let mut registry = MeasureRegistry::new();
    let a = registry.register("a".to_string()).unwrap();
    let b = registry.register("b".to_string()).unwrap();
    let mut measures = registry.freeze();
    measures.accumulate(a, Scalar::num(3 * SCALE));
    measures.accumulate(a, Scalar::num(5 * SCALE));
    measures.accumulate(b, Scalar::num(-SCALE));
    assert_eq!(measures.get(a).acc.num_of_samples(), 2);
    assert_eq!(measures.get(b).acc.num_of_samples(), 1);

    measures.reset();
    assert_eq!(measures.get(a).acc.num_of_samples(), 0);
    assert_eq!(measures.get(b).acc.num_of_samples(), 0);
    assert_eq!(measures.get(a).name, "a");
    assert_eq!(measures.get(b).name, "b");

    // Handles remain valid and distinguishable after the reset.
    measures.accumulate(a, Scalar::num(7 * SCALE));
    assert_eq!(measures.get(a).acc.num_of_samples(), 1);
    assert_eq!(measures.get(b).acc.num_of_samples(), 0);
    assert_eq!(measures.get(a).acc.value().raw(), 7 * SCALE);
}

#[test]
fn accumulator_gives_direct_mutable_access() {
    let mut registry = MeasureRegistry::new();
    let idx = registry.register("x".to_string()).unwrap();
    let mut other = Acc::new();
    other.consume(Scalar::num(2 * SCALE));
    other.consume(Scalar::num(4 * SCALE));
    registry.accumulator(idx).merge(other);
    assert_eq!(registry.measures().get(idx).acc.num_of_samples(), 2);
    assert_eq!(registry.measures().get(idx).acc.value().raw(), 3 * SCALE);
}

#[test]
fn absorb_aggregates_snapshots_by_name() {
    let mut setup = MeasureRegistry::new();
    let x = setup.register("x".to_string()).unwrap();
    let y = setup.register("y".to_string()).unwrap();
    let mut snapshot = setup.freeze();
    snapshot.accumulate(x, Scalar::num(SCALE));
    snapshot.accumulate(x, Scalar::num(3 * SCALE));
    snapshot.accumulate(y, Scalar::num(10 * SCALE));

    let mut aggregate = MeasureRegistry::new();
    let samples = aggregate.absorb(&snapshot);
    assert_eq!(samples, 1);

    // Absorbing the same snapshot again merges by name instead of
    // registering anew.
    let samples = aggregate.absorb(&snapshot);
    assert_eq!(samples, 2);
    let ax = aggregate.find(&"x".to_string()).unwrap();
    let ay = aggregate.find(&"y".to_string()).unwrap();
    assert_eq!(aggregate.measures().get(ax).acc.num_of_samples(), 4);
    assert_eq!(aggregate.measures().get(ax).acc.value().raw(), 2 * SCALE);
    assert_eq!(aggregate.measures().get(ay).acc.num_of_samples(), 2);
    assert_eq!(aggregate.measures().get(ay).acc.value().raw(), 10 * SCALE);
}

#[test]
fn absorb_one_merges_into_the_matching_name() {
    let mut setup = MeasureRegistry::new();
    let x = setup.register("x".to_string()).unwrap();
    let mut snapshot = setup.freeze();
    snapshot.accumulate(x, Scalar::num(6 * SCALE));

    let mut aggregate = MeasureRegistry::new();
    aggregate.register("other".to_string()).unwrap();

    // A new name is registered at the end and receives the samples.
    let into = aggregate.absorb_one(snapshot.get(x));
    assert_eq!(aggregate.measures().get(into).name, "x");
    assert_eq!(aggregate.measures().get(into).acc.num_of_samples(), 1);

    // A known name is merged into, not registered again.
    let again = aggregate.absorb_one(snapshot.get(x));
    assert_eq!(again, into);
    assert_eq!(aggregate.measures().len(), 2);
    assert_eq!(aggregate.measures().get(into).acc.num_of_samples(), 2);
    assert_eq!(aggregate.measures().get(into).acc.value().raw(), 6 * SCALE);
}

#[test]
fn snapshot_records_carry_the_record_shape() {
    let mut registry = MeasureRegistry::new();
    let idx = registry.register("mean".to_string()).unwrap();
    registry.register("mean2".to_string()).unwrap();
    let mut measures = registry.freeze();
    measures.accumulate(idx, Scalar::num(SCALE));
    measures.accumulate(idx, Scalar::num(3 * SCALE));

    let records = snapshot_records(&measures);
    assert_eq!(records.len(), 2);
    assert_eq!(records[0].name, "mean");
    assert_eq!(records[0].num_of_samples, 2);
    assert_eq!(records[0].value.raw(), 2 * SCALE);
    // standard error sqrt(((1 + 9)/2 - 4) / 2) = sqrt(1/2), floored in
    // fixed point to 46340 units
    assert_eq!(records[0].uncertainty.raw(), 46340);
    assert_eq!(records[1].name, "mean2");
    assert_eq!(records[1].num_of_samples, 0);
    assert!(records[1].uncertainty.is_nan());
}

#[test]
fn insert_reply_interpretation() {
    assert!(interpret_insert_reply(true, Some("id".to_string())).is_ok());

    let no_ack = interpret_insert_reply(false, Some("id".to_string()));
    assert_eq!(
        no_ack.unwrap_err().0,
        "MongoDB did not acknowledge measurements."
    );

    let no_id = interpret_insert_reply(true, None);
    assert_eq!(no_id.unwrap_err().0, "MongoDB didn't return a new object ID.");
}

use ergothic::export::{ExportError, Exporter};
use ergothic::measure::Measures;
use ergothic::simulation::{flush_interval_bounds, next_flush_interval, FatalError};
use ergothic::startup::{construct_parameters, StartupOptions};

struct NullExporter;

impl Exporter for NullExporter {
    fn export(&mut self, _measures: &Measures) -> Result<(), ExportError> {
        Ok(())
    }
}

fn options(
    production_mode: bool,
    flush_interval_secs: Option<u64>,
    flush_randomization_millis: u64,
) -> StartupOptions {
    StartupOptions {
        production_mode,
        flush_interval_secs,
        flush_randomization_millis,
        max_export_errors_in_row: None,
    }
}

#[test]
fn zero_randomization_pins_the_interval() {
    assert_eq!(flush_interval_bounds(10, 0), (10, 10));
    for _ in 0..100 {
        assert_eq!(next_flush_interval(10, 0), 10);
    }
}

#[test]
fn quarter_randomization_rounds_the_lower_bound() {
    // base 10, randomization 0.25: the real range is [7.5, 12.5]; the
    // lower bound rounds up to 8 and the upper bound stays within at 12.
    assert_eq!(flush_interval_bounds(10, 250), (8, 12));
}

#[test]
fn half_randomization_spans_half_to_one_and_a_half() {
    assert_eq!(flush_interval_bounds(10, 500), (5, 15));
    for _ in 0..200 {
        let drawn = next_flush_interval(10, 500);
        assert!((5..=15).contains(&drawn));
    }
}

#[test]
fn intervals_are_floored_at_one_time_unit() {
    assert_eq!(flush_interval_bounds(0, 0), (1, 1));
    assert_eq!(flush_interval_bounds(1, 999), (1, 1));
    assert_eq!(next_flush_interval(0, 500), 1);
}

#[test]
fn default_flush_intervals_depend_on_the_mode() {
    let measures = Measures::new_empty();
    let params = construct_parameters("s".to_string(), measures, NullExporter, options(true, None, 0))
        .unwrap();
    assert_eq!(params.flush_interval_secs, 300);

    let params = construct_parameters(
        "s".to_string(),
        Measures::new_empty(),
        NullExporter,
        options(false, None, 0),
    )
    .unwrap();
    assert_eq!(params.flush_interval_secs, 2);

    let params = construct_parameters(
        "s".to_string(),
        Measures::new_empty(),
        NullExporter,
        options(true, Some(42), 250),
    )
    .unwrap();
    assert_eq!(params.flush_interval_secs, 42);
    assert_eq!(params.flush_randomization_millis, 250);
}

#[test]
fn out_of_range_randomization_is_a_fatal_setup_error() {
    let result = construct_parameters(
        "s".to_string(),
        Measures::new_empty(),
        NullExporter,
        options(false, Some(10), 1000),
    );
    match result {
        Err(FatalError::InvalidRandomization { millis }) => assert_eq!(millis, 1000),
        _ => panic!("randomization of 1000 thousandths must be rejected"),
    }
}

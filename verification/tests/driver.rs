use std::cell::RefCell;
use std::rc::Rc;

use ergothic::export::{ExportError, Exporter};
use ergothic::measure::{MeasureIdx, Measures};
use ergothic::scalar::Scalar;
use ergothic::simulation::{apply_export_outcome, run_cycle, Driver, FatalError, Measurer, Sample};
use ergothic::startup::StartupOptions;
use ergothic::Simulation;

struct CounterSample {
    steps: u64,
}

impl Sample for CounterSample {
    fn prepare() -> CounterSample {
        CounterSample { steps: 0 }
    }

    fn mutate(&mut self) {
        self.steps = self.steps.wrapping_add(1);
    }
}

struct StepMeasurer {
    handle: MeasureIdx,
}

impl Measurer<CounterSample> for StepMeasurer {
    fn measure(&self, _sample: &CounterSample, measures: &mut Measures) {
        measures.accumulate(self.handle, Scalar::num(1));
    }
}

/// A sink that always fails, recording the sample count it saw on every
/// attempt.
struct FailingExporter {
    seen_counts: Rc<RefCell<Vec<u64>>>,
}

impl Exporter for FailingExporter {
    fn export(&mut self, measures: &Measures) -> Result<(), ExportError> {
        let count = measures.slice()[0].acc.num_of_samples();
        self.seen_counts.borrow_mut().push(count);
        Err(ExportError("sink unreachable".to_string()))
    }
}

#[test]
fn default_thermalization_mutates_twenty_times() {
    let mut sample = CounterSample::prepare();
    sample.thermalize();
    assert_eq!(sample.steps, 20);
}

#[test]
fn export_outcomes_reset_or_keep_the_statistics() {
    let mut registry = ergothic::measure::MeasureRegistry::new();
    let handle = registry.register("m".to_string()).unwrap();
    let mut measures = registry.freeze();
    measures.accumulate(handle, Scalar::num(5));
    measures.accumulate(handle, Scalar::num(7));

    // A failed export keeps the statistics and counts the failure.
    let mut errors: u64 = 1;
    let abort = apply_export_outcome(&mut measures, &mut errors, Some(3), false);
    assert!(!abort);
    assert_eq!(errors, 2);
    assert_eq!(measures.get(handle).acc.num_of_samples(), 2);

    // The failure that reaches the cap aborts, still keeping the data.
    let abort = apply_export_outcome(&mut measures, &mut errors, Some(3), false);
    assert!(abort);
    assert_eq!(errors, 3);
    assert_eq!(measures.get(handle).acc.num_of_samples(), 2);

    // A successful export resets both the counter and the accumulators:
    // exported data points are not cumulative across flushes.
    let abort = apply_export_outcome(&mut measures, &mut errors, Some(3), true);
    assert!(!abort);
    assert_eq!(errors, 0);
    assert_eq!(measures.get(handle).acc.num_of_samples(), 0);
    assert_eq!(measures.get(handle).name, "m");
}

#[test]
fn failure_escalation_aborts_on_the_third_consecutive_failure() {
    let seen = Rc::new(RefCell::new(Vec::new()));

    let mut simulation = Simulation::new("escalation".to_string());
    let handle = simulation.add_measure("steps".to_string()).unwrap();

    let exporter = FailingExporter { seen_counts: seen.clone() };
    let options = StartupOptions {
        production_mode: false,
        flush_interval_secs: Some(1),
        flush_randomization_millis: 0,
        max_export_errors_in_row: Some(3),
    };
    let parameters = simulation.prepare_run(exporter, options).unwrap();
    let (mut driver, mut measures) = Driver::start(parameters);

    let mut sample = CounterSample::prepare();
    sample.thermalize();
    let measurer = StepMeasurer { handle };

    let fatal = loop {
        if let Some(fatal) = run_cycle(&mut driver, &mut sample, &measurer, &mut measures) {
            break fatal;
        }
    };
    assert!(matches!(fatal, FatalError::TooManyExportFailures { limit: 3 }));

    // The sink saw exactly three attempts, and the accumulated sample
    // counts never went down: failed exports never reset the accumulators.
    let counts = seen.borrow();
    assert_eq!(counts.len(), 3);
    assert!(counts[0] <= counts[1]);
    assert!(counts[1] <= counts[2]);
    assert!(counts[0] >= 1);
}

use ergothic::export::{ExportError, Exporter};
use ergothic::measure::{MeasureIdx, Measures};
use ergothic::scalar::{Scalar, SCALE};
use ergothic::simulation::{run_cycle, Driver, Measurer, Sample};
use ergothic::startup::StartupOptions;
use ergothic::Simulation;

fn fx(x: f64) -> Scalar {
    Scalar::num((x * SCALE as f64).round() as i64)
}

fn as_f64(s: Scalar) -> f64 {
    assert!(!s.is_nan());
    s.raw() as f64 / SCALE as f64
}

/// One degree of freedom drawn uniformly from [0, 1] on every mutation.
struct UniformSample {
    x: f64,
}

impl Sample for UniformSample {
    fn prepare() -> UniformSample {
        UniformSample { x: 0.0 }
    }

    fn mutate(&mut self) {
        self.x = rand::random_range(0.0..=1.0);
    }
}

struct PowerMeasurer {
    mean: MeasureIdx,
    mean2: MeasureIdx,
}

impl Measurer<UniformSample> for PowerMeasurer {
    fn measure(&self, sample: &UniformSample, measures: &mut Measures) {
        measures.accumulate(self.mean, fx(sample.x));
        measures.accumulate(self.mean2, fx(sample.x * sample.x));
    }
}

struct NeverCalledExporter;

impl Exporter for NeverCalledExporter {
    fn export(&mut self, _measures: &Measures) -> Result<(), ExportError> {
        Ok(())
    }
}

#[test]
fn uniform_stream_converges_to_half_and_third() {
    let mut simulation = Simulation::new("powers of x".to_string());
    let mean = simulation.add_measure("mean".to_string()).unwrap();
    let mean2 = simulation.add_measure("mean2".to_string()).unwrap();

    let options = StartupOptions {
        production_mode: false,
        // far beyond the duration of this test: no export happens, so no
        // reset disturbs the accumulated statistics
        flush_interval_secs: Some(3600),
        flush_randomization_millis: 0,
        max_export_errors_in_row: None,
    };
    let parameters = simulation
        .prepare_run(NeverCalledExporter, options)
        .unwrap();
    let (mut driver, mut measures) = Driver::start(parameters);

    let mut sample = UniformSample::prepare();
    sample.thermalize();
    let measurer = PowerMeasurer { mean, mean2 };

    let early_cycles: u64 = 10_000;
    let total_cycles: u64 = 200_000;
    for _ in 0..early_cycles {
        assert!(run_cycle(&mut driver, &mut sample, &measurer, &mut measures).is_none());
    }
    let early_uncertainty = as_f64(measures.get(mean).acc.uncertainty());
    for _ in 0..total_cycles - early_cycles {
        assert!(run_cycle(&mut driver, &mut sample, &measurer, &mut measures).is_none());
    }

    let mean_acc = &measures.get(mean).acc;
    let mean2_acc = &measures.get(mean2).acc;
    assert_eq!(mean_acc.num_of_samples(), total_cycles);
    assert_eq!(mean2_acc.num_of_samples(), total_cycles);
    assert!((as_f64(mean_acc.value()) - 0.5).abs() < 0.01);
    assert!((as_f64(mean2_acc.value()) - 1.0 / 3.0).abs() < 0.01);

    // The uncertainty shrinks roughly as 1/sqrt(n): between 10k and 200k
    // samples it should fall by about sqrt(20), and it must stay within a
    // factor of two of the expected standard error of a uniform variable,
    // sd/sqrt(n) with sd = sqrt(1/12).
    let late_uncertainty = as_f64(mean_acc.uncertainty());
    assert!(late_uncertainty < early_uncertainty);
    let expected = (1.0f64 / 12.0).sqrt() / (total_cycles as f64).sqrt();
    assert!(late_uncertainty > expected / 2.0);
    assert!(late_uncertainty < expected * 2.0);
}

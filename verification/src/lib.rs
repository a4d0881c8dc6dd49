//! A small orchestration runtime for ergodic statistical simulations.
//!
//! A simulation repeatedly mutates a configuration sample, measures physical
//! observables on it, accumulates the measurements into running statistics,
//! and periodically flushes the accumulated statistics to a data sink. The
//! crate provides the online statistical accumulator, the named-measure
//! registry, and the simulation driver with its randomized export cadence
//! and bounded-retry failure policy, all with verified contracts. Observable
//! values are carried as fixed-point scalars (see [`scalar::Scalar`]), so
//! the statistics are plain integer arithmetic that the verifier can reason
//! about exactly.

use vstd::prelude::*;

/// The fixed-point scalar that carries one measured value.
pub mod scalar;

/// The online accumulator of running statistics for one observable.
pub mod accumulate;

/// Named measures, their handles, and the two-phase measure registry.
pub mod measure;

/// Exporters: the data-sink interface and the exported record shape.
pub mod export;

/// The simulation driver: capabilities, parameters, scheduling, and the
/// per-iteration run cycle.
pub mod simulation;

/// Resolving startup configuration into driver parameters.
pub mod startup;

pub use measure::MeasureIdx;
pub use scalar::Scalar;
pub use simulation::Sample;

use export::Exporter;
use measure::{contains_name, Measure, MeasureRegistry};
use simulation::{FatalError, Parameters};
use startup::StartupOptions;

verus! {

/// The public face of a simulation's setup phase: holds the measure
/// registry while user code declares its observables, then resolves into
/// the parameters the driver runs with.
pub struct Simulation {
    name: String,
    measure_registry: MeasureRegistry,
}

impl Simulation {
    /// The simulation's name.
    pub closed spec fn spec_name(&self) -> Seq<char> {
        self.name@
    }

    /// The measures registered so far, in registration order.
    pub closed spec fn spec_measures(&self) -> Seq<Measure> {
        self.measure_registry@
    }

    /// Constructs a new simulation with no measures registered.
    pub fn new(name: String) -> (sim: Simulation)
        ensures
            sim.spec_name() == name@,
            sim.spec_measures() == Seq::<Measure>::empty(),
    {
        Simulation { name, measure_registry: MeasureRegistry::new() }
    }

    /// Registers a measure in the underlying registry and returns its
    /// positional handle, safely wrapped in the `MeasureIdx` type; `None`
    /// if the name was already registered, which indicates a setup bug.
    pub fn add_measure(&mut self, name: String) -> (issued: Option<MeasureIdx>)
        ensures
            final(self).spec_name() == old(self).spec_name(),
            contains_name(old(self).spec_measures(), name@) ==> final(self).spec_measures()
                == old(self).spec_measures() && issued is None,
            !contains_name(old(self).spec_measures(), name@) ==> {
                &&& issued matches Some(idx)
                &&& idx.spec_index() == old(self).spec_measures().len()
                &&& final(self).spec_measures().len() == old(self).spec_measures().len() + 1
                &&& (forall|j: int| 0 <= j < old(self).spec_measures().len()
                    ==> #[trigger] final(self).spec_measures()[j]
                        == old(self).spec_measures()[j])
                &&& final(self).spec_measures()[old(self).spec_measures().len() as int].name@
                    == name@
                &&& final(self).spec_measures()[old(self).spec_measures().len() as int].acc@
                    == Seq::<int>::empty()
            },
    {
        self.measure_registry.register(name)
    }

    /// Ends the setup phase: freezes the registry — handles issued by
    /// `add_measure` keep indexing the same measures — and resolves the
    /// startup configuration into the parameters the driver runs with. An
    /// invalid configuration is a fatal startup error.
    pub fn prepare_run<E: Exporter>(self, exporter: E, options: StartupOptions) -> (result:
        Result<Parameters<E>, FatalError>)
        ensures
            options.flush_randomization_millis >= 1000 ==> (result matches Err(fatal)
                && fatal == (FatalError::InvalidRandomization {
                millis: options.flush_randomization_millis,
            })),
            options.flush_randomization_millis < 1000 ==> (result matches Ok(parameters) && {
                &&& parameters.name@ == self.spec_name()
                &&& parameters.measures@ == self.spec_measures()
                &&& parameters.flush_interval_secs as int == (match options.flush_interval_secs {
                    Some(secs) => secs as int,
                    None => startup::spec_default_flush_interval(options.production_mode),
                })
                &&& parameters.flush_randomization_millis == options.flush_randomization_millis
                &&& parameters.max_export_errors_in_row == options.max_export_errors_in_row
            }),
    {
        let Simulation { name, measure_registry } = self;
        startup::construct_parameters(name, measure_registry.freeze(), exporter, options)
    }
}

} // verus!

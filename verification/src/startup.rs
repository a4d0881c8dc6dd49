use vstd::prelude::*;

use crate::export::Exporter;
use crate::measure::Measures;
use crate::simulation::{FatalError, Parameters};

verus! {

/// The resolved configuration surface of a simulation binary, as an
/// external startup layer (command-line flags, environment) hands it over:
/// which mode to run in, the export cadence, and the failure cap. How
/// these values are parsed is out of scope; they only need to be resolved
/// into this shape before a run is constructed.
#[derive(Clone, Copy, Debug)]
pub struct StartupOptions {
    /// Whether this is a production run. Production runs default to a
    /// much longer flush interval than development runs.
    pub production_mode: bool,
    /// Requested interval between flushes of the measured values, in time
    /// units (seconds); `None` picks the mode's default.
    pub flush_interval_secs: Option<u64>,
    /// Requested randomization of the flush interval, in thousandths of
    /// the base interval. Values of 1000 or above (a fraction outside
    /// [0, 1)) are rejected as a configuration error.
    pub flush_randomization_millis: u64,
    /// Abort the run after this many export errors in a row; `None`
    /// tolerates failures indefinitely.
    pub max_export_errors_in_row: Option<u64>,
}

/// The flush interval used when none is requested: production runs flush
/// every 5 minutes, development runs every 2 seconds.
pub open spec fn spec_default_flush_interval(production_mode: bool) -> int {
    if production_mode {
        300
    } else {
        2
    }
}

/// Resolves the startup configuration into the parameters the driver
/// runs with. An invalid randomization fraction is a deployment mistake
/// that retrying cannot fix, so it is rejected as a fatal error; every
/// other option resolves exactly as requested, with the mode's default
/// flush interval filled in where none was given.
pub fn construct_parameters<E: Exporter>(
    name: String,
    measures: Measures,
    exporter: E,
    options: StartupOptions,
) -> (result: Result<Parameters<E>, FatalError>)
    ensures
        options.flush_randomization_millis >= 1000 ==> (result matches Err(fatal)
            && fatal == (FatalError::InvalidRandomization {
            millis: options.flush_randomization_millis,
        })),
        options.flush_randomization_millis < 1000 ==> (result matches Ok(parameters) && {
            &&& parameters.name == name
            &&& parameters.measures == measures
            &&& parameters.flush_interval_secs as int == (match options.flush_interval_secs {
                Some(secs) => secs as int,
                None => spec_default_flush_interval(options.production_mode),
            })
            &&& parameters.flush_randomization_millis == options.flush_randomization_millis
            &&& parameters.max_export_errors_in_row == options.max_export_errors_in_row
        }),
{
    if options.flush_randomization_millis >= 1000 {
        return Err(FatalError::InvalidRandomization {
            millis: options.flush_randomization_millis,
        });
    }
    let flush_interval_secs = match options.flush_interval_secs {
        Some(secs) => secs,
        None => {
            if options.production_mode {
                300
            } else {
                2
            }
        }
    };
    Ok(Parameters {
        name,
        measures,
        exporter,
        flush_interval_secs,
        flush_randomization_millis: options.flush_randomization_millis,
        max_export_errors_in_row: options.max_export_errors_in_row,
    })
}

} // verus!

use vstd::prelude::*;

use crate::accumulate::{spec_uncertainty, spec_value};
use crate::measure::Measures;
use crate::scalar::Scalar;

verus! {

/// An error returned by an exporter: a string describing the cause.
/// Export failures are recoverable — the driver counts them and retries on
/// the next cycle — so they are reported as values, never by aborting.
#[derive(Debug)]
pub struct ExportError(pub String);

/// An interface to a data sink accepting accumulated expectation values.
///
/// Implemented by external collaborators (a networked document store, a
/// console printer, a test double) and invoked exclusively by the driver.
/// One call receives a read-only snapshot of all measures; it must not
/// retain the borrow, and it does not reset the accumulated values — that
/// is the driver's job, and only after a successful export.
pub trait Exporter {
    /// Performs a single export operation.
    fn export(&mut self, measures: &Measures) -> Result<(), ExportError>;
}

/// One measure of an exported snapshot, reduced to plain values: the
/// observable's name, how many samples were accumulated, the mean, and the
/// statistical uncertainty of the mean. A sink can fully reconstruct or
/// further merge the statistics downstream from these records.
pub struct ExportRecord {
    /// The observable's registered name.
    pub name: String,
    /// Number of samples the statistics were accumulated over.
    pub num_of_samples: u64,
    /// The accumulated mean, in fixed-point units.
    pub value: Scalar,
    /// The standard error of the mean, in fixed-point units;
    /// not-a-number when no samples were accumulated.
    pub uncertainty: Scalar,
}

/// Reduces a collection of measures to the per-measure records an export
/// carries, in registration order.
pub fn snapshot_records(measures: &Measures) -> (records: Vec<ExportRecord>)
    ensures
        records@.len() == measures@.len(),
        forall|j: int| 0 <= j < measures@.len() ==> {
            &&& (#[trigger] records@[j]).name == measures@[j].name
            &&& records@[j].num_of_samples == measures@[j].acc@.len()
            &&& records@[j].value == spec_value(measures@[j].acc@)
            &&& records@[j].uncertainty == spec_uncertainty(measures@[j].acc@)
        },
{
    let slice = measures.slice();
    let n = slice.len();
    let mut records: Vec<ExportRecord> = Vec::new();
    let mut i: usize = 0;
    while i < n
        invariant
            n == measures@.len(),
            slice@ == measures@,
            i <= n,
            records@.len() == i,
            forall|j: int| 0 <= j < i ==> {
                &&& (#[trigger] records@[j]).name == measures@[j].name
                &&& records@[j].num_of_samples == measures@[j].acc@.len()
                &&& records@[j].value == spec_value(measures@[j].acc@)
                &&& records@[j].uncertainty == spec_uncertainty(measures@[j].acc@)
            },
        decreases n - i,
    {
        let m = &slice[i];
        records.push(ExportRecord {
            name: m.name.clone(),
            num_of_samples: m.acc.num_of_samples(),
            value: m.acc.value(),
            uncertainty: m.acc.uncertainty(),
        });
        i += 1;
    }
    records
}

/// The decision a document-store exporter takes on the sink's reply to an
/// insert: only an acknowledged write that returned the new document's
/// identifier counts as a successful export; anything else is a reported,
/// recoverable failure.
pub fn interpret_insert_reply(acknowledged: bool, inserted_id: Option<String>) -> (res: Result<
    (),
    ExportError,
>)
    ensures
        res is Ok <==> acknowledged && inserted_id is Some,
        !acknowledged ==> (res matches Err(e)
            && e.0@ == "MongoDB did not acknowledge measurements."@),
        acknowledged && inserted_id is None ==> (res matches Err(e)
            && e.0@ == "MongoDB didn't return a new object ID."@),
{
    if !acknowledged {
        Err(ExportError("MongoDB did not acknowledge measurements.".to_owned()))
    } else if inserted_id.is_none() {
        Err(ExportError("MongoDB didn't return a new object ID.".to_owned()))
    } else {
        Ok(())
    }
}

} // verus!

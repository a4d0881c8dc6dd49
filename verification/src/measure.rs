use vstd::prelude::*;

use crate::accumulate::{spec_consume, Acc};
use crate::scalar::COUNT_CAP;
use crate::scalar::Scalar;

verus! {

/// Represents a physical observable. Measuring expectation values of
/// observables is the purpose of a simulation: every measured value of the
/// observable is handed to the accumulator under the observable's name.
pub struct Measure {
    /// The human-readable name given to the observable, assigned once at
    /// registration.
    pub name: String,
    /// The accumulator consuming the values measured for this observable.
    pub acc: Acc,
}

/// A thin wrapper around the positional index of a measure in a measure
/// collection. User code refers to measures through these copyable handles
/// instead of by name, so the hot loop never looks strings up. A handle is
/// only meaningful for the collection family it was issued from.
#[derive(Clone, Copy, Debug, PartialEq, Eq, Structural)]
pub struct MeasureIdx(usize);

impl MeasureIdx {
    /// The position this handle points at.
    pub closed spec fn spec_index(self) -> int {
        self.0 as int
    }
}

/// Whether some measure of `s` carries the name `name`.
pub open spec fn contains_name(s: Seq<Measure>, name: Seq<char>) -> bool {
    exists|i: int| 0 <= i < s.len() && #[trigger] s[i].name@ == name
}

/// The measures of `s` carry pairwise distinct names, as the measures of a
/// frozen registry always do.
pub open spec fn distinct_names(s: Seq<Measure>) -> bool {
    forall|i: int, j: int| 0 <= i < j < s.len()
        ==> (#[trigger] s[i].name@) != (#[trigger] s[j].name@)
}

/// `w` is the position of the first measure of `s` named `name`.
pub open spec fn first_match(s: Seq<Measure>, name: Seq<char>, w: int) -> bool {
    &&& 0 <= w < s.len()
    &&& s[w].name@ == name
    &&& forall|j: int| 0 <= j < w ==> (#[trigger] s[j]).name@ != name
}

/// What absorbing the reported measure `m` into a registry that held
/// `before` leaves at position `w`, the first position carrying m's name
/// afterwards: an aggregate already registered under the name has its
/// history grown by m's history, or kept as it was where the merge would
/// exceed the accumulator's capacity; a new name is registered at the end
/// and holds exactly m's history.
pub open spec fn merged_history(before: Seq<Measure>, m: Measure, after: Seq<Measure>, w: int) -> bool {
    if contains_name(before, m.name@) {
        &&& 0 <= w < before.len()
        &&& after[w].acc@ == (if before[w].acc@.len() + m.acc@.len() <= COUNT_CAP {
            before[w].acc@ + m.acc@
        } else {
            before[w].acc@
        })
    } else {
        &&& before.len() <= w
        &&& after[w].acc@ == m.acc@
    }
}

/// The reported measure `m` has been absorbed: the first aggregate
/// carrying its name in `after` holds the merged history relative to
/// `before` (see `merged_history`).
pub open spec fn absorbed_into(before: Seq<Measure>, m: Measure, after: Seq<Measure>) -> bool {
    exists|w: int| first_match(after, m.name@, w) && merged_history(before, m, after, w)
}

/// A collection of physical observables with their accumulated statistics.
/// Its shape is frozen: measures are registered through `MeasureRegistry`
/// and the handles issued there index this collection directly.
pub struct Measures {
    measures: Vec<Measure>,
}

impl View for Measures {
    type V = Seq<Measure>;

    closed spec fn view(&self) -> Seq<Measure> {
        self.measures@
    }
}

impl Measures {
    /// Constructs an empty collection of measures.
    pub fn new_empty() -> (ms: Measures)
        ensures
            ms@ == Seq::<Measure>::empty(),
    {
        Measures { measures: Vec::new() }
    }

    /// Returns an immutable slice of the registered measures, in
    /// registration order: what an exporter walks to build its snapshot.
    pub fn slice(&self) -> (s: &[Measure])
        ensures
            s@ == self@,
    {
        self.measures.as_slice()
    }

    /// The number of registered measures.
    pub fn len(&self) -> (n: usize)
        ensures
            n == self@.len(),
    {
        self.measures.len()
    }

    /// Returns an immutable reference to the measure pointed to by `idx`.
    pub fn get(&self, idx: MeasureIdx) -> (m: &Measure)
        requires
            0 <= idx.spec_index() < self@.len(),
        ensures
            *m == self@[idx.spec_index()],
    {
        &self.measures[idx.0]
    }

    /// Resets the accumulators of all measures, forgetting every recorded
    /// sample while keeping all names and handles valid.
    pub fn reset(&mut self)
        ensures
            final(self)@.len() == old(self)@.len(),
            forall|j: int| 0 <= j < old(self)@.len() ==> #[trigger] final(self)@[j].name
                == old(self)@[j].name,
            forall|j: int| 0 <= j < old(self)@.len() ==> #[trigger] final(self)@[j].acc@
                == Seq::<int>::empty(),
    {
        let n = self.measures.len();
        let mut fresh: Vec<Measure> = Vec::new();
        let mut i: usize = 0;
        while i < n
            invariant
                n == self.measures@.len(),
                self.measures@ == old(self).measures@,
                i <= n,
                fresh@.len() == i,
                forall|j: int| 0 <= j < i ==> #[trigger] fresh@[j].name
                    == self.measures@[j].name,
                forall|j: int| 0 <= j < i ==> #[trigger] fresh@[j].acc@
                    == Seq::<int>::empty(),
            decreases n - i,
        {
            let name = self.measures[i].name.clone();
            fresh.push(Measure { name, acc: Acc::new() });
            i += 1;
        }
        self.measures = fresh;
    }

    /// Returns a mutable reference to the accumulator of the measure
    /// pointed to by `idx`, for direct manipulation such as merging in
    /// another accumulator. Everything else in the collection stays as it
    /// was.
    pub fn accumulator(&mut self, idx: MeasureIdx) -> (acc: &mut Acc)
        requires
            0 <= idx.spec_index() < old(self)@.len(),
        ensures
            *acc == old(self)@[idx.spec_index()].acc,
            final(self)@.len() == old(self)@.len(),
            forall|j: int| 0 <= j < old(self)@.len() && j != idx.spec_index()
                ==> #[trigger] final(self)@[j] == old(self)@[j],
            final(self)@[idx.spec_index()].name == old(self)@[idx.spec_index()].name,
            final(self)@[idx.spec_index()].acc == *final(acc),
    {
        &mut self.measures[idx.0].acc
    }

    /// Shorthand for `self.accumulator(idx).consume(value)`: records one
    /// measured value of the observable pointed to by `idx`.
    pub fn accumulate(&mut self, idx: MeasureIdx, value: Scalar)
        requires
            0 <= idx.spec_index() < old(self)@.len(),
        ensures
            final(self)@.len() == old(self)@.len(),
            forall|j: int| 0 <= j < old(self)@.len() && j != idx.spec_index()
                ==> #[trigger] final(self)@[j] == old(self)@[j],
            final(self)@[idx.spec_index()].name == old(self)@[idx.spec_index()].name,
            final(self)@[idx.spec_index()].acc@
                == spec_consume(old(self)@[idx.spec_index()].acc@, value),
    {
        self.accumulator(idx).consume(value);
    }
}

/// The registration phase of a measure collection: user setup code
/// registers each observable by name exactly once, receives a stable
/// handle for it, and finally freezes the registry into the `Measures`
/// collection the simulation runs with.
pub struct MeasureRegistry {
    measures: Measures,
}

impl View for MeasureRegistry {
    type V = Seq<Measure>;

    closed spec fn view(&self) -> Seq<Measure> {
        self.measures@
    }
}

impl MeasureRegistry {
    /// Constructs an empty registry.
    pub fn new() -> (reg: MeasureRegistry)
        ensures
            reg@ == Seq::<Measure>::empty(),
    {
        MeasureRegistry { measures: Measures::new_empty() }
    }

    /// Returns an immutable reference to the collection of measures
    /// registered so far.
    pub fn measures(&self) -> (ms: &Measures)
        ensures
            ms@ == self@,
    {
        &self.measures
    }

    /// Looks a measure up by its name. Returns the handle of the first
    /// measure registered under it, or `None` if no measure of that name
    /// has been registered.
    pub fn find(&self, name: &String) -> (found: Option<MeasureIdx>)
        ensures
            match found {
                Some(idx) => 0 <= idx.spec_index() < self@.len()
                    && self@[idx.spec_index()].name@ == name@
                    && (forall|j: int| 0 <= j < idx.spec_index()
                        ==> #[trigger] self@[j].name@ != name@),
                None => !contains_name(self@, name@),
            },
    {
        let n = self.measures.len();
        let mut i: usize = 0;
        while i < n
            invariant
                n == self@.len(),
                i <= n,
                forall|j: int| 0 <= j < i ==> #[trigger] self@[j].name@ != name@,
            decreases n - i,
        {
            if self.measures.get(MeasureIdx(i)).name == *name {
                return Some(MeasureIdx(i));
            }
            i += 1;
        }
        None
    }

    /// Registers a new measure under `name` with a fresh, empty
    /// accumulator, and returns its handle: the next position in the
    /// collection. Duplicate names indicate a setup bug, so if `name` is
    /// already registered nothing is added and `None` is returned.
    pub fn register(&mut self, name: String) -> (issued: Option<MeasureIdx>)
        ensures
            contains_name(old(self)@, name@) ==> final(self)@ == old(self)@
                && issued is None,
            !contains_name(old(self)@, name@) ==> {
                &&& issued matches Some(idx)
                &&& idx.spec_index() == old(self)@.len()
                &&& final(self)@.len() == old(self)@.len() + 1
                &&& (forall|j: int| 0 <= j < old(self)@.len()
                    ==> #[trigger] final(self)@[j] == old(self)@[j])
                &&& final(self)@[old(self)@.len() as int].name@ == name@
                &&& final(self)@[old(self)@.len() as int].acc@ == Seq::<int>::empty()
            },
    {
        if self.find(&name).is_some() {
            return None;
        }
        let issued = MeasureIdx(self.measures.measures.len());
        self.measures.measures.push(Measure { name, acc: Acc::new() });
        Some(issued)
    }

    /// Returns a mutable reference to the accumulator of the measure
    /// pointed to by `idx`.
    pub fn accumulator(&mut self, idx: MeasureIdx) -> (acc: &mut Acc)
        requires
            0 <= idx.spec_index() < old(self)@.len(),
        ensures
            *acc == old(self)@[idx.spec_index()].acc,
            final(self)@.len() == old(self)@.len(),
            forall|j: int| 0 <= j < old(self)@.len() && j != idx.spec_index()
                ==> #[trigger] final(self)@[j] == old(self)@[j],
            final(self)@[idx.spec_index()].name == old(self)@[idx.spec_index()].name,
            final(self)@[idx.spec_index()].acc == *final(acc),
    {
        self.measures.accumulator(idx)
    }

    /// Merges one reported measure into the registry, which serves as a
    /// running aggregate across exported snapshots: into the first measure
    /// registered under the same name, or into a freshly registered one if
    /// the name is new. Afterwards the aggregate under that name holds the
    /// combined sample history — except that a merge that would exceed the
    /// accumulator's capacity is skipped, leaving the aggregate as it was.
    /// Returns the handle of the aggregate the measure went into.
    pub fn absorb_one(&mut self, measure: &Measure) -> (into: MeasureIdx)
        ensures
            0 <= into.spec_index() < final(self)@.len(),
            final(self)@[into.spec_index()].name@ == measure.name@,
            contains_name(old(self)@, measure.name@) ==> {
                &&& into.spec_index() < old(self)@.len()
                &&& (forall|j: int| 0 <= j < into.spec_index()
                    ==> (#[trigger] old(self)@[j]).name@ != measure.name@)
                &&& final(self)@.len() == old(self)@.len()
                &&& (forall|j: int| 0 <= j < old(self)@.len() && j != into.spec_index()
                    ==> #[trigger] final(self)@[j] == old(self)@[j])
                &&& final(self)@[into.spec_index()].name
                    == old(self)@[into.spec_index()].name
                &&& final(self)@[into.spec_index()].acc@ == (
                    if old(self)@[into.spec_index()].acc@.len() + measure.acc@.len()
                        <= COUNT_CAP {
                        old(self)@[into.spec_index()].acc@ + measure.acc@
                    } else {
                        old(self)@[into.spec_index()].acc@
                    })
            },
            !contains_name(old(self)@, measure.name@) ==> {
                &&& into.spec_index() == old(self)@.len()
                &&& final(self)@.len() == old(self)@.len() + 1
                &&& (forall|j: int| 0 <= j < old(self)@.len()
                    ==> #[trigger] final(self)@[j] == old(self)@[j])
                &&& final(self)@[into.spec_index()].acc@ == measure.acc@
            },
    {
        let idx = match self.find(&measure.name) {
            Some(found) => found,
            None => {
                match self.register(measure.name.clone()) {
                    Some(issued) => issued,
                    None => {
                        proof {
                            assert(false);
                        }
                        MeasureIdx(0)
                    }
                }
            }
        };
        let add = measure.acc.num_of_samples();
        let acc = self.accumulator(idx);
        let have = acc.num_of_samples();
        if have <= COUNT_CAP - add {
            acc.merge(measure.acc);
        }
        proof {
            if !contains_name(old(self)@, measure.name@) {
                assert(Seq::<int>::empty() + measure.acc@ =~= measure.acc@);
            }
        }
        idx
    }

    /// Merges a whole snapshot of measures into the registry's aggregate,
    /// one measure at a time (see `absorb_one`), in snapshot order. Names
    /// already registered keep their positions, so handles stay valid;
    /// after the call every name of the snapshot is registered, aggregates
    /// under names the snapshot does not carry are untouched, and — for a
    /// snapshot with distinct names, as every frozen collection has — the
    /// aggregate under each reported name holds its old history grown by
    /// the reported history (kept as it was only where the merge would
    /// exceed the accumulator's capacity). Returns the aggregated number
    /// of samples under the snapshot's last measure's name (0 for an
    /// empty snapshot), a convenience for progress reporting.
    pub fn absorb(&mut self, snapshot: &Measures) -> (samples: u64)
        ensures
            final(self)@.len() >= old(self)@.len(),
            forall|j: int| 0 <= j < old(self)@.len() ==> #[trigger] final(self)@[j].name
                == old(self)@[j].name,
            forall|k: int| 0 <= k < snapshot@.len()
                ==> contains_name(final(self)@, (#[trigger] snapshot@[k]).name@),
            forall|j: int| 0 <= j < old(self)@.len()
                && !contains_name(snapshot@, old(self)@[j].name@)
                ==> (#[trigger] final(self)@[j]) == old(self)@[j],
            distinct_names(snapshot@) ==> (forall|k: int| 0 <= k < snapshot@.len()
                ==> absorbed_into(old(self)@, #[trigger] snapshot@[k], final(self)@)),
            snapshot@.len() == 0 ==> samples == 0,
            snapshot@.len() > 0 ==> exists|w: int| first_match(
                final(self)@,
                snapshot@[snapshot@.len() - 1].name@,
                w,
            ) && samples == final(self)@[w].acc@.len(),
    {
        let n = snapshot.len();
        let mut samples: u64 = 0;
        let mut i: usize = 0;
        while i < n
            invariant
                n == snapshot@.len(),
                i <= n,
                self@.len() >= old(self)@.len(),
                forall|j: int| 0 <= j < old(self)@.len() ==> #[trigger] self@[j].name
                    == old(self)@[j].name,
                forall|k: int| 0 <= k < i
                    ==> contains_name(self@, (#[trigger] snapshot@[k]).name@),
                forall|j: int| old(self)@.len() <= j < self@.len() ==> exists|k2: int|
                    0 <= k2 < i && (#[trigger] self@[j]).name@
                        == (#[trigger] snapshot@[k2]).name@,
                forall|j: int| 0 <= j < old(self)@.len() && (forall|k2: int| 0 <= k2 < i
                    ==> (#[trigger] snapshot@[k2]).name@ != old(self)@[j].name@)
                    ==> (#[trigger] self@[j]) == old(self)@[j],
                distinct_names(snapshot@) ==> (forall|k: int| 0 <= k < i
                    ==> absorbed_into(old(self)@, #[trigger] snapshot@[k], self@)),
                i == 0 ==> samples == 0,
                i > 0 ==> exists|w: int| first_match(self@, snapshot@[i - 1].name@, w)
                    && samples == self@[w].acc@.len(),
            decreases n - i,
        {
            let ghost entering = self@;
            let m = snapshot.get(MeasureIdx(i));
            let into = self.absorb_one(m);
            samples = self.measures.get(into).acc.num_of_samples();
            proof {
                let gi = into.spec_index();
                let name_i = snapshot@[i as int].name@;
                // names at the positions the loop entered with are kept
                assert forall|j: int| 0 <= j < entering.len() implies #[trigger] self@[j].name
                    == entering[j].name by {
                    if contains_name(entering, name_i) && j == gi {
                        assert(self@[gi].name == entering[gi].name);
                    }
                }
                // the measure went into the first aggregate of its name
                assert(first_match(self@, name_i, gi)) by {
                    assert forall|j: int| 0 <= j < gi implies (#[trigger] self@[j]).name@
                        != name_i by {
                        if contains_name(entering, name_i) {
                            assert(entering[j].name@ != name_i);
                        } else {
                            if entering[j].name@ == name_i {
                                assert(contains_name(entering, name_i));
                            }
                        }
                        assert(self@[j].name == entering[j].name);
                    }
                }
                // untouched prefix: aggregates named outside the processed
                // snapshot prefix stay exactly as absorb found them
                assert forall|j: int| 0 <= j < old(self)@.len() && (forall|k2: int| 0 <= k2 < i
                    + 1 ==> (#[trigger] snapshot@[k2]).name@ != old(self)@[j].name@)
                    implies (#[trigger] self@[j]) == old(self)@[j] by {
                    assert(snapshot@[i as int].name@ != old(self)@[j].name@);
                    assert(entering[j] == old(self)@[j]);
                    if j == gi {
                        assert(self@[gi].name@ == name_i);
                        assert(self@[j].name == entering[j].name);
                        assert(false);
                    }
                }
                // every appended aggregate carries a processed name
                assert forall|j: int| old(self)@.len() <= j < self@.len() implies exists|
                    k2: int,
                |
                    0 <= k2 < i + 1 && (#[trigger] self@[j]).name@
                        == (#[trigger] snapshot@[k2]).name@ by {
                    if j < entering.len() {
                        let k2 = choose|k2: int|
                            0 <= k2 < i && (#[trigger] entering[j]).name@
                                == (#[trigger] snapshot@[k2]).name@;
                        assert(self@[j].name == entering[j].name);
                        assert(0 <= k2 < i + 1 && self@[j].name@ == snapshot@[k2].name@);
                    } else {
                        assert(j == gi);
                        assert(0 <= (i as int) && (i as int) < i + 1 && self@[j].name@
                            == snapshot@[i as int].name@);
                    }
                }
                // every processed name is registered
                assert forall|k: int| 0 <= k < i + 1 implies contains_name(
                    self@,
                    (#[trigger] snapshot@[k]).name@,
                ) by {
                    if k < i {
                        let w = choose|w: int|
                            0 <= w < entering.len()
                                && (#[trigger] entering[w]).name@ == snapshot@[k].name@;
                        assert(self@[w].name@ == snapshot@[k].name@);
                    } else {
                        assert(self@[gi].name@ == snapshot@[k].name@);
                    }
                }
                // under distinct snapshot names, the merge of this measure
                // is exactly absorb_one's, taken back to the state absorb
                // itself started from; earlier merges are untouched
                if distinct_names(snapshot@) {
                    assert(contains_name(entering, name_i) == contains_name(
                        old(self)@,
                        name_i,
                    )) by {
                        if contains_name(old(self)@, name_i) {
                            let w0 = choose|w0: int|
                                0 <= w0 < old(self)@.len()
                                    && (#[trigger] old(self)@[w0]).name@ == name_i;
                            assert(entering[w0].name@ == name_i);
                        }
                        if contains_name(entering, name_i) {
                            let w0 = choose|w0: int|
                                0 <= w0 < entering.len()
                                    && (#[trigger] entering[w0]).name@ == name_i;
                            if w0 >= old(self)@.len() {
                                let k2 = choose|k2: int|
                                    0 <= k2 < i && (#[trigger] entering[w0]).name@
                                        == (#[trigger] snapshot@[k2]).name@;
                                assert(snapshot@[k2].name@ == snapshot@[i as int].name@);
                                assert(false);
                            } else {
                                assert(old(self)@[w0].name@ == name_i);
                            }
                        }
                    }
                    assert(merged_history(old(self)@, snapshot@[i as int], self@, gi)) by {
                        if contains_name(old(self)@, name_i) {
                            let w0 = choose|w0: int|
                                0 <= w0 < old(self)@.len()
                                    && (#[trigger] old(self)@[w0]).name@ == name_i;
                            assert(entering[w0].name@ == name_i);
                            assert(gi <= w0) by {
                                if gi > w0 {
                                    assert(entering[w0].name@ != name_i);
                                }
                            }
                            assert(old(self)@[gi].name@ == name_i) by {
                                assert(entering[gi].name@ == name_i);
                            }
                            assert(entering[gi] == old(self)@[gi]) by {
                                assert forall|k2: int| 0 <= k2 < i
                                    implies (#[trigger] snapshot@[k2]).name@
                                    != old(self)@[gi].name@ by {
                                    assert(snapshot@[k2].name@ != snapshot@[i as int].name@);
                                }
                            }
                        }
                    }
                    assert forall|k: int| 0 <= k < i + 1 implies absorbed_into(
                        old(self)@,
                        #[trigger] snapshot@[k],
                        self@,
                    ) by {
                        if k == i {
                            assert(first_match(self@, snapshot@[k].name@, gi)
                                && merged_history(old(self)@, snapshot@[k], self@, gi));
                        } else {
                            assert(absorbed_into(old(self)@, snapshot@[k], entering));
                            let w = choose|w: int|
                                first_match(entering, snapshot@[k].name@, w)
                                    && merged_history(old(self)@, snapshot@[k], entering, w);
                            assert(w != gi) by {
                                if w == gi {
                                    assert(entering[w].name@ == snapshot@[k].name@);
                                    assert(self@[gi].name@ == name_i);
                                    assert(self@[w].name == entering[w].name);
                                    assert(snapshot@[k].name@ == snapshot@[i as int].name@);
                                }
                            }
                            assert(self@[w] == entering[w]);
                            assert(first_match(self@, snapshot@[k].name@, w)) by {
                                assert forall|j: int| 0 <= j < w
                                    implies (#[trigger] self@[j]).name@
                                    != snapshot@[k].name@ by {
                                    assert(self@[j].name == entering[j].name);
                                    assert(entering[j].name@ != snapshot@[k].name@);
                                }
                            }
                            assert(first_match(self@, snapshot@[k].name@, w)
                                && merged_history(old(self)@, snapshot@[k], self@, w));
                            assert(absorbed_into(old(self)@, snapshot@[k], self@));
                        }
                    }
                }
                // the returned count reports the aggregate this measure
                // went into
                assert(samples == self@[gi].acc@.len());
            }
            i += 1;
        }
        samples
    }

    /// Ends the registration phase: consumes the registry and yields the
    /// frozen collection of measures. Handles issued by `register` keep
    /// indexing the same measures in the result.
    pub fn freeze(self) -> (ms: Measures)
        ensures
            ms@ == self@,
    {
        self.measures
    }
}

} // verus!

use crate::error::TrainerError;
use crate::network::{filled, trained, Network};
use crate::template::{valid_topology, NetworkTemplate};
use crate::training_data::TrainingData;
use vstd::prelude::*;

verus! {

/// The losses of all successful training steps so far, each with the
/// position at which it was recorded.
pub struct ErrorSeries<T> {
    points: Vec<(usize, T)>,
}

/// Every entry carries its own position as its index.
pub open spec fn indexed<T>(series: Seq<(nat, T)>) -> bool {
    forall|i: int| 0 <= i < series.len() ==> (#[trigger] series[i]).0 == i
}

/// The series after one training step: a loss is appended under the index
/// that equals the length so far; a failed step leaves no trace.
pub open spec fn recorded<T>(series: Seq<(nat, T)>, outcome: Result<T, TrainerError>) -> Seq<
    (nat, T),
> {
    match outcome {
        Ok(loss) => series.push((series.len(), loss)),
        Err(_) => series,
    }
}

/// The series after a run of training steps with the given outcomes, in
/// their order.
pub open spec fn run_series<T>(series: Seq<(nat, T)>, outcomes: Seq<Result<T, TrainerError>>) -> Seq<
    (nat, T),
>
    decreases outcomes.len(),
{
    if outcomes.len() == 0 {
        series
    } else {
        recorded(run_series(series, outcomes.drop_last()), outcomes.last())
    }
}

/// How many of the outcomes are losses.
pub open spec fn successes<T>(outcomes: Seq<Result<T, TrainerError>>) -> nat
    decreases outcomes.len(),
{
    if outcomes.len() == 0 {
        0
    } else {
        successes(outcomes.drop_last()) + if outcomes.last() is Ok {
            1nat
        } else {
            0nat
        }
    }
}

impl<T: Copy> View for ErrorSeries<T> {
    type V = Seq<(nat, T)>;

    closed spec fn view(&self) -> Seq<(nat, T)> {
        self.points@.map_values(|p: (usize, T)| (p.0 as nat, p.1))
    }
}

impl<T: Copy> ErrorSeries<T> {
    /// Every entry carries its own position as its index.
    pub open spec fn wf(&self) -> bool {
        indexed(self@)
    }

    /// A series without entries.
    pub fn new() -> (series: Self)
        ensures
            series.wf(),
            series@ == Seq::<(nat, T)>::empty(),
    {
        let series = ErrorSeries { points: Vec::new() };
        series
    }

    /// The number of entries.
    pub fn len(&self) -> (n: usize)
        ensures
            n == self@.len(),
    {
        self.points.len()
    }

    /// The entries in the order in which they were recorded.
    pub fn points(&self) -> (points: &Vec<(usize, T)>)
        ensures
            points@.len() == self@.len(),
            forall|i: int|
                0 <= i < points@.len() ==> (#[trigger] points@[i]).0 == self@[i].0 && points@[i].1
                    == self@[i].1,
    {
        &self.points
    }

    /// Takes the outcome of one training step: a loss is appended under the
    /// index that equals the length so far, a failure is dropped.
    pub fn record(&mut self, outcome: Result<T, TrainerError>)
        requires
            old(self).wf(),
        ensures
            final(self).wf(),
            final(self)@ == recorded(old(self)@, outcome),
    {
        match outcome {
            Ok(loss) => {
                let index: usize = self.points.len();
                self.points.push((index, loss));
                assert(self@ =~= old(self)@.push((old(self)@.len(), loss)));
            },
            Err(_) => {},
        }
    }
}

/// The progress of one bounded run of training steps: how many steps have
/// been taken, and after how many the run is over.
pub struct TrainingRun {
    next: usize,
    limit: usize,
}

impl TrainingRun {
    /// The number of steps taken so far, which is also the draw number of
    /// the next step.
    pub closed spec fn position(&self) -> nat {
        self.next as nat
    }

    /// The number of steps after which the run is over.
    pub closed spec fn iteration_limit(&self) -> nat {
        self.limit as nat
    }

    /// Whether all steps of the run have been taken.
    pub open spec fn finished(&self) -> bool {
        self.position() >= self.iteration_limit()
    }

    /// How many steps are still to be taken.
    pub open spec fn steps_left(&self) -> nat {
        if self.finished() {
            0
        } else {
            (self.iteration_limit() - self.position()) as nat
        }
    }

    /// A run of `limit` steps, none of them taken yet.
    pub fn new(limit: usize) -> (run: Self)
        ensures
            run.position() == 0,
            run.iteration_limit() == limit,
    {
        TrainingRun { next: 0, limit }
    }

    /// The number of steps taken so far.
    pub fn iteration(&self) -> (n: usize)
        ensures
            n == self.position(),
    {
        self.next
    }

    /// The number of steps after which the run is over.
    pub fn limit(&self) -> (n: usize)
        ensures
            n == self.iteration_limit(),
    {
        self.limit
    }

    /// Whether all steps of the run have been taken.
    pub fn is_finished(&self) -> (done: bool)
        ensures
            done == self.finished(),
    {
        self.next >= self.limit
    }

    /// Sets up the next step. Where the run is over, nothing is touched and
    /// `Ok(false)` says so. Otherwise the example whose draw number is the
    /// number of steps taken is drawn from `data`: its input becomes the
    /// content of the network's input buffer and its expected output that
    /// of `expectation`, and `Ok(true)` asks for one training step of the
    /// engine. An empty store ends the run with `EmptyStore`; a store whose
    /// widths are not those of the network gives `ShapeMismatch`. A failure
    /// touches nothing.
    pub fn prepare<T: Copy>(
        &self,
        data: &TrainingData<T>,
        network: &mut Network<T>,
        expectation: &mut Vec<T>,
    ) -> (res: Result<bool, TrainerError>)
        requires
            data.wf(),
            old(network).wf(),
        ensures
            final(network).wf(),
            final(network).layers() == old(network).layers(),
            final(network).output_values() == old(network).output_values(),
            res == Ok::<bool, TrainerError>(true) <==> {
                &&& !self.finished()
                &&& data.count() > 0
                &&& data.input_width() == old(network).input_values().len()
                &&& data.output_width() == old(network).output_values().len()
            },
            res == Ok::<bool, TrainerError>(false) <==> self.finished(),
            res == Err::<bool, TrainerError>(TrainerError::EmptyStore) <==> !self.finished()
                && data.count() == 0,
            res == Err::<bool, TrainerError>(TrainerError::ShapeMismatch) <==> {
                &&& !self.finished()
                &&& data.count() > 0
                &&& (data.input_width() != old(network).input_values().len()
                    || data.output_width() != old(network).output_values().len())
            },
            res == Ok::<bool, TrainerError>(true) ==> {
                &&& final(network).input_values() == data.sample_input(self.position())
                &&& final(expectation)@ == data.sample_output(self.position())
            },
            res != Ok::<bool, TrainerError>(true) ==> {
                &&& final(network).input_values() == old(network).input_values()
                &&& final(expectation)@ == old(expectation)@
            },
    {
        if self.next >= self.limit {
            return Ok(false);
        }
        if data.len() == 0 {
            return Err(TrainerError::EmptyStore);
        }
        if data.n_inputs() != network.input().len() || data.n_outputs() != network.output().len() {
            return Err(TrainerError::ShapeMismatch);
        }
        let mut input: Vec<T> = Vec::new();
        match data.get(self.next, &mut input, expectation) {
            Ok(()) => {
                proof {
                    crate::training_data::lemma_sample_is_stored(*data, self.position());
                }
                match network.set_input(input.as_slice()) {
                    Ok(()) => Ok(true),
                    Err(e) => Err(e),
                }
            },
            Err(e) => Err(e),
        }
    }

    /// Takes the outcome of the step that `prepare` asked for. Where the run
    /// is over, nothing changes and `false` is returned. Otherwise the step
    /// counts as taken, whatever its outcome, and the series records it: a
    /// loss is appended, a failure is dropped and the run goes on.
    pub fn record<T: Copy>(&mut self, series: &mut ErrorSeries<T>, outcome: Result<
        T,
        TrainerError,
    >) -> (taken: bool)
        requires
            old(series).wf(),
        ensures
            final(series).wf(),
            final(self).iteration_limit() == old(self).iteration_limit(),
            taken == !old(self).finished(),
            taken ==> final(self).position() == old(self).position() + 1 && final(series)@
                == recorded(old(series)@, outcome),
            !taken ==> final(self).position() == old(self).position() && final(series)@ == old(
                series,
            )@,
    {
        if self.next >= self.limit {
            return false;
        }
        series.record(outcome);
        self.next = self.next + 1;
        true
    }

    /// Takes all steps that are left, one after another. For each step the
    /// example whose draw number is the number of steps taken is drawn, its
    /// input is copied into the network's input buffer, the engine trains on
    /// it through `measure` and `update`, and the series records the
    /// outcome: a failure of the engine costs that step its entry and
    /// nothing else.
    ///
    /// Where steps are left and the store is empty, the run ends at once
    /// with `EmptyStore`; where the store's widths are not those of the
    /// network, with `ShapeMismatch`. Nothing has changed then.
    pub fn run<T: Copy, M, U>(
        &mut self,
        data: &TrainingData<T>,
        network: &mut Network<T>,
        series: &mut ErrorSeries<T>,
        measure: &M,
        update: &U,
    ) -> (res: Result<(), TrainerError>) where
        M: Fn(&Vec<T>, &Vec<T>) -> Result<T, String>,
        U: Fn(&Vec<T>, &Vec<T>) -> Result<(), String>,

        requires
            data.wf(),
            old(network).wf(),
            old(series).wf(),
            forall|a: &Vec<T>, b: &Vec<T>|
                a@.len() == old(network).input_values().len() && b@.len() == old(
                    network,
                ).output_values().len() ==> call_requires(*measure, (a, b)) && call_requires(
                    *update,
                    (a, b),
                ),
        ensures
            final(network).wf(),
            final(network).layers() == old(network).layers(),
            final(network).output_values() == old(network).output_values(),
            final(series).wf(),
            final(self).iteration_limit() == old(self).iteration_limit(),
            old(series)@.len() <= final(series)@.len() <= old(series)@.len() + old(
                self,
            ).steps_left(),
            final(series)@.subrange(0, old(series)@.len() as int) == old(series)@,
            match res {
                Ok(()) => {
                    &&& final(self).finished()
                    &&& final(self).position() == old(self).position() + old(self).steps_left()
                    &&& old(self).finished() || {
                        &&& data.count() > 0
                        &&& data.input_width() == old(network).input_values().len()
                        &&& data.output_width() == old(network).output_values().len()
                    }
                    &&& if old(self).finished() {
                        final(network).input_values() == old(network).input_values()
                    } else {
                        final(network).input_values() == data.sample_input(
                            (final(self).position() - 1) as nat,
                        )
                    }
                    &&& exists|outcomes: Seq<Result<T, TrainerError>>|
                        {
                            &&& #[trigger] run_series(old(series)@, outcomes) == final(series)@
                            &&& outcomes.len() == old(self).steps_left()
                            &&& forall|i: int|
                                0 <= i < outcomes.len() ==> trained(
                                    *measure,
                                    *update,
                                    data.sample_input((old(self).position() + i) as nat),
                                    data.sample_output((old(self).position() + i) as nat),
                                    #[trigger] outcomes[i],
                                )
                        }
                },
                Err(e) => {
                    &&& !old(self).finished()
                    &&& final(self).position() == old(self).position()
                    &&& final(series)@ == old(series)@
                    &&& final(network).input_values() == old(network).input_values()
                    &&& if data.count() == 0 {
                        e == TrainerError::EmptyStore
                    } else {
                        &&& e == TrainerError::ShapeMismatch
                        &&& (data.input_width() != old(network).input_values().len()
                            || data.output_width() != old(network).output_values().len())
                    }
                },
            },
    {
        let mut expectation: Vec<T> = Vec::new();
        let ghost mut outcomes: Seq<Result<T, TrainerError>> = Seq::empty();
        loop
            invariant
                data.wf(),
                network.wf(),
                series.wf(),
                old(series).wf(),
                network.layers() == old(network).layers(),
                network.output_values() == old(network).output_values(),
                network.input_values().len() == old(network).input_values().len(),
                self.limit == old(self).limit,
                self.next == old(self).next + outcomes.len(),
                outcomes.len() <= old(self).steps_left(),
                outcomes.len() == 0 ==> network.input_values() == old(network).input_values(),
                outcomes.len() > 0 ==> {
                    &&& data.count() > 0
                    &&& data.input_width() == network.input_values().len()
                    &&& data.output_width() == network.output_values().len()
                    &&& network.input_values() == data.sample_input((self.next - 1) as nat)
                },
                series@ == run_series(old(series)@, outcomes),
                forall|i: int|
                    0 <= i < outcomes.len() ==> trained(
                        *measure,
                        *update,
                        data.sample_input((old(self).position() + i) as nat),
                        data.sample_output((old(self).position() + i) as nat),
                        #[trigger] outcomes[i],
                    ),
                forall|a: &Vec<T>, b: &Vec<T>|
                    a@.len() == old(network).input_values().len() && b@.len() == old(
                        network,
                    ).output_values().len() ==> call_requires(*measure, (a, b)) && call_requires(
                        *update,
                        (a, b),
                    ),
            decreases old(self).steps_left() - outcomes.len(),
        {
            match self.prepare(data, network, &mut expectation) {
                Ok(true) => {},
                Ok(false) => {
                    proof {
                        lemma_run_appends(old(series)@, outcomes);
                    }
                    return Ok(());
                },
                Err(e) => {
                    proof {
                        lemma_run_appends(old(series)@, outcomes);
                    }
                    return Err(e);
                },
            }
            proof {
                crate::training_data::lemma_sample_is_stored(*data, self.position());
            }
            let outcome = network.train(&expectation, measure, update);
            self.record(series, outcome);
            proof {
                let longer = outcomes.push(outcome);
                assert(longer.drop_last() =~= outcomes);
                outcomes = longer;
            }
        }
    }
}

/// Everything that a new topology starts with: the adapter state with both
/// buffers filled with `zero`, an empty store of the template's widths, two
/// vectors of those widths filled with `zero` for staging an example, and an
/// empty series. A template with a layer of size zero gives
/// `InvalidTopology`.
pub fn create_from_template<T: Copy>(template: &NetworkTemplate, zero: T) -> (res: Result<
    (Network<T>, TrainingData<T>, Vec<T>, Vec<T>, ErrorSeries<T>),
    TrainerError,
>)
    ensures
        match res {
            Ok((network, data, new_inputs, new_outputs, series)) => {
                &&& valid_topology(template.layers())
                &&& network.wf()
                &&& network.layers() == template.layers()
                &&& network.input_values() == Seq::new(template.n_inputs as nat, |i: int| zero)
                &&& network.output_values() == Seq::new(template.n_outputs as nat, |i: int| zero)
                &&& data.wf()
                &&& data.count() == 0
                &&& data.input_width() == template.n_inputs
                &&& data.output_width() == template.n_outputs
                &&& data.input_values() == Seq::<T>::empty()
                &&& data.output_values() == Seq::<T>::empty()
                &&& new_inputs@ == Seq::new(template.n_inputs as nat, |i: int| zero)
                &&& new_outputs@ == Seq::new(template.n_outputs as nat, |i: int| zero)
                &&& series.wf()
                &&& series@ == Seq::<(nat, T)>::empty()
            },
            Err(e) => !valid_topology(template.layers()) && e == TrainerError::InvalidTopology,
        },
{
    let network = match Network::new(template, zero) {
        Ok(network) => network,
        Err(e) => {
            return Err(e);
        },
    };
    let data = match TrainingData::new(template.n_inputs, template.n_outputs) {
        Ok(data) => data,
        Err(e) => {
            return Err(e);
        },
    };
    let new_inputs = filled(template.n_inputs, zero);
    let new_outputs = filled(template.n_outputs, zero);
    Ok((network, data, new_inputs, new_outputs, ErrorSeries::new()))
}

/// A run appends one entry for each step that gave a loss and nothing else:
/// never more entries than steps, and fewer exactly where a step failed.
/// What was there before stays in front, and every entry, old or new,
/// carries its position as its index, so the indices rise strictly.
pub proof fn lemma_run_appends<T>(series: Seq<(nat, T)>, outcomes: Seq<Result<T, TrainerError>>)
    requires
        indexed(series),
    ensures
        run_series(series, outcomes).len() == series.len() + successes(outcomes),
        successes(outcomes) <= outcomes.len(),
        successes(outcomes) < outcomes.len() <==> exists|i: int|
            0 <= i < outcomes.len() && #[trigger] outcomes[i] is Err,
        run_series(series, outcomes).subrange(0, series.len() as int) == series,
        indexed(run_series(series, outcomes)),
        forall|i: int, j: int|
            0 <= i < j < run_series(series, outcomes).len() ==> (#[trigger] run_series(
                series,
                outcomes,
            )[i]).0 < (#[trigger] run_series(series, outcomes)[j]).0,
    decreases outcomes.len(),
{
    if outcomes.len() > 0 {
        let front = outcomes.drop_last();
        lemma_run_appends(series, front);
        if exists|i: int| 0 <= i < outcomes.len() && #[trigger] outcomes[i] is Err {
            let i = choose|i: int| 0 <= i < outcomes.len() && #[trigger] outcomes[i] is Err;
            if i < front.len() {
                assert(front[i] is Err);
            }
        }
    }
}

/// Two runs in sequence are one run over both sequences of outcomes: the
/// series grows by the losses of both, and the indices go on across the
/// boundary without a gap.
pub proof fn lemma_runs_in_sequence<T>(
    series: Seq<(nat, T)>,
    first: Seq<Result<T, TrainerError>>,
    second: Seq<Result<T, TrainerError>>,
)
    requires
        indexed(series),
    ensures
        run_series(run_series(series, first), second) == run_series(series, first + second),
        run_series(run_series(series, first), second).len() == series.len() + successes(first)
            + successes(second),
        run_series(run_series(series, first), second).subrange(
            0,
            run_series(series, first).len() as int,
        ) == run_series(series, first),
        indexed(run_series(run_series(series, first), second)),
    decreases second.len(),
{
    lemma_run_appends(series, first);
    lemma_run_appends(run_series(series, first), second);
    if second.len() > 0 {
        lemma_runs_in_sequence(series, first, second.drop_last());
        assert((first + second).drop_last() =~= first + second.drop_last());
    }
}

} // verus!

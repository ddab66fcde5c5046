use crate::error::TrainerError;
use crate::template::{valid_topology, NetworkTemplate};
use vstd::prelude::*;

verus! {

/// The state that surrounds a numeric engine: the layer sizes it was built
/// for, the buffer it reads its input from and the buffer that holds its
/// latest output. The engine itself stays with the caller, who lends its
/// operations to `process` and `train` as functions.
pub struct Network<T> {
    topology: Vec<usize>,
    input: Vec<T>,
    output: Vec<T>,
}

/// What a training step comes to once the engine has answered: its first
/// failure, with the reason as it came, or else the loss that it measured
/// before the update.
pub open spec fn train_outcome<T>(loss: Result<T, String>, update: Result<(), String>) -> Result<
    T,
    TrainerError,
> {
    match (loss, update) {
        (Err(reason), _) => Err(TrainerError::EngineError(reason)),
        (Ok(_), Err(reason)) => Err(TrainerError::EngineError(reason)),
        (Ok(value), Ok(())) => Ok(value),
    }
}

/// The exact outcome of a training step for given answers of the engine.
pub fn train_result<T>(loss: Result<T, String>, update: Result<(), String>) -> (res: Result<
    T,
    TrainerError,
>)
    ensures
        res == train_outcome(loss, update),
{
    match loss {
        Err(reason) => Err(TrainerError::EngineError(reason)),
        Ok(value) => match update {
            Err(reason) => Err(TrainerError::EngineError(reason)),
            Ok(()) => Ok(value),
        },
    }
}

/// Whether `outcome` is what a training step on `input` and `expected` can
/// come to: the engine measured the loss on exactly these two vectors; where
/// that failed, the failure is the outcome and no update was due; otherwise
/// the engine updated its weights on the same two vectors, and the outcome
/// follows from both answers.
pub open spec fn trained<T, M, U>(
    measure: M,
    update: U,
    input: Seq<T>,
    expected: Seq<T>,
    outcome: Result<T, TrainerError>,
) -> bool where
    M: Fn(&Vec<T>, &Vec<T>) -> Result<T, String>,
    U: Fn(&Vec<T>, &Vec<T>) -> Result<(), String>,
{
    exists|a: &Vec<T>, b: &Vec<T>, loss: Result<T, String>|
        {
            &&& a@ == input
            &&& b@ == expected
            &&& #[trigger] call_ensures(measure, (a, b), loss)
            &&& match loss {
                Err(reason) => outcome == Err::<T, TrainerError>(TrainerError::EngineError(reason)),
                Ok(_) => exists|answer: Result<(), String>|
                    #[trigger] call_ensures(update, (a, b), answer) && outcome == train_outcome(
                        loss,
                        answer,
                    ),
            }
        }
}

/// What a forward pass comes to once the engine has answered: the content
/// of the output buffer afterwards, and what is returned. An output of the
/// buffer's width replaces its content; one of another width is refused; a
/// failure of the engine is passed on with its reason.
pub open spec fn process_outcome<T>(buffer: Seq<T>, forward: Result<Vec<T>, String>) -> (
    Seq<T>,
    Result<Seq<T>, TrainerError>,
) {
    match forward {
        Ok(values) => if values@.len() == buffer.len() {
            (values@, Ok(values@))
        } else {
            (buffer, Err(TrainerError::ShapeMismatch))
        },
        Err(reason) => (buffer, Err(TrainerError::EngineError(reason))),
    }
}

/// What a returned view of the output buffer shows.
pub open spec fn shown<T>(res: Result<&Vec<T>, TrainerError>) -> Result<Seq<T>, TrainerError> {
    match res {
        Ok(values) => Ok(values@),
        Err(e) => Err(e),
    }
}

/// A vector of `width` values, each of them `value`.
pub(crate) fn filled<T: Copy>(width: usize, value: T) -> (v: Vec<T>)
    ensures
        v@ == Seq::new(width as nat, |i: int| value),
{
    let mut v: Vec<T> = Vec::new();
    let mut i: usize = 0;
    while i < width
        invariant
            i <= width,
            v@ == Seq::new(i as nat, |j: int| value),
        decreases width - i,
    {
        v.push(value);
        i += 1;
    }
    v
}

/// A copy of a slice as a vector.
fn copied<T: Copy>(values: &[T]) -> (v: Vec<T>)
    ensures
        v@ == values@,
{
    let mut v: Vec<T> = Vec::new();
    let mut i: usize = 0;
    while i < values.len()
        invariant
            i <= values.len(),
            v@ == values@.subrange(0, i as int),
        decreases values.len() - i,
    {
        v.push(values[i]);
        i += 1;
    }
    v
}

impl<T: Copy> Network<T> {
    /// The layer sizes from input to output.
    pub closed spec fn layers(&self) -> Seq<usize> {
        self.topology@
    }

    /// What the input buffer holds.
    pub closed spec fn input_values(&self) -> Seq<T> {
        self.input@
    }

    /// What the output buffer holds.
    pub closed spec fn output_values(&self) -> Seq<T> {
        self.output@
    }

    /// The topology is valid and the buffers have the widths of its first
    /// and last layer.
    pub open spec fn wf(&self) -> bool {
        &&& valid_topology(self.layers())
        &&& self.input_values().len() == self.layers().first()
        &&& self.output_values().len() == self.layers().last()
    }

    /// The adapter state for a template, with both buffers filled with
    /// `zero`. A template with a layer of size zero gives `InvalidTopology`.
    pub fn new(template: &NetworkTemplate, zero: T) -> (res: Result<Self, TrainerError>)
        ensures
            match res {
                Ok(net) => {
                    &&& valid_topology(template.layers())
                    &&& net.wf()
                    &&& net.layers() == template.layers()
                    &&& net.input_values() == Seq::new(template.n_inputs as nat, |i: int| zero)
                    &&& net.output_values() == Seq::new(template.n_outputs as nat, |i: int| zero)
                },
                Err(e) => !valid_topology(template.layers()) && e
                    == TrainerError::InvalidTopology,
            },
    {
        match template.topology() {
            Ok(topology) => Ok(
                Network {
                    topology,
                    input: filled(template.n_inputs, zero),
                    output: filled(template.n_outputs, zero),
                },
            ),
            Err(e) => Err(e),
        }
    }

    /// The layer sizes from input to output.
    pub fn topology(&self) -> (t: &Vec<usize>)
        ensures
            t@ == self.layers(),
    {
        &self.topology
    }

    /// The input buffer.
    pub fn input(&self) -> (values: &Vec<T>)
        ensures
            values@ == self.input_values(),
    {
        &self.input
    }

    /// The output buffer.
    pub fn output(&self) -> (values: &Vec<T>)
        ensures
            values@ == self.output_values(),
    {
        &self.output
    }

    /// Writes `values` into the input buffer. A vector of another width is
    /// refused with `ShapeMismatch`, and the buffer stays as it is.
    pub fn set_input(&mut self, values: &[T]) -> (res: Result<(), TrainerError>)
        requires
            old(self).wf(),
        ensures
            final(self).wf(),
            final(self).layers() == old(self).layers(),
            final(self).output_values() == old(self).output_values(),
            match res {
                Ok(()) => {
                    &&& values@.len() == old(self).input_values().len()
                    &&& final(self).input_values() == values@
                },
                Err(e) => {
                    &&& e == TrainerError::ShapeMismatch
                    &&& values@.len() != old(self).input_values().len()
                    &&& final(self).input_values() == old(self).input_values()
                },
            },
    {
        if values.len() != self.input.len() {
            return Err(TrainerError::ShapeMismatch);
        }
        self.input = copied(values);
        Ok(())
    }

    /// Takes what the engine's forward pass came to: an output of the right
    /// width becomes the content of the output buffer and is returned; one
    /// of another width is refused with `ShapeMismatch`; a failure of the
    /// engine is passed on with its reason. In both failing cases the
    /// output buffer stays as it is.
    pub fn store_output(&mut self, forward: Result<Vec<T>, String>) -> (res: Result<
        &Vec<T>,
        TrainerError,
    >)
        requires
            old(self).wf(),
        ensures
            final(self).wf(),
            final(self).layers() == old(self).layers(),
            final(self).input_values() == old(self).input_values(),
            final(self).output_values() == process_outcome(old(self).output_values(), forward).0,
            shown(res) == process_outcome(old(self).output_values(), forward).1,
    {
        match forward {
            Ok(values) => {
                if values.len() != self.output.len() {
                    return Err(TrainerError::ShapeMismatch);
                }
                self.output = values;
                Ok(&self.output)
            },
            Err(reason) => Err(TrainerError::EngineError(reason)),
        }
    }

    /// Runs one forward pass: `forward` is the engine, which is handed the
    /// input buffer; what becomes of its answer is what `store_output` says.
    pub fn process<F>(&mut self, forward: &F) -> (res: Result<&Vec<T>, TrainerError>) where
        F: Fn(&Vec<T>) -> Result<Vec<T>, String>,

        requires
            old(self).wf(),
            forall|input: &Vec<T>|
                input@.len() == old(self).input_values().len() ==> call_requires(*forward, (input, )),
        ensures
            final(self).wf(),
            final(self).layers() == old(self).layers(),
            final(self).input_values() == old(self).input_values(),
            exists|input: &Vec<T>, answer: Result<Vec<T>, String>|
                {
                    &&& input@ == old(self).input_values()
                    &&& #[trigger] call_ensures(*forward, (input, ), answer)
                    &&& final(self).output_values() == process_outcome(
                        old(self).output_values(),
                        answer,
                    ).0
                    &&& shown(res) == process_outcome(old(self).output_values(), answer).1
                },
    {
        let answer = forward(&self.input);
        self.store_output(answer)
    }

    /// Runs one training step on the input buffer and `expected`. A vector
    /// of another width than the output buffer is refused with
    /// `ShapeMismatch`. Otherwise `measure` is the engine's loss for the two
    /// vectors and `update` its change of the weights for them, which is
    /// only asked for where the loss could be measured; the first failure
    /// is passed on, and else the loss is returned.
    pub fn train<M, U>(&self, expected: &Vec<T>, measure: &M, update: &U) -> (res: Result<
        T,
        TrainerError,
    >) where
        M: Fn(&Vec<T>, &Vec<T>) -> Result<T, String>,
        U: Fn(&Vec<T>, &Vec<T>) -> Result<(), String>,

        requires
            self.wf(),
            forall|a: &Vec<T>, b: &Vec<T>|
                a@.len() == self.input_values().len() && b@.len() == self.output_values().len()
                    ==> call_requires(*measure, (a, b)) && call_requires(*update, (a, b)),
        ensures
            expected@.len() != self.output_values().len() ==> res == Err::<T, TrainerError>(
                TrainerError::ShapeMismatch,
            ),
            expected@.len() == self.output_values().len() ==> trained(
                *measure,
                *update,
                self.input_values(),
                expected@,
                res,
            ),
    {
        if expected.len() != self.output.len() {
            return Err(TrainerError::ShapeMismatch);
        }
        let loss = measure(&self.input, expected);
        match loss {
            Err(reason) => Err(TrainerError::EngineError(reason)),
            Ok(value) => {
                let answer = update(&self.input, expected);
                train_result(Ok(value), answer)
            },
        }
    }
}

} // verus!

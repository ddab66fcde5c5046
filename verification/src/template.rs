use crate::error::TrainerError;
use vstd::prelude::*;

verus! {

/// The shape of a network before it is built: how many inputs, the sizes of
/// the hidden layers in order, and how many outputs.
pub struct NetworkTemplate {
    pub n_inputs: usize,
    pub hidden_layers: Vec<usize>,
    pub n_outputs: usize,
}

/// Whether every layer of `layers` has at least one unit and there are at
/// least two layers.
pub open spec fn valid_topology(layers: Seq<usize>) -> bool {
    layers.len() >= 2 && forall|i: int| 0 <= i < layers.len() ==> layers[i] > 0
}

impl NetworkTemplate {
    /// The layer sizes from input to output.
    pub open spec fn layers(&self) -> Seq<usize> {
        seq![self.n_inputs] + self.hidden_layers@ + seq![self.n_outputs]
    }

    /// Takes one input away, but never the last one.
    pub fn fewer_inputs(&mut self)
        ensures
            final(self).n_inputs == if old(self).n_inputs > 1 {
                old(self).n_inputs - 1
            } else {
                1
            },
            final(self).hidden_layers == old(self).hidden_layers,
            final(self).n_outputs == old(self).n_outputs,
    {
        if self.n_inputs > 1 {
            self.n_inputs = self.n_inputs - 1;
        } else {
            self.n_inputs = 1;
        }
    }

    /// Adds one input.
    pub fn more_inputs(&mut self)
        requires
            old(self).n_inputs < usize::MAX,
        ensures
            final(self).n_inputs == old(self).n_inputs + 1,
            final(self).hidden_layers == old(self).hidden_layers,
            final(self).n_outputs == old(self).n_outputs,
    {
        self.n_inputs = self.n_inputs + 1;
    }

    /// Takes one output away, but never the last one.
    pub fn fewer_outputs(&mut self)
        ensures
            final(self).n_outputs == if old(self).n_outputs > 1 {
                old(self).n_outputs - 1
            } else {
                1
            },
            final(self).hidden_layers == old(self).hidden_layers,
            final(self).n_inputs == old(self).n_inputs,
    {
        if self.n_outputs > 1 {
            self.n_outputs = self.n_outputs - 1;
        } else {
            self.n_outputs = 1;
        }
    }

    /// Adds one output.
    pub fn more_outputs(&mut self)
        requires
            old(self).n_outputs < usize::MAX,
        ensures
            final(self).n_outputs == old(self).n_outputs + 1,
            final(self).hidden_layers == old(self).hidden_layers,
            final(self).n_inputs == old(self).n_inputs,
    {
        self.n_outputs = self.n_outputs + 1;
    }

    /// The layer sizes from input to output, or `InvalidTopology` where one
    /// of them is zero.
    pub fn topology(&self) -> (res: Result<Vec<usize>, TrainerError>)
        ensures
            match res {
                Ok(t) => valid_topology(self.layers()) && t@ == self.layers(),
                Err(e) => !valid_topology(self.layers()) && e == TrainerError::InvalidTopology,
            },
    {
        if self.n_inputs == 0 {
            assert(self.layers()[0] == 0);
            return Err(TrainerError::InvalidTopology);
        }
        let mut t: Vec<usize> = Vec::new();
        t.push(self.n_inputs);
        let mut i: usize = 0;
        while i < self.hidden_layers.len()
            invariant
                i <= self.hidden_layers.len(),
                t@ == seq![self.n_inputs] + self.hidden_layers@.subrange(0, i as int),
                forall|j: int| 0 <= j < t@.len() ==> t@[j] > 0,
            decreases self.hidden_layers.len() - i,
        {
            let size = self.hidden_layers[i];
            if size == 0 {
                assert(self.layers()[i as int + 1] == 0);
                return Err(TrainerError::InvalidTopology);
            }
            t.push(size);
            i += 1;
        }
        if self.n_outputs == 0 {
            assert(self.layers()[self.layers().len() - 1] == 0);
            return Err(TrainerError::InvalidTopology);
        }
        t.push(self.n_outputs);
        assert(t@ =~= self.layers());
        Ok(t)
    }
}

} // verus!

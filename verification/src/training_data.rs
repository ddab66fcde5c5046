use crate::error::TrainerError;
use crate::text::{append_decimal, decimal};
use vstd::prelude::*;
use vstd::string::StringExecFns;

verus! {

/// Labelled examples of fixed widths, kept as two flat sequences: the inputs
/// of all examples one after another, and their expected outputs likewise.
pub struct TrainingData<T> {
    n_inputs: usize,
    n_outputs: usize,
    length: usize,
    inputs: Vec<T>,
    outputs: Vec<T>,
}

/// The values of a row, each followed by one blank.
pub open spec fn cells(texts: Seq<Seq<char>>) -> Seq<char>
    decreases texts.len(),
{
    if texts.len() == 0 {
        Seq::<char>::empty()
    } else {
        cells(texts.drop_last()) + texts.last() + " "@
    }
}

/// The line that shows example `index`, given the texts of its values.
pub open spec fn example_line(index: nat, ins: Seq<Seq<char>>, outs: Seq<Seq<char>>) -> Seq<char> {
    "Set["@ + decimal(index) + "]: I[ "@ + cells(ins) + "] O[ "@ + cells(outs) + "]\n"@
}

/// The lines of the first `count` examples in storage order, where `ins` and
/// `outs` hold the texts of all stored values, laid out as the values are.
pub open spec fn listing(
    count: nat,
    input_width: nat,
    output_width: nat,
    ins: Seq<Seq<char>>,
    outs: Seq<Seq<char>>,
) -> Seq<char>
    decreases count,
{
    if count == 0 {
        Seq::<char>::empty()
    } else {
        let i = (count - 1) as nat;
        listing(i, input_width, output_width, ins, outs) + example_line(
            i,
            ins.subrange((i * input_width) as int, (i * input_width + input_width) as int),
            outs.subrange((i * output_width) as int, (i * output_width + output_width) as int),
        )
    }
}

/// Whether `texts` holds, value by value, what `render` gave for `values`.
pub open spec fn rendered<T, F: Fn(&T) -> String>(render: F, values: Seq<T>, texts: Seq<String>) -> bool {
    &&& texts.len() == values.len()
    &&& forall|i: int|
        0 <= i < values.len() ==> call_ensures(render, (&#[trigger] values[i], ), texts[i])
}

/// The texts of a slice of strings.
pub open spec fn texts_of(strings: Seq<String>) -> Seq<Seq<char>> {
    strings.map_values(|s: String| s@)
}

impl<T: Copy> TrainingData<T> {
    /// How many values the input of one example has.
    pub closed spec fn input_width(&self) -> nat {
        self.n_inputs as nat
    }

    /// How many values the expected output of one example has.
    pub closed spec fn output_width(&self) -> nat {
        self.n_outputs as nat
    }

    /// How many examples are stored.
    pub closed spec fn count(&self) -> nat {
        self.length as nat
    }

    /// The inputs of all examples, one after another.
    pub closed spec fn input_values(&self) -> Seq<T> {
        self.inputs@
    }

    /// The expected outputs of all examples, one after another.
    pub closed spec fn output_values(&self) -> Seq<T> {
        self.outputs@
    }

    /// Both widths are at least one, and each flat sequence holds exactly
    /// one row per example.
    pub open spec fn wf(&self) -> bool {
        &&& self.input_width() >= 1
        &&& self.output_width() >= 1
        &&& self.input_values().len() == self.count() * self.input_width()
        &&& self.output_values().len() == self.count() * self.output_width()
    }

    /// The input of the example stored at position `index`.
    pub open spec fn example_input(&self, index: nat) -> Seq<T> {
        self.input_values().subrange(
            (index * self.input_width()) as int,
            (index * self.input_width() + self.input_width()) as int,
        )
    }

    /// The expected output of the example stored at position `index`.
    pub open spec fn example_output(&self, index: nat) -> Seq<T> {
        self.output_values().subrange(
            (index * self.output_width()) as int,
            (index * self.output_width() + self.output_width()) as int,
        )
    }

    /// The input that draw number `n` yields: the examples are walked in
    /// storage order, round after round.
    pub open spec fn sample_input(&self, n: nat) -> Seq<T>
        recommends
            self.count() > 0,
    {
        self.example_input(n % self.count())
    }

    /// The expected output that draw number `n` yields.
    pub open spec fn sample_output(&self, n: nat) -> Seq<T>
        recommends
            self.count() > 0,
    {
        self.example_output(n % self.count())
    }

    /// An empty store for examples of the given widths. A width of zero is
    /// refused with `InvalidTopology`.
    pub fn new(n_inputs: usize, n_outputs: usize) -> (res: Result<Self, TrainerError>)
        ensures
            match res {
                Ok(data) => {
                    &&& n_inputs >= 1
                    &&& n_outputs >= 1
                    &&& data.wf()
                    &&& data.input_width() == n_inputs
                    &&& data.output_width() == n_outputs
                    &&& data.count() == 0
                    &&& data.input_values() == Seq::<T>::empty()
                    &&& data.output_values() == Seq::<T>::empty()
                },
                Err(e) => (n_inputs == 0 || n_outputs == 0) && e == TrainerError::InvalidTopology,
            },
    {
        if n_inputs == 0 || n_outputs == 0 {
            return Err(TrainerError::InvalidTopology);
        }
        let data = Self { n_inputs, n_outputs, length: 0, inputs: Vec::new(), outputs: Vec::new() };
        assert(data.count() * data.input_width() == 0) by (nonlinear_arith)
            requires
                data.count() == 0,
        ;
        assert(data.count() * data.output_width() == 0) by (nonlinear_arith)
            requires
                data.count() == 0,
        ;
        Ok(data)
    }

    /// Stores one more example, provided that both vectors have the widths
    /// of this store. Otherwise nothing changes and `ShapeMismatch` is
    /// returned.
    ///
    /// Once stored, the example is what every draw number that leaves the
    /// remainder `old count` on division by the new count yields.
    pub fn add(&mut self, input: &[T], output: &[T]) -> (res: Result<(), TrainerError>)
        requires
            old(self).wf(),
        ensures
            final(self).wf(),
            final(self).input_width() == old(self).input_width(),
            final(self).output_width() == old(self).output_width(),
            match res {
                Ok(()) => {
                    &&& input@.len() == old(self).input_width()
                    &&& output@.len() == old(self).output_width()
                    &&& final(self).count() == old(self).count() + 1
                    &&& final(self).input_values() == old(self).input_values() + input@
                    &&& final(self).output_values() == old(self).output_values() + output@
                    &&& forall|n: nat|
                        n % final(self).count() == old(self).count() ==> {
                            &&& #[trigger] final(self).sample_input(n) == input@
                            &&& final(self).sample_output(n) == output@
                        }
                },
                Err(e) => {
                    &&& e == TrainerError::ShapeMismatch
                    &&& (input@.len() != old(self).input_width() || output@.len() != old(
                        self,
                    ).output_width())
                    &&& final(self).count() == old(self).count()
                    &&& final(self).input_values() == old(self).input_values()
                    &&& final(self).output_values() == old(self).output_values()
                },
            },
    {
        if input.len() != self.n_inputs || output.len() != self.n_outputs {
            return Err(TrainerError::ShapeMismatch);
        }
        let mut i: usize = 0;
        while i < input.len()
            invariant
                i <= input.len(),
                self.n_inputs == old(self).n_inputs,
                self.n_outputs == old(self).n_outputs,
                self.length == old(self).length,
                self.outputs == old(self).outputs,
                self.inputs@ == old(self).inputs@ + input@.subrange(0, i as int),
            decreases input.len() - i,
        {
            self.inputs.push(input[i]);
            i += 1;
        }
        let mut j: usize = 0;
        while j < output.len()
            invariant
                j <= output.len(),
                self.n_inputs == old(self).n_inputs,
                self.n_outputs == old(self).n_outputs,
                self.length == old(self).length,
                self.inputs@ == old(self).inputs@ + input@,
                self.outputs@ == old(self).outputs@ + output@.subrange(0, j as int),
            decreases output.len() - j,
        {
            self.outputs.push(output[j]);
            j += 1;
        }
        // The new length is a machine word, and so is the count that it bounds.
        let total: usize = self.inputs.len();
        proof {
            let c = old(self).length as int;
            let wi = self.n_inputs as int;
            let wo = self.n_outputs as int;
            assert((c + 1) * wi == c * wi + wi) by (nonlinear_arith);
            assert((c + 1) * wo == c * wo + wo) by (nonlinear_arith);
            assert(c + 1 <= (c + 1) * wi) by (nonlinear_arith)
                requires
                    wi >= 1,
                    c >= 0,
            ;
            assert(total == (c + 1) * wi);
        }
        self.length = self.length + 1;
        Ok(())
    }

    /// Draws example number `n mod count` into the two buffers, which then
    /// hold exactly its input and its expected output. An empty store gives
    /// `EmptyStore` and leaves the buffers as they are.
    pub fn get(&self, n: usize, input: &mut Vec<T>, expectation: &mut Vec<T>) -> (res: Result<
        (),
        TrainerError,
    >)
        requires
            self.wf(),
        ensures
            match res {
                Ok(()) => {
                    &&& self.count() > 0
                    &&& final(input)@ == self.sample_input(n as nat)
                    &&& final(expectation)@ == self.sample_output(n as nat)
                },
                Err(e) => {
                    &&& e == TrainerError::EmptyStore
                    &&& self.count() == 0
                    &&& final(input)@ == old(input)@
                    &&& final(expectation)@ == old(expectation)@
                },
            },
    {
        if self.length == 0 {
            return Err(TrainerError::EmptyStore);
        }
        let index: usize = n % self.length;
        // Both lengths are machine words, which bounds the offsets below.
        let total_in: usize = self.inputs.len();
        let total_out: usize = self.outputs.len();
        proof {
            let c = self.length as int;
            let k = index as int;
            let wi = self.n_inputs as int;
            let wo = self.n_outputs as int;
            assert(k * wi + wi <= c * wi) by (nonlinear_arith)
                requires
                    0 <= k < c,
                    wi >= 1,
            ;
            assert(k * wo + wo <= c * wo) by (nonlinear_arith)
                requires
                    0 <= k < c,
                    wo >= 1,
            ;
            assert(0 <= k * wi && 0 <= k * wo) by (nonlinear_arith)
                requires
                    0 <= k,
                    wi >= 1,
                    wo >= 1,
            ;
        }
        copy_range(&self.inputs, index * self.n_inputs, self.n_inputs, input);
        copy_range(&self.outputs, index * self.n_outputs, self.n_outputs, expectation);
        Ok(())
    }

    /// The number of stored examples.
    pub fn len(&self) -> (n: usize)
        ensures
            n == self.count(),
    {
        self.length
    }

    /// The width of an example's input.
    pub fn n_inputs(&self) -> (n: usize)
        ensures
            n == self.input_width(),
    {
        self.n_inputs
    }

    /// The width of an example's expected output.
    pub fn n_outputs(&self) -> (n: usize)
        ensures
            n == self.output_width(),
    {
        self.n_outputs
    }

    /// The inputs of all examples, one after another.
    pub fn inputs(&self) -> (values: &Vec<T>)
        ensures
            values@ == self.input_values(),
    {
        &self.inputs
    }

    /// The expected outputs of all examples, one after another.
    pub fn outputs(&self) -> (values: &Vec<T>)
        ensures
            values@ == self.output_values(),
    {
        &self.outputs
    }

    /// One line per example, in storage order, with `render` giving the text
    /// of each value. It is asked for every stored value once: first for the
    /// inputs, then for the expected outputs, each in storage order.
    pub fn to_string<F>(&self, render: &F) -> (out: String) where F: Fn(&T) -> String
        requires
            self.wf(),
            forall|value: &T| call_requires(*render, (value, )),
        ensures
            exists|ins: Seq<String>, outs: Seq<String>|
                {
                    &&& #[trigger] rendered(*render, self.input_values(), ins)
                    &&& #[trigger] rendered(*render, self.output_values(), outs)
                    &&& out@ == listing(
                        self.count(),
                        self.input_width(),
                        self.output_width(),
                        texts_of(ins),
                        texts_of(outs),
                    )
                },
    {
        let ins = render_all(&self.inputs, render);
        let outs = render_all(&self.outputs, render);
        self.lines(ins.as_slice(), outs.as_slice())
    }

    /// One line per example, in storage order, from the texts of all stored
    /// values, laid out as `inputs()` and `outputs()` are. Where the two do
    /// not have those lengths, `ShapeMismatch` is returned.
    pub fn lay_out(&self, input_texts: &[String], output_texts: &[String]) -> (res: Result<
        String,
        TrainerError,
    >)
        requires
            self.wf(),
        ensures
            match res {
                Ok(out) => {
                    &&& input_texts@.len() == self.input_values().len()
                    &&& output_texts@.len() == self.output_values().len()
                    &&& out@ == listing(
                        self.count(),
                        self.input_width(),
                        self.output_width(),
                        texts_of(input_texts@),
                        texts_of(output_texts@),
                    )
                },
                Err(e) => {
                    &&& e == TrainerError::ShapeMismatch
                    &&& (input_texts@.len() != self.input_values().len() || output_texts@.len()
                        != self.output_values().len())
                },
            },
    {
        if input_texts.len() != self.inputs.len() || output_texts.len() != self.outputs.len() {
            return Err(TrainerError::ShapeMismatch);
        }
        Ok(self.lines(input_texts, output_texts))
    }

    /// The lines of all examples, from texts of the stored lengths.
    fn lines(&self, input_texts: &[String], output_texts: &[String]) -> (out: String)
        requires
            self.wf(),
            input_texts@.len() == self.input_values().len(),
            output_texts@.len() == self.output_values().len(),
        ensures
            out@ == listing(
                self.count(),
                self.input_width(),
                self.output_width(),
                texts_of(input_texts@),
                texts_of(output_texts@),
            ),
    {
        let total_in: usize = self.inputs.len();
        let total_out: usize = self.outputs.len();
        let mut out = String::new();
        let mut index: usize = 0;
        while index < self.length
            invariant
                self.wf(),
                index <= self.length,
                input_texts@.len() == self.inputs@.len(),
                output_texts@.len() == self.outputs@.len(),
                self.inputs@.len() == total_in,
                self.outputs@.len() == total_out,
                out@ == listing(
                    index as nat,
                    self.input_width(),
                    self.output_width(),
                    texts_of(input_texts@),
                    texts_of(output_texts@),
                ),
            decreases self.length - index,
        {
            proof {
                let c = self.length as int;
                let k = index as int;
                let wi = self.n_inputs as int;
                let wo = self.n_outputs as int;
                assert(k * wi + wi <= c * wi) by (nonlinear_arith)
                    requires
                        0 <= k < c,
                        wi >= 1,
                ;
                assert(k * wo + wo <= c * wo) by (nonlinear_arith)
                    requires
                        0 <= k < c,
                        wo >= 1,
                ;
                assert(0 <= k * wi && 0 <= k * wo) by (nonlinear_arith)
                    requires
                        0 <= k,
                        wi >= 1,
                        wo >= 1,
                ;
            }
            out.append("Set[");
            append_decimal(&mut out, index);
            out.append("]: I[ ");
            append_cells(&mut out, input_texts, index * self.n_inputs, self.n_inputs);
            out.append("] O[ ");
            append_cells(&mut out, output_texts, index * self.n_outputs, self.n_outputs);
            out.append("]\n");
            index += 1;
        }
        out
    }
}

/// Replaces what `target` holds by the `width` values of `source` that start
/// at `from`.
fn copy_range<T: Copy>(source: &Vec<T>, from: usize, width: usize, target: &mut Vec<T>)
    requires
        from + width <= source@.len(),
    ensures
        final(target)@ == source@.subrange(from as int, from + width),
{
    target.clear();
    let total: usize = source.len();
    let mut i: usize = 0;
    while i < width
        invariant
            i <= width,
            from + width <= source@.len(),
            source@.len() == total,
            target@ == source@.subrange(from as int, from + i),
        decreases width - i,
    {
        target.push(source[from + i]);
        i += 1;
    }
}

/// The text that `render` gives for each of `values`, in their order.
fn render_all<T, F: Fn(&T) -> String>(values: &Vec<T>, render: &F) -> (texts: Vec<String>)
    requires
        forall|value: &T| call_requires(*render, (value, )),
    ensures
        rendered(*render, values@, texts@),
{
    let mut texts: Vec<String> = Vec::new();
    let mut i: usize = 0;
    while i < values.len()
        invariant
            i <= values.len(),
            forall|value: &T| call_requires(*render, (value, )),
            rendered(*render, values@.subrange(0, i as int), texts@),
        decreases values.len() - i,
    {
        let text = render(&values[i]);
        texts.push(text);
        i += 1;
    }
    texts
}

/// Appends the `width` texts that start at `from`, each followed by a blank.
fn append_cells(out: &mut String, texts: &[String], from: usize, width: usize)
    requires
        from + width <= texts@.len(),
    ensures
        final(out)@ == old(out)@ + cells(texts_of(texts@).subrange(from as int, from + width)),
{
    let total: usize = texts.len();
    let mut i: usize = 0;
    while i < width
        invariant
            i <= width,
            from + width <= texts@.len(),
            texts@.len() == total,
            out@ == old(out)@ + cells(texts_of(texts@).subrange(from as int, from + i)),
        decreases width - i,
    {
        let ghost before = texts_of(texts@).subrange(from as int, from + i);
        let ghost after = texts_of(texts@).subrange(from as int, from + i + 1);
        out.append(texts[from + i].as_str());
        out.append(" ");
        proof {
            assert(after.drop_last() =~= before);
        }
        i += 1;
    }
}

/// Drawing is periodic: a draw number and the same number raised by any
/// multiple of the count yield the same example.
pub proof fn lemma_sample_periodic<T: Copy>(data: TrainingData<T>, n: nat, k: nat)
    requires
        data.wf(),
        data.count() > 0,
    ensures
        data.sample_input(n) == data.sample_input(n + k * data.count()),
        data.sample_output(n) == data.sample_output(n + k * data.count()),
{
    let c = data.count() as int;
    vstd::arithmetic::div_mod::lemma_mod_multiples_vanish(k as int, n as int, c);
}

/// Every draw yields an example of the store's widths, and it is the one
/// stored at the draw number's remainder on division by the count.
pub proof fn lemma_sample_is_stored<T: Copy>(data: TrainingData<T>, n: nat)
    requires
        data.wf(),
        data.count() > 0,
    ensures
        n % data.count() < data.count(),
        data.sample_input(n) == data.example_input(n % data.count()),
        data.sample_output(n) == data.example_output(n % data.count()),
        data.sample_input(n).len() == data.input_width(),
        data.sample_output(n).len() == data.output_width(),
{
    let c = data.count() as int;
    let k = (n % data.count()) as int;
    let wi = data.input_width() as int;
    let wo = data.output_width() as int;
    assert(k * wi + wi <= c * wi && 0 <= k * wi) by (nonlinear_arith)
        requires
            0 <= k < c,
            wi >= 1,
    ;
    assert(k * wo + wo <= c * wo && 0 <= k * wo) by (nonlinear_arith)
        requires
            0 <= k < c,
            wo >= 1,
    ;
}

} // verus!

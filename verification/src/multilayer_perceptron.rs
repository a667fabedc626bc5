//! The learning engine: layers, forward propagation, backpropagation and
//! batched weight updates.
//!
//! A network is an ordered sequence of layers. Every layer reads a biased
//! input: the caller's input, or the previous layer's activations, with a
//! constant bias term appended as the last entry. Shapes are fixed at
//! construction and every operation here preserves them; the contracts pin
//! the shapes and every computed value as an expression over the spec-level
//! arithmetic of [`crate::scalar::Scalar`].

use vstd::prelude::*;

use crate::activation_func::{
    ActivationFunction,
    ActivationFunctionEnum,
    activation_value,
    derivative_value,
    map_derivative,
    map_function,
};
use crate::matrix::{Matrix, dot, hadamard, outer, vec_minus, vec_plus, vec_times_matrix, with_bias};
use crate::scalar::{Scalar, WeightSource, drawn_rest, drawn_seq};
use std::collections::HashMap;
use vstd::slice::slice_to_vec;

verus! {

/// One affine transform plus its activation function.
///
/// `weights` maps a biased input of length `weights.rows` — its last entry
/// the constant bias term, its last row the learnable per-neuron offsets —
/// to one activation per column.
#[derive(Clone, Debug, PartialEq)]
pub struct Layer<S> {
    pub weights: Matrix<S>,
    pub activation_function: ActivationFunctionEnum<S>,
}

impl<S: Scalar> Layer<S> {
    /// A layer maps at least one input to at least one neuron.
    pub open spec fn wf(self) -> bool {
        &&& self.weights.wf()
        &&& self.weights.rows >= 1
        &&& self.weights.cols >= 1
    }

    fn new(activation_function: ActivationFunctionEnum<S>, weights: Matrix<S>) -> (l: Layer<S>)
        ensures
            l.weights == weights,
            l.activation_function == activation_function,
    {
        Layer { weights, activation_function }
    }

    /// The pre-activation values: the input row times the weight matrix.
    fn net(&self, inputs: &Vec<S>) -> (r: Vec<S>)
        requires
            self.wf(),
            inputs@.len() == self.weights.rows,
        ensures
            r@.len() == self.weights.cols,
            forall|c: int|
                0 <= c < self.weights.cols ==> #[trigger] r@[c] == dot(
                    inputs@,
                    self.weights.col(c),
                ),
    {
        vec_times_matrix(inputs, &self.weights)
    }

    /// How long an input vector this layer expects.
    pub fn num_inputs(&self) -> (r: usize)
        ensures
            r == self.weights.rows,
    {
        self.weights.rows
    }

    /// The layer's activations: `net`, then the activation function applied
    /// entry by entry.
    fn activate(&self, inputs: &Vec<S>) -> (r: Vec<S>)
        requires
            self.wf(),
            inputs@.len() == self.weights.rows,
        ensures
            r@.len() == self.weights.cols,
            r@ == layer_signal(*self, inputs@),
    {
        let res = self.net(inputs);
        let r = map_function(&self.activation_function, &res);
        proof {
            assert(r@ =~= layer_signal(*self, inputs@));
        }
        r
    }
}

/// The activations a layer produces from its input: entry `c` is the
/// activation function at the weighted sum of column `c`.
pub open spec fn layer_signal<S: Scalar>(l: Layer<S>, input: Seq<S>) -> Seq<S> {
    Seq::new(
        l.weights.cols as nat,
        |c: int| activation_value(l.activation_function, dot(input, l.weights.col(c))),
    )
}

/// The sparse-autoencoder penalty configuration.
///
/// `sparsity` is the target average activation of a hidden layer and must
/// lie strictly between zero and one; the engine divides by it and by its
/// complement.
#[derive(Clone, Copy, Debug, PartialEq)]
pub struct SparsityParams<S> {
    pub sparsity: S,
    pub penalty_factor: S,
}

/// A multilayer perceptron: layers in input-to-output order, one global
/// learning rate, and an optional sparsity penalty.
#[derive(Clone, Debug, PartialEq)]
pub struct MultilayerPerceptron<S> {
    pub layers: Vec<Layer<S>>,
    pub learning_rate: S,
    pub sparsity_params: Option<SparsityParams<S>>,
}

impl<S: Scalar> MultilayerPerceptron<S> {
    /// Layer shapes chain: every layer reads what the previous one
    /// produces, extended by the bias term.
    pub open spec fn wf(self) -> bool {
        &&& self.layers@.len() >= 1
        &&& forall|i: int| 0 <= i < self.layers@.len() ==> (#[trigger] self.layers@[i]).wf()
        &&& forall|i: int|
            1 <= i < self.layers@.len() ==> (#[trigger] self.layers@[i]).weights.rows
                == self.layers@[i - 1].weights.cols + 1
    }

    /// The length of input vectors the network accepts.
    pub open spec fn num_inputs(self) -> int {
        self.layers@[0].weights.rows - 1
    }

    /// The length of the output vector: the last layer's width.
    pub open spec fn num_outputs(self) -> int {
        self.layers@[self.layers@.len() - 1].weights.cols as int
    }

    /// The biased input layer `i` reads when the network runs on `input`:
    /// the caller's input for the first layer, the previous layer's
    /// activations after that, always with the constant bias term appended.
    pub open spec fn trace_at(self, input: Seq<S>, i: int) -> Seq<S>
        decreases i,
    {
        if i <= 0 {
            input.push(S::one_spec())
        } else {
            layer_signal(self.layers@[i - 1], self.trace_at(input, i - 1)).push(S::one_spec())
        }
    }

    /// The network's output on `input`: the last layer's activations (the
    /// output is not bias-extended).
    pub open spec fn output_of(self, input: Seq<S>) -> Seq<S> {
        layer_signal(
            self.layers@[self.layers@.len() - 1],
            self.trace_at(input, self.layers@.len() - 1),
        )
    }

    /// Same topology, activation functions and configuration: everything a
    /// weight update must leave untouched.
    pub open spec fn same_structure(self, other: MultilayerPerceptron<S>) -> bool {
        &&& self.layers@.len() == other.layers@.len()
        &&& forall|i: int|
            0 <= i < self.layers@.len() ==> (#[trigger] self.layers@[i]).weights.same_shape(
                other.layers@[i].weights,
            ) && self.layers@[i].activation_function == other.layers@[i].activation_function
        &&& self.learning_rate == other.learning_rate
        &&& self.sparsity_params == other.sparsity_params
    }
}

/// How many inputs layer `i` of a planned network reads: the biased input
/// for the first layer, the previous width after that.
pub open spec fn planned_rows<S>(
    inputs: int,
    plan: Seq<(usize, ActivationFunctionEnum<S>)>,
    i: int,
) -> int {
    if i == 0 {
        inputs + 1
    } else {
        plan[i - 1].0 + 1
    }
}

/// How many weights layer `i` of a planned network holds.
pub open spec fn planned_count<S>(
    inputs: int,
    plan: Seq<(usize, ActivationFunctionEnum<S>)>,
    i: int,
) -> nat {
    (planned_rows(inputs, plan, i) * plan[i].0) as nat
}

/// The weight source's state once the layers before layer `i` have drawn
/// their weights.
pub open spec fn source_after<S: Scalar, W: WeightSource<S>>(
    w: W,
    inputs: int,
    plan: Seq<(usize, ActivationFunctionEnum<S>)>,
    i: int,
) -> W
    decreases i,
{
    if i <= 0 {
        w
    } else {
        drawn_rest(source_after(w, inputs, plan, i - 1), planned_count(inputs, plan, i - 1))
    }
}

/// A constructible network plan: at least one layer, no zero-sized layer,
/// and every weight matrix small enough to allocate.
pub open spec fn valid_plan<S>(inputs: int, plan: Seq<(usize, ActivationFunctionEnum<S>)>) -> bool {
    &&& plan.len() >= 1
    &&& inputs + 1 <= usize::MAX
    &&& forall|i: int| 0 <= i < plan.len() ==> 1 <= (#[trigger] plan[i]).0 < usize::MAX
    &&& forall|i: int|
        0 <= i < plan.len() ==> planned_rows(inputs, plan, i) * (#[trigger] plan[i]).0
            <= usize::MAX
}

impl<S: Scalar> MultilayerPerceptron<S> {
    /// Build a network of freshly drawn weights.
    ///
    /// `layers` gives each layer's width and activation function in order;
    /// `weights` supplies the initial weight values (typically small random
    /// numbers). Sparsity starts disabled.
    pub fn new<W: WeightSource<S>>(
        learning_rate: S,
        inputs: usize,
        layers: &[(usize, ActivationFunctionEnum<S>)],
        weights: &mut W,
    ) -> (r: MultilayerPerceptron<S>)
        requires
            valid_plan(inputs as int, layers@),
        ensures
            r.wf(),
            r.layers@.len() == layers@.len(),
            r.learning_rate == learning_rate,
            r.sparsity_params is None,
            r.num_inputs() == inputs,
            forall|i: int|
                0 <= i < layers@.len() ==> (#[trigger] r.layers@[i]).weights.cols == layers@[i].0
                    && r.layers@[i].weights.rows == planned_rows(inputs as int, layers@, i)
                    && r.layers@[i].activation_function == layers@[i].1,
            forall|i: int|
                0 <= i < layers@.len() ==> (#[trigger] r.layers@[i]).weights.data@ == drawn_seq(
                    source_after(*old(weights), inputs as int, layers@, i),
                    planned_count(inputs as int, layers@, i),
                ),
            *final(weights) == source_after(
                *old(weights),
                inputs as int,
                layers@,
                layers@.len() as int,
            ),
    {
        let mut l: Vec<Layer<S>> = Vec::new();
        let mut prev_layer_size: usize = inputs + 1;
        let n = layers.len();
        let mut i: usize = 0;
        while i < n
            invariant
                valid_plan(inputs as int, layers@),
                n == layers@.len(),
                i <= n,
                l@.len() == i,
                prev_layer_size == planned_rows(inputs as int, layers@, i as int),
                *weights == source_after(*old(weights), inputs as int, layers@, i as int),
                forall|k: int|
                    0 <= k < i ==> (#[trigger] l@[k]).wf() && l@[k].weights.cols == layers@[k].0
                        && l@[k].weights.rows == planned_rows(inputs as int, layers@, k)
                        && l@[k].activation_function == layers@[k].1,
                forall|k: int|
                    0 <= k < i ==> (#[trigger] l@[k]).weights.data@ == drawn_seq(
                        source_after(*old(weights), inputs as int, layers@, k),
                        planned_count(inputs as int, layers@, k),
                    ),
            decreases n - i,
        {
            let size = layers[i].0;
            let act = layers[i].1;
            let w = Matrix::from_source(prev_layer_size, size, weights);
            proof {
                assert(source_after(*old(weights), inputs as int, layers@, i + 1) == drawn_rest(
                    source_after(*old(weights), inputs as int, layers@, i as int),
                    planned_count(inputs as int, layers@, i as int),
                ));
            }
            l.push(Layer::new(act, w));
            prev_layer_size = size + 1;
            i = i + 1;
        }
        MultilayerPerceptron { layers: l, learning_rate, sparsity_params: None }
    }

    /// Run the network forward.
    ///
    /// Returns the output activations together with the forward trace: the
    /// biased input each layer read, in layer order. Every trace entry
    /// carries the constant bias term as its last entry; the final output
    /// does not (it is not pushed to the trace). The output vector is
    /// exactly as long as the last layer is wide.
    pub fn feed_forward(&self, input: &[S]) -> (r: (Vec<S>, Vec<Vec<S>>))
        requires
            self.wf(),
            input@.len() + 1 == self.layers@[0].weights.rows,
        ensures
            r.0@.len() == self.num_outputs(),
            r.0@ == self.output_of(input@),
            r.1@.len() == self.layers@.len(),
            forall|i: int|
                0 <= i < r.1@.len() ==> (#[trigger] r.1@[i])@.len() == self.layers@[i].weights.rows,
            forall|i: int|
                0 <= i < r.1@.len() ==> (#[trigger] r.1@[i])@ == self.trace_at(input@, i),
            forall|k: int| 0 <= k < input@.len() ==> r.1@[0]@[k] == input@[k],
    {
        let n = self.layers.len();
        let mut layer_inputs: Vec<Vec<S>> = Vec::new();
        let mut signal = with_bias(input);
        let mut i: usize = 0;
        while i < n
            invariant
                self.wf(),
                n == self.layers@.len(),
                i <= n,
                layer_inputs@.len() == i,
                signal@.len() == if i < n {
                    self.layers@[i as int].weights.rows as int
                } else {
                    self.num_outputs()
                },
                i < n ==> signal@ == self.trace_at(input@, i as int),
                i == n ==> signal@ == self.output_of(input@),
                forall|k: int|
                    0 <= k < i ==> (#[trigger] layer_inputs@[k])@.len()
                        == self.layers@[k].weights.rows,
                forall|k: int|
                    0 <= k < i ==> (#[trigger] layer_inputs@[k])@ == self.trace_at(input@, k),
            decreases n - i,
        {
            let layer = &self.layers[i];
            let new_signal = layer.activate(&signal);
            proof {
                assert(new_signal@ == layer_signal(
                    self.layers@[i as int],
                    self.trace_at(input@, i as int),
                ));
            }
            layer_inputs.push(signal);
            if i + 1 < n {
                proof {
                    assert(self.layers@[i + 1].wf());
                }
                signal = with_bias(new_signal.as_slice());
                proof {
                    assert(signal@ == self.trace_at(input@, i + 1));
                }
            } else {
                signal = new_signal;
                proof {
                    assert(signal@ == self.output_of(input@));
                }
            }
            i = i + 1;
        }
        proof {
            assert(self.trace_at(input@, 0) == input@.push(S::one_spec()));
        }
        (signal, layer_inputs)
    }
}

/// The KL-divergence penalty gradient at one batch-average activation `a`:
/// `-penalty_factor * (-(a * (1/sparsity)) + (1 - a) * (1/(1 - sparsity)))`.
pub open spec fn penalty_value<S: Scalar>(params: SparsityParams<S>, a: S) -> S {
    params.penalty_factor.neg_spec().mul_spec(
        a.mul_spec(S::one_spec().div_spec(params.sparsity)).neg_spec().add_spec(
            S::one_spec().sub_spec(a).mul_spec(
                S::one_spec().div_spec(S::one_spec().sub_spec(params.sparsity)),
            ),
        ),
    )
}

/// The sparse-autoencoder penalty contribution for one hidden layer's error
/// signal, entry by entry at the batch-average activations.
fn sparsity_penalty<S: Scalar>(params: &SparsityParams<S>, avg: &Vec<S>) -> (r: Vec<S>)
    ensures
        r@.len() == avg@.len(),
        forall|k: int| 0 <= k < r@.len() ==> #[trigger] r@[k] == penalty_value(*params, avg@[k]),
{
    let one = S::one();
    let inv_sparsity = one.div(&params.sparsity);
    let inv_complement = one.div(&one.minus(&params.sparsity));
    let n = avg.len();
    let mut r: Vec<S> = Vec::new();
    let mut k: usize = 0;
    while k < n
        invariant
            one == S::one_spec(),
            inv_sparsity == S::one_spec().div_spec(params.sparsity),
            inv_complement == S::one_spec().div_spec(S::one_spec().sub_spec(params.sparsity)),
            n == avg@.len(),
            k <= n,
            r@.len() == k,
            forall|j: int| 0 <= j < k ==> #[trigger] r@[j] == penalty_value(*params, avg@[j]),
        decreases n - k,
    {
        let away = avg[k].times(&inv_sparsity).neg();
        let toward = one.minus(&avg[k]).times(&inv_complement);
        r.push(params.penalty_factor.neg().times(&away.plus(&toward)));
        k = k + 1;
    }
    r
}

/// The views of a list of vectors.
pub open spec fn rows_view<S>(t: Seq<Vec<S>>) -> Seq<Seq<S>> {
    Seq::new(t.len(), |i: int| t[i]@)
}

impl<S: Scalar> MultilayerPerceptron<S> {
    /// The error signal of layer `j` in a backward pass on `(input,
    /// target)`. For the output layer it is the output error times the
    /// derivative at the pre-activations; for a hidden layer, the next
    /// layer's error pushed back through that layer's weights — with the
    /// sparsity penalty added at the batch-average activations when `pen`
    /// carries them — times the derivative at this layer's
    /// pre-activations. The bias row's pushed-back component is dropped:
    /// no error flows into the constant input.
    pub open spec fn error_at(
        self,
        input: Seq<S>,
        target: Seq<S>,
        pen: Option<(SparsityParams<S>, Seq<Seq<S>>)>,
        j: int,
    ) -> Seq<S>
        decreases self.layers@.len() - 1 - j,
    {
        let l = self.layers@[j];
        if j >= self.layers@.len() - 1 {
            Seq::new(
                l.weights.cols as nat,
                |k: int|
                    self.output_of(input)[k].sub_spec(target[k]).mul_spec(
                        derivative_value(
                            l.activation_function,
                            dot(self.trace_at(input, j), l.weights.col(k)),
                        ),
                    ),
            )
        } else {
            let upper = self.layers@[j + 1];
            let err_up = self.error_at(input, target, pen, j + 1);
            Seq::new(
                l.weights.cols as nat,
                |k: int|
                    {
                        let back = dot(err_up, upper.weights.row(k));
                        let back_pen = match pen {
                            Some(p) => back.add_spec(penalty_value(p.0, p.1[j + 1][k])),
                            None => back,
                        };
                        back_pen.mul_spec(
                            derivative_value(
                                l.activation_function,
                                dot(self.trace_at(input, j), l.weights.col(k)),
                            ),
                        )
                    },
            )
        }
    }

    /// The weight delta backpropagation yields for entry `(r, c)` of layer
    /// `j`: the learning rate times the outer product of the layer's
    /// biased input and its error signal.
    pub open spec fn delta_value(
        self,
        input: Seq<S>,
        target: Seq<S>,
        pen: Option<(SparsityParams<S>, Seq<Seq<S>>)>,
        j: int,
        r: int,
        c: int,
    ) -> S {
        self.learning_rate.mul_spec(
            self.trace_at(input, j)[r].mul_spec(self.error_at(input, target, pen, j)[c]),
        )
    }

    /// Trace entry `r` of layer `i`'s biased input, summed over the first
    /// `e` examples of a batch.
    pub open spec fn summed_trace(self, batch: Seq<(Vec<S>, Vec<S>)>, e: int, i: int, r: int) -> S
        decreases e,
    {
        if e <= 1 {
            self.trace_at(batch[0].0@, i)[r]
        } else {
            self.summed_trace(batch, e - 1, i, r).add_spec(self.trace_at(batch[e - 1].0@, i)[r])
        }
    }

    /// The batch-average forward trace: the traces of the whole batch
    /// summed layer by layer and divided by the batch size.
    pub open spec fn avg_trace(self, batch: Seq<(Vec<S>, Vec<S>)>) -> Seq<Seq<S>> {
        Seq::new(
            self.layers@.len(),
            |i: int|
                Seq::new(
                    self.layers@[i].weights.rows as nat,
                    |r: int|
                        self.summed_trace(batch, batch.len() as int, i, r).div_spec(
                            S::from_count_spec(batch.len() as usize),
                        ),
                ),
        )
    }

    /// The penalty context a batch update runs under: the sparsity
    /// parameters with the batch-average trace when sparsity is
    /// configured, nothing otherwise.
    pub open spec fn batch_pen(self, batch: Seq<(Vec<S>, Vec<S>)>) -> Option<
        (SparsityParams<S>, Seq<Seq<S>>),
    > {
        match self.sparsity_params {
            Some(sp) => Some((sp, self.avg_trace(batch))),
            None => None,
        }
    }

    /// The gradient entry `(r, c)` of layer `j`, summed over the first `e`
    /// examples of a batch.
    pub open spec fn summed_delta(
        self,
        batch: Seq<(Vec<S>, Vec<S>)>,
        pen: Option<(SparsityParams<S>, Seq<Seq<S>>)>,
        e: int,
        j: int,
        r: int,
        c: int,
    ) -> S
        decreases e,
    {
        if e <= 1 {
            self.delta_value(batch[0].0@, batch[0].1@, pen, j, r, c)
        } else {
            self.summed_delta(batch, pen, e - 1, j, r, c).add_spec(
                self.delta_value(batch[e - 1].0@, batch[e - 1].1@, pen, j, r, c),
            )
        }
    }

    /// The shape the forward trace of this network has, and that the
    /// averaged activations handed to `backpropagate` must have.
    pub open spec fn trace_shaped(self, trace: Seq<Vec<S>>) -> bool {
        &&& trace.len() == self.layers@.len()
        &&& forall|i: int|
            0 <= i < trace.len() ==> (#[trigger] trace[i])@.len() == self.layers@[i].weights.rows
    }

    /// One example's gradient, by reverse-mode chain rule.
    ///
    /// Returns one weight-delta matrix per layer, in layer order, each
    /// shaped exactly like that layer's weight matrix and already scaled by
    /// the learning rate. When the network is configured for sparsity and
    /// batch-average activations are supplied, the hidden layers' error
    /// signals get the KL penalty contribution added.
    pub fn backpropagate(
        &self,
        input: &[S],
        target: &[S],
        average_activations_of_hidden_layers: Option<&Vec<Vec<S>>>,
    ) -> (deltas: Vec<Matrix<S>>)
        requires
            self.wf(),
            input@.len() + 1 == self.layers@[0].weights.rows,
            target@.len() == self.num_outputs(),
            match average_activations_of_hidden_layers {
                Some(avg) => self.sparsity_params is Some ==> self.trace_shaped(avg@),
                None => true,
            },
        ensures
            deltas@.len() == self.layers@.len(),
            forall|i: int|
                0 <= i < deltas@.len() ==> (#[trigger] deltas@[i]).wf() && deltas@[i].rows
                    == self.layers@[i].weights.rows && deltas@[i].cols
                    == self.layers@[i].weights.cols,
            ({
                let pen = match (self.sparsity_params, average_activations_of_hidden_layers) {
                    (Some(sp), Some(avg)) => Some((sp, rows_view(avg@))),
                    _ => None,
                };
                forall|j: int, r: int, c: int|
                    0 <= j < self.layers@.len() && 0 <= r < self.layers@[j].weights.rows && 0 <= c
                        < self.layers@[j].weights.cols ==> #[trigger] deltas@[j].entry(r, c)
                        == self.delta_value(input@, target@, pen, j, r, c)
            }),
    {
        let ghost pen = match (self.sparsity_params, average_activations_of_hidden_layers) {
            (Some(sp), Some(avg)) => Some((sp, rows_view(avg@))),
            _ => None,
        };
        let (final_out, steps) = self.feed_forward(input);
        let num_layers = self.layers.len();

        let last_layer = &self.layers[num_layers - 1];
        let net_out = last_layer.net(&steps[num_layers - 1]);
        let activation_derivative = map_derivative(&last_layer.activation_function, &net_out);

        let expected_output = slice_to_vec(target);
        let error = vec_minus(&final_out, &expected_output);
        let output_layer_delta = hadamard(&error, &activation_derivative);

        proof {
            assert(output_layer_delta@ =~= self.error_at(input@, target@, pen, num_layers - 1));
        }

        let mut deltas_rev: Vec<Vec<S>> = Vec::new();
        deltas_rev.push(output_layer_delta);

        let mut i: usize = 0;
        while i < num_layers - 1
            invariant
                self.wf(),
                num_layers == self.layers@.len(),
                num_layers >= 1,
                self.trace_shaped(steps@),
                forall|k: int|
                    0 <= k < num_layers ==> (#[trigger] steps@[k])@ == self.trace_at(input@, k),
                match average_activations_of_hidden_layers {
                    Some(avg) => self.sparsity_params is Some ==> self.trace_shaped(avg@),
                    None => true,
                },
                pen == (match (self.sparsity_params, average_activations_of_hidden_layers) {
                    (Some(sp), Some(avg)) => Some((sp, rows_view(avg@))),
                    _ => None,
                }),
                i <= num_layers - 1,
                deltas_rev@.len() == i + 1,
                forall|k: int|
                    0 <= k <= i ==> (#[trigger] deltas_rev@[k])@.len() == self.layers@[num_layers
                        - 1 - k].weights.cols,
                forall|k: int|
                    0 <= k <= i ==> (#[trigger] deltas_rev@[k])@ == self.error_at(
                        input@,
                        target@,
                        pen,
                        num_layers - 1 - k,
                    ),
            decreases num_layers - 1 - i,
        {
            let layer_index = num_layers - 1 - i;
            let inputs_to_current_hidden_layer = &steps[layer_index - 1];
            let l = &self.layers[layer_index - 1];

            let net_hidden = l.net(inputs_to_current_hidden_layer);
            let activation_derivative = map_derivative(&l.activation_function, &net_hidden);

            let neurons_transposed = self.layers[layer_index].weights.transpose();
            let mut prev_delta_times_weights = vec_times_matrix(&deltas_rev[i], &neurons_transposed);

            match self.sparsity_params {
                Some(sp) => {
                    match average_activations_of_hidden_layers {
                        Some(avg_acts) => {
                            let penalty_term = sparsity_penalty(&sp, &avg_acts[layer_index]);
                            prev_delta_times_weights = vec_plus(
                                &prev_delta_times_weights,
                                &penalty_term,
                            );
                        },
                        None => {},
                    }
                },
                None => {},
            }

            // the last entry answers for the bias row of the layer above; no
            // error flows back through the constant input
            let _bias_component = prev_delta_times_weights.pop();

            let delta = hadamard(&prev_delta_times_weights, &activation_derivative);
            proof {
                let j = layer_index - 1;
                let upper = self.layers@[layer_index as int];
                assert forall|k: int| 0 <= k < upper.weights.rows implies neurons_transposed.col(k)
                    == upper.weights.row(k) by {
                    assert(neurons_transposed.col(k) =~= upper.weights.row(k));
                }
                assert(delta@ =~= self.error_at(input@, target@, pen, j as int));
            }
            deltas_rev.push(delta);
            i = i + 1;
        }

        let mut result: Vec<Matrix<S>> = Vec::new();
        let mut j: usize = 0;
        while j < num_layers
            invariant
                self.wf(),
                num_layers == self.layers@.len(),
                self.trace_shaped(steps@),
                forall|k: int|
                    0 <= k < num_layers ==> (#[trigger] steps@[k])@ == self.trace_at(input@, k),
                deltas_rev@.len() == num_layers,
                forall|k: int|
                    0 <= k < num_layers ==> (#[trigger] deltas_rev@[k])@.len()
                        == self.layers@[num_layers - 1 - k].weights.cols,
                forall|k: int|
                    0 <= k < num_layers ==> (#[trigger] deltas_rev@[k])@ == self.error_at(
                        input@,
                        target@,
                        pen,
                        num_layers - 1 - k,
                    ),
                j <= num_layers,
                result@.len() == j,
                forall|k: int|
                    0 <= k < j ==> (#[trigger] result@[k]).wf() && result@[k].rows
                        == self.layers@[k].weights.rows && result@[k].cols
                        == self.layers@[k].weights.cols,
                forall|k: int, r: int, c: int|
                    0 <= k < j && 0 <= r < self.layers@[k].weights.rows && 0 <= c
                        < self.layers@[k].weights.cols ==> #[trigger] result@[k].entry(r, c)
                        == self.delta_value(input@, target@, pen, k, r, c),
            decreases num_layers - j,
        {
            let m = outer(&steps[j], &deltas_rev[num_layers - 1 - j]);
            result.push(m.scale(&self.learning_rate));
            j = j + 1;
        }
        result
    }
}

/// Entrywise sum of two forward traces.
fn add_traces<S: Scalar>(a: &Vec<Vec<S>>, b: &Vec<Vec<S>>) -> (r: Vec<Vec<S>>)
    requires
        a@.len() == b@.len(),
        forall|i: int| 0 <= i < a@.len() ==> (#[trigger] a@[i])@.len() == b@[i]@.len(),
    ensures
        r@.len() == a@.len(),
        forall|i: int| 0 <= i < r@.len() ==> (#[trigger] r@[i])@.len() == a@[i]@.len(),
        forall|i: int, k: int|
            0 <= i < r@.len() && 0 <= k < r@[i]@.len() ==> #[trigger] r@[i]@[k] == a@[i]@[k].add_spec(
                b@[i]@[k],
            ),
{
    let n = a.len();
    let mut r: Vec<Vec<S>> = Vec::new();
    let mut i: usize = 0;
    while i < n
        invariant
            n == a@.len(),
            a@.len() == b@.len(),
            forall|k: int| 0 <= k < a@.len() ==> (#[trigger] a@[k])@.len() == b@[k]@.len(),
            i <= n,
            r@.len() == i,
            forall|k: int| 0 <= k < i ==> (#[trigger] r@[k])@.len() == a@[k]@.len(),
            forall|k: int, j: int|
                0 <= k < i && 0 <= j < r@[k]@.len() ==> #[trigger] r@[k]@[j] == a@[k]@[j].add_spec(
                    b@[k]@[j],
                ),
        decreases n - i,
    {
        r.push(vec_plus(&a[i], &b[i]));
        i = i + 1;
    }
    r
}

/// Every entry of a summed trace divided by the batch size.
fn div_trace<S: Scalar>(t: &Vec<Vec<S>>, count: usize) -> (r: Vec<Vec<S>>)
    ensures
        r@.len() == t@.len(),
        forall|i: int| 0 <= i < r@.len() ==> (#[trigger] r@[i])@.len() == t@[i]@.len(),
        forall|i: int, k: int|
            0 <= i < r@.len() && 0 <= k < r@[i]@.len() ==> #[trigger] r@[i]@[k]
                == t@[i]@[k].div_spec(S::from_count_spec(count)),
{
    let divisor = S::from_count(count);
    let n = t.len();
    let mut r: Vec<Vec<S>> = Vec::new();
    let mut i: usize = 0;
    while i < n
        invariant
            divisor == S::from_count_spec(count),
            n == t@.len(),
            i <= n,
            r@.len() == i,
            forall|k: int| 0 <= k < i ==> (#[trigger] r@[k])@.len() == t@[k]@.len(),
            forall|k: int, j: int|
                0 <= k < i && 0 <= j < r@[k]@.len() ==> #[trigger] r@[k]@[j] == t@[k]@[j].div_spec(
                    S::from_count_spec(count),
                ),
        decreases n - i,
    {
        let row = &t[i];
        let m = row.len();
        let mut out: Vec<S> = Vec::new();
        let mut j: usize = 0;
        while j < m
            invariant
                divisor == S::from_count_spec(count),
                row == t@[i as int],
                m == row@.len(),
                j <= m,
                out@.len() == j,
                forall|k: int|
                    0 <= k < j ==> #[trigger] out@[k] == row@[k].div_spec(
                        S::from_count_spec(count),
                    ),
            decreases m - j,
        {
            out.push(row[j].div(&divisor));
            j = j + 1;
        }
        r.push(out);
        i = i + 1;
    }
    r
}

/// Sum two per-layer delta sets, matrix by matrix: the reduction step of a
/// batch, usable by any fold or reduction tree since the shapes all agree.
pub fn add_delta_sets<S: Scalar>(a: Vec<Matrix<S>>, b: &Vec<Matrix<S>>) -> (r: Vec<Matrix<S>>)
    requires
        a@.len() == b@.len(),
        forall|i: int| 0 <= i < a@.len() ==> (#[trigger] a@[i]).wf() && a@[i].same_shape(b@[i]),
        forall|i: int| 0 <= i < b@.len() ==> (#[trigger] b@[i]).wf(),
    ensures
        r@.len() == a@.len(),
        forall|i: int| 0 <= i < r@.len() ==> (#[trigger] r@[i]).wf() && r@[i].same_shape(a@[i]),
        forall|i: int, rr: int, cc: int|
            0 <= i < r@.len() && 0 <= rr < a@[i].rows && 0 <= cc < a@[i].cols
                ==> #[trigger] r@[i].entry(rr, cc) == a@[i].entry(rr, cc).add_spec(
                b@[i].entry(rr, cc),
            ),
{
    let n = b.len();
    let ghost a0 = a@;
    let mut rest = a;
    let mut r: Vec<Matrix<S>> = Vec::new();
    let mut i: usize = 0;
    while i < n
        invariant
            n == a0.len(),
            a0.len() == b@.len(),
            forall|k: int| 0 <= k < a0.len() ==> (#[trigger] a0[k]).wf() && a0[k].same_shape(b@[k]),
            forall|k: int| 0 <= k < b@.len() ==> (#[trigger] b@[k]).wf(),
            i <= n,
            rest@ == a0.skip(i as int),
            r@.len() == i,
            forall|k: int|
                0 <= k < i ==> (#[trigger] r@[k]).wf() && r@[k].same_shape(a0[k]),
            forall|k: int, rr: int, cc: int|
                0 <= k < i && 0 <= rr < a0[k].rows && 0 <= cc < a0[k].cols
                    ==> #[trigger] r@[k].entry(rr, cc) == a0[k].entry(rr, cc).add_spec(
                    b@[k].entry(rr, cc),
                ),
        decreases n - i,
    {
        let mut m = rest.remove(0);
        proof {
            assert(m == a0[i as int]);
        }
        m.add_assign(&b[i]);
        r.push(m);
        i = i + 1;
    }
    r
}

impl<S: Scalar> MultilayerPerceptron<S> {
    /// The sparsity pre-pass: the forward traces of the whole batch summed
    /// layer by layer and divided by the batch size.
    pub fn average_activations(&self, batch: &[(Vec<S>, Vec<S>)]) -> (avg: Vec<Vec<S>>)
        requires
            self.wf(),
            batch@.len() >= 1,
            forall|e: int|
                0 <= e < batch@.len() ==> (#[trigger] batch@[e]).0@.len() + 1 == self.layers@[0].weights.rows,
        ensures
            self.trace_shaped(avg@),
            rows_view(avg@) == self.avg_trace(batch@),
    {
        let (_, first_trace) = self.feed_forward(batch[0].0.as_slice());
        let mut sum = first_trace;
        let mut e: usize = 1;
        while e < batch.len()
            invariant
                self.wf(),
                forall|k: int|
                    0 <= k < batch@.len() ==> (#[trigger] batch@[k]).0@.len() + 1
                        == self.layers@[0].weights.rows,
                1 <= e <= batch@.len(),
                self.trace_shaped(sum@),
                forall|i: int, r: int|
                    0 <= i < sum@.len() && 0 <= r < sum@[i]@.len() ==> #[trigger] sum@[i]@[r]
                        == self.summed_trace(batch@, e as int, i, r),
            decreases batch@.len() - e,
        {
            let (_, trace) = self.feed_forward(batch[e].0.as_slice());
            sum = add_traces(&sum, &trace);
            e = e + 1;
        }
        let avg = div_trace(&sum, batch.len());
        proof {
            assert(rows_view(avg@) =~~= self.avg_trace(batch@));
        }
        avg
    }

    /// Divide a summed delta set by the batch size and subtract it from the
    /// weights: the sequential update phase that ends every batch.
    pub fn apply_batch_deltas(&mut self, batch_delta: Vec<Matrix<S>>, count: usize)
        requires
            old(self).wf(),
            count >= 1,
            batch_delta@.len() == old(self).layers@.len(),
            forall|i: int|
                0 <= i < batch_delta@.len() ==> (#[trigger] batch_delta@[i]).wf()
                    && batch_delta@[i].rows == old(self).layers@[i].weights.rows
                    && batch_delta@[i].cols == old(self).layers@[i].weights.cols,
        ensures
            final(self).wf(),
            final(self).same_structure(*old(self)),
            forall|j: int, rr: int, cc: int|
                0 <= j < old(self).layers@.len() && 0 <= rr < old(self).layers@[j].weights.rows
                    && 0 <= cc < old(self).layers@[j].weights.cols
                    ==> #[trigger] final(self).layers@[j].weights.entry(rr, cc) == old(
                    self,
                ).layers@[j].weights.entry(rr, cc).sub_spec(
                    batch_delta@[j].entry(rr, cc).div_spec(S::from_count_spec(count)),
                ),
    {
        let n = self.layers.len();
        let mut rest = batch_delta;
        let mut new_layers: Vec<Layer<S>> = Vec::new();
        let mut i: usize = 0;
        while i < n
            invariant
                old(self).wf(),
                n == old(self).layers@.len(),
                self.layers@ == old(self).layers@.skip(i as int),
                self.learning_rate == old(self).learning_rate,
                self.sparsity_params == old(self).sparsity_params,
                count >= 1,
                batch_delta@.len() == n,
                forall|k: int|
                    0 <= k < n ==> (#[trigger] batch_delta@[k]).wf() && batch_delta@[k].rows
                        == old(self).layers@[k].weights.rows && batch_delta@[k].cols
                        == old(self).layers@[k].weights.cols,
                i <= n,
                rest@ == batch_delta@.skip(i as int),
                new_layers@.len() == i,
                forall|k: int|
                    0 <= k < i ==> (#[trigger] new_layers@[k]).wf()
                        && new_layers@[k].weights.same_shape(old(self).layers@[k].weights)
                        && new_layers@[k].activation_function
                        == old(self).layers@[k].activation_function,
                forall|k: int, rr: int, cc: int|
                    0 <= k < i && 0 <= rr < old(self).layers@[k].weights.rows && 0 <= cc < old(
                        self,
                    ).layers@[k].weights.cols ==> #[trigger] new_layers@[k].weights.entry(rr, cc)
                        == old(self).layers@[k].weights.entry(rr, cc).sub_spec(
                        batch_delta@[k].entry(rr, cc).div_spec(S::from_count_spec(count)),
                    ),
            decreases n - i,
        {
            let mut layer = self.layers.remove(0);
            let mut d = rest.remove(0);
            proof {
                assert(layer == old(self).layers@[i as int]);
                assert(d == batch_delta@[i as int]);
            }
            d.div_by_count(count);
            layer.weights.sub_assign(&d);
            new_layers.push(layer);
            i = i + 1;
        }
        self.layers = new_layers;
    }

    /// One full batch update.
    ///
    /// When sparsity is configured the batch-average activations are
    /// computed first; then every example's gradient is taken with
    /// `backpropagate`, the gradients are summed, averaged over the batch
    /// and subtracted from the weights. The topology, activation functions,
    /// learning rate and sparsity configuration are untouched; only weight
    /// values change.
    pub fn learn_batch(&mut self, batch: &[(Vec<S>, Vec<S>)])
        requires
            old(self).wf(),
            batch@.len() >= 1,
            forall|e: int|
                0 <= e < batch@.len() ==> (#[trigger] batch@[e]).0@.len() + 1
                    == old(self).layers@[0].weights.rows && batch@[e].1@.len()
                    == old(self).num_outputs(),
        ensures
            final(self).wf(),
            final(self).same_structure(*old(self)),
            forall|j: int, rr: int, cc: int|
                0 <= j < old(self).layers@.len() && 0 <= rr < old(self).layers@[j].weights.rows
                    && 0 <= cc < old(self).layers@[j].weights.cols
                    ==> #[trigger] final(self).layers@[j].weights.entry(rr, cc) == old(
                    self,
                ).layers@[j].weights.entry(rr, cc).sub_spec(
                    old(self).summed_delta(
                        batch@,
                        old(self).batch_pen(batch@),
                        batch@.len() as int,
                        j,
                        rr,
                        cc,
                    ).div_spec(S::from_count_spec(batch@.len() as usize)),
                ),
    {
        let ghost bpen = self.batch_pen(batch@);
        let average_activations_of_hidden_layers: Option<Vec<Vec<S>>> = match self.sparsity_params {
            Some(_) => Some(self.average_activations(batch)),
            None => None,
        };
        let avg_ref: Option<&Vec<Vec<S>>> = match &average_activations_of_hidden_layers {
            Some(v) => Some(v),
            None => None,
        };
        proof {
            assert((match (self.sparsity_params, avg_ref) {
                (Some(sp), Some(avg)) => Some((sp, rows_view(avg@))),
                _ => None,
            }) == bpen);
        }

        let mut batch_delta = self.backpropagate(
            batch[0].0.as_slice(),
            batch[0].1.as_slice(),
            avg_ref,
        );
        let mut e: usize = 1;
        while e < batch.len()
            invariant
                *self == *old(self),
                old(self).wf(),
                batch@.len() >= 1,
                forall|k: int|
                    0 <= k < batch@.len() ==> (#[trigger] batch@[k]).0@.len() + 1
                        == old(self).layers@[0].weights.rows && batch@[k].1@.len()
                        == old(self).num_outputs(),
                match avg_ref {
                    Some(avg) => self.sparsity_params is Some ==> self.trace_shaped(avg@),
                    None => true,
                },
                bpen == old(self).batch_pen(batch@),
                (match (self.sparsity_params, avg_ref) {
                    (Some(sp), Some(avg)) => Some((sp, rows_view(avg@))),
                    _ => None,
                }) == bpen,
                1 <= e <= batch@.len(),
                batch_delta@.len() == self.layers@.len(),
                forall|i: int|
                    0 <= i < batch_delta@.len() ==> (#[trigger] batch_delta@[i]).wf()
                        && batch_delta@[i].rows == self.layers@[i].weights.rows
                        && batch_delta@[i].cols == self.layers@[i].weights.cols,
                forall|j: int, rr: int, cc: int|
                    0 <= j < batch_delta@.len() && 0 <= rr < self.layers@[j].weights.rows && 0 <= cc
                        < self.layers@[j].weights.cols ==> #[trigger] batch_delta@[j].entry(rr, cc)
                        == old(self).summed_delta(batch@, bpen, e as int, j, rr, cc),
            decreases batch@.len() - e,
        {
            let d = self.backpropagate(batch[e].0.as_slice(), batch[e].1.as_slice(), avg_ref);
            batch_delta = add_delta_sets(batch_delta, &d);
            e = e + 1;
        }
        self.apply_batch_deltas(batch_delta, batch.len());
    }

    /// The batch update, explicitly on one thread.
    ///
    /// `learn_batch` itself folds the per-example gradients left to right in
    /// a single thread; a data-parallel front end instead distributes
    /// `backpropagate` over workers and reduces with `add_delta_sets`
    /// before calling `apply_batch_deltas`. Both paths compute the same
    /// reduction.
    pub fn learn_batch_no_parallel(&mut self, batch: &[(Vec<S>, Vec<S>)])
        requires
            old(self).wf(),
            batch@.len() >= 1,
            forall|e: int|
                0 <= e < batch@.len() ==> (#[trigger] batch@[e]).0@.len() + 1
                    == old(self).layers@[0].weights.rows && batch@[e].1@.len()
                    == old(self).num_outputs(),
        ensures
            final(self).wf(),
            final(self).same_structure(*old(self)),
            forall|j: int, rr: int, cc: int|
                0 <= j < old(self).layers@.len() && 0 <= rr < old(self).layers@[j].weights.rows
                    && 0 <= cc < old(self).layers@[j].weights.cols
                    ==> #[trigger] final(self).layers@[j].weights.entry(rr, cc) == old(
                    self,
                ).layers@[j].weights.entry(rr, cc).sub_spec(
                    old(self).summed_delta(
                        batch@,
                        old(self).batch_pen(batch@),
                        batch@.len() as int,
                        j,
                        rr,
                        cc,
                    ).div_spec(S::from_count_spec(batch@.len() as usize)),
                ),
    {
        self.learn_batch(batch)
    }
}

/// A persisted network paired with its neuron-to-label map: what the front
/// end writes to and reads from disk as one unit.
#[derive(Clone, Debug)]
pub struct NetFile<S>(pub MultilayerPerceptron<S>, pub HashMap<usize, String>);

/// One layer of a persisted snapshot: the weight matrix shape, the weights
/// flattened in column-major order, and the activation function with its
/// parameter.
#[derive(Clone, Debug, PartialEq)]
pub struct LayerSnapshot<S> {
    pub rows: usize,
    pub cols: usize,
    pub weights: Vec<S>,
    pub activation_function: ActivationFunctionEnum<S>,
}

/// The logical form in which a network is persisted: the learning rate, the
/// optional sparsity configuration, and the layers in order.
#[derive(Clone, Debug, PartialEq)]
pub struct NetworkSnapshot<S> {
    pub learning_rate: S,
    pub sparsity_params: Option<SparsityParams<S>>,
    pub layers: Vec<LayerSnapshot<S>>,
}

/// A snapshot that denotes a network: at least one layer, no empty layer,
/// each weight vector exactly filling its shape, and chained shapes.
pub open spec fn snapshot_wf<S>(snap: NetworkSnapshot<S>) -> bool {
    &&& snap.layers@.len() >= 1
    &&& forall|i: int|
        0 <= i < snap.layers@.len() ==> (#[trigger] snap.layers@[i]).rows >= 1
            && snap.layers@[i].cols >= 1 && snap.layers@[i].weights@.len() == snap.layers@[i].rows
            * snap.layers@[i].cols
    &&& forall|i: int|
        1 <= i < snap.layers@.len() ==> (#[trigger] snap.layers@[i]).rows == snap.layers@[i
            - 1].cols + 1
}

/// Field-by-field agreement between a network and a snapshot: same learning
/// rate, same sparsity configuration, and layer by layer the same shape,
/// the same column-major weights and the same activation function.
pub open spec fn models_match<S>(net: MultilayerPerceptron<S>, snap: NetworkSnapshot<S>) -> bool {
    &&& snap.learning_rate == net.learning_rate
    &&& snap.sparsity_params == net.sparsity_params
    &&& snap.layers@.len() == net.layers@.len()
    &&& forall|i: int|
        0 <= i < snap.layers@.len() ==> (#[trigger] snap.layers@[i]).rows
            == net.layers@[i].weights.rows && snap.layers@[i].cols == net.layers@[i].weights.cols
            && snap.layers@[i].weights@ == net.layers@[i].weights.data@
            && snap.layers@[i].activation_function == net.layers@[i].activation_function
}

/// Persisting and restoring loses nothing: two networks that agree with the
/// same snapshot agree with each other, field by field, on everything the
/// snapshot records.
pub proof fn lemma_snapshot_determines_network<S>(
    a: MultilayerPerceptron<S>,
    b: MultilayerPerceptron<S>,
    snap: NetworkSnapshot<S>,
)
    requires
        models_match(a, snap),
        models_match(b, snap),
    ensures
        a.learning_rate == b.learning_rate,
        a.sparsity_params == b.sparsity_params,
        a.layers@.len() == b.layers@.len(),
        forall|i: int|
            0 <= i < a.layers@.len() ==> (#[trigger] a.layers@[i]).weights.rows
                == b.layers@[i].weights.rows && a.layers@[i].weights.cols
                == b.layers@[i].weights.cols && a.layers@[i].weights.data@
                == b.layers@[i].weights.data@ && a.layers@[i].activation_function
                == b.layers@[i].activation_function,
{
    assert forall|i: int| 0 <= i < a.layers@.len() implies (#[trigger] a.layers@[i]).weights.rows
        == b.layers@[i].weights.rows && a.layers@[i].weights.cols == b.layers@[i].weights.cols
        && a.layers@[i].weights.data@ == b.layers@[i].weights.data@
        && a.layers@[i].activation_function == b.layers@[i].activation_function by {
        assert(snap.layers@[i].rows == a.layers@[i].weights.rows);
        assert(snap.layers@[i].rows == b.layers@[i].weights.rows);
    }
}

impl<S: Scalar> MultilayerPerceptron<S> {
    /// The network's persisted form. The snapshot records every field; a
    /// well-formed network always yields a well-formed snapshot.
    pub fn to_snapshot(&self) -> (snap: NetworkSnapshot<S>)
        ensures
            models_match(*self, snap),
            self.wf() ==> snapshot_wf(snap),
    {
        let n = self.layers.len();
        let mut layers: Vec<LayerSnapshot<S>> = Vec::new();
        let mut i: usize = 0;
        while i < n
            invariant
                n == self.layers@.len(),
                i <= n,
                layers@.len() == i,
                forall|k: int|
                    0 <= k < i ==> (#[trigger] layers@[k]).rows == self.layers@[k].weights.rows
                        && layers@[k].cols == self.layers@[k].weights.cols && layers@[k].weights@
                        == self.layers@[k].weights.data@ && layers@[k].activation_function
                        == self.layers@[k].activation_function,
            decreases n - i,
        {
            let layer = &self.layers[i];
            layers.push(
                LayerSnapshot {
                    rows: layer.weights.rows,
                    cols: layer.weights.cols,
                    weights: slice_to_vec(layer.weights.data.as_slice()),
                    activation_function: layer.activation_function,
                },
            );
            i = i + 1;
        }
        NetworkSnapshot {
            learning_rate: self.learning_rate,
            sparsity_params: self.sparsity_params,
            layers,
        }
    }

    /// Restore a network from its persisted form.
    ///
    /// Succeeds exactly on well-formed snapshots and then returns a
    /// well-formed network that agrees with the snapshot field by field; a
    /// malformed snapshot (empty, zero-sized layer, wrong weight count or a
    /// broken shape chain) is rejected.
    #[verifier::rlimit(60)]
    pub fn from_snapshot(snap: NetworkSnapshot<S>) -> (r: Option<MultilayerPerceptron<S>>)
        ensures
            r is Some <==> snapshot_wf(snap),
            match r {
                Some(net) => net.wf() && models_match(net, snap),
                None => true,
            },
    {
        let ghost snap0 = snap;
        let n = snap.layers.len();
        if n == 0 {
            return None;
        }
        let learning_rate = snap.learning_rate;
        let sparsity_params = snap.sparsity_params;
        let mut rest = snap.layers;
        let mut layers: Vec<Layer<S>> = Vec::new();
        let mut prev_cols: usize = 0;
        let mut i: usize = 0;
        while i < n
            invariant
                snap == snap0,
                n == snap0.layers@.len(),
                n >= 1,
                i <= n,
                rest@ == snap0.layers@.skip(i as int),
                layers@.len() == i,
                forall|k: int|
                    0 <= k < i ==> (#[trigger] layers@[k]).wf() && layers@[k].weights.rows
                        == snap0.layers@[k].rows && layers@[k].weights.cols == snap0.layers@[k].cols
                        && layers@[k].weights.data@ == snap0.layers@[k].weights@
                        && layers@[k].activation_function == snap0.layers@[k].activation_function,
                forall|k: int|
                    1 <= k < i ==> (#[trigger] snap0.layers@[k]).rows == snap0.layers@[k - 1].cols
                        + 1,
                i >= 1 ==> prev_cols == snap0.layers@[i - 1].cols,
            decreases n - i,
        {
            let ls = rest.remove(0);
            proof {
                assert(ls == snap0.layers@[i as int]);
            }
            if ls.rows == 0 || ls.cols == 0 {
                return None;
            }
            let rows_wide = ls.rows as u128;
            let cols_wide = ls.cols as u128;
            proof {
                assert(rows_wide * cols_wide < 0x1_0000_0000_0000_0000u128
                    * 0x1_0000_0000_0000_0000u128) by (nonlinear_arith)
                    requires
                        rows_wide < 0x1_0000_0000_0000_0000u128,
                        cols_wide < 0x1_0000_0000_0000_0000u128,
                ;
            }
            if rows_wide * cols_wide != (ls.weights.len() as u128) {
                return None;
            }
            if i > 0 && (prev_cols == usize::MAX || ls.rows != prev_cols + 1) {
                return None;
            }
            prev_cols = ls.cols;
            let weights = Matrix { rows: ls.rows, cols: ls.cols, data: ls.weights };
            layers.push(Layer::new(ls.activation_function, weights));
            i = i + 1;
        }
        proof {
            assert forall|k: int|
                0 <= k < n implies (#[trigger] snap0.layers@[k]).rows >= 1
                && snap0.layers@[k].cols >= 1 && snap0.layers@[k].weights@.len()
                == snap0.layers@[k].rows * snap0.layers@[k].cols by {
                assert(layers@[k].wf());
                assert(layers@[k].weights.data@ == snap0.layers@[k].weights@);
            }
        }
        let net = MultilayerPerceptron { layers, learning_rate, sparsity_params };
        proof {
            assert forall|k: int| 1 <= k < n implies (#[trigger] net.layers@[k]).weights.rows
                == net.layers@[k - 1].weights.cols + 1 by {
                assert(net.layers@[k].weights.rows == snap0.layers@[k].rows);
                assert(net.layers@[k - 1].weights.cols == snap0.layers@[k - 1].cols);
            }
            assert(net.wf());
            assert(models_match(net, snap));
        }
        Some(net)
    }
}

} // verus!

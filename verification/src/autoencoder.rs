//! Autoencoder reporting helpers: reconstruction error and learned-feature
//! extraction.

use vstd::prelude::*;

use crate::matrix::vec_minus;
use crate::multilayer_perceptron::MultilayerPerceptron;
use crate::scalar::Scalar;

verus! {

/// The sum of squares of a vector's entries, accumulated left to right
/// from zero.
pub open spec fn sum_squares<S: Scalar>(v: Seq<S>) -> S
    decreases v.len(),
{
    if v.len() == 0 {
        S::zero_spec()
    } else {
        sum_squares(v.drop_last()).add_spec(v.last().mul_spec(v.last()))
    }
}

/// The Euclidean norm of a vector: the square root of its sum of squares.
pub open spec fn norm_value<S: Scalar>(v: Seq<S>) -> S {
    sum_squares(v).sqrt_spec()
}

/// The Euclidean norm of a vector.
fn norm<S: Scalar>(v: &Vec<S>) -> (r: S)
    ensures
        r == norm_value(v@),
{
    let mut sum = S::zero();
    let n = v.len();
    let mut i: usize = 0;
    proof {
        assert(v@.take(0) =~= Seq::<S>::empty());
    }
    while i < n
        invariant
            n == v@.len(),
            i <= n,
            sum == sum_squares(v@.take(i as int)),
        decreases n - i,
    {
        proof {
            assert(v@.take(i + 1).drop_last() =~= v@.take(i as int));
            assert(v@.take(i + 1).last() == v@[i as int]);
        }
        sum = sum.plus(&v[i].times(&v[i]));
        i = i + 1;
    }
    proof {
        assert(v@.take(n as int) =~= v@);
    }
    sum.sqrt()
}

/// The reconstruction error of one example: the distance between its
/// target and the network's output.
pub open spec fn example_err<S: Scalar>(net: MultilayerPerceptron<S>, ex: (Vec<S>, Vec<S>)) -> S {
    norm_value(Seq::new(ex.1@.len(), |k: int| ex.1@[k].sub_spec(net.output_of(ex.0@)[k])))
}

/// The reconstruction errors of the first `e` examples, accumulated left
/// to right from zero.
pub open spec fn summed_err<S: Scalar>(
    net: MultilayerPerceptron<S>,
    data: Seq<(Vec<S>, Vec<S>)>,
    e: int,
) -> S
    decreases e,
{
    if e <= 0 {
        S::zero_spec()
    } else {
        summed_err(net, data, e - 1).add_spec(example_err(net, data[e - 1]))
    }
}

/// The average reconstruction error of the network over a dataset: the mean
/// distance between each target and the network's output.
pub fn calc_err<S: Scalar>(network: &MultilayerPerceptron<S>, data: &[(Vec<S>, Vec<S>)]) -> (r: S)
    requires
        network.wf(),
        data@.len() >= 1,
        forall|e: int|
            0 <= e < data@.len() ==> (#[trigger] data@[e]).0@.len() + 1
                == network.layers@[0].weights.rows && data@[e].1@.len() == network.num_outputs(),
    ensures
        r == summed_err(*network, data@, data@.len() as int).div_spec(
            S::from_count_spec(data@.len() as usize),
        ),
{
    let mut sum = S::zero();
    let n = data.len();
    let mut i: usize = 0;
    while i < n
        invariant
            network.wf(),
            n == data@.len(),
            forall|e: int|
                0 <= e < data@.len() ==> (#[trigger] data@[e]).0@.len() + 1
                    == network.layers@[0].weights.rows && data@[e].1@.len()
                    == network.num_outputs(),
            i <= n,
            sum == summed_err(*network, data@, i as int),
        decreases n - i,
    {
        let (out, _) = network.feed_forward(data[i].0.as_slice());
        let diff = vec_minus(&data[i].1, &out);
        proof {
            assert(diff@ =~= Seq::new(
                data@[i as int].1@.len(),
                |k: int| data@[i as int].1@[k].sub_spec(network.output_of(data@[i as int].0@)[k]),
            ));
        }
        sum = sum.plus(&norm(&diff));
        i = i + 1;
    }
    sum.div(&S::from_count(n))
}

/// One learned feature of a layer, as an image-ready vector: row `row` of
/// the layer's weight matrix, normalized by its own length and flipped
/// around one (`1 - w/|w|` per entry).
pub fn feature_vector<S: Scalar>(
    network: &MultilayerPerceptron<S>,
    layer_index: usize,
    row: usize,
) -> (r: Vec<S>)
    requires
        network.wf(),
        layer_index < network.layers@.len(),
        row < network.layers@[layer_index as int].weights.rows,
    ensures
        r@.len() == network.layers@[layer_index as int].weights.cols,
        forall|j: int|
            0 <= j < r@.len() ==> #[trigger] r@[j] == S::one_spec().sub_spec(
                network.layers@[layer_index as int].weights.entry(row as int, j).div_spec(
                    norm_value(network.layers@[layer_index as int].weights.row(row as int)),
                ),
            ),
{
    let layer = &network.layers[layer_index];
    let cols = layer.weights.cols;
    let mut row_values: Vec<S> = Vec::new();
    let mut j: usize = 0;
    while j < cols
        invariant
            network.wf(),
            layer_index < network.layers@.len(),
            layer == network.layers@[layer_index as int],
            row < layer.weights.rows,
            cols == layer.weights.cols,
            j <= cols,
            row_values@.len() == j,
            forall|k: int|
                0 <= k < j ==> #[trigger] row_values@[k] == layer.weights.entry(row as int, k),
        decreases cols - j,
    {
        row_values.push(layer.weights.at(row, j));
        j = j + 1;
    }
    proof {
        assert(row_values@ =~= layer.weights.row(row as int));
    }
    let length = norm(&row_values);
    let one = S::one();
    let mut r: Vec<S> = Vec::new();
    let mut j: usize = 0;
    let n = row_values.len();
    while j < n
        invariant
            layer == network.layers@[layer_index as int],
            layer_index < network.layers@.len(),
            row < layer.weights.rows,
            n == row_values@.len(),
            n == layer.weights.cols,
            forall|k: int|
                0 <= k < n ==> #[trigger] row_values@[k] == layer.weights.entry(row as int, k),
            length == norm_value(layer.weights.row(row as int)),
            one == S::one_spec(),
            j <= n,
            r@.len() == j,
            forall|k: int|
                0 <= k < j ==> #[trigger] r@[k] == S::one_spec().sub_spec(
                    layer.weights.entry(row as int, k).div_spec(
                        norm_value(layer.weights.row(row as int)),
                    ),
                ),
        decreases n - j,
    {
        r.push(one.minus(&row_values[j].div(&length)));
        j = j + 1;
    }
    r
}

} // verus!

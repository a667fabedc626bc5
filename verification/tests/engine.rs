use mulperc::activation_func::{ActivationFunction, ActivationFunctionEnum, Linear, Sigmoid, Tanh};
use mulperc::autoencoder::{calc_err, feature_vector};
use mulperc::matrix::{argmax, outer, vec_times_matrix, with_bias, Matrix};
use mulperc::multilayer_perceptron::{
    add_delta_sets, MultilayerPerceptron, NetworkSnapshot, SparsityParams,
};
use mulperc::scalar::{Scalar, WeightSource};
use rayon::iter::{IntoParallelRefIterator, ParallelIterator};

#[derive(Clone, Copy, Debug, PartialEq)]
struct R(f64);

impl Scalar for R {
    // the spec-level counterparts of the operations; never executed, they
    // restate the same arithmetic
    fn zero_spec() -> R {
        R(0.0)
    }
    fn one_spec() -> R {
        R(1.0)
    }
    fn from_count_spec(n: usize) -> R {
        R(n as f64)
    }
    fn add_spec(self, other: R) -> R {
        R(self.0 + other.0)
    }
    fn sub_spec(self, other: R) -> R {
        R(self.0 - other.0)
    }
    fn mul_spec(self, other: R) -> R {
        R(self.0 * other.0)
    }
    fn div_spec(self, other: R) -> R {
        R(self.0 / other.0)
    }
    fn neg_spec(self) -> R {
        R(-self.0)
    }
    fn exp_spec(self) -> R {
        R(self.0.exp())
    }
    fn tanh_spec(self) -> R {
        R(self.0.tanh())
    }
    fn cosh_spec(self) -> R {
        R(self.0.cosh())
    }
    fn sqrt_spec(self) -> R {
        R(self.0.sqrt())
    }
    fn ge_spec(self, other: R) -> bool {
        self.0 >= other.0
    }

    fn zero() -> R {
        R(0.0)
    }
    fn one() -> R {
        R(1.0)
    }
    fn from_count(n: usize) -> R {
        R(n as f64)
    }
    fn plus(&self, other: &R) -> R {
        R(self.0 + other.0)
    }
    fn minus(&self, other: &R) -> R {
        R(self.0 - other.0)
    }
    fn times(&self, other: &R) -> R {
        R(self.0 * other.0)
    }
    fn div(&self, other: &R) -> R {
        R(self.0 / other.0)
    }
    fn neg(&self) -> R {
        R(-self.0)
    }
    fn exp(&self) -> R {
        R(self.0.exp())
    }
    fn tanh(&self) -> R {
        R(self.0.tanh())
    }
    fn cosh(&self) -> R {
        R(self.0.cosh())
    }
    fn sqrt(&self) -> R {
        R(self.0.sqrt())
    }
    fn ge(&self, other: &R) -> bool {
        self.0 >= other.0
    }
}

/// A small deterministic generator, so every test is reproducible.
struct Lcg(u64);

impl Lcg {
    fn next_u(&mut self) -> u64 {
        self.0 = self
            .0
            .wrapping_mul(6364136223846793005)
            .wrapping_add(1442695040888963407);
        self.0 >> 33
    }
}

impl WeightSource<R> for Lcg {
    fn next_spec(self) -> (R, Lcg) {
        let mut s = self;
        let w = s.next_weight();
        (w, s)
    }
    fn next_weight(&mut self) -> R {
        let v = (self.next_u() % 2001) as f64;
        R((v - 1000.0) / 10000.0)
    }
}

fn rv(xs: &[f64]) -> Vec<R> {
    xs.iter().map(|&x| R(x)).collect()
}

fn tanh1() -> ActivationFunctionEnum<R> {
    Tanh(R(1.0)).into()
}

fn sum_sq_err(net: &MultilayerPerceptron<R>, data: &[(Vec<R>, Vec<R>)]) -> f64 {
    let mut err = 0.0;
    for (input, target) in data {
        let (out, _) = net.feed_forward(&input[..]);
        for (o, t) in out.iter().zip(target.iter()) {
            err += (o.0 - t.0) * (o.0 - t.0);
        }
    }
    err
}

fn weights_of(net: &MultilayerPerceptron<R>) -> Vec<Vec<f64>> {
    net.layers
        .iter()
        .map(|l| l.weights.data.iter().map(|x| x.0).collect())
        .collect()
}

fn max_weight_gap(a: &MultilayerPerceptron<R>, b: &MultilayerPerceptron<R>) -> f64 {
    let wa = weights_of(a);
    let wb = weights_of(b);
    let mut gap = 0.0_f64;
    for (la, lb) in wa.iter().zip(wb.iter()) {
        assert_eq!(la.len(), lb.len());
        for (x, y) in la.iter().zip(lb.iter()) {
            gap = gap.max((x - y).abs());
        }
    }
    gap
}

#[test]
fn test_feedforward_matrices_sizes() {
    let inputs = rv(&[1.0, 2.0, 3.0, -1.0]);
    let mut src = Lcg(7);
    let perc = MultilayerPerceptron::new(
        R(0.01),
        inputs.len(),
        &[
            (2, tanh1()),
            (3, tanh1()),
            (6, tanh1()),
            (5, tanh1()),
            (2, tanh1()),
        ],
        &mut src,
    );
    let out = perc.feed_forward(&inputs[..]);
    assert!(out.0.len() == 2);
}

#[test]
fn test_backpropagation_matrices_sizes() {
    let inputs = rv(&[1.0, 2.0, 3.0, -1.0]);
    let mut src = Lcg(9);
    let perc = MultilayerPerceptron::new(
        R(0.01),
        inputs.len(),
        &[(4, tanh1()), (3, tanh1()), (2, tanh1())],
        &mut src,
    );
    let deltas = perc.backpropagate(&inputs[..], &rv(&[0.0, 1.0])[..], None);
    println!("{:?}", deltas.len());
    assert_eq!(deltas.len(), 3);
    for (layer, delta) in perc.layers.iter().zip(deltas.iter()) {
        assert_eq!(delta.rows, layer.weights.rows);
        assert_eq!(delta.cols, layer.weights.cols);
    }
}

#[test]
fn test_serialization() {
    let mut src = Lcg(11);
    let x = MultilayerPerceptron::new(
        R(0.01),
        10,
        &[(4, tanh1()), (3, tanh1()), (2, tanh1())],
        &mut src,
    );
    println!("{:?}", x);
    let ser = x.to_snapshot();
    let de = MultilayerPerceptron::from_snapshot(ser).unwrap();
    assert!(x == de);
}

#[test]
fn snapshot_rejects_malformed() {
    let mut src = Lcg(3);
    let x = MultilayerPerceptron::new(R(0.1), 2, &[(2, tanh1()), (1, tanh1())], &mut src);
    // wrong weight count
    let mut bad = x.to_snapshot();
    bad.layers[0].weights.pop();
    assert!(MultilayerPerceptron::<R>::from_snapshot(bad).is_none());
    // broken chain
    let mut bad = x.to_snapshot();
    bad.layers[1].rows = 5;
    assert!(MultilayerPerceptron::<R>::from_snapshot(bad).is_none());
    // zero-sized layer
    let mut bad = x.to_snapshot();
    bad.layers[1].cols = 0;
    bad.layers[1].weights.clear();
    assert!(MultilayerPerceptron::<R>::from_snapshot(bad).is_none());
    // empty network
    let bad = NetworkSnapshot::<R> {
        learning_rate: R(0.1),
        sparsity_params: None,
        layers: Vec::new(),
    };
    assert!(MultilayerPerceptron::<R>::from_snapshot(bad).is_none());
}

#[test]
fn serialization_survives_training() {
    let mut src = Lcg(13);
    let mut x = MultilayerPerceptron::new(R(0.3), 2, &[(3, tanh1()), (1, tanh1())], &mut src);
    x.sparsity_params = Some(SparsityParams {
        sparsity: R(0.05),
        penalty_factor: R(0.1),
    });
    let batch = vec![
        (rv(&[1.0, 1.0]), rv(&[0.0])),
        (rv(&[1.0, 0.0]), rv(&[1.0])),
    ];
    x.learn_batch(&batch);
    let de = MultilayerPerceptron::from_snapshot(x.to_snapshot()).unwrap();
    assert!(x == de);
}

#[test]
fn xor_error_decreases() {
    let data = vec![
        (rv(&[1.0, 1.0]), rv(&[0.0])),
        (rv(&[1.0, 0.0]), rv(&[1.0])),
        (rv(&[0.0, 1.0]), rv(&[1.0])),
        (rv(&[0.0, 0.0]), rv(&[0.0])),
    ];
    let mut src = Lcg(21);
    let mut net = MultilayerPerceptron::new(R(0.5), 2, &[(3, tanh1()), (1, tanh1())], &mut src);
    let before = sum_sq_err(&net, &data);
    for _ in 0..3000 {
        net.learn_batch(&data);
    }
    let after = sum_sq_err(&net, &data);
    assert!(after < before, "error went up: {} -> {}", before, after);
    assert!(after < 0.5, "error still {}", after);
}

#[test]
fn batch_duplication_is_invariant() {
    let batch = vec![
        (rv(&[1.0, 0.5]), rv(&[0.2])),
        (rv(&[0.1, 0.9]), rv(&[0.8])),
        (rv(&[0.4, 0.4]), rv(&[0.5])),
    ];
    let mut doubled = Vec::new();
    for pair in &batch {
        doubled.push(pair.clone());
        doubled.push(pair.clone());
    }
    let mut src = Lcg(31);
    let a0 = MultilayerPerceptron::new(R(0.2), 2, &[(3, tanh1()), (1, tanh1())], &mut src);
    let mut a = a0.clone();
    let mut b = a0;
    a.learn_batch(&batch);
    b.learn_batch(&doubled);
    assert!(max_weight_gap(&a, &b) < 1e-9);
}

#[test]
fn sequential_matches_parallel() {
    let batch = vec![
        (rv(&[1.0, 0.0]), rv(&[1.0])),
        (rv(&[0.0, 1.0]), rv(&[1.0])),
        (rv(&[1.0, 1.0]), rv(&[0.0])),
        (rv(&[0.0, 0.0]), rv(&[0.0])),
    ];
    let mut src = Lcg(41);
    let base = MultilayerPerceptron::new(R(0.3), 2, &[(4, tanh1()), (1, tanh1())], &mut src);

    let mut sequential = base.clone();
    sequential.learn_batch_no_parallel(&batch);

    let mut folded = base.clone();
    folded.learn_batch(&batch);
    assert!(max_weight_gap(&sequential, &folded) == 0.0);

    // the data-parallel path: per-example gradients reduced on a thread pool
    let mut parallel = base.clone();
    let summed = batch
        .par_iter()
        .map(|(input, target)| parallel.backpropagate(&input[..], &target[..], None))
        .reduce_with(|a, b| add_delta_sets(a, &b))
        .unwrap();
    parallel.apply_batch_deltas(summed, batch.len());
    assert!(max_weight_gap(&sequential, &parallel) < 1e-9);
}

#[test]
fn sparsity_drives_hidden_activation() {
    // a small autoencoder; with the penalty on, the average hidden
    // activation should sit closer to the target sparsity
    let data: Vec<(Vec<R>, Vec<R>)> = (0..6)
        .map(|i| {
            let v: Vec<f64> = (0..6).map(|j| if i == j { 1.0 } else { 0.0 }).collect();
            (rv(&v), rv(&v))
        })
        .collect();
    let sig = |a: f64| -> ActivationFunctionEnum<R> { Sigmoid(R(a)).into() };

    let avg_hidden = |net: &MultilayerPerceptron<R>| -> f64 {
        let mut sum = 0.0;
        let mut count = 0.0;
        for (input, _) in &data {
            let (_, trace) = net.feed_forward(&input[..]);
            // skip the trailing bias constant of the biased trace entry
            for x in &trace[1][..trace[1].len() - 1] {
                sum += x.0;
                count += 1.0;
            }
        }
        sum / count
    };

    let target = 0.05;
    let mut src = Lcg(51);
    let base = MultilayerPerceptron::new(R(0.5), 6, &[(3, sig(1.0)), (6, sig(1.0))], &mut src);

    let mut plain = base.clone();
    let mut sparse = base;
    sparse.sparsity_params = Some(SparsityParams {
        sparsity: R(target),
        penalty_factor: R(1.0),
    });
    for _ in 0..800 {
        plain.learn_batch(&data);
        sparse.learn_batch(&data);
    }
    let d_sparse = (avg_hidden(&sparse) - target).abs();
    let d_plain = (avg_hidden(&plain) - target).abs();
    assert!(
        d_sparse < d_plain,
        "sparse {} vs plain {}",
        d_sparse,
        d_plain
    );
}

#[test]
fn training_preserves_shape() {
    let mut src = Lcg(61);
    let mut net = MultilayerPerceptron::new(
        R(0.1),
        3,
        &[(5, tanh1()), (4, tanh1()), (2, tanh1())],
        &mut src,
    );
    let batch = vec![(rv(&[0.1, 0.2, 0.3]), rv(&[1.0, 0.0]))];
    let shapes_before: Vec<(usize, usize)> = net
        .layers
        .iter()
        .map(|l| (l.weights.rows, l.weights.cols))
        .collect();
    net.learn_batch(&batch);
    let shapes_after: Vec<(usize, usize)> = net
        .layers
        .iter()
        .map(|l| (l.weights.rows, l.weights.cols))
        .collect();
    assert_eq!(shapes_before, shapes_after);
    let (out, trace) = net.feed_forward(&batch[0].0[..]);
    assert_eq!(out.len(), 2);
    assert_eq!(trace.len(), 3);
    assert_eq!(trace[0].len(), 4);
}

#[test]
fn activation_functions_compute() {
    assert_eq!(Linear(R(2.0)).function(&R(3.0)), R(6.0));
    assert_eq!(Linear(R(2.0)).derivative(&R(99.0)), R(2.0));
    assert_eq!(Sigmoid(R(1.0)).function(&R(0.0)), R(0.5));
    assert_eq!(Tanh(R(1.0)).function(&R(0.0)), R(0.0));
    // the tanh derivative is sech(x)^2 of the raw argument: the slope is not
    // folded in
    assert_eq!(Tanh(R(5.0)).derivative(&R(0.0)), R(1.0));
    let e: ActivationFunctionEnum<R> = Linear(R(3.0)).into();
    assert_eq!(e.function(&R(2.0)), R(6.0));
    assert_eq!(e.derivative(&R(2.0)), R(3.0));
    let s: ActivationFunctionEnum<R> = Sigmoid::new(R(1.0)).into();
    assert_eq!(s.function(&R(0.0)), R(0.5));
}

#[test]
fn matrix_transpose_and_products() {
    struct Counter(f64);
    impl WeightSource<R> for Counter {
        fn next_spec(self) -> (R, Counter) {
            (R(self.0 + 1.0), Counter(self.0 + 1.0))
        }
        fn next_weight(&mut self) -> R {
            self.0 += 1.0;
            R(self.0)
        }
    }
    // column-major fill: entry (r, c) = c * rows + r + 1
    let m = Matrix::from_source(2, 3, &mut Counter(0.0));
    assert_eq!(m.at(0, 0), R(1.0));
    assert_eq!(m.at(1, 0), R(2.0));
    assert_eq!(m.at(0, 2), R(5.0));
    let t = m.transpose();
    assert_eq!(t.rows, 3);
    assert_eq!(t.cols, 2);
    for r in 0..2 {
        for c in 0..3 {
            assert_eq!(m.at(r, c), t.at(c, r));
        }
    }
    let v = vec![R(1.0), R(2.0)];
    let prod = vec_times_matrix(&v, &m);
    assert_eq!(prod, vec![R(5.0), R(11.0), R(17.0)]);
    let o = outer(&vec![R(2.0), R(3.0)], &vec![R(4.0)]);
    assert_eq!(o.rows, 2);
    assert_eq!(o.cols, 1);
    assert_eq!(o.at(0, 0), R(8.0));
    assert_eq!(o.at(1, 0), R(12.0));
    let b = with_bias(&v[..]);
    assert_eq!(b, vec![R(1.0), R(2.0), R(1.0)]);
    assert_eq!(argmax(&vec![R(0.3), R(2.5), R(1.0)]), 1);
}

#[test]
fn known_network_computes_sum() {
    // one linear layer computing x1 + x2 (bias weight zero), built from a
    // snapshot with handwritten weights
    let snap = NetworkSnapshot {
        learning_rate: R(0.1),
        sparsity_params: None,
        layers: vec![mulperc::multilayer_perceptron::LayerSnapshot {
            rows: 3,
            cols: 1,
            weights: vec![R(1.0), R(1.0), R(0.0)],
            activation_function: Linear(R(1.0)).into(),
        }],
    };
    let net = MultilayerPerceptron::from_snapshot(snap).unwrap();
    let (out, _) = net.feed_forward(&rv(&[2.0, 5.0])[..]);
    assert_eq!(out, vec![R(7.0)]);
    let data = vec![(rv(&[1.0, 1.0]), rv(&[4.0]))];
    // reconstruction error: |4 - 2| = 2
    assert_eq!(calc_err(&net, &data[..]), R(2.0));
}

#[test]
fn feature_vector_normalizes_rows() {
    let snap = NetworkSnapshot {
        learning_rate: R(0.1),
        sparsity_params: None,
        layers: vec![mulperc::multilayer_perceptron::LayerSnapshot {
            rows: 2,
            cols: 2,
            weights: vec![R(3.0), R(0.0), R(4.0), R(1.0)],
            activation_function: Linear(R(1.0)).into(),
        }],
    };
    let net = MultilayerPerceptron::from_snapshot(snap).unwrap();
    // row 0 is [3, 4]: norm 5, feature entries 1 - 3/5 and 1 - 4/5
    let f = feature_vector(&net, 0, 0);
    assert!((f[0].0 - 0.4).abs() < 1e-12);
    assert!((f[1].0 - 0.2).abs() < 1e-12);
}

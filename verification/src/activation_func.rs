//! The closed set of scalar activation functions a layer can use.
//!
//! Each variant carries one parameter and offers the function itself and its
//! derivative; backpropagation always evaluates the derivative at the
//! pre-activation (`net`) value.

use vstd::prelude::*;

use crate::scalar::Scalar;

verus! {

/// A differentiable scalar function with its derivative.
pub trait ActivationFunction<S: Scalar> {
    fn function(&self, x: &S) -> S;

    fn derivative(&self, x: &S) -> S;
}

/// What the activation function of `a` returns at `x`:
/// `1 / (1 + exp(-slope * x))` for the sigmoid, `scale * x` for the linear
/// function, `tanh(slope * x)` for the hyperbolic tangent.
pub open spec fn activation_value<S: Scalar>(a: ActivationFunctionEnum<S>, x: S) -> S {
    match a {
        ActivationFunctionEnum::Sigmoid(p) => S::one_spec().div_spec(
            S::one_spec().add_spec(x.neg_spec().mul_spec(p).exp_spec()),
        ),
        ActivationFunctionEnum::Linear(p) => p.mul_spec(x),
        ActivationFunctionEnum::Tanh(p) => x.mul_spec(p).tanh_spec(),
    }
}

/// What the derivative of `a` returns at `x`: `f(x) * (1 - f(x))` for the
/// sigmoid, the constant scale for the linear function, and `sech(x)^2` of
/// the raw argument for the hyperbolic tangent (the slope is deliberately
/// not folded in).
pub open spec fn derivative_value<S: Scalar>(a: ActivationFunctionEnum<S>, x: S) -> S {
    match a {
        ActivationFunctionEnum::Sigmoid(p) => activation_value(a, x).mul_spec(
            S::one_spec().sub_spec(activation_value(a, x)),
        ),
        ActivationFunctionEnum::Linear(p) => p,
        ActivationFunctionEnum::Tanh(p) => S::one_spec().div_spec(x.cosh_spec()).mul_spec(
            S::one_spec().div_spec(x.cosh_spec()),
        ),
    }
}

/// The logistic function `1 / (1 + exp(-a*x))` with slope `a`.
#[derive(Clone, Copy, Debug, PartialEq)]
pub struct Sigmoid<S>(pub S);

impl<S: Scalar> Sigmoid<S> {
    pub fn new(a: S) -> (r: Sigmoid<S>)
        ensures
            r.0 == a,
    {
        Sigmoid(a)
    }
}

impl<S: Scalar> ActivationFunction<S> for Sigmoid<S> {
    fn function(&self, x: &S) -> (r: S)
        ensures
            r == activation_value(ActivationFunctionEnum::Sigmoid(self.0), *x),
    {
        S::one().div(&S::one().plus(&x.neg().times(&self.0).exp()))
    }

    fn derivative(&self, x: &S) -> (r: S)
        ensures
            r == derivative_value(ActivationFunctionEnum::Sigmoid(self.0), *x),
    {
        self.function(x).times(&S::one().minus(&self.function(x)))
    }
}

/// The identity scaled by `a`: `a * x`.
#[derive(Clone, Copy, Debug, PartialEq)]
pub struct Linear<S>(pub S);

impl<S: Scalar> Linear<S> {
    pub fn new(a: S) -> (r: Linear<S>)
        ensures
            r.0 == a,
    {
        Linear(a)
    }
}

impl<S: Scalar> ActivationFunction<S> for Linear<S> {
    fn function(&self, x: &S) -> (r: S)
        ensures
            r == activation_value(ActivationFunctionEnum::Linear(self.0), *x),
    {
        self.0.times(x)
    }

    /// Constant: the exact derivative of `scale * x`, whatever the input.
    fn derivative(&self, _x: &S) -> (r: S)
        ensures
            r == self.0,
    {
        self.0
    }
}

/// The hyperbolic tangent of `a * x`.
///
/// Its derivative is `sech(x)^2`, taken at the raw argument: the slope is
/// deliberately not folded in.
#[derive(Clone, Copy, Debug, PartialEq)]
pub struct Tanh<S>(pub S);

impl<S: Scalar> Tanh<S> {
    pub fn new(a: S) -> (r: Tanh<S>)
        ensures
            r.0 == a,
    {
        Tanh(a)
    }
}

impl<S: Scalar> ActivationFunction<S> for Tanh<S> {
    fn function(&self, x: &S) -> (r: S)
        ensures
            r == activation_value(ActivationFunctionEnum::Tanh(self.0), *x),
    {
        x.times(&self.0).tanh()
    }

    fn derivative(&self, x: &S) -> (r: S)
        ensures
            r == derivative_value(ActivationFunctionEnum::Tanh(self.0), *x),
    {
        let sech = S::one().div(&x.cosh());
        sech.times(&sech)
    }
}

/// One activation function of the closed set, as a layer stores it.
#[derive(Clone, Copy, Debug, PartialEq)]
pub enum ActivationFunctionEnum<S> {
    Sigmoid(S),
    Linear(S),
    Tanh(S),
}

impl<S: Scalar> ActivationFunction<S> for ActivationFunctionEnum<S> {
    fn function(&self, x: &S) -> (r: S)
        ensures
            r == activation_value(*self, *x),
    {
        match self {
            ActivationFunctionEnum::Sigmoid(a) => Sigmoid(*a).function(x),
            ActivationFunctionEnum::Linear(a) => Linear(*a).function(x),
            ActivationFunctionEnum::Tanh(a) => Tanh(*a).function(x),
        }
    }

    fn derivative(&self, x: &S) -> (r: S)
        ensures
            r == derivative_value(*self, *x),
    {
        match self {
            ActivationFunctionEnum::Sigmoid(a) => Sigmoid(*a).derivative(x),
            ActivationFunctionEnum::Linear(a) => Linear(*a).derivative(x),
            ActivationFunctionEnum::Tanh(a) => Tanh(*a).derivative(x),
        }
    }
}

impl<S: Scalar> From<Sigmoid<S>> for ActivationFunctionEnum<S> {
    fn from(s: Sigmoid<S>) -> (r: ActivationFunctionEnum<S>) {
        ActivationFunctionEnum::Sigmoid(s.0)
    }
}

impl<S: Scalar> vstd::std_specs::convert::FromSpecImpl<Sigmoid<S>> for ActivationFunctionEnum<S> {
    open spec fn obeys_from_spec() -> bool {
        true
    }

    open spec fn from_spec(s: Sigmoid<S>) -> ActivationFunctionEnum<S> {
        ActivationFunctionEnum::Sigmoid(s.0)
    }
}

impl<S: Scalar> From<Linear<S>> for ActivationFunctionEnum<S> {
    fn from(l: Linear<S>) -> (r: ActivationFunctionEnum<S>) {
        ActivationFunctionEnum::Linear(l.0)
    }
}

impl<S: Scalar> vstd::std_specs::convert::FromSpecImpl<Linear<S>> for ActivationFunctionEnum<S> {
    open spec fn obeys_from_spec() -> bool {
        true
    }

    open spec fn from_spec(l: Linear<S>) -> ActivationFunctionEnum<S> {
        ActivationFunctionEnum::Linear(l.0)
    }
}

impl<S: Scalar> From<Tanh<S>> for ActivationFunctionEnum<S> {
    fn from(t: Tanh<S>) -> (r: ActivationFunctionEnum<S>) {
        ActivationFunctionEnum::Tanh(t.0)
    }
}

impl<S: Scalar> vstd::std_specs::convert::FromSpecImpl<Tanh<S>> for ActivationFunctionEnum<S> {
    open spec fn obeys_from_spec() -> bool {
        true
    }

    open spec fn from_spec(t: Tanh<S>) -> ActivationFunctionEnum<S> {
        ActivationFunctionEnum::Tanh(t.0)
    }
}

/// `activation.function` applied to every entry of `v`.
pub fn map_function<S: Scalar>(activation: &ActivationFunctionEnum<S>, v: &Vec<S>) -> (r: Vec<S>)
    ensures
        r@.len() == v@.len(),
        forall|i: int|
            0 <= i < r@.len() ==> #[trigger] r@[i] == activation_value(*activation, v@[i]),
{
    let n = v.len();
    let mut r: Vec<S> = Vec::new();
    let mut i: usize = 0;
    while i < n
        invariant
            n == v@.len(),
            i <= n,
            r@.len() == i,
            forall|k: int|
                0 <= k < i ==> #[trigger] r@[k] == activation_value(*activation, v@[k]),
        decreases n - i,
    {
        r.push(activation.function(&v[i]));
        i = i + 1;
    }
    r
}

/// `activation.derivative` applied to every entry of `v`.
pub fn map_derivative<S: Scalar>(activation: &ActivationFunctionEnum<S>, v: &Vec<S>) -> (r: Vec<S>)
    ensures
        r@.len() == v@.len(),
        forall|i: int|
            0 <= i < r@.len() ==> #[trigger] r@[i] == derivative_value(*activation, v@[i]),
{
    let n = v.len();
    let mut r: Vec<S> = Vec::new();
    let mut i: usize = 0;
    while i < n
        invariant
            n == v@.len(),
            i <= n,
            r@.len() == i,
            forall|k: int|
                0 <= k < i ==> #[trigger] r@[k] == derivative_value(*activation, v@[k]),
        decreases n - i,
    {
        r.push(activation.derivative(&v[i]));
        i = i + 1;
    }
    r
}

} // verus!

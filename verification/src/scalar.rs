//! The scalar numbers a network computes with.
//!
//! The engine never fixes the number type: every weight, activation and
//! gradient is a value of some type implementing [`Scalar`], and all
//! arithmetic goes through these methods. Each exec method is specified to
//! return the implementation's own spec-level function of its operands —
//! nothing more. That models what a front end's machine floats satisfy
//! (each operation is a deterministic function of its arguments) without
//! assuming any algebraic law of them, and it lets the engine's contracts
//! pin every computed value as an expression over these spec functions.

use vstd::prelude::*;

verus! {

/// The arithmetic a network needs from its number type.
///
/// The spec functions name what each operation returns; they are otherwise
/// unconstrained, so nothing is assumed beyond determinism.
pub trait Scalar: Sized + Copy {
    /// What `zero` returns: the additive identity.
    spec fn zero_spec() -> Self;

    /// What `one` returns: the multiplicative identity and the constant
    /// bias input.
    spec fn one_spec() -> Self;

    /// What `from_count` returns for a count `n`.
    spec fn from_count_spec(n: usize) -> Self;

    spec fn add_spec(self, other: Self) -> Self;

    spec fn sub_spec(self, other: Self) -> Self;

    spec fn mul_spec(self, other: Self) -> Self;

    spec fn div_spec(self, other: Self) -> Self;

    spec fn neg_spec(self) -> Self;

    spec fn exp_spec(self) -> Self;

    spec fn tanh_spec(self) -> Self;

    spec fn cosh_spec(self) -> Self;

    spec fn sqrt_spec(self) -> Self;

    spec fn ge_spec(self, other: Self) -> bool;

    /// The additive identity.
    fn zero() -> (r: Self)
        ensures
            r == Self::zero_spec(),
    ;

    /// The multiplicative identity; also the constant bias input.
    fn one() -> (r: Self)
        ensures
            r == Self::one_spec(),
    ;

    /// The scalar for a count, used when averaging over a batch.
    fn from_count(n: usize) -> (r: Self)
        ensures
            r == Self::from_count_spec(n),
    ;

    fn plus(&self, other: &Self) -> (r: Self)
        ensures
            r == self.add_spec(*other),
    ;

    fn minus(&self, other: &Self) -> (r: Self)
        ensures
            r == self.sub_spec(*other),
    ;

    fn times(&self, other: &Self) -> (r: Self)
        ensures
            r == self.mul_spec(*other),
    ;

    fn div(&self, other: &Self) -> (r: Self)
        ensures
            r == self.div_spec(*other),
    ;

    fn neg(&self) -> (r: Self)
        ensures
            r == self.neg_spec(),
    ;

    fn exp(&self) -> (r: Self)
        ensures
            r == self.exp_spec(),
    ;

    fn tanh(&self) -> (r: Self)
        ensures
            r == self.tanh_spec(),
    ;

    fn cosh(&self) -> (r: Self)
        ensures
            r == self.cosh_spec(),
    ;

    fn sqrt(&self) -> (r: Self)
        ensures
            r == self.sqrt_spec(),
    ;

    /// Whether `self` is at least `other`; used to pick the strongest
    /// output neuron when classifying.
    fn ge(&self, other: &Self) -> (r: bool)
        ensures
            r == self.ge_spec(*other),
    ;
}

/// A supply of initial weights.
///
/// Weight initialization draws one value per matrix entry from this source,
/// so a caller controls the distribution (and, by seeding, reproducibility).
/// `next_spec` names the next draw and the advanced source, so the drawn
/// stream is pinned by the source value alone.
pub trait WeightSource<S: Scalar>: Sized {
    /// The next draw and the state it leaves the source in.
    spec fn next_spec(self) -> (S, Self);

    fn next_weight(&mut self) -> (r: S)
        ensures
            r == old(self).next_spec().0,
            *final(self) == old(self).next_spec().1,
    ;
}

/// The first `n` draws of a source, in order.
pub open spec fn drawn_seq<S: Scalar, W: WeightSource<S>>(w: W, n: nat) -> Seq<S>
    decreases n,
{
    if n == 0 {
        Seq::empty()
    } else {
        seq![w.next_spec().0] + drawn_seq(w.next_spec().1, (n - 1) as nat)
    }
}

/// The source after `n` draws.
pub open spec fn drawn_rest<S: Scalar, W: WeightSource<S>>(w: W, n: nat) -> W
    decreases n,
{
    if n == 0 {
        w
    } else {
        drawn_rest(w.next_spec().1, (n - 1) as nat)
    }
}

/// Taking one more draw appends the next draw of the advanced source.
pub proof fn lemma_drawn_snoc<S: Scalar, W: WeightSource<S>>(w: W, n: nat)
    ensures
        drawn_seq(w, n + 1) =~= drawn_seq(w, n).push(drawn_rest(w, n).next_spec().0),
        drawn_rest(w, n + 1) == drawn_rest(w, n).next_spec().1,
    decreases n,
{
    let (first, w1) = w.next_spec();
    assert(drawn_seq(w, n + 1) == seq![first] + drawn_seq(w1, n));
    if n > 0 {
        lemma_drawn_snoc(w1, (n - 1) as nat);
        assert(drawn_seq(w, n) == seq![first] + drawn_seq(w1, (n - 1) as nat));
        assert(drawn_rest(w, n) == drawn_rest(w1, (n - 1) as nat));
        assert(drawn_rest(w, n + 1) == drawn_rest(w1, n));
    } else {
        assert(drawn_seq(w, 1) =~= drawn_seq(w, 0).push(first));
        assert(drawn_rest(w, 1) == drawn_rest(w1, 0));
    }
}

} // verus!

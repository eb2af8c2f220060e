//! Initial weights and biases.

use std::marker::PhantomData;
use vstd::prelude::*;
use crate::gemm::{entries, is_rectangular};
use crate::scalar::{Scalar, is_unit_sample, zero};

verus! {

/// A source of initial parameters for a layer of a given size.
pub trait Initializer<T: Scalar> {
    /// Whether `weights` is a matrix that `initialize_weights` may return for
    /// this size.
    spec fn may_give_weights(&self, n_inputs: usize, n_outputs: usize, weights: Seq<Seq<T>>) -> bool;

    /// Whether `biases` is a vector that `initialize_biases` may return for
    /// this size.
    spec fn may_give_biases(&self, n_outputs: usize, biases: Seq<T>) -> bool;

    /// One row of `n_inputs` weights for each of `n_outputs` outputs.
    fn initialize_weights(&self, n_inputs: usize, n_outputs: usize) -> (weights: Vec<Vec<T>>)
        ensures
            weights.len() == n_outputs,
            is_rectangular(entries(weights@), n_inputs as nat),
            self.may_give_weights(n_inputs, n_outputs, entries(weights@)),
    ;

    /// One bias for each of `n_outputs` outputs.
    fn initialize_biases(&self, n_outputs: usize) -> (biases: Vec<T>)
        ensures
            biases.len() == n_outputs,
            self.may_give_biases(n_outputs, biases@),
    ;
}

/// The spread of He initialization for a layer with `n_inputs` inputs: the
/// square root of two over `n_inputs`.
pub open spec fn he_std_dev<T: Scalar>(n_inputs: usize) -> T {
    T::from_usize_spec(2).div_spec(T::from_usize_spec(n_inputs)).sqrt_spec()
}

/// The weight that a draw `sample` from the unit interval gives under the
/// spread `std_dev`: `sample * std_dev * 2 - std_dev`.
pub open spec fn he_weight_of<T: Scalar>(sample: T, std_dev: T) -> T {
    sample.mul_spec(std_dev).mul_spec(T::from_usize_spec(2)).sub_spec(std_dev)
}

/// `weight` is what some draw from the unit interval gives for a layer with
/// `n_inputs` inputs.
pub open spec fn is_he_weight<T: Scalar>(n_inputs: usize, weight: T) -> bool {
    exists|sample: T| is_unit_sample(sample) && weight == he_weight_of(sample, he_std_dev::<T>(n_inputs))
}

/// Computes the spread for a layer with `n_inputs` inputs.
pub fn he_spread<T: Scalar>(n_inputs: usize) -> (std_dev: T)
    ensures
        std_dev == he_std_dev::<T>(n_inputs),
{
    T::from_usize(2).div(T::from_usize(n_inputs)).sqrt()
}

/// Scales a draw from the unit interval to a weight.
pub fn he_weight<T: Scalar>(sample: T, std_dev: T) -> (weight: T)
    ensures
        weight == he_weight_of(sample, std_dev),
{
    sample.mul(std_dev).mul(T::from_usize(2)).sub(std_dev)
}

/// He initialization with uniform draws: each weight is a draw from the
/// unit interval, stretched to twice the spread and moved down by the
/// spread, where the spread is the square root of two over the number of
/// inputs. The draws are uniform, not Gaussian. Biases are zero.
pub struct HeInitializer<T: Scalar> {
    _t: PhantomData<T>,
}

impl<T: Scalar> HeInitializer<T> {
    /// He initialization over the scalars `T`.
    pub fn new() -> Self {
        HeInitializer { _t: PhantomData }
    }
}

impl<T: Scalar> Initializer<T> for HeInitializer<T> {
    /// Every weight is what a draw from the unit interval gives.
    open spec fn may_give_weights(&self, n_inputs: usize, n_outputs: usize, weights: Seq<Seq<T>>) -> bool {
        &&& weights.len() == n_outputs
        &&& is_rectangular(weights, n_inputs as nat)
        &&& forall|i: int, j: int|
            0 <= i < n_outputs && 0 <= j < n_inputs ==> is_he_weight(n_inputs, #[trigger] weights[i][j])
    }

    /// Every bias is zero.
    open spec fn may_give_biases(&self, n_outputs: usize, biases: Seq<T>) -> bool {
        biases == Seq::new(n_outputs as nat, |i: int| zero::<T>())
    }

    fn initialize_weights(&self, n_inputs: usize, n_outputs: usize) -> (weights: Vec<Vec<T>>) {
        let std_dev: T = he_spread(n_inputs);
        let mut weights: Vec<Vec<T>> = Vec::with_capacity(n_outputs);
        let mut i: usize = 0;
        while i < n_outputs
            invariant
                i <= n_outputs,
                weights.len() == i,
                std_dev == he_std_dev::<T>(n_inputs),
                forall|k: int| 0 <= k < i ==> (#[trigger] weights@[k]).len() == n_inputs,
                forall|k: int, j: int|
                    0 <= k < i && 0 <= j < n_inputs ==> is_he_weight(n_inputs, #[trigger] weights@[k]@[j]),
            decreases n_outputs - i,
        {
            let mut row: Vec<T> = Vec::with_capacity(n_inputs);
            let mut j: usize = 0;
            while j < n_inputs
                invariant
                    j <= n_inputs,
                    row.len() == j,
                    std_dev == he_std_dev::<T>(n_inputs),
                    forall|k: int| 0 <= k < j ==> is_he_weight(n_inputs, #[trigger] row@[k]),
                decreases n_inputs - j,
            {
                let sample = T::sample_unit();
                let weight = he_weight(sample, std_dev);
                assert(is_unit_sample(sample) && weight == he_weight_of(sample, he_std_dev::<T>(n_inputs)));
                row.push(weight);
                j += 1;
            }
            weights.push(row);
            i += 1;
        }
        weights
    }

    fn initialize_biases(&self, n_outputs: usize) -> (biases: Vec<T>) {
        let mut biases: Vec<T> = Vec::with_capacity(n_outputs);
        let mut i: usize = 0;
        while i < n_outputs
            invariant
                i <= n_outputs,
                biases.len() == i,
                forall|k: int| 0 <= k < i ==> biases@[k] == zero::<T>(),
            decreases n_outputs - i,
        {
            biases.push(T::from_usize(0));
            i += 1;
        }
        assert(biases@ =~= Seq::new(n_outputs as nat, |i: int| zero::<T>()));
        biases
    }
}

} // verus!

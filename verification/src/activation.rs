//! Activation functions.

use std::marker::PhantomData;
use vstd::prelude::*;

use crate::scalar::{Scalar, is_exp_of, one, zero};

verus! {

/// An activation: a scalar function with its derivative, and the way it is
/// applied to the whole output of a layer.
pub trait ActivationFunction<T: Scalar> {
    /// The value of the activation at `x`.
    spec fn activate_spec(&self, x: T) -> T;

    /// The value of the derivative at `x`.
    spec fn derivative_spec(&self, x: T) -> T;

    /// Whether `output` is a result of applying the activation to the
    /// pre-activation vector `input`.
    spec fn activates_layer(&self, input: Seq<T>, output: Seq<T>) -> bool;

    /// Applies the activation to the pre-activation vector of a layer.
    fn activate_layer(&self, input: &Vec<T>) -> (output: Vec<T>)
        ensures
            output.len() == input.len(),
            self.activates_layer(input@, output@),
    ;

    /// Applies the activation to each row of a matrix.
    fn activate_batch(&self, input: Vec<Vec<T>>) -> (output: Vec<Vec<T>>)
        ensures
            output.len() == input.len(),
            forall|i: int|
                0 <= i < input.len() ==> {
                    &&& (#[trigger] output@[i]).len() == input@[i].len()
                    &&& self.activates_layer(input@[i]@, output@[i]@)
                },
    {
        let mut output: Vec<Vec<T>> = Vec::with_capacity(input.len());
        let mut i: usize = 0;
        while i < input.len()
            invariant
                i <= input.len(),
                output.len() == i,
                forall|k: int|
                    0 <= k < i ==> {
                        &&& (#[trigger] output@[k]).len() == input@[k].len()
                        &&& self.activates_layer(input@[k]@, output@[k]@)
                    },
            decreases input.len() - i,
        {
            let row = self.activate_layer(&input[i]);
            output.push(row);
            i += 1;
        }
        output
    }

    fn activate(&self, x: T) -> (r: T)
        ensures
            r == self.activate_spec(x),
    ;

    fn derivative(&self, x: T) -> (r: T)
        ensures
            r == self.derivative_spec(x),
    ;
}

/// The rectified linear unit: `max(0, x)`.
pub struct ReLU<T: Scalar> {
    _t: PhantomData<T>,
}

impl<T: Scalar> ReLU<T> {
    /// The rectified linear unit over the scalars `T`.
    pub fn new() -> Self {
        ReLU { _t: PhantomData }
    }
}

impl<T: Scalar> ActivationFunction<T> for ReLU<T> {
    open spec fn activate_spec(&self, x: T) -> T {
        if x.gt_spec(zero()) {
            x
        } else {
            zero()
        }
    }

    open spec fn derivative_spec(&self, x: T) -> T {
        if x.gt_spec(zero()) {
            one()
        } else {
            zero()
        }
    }

    open spec fn activates_layer(&self, input: Seq<T>, output: Seq<T>) -> bool {
        &&& output.len() == input.len()
        &&& forall|i: int| 0 <= i < input.len() ==> output[i] == self.activate_spec(#[trigger] input[i])
    }

    fn activate_layer(&self, input: &Vec<T>) -> (output: Vec<T>) {
        let mut output: Vec<T> = Vec::with_capacity(input.len());
        let mut i: usize = 0;
        while i < input.len()
            invariant
                i <= input.len(),
                output.len() == i,
                forall|k: int| 0 <= k < i ==> output[k] == self.activate_spec(#[trigger] input[k]),
            decreases input.len() - i,
        {
            output.push(self.activate(input[i]));
            i += 1;
        }
        output
    }

    fn activate(&self, x: T) -> (r: T) {
        if x.gt(T::from_usize(0)) {
            x
        } else {
            T::from_usize(0)
        }
    }

    fn derivative(&self, x: T) -> (r: T) {
        if x.gt(T::from_usize(0)) {
            T::from_usize(1)
        } else {
            T::from_usize(0)
        }
    }
}

/// What the rectified linear unit returns is zero or greater than zero, its
/// derivative is zero or one, and the derivative is zero wherever the argument
/// is not greater than zero.
pub proof fn lemma_relu_range<T: Scalar>(relu: ReLU<T>, x: T)
    ensures
        relu.activate_spec(x) == zero::<T>() || relu.activate_spec(x).gt_spec(zero()),
        relu.derivative_spec(x) == zero::<T>() || relu.derivative_spec(x) == one::<T>(),
        !x.gt_spec(zero()) ==> relu.derivative_spec(x) == zero::<T>(),
{
}

/// The derivative of the rectified linear unit at zero is zero, in every
/// number type in which zero is not greater than itself.
pub proof fn lemma_relu_derivative_at_zero<T: Scalar>(relu: ReLU<T>)
    requires
        !zero::<T>().gt_spec(zero()),
    ensures
        relu.derivative_spec(zero()) == zero::<T>(),
{
}

/// The larger of `a` and `b`; `a` where neither is greater.
pub open spec fn max_of<T: Scalar>(a: T, b: T) -> T {
    if b.gt_spec(a) {
        b
    } else {
        a
    }
}

/// The largest entry of `v`, and the most negative scalar where `v` is empty
/// or holds nothing greater.
pub open spec fn row_max<T: Scalar>(v: Seq<T>) -> T
    decreases v.len(),
{
    if v.len() == 0 {
        T::min_value_spec()
    } else {
        max_of(row_max(v.drop_last()), v.last())
    }
}

/// The entries of `v` added up from the first upwards, starting from zero.
pub open spec fn sum<T: Scalar>(v: Seq<T>) -> T
    decreases v.len(),
{
    if v.len() == 0 {
        zero()
    } else {
        sum(v.drop_last()).add_spec(v.last())
    }
}

/// Each entry of `v` divided by the sum of all of them.
pub open spec fn normalized<T: Scalar>(v: Seq<T>) -> Seq<T> {
    Seq::new(v.len(), |i: int| v[i].div_spec(sum(v)))
}

/// `exps` holds, for each entry of `input`, an exponential of that entry less
/// the largest entry.
pub open spec fn is_shifted_exp<T: Scalar>(input: Seq<T>, exps: Seq<T>) -> bool {
    &&& exps.len() == input.len()
    &&& forall|i: int|
        0 <= i < input.len() ==> is_exp_of(input[i].sub_spec(row_max(input)), #[trigger] exps[i])
}

/// `output` is a normalized exponential of `input`: the exponentials of the
/// entries, each less the largest entry, divided by their sum.
pub open spec fn is_softmax<T: Scalar>(input: Seq<T>, output: Seq<T>) -> bool {
    exists|exps: Seq<T>| is_shifted_exp(input, exps) && output == normalized(exps)
}

/// Finds the largest entry of a vector.
pub fn max_entry<T: Scalar>(v: &Vec<T>) -> (largest: T)
    ensures
        largest == row_max(v@),
{
    let mut largest = T::min_value();
    let mut i: usize = 0;
    while i < v.len()
        invariant
            i <= v.len(),
            largest == row_max(v@.take(i as int)),
        decreases v.len() - i,
    {
        proof {
            assert(v@.take(i + 1).drop_last() =~= v@.take(i as int));
        }
        if v[i].gt(largest) {
            largest = v[i];
        }
        i += 1;
    }
    proof {
        assert(v@.take(v.len() as int) =~= v@);
    }
    largest
}

/// Adds up the entries of a vector.
pub fn sum_entries<T: Scalar>(v: &Vec<T>) -> (total: T)
    ensures
        total == sum(v@),
{
    let mut total = T::from_usize(0);
    let mut i: usize = 0;
    while i < v.len()
        invariant
            i <= v.len(),
            total == sum(v@.take(i as int)),
        decreases v.len() - i,
    {
        proof {
            assert(v@.take(i + 1).drop_last() =~= v@.take(i as int));
        }
        total = total.add(v[i]);
        i += 1;
    }
    proof {
        assert(v@.take(v.len() as int) =~= v@);
    }
    total
}

/// Divides each entry of a vector by the sum of all of them.
pub fn normalize<T: Scalar>(v: &Vec<T>) -> (shares: Vec<T>)
    ensures
        shares@ == normalized(v@),
{
    let total = sum_entries(v);
    let mut shares: Vec<T> = Vec::with_capacity(v.len());
    let mut i: usize = 0;
    while i < v.len()
        invariant
            i <= v.len(),
            total == sum(v@),
            shares@ == normalized(v@).take(i as int),
        decreases v.len() - i,
    {
        shares.push(v[i].div(total));
        i += 1;
        assert(shares@ =~= normalized(v@).take(i as int));
    }
    assert(shares@ =~= normalized(v@));
    shares
}

/// The normalized exponential, applied to a whole layer at once.
pub struct Softmax<T: Scalar> {
    _t: PhantomData<T>,
}

impl<T: Scalar> Softmax<T> {
    /// The normalized exponential over the scalars `T`.
    pub fn new() -> Self {
        Softmax { _t: PhantomData }
    }
}

impl<T: Scalar> ActivationFunction<T> for Softmax<T> {
    /// On a single scalar the normalized exponential does nothing.
    open spec fn activate_spec(&self, x: T) -> T {
        x
    }

    /// The derivative is left to the loss that the layer is paired with; on a
    /// single scalar it hands its argument back.
    open spec fn derivative_spec(&self, x: T) -> T {
        x
    }

    open spec fn activates_layer(&self, input: Seq<T>, output: Seq<T>) -> bool {
        is_softmax(input, output)
    }

    fn activate_layer(&self, input: &Vec<T>) -> (output: Vec<T>) {
        let largest = max_entry(input);
        let mut exps: Vec<T> = Vec::with_capacity(input.len());
        let mut i: usize = 0;
        while i < input.len()
            invariant
                i <= input.len(),
                exps.len() == i,
                largest == row_max(input@),
                forall|k: int|
                    0 <= k < i ==> is_exp_of(input[k].sub_spec(row_max(input@)), #[trigger] exps[k]),
            decreases input.len() - i,
        {
            exps.push(input[i].sub(largest).exp());
            i += 1;
        }
        let output = normalize(&exps);
        assert(is_shifted_exp(input@, exps@));
        output
    }

    fn activate(&self, x: T) -> (r: T) {
        x
    }

    fn derivative(&self, x: T) -> (r: T) {
        x
    }
}

/// The activation of a layer: one of the two that the library brings, or one
/// of the caller's own.
#[verifier::reject_recursive_types(T)]
pub enum Activation<T: Scalar> {
    ReLU(ReLU<T>),
    Softmax(Softmax<T>),
    Custom(Box<dyn ActivationFunction<T>>),
}

impl<T: Scalar> ActivationFunction<T> for Activation<T> {
    open spec fn activate_spec(&self, x: T) -> T {
        match self {
            Activation::ReLU(a) => a.activate_spec(x),
            Activation::Softmax(a) => a.activate_spec(x),
            Activation::Custom(a) => a.activate_spec(x),
        }
    }

    open spec fn derivative_spec(&self, x: T) -> T {
        match self {
            Activation::ReLU(a) => a.derivative_spec(x),
            Activation::Softmax(a) => a.derivative_spec(x),
            Activation::Custom(a) => a.derivative_spec(x),
        }
    }

    open spec fn activates_layer(&self, input: Seq<T>, output: Seq<T>) -> bool {
        match self {
            Activation::ReLU(a) => a.activates_layer(input, output),
            Activation::Softmax(a) => a.activates_layer(input, output),
            Activation::Custom(a) => a.activates_layer(input, output),
        }
    }

    fn activate_layer(&self, input: &Vec<T>) -> (output: Vec<T>) {
        match self {
            Activation::ReLU(a) => a.activate_layer(input),
            Activation::Softmax(a) => a.activate_layer(input),
            Activation::Custom(a) => a.activate_layer(input),
        }
    }

    fn activate(&self, x: T) -> (r: T) {
        match self {
            Activation::ReLU(a) => a.activate(x),
            Activation::Softmax(a) => a.activate(x),
            Activation::Custom(a) => a.activate(x),
        }
    }

    fn derivative(&self, x: T) -> (r: T) {
        match self {
            Activation::ReLU(a) => a.derivative(x),
            Activation::Softmax(a) => a.derivative(x),
            Activation::Custom(a) => a.derivative(x),
        }
    }
}

} // verus!

//! Loss functions.

use std::marker::PhantomData;
use vstd::prelude::*;
use crate::scalar::{is_ln_of, zero, Scalar};

verus! {

/// A loss: a number that says how far a prediction is from its target, and
/// the derivative of that number with respect to each entry of the
/// prediction.
pub trait LossFunction<T: Scalar> {
    /// Whether `loss` is a value of the loss of `output` against `target`.
    spec fn is_loss(&self, output: Seq<T>, target: Seq<T>, loss: T) -> bool;

    /// The derivative of the loss with respect to each entry of `output`.
    spec fn derivative_spec(&self, output: Seq<T>, target: Seq<T>) -> Seq<T>;

    fn loss(&self, output: &Vec<T>, target: &Vec<T>) -> (loss: T)
        requires
            output.len() == target.len(),
        ensures
            self.is_loss(output@, target@, loss),
    ;

    fn derivative(&self, output: &Vec<T>, target: &Vec<T>) -> (derivative: Vec<T>)
        requires
            output.len() == target.len(),
        ensures
            derivative.len() == output.len(),
            derivative@ == self.derivative_spec(output@, target@),
    ;
}

/// The sum of `-target[i] * logs[i]`, added up from `i = 0` upwards,
/// starting from zero.
pub open spec fn cross_entropy<T: Scalar>(target: Seq<T>, logs: Seq<T>) -> T
    decreases target.len(),
{
    if target.len() == 0 {
        zero()
    } else {
        cross_entropy(target.drop_last(), logs.drop_last()).add_spec(
            target.last().neg_spec().mul_spec(logs.last()),
        )
    }
}

/// `logs` holds a natural logarithm of each entry of `output`.
pub open spec fn is_log_of<T: Scalar>(output: Seq<T>, logs: Seq<T>) -> bool {
    &&& logs.len() == output.len()
    &&& forall|i: int| 0 <= i < output.len() ==> is_ln_of(output[i], #[trigger] logs[i])
}

/// The difference `output[i] - target[i]` at each `i`.
pub open spec fn difference<T: Scalar>(output: Seq<T>, target: Seq<T>) -> Seq<T> {
    Seq::new(output.len(), |i: int| output[i].sub_spec(target[i]))
}

/// Adds up `-target[i] * logs[i]`.
pub fn cross_entropy_of_logs<T: Scalar>(target: &Vec<T>, logs: &Vec<T>) -> (loss: T)
    requires
        target.len() == logs.len(),
    ensures
        loss == cross_entropy(target@, logs@),
{
    let mut loss = T::from_usize(0);
    let mut i: usize = 0;
    while i < target.len()
        invariant
            i <= target.len(),
            target.len() == logs.len(),
            loss == cross_entropy(target@.take(i as int), logs@.take(i as int)),
        decreases target.len() - i,
    {
        proof {
            assert(target@.take(i + 1).drop_last() =~= target@.take(i as int));
            assert(logs@.take(i + 1).drop_last() =~= logs@.take(i as int));
        }
        loss = loss.add(target[i].neg().mul(logs[i]));
        i += 1;
    }
    proof {
        assert(target@.take(target.len() as int) =~= target@);
        assert(logs@.take(logs.len() as int) =~= logs@);
    }
    loss
}

/// The cross-entropy of a predicted distribution against a target
/// distribution.
///
/// Its derivative is `output - target`. That is the derivative with respect
/// to what goes into a normalized exponential, not with respect to `output`
/// itself: the loss belongs on a network whose last layer has that
/// activation, and gives a wrong gradient behind any other.
pub struct CrossEntropyLoss<T: Scalar> {
    _t: PhantomData<T>,
}

impl<T: Scalar> CrossEntropyLoss<T> {
    /// The cross-entropy over the scalars `T`.
    pub fn new() -> Self {
        CrossEntropyLoss { _t: PhantomData }
    }
}

impl<T: Scalar> LossFunction<T> for CrossEntropyLoss<T> {
    open spec fn is_loss(&self, output: Seq<T>, target: Seq<T>, loss: T) -> bool {
        exists|logs: Seq<T>| is_log_of(output, logs) && loss == cross_entropy(target, logs)
    }

    open spec fn derivative_spec(&self, output: Seq<T>, target: Seq<T>) -> Seq<T> {
        difference(output, target)
    }

    fn loss(&self, output: &Vec<T>, target: &Vec<T>) -> (loss: T) {
        let mut logs: Vec<T> = Vec::with_capacity(output.len());
        let mut i: usize = 0;
        while i < output.len()
            invariant
                i <= output.len(),
                logs.len() == i,
                forall|k: int| 0 <= k < i ==> is_ln_of(output@[k], #[trigger] logs@[k]),
            decreases output.len() - i,
        {
            logs.push(output[i].ln());
            i += 1;
        }
        assert(is_log_of(output@, logs@));
        cross_entropy_of_logs(target, &logs)
    }

    fn derivative(&self, output: &Vec<T>, target: &Vec<T>) -> (derivative: Vec<T>) {
        let mut derivative: Vec<T> = Vec::with_capacity(output.len());
        let mut i: usize = 0;
        while i < output.len()
            invariant
                i <= output.len(),
                output.len() == target.len(),
                derivative@ == difference(output@, target@).take(i as int),
            decreases output.len() - i,
        {
            derivative.push(output[i].sub(target[i]));
            i += 1;
            assert(derivative@ =~= difference(output@, target@).take(i as int));
        }
        assert(derivative@ =~= difference(output@, target@));
        derivative
    }
}

/// Entry `i` of the derivative of the cross-entropy is `output[i] -
/// target[i]`, for vectors of one length.
pub proof fn lemma_cross_entropy_derivative<T: Scalar>(
    loss: CrossEntropyLoss<T>,
    output: Seq<T>,
    target: Seq<T>,
    i: int,
)
    requires
        output.len() == target.len(),
        0 <= i < output.len(),
    ensures
        loss.derivative_spec(output, target).len() == output.len(),
        loss.derivative_spec(output, target)[i] == output[i].sub_spec(target[i]),
{
}

/// The loss of a network: the cross-entropy, or one of the caller's own.
#[verifier::reject_recursive_types(T)]
pub enum Loss<T: Scalar> {
    CrossEntropy(CrossEntropyLoss<T>),
    Custom(Box<dyn LossFunction<T>>),
}

impl<T: Scalar> LossFunction<T> for Loss<T> {
    open spec fn is_loss(&self, output: Seq<T>, target: Seq<T>, loss: T) -> bool {
        match self {
            Loss::CrossEntropy(l) => l.is_loss(output, target, loss),
            Loss::Custom(l) => l.is_loss(output, target, loss),
        }
    }

    open spec fn derivative_spec(&self, output: Seq<T>, target: Seq<T>) -> Seq<T> {
        match self {
            Loss::CrossEntropy(l) => l.derivative_spec(output, target),
            Loss::Custom(l) => l.derivative_spec(output, target),
        }
    }

    fn loss(&self, output: &Vec<T>, target: &Vec<T>) -> (loss: T) {
        match self {
            Loss::CrossEntropy(l) => l.loss(output, target),
            Loss::Custom(l) => l.loss(output, target),
        }
    }

    fn derivative(&self, output: &Vec<T>, target: &Vec<T>) -> (derivative: Vec<T>) {
        match self {
            Loss::CrossEntropy(l) => l.derivative(output, target),
            Loss::Custom(l) => l.derivative(output, target),
        }
    }
}

} // verus!

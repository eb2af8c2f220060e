//! The number type of a network.

use vstd::prelude::*;

verus! {

/// A real number as a machine holds it: a floating-point type, or anything
/// else with the same operations.
///
/// Each operation but the last three comes as a pair: a specification function
/// that names the value, and the executable method that returns it. An
/// implementor promises that the method is a function of its operands, so that
/// the same operands give the same value wherever they are computed. For an
/// IEEE type this holds of the operations below once every NaN counts as one
/// value. The library proves nothing about the operations themselves (no
/// commutativity, no ordering law); it only tracks which of them are applied
/// to what, and in which order.
///
/// `exp`, `ln` and `sample_unit` promise nothing: elementary functions need
/// not round alike on every platform, and a random draw is not a function at
/// all. Contracts speak of what they returned through `call_ensures`.
///
/// Code that is not verified implements the trait like any other; there each
/// specification function is written out as the method that it names.
pub trait Scalar: Copy {
    /// The scalar nearest to the integer `n`.
    spec fn from_usize_spec(n: usize) -> Self;

    /// The most negative finite scalar.
    spec fn min_value_spec() -> Self;

    spec fn add_spec(self, rhs: Self) -> Self;

    spec fn sub_spec(self, rhs: Self) -> Self;

    spec fn mul_spec(self, rhs: Self) -> Self;

    spec fn div_spec(self, rhs: Self) -> Self;

    spec fn neg_spec(self) -> Self;

    spec fn abs_spec(self) -> Self;

    spec fn sqrt_spec(self) -> Self;

    /// Whether `self` is strictly greater than `rhs`.
    spec fn gt_spec(self, rhs: Self) -> bool;

    fn from_usize(n: usize) -> (r: Self)
        ensures
            r == Self::from_usize_spec(n),
    ;

    fn min_value() -> (r: Self)
        ensures
            r == Self::min_value_spec(),
    ;

    fn add(self, rhs: Self) -> (r: Self)
        ensures
            r == self.add_spec(rhs),
    ;

    fn sub(self, rhs: Self) -> (r: Self)
        ensures
            r == self.sub_spec(rhs),
    ;

    fn mul(self, rhs: Self) -> (r: Self)
        ensures
            r == self.mul_spec(rhs),
    ;

    fn div(self, rhs: Self) -> (r: Self)
        ensures
            r == self.div_spec(rhs),
    ;

    fn neg(self) -> (r: Self)
        ensures
            r == self.neg_spec(),
    ;

    fn abs(self) -> (r: Self)
        ensures
            r == self.abs_spec(),
    ;

    fn sqrt(self) -> (r: Self)
        ensures
            r == self.sqrt_spec(),
    ;

    fn gt(self, rhs: Self) -> (r: bool)
        ensures
            r == self.gt_spec(rhs),
    ;

    /// The exponential of `self`.
    fn exp(self) -> Self;

    /// The natural logarithm of `self`.
    fn ln(self) -> Self;

    /// A fresh draw, uniform over the scalars from zero up to, but not
    /// including, one.
    fn sample_unit() -> Self;
}

/// The scalar zero.
pub open spec fn zero<T: Scalar>() -> T {
    T::from_usize_spec(0)
}

/// The scalar one.
pub open spec fn one<T: Scalar>() -> T {
    T::from_usize_spec(1)
}

/// The quotient of two integers, each first taken to its nearest scalar.
pub open spec fn ratio<T: Scalar>(numerator: usize, denominator: usize) -> T {
    T::from_usize_spec(numerator).div_spec(T::from_usize_spec(denominator))
}

/// `x` is a value that `exp` may return for `arg`.
pub open spec fn is_exp_of<T: Scalar>(arg: T, x: T) -> bool {
    call_ensures(T::exp, (arg,), x)
}

/// `x` is a value that `ln` may return for `arg`.
pub open spec fn is_ln_of<T: Scalar>(arg: T, x: T) -> bool {
    call_ensures(T::ln, (arg,), x)
}

/// `x` is a value that `sample_unit` may return.
pub open spec fn is_unit_sample<T: Scalar>(x: T) -> bool {
    call_ensures(T::sample_unit, (), x)
}

/// Computes [`ratio`].
pub fn make_ratio<T: Scalar>(numerator: usize, denominator: usize) -> (r: T)
    ensures
        r == ratio::<T>(numerator, denominator),
{
    T::from_usize(numerator).div(T::from_usize(denominator))
}

} // verus!

//! Turning labelled records into examples.

use vstd::prelude::*;
use crate::scalar::{one, zero, Scalar};

verus! {

/// The number of classes of a digit.
pub const DIGIT_CLASSES: usize = 10;

/// The brightest value of a pixel.
pub const PIXEL_MAX: usize = 255;

/// The target of class `label` among `classes`: one at `label`, zero
/// everywhere else; all zero where `label` is no class.
pub open spec fn one_hot_of<T: Scalar>(label: usize, classes: usize) -> Seq<T> {
    Seq::new(
        classes as nat,
        |i: int|
            if i == label {
                one::<T>()
            } else {
                zero::<T>()
            },
    )
}

/// Each entry of `raw` divided by `full_scale`.
pub open spec fn scaled_down<T: Scalar>(raw: Seq<T>, full_scale: usize) -> Seq<T> {
    Seq::new(raw.len(), |i: int| raw[i].div_spec(T::from_usize_spec(full_scale)))
}

/// Makes the target vector of a class.
pub fn one_hot<T: Scalar>(label: usize, classes: usize) -> (target: Vec<T>)
    ensures
        target@ == one_hot_of::<T>(label, classes),
{
    let mut target: Vec<T> = Vec::with_capacity(classes);
    let mut i: usize = 0;
    while i < classes
        invariant
            i <= classes,
            target@ == one_hot_of::<T>(label, classes).take(i as int),
        decreases classes - i,
    {
        let entry = if i == label {
            T::from_usize(1)
        } else {
            T::from_usize(0)
        };
        target.push(entry);
        i += 1;
        assert(target@ =~= one_hot_of::<T>(label, classes).take(i as int));
    }
    assert(target@ =~= one_hot_of::<T>(label, classes));
    target
}

/// Divides each entry of a vector by `full_scale`.
pub fn scale_down<T: Scalar>(raw: &Vec<T>, full_scale: usize) -> (features: Vec<T>)
    ensures
        features@ == scaled_down(raw@, full_scale),
{
    let divisor = T::from_usize(full_scale);
    let mut features: Vec<T> = Vec::with_capacity(raw.len());
    let mut i: usize = 0;
    while i < raw.len()
        invariant
            i <= raw.len(),
            divisor == T::from_usize_spec(full_scale),
            features@ == scaled_down(raw@, full_scale).take(i as int),
        decreases raw.len() - i,
    {
        features.push(raw[i].div(divisor));
        i += 1;
        assert(features@ =~= scaled_down(raw@, full_scale).take(i as int));
    }
    assert(features@ =~= scaled_down(raw@, full_scale));
    features
}

/// Makes the example of one image of a digit: its pixels brought into the
/// unit interval, and the target of its label among the ten digits.
pub fn encode_digit<T: Scalar>(label: usize, pixels: &Vec<T>) -> (example: (Vec<T>, Vec<T>))
    ensures
        example.0@ == scaled_down(pixels@, PIXEL_MAX),
        example.1@ == one_hot_of::<T>(label, DIGIT_CLASSES),
{
    (scale_down(pixels, PIXEL_MAX), one_hot(label, DIGIT_CLASSES))
}

} // verus!

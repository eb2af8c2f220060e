//! What is wrong with the shape of a network or of its data.

use vstd::prelude::*;

verus! {

/// A mismatch of shapes that would make a pass through a network
/// meaningless.
#[derive(Clone, Copy, Debug, PartialEq, Eq, Structural)]
pub enum ShapeError {
    /// The network has no layer, a layer whose rows or biases do not fit
    /// together, or two neighbouring layers of different widths.
    Network,
    /// There are not as many targets as inputs.
    ExampleCount { inputs: usize, targets: usize },
    /// The input of an example has not one entry for each input of the
    /// first layer. `example` is the position of the example in its set.
    InputWidth { example: usize, expected: usize, found: usize },
    /// The target of an example has not one entry for each output of the
    /// last layer. `example` is the position of the example in its set.
    TargetWidth { example: usize, expected: usize, found: usize },
}

} // verus!

//! A small feed-forward neural network: fully-connected layers, forward
//! propagation, backpropagation and plain gradient descent on one example at
//! a time.
//!
//! The library is generic over its numbers. A number type implements
//! [`scalar::Scalar`]; the contracts say which of its operations are applied
//! to what, and in which order, so they fix every result down to the last
//! rounding of the type in use. No law of arithmetic is assumed of the
//! operations.
//!
//! - [`gemm`]: products of matrices and vectors, and the transpose.
//! - [`activation`]: the rectified linear unit and the normalized
//!   exponential.
//! - [`loss`]: the cross-entropy.
//! - [`initializer`]: He initialization.
//! - [`layer`]: the fully-connected layer and its forward and backward
//!   passes.
//! - [`mlp`]: the network, a stack of layers with a loss.
//! - [`optimizer`]: gradient descent with a decaying learning rate, training
//!   and scoring.
//! - [`dataset`]: examples from labelled records.
//! - [`progress`]: the line that shows how far a training run has come.
//! - [`shape`]: what can be wrong with the shape of a network or its data.
//!
//! Functions that need shapes to fit say so in `requires`. A caller that
//! cannot know its shapes asks [`mlp::MultiLayerPerceptron::check_examples`]
//! first.

pub mod scalar;
pub mod shape;
pub mod gemm;
pub mod activation;
pub mod dataset;
pub mod initializer;
pub mod layer;
pub mod loss;
pub mod mlp;
pub mod optimizer;
pub mod progress;

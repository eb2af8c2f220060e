//! The fully-connected layer.

use vstd::prelude::*;
pub use crate::activation::{Activation, ActivationFunction, ReLU, Softmax};
use crate::gemm::{
    entries, is_rectangular, lemma_entries_push, mat_mat, mat_vec, matrix_matrix_mul,
    matrix_transpose, matrix_vector_mul, transpose,
};
use crate::initializer::Initializer;
use crate::scalar::{make_ratio, ratio, Scalar};

verus! {

/// The magnitude above which a gradient entry is replaced.
pub open spec fn clip_ceiling<T: Scalar>() -> T {
    T::from_usize_spec(5)
}

/// The magnitude below which a gradient entry is replaced.
pub open spec fn clip_floor<T: Scalar>() -> T {
    ratio(1, 100000)
}

/// A gradient entry after clipping: the ceiling where its magnitude is greater
/// than the ceiling, and then the floor where the magnitude of what is left is
/// less than the floor. Both replacements are the bounds themselves, whatever
/// the sign of the entry was.
pub open spec fn clipped<T: Scalar>(g: T) -> T {
    let capped = if g.abs_spec().gt_spec(clip_ceiling()) {
        clip_ceiling()
    } else {
        g
    };
    if clip_floor::<T>().gt_spec(capped.abs_spec()) {
        clip_floor()
    } else {
        capped
    }
}

/// A clipped entry is the ceiling, the floor, or the entry itself; and it is
/// the entry itself only where its magnitude is neither greater than the
/// ceiling nor less than the floor.
pub proof fn lemma_clipped_range<T: Scalar>(g: T)
    ensures
        clipped(g) == clip_ceiling::<T>() || clipped(g) == clip_floor::<T>() || {
            &&& clipped(g) == g
            &&& !g.abs_spec().gt_spec(clip_ceiling())
            &&& !clip_floor::<T>().gt_spec(g.abs_spec())
        },
{
}

/// The two clipping bounds are themselves within the bounds: the magnitude
/// of neither is greater than the ceiling or less than the floor. This holds
/// of every number type in which the ceiling is at least the floor and a
/// positive number is its own magnitude.
pub open spec fn clip_bounds_ordered<T: Scalar>() -> bool {
    &&& !clip_ceiling::<T>().abs_spec().gt_spec(clip_ceiling())
    &&& !clip_floor::<T>().gt_spec(clip_ceiling::<T>().abs_spec())
    &&& !clip_floor::<T>().abs_spec().gt_spec(clip_ceiling())
    &&& !clip_floor::<T>().gt_spec(clip_floor::<T>().abs_spec())
}

/// The magnitude of `g` is neither greater than the ceiling nor less than
/// the floor.
pub open spec fn within_clip_bounds<T: Scalar>(g: T) -> bool {
    &&& !g.abs_spec().gt_spec(clip_ceiling())
    &&& !clip_floor::<T>().gt_spec(g.abs_spec())
}

/// The magnitude of a clipped entry lies between the floor and the ceiling.
pub proof fn lemma_clipped_within_bounds<T: Scalar>(g: T)
    requires
        clip_bounds_ordered::<T>(),
    ensures
        within_clip_bounds(clipped(g)),
{
}

/// Each entry of `incoming` times the derivative of the activation at the
/// matching entry of `output`.
pub open spec fn scaled_by_derivative<T: Scalar>(
    activation: Activation<T>,
    incoming: Seq<T>,
    output: Seq<T>,
) -> Seq<T> {
    Seq::new(
        incoming.len(),
        |i: int| incoming[i].mul_spec(activation.derivative_spec(output[i])),
    )
}

/// The outer product of `deltas` and `input`: entry `(i, j)` is
/// `deltas[i] * input[j]`.
pub open spec fn outer<T: Scalar>(deltas: Seq<T>, input: Seq<T>) -> Seq<Seq<T>> {
    Seq::new(deltas.len(), |i: int| Seq::new(input.len(), |j: int| deltas[i].mul_spec(input[j])))
}

/// Every entry of `m`, clipped.
pub open spec fn clipped_all<T: Scalar>(m: Seq<Seq<T>>) -> Seq<Seq<T>> {
    Seq::new(m.len(), |i: int| Seq::new(m[i].len(), |j: int| clipped(m[i][j])))
}

/// Clips one gradient entry.
pub fn clip_gradient<T: Scalar>(g: T) -> (r: T)
    ensures
        r == clipped(g),
{
    let mut r = g;
    if r.abs().gt(T::from_usize(5)) {
        r = T::from_usize(5);
    }
    let floor: T = make_ratio(1, 100000);
    if floor.gt(r.abs()) {
        r = floor;
    }
    r
}

/// What a fully-connected layer is made of: a weight for each pair of an
/// output and an input, a bias for each output, and an activation.
#[verifier::reject_recursive_types(T)]
pub struct LayerModel<T: Scalar> {
    pub weights: Seq<Seq<T>>,
    pub biases: Seq<T>,
    pub activation: Activation<T>,
}

impl<T: Scalar> LayerModel<T> {
    /// The number of outputs: one for each row of weights.
    pub open spec fn n_outputs(self) -> nat {
        self.weights.len()
    }

    /// The number of inputs: the length of the first row of weights.
    pub open spec fn n_inputs(self) -> nat {
        if self.weights.len() > 0 {
            self.weights[0].len()
        } else {
            0
        }
    }

    /// There is at least one output, every output has a weight for each
    /// input, and every output has a bias.
    pub open spec fn well_formed(self) -> bool {
        &&& self.weights.len() > 0
        &&& is_rectangular(self.weights, self.n_inputs())
        &&& self.biases.len() == self.weights.len()
    }

    /// Whether `output` is a result of the layer on `input`: an activation
    /// of the product of the weights and `input`.
    pub open spec fn forwards(self, input: Seq<T>, output: Seq<T>) -> bool {
        self.activation.activates_layer(mat_vec(self.weights, input), output)
    }

    /// Whether `output` is a result of the layer on a batch with one example
    /// in each row of `input`: row `i` of `output` is an activation of the
    /// products of weight row `i` with each of the examples.
    pub open spec fn batch_forwards(self, input: Seq<Seq<T>>, output: Seq<Seq<T>>) -> bool {
        &&& output.len() == self.weights.len()
        &&& forall|i: int|
            0 <= i < output.len() ==> self.activation.activates_layer(
                mat_mat(self.weights, input)[i],
                #[trigger] output[i],
            )
    }

    /// Whether `next_weights` and `next_deltas` are what a backward pass may
    /// be given: the weights and deltas of the layer that follows, or no
    /// weights and one delta for each output where none follows.
    pub open spec fn follows(self, next_weights: Seq<Seq<T>>, next_deltas: Seq<T>) -> bool {
        if next_weights.len() == 0 {
            next_deltas.len() == self.n_outputs()
        } else {
            &&& is_rectangular(next_weights, self.n_outputs())
            &&& next_deltas.len() == next_weights.len()
        }
    }

    /// `deltas` and `gradients` have the shape of the layer's biases and
    /// weights.
    pub open spec fn fits_update(self, deltas: Seq<T>, gradients: Seq<Seq<T>>) -> bool {
        &&& deltas.len() == self.n_outputs()
        &&& gradients.len() == self.n_outputs()
        &&& is_rectangular(gradients, self.n_inputs())
    }

    /// The deltas of a layer that nothing follows: each incoming delta times
    /// the derivative of the activation at the layer's own output.
    pub open spec fn last_layer_deltas(self, output: Seq<T>, next_deltas: Seq<T>) -> Seq<T> {
        scaled_by_derivative(self.activation, next_deltas, output)
    }

    /// The deltas of a layer that another follows: the following layer's
    /// deltas carried back through its transposed weights, each then times
    /// the derivative of the activation at the layer's own output.
    pub open spec fn inner_deltas(
        self,
        output: Seq<T>,
        next_weights: Seq<Seq<T>>,
        next_deltas: Seq<T>,
    ) -> Seq<T> {
        scaled_by_derivative(self.activation, mat_vec(transpose(next_weights), next_deltas), output)
    }

    /// The deltas that a backward pass returns.
    pub open spec fn backward_deltas(
        self,
        output: Seq<T>,
        next_weights: Seq<Seq<T>>,
        next_deltas: Seq<T>,
    ) -> Seq<T> {
        if next_weights.len() == 0 {
            self.last_layer_deltas(output, next_deltas)
        } else {
            self.inner_deltas(output, next_weights, next_deltas)
        }
    }

    /// The gradients that a backward pass returns: the outer product of the
    /// deltas and the layer's input, clipped where another layer follows.
    pub open spec fn backward_gradients(
        self,
        input: Seq<T>,
        output: Seq<T>,
        next_weights: Seq<Seq<T>>,
        next_deltas: Seq<T>,
    ) -> Seq<Seq<T>> {
        if next_weights.len() == 0 {
            outer(self.last_layer_deltas(output, next_deltas), input)
        } else {
            clipped_all(outer(self.inner_deltas(output, next_weights, next_deltas), input))
        }
    }
}

/// Where another layer follows, the magnitude of every gradient entry of a
/// backward pass lies between the clipping floor and the clipping ceiling.
pub proof fn lemma_backward_gradients_clipped<T: Scalar>(
    layer: LayerModel<T>,
    input: Seq<T>,
    output: Seq<T>,
    next_weights: Seq<Seq<T>>,
    next_deltas: Seq<T>,
    i: int,
    j: int,
)
    requires
        clip_bounds_ordered::<T>(),
        next_weights.len() > 0,
        0 <= i < layer.backward_gradients(input, output, next_weights, next_deltas).len(),
        0 <= j < input.len(),
    ensures
        within_clip_bounds(layer.backward_gradients(input, output, next_weights, next_deltas)[i][j]),
{
    let deltas = layer.inner_deltas(output, next_weights, next_deltas);
    lemma_clipped_within_bounds(outer(deltas, input)[i][j]);
}

/// One layer of a network, as the network sees it: it has a fixed number of
/// inputs and outputs, maps a vector of the one length to a vector of the
/// other, and answers a backward pass with one delta for each of its outputs
/// and one gradient entry for each of its weights.
pub trait Layer<T: Scalar>: Sized {
    /// The layer's parameters fit together.
    spec fn well_formed(&self) -> bool;

    /// The length of the vectors that the layer takes.
    spec fn n_inputs(&self) -> nat;

    /// The length of the vectors that the layer gives.
    spec fn n_outputs(&self) -> nat;

    /// Whether `next_weights` and `next_deltas` are what a backward pass may
    /// be given: the weights and deltas of the layer that follows, or no
    /// weights and one delta for each output where none follows.
    spec fn follows(&self, next_weights: Seq<Seq<T>>, next_deltas: Seq<T>) -> bool;

    /// Applies the layer to one example.
    fn forward(&self, input: &Vec<T>) -> (output: Vec<T>)
        requires
            self.well_formed(),
            input.len() == self.n_inputs(),
        ensures
            output.len() == self.n_outputs(),
    ;

    /// Applies the layer to a batch, one example in each row of `input`.
    /// The result has one row for each output and one column for each
    /// example.
    fn batch_forward(&self, input: &Vec<Vec<T>>) -> (output: Vec<Vec<T>>)
        requires
            self.well_formed(),
            is_rectangular(entries(input@), self.n_inputs()),
        ensures
            output.len() == self.n_outputs(),
            is_rectangular(entries(output@), input.len() as nat),
    ;

    /// The backward pass of a layer that nothing follows: `next_deltas` is
    /// the derivative of the loss. Returns the layer's deltas and the
    /// gradients of its weights, and leaves the layer as it was.
    fn backward_last_layer(&mut self, input: &Vec<T>, output: &Vec<T>, next_deltas: &Vec<T>) -> (r: (
        Vec<T>,
        Vec<Vec<T>>,
    ))
        requires
            old(self).well_formed(),
            input.len() == old(self).n_inputs(),
            output.len() == old(self).n_outputs(),
            next_deltas.len() == old(self).n_outputs(),
        ensures
            *final(self) == *old(self),
            r.0.len() == old(self).n_outputs(),
            r.1.len() == old(self).n_outputs(),
            is_rectangular(entries(r.1@), old(self).n_inputs()),
    ;

    /// The backward pass of a layer: that of a last layer where
    /// `next_weights` is empty; else `next_weights` and `next_deltas` are
    /// those of the layer that follows. Returns the layer's deltas and the
    /// gradients of its weights, and leaves the layer as it was.
    fn backward(
        &mut self,
        input: &Vec<T>,
        output: &Vec<T>,
        next_weights: &Vec<Vec<T>>,
        next_deltas: &Vec<T>,
    ) -> (r: (Vec<T>, Vec<Vec<T>>))
        requires
            old(self).well_formed(),
            input.len() == old(self).n_inputs(),
            output.len() == old(self).n_outputs(),
            old(self).follows(entries(next_weights@), next_deltas@),
        ensures
            *final(self) == *old(self),
            r.0.len() == old(self).n_outputs(),
            r.1.len() == old(self).n_outputs(),
            is_rectangular(entries(r.1@), old(self).n_inputs()),
    ;
}

/// A fully-connected layer: one row of weights and one bias for each output,
/// and an activation.
#[verifier::reject_recursive_types(T)]
pub struct DenseLayer<T: Scalar> {
    pub weights: Vec<Vec<T>>,
    pub biases: Vec<T>,
    pub activation: Activation<T>,
}

impl<T: Scalar> View for DenseLayer<T> {
    type V = LayerModel<T>;

    open spec fn view(&self) -> LayerModel<T> {
        LayerModel {
            weights: entries(self.weights@),
            biases: self.biases@,
            activation: self.activation,
        }
    }
}

impl<T: Scalar> DenseLayer<T> {
    /// Makes a layer with the weights and biases that `initializer` gives
    /// for its size.
    pub fn new(
        n_inputs: usize,
        n_outputs: usize,
        initializer: &dyn Initializer<T>,
        activation: Activation<T>,
    ) -> (layer: Self)
        ensures
            layer@.activation == activation,
            layer@.weights.len() == n_outputs,
            is_rectangular(layer@.weights, n_inputs as nat),
            layer@.biases.len() == n_outputs,
            initializer.may_give_weights(n_inputs, n_outputs, layer@.weights),
            initializer.may_give_biases(n_outputs, layer@.biases),
            n_outputs > 0 ==> layer@.well_formed() && layer@.n_inputs() == n_inputs,
    {
        let weights = initializer.initialize_weights(n_inputs, n_outputs);
        let biases = initializer.initialize_biases(n_outputs);
        proof {
            if n_outputs > 0 {
                assert(entries(weights@)[0].len() == n_inputs);
            }
        }
        DenseLayer { weights, biases, activation }
    }

    /// Whether the weights and biases fit together.
    pub fn is_well_formed(&self) -> (ok: bool)
        ensures
            ok == self@.well_formed(),
    {
        if self.weights.len() == 0 || self.biases.len() != self.weights.len() {
            return false;
        }
        let width = self.weights[0].len();
        let mut j: usize = 1;
        while j < self.weights.len()
            invariant
                1 <= j <= self.weights.len(),
                width == self.weights@[0].len(),
                forall|m: int| 0 <= m < j ==> (#[trigger] self@.weights[m]).len() == width,
            decreases self.weights.len() - j,
        {
            if self.weights[j].len() != width {
                assert(self@.weights[j as int].len() != self@.n_inputs());
                return false;
            }
            j += 1;
        }
        true
    }

    /// The number of inputs of a layer with at least one output.
    pub fn input_width(&self) -> (width: usize)
        requires
            self.weights.len() > 0,
        ensures
            width == self@.n_inputs(),
    {
        self.weights[0].len()
    }

    /// The number of outputs.
    pub fn output_width(&self) -> (width: usize)
        ensures
            width == self@.n_outputs(),
    {
        self.weights.len()
    }

    /// Multiplies each incoming delta by the derivative of the activation at
    /// the matching output.
    fn scale_by_derivative(&self, incoming: &Vec<T>, output: &Vec<T>) -> (deltas: Vec<T>)
        requires
            incoming.len() == output.len(),
        ensures
            deltas@ == scaled_by_derivative(self.activation, incoming@, output@),
    {
        let ghost want = scaled_by_derivative(self.activation, incoming@, output@);
        let mut deltas: Vec<T> = Vec::with_capacity(incoming.len());
        let mut i: usize = 0;
        while i < incoming.len()
            invariant
                i <= incoming.len(),
                incoming.len() == output.len(),
                want == scaled_by_derivative(self.activation, incoming@, output@),
                deltas@ == want.take(i as int),
            decreases incoming.len() - i,
        {
            deltas.push(incoming[i].mul(self.activation.derivative(output[i])));
            i += 1;
            assert(deltas@ =~= want.take(i as int));
        }
        assert(deltas@ =~= want);
        deltas
    }
}

/// The outer product of two vectors, each entry clipped if `clip` is set.
fn outer_product<T: Scalar>(deltas: &Vec<T>, input: &Vec<T>, clip: bool) -> (gradients: Vec<Vec<T>>)
    ensures
        gradients.len() == deltas.len(),
        entries(gradients@) == if clip {
            clipped_all(outer(deltas@, input@))
        } else {
            outer(deltas@, input@)
        },
{
    let ghost want = if clip {
        clipped_all(outer(deltas@, input@))
    } else {
        outer(deltas@, input@)
    };
    let mut gradients: Vec<Vec<T>> = Vec::with_capacity(deltas.len());
    let mut i: usize = 0;
    while i < deltas.len()
        invariant
            i <= deltas.len(),
            gradients.len() == i,
            want == if clip {
                clipped_all(outer(deltas@, input@))
            } else {
                outer(deltas@, input@)
            },
            entries(gradients@) == want.take(i as int),
        decreases deltas.len() - i,
    {
        let mut row: Vec<T> = Vec::with_capacity(input.len());
        let mut j: usize = 0;
        while j < input.len()
            invariant
                i < deltas.len(),
                j <= input.len(),
                want == if clip {
                    clipped_all(outer(deltas@, input@))
                } else {
                    outer(deltas@, input@)
                },
                row@ == want[i as int].take(j as int),
            decreases input.len() - j,
        {
            let product = deltas[i].mul(input[j]);
            let entry = if clip {
                clip_gradient(product)
            } else {
                product
            };
            row.push(entry);
            j += 1;
            assert(row@ =~= want[i as int].take(j as int));
        }
        assert(row@ =~= want[i as int]);
        proof {
            lemma_entries_push(gradients@, row);
        }
        gradients.push(row);
        i += 1;
        assert(entries(gradients@) =~= want.take(i as int));
    }
    assert(entries(gradients@) =~= want);
    gradients
}

impl<T: Scalar> Layer<T> for DenseLayer<T> {
    open spec fn well_formed(&self) -> bool {
        self@.well_formed()
    }

    open spec fn n_inputs(&self) -> nat {
        self@.n_inputs()
    }

    open spec fn n_outputs(&self) -> nat {
        self@.n_outputs()
    }

    open spec fn follows(&self, next_weights: Seq<Seq<T>>, next_deltas: Seq<T>) -> bool {
        self@.follows(next_weights, next_deltas)
    }

    fn forward(&self, input: &Vec<T>) -> (output: Vec<T>)
        ensures
            self@.forwards(input@, output@),
    {
        let weighted = matrix_vector_mul(&self.weights, input);
        self.activation.activate_layer(&weighted)
    }

    fn batch_forward(&self, input: &Vec<Vec<T>>) -> (output: Vec<Vec<T>>)
        ensures
            self@.batch_forwards(entries(input@), entries(output@)),
    {
        assert forall|i: int, k: int| 0 <= i < self.weights.len() && 0 <= k < input.len() implies (
        #[trigger] self.weights@[i]).len() == (#[trigger] input@[k]).len() by {
            assert(self@.weights[i].len() == self.n_inputs());
            assert(entries(input@)[k].len() == self.n_inputs());
        }
        let weighted = matrix_matrix_mul(&self.weights, input);
        let ghost pre = entries(weighted@);
        assert(pre.len() == weighted.len());
        let output = self.activation.activate_batch(weighted);
        proof {
            assert(entries(output@).len() == output.len());
            assert forall|i: int| 0 <= i < output.len() implies (#[trigger] entries(
                output@,
            )[i]).len() == input.len() by {
                assert(output@[i].len() == pre[i].len());
                assert(pre[i].len() == input.len());
            }
            assert forall|i: int| 0 <= i < output.len() implies self.activation.activates_layer(
                mat_mat(self@.weights, entries(input@))[i],
                #[trigger] entries(output@)[i],
            ) by {
                assert(pre[i] == mat_mat(self@.weights, entries(input@))[i]);
            }
        }
        output
    }

    fn backward_last_layer(&mut self, input: &Vec<T>, output: &Vec<T>, next_deltas: &Vec<T>) -> (r: (
        Vec<T>,
        Vec<Vec<T>>,
    ))
        ensures
            r.0@ == old(self)@.last_layer_deltas(output@, next_deltas@),
            entries(r.1@) == outer(r.0@, input@),
    {
        let deltas = self.scale_by_derivative(next_deltas, output);
        let gradients = outer_product(&deltas, input, false);
        (deltas, gradients)
    }

    fn backward(
        &mut self,
        input: &Vec<T>,
        output: &Vec<T>,
        next_weights: &Vec<Vec<T>>,
        next_deltas: &Vec<T>,
    ) -> (r: (Vec<T>, Vec<Vec<T>>))
        ensures
            r.0@ == old(self)@.backward_deltas(output@, entries(next_weights@), next_deltas@),
            entries(r.1@) == old(self)@.backward_gradients(
                input@,
                output@,
                entries(next_weights@),
                next_deltas@,
            ),
    {
        if next_weights.len() == 0 {
            return self.backward_last_layer(input, output, next_deltas);
        }
        assert(entries(next_weights@)[0].len() == self.n_outputs());
        let transposed = matrix_transpose(next_weights);
        assert(is_rectangular(entries(transposed@), next_deltas@.len()));
        let carried = matrix_vector_mul(&transposed, next_deltas);
        let deltas = self.scale_by_derivative(&carried, output);
        let gradients = outer_product(&deltas, input, true);
        (deltas, gradients)
    }
}

} // verus!

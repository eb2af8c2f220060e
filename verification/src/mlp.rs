//! The network: a stack of layers and a loss.

use vstd::prelude::*;
use crate::gemm::{copy_matrix, entries, is_rectangular};
use crate::layer::{DenseLayer, Layer, LayerModel};
use crate::loss::{Loss, LossFunction};
use crate::scalar::Scalar;
use crate::shape::ShapeError;

verus! {

/// What a network is made of: its layers, the input layer first, and its
/// loss.
#[verifier::reject_recursive_types(T)]
pub struct NetworkModel<T: Scalar> {
    pub layers: Seq<LayerModel<T>>,
    pub loss: Loss<T>,
}

/// What goes into layer `k`: the network's input for the first layer, the
/// output of the layer before for every other.
pub open spec fn layer_input<T>(input: Seq<T>, outputs: Seq<Seq<T>>, k: int) -> Seq<T> {
    if k == 0 {
        input
    } else {
        outputs[k - 1]
    }
}

impl<T: Scalar> NetworkModel<T> {
    /// Every layer is well formed, and each has as many inputs as the layer
    /// before it has outputs.
    pub open spec fn well_formed(self) -> bool {
        &&& forall|k: int| 0 <= k < self.layers.len() ==> (#[trigger] self.layers[k]).well_formed()
        &&& forall|k: int|
            0 < k < self.layers.len() ==> (#[trigger] self.layers[k]).n_inputs() == self.layers[k
                - 1].n_outputs()
    }

    /// `input` has one entry for each input of the first layer.
    pub open spec fn accepts(self, input: Seq<T>) -> bool {
        self.layers.len() > 0 ==> input.len() == self.layers[0].n_inputs()
    }

    /// `outputs` has one vector for each layer, of the length of that
    /// layer's output.
    pub open spec fn fits(self, outputs: Seq<Seq<T>>) -> bool {
        &&& outputs.len() == self.layers.len()
        &&& forall|k: int|
            0 <= k < self.layers.len() ==> (#[trigger] outputs[k]).len() == self.layers[k].n_outputs()
    }

    /// `target` has one entry for each output of the last layer.
    pub open spec fn answers(self, target: Seq<T>) -> bool {
        self.layers.len() > 0 ==> target.len() == self.layers.last().n_outputs()
    }

    /// Whether `outputs` holds a result of each layer on a forward pass from
    /// `input`: each layer applied to the output of the one before.
    pub open spec fn forwards(self, input: Seq<T>, outputs: Seq<Seq<T>>) -> bool {
        &&& self.fits(outputs)
        &&& forall|k: int|
            0 <= k < self.layers.len() ==> (#[trigger] self.layers[k]).forwards(
                layer_input(input, outputs, k),
                outputs[k],
            )
    }

    /// The network can be run: it is well formed and has a layer.
    pub open spec fn usable(self) -> bool {
        self.well_formed() && self.layers.len() > 0
    }

    /// The network can be run on every example: it is usable, and each
    /// example has an input and a target of its widths.
    pub open spec fn takes(self, inputs: Seq<Seq<T>>, targets: Seq<Seq<T>>) -> bool {
        &&& self.usable()
        &&& inputs.len() == targets.len()
        &&& forall|i: int| 0 <= i < inputs.len() ==> self.accepts(#[trigger] inputs[i])
        &&& forall|i: int| 0 <= i < targets.len() ==> self.answers(#[trigger] targets[i])
    }

    /// What is wrong with an example for a usable network, if anything: the
    /// width of its input, or else the width of its target.
    pub open spec fn example_fault(self, example: nat, input_len: nat, target_len: nat) -> Option<
        ShapeError,
    > {
        if input_len != self.layers[0].n_inputs() {
            Some(
                ShapeError::InputWidth {
                    example: example as usize,
                    expected: self.layers[0].n_inputs() as usize,
                    found: input_len as usize,
                },
            )
        } else if target_len != self.layers.last().n_outputs() {
            Some(
                ShapeError::TargetWidth {
                    example: example as usize,
                    expected: self.layers.last().n_outputs() as usize,
                    found: target_len as usize,
                },
            )
        } else {
            None
        }
    }

    /// What is wrong with the first of the first `count` examples with
    /// which anything is wrong.
    pub open spec fn first_fault(self, inputs: Seq<Seq<T>>, targets: Seq<Seq<T>>, count: nat) -> Option<
        ShapeError,
    >
        decreases count,
    {
        if count == 0 {
            None
        } else {
            match self.first_fault(inputs, targets, (count - 1) as nat) {
                Some(fault) => Some(fault),
                None => self.example_fault(
                    (count - 1) as nat,
                    inputs[count - 1].len(),
                    targets[count - 1].len(),
                ),
            }
        }
    }

    /// What is wrong with running the network on a set of examples, if
    /// anything: the network itself, or else the number of targets, or else
    /// the first example with which anything is wrong.
    pub open spec fn examples_fault(self, inputs: Seq<Seq<T>>, targets: Seq<Seq<T>>) -> Option<
        ShapeError,
    > {
        if !self.usable() {
            Some(ShapeError::Network)
        } else if inputs.len() != targets.len() {
            Some(ShapeError::ExampleCount { inputs: inputs.len() as usize, targets: targets.len() as usize })
        } else {
            self.first_fault(inputs, targets, inputs.len())
        }
    }

    /// `deltas` and `gradients` hold, for each layer, values of the shape of
    /// its biases and weights.
    pub open spec fn fits_update(self, deltas: Seq<Seq<T>>, gradients: Seq<Seq<Seq<T>>>) -> bool {
        &&& deltas.len() == self.layers.len()
        &&& gradients.len() == self.layers.len()
        &&& forall|i: int|
            0 <= i < self.layers.len() ==> (#[trigger] self.layers[i]).fits_update(deltas[i], gradients[i])
    }

    /// The weights that the backward pass of layer `k` is given: those of
    /// the layer that follows, and none for the last layer.
    pub open spec fn next_weights(self, k: int) -> Seq<Seq<T>> {
        if k + 1 < self.layers.len() {
            self.layers[k + 1].weights
        } else {
            Seq::empty()
        }
    }

    /// The deltas that the backward pass of layer `k` is given: those of the
    /// layer that follows, and the derivative of the loss for the last
    /// layer.
    pub open spec fn next_deltas(self, outputs: Seq<Seq<T>>, target: Seq<T>, k: int) -> Seq<T>
        decreases self.layers.len() - k, 0nat,
    {
        if k + 1 < self.layers.len() {
            self.deltas_at(outputs, target, k + 1)
        } else {
            self.loss.derivative_spec(outputs.last(), target)
        }
    }

    /// The deltas of layer `k`.
    pub open spec fn deltas_at(self, outputs: Seq<Seq<T>>, target: Seq<T>, k: int) -> Seq<T>
        decreases self.layers.len() - k, 1nat,
    {
        self.layers[k].backward_deltas(
            outputs[k],
            self.next_weights(k),
            self.next_deltas(outputs, target, k),
        )
    }

    /// The gradients of the weights of layer `k`.
    pub open spec fn gradients_at(
        self,
        outputs: Seq<Seq<T>>,
        input: Seq<T>,
        target: Seq<T>,
        k: int,
    ) -> Seq<Seq<T>> {
        self.layers[k].backward_gradients(
            layer_input(input, outputs, k),
            outputs[k],
            self.next_weights(k),
            self.next_deltas(outputs, target, k),
        )
    }

    /// The deltas of every layer, the input layer first.
    pub open spec fn deltas(self, outputs: Seq<Seq<T>>, target: Seq<T>) -> Seq<Seq<T>> {
        Seq::new(self.layers.len(), |k: int| self.deltas_at(outputs, target, k))
    }

    /// The gradients of every layer, the input layer first.
    pub open spec fn gradients(self, outputs: Seq<Seq<T>>, input: Seq<T>, target: Seq<T>) -> Seq<
        Seq<Seq<T>>,
    > {
        Seq::new(self.layers.len(), |k: int| self.gradients_at(outputs, input, target, k))
    }
}

/// One matrix for each layer, as sequences.
pub open spec fn stack<T>(m: Seq<Vec<Vec<T>>>) -> Seq<Seq<Seq<T>>> {
    Seq::new(m.len(), |i: int| entries(m[i]@))
}

/// A multilayer perceptron: what forward propagation and backpropagation
/// are defined on.
pub trait MLP<T: Scalar>: Sized {
    /// The layers and the loss that the value stands for.
    spec fn model(&self) -> NetworkModel<T>;

    /// Runs `input` through the layers in order and returns the output of
    /// every layer, the input layer's first.
    fn forward(&self, input: &Vec<T>) -> (layer_outputs: Vec<Vec<T>>)
        requires
            self.model().well_formed(),
            self.model().accepts(input@),
        ensures
            self.model().forwards(input@, entries(layer_outputs@)),
    ;

    /// Given the outputs of a forward pass from `input`, returns the deltas
    /// and the weight gradients of every layer against `target`, the input
    /// layer's first, and leaves the network as it was.
    fn backward(&mut self, layer_outputs: &Vec<Vec<T>>, input: &Vec<T>, target: &Vec<T>) -> (r: (
        Vec<Vec<T>>,
        Vec<Vec<Vec<T>>>,
    ))
        requires
            old(self).model().well_formed(),
            old(self).model().layers.len() > 0,
            old(self).model().accepts(input@),
            old(self).model().fits(entries(layer_outputs@)),
            old(self).model().answers(target@),
        ensures
            final(self).model() == old(self).model(),
            old(self).model().fits_update(entries(r.0@), stack(r.1@)),
            entries(r.0@) == old(self).model().deltas(entries(layer_outputs@), target@),
            stack(r.1@) == old(self).model().gradients(entries(layer_outputs@), input@, target@),
    ;
}

/// A network of fully-connected layers.
#[verifier::reject_recursive_types(T)]
pub struct MultiLayerPerceptron<T: Scalar> {
    pub layers: Vec<DenseLayer<T>>,
    pub loss: Loss<T>,
}

impl<T: Scalar> View for MultiLayerPerceptron<T> {
    type V = NetworkModel<T>;

    open spec fn view(&self) -> NetworkModel<T> {
        NetworkModel { layers: Seq::new(self.layers@.len(), |k: int| self.layers@[k]@), loss: self.loss }
    }
}

impl<T: Scalar> MultiLayerPerceptron<T> {
    /// A network with no layers yet.
    pub fn new(loss: Loss<T>) -> (network: Self)
        ensures
            network@.layers.len() == 0,
            network@.loss == loss,
    {
        MultiLayerPerceptron { layers: Vec::new(), loss }
    }

    /// Whether every layer is well formed and fits the layer before it.
    pub fn is_well_formed(&self) -> (ok: bool)
        ensures
            ok == self@.well_formed(),
    {
        let mut k: usize = 0;
        while k < self.layers.len()
            invariant
                k <= self.layers.len(),
                forall|j: int| 0 <= j < k ==> (#[trigger] self@.layers[j]).well_formed(),
                forall|j: int|
                    0 < j < k ==> (#[trigger] self@.layers[j]).n_inputs() == self@.layers[j - 1].n_outputs(),
            decreases self.layers.len() - k,
        {
            if !self.layers[k].is_well_formed() {
                assert(!self@.layers[k as int].well_formed());
                return false;
            }
            if k > 0 && self.layers[k].input_width() != self.layers[k - 1].output_width() {
                assert(self@.layers[k as int].n_inputs() != self@.layers[k - 1].n_outputs());
                return false;
            }
            k += 1;
        }
        true
    }

    /// Checks one example against the network. `example` is the position
    /// that an error will name.
    pub fn check_example(&self, example: usize, input: &Vec<T>, target: &Vec<T>) -> (r: Result<
        (),
        ShapeError,
    >)
        ensures
            r == match (if self@.usable() {
                self@.example_fault(example as nat, input@.len(), target@.len())
            } else {
                Some(ShapeError::Network)
            }) {
                Some(fault) => Err::<(), ShapeError>(fault),
                None => Ok(()),
            },
            r is Ok <==> self@.usable() && self@.accepts(input@) && self@.answers(target@),
    {
        if self.layers.len() == 0 || !self.is_well_formed() {
            return Err(ShapeError::Network);
        }
        let last = self.layers.len() - 1;
        assert(self@.layers[0].well_formed());
        assert(self@.layers[last as int].well_formed());
        assert(self@.layers.last() == self@.layers[last as int]);
        let expected = self.layers[0].input_width();
        if input.len() != expected {
            return Err(ShapeError::InputWidth { example, expected, found: input.len() });
        }
        let expected = self.layers[last].output_width();
        if target.len() != expected {
            return Err(ShapeError::TargetWidth { example, expected, found: target.len() });
        }
        Ok(())
    }

    /// Runs a forward pass if the network is well formed and `input` has
    /// the width of its first layer, and says what is wrong if not.
    pub fn checked_forward(&self, input: &Vec<T>) -> (r: Result<Vec<Vec<T>>, ShapeError>)
        ensures
            r is Ok <==> self@.well_formed() && self@.accepts(input@),
            match r {
                Ok(layer_outputs) => {
                    &&& self@.well_formed()
                    &&& self@.accepts(input@)
                    &&& self@.forwards(input@, entries(layer_outputs@))
                },
                Err(fault) => if !self@.well_formed() {
                    fault == ShapeError::Network
                } else {
                    &&& !self@.accepts(input@)
                    &&& fault == (ShapeError::InputWidth {
                        example: 0,
                        expected: self@.layers[0].n_inputs() as usize,
                        found: input.len(),
                    })
                },
            },
    {
        if !self.is_well_formed() {
            return Err(ShapeError::Network);
        }
        if self.layers.len() > 0 {
            assert(self@.layers[0].well_formed());
            let expected = self.layers[0].input_width();
            if input.len() != expected {
                return Err(ShapeError::InputWidth { example: 0, expected, found: input.len() });
            }
        }
        Ok(self.forward(input))
    }

    /// Checks a set of examples against the network.
    pub fn check_examples(&self, inputs: &Vec<Vec<T>>, targets: &Vec<Vec<T>>) -> (r: Result<(), ShapeError>)
        ensures
            r == match self@.examples_fault(entries(inputs@), entries(targets@)) {
                Some(fault) => Err::<(), ShapeError>(fault),
                None => Ok(()),
            },
            r is Ok <==> self@.takes(entries(inputs@), entries(targets@)),
    {
        let ghost ins = entries(inputs@);
        let ghost outs = entries(targets@);
        if self.layers.len() == 0 || !self.is_well_formed() {
            return Err(ShapeError::Network);
        }
        if inputs.len() != targets.len() {
            return Err(ShapeError::ExampleCount { inputs: inputs.len(), targets: targets.len() });
        }
        let mut i: usize = 0;
        while i < inputs.len()
            invariant
                i <= inputs.len(),
                inputs.len() == targets.len(),
                ins == entries(inputs@),
                outs == entries(targets@),
                self@.usable(),
                self@.first_fault(ins, outs, i as nat) is None,
            decreases inputs.len() - i,
        {
            match self.check_example(i, &inputs[i], &targets[i]) {
                Ok(()) => {},
                Err(fault) => {
                    proof {
                        assert(self@.first_fault(ins, outs, (i + 1) as nat) == Some(fault));
                        lemma_fault_stays(self@, ins, outs, (i + 1) as nat, ins.len());
                        lemma_first_fault(self@, ins, outs, ins.len());
                    }
                    return Err(fault);
                },
            }
            i += 1;
        }
        proof {
            lemma_first_fault(self@, ins, outs, ins.len());
        }
        Ok(())
    }

    /// Appends a layer: it becomes the last.
    pub fn add_layer(&mut self, layer: DenseLayer<T>)
        ensures
            final(self)@.layers == old(self)@.layers.push(layer@),
            final(self)@.loss == old(self)@.loss,
    {
        self.layers.push(layer);
        assert(self@.layers =~= old(self)@.layers.push(layer@));
    }
}

/// The first fault among some examples is also the first among more.
pub proof fn lemma_fault_stays<T: Scalar>(
    net: NetworkModel<T>,
    inputs: Seq<Seq<T>>,
    targets: Seq<Seq<T>>,
    count: nat,
    more: nat,
)
    requires
        count <= more,
        net.first_fault(inputs, targets, count) is Some,
    ensures
        net.first_fault(inputs, targets, more) == net.first_fault(inputs, targets, count),
    decreases more,
{
    if count < more {
        lemma_fault_stays(net, inputs, targets, count, (more - 1) as nat);
    }
}

/// Nothing is wrong with the first `count` examples exactly where each of
/// them has an input and a target of the widths of a usable network.
pub proof fn lemma_first_fault<T: Scalar>(
    net: NetworkModel<T>,
    inputs: Seq<Seq<T>>,
    targets: Seq<Seq<T>>,
    count: nat,
)
    requires
        net.usable(),
    ensures
        net.first_fault(inputs, targets, count) is None <==> {
            &&& forall|i: int| 0 <= i < count ==> net.accepts(#[trigger] inputs[i])
            &&& forall|i: int| 0 <= i < count ==> net.answers(#[trigger] targets[i])
        },
    decreases count,
{
    if count > 0 {
        let last = count - 1;
        let earlier = net.first_fault(inputs, targets, last as nat);
        let here = net.example_fault(last as nat, inputs[last].len(), targets[last].len());
        lemma_first_fault(net, inputs, targets, last as nat);
        assert(net.first_fault(inputs, targets, count) is None <==> earlier is None && here is None);
        assert(here is None <==> net.accepts(inputs[last]) && net.answers(targets[last]));
    }
}

/// Turns a vector back to front.
fn reversed<U>(v: Vec<U>) -> (r: Vec<U>)
    ensures
        r.len() == v.len(),
        forall|i: int| 0 <= i < v.len() ==> r@[i] == v@[v.len() - 1 - i],
{
    let mut v = v;
    let ghost whole = v@;
    let mut r: Vec<U> = Vec::with_capacity(v.len());
    while v.len() > 0
        invariant
            v.len() + r.len() == whole.len(),
            v@ == whole.take(v.len() as int),
            forall|i: int| 0 <= i < r.len() ==> r@[i] == whole[whole.len() - 1 - i],
        decreases v.len(),
    {
        let last = v.pop();
        match last {
            Some(x) => {
                r.push(x);
            },
            None => {},
        }
    }
    r
}

impl<T: Scalar> MLP<T> for MultiLayerPerceptron<T> {
    open spec fn model(&self) -> NetworkModel<T> {
        self@
    }

    fn forward(&self, input: &Vec<T>) -> (layer_outputs: Vec<Vec<T>>) {
        let mut layer_outputs: Vec<Vec<T>> = Vec::with_capacity(self.layers.len());
        let mut k: usize = 0;
        while k < self.layers.len()
            invariant
                k <= self.layers.len(),
                layer_outputs.len() == k,
                self@.well_formed(),
                self@.accepts(input@),
                forall|j: int|
                    0 <= j < k ==> {
                        &&& (#[trigger] layer_outputs@[j]).len() == self@.layers[j].n_outputs()
                        &&& self@.layers[j].forwards(
                            layer_input(input@, entries(layer_outputs@), j),
                            layer_outputs@[j]@,
                        )
                    },
            decreases self.layers.len() - k,
        {
            let ghost before = entries(layer_outputs@);
            assert(self@.layers[k as int].well_formed());
            let output = if k == 0 {
                self.layers[0].forward(input)
            } else {
                assert(self@.layers[k as int].n_inputs() == self@.layers[k - 1].n_outputs());
                self.layers[k].forward(&layer_outputs[k - 1])
            };
            assert(self@.layers[k as int].forwards(layer_input(input@, before, k as int), output@));
            layer_outputs.push(output);
            proof {
                let after = entries(layer_outputs@);
                assert forall|j: int| 0 <= j <= k implies layer_input(input@, after, j)
                    == layer_input(input@, before, j) by {}
            }
            k += 1;
        }
        proof {
            let outs = entries(layer_outputs@);
            assert forall|j: int| 0 <= j < self@.layers.len() implies (#[trigger] self@.layers[j]).forwards(
                layer_input(input@, outs, j),
                outs[j],
            ) by {
                assert(layer_outputs@[j].len() == self@.layers[j].n_outputs());
            }
            assert forall|j: int| 0 <= j < self@.layers.len() implies (#[trigger] outs[j]).len()
                == self@.layers[j].n_outputs() by {
                assert(layer_outputs@[j].len() == self@.layers[j].n_outputs());
            }
        }
        layer_outputs
    }

    fn backward(&mut self, layer_outputs: &Vec<Vec<T>>, input: &Vec<T>, target: &Vec<T>) -> (r: (
        Vec<Vec<T>>,
        Vec<Vec<Vec<T>>>,
    )) {
        let ghost net = self@;
        let ghost outs = entries(layer_outputs@);
        let n = self.layers.len();
        assert(outs.len() == n);
        assert(outs[(n - 1) as int] == outs.last());
        assert(layer_outputs@[(n - 1) as int].len() == net.layers[(n - 1) as int].n_outputs());
        let seed = self.loss.derivative(&layer_outputs[n - 1], target);
        // Both are filled from the last layer down and turned round at the end.
        let mut deltas_matrix: Vec<Vec<T>> = Vec::with_capacity(n);
        let mut gradients_matrix: Vec<Vec<Vec<T>>> = Vec::with_capacity(n);
        let mut i: usize = n;
        while i > 0
            invariant
                i <= n,
                n == self.layers.len(),
                n == net.layers.len(),
                n > 0,
                self@ == net,
                net.well_formed(),
                net.accepts(input@),
                net.fits(outs),
                outs == entries(layer_outputs@),
                seed@ == net.loss.derivative_spec(outs.last(), target@),
                seed.len() == net.layers[n - 1].n_outputs(),
                deltas_matrix.len() == n - i,
                gradients_matrix.len() == n - i,
                forall|k: int|
                    i <= k < n ==> is_backward_of(
                        net,
                        outs,
                        input@,
                        target@,
                        k,
                        #[trigger] deltas_matrix@[n - 1 - k],
                        gradients_matrix@[n - 1 - k],
                    ),
            decreases i,
        {
            i -= 1;
            let ghost done_deltas = deltas_matrix@;
            let ghost done_gradients = gradients_matrix@;
            let (deltas, gradients) = if i == n - 1 {
                self.backward_layer(layer_outputs, input, &seed, i)
            } else {
                proof {
                    lemma_backward_known(
                        net,
                        outs,
                        input@,
                        target@,
                        i + 1,
                        deltas_matrix@[n - 1 - (i + 1)],
                        gradients_matrix@[n - 1 - (i + 1)],
                    );
                }
                self.backward_layer(layer_outputs, input, &deltas_matrix[n - 2 - i], i)
            };
            proof {
                let incoming = if i == n - 1 {
                    seed@
                } else {
                    deltas_matrix@[n - 2 - i]@
                };
                lemma_backward_step(net, outs, input@, target@, i as int, incoming, deltas, gradients);
            }
            deltas_matrix.push(deltas);
            gradients_matrix.push(gradients);
            proof {
                assert forall|k: int| i <= k < n implies is_backward_of(
                    net,
                    outs,
                    input@,
                    target@,
                    k,
                    #[trigger] deltas_matrix@[n - 1 - k],
                    gradients_matrix@[n - 1 - k],
                ) by {
                    if k > i {
                        assert(deltas_matrix@[n - 1 - k] == done_deltas[n - 1 - k]);
                        assert(gradients_matrix@[n - 1 - k] == done_gradients[n - 1 - k]);
                    }
                }
            }
        }
        let ghost turned_deltas = deltas_matrix@;
        let ghost turned_gradients = gradients_matrix@;
        let deltas_matrix = reversed(deltas_matrix);
        let gradients_matrix = reversed(gradients_matrix);
        proof {
            assert forall|k: int| 0 <= k < n implies {
                &&& deltas_matrix@[k]@ == net.deltas_at(outs, target@, k)
                &&& entries(gradients_matrix@[k]@) == net.gradients_at(outs, input@, target@, k)
                &&& (#[trigger] net.layers[k]).fits_update(deltas_matrix@[k]@, entries(gradients_matrix@[k]@))
            } by {
                assert(deltas_matrix@[k] == turned_deltas[n - 1 - k]);
                assert(gradients_matrix@[k] == turned_gradients[n - 1 - k]);
                lemma_backward_known(net, outs, input@, target@, k, deltas_matrix@[k], gradients_matrix@[k]);
                assert(entries(gradients_matrix@[k]@).len() == gradients_matrix@[k].len());
            }
            assert forall|k: int| 0 <= k < n implies #[trigger] entries(deltas_matrix@)[k] == net.deltas(
                outs,
                target@,
            )[k] by {
                assert(net.layers[k].fits_update(deltas_matrix@[k]@, entries(gradients_matrix@[k]@)));
            }
            assert forall|k: int| 0 <= k < n implies #[trigger] stack(gradients_matrix@)[k]
                == net.gradients(outs, input@, target@)[k] by {
                assert(net.layers[k].fits_update(deltas_matrix@[k]@, entries(gradients_matrix@[k]@)));
            }
            assert(entries(deltas_matrix@) =~= net.deltas(outs, target@));
            assert(stack(gradients_matrix@) =~= net.gradients(outs, input@, target@));
        }
        (deltas_matrix, gradients_matrix)
    }
}

/// `deltas` and `gradients` are those of layer `k`, and have its shape.
#[verifier::opaque]
spec fn is_backward_of<T: Scalar>(
    net: NetworkModel<T>,
    outputs: Seq<Seq<T>>,
    input: Seq<T>,
    target: Seq<T>,
    k: int,
    deltas: Vec<T>,
    gradients: Vec<Vec<T>>,
) -> bool {
    &&& deltas@ == net.deltas_at(outputs, target, k)
    &&& entries(gradients@) == net.gradients_at(outputs, input, target, k)
    &&& deltas.len() == net.layers[k].n_outputs()
    &&& gradients.len() == net.layers[k].n_outputs()
    &&& is_rectangular(entries(gradients@), net.layers[k].n_inputs())
}

/// What the backward pass of layer `k` returns, when handed the deltas of
/// the layer that follows, are the deltas and gradients of layer `k`.
proof fn lemma_backward_step<T: Scalar>(
    net: NetworkModel<T>,
    outputs: Seq<Seq<T>>,
    input: Seq<T>,
    target: Seq<T>,
    k: int,
    incoming: Seq<T>,
    deltas: Vec<T>,
    gradients: Vec<Vec<T>>,
)
    requires
        0 <= k < net.layers.len(),
        incoming == net.next_deltas(outputs, target, k),
        deltas@ == net.layers[k].backward_deltas(outputs[k], net.next_weights(k), incoming),
        entries(gradients@) == net.layers[k].backward_gradients(
            layer_input(input, outputs, k),
            outputs[k],
            net.next_weights(k),
            incoming,
        ),
        deltas.len() == net.layers[k].n_outputs(),
        gradients.len() == net.layers[k].n_outputs(),
        is_rectangular(entries(gradients@), net.layers[k].n_inputs()),
    ensures
        is_backward_of(net, outputs, input, target, k, deltas, gradients),
{
    reveal(is_backward_of);
}

/// What is known of the deltas and gradients of layer `k`.
proof fn lemma_backward_known<T: Scalar>(
    net: NetworkModel<T>,
    outputs: Seq<Seq<T>>,
    input: Seq<T>,
    target: Seq<T>,
    k: int,
    deltas: Vec<T>,
    gradients: Vec<Vec<T>>,
)
    requires
        is_backward_of(net, outputs, input, target, k, deltas, gradients),
    ensures
        deltas@ == net.deltas_at(outputs, target, k),
        entries(gradients@) == net.gradients_at(outputs, input, target, k),
        deltas.len() == net.layers[k].n_outputs(),
        gradients.len() == net.layers[k].n_outputs(),
        is_rectangular(entries(gradients@), net.layers[k].n_inputs()),
{
    reveal(is_backward_of);
}

impl<T: Scalar> MultiLayerPerceptron<T> {
    /// The backward pass of layer `i`, which is handed `incoming`: the
    /// deltas of the layer that follows, or the derivative of the loss
    /// where `i` is the last layer.
    fn backward_layer(
        &mut self,
        layer_outputs: &Vec<Vec<T>>,
        input: &Vec<T>,
        incoming: &Vec<T>,
        i: usize,
    ) -> (r: (Vec<T>, Vec<Vec<T>>))
        requires
            old(self)@.well_formed(),
            i < old(self).layers.len(),
            old(self)@.accepts(input@),
            old(self)@.fits(entries(layer_outputs@)),
            incoming.len() == if i + 1 < old(self).layers.len() {
                old(self)@.layers[i + 1].n_outputs()
            } else {
                old(self)@.layers[i as int].n_outputs()
            },
        ensures
            final(self)@ == old(self)@,
            r.0@ == old(self)@.layers[i as int].backward_deltas(
                entries(layer_outputs@)[i as int],
                old(self)@.next_weights(i as int),
                incoming@,
            ),
            entries(r.1@) == old(self)@.layers[i as int].backward_gradients(
                layer_input(input@, entries(layer_outputs@), i as int),
                entries(layer_outputs@)[i as int],
                old(self)@.next_weights(i as int),
                incoming@,
            ),
            r.0.len() == old(self)@.layers[i as int].n_outputs(),
            r.1.len() == old(self)@.layers[i as int].n_outputs(),
            is_rectangular(entries(r.1@), old(self)@.layers[i as int].n_inputs()),
    {
        let ghost net = self@;
        let ghost outs = entries(layer_outputs@);
        let n = self.layers.len();
        // The weights of the layer that follows, as they stand before any update.
        let next_weights = if i == n - 1 {
            Vec::new()
        } else {
            copy_matrix(&self.layers[i + 1].weights)
        };
        proof {
            assert(entries(next_weights@) =~= net.next_weights(i as int));
            assert(next_weights.len() == entries(next_weights@).len());
            assert(net.layers[i as int].well_formed());
            assert(outs[i as int].len() == net.layers[i as int].n_outputs());
            if i > 0 {
                assert(net.layers[i as int].n_inputs() == net.layers[i - 1].n_outputs());
                assert(outs[i - 1].len() == net.layers[i - 1].n_outputs());
            }
            if i + 1 < n {
                assert(net.layers[i + 1].well_formed());
                assert(net.layers[i + 1].n_inputs() == net.layers[i as int].n_outputs());
            }
        }
        let layer_in: &Vec<T> = if i == 0 {
            input
        } else {
            &layer_outputs[i - 1]
        };
        assert(layer_in@ == layer_input(input@, outs, i as int));
        let r = self.layers[i].backward(layer_in, &layer_outputs[i], &next_weights, incoming);
        assert(self@.layers =~= net.layers);
        r
    }
}

} // verus!

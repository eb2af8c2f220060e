//! Gradient descent.

use std::marker::PhantomData;
use vstd::prelude::*;
use crate::gemm::entries;
use crate::layer::{DenseLayer, LayerModel};
use crate::mlp::{stack, MultiLayerPerceptron, NetworkModel, MLP};
use crate::scalar::{make_ratio, ratio, Scalar};

verus! {

/// One step of gradient descent on one parameter: `value - rate * slope`.
pub open spec fn descend<T: Scalar>(value: T, rate: T, slope: T) -> T {
    value.sub_spec(rate.mul_spec(slope))
}

impl<T: Scalar> LayerModel<T> {
    /// The layer after one step of gradient descent: every weight has moved
    /// against its gradient, every bias against its delta.
    pub open spec fn descended(self, deltas: Seq<T>, gradients: Seq<Seq<T>>, rate: T) -> LayerModel<T> {
        LayerModel {
            weights: Seq::new(
                self.weights.len(),
                |j: int|
                    Seq::new(
                        self.weights[j].len(),
                        |k: int| descend(self.weights[j][k], rate, gradients[j][k]),
                    ),
            ),
            biases: Seq::new(self.biases.len(), |j: int| descend(self.biases[j], rate, deltas[j])),
            activation: self.activation,
        }
    }
}

impl<T: Scalar> NetworkModel<T> {
    /// The network after one step of gradient descent on every layer.
    pub open spec fn descended(
        self,
        deltas: Seq<Seq<T>>,
        gradients: Seq<Seq<Seq<T>>>,
        rate: T,
    ) -> NetworkModel<T> {
        NetworkModel {
            layers: Seq::new(
                self.layers.len(),
                |i: int| self.layers[i].descended(deltas[i], gradients[i], rate),
            ),
            loss: self.loss,
        }
    }

    /// The two networks have as many layers, and each layer of the one has
    /// the numbers of inputs and outputs of the matching layer of the other.
    pub open spec fn same_shape(self, other: NetworkModel<T>) -> bool {
        &&& self.layers.len() == other.layers.len()
        &&& forall|i: int|
            0 <= i < self.layers.len() ==> {
                &&& (#[trigger] self.layers[i]).n_inputs() == other.layers[i].n_inputs()
                &&& self.layers[i].n_outputs() == other.layers[i].n_outputs()
            }
    }
}

/// A step of gradient descent leaves the shape of a well-formed network as
/// it was, and the network well formed.
pub proof fn lemma_descended_shape<T: Scalar>(
    net: NetworkModel<T>,
    deltas: Seq<Seq<T>>,
    gradients: Seq<Seq<Seq<T>>>,
    rate: T,
)
    requires
        net.well_formed(),
    ensures
        net.descended(deltas, gradients, rate).well_formed(),
        net.descended(deltas, gradients, rate).same_shape(net),
{
    let next = net.descended(deltas, gradients, rate);
    assert forall|i: int| 0 <= i < net.layers.len() implies {
        &&& (#[trigger] next.layers[i]).well_formed()
        &&& next.layers[i].n_inputs() == net.layers[i].n_inputs()
        &&& next.layers[i].n_outputs() == net.layers[i].n_outputs()
    } by {
        let before = net.layers[i];
        let after = next.layers[i];
        assert(before.well_formed());
        assert(before.weights[0].len() == before.n_inputs());
        assert(after.weights[0].len() == before.weights[0].len());
        assert forall|j: int| 0 <= j < after.weights.len() implies (#[trigger] after.weights[j]).len()
            == after.n_inputs() by {
            assert(before.weights[j].len() == before.n_inputs());
        }
    }
    assert forall|k: int| 0 < k < next.layers.len() implies (#[trigger] next.layers[k]).n_inputs()
        == next.layers[k - 1].n_outputs() by {
        assert(net.layers[k].n_inputs() == net.layers[k - 1].n_outputs());
        assert(next.layers[k - 1].n_outputs() == net.layers[k - 1].n_outputs());
    }
}

/// Moves every entry of `row` against its gradient.
fn descend_row<T: Scalar>(row: &mut Vec<T>, slopes: &Vec<T>, rate: T)
    requires
        slopes.len() == old(row).len(),
    ensures
        final(row)@ == Seq::new(old(row)@.len(), |k: int| descend(old(row)@[k], rate, slopes@[k])),
{
    let ghost before = row@;
    let mut k: usize = 0;
    while k < row.len()
        invariant
            k <= row.len(),
            row.len() == before.len(),
            slopes.len() == before.len(),
            forall|m: int| 0 <= m < k ==> row@[m] == descend(before[m], rate, slopes@[m]),
            forall|m: int| k <= m < row.len() ==> row@[m] == before[m],
        decreases row.len() - k,
    {
        let moved = row[k].sub(rate.mul(slopes[k]));
        row[k] = moved;
        k += 1;
    }
    assert(row@ =~= Seq::new(before.len(), |k: int| descend(before[k], rate, slopes@[k])));
}

/// Moves every weight of `layer` against its gradient and every bias
/// against its delta.
fn descend_layer<T: Scalar>(layer: &mut DenseLayer<T>, deltas: &Vec<T>, gradients: &Vec<Vec<T>>, rate: T)
    requires
        old(layer)@.well_formed(),
        old(layer)@.fits_update(deltas@, entries(gradients@)),
    ensures
        final(layer)@ == old(layer)@.descended(deltas@, entries(gradients@), rate),
{
    let ghost before = layer@;
    let ghost want = before.descended(deltas@, entries(gradients@), rate);
    let mut j: usize = 0;
    while j < layer.weights.len()
        invariant
            j <= layer.weights.len(),
            before.well_formed(),
            before.fits_update(deltas@, entries(gradients@)),
            want == before.descended(deltas@, entries(gradients@), rate),
            layer@.activation == before.activation,
            layer@.weights.len() == before.weights.len(),
            layer@.biases.len() == before.biases.len(),
            forall|m: int| 0 <= m < j ==> (#[trigger] layer@.weights[m]) == want.weights[m],
            forall|m: int|
                j <= m < before.weights.len() ==> (#[trigger] layer@.weights[m]) == before.weights[m],
            forall|m: int| 0 <= m < j ==> (#[trigger] layer@.biases[m]) == want.biases[m],
            forall|m: int| j <= m < before.biases.len() ==> (#[trigger] layer@.biases[m]) == before.biases[m],
        decreases layer.weights.len() - j,
    {
        let ghost at_entry = layer@;
        assert(at_entry.weights[j as int] == before.weights[j as int]);
        assert(before.weights[j as int].len() == before.n_inputs());
        assert(entries(gradients@)[j as int].len() == before.n_inputs());
        descend_row(&mut layer.weights[j], &gradients[j], rate);
        let moved = layer.biases[j].sub(rate.mul(deltas[j]));
        layer.biases[j] = moved;
        proof {
            assert(layer@.weights[j as int] =~= want.weights[j as int]);
            assert forall|m: int| 0 <= m < before.weights.len() && m != j implies (
            #[trigger] layer@.weights[m]) == at_entry.weights[m] by {}
            assert forall|m: int| 0 <= m < before.biases.len() && m != j implies (
            #[trigger] layer@.biases[m]) == at_entry.biases[m] by {}
        }
        j += 1;
    }
    assert(layer@.weights =~= want.weights);
    assert(layer@.biases =~= want.biases);
}

/// The factor by which the learning rate shrinks after each example.
pub open spec fn decay<T: Scalar>() -> T {
    ratio(98, 100)
}

/// The index of the largest entry of `v`; of the last of them where several
/// are largest. An entry takes the place of the largest so far unless that
/// one is greater.
pub open spec fn argmax_of<T: Scalar>(v: Seq<T>) -> int
    decreases v.len(),
{
    if v.len() <= 1 {
        0
    } else {
        let best = argmax_of(v.drop_last());
        if v[best].gt_spec(v.last()) {
            best
        } else {
            v.len() - 1
        }
    }
}

/// Finds the index of the largest entry of a vector that is not empty.
pub fn argmax<T: Scalar>(v: &Vec<T>) -> (index: usize)
    requires
        v.len() > 0,
    ensures
        index == argmax_of(v@),
        index < v.len(),
{
    let mut index: usize = 0;
    let mut i: usize = 1;
    assert(v@.take(1).len() == 1);
    while i < v.len()
        invariant
            1 <= i <= v.len(),
            index < i,
            index == argmax_of(v@.take(i as int)),
        decreases v.len() - i,
    {
        proof {
            assert(v@.take(i + 1).drop_last() =~= v@.take(i as int));
        }
        if !v[index].gt(v[i]) {
            index = i;
        }
        i += 1;
    }
    proof {
        assert(v@.take(v.len() as int) =~= v@);
    }
    index
}

/// How many `i` there are with `a[i] == b[i]`.
pub open spec fn agreements(a: Seq<int>, b: Seq<int>) -> nat
    decreases a.len(),
{
    if a.len() == 0 {
        0
    } else {
        agreements(a.drop_last(), b.drop_last()) + if a.last() == b.last() {
            1nat
        } else {
            0nat
        }
    }
}

/// No more entries agree than there are, and all of them agree where the
/// two sequences are equal.
pub proof fn lemma_agreements_bound(a: Seq<int>, b: Seq<int>)
    requires
        a.len() == b.len(),
    ensures
        agreements(a, b) <= a.len(),
        a == b ==> agreements(a, b) == a.len(),
    decreases a.len(),
{
    if a.len() > 0 {
        lemma_agreements_bound(a.drop_last(), b.drop_last());
        if a == b {
            assert(a.drop_last() == b.drop_last());
        }
    }
}

/// The class of each target: the index of its largest entry.
pub open spec fn classes<T: Scalar>(targets: Seq<Seq<T>>) -> Seq<int> {
    Seq::new(targets.len(), |i: int| argmax_of(targets[i]))
}

impl<T: Scalar> NetworkModel<T> {
    /// Whether `class` is a class that the network gives `input`: the index
    /// of the largest entry that the last layer puts out on some forward
    /// pass.
    pub open spec fn predicts(self, input: Seq<T>, class: int) -> bool {
        exists|outputs: Seq<Seq<T>>| self.forwards(input, outputs) && class == argmax_of(outputs.last())
    }

    /// Whether `predicted` holds a class that the network gives each of
    /// `inputs`.
    pub open spec fn predicts_all(self, inputs: Seq<Seq<T>>, predicted: Seq<int>) -> bool {
        &&& predicted.len() == inputs.len()
        &&& forall|i: int| 0 <= i < inputs.len() ==> self.predicts(inputs[i], #[trigger] predicted[i])
    }

    /// Whether `correct` is a number of examples that the network
    /// classifies as their targets say.
    pub open spec fn scores(self, inputs: Seq<Seq<T>>, targets: Seq<Seq<T>>, correct: int) -> bool {
        exists|predicted: Seq<int>|
            self.predicts_all(inputs, predicted) && correct == agreements(predicted, classes(targets))
    }
}

/// A network scores on every example of a set in which each target is what
/// the last layer puts out for its input.
pub proof fn lemma_scores_own_outputs<T: Scalar>(
    net: NetworkModel<T>,
    inputs: Seq<Seq<T>>,
    targets: Seq<Seq<T>>,
    correct: int,
)
    requires
        inputs.len() == targets.len(),
        net.scores(inputs, targets, correct),
        forall|i: int, outputs: Seq<Seq<T>>|
            0 <= i < inputs.len() && #[trigger] net.forwards(inputs[i], outputs) ==> outputs.last()
                == targets[i],
    ensures
        correct == inputs.len(),
{
    let predicted = choose|predicted: Seq<int>|
        net.predicts_all(inputs, predicted) && correct == agreements(predicted, classes(targets));
    assert forall|i: int| 0 <= i < inputs.len() implies predicted[i] == classes(targets)[i] by {
        assert(net.predicts(inputs[i], predicted[i]));
        let outputs = choose|outputs: Seq<Seq<T>>|
            net.forwards(inputs[i], outputs) && predicted[i] == argmax_of(outputs.last());
        assert(outputs.last() == targets[i]);
    }
    assert(predicted =~= classes(targets));
    lemma_agreements_bound(predicted, classes(targets));
}

/// What a gradient-descent trainer holds: a network and its learning rate.
#[verifier::reject_recursive_types(T)]
pub struct TrainerModel<T: Scalar> {
    pub network: NetworkModel<T>,
    pub learning_rate: T,
}

impl<T: Scalar> TrainerModel<T> {
    /// The trainer after one example whose forward pass gave `outputs`: the
    /// network has descended along the gradients of that pass, and the
    /// learning rate has decayed.
    pub open spec fn stepped(self, outputs: Seq<Seq<T>>, input: Seq<T>, target: Seq<T>) -> TrainerModel<T> {
        TrainerModel {
            network: self.network.descended(
                self.network.deltas(outputs, target),
                self.network.gradients(outputs, input, target),
                self.learning_rate,
            ),
            learning_rate: self.learning_rate.mul_spec(decay()),
        }
    }

    /// Whether `after` is a result of training on one example.
    pub open spec fn steps_to(self, input: Seq<T>, target: Seq<T>, after: TrainerModel<T>) -> bool {
        exists|outputs: Seq<Seq<T>>|
            self.network.forwards(input, outputs) && after == self.stepped(outputs, input, target)
    }

    /// Whether `after` is a result of training on the first `count`
    /// examples, one after the other.
    pub open spec fn sweeps_to(
        self,
        inputs: Seq<Seq<T>>,
        targets: Seq<Seq<T>>,
        count: nat,
        after: TrainerModel<T>,
    ) -> bool
        decreases count,
    {
        if count == 0 {
            after == self
        } else {
            exists|middle: TrainerModel<T>|
                self.sweeps_to(inputs, targets, (count - 1) as nat, middle) && #[trigger] middle.steps_to(
                    inputs[count - 1],
                    targets[count - 1],
                    after,
                )
        }
    }

    /// Whether `after` and `scores` are a result of training for
    /// `scores.len()` epochs: each epoch is a sweep over all the examples,
    /// and ends with a score on the validation examples.
    pub open spec fn trains_to(
        self,
        inputs: Seq<Seq<T>>,
        targets: Seq<Seq<T>>,
        validation_inputs: Seq<Seq<T>>,
        validation_targets: Seq<Seq<T>>,
        scores: Seq<usize>,
        after: TrainerModel<T>,
    ) -> bool
        decreases scores.len(),
    {
        if scores.len() == 0 {
            after == self
        } else {
            &&& after.network.scores(validation_inputs, validation_targets, scores.last() as int)
            &&& exists|middle: TrainerModel<T>|
                self.trains_to(
                    inputs,
                    targets,
                    validation_inputs,
                    validation_targets,
                    scores.drop_last(),
                    middle,
                ) && #[trigger] middle.sweeps_to(inputs, targets, inputs.len(), after)
        }
    }
}

/// A trainer: it holds a network and changes its parameters from the deltas
/// and gradients of backward passes.
pub trait Optimizer<T: Scalar>: Sized {
    /// The network being trained.
    spec fn network(&self) -> NetworkModel<T>;

    /// Changes the parameters of every layer from the deltas and gradients
    /// of one backward pass. The shape of the network stays as it was.
    fn optimize(&mut self, deltas_matrix: &Vec<Vec<T>>, gradients_matrix: &Vec<Vec<Vec<T>>>)
        requires
            old(self).network().well_formed(),
            old(self).network().fits_update(entries(deltas_matrix@), stack(gradients_matrix@)),
        ensures
            final(self).network().well_formed(),
            final(self).network().same_shape(old(self).network()),
    ;

    /// Counts the examples whose predicted class, the index of the largest
    /// output, is the class of their target.
    fn test(&self, input: &Vec<Vec<T>>, target: &Vec<Vec<T>>) -> (correct: usize)
        requires
            self.network().takes(entries(input@), entries(target@)),
        ensures
            correct <= input.len(),
            self.network().scores(entries(input@), entries(target@), correct as int),
    ;

    /// Trains for `epochs` epochs, each a pass over all the examples in
    /// order, and returns the score on the validation examples after each
    /// epoch.
    fn train(
        &mut self,
        input: &Vec<Vec<T>>,
        target: &Vec<Vec<T>>,
        validation_inputs: &Vec<Vec<T>>,
        validation_targets: &Vec<Vec<T>>,
        epochs: usize,
    ) -> (scores: Vec<usize>)
        requires
            old(self).network().takes(entries(input@), entries(target@)),
            old(self).network().takes(entries(validation_inputs@), entries(validation_targets@)),
        ensures
            scores.len() == epochs,
            final(self).network().well_formed(),
            final(self).network().same_shape(old(self).network()),
    ;
}

/// Whether a network takes a set of examples depends on its shape alone.
pub proof fn lemma_takes_same_shape<T: Scalar>(
    before: NetworkModel<T>,
    after: NetworkModel<T>,
    inputs: Seq<Seq<T>>,
    targets: Seq<Seq<T>>,
)
    requires
        before.takes(inputs, targets),
        after.well_formed(),
        after.same_shape(before),
    ensures
        after.takes(inputs, targets),
{
    assert forall|i: int| 0 <= i < inputs.len() implies after.accepts(#[trigger] inputs[i]) by {
        assert(before.accepts(inputs[i]));
        assert(after.layers[0].n_inputs() == before.layers[0].n_inputs());
    }
    assert forall|i: int| 0 <= i < targets.len() implies after.answers(#[trigger] targets[i]) by {
        assert(before.answers(targets[i]));
        assert(after.layers[after.layers.len() - 1].n_outputs() == before.layers[before.layers.len()
            - 1].n_outputs());
    }
}

/// Plain gradient descent, one example at a time, with a learning rate that
/// decays after every example.
#[verifier::reject_recursive_types(T)]
pub struct SimpleOptimizer<T: Scalar> {
    mlp: MultiLayerPerceptron<T>,
    learning_rate: T,
    _t: PhantomData<T>,
}

impl<T: Scalar> View for SimpleOptimizer<T> {
    type V = TrainerModel<T>;

    closed spec fn view(&self) -> TrainerModel<T> {
        TrainerModel { network: self.mlp@, learning_rate: self.learning_rate }
    }
}

impl<T: Scalar> SimpleOptimizer<T> {
    /// A trainer of `mlp` that starts at `learning_rate`.
    pub fn new(mlp: MultiLayerPerceptron<T>, learning_rate: T) -> (optimizer: Self)
        ensures
            optimizer@ == (TrainerModel { network: mlp@, learning_rate }),
    {
        SimpleOptimizer { mlp, learning_rate, _t: PhantomData }
    }

    /// The network in its present state.
    pub fn mlp(&self) -> (mlp: &MultiLayerPerceptron<T>)
        ensures
            mlp@ == self@.network,
    {
        &self.mlp
    }

    /// The learning rate in its present state.
    pub fn learning_rate(&self) -> (rate: T)
        ensures
            rate == self@.learning_rate,
    {
        self.learning_rate
    }

    /// Trains on one example: a forward pass, a backward pass, a step of
    /// gradient descent, and the decay of the learning rate.
    pub fn train_step(&mut self, input: &Vec<T>, target: &Vec<T>)
        requires
            old(self)@.network.well_formed(),
            old(self)@.network.layers.len() > 0,
            old(self)@.network.accepts(input@),
            old(self)@.network.answers(target@),
        ensures
            old(self)@.steps_to(input@, target@, final(self)@),
            final(self)@.network.well_formed(),
            final(self)@.network.same_shape(old(self)@.network),
    {
        let ghost before = self@;
        let forward = self.mlp.forward(input);
        let (deltas_matrix, gradients_matrix) = self.mlp.backward(&forward, input, target);
        self.optimize(&deltas_matrix, &gradients_matrix);
        self.learning_rate = self.learning_rate.mul(make_ratio(98, 100));
        proof {
            assert(self@ == before.stepped(entries(forward@), input@, target@));
        }
    }
}

impl<T: Scalar> Optimizer<T> for SimpleOptimizer<T> {
    open spec fn network(&self) -> NetworkModel<T> {
        self@.network
    }

    fn optimize(&mut self, deltas_matrix: &Vec<Vec<T>>, gradients_matrix: &Vec<Vec<Vec<T>>>)
        ensures
            final(self)@ == (TrainerModel {
                network: old(self)@.network.descended(
                    entries(deltas_matrix@),
                    stack(gradients_matrix@),
                    old(self)@.learning_rate,
                ),
                learning_rate: old(self)@.learning_rate,
            }),
    {
        let ghost before = self@.network;
        let ghost deltas = entries(deltas_matrix@);
        let ghost gradients = stack(gradients_matrix@);
        let ghost want = before.descended(deltas, gradients, self@.learning_rate);
        let rate = self.learning_rate;
        let mut i: usize = 0;
        while i < self.mlp.layers.len()
            invariant
                i <= self.mlp.layers.len(),
                self.mlp.layers.len() == before.layers.len(),
                self.learning_rate == rate,
                self.mlp.loss == before.loss,
                before.well_formed(),
                before.fits_update(deltas, gradients),
                deltas == entries(deltas_matrix@),
                gradients == stack(gradients_matrix@),
                want == before.descended(deltas, gradients, rate),
                forall|m: int| 0 <= m < i ==> (#[trigger] self.mlp.layers@[m])@ == want.layers[m],
                forall|m: int|
                    i <= m < before.layers.len() ==> (#[trigger] self.mlp.layers@[m])@ == before.layers[m],
            decreases self.mlp.layers.len() - i,
        {
            assert(before.layers[i as int].well_formed());
            assert(before.layers[i as int].fits_update(deltas[i as int], gradients[i as int]));
            descend_layer(&mut self.mlp.layers[i], &deltas_matrix[i], &gradients_matrix[i], rate);
            i += 1;
        }
        proof {
            assert(self@.network.layers =~= want.layers);
            lemma_descended_shape(before, deltas, gradients, rate);
        }
    }

    fn test(&self, input: &Vec<Vec<T>>, target: &Vec<Vec<T>>) -> (correct: usize) {
        let ghost net = self@.network;
        let ghost inputs = entries(input@);
        let ghost targets = entries(target@);
        let ghost mut predicted: Seq<int> = Seq::empty();
        let mut correct: usize = 0;
        let mut i: usize = 0;
        while i < input.len()
            invariant
                i <= input.len(),
                net == self@.network,
                inputs == entries(input@),
                targets == entries(target@),
                net.takes(inputs, targets),
                predicted.len() == i,
                forall|k: int| 0 <= k < i ==> net.predicts(inputs[k], #[trigger] predicted[k]),
                correct <= i,
                correct == agreements(predicted, classes(targets).take(i as int)),
            decreases input.len() - i,
        {
            assert(net.accepts(inputs[i as int]));
            assert(net.answers(targets[i as int]));
            let forward = self.mlp.forward(&input[i]);
            let ghost outputs = entries(forward@);
            assert(net.layers[net.layers.len() - 1].well_formed());
            assert(outputs[net.layers.len() - 1].len() == net.layers[net.layers.len() - 1].n_outputs());
            let max_index = argmax(&forward[forward.len() - 1]);
            let target_index = argmax(&target[i]);
            proof {
                assert(outputs.last() == forward@[forward.len() - 1]@);
                assert(net.forwards(inputs[i as int], outputs) && max_index == argmax_of(outputs.last()));
                let grown = predicted.push(max_index as int);
                assert(grown.drop_last() =~= predicted);
                assert(classes(targets).take(i + 1).drop_last() =~= classes(targets).take(i as int));
                assert(classes(targets).take(i + 1).last() == argmax_of(targets[i as int]));
                predicted = grown;
            }
            if max_index == target_index {
                correct += 1;
            }
            i += 1;
        }
        proof {
            assert(classes(targets).take(input.len() as int) =~= classes(targets));
            assert(net.predicts_all(inputs, predicted));
        }
        correct
    }

    fn train(
        &mut self,
        input: &Vec<Vec<T>>,
        target: &Vec<Vec<T>>,
        validation_inputs: &Vec<Vec<T>>,
        validation_targets: &Vec<Vec<T>>,
        epochs: usize,
    ) -> (scores: Vec<usize>)
        ensures
            old(self)@.trains_to(
                entries(input@),
                entries(target@),
                entries(validation_inputs@),
                entries(validation_targets@),
                scores@,
                final(self)@,
            ),
    {
        let ghost first = self@;
        let ghost inputs = entries(input@);
        let ghost targets = entries(target@);
        let ghost held_inputs = entries(validation_inputs@);
        let ghost held_targets = entries(validation_targets@);
        let mut scores: Vec<usize> = Vec::with_capacity(epochs);
        let mut epoch: usize = 0;
        while epoch < epochs
            invariant
                epoch <= epochs,
                scores.len() == epoch,
                inputs == entries(input@),
                targets == entries(target@),
                held_inputs == entries(validation_inputs@),
                held_targets == entries(validation_targets@),
                first.network.takes(inputs, targets),
                first.network.takes(held_inputs, held_targets),
                self@.network.well_formed(),
                self@.network.same_shape(first.network),
                first.trains_to(inputs, targets, held_inputs, held_targets, scores@, self@),
            decreases epochs - epoch,
        {
            let ghost start = self@;
            let mut i: usize = 0;
            while i < input.len()
                invariant
                    i <= input.len(),
                    inputs == entries(input@),
                    targets == entries(target@),
                    first.network.takes(inputs, targets),
                    self@.network.well_formed(),
                    self@.network.same_shape(first.network),
                    start.sweeps_to(inputs, targets, i as nat, self@),
                decreases input.len() - i,
            {
                let ghost middle = self@;
                proof {
                    lemma_takes_same_shape(first.network, middle.network, inputs, targets);
                    assert(middle.network.accepts(inputs[i as int]));
                    assert(middle.network.answers(targets[i as int]));
                }
                self.train_step(&input[i], &target[i]);
                proof {
                    let count = (i + 1) as nat;
                    assert(start.sweeps_to(inputs, targets, (count - 1) as nat, middle));
                    assert(middle.steps_to(inputs[count - 1], targets[count - 1], self@));
                    assert(start.sweeps_to(inputs, targets, count, self@));
                }
                i += 1;
            }
            proof {
                lemma_takes_same_shape(first.network, self@.network, held_inputs, held_targets);
                assert(inputs.len() == input.len());
            }
            let correct = self.test(validation_inputs, validation_targets);
            let ghost earlier = scores@;
            scores.push(correct);
            proof {
                assert(scores@.drop_last() =~= earlier);
                assert(start.sweeps_to(inputs, targets, inputs.len(), self@));
                assert(first.trains_to(inputs, targets, held_inputs, held_targets, scores@, self@));
            }
            epoch += 1;
        }
        scores
    }
}

} // verus!

use rand::distributions::{Distribution, Uniform};
use rust_mlp::dataset::{encode_digit, one_hot, scale_down};
use rust_mlp::layer::{Activation, DenseLayer, ReLU, Softmax};
use rust_mlp::loss::{CrossEntropyLoss, Loss};
use rust_mlp::mlp::{MultiLayerPerceptron, MLP};
use rust_mlp::optimizer::{argmax, Optimizer, SimpleOptimizer};
use rust_mlp::progress::{decimal_digits, progress_bar, BAR_LENGTH};
use rust_mlp::scalar::Scalar;
use rust_mlp::shape::ShapeError;

#[derive(Clone, Copy, Debug, PartialEq)]
struct R(f64);

impl Scalar for R {
    fn from_usize_spec(n: usize) -> Self {
        R(n as f64)
    }
    fn min_value_spec() -> Self {
        R(f64::MIN)
    }
    fn add_spec(self, rhs: Self) -> Self {
        R(self.0 + rhs.0)
    }
    fn sub_spec(self, rhs: Self) -> Self {
        R(self.0 - rhs.0)
    }
    fn mul_spec(self, rhs: Self) -> Self {
        R(self.0 * rhs.0)
    }
    fn div_spec(self, rhs: Self) -> Self {
        R(self.0 / rhs.0)
    }
    fn neg_spec(self) -> Self {
        R(-self.0)
    }
    fn abs_spec(self) -> Self {
        R(self.0.abs())
    }
    fn sqrt_spec(self) -> Self {
        R(self.0.sqrt())
    }
    fn gt_spec(self, rhs: Self) -> bool {
        self.0 > rhs.0
    }
    fn from_usize(n: usize) -> Self {
        R(n as f64)
    }
    fn min_value() -> Self {
        R(f64::MIN)
    }
    fn add(self, rhs: Self) -> Self {
        R(self.0 + rhs.0)
    }
    fn sub(self, rhs: Self) -> Self {
        R(self.0 - rhs.0)
    }
    fn mul(self, rhs: Self) -> Self {
        R(self.0 * rhs.0)
    }
    fn div(self, rhs: Self) -> Self {
        R(self.0 / rhs.0)
    }
    fn neg(self) -> Self {
        R(-self.0)
    }
    fn abs(self) -> Self {
        R(self.0.abs())
    }
    fn sqrt(self) -> Self {
        R(self.0.sqrt())
    }
    fn gt(self, rhs: Self) -> bool {
        self.0 > rhs.0
    }
    fn exp(self) -> Self {
        R(self.0.exp())
    }
    fn ln(self) -> Self {
        R(self.0.ln())
    }
    fn sample_unit() -> Self {
        R(Uniform::new(0.0, 1.0).sample(&mut rand::thread_rng()))
    }
}

fn row(values: &[f64]) -> Vec<R> {
    values.iter().map(|x| R(*x)).collect()
}

fn rows(values: &[&[f64]]) -> Vec<Vec<R>> {
    values.iter().map(|r| row(r)).collect()
}

fn layer(weights: &[&[f64]], activation: Activation<R>) -> DenseLayer<R> {
    DenseLayer { weights: rows(weights), biases: vec![R(0.0); weights.len()], activation }
}

fn relu() -> Activation<R> {
    Activation::ReLU(ReLU::new())
}

fn softmax() -> Activation<R> {
    Activation::Softmax(Softmax::new())
}

fn network(layers: Vec<DenseLayer<R>>) -> MultiLayerPerceptron<R> {
    let mut net = MultiLayerPerceptron::new(Loss::CrossEntropy(CrossEntropyLoss::new()));
    for l in layers {
        net.add_layer(l);
    }
    net
}

/// Two inputs, two rectified hidden units, two normalized outputs.
fn small_network() -> MultiLayerPerceptron<R> {
    network(vec![
        layer(&[&[0.5, -0.25], &[0.75, 0.5]], relu()),
        layer(&[&[1.0, -1.0], &[0.5, 0.25]], softmax()),
    ])
}

fn close(a: &[R], b: &[f64]) -> bool {
    a.len() == b.len() && a.iter().zip(b.iter()).all(|(x, y)| (x.0 - y).abs() < 1e-12)
}

fn close_rows(a: &[Vec<R>], b: &[&[f64]]) -> bool {
    a.len() == b.len() && a.iter().zip(b.iter()).all(|(x, y)| close(x, y))
}

/// Points of the unit square from a small congruential generator, none of
/// them on the diagonal.
fn points(seed: u64, count: usize) -> Vec<Vec<R>> {
    let mut state = seed;
    let mut out = Vec::new();
    for _ in 0..count {
        state = (state * 1103515245 + 12345) % (1 << 31);
        let a = (state >> 8) % 1000;
        state = (state * 1103515245 + 12345) % (1 << 31);
        let mut b = (state >> 8) % 1000;
        if a == b {
            b = (b + 1) % 1000;
        }
        out.push(row(&[a as f64 / 1000.0, b as f64 / 1000.0]));
    }
    out
}

/// Class 0 below the diagonal, class 1 above it.
fn side(point: &Vec<R>) -> Vec<R> {
    if point[0].0 > point[1].0 {
        row(&[1.0, 0.0])
    } else {
        row(&[0.0, 1.0])
    }
}

#[test]
fn new_network_has_no_layers() {
    let net = network(vec![]);
    assert_eq!(net.layers.len(), 0);
    assert_eq!(net.forward(&row(&[1.0, 2.0])), Vec::<Vec<R>>::new());
}

#[test]
fn add_layer_appends() {
    let mut net = network(vec![layer(&[&[1.0]], relu())]);
    net.add_layer(layer(&[&[2.0], &[3.0]], relu()));
    assert_eq!(net.layers.len(), 2);
    assert_eq!(net.layers[0].weights, rows(&[&[1.0]]));
    assert_eq!(net.layers[1].weights, rows(&[&[2.0], &[3.0]]));
}

#[test]
fn forward_returns_the_output_of_every_layer() {
    let net = small_network();
    let outputs = net.forward(&row(&[1.0, 0.5]));
    assert_eq!(outputs.len(), 2);
    assert_eq!(outputs[0], row(&[0.375, 1.0]));
    assert!(close(&outputs[1], &[0.25683199138751883, 0.7431680086124811]));
}

#[test]
fn forward_feeds_each_layer_the_output_of_the_one_before() {
    let net = network(vec![
        layer(&[&[1.0, 1.0], &[1.0, -1.0], &[-1.0, -1.0]], relu()),
        layer(&[&[1.0, 2.0, 3.0]], relu()),
        layer(&[&[2.0], &[-2.0]], relu()),
    ]);
    let outputs = net.forward(&row(&[3.0, 1.0]));
    assert_eq!(outputs, rows(&[&[4.0, 2.0, 0.0], &[8.0], &[16.0, 0.0]]));
}

#[test]
fn backward_returns_deltas_and_gradients_in_layer_order() {
    let mut net = small_network();
    let input = row(&[1.0, 0.5]);
    let outputs = net.forward(&input);
    let (deltas, gradients) = net.backward(&outputs, &input, &row(&[1.0, 0.0]));
    assert!(close_rows(
        &deltas,
        &[&[0.08528002492508008, 0.3289439918437005], &[-0.1908693195874403, 0.5522986890250408]]
    ));
    assert_eq!(gradients.len(), 2);
    assert!(close_rows(
        &gradients[0],
        &[&[0.08528002492508008, 0.04264001246254004], &[0.3289439918437005, 0.16447199592185024]]
    ));
    assert!(close_rows(
        &gradients[1],
        &[&[-0.07157599484529012, -0.1908693195874403], &[0.20711200838439028, 0.5522986890250408]]
    ));
}

#[test]
fn backward_of_an_inner_layer_uses_the_weights_and_deltas_of_the_next() {
    let mut net = network(vec![
        layer(&[&[1.0, 0.0], &[0.0, 1.0]], relu()),
        layer(&[&[2.0, -4.0]], relu()),
    ]);
    let input = row(&[0.5, 0.25]);
    let outputs = net.forward(&input);
    assert_eq!(outputs, rows(&[&[0.5, 0.25], &[0.0]]));
    // The loss derivative is output less target; the last layer's output is
    // not positive, so its delta is zero, and so are those carried back.
    let (deltas, gradients) = net.backward(&outputs, &input, &row(&[1.0]));
    assert_eq!(deltas, rows(&[&[-0.0, 0.0], &[-0.0]]));
    assert_eq!(gradients[1], rows(&[&[-0.0, -0.0]]));
    // Only the inner layer's gradients are clipped: zero becomes the floor.
    assert_eq!(gradients[0], rows(&[&[1e-5, 1e-5], &[1e-5, 1e-5]]));
}

#[test]
fn backward_clips_inner_layers_only() {
    let mut net = network(vec![
        layer(&[&[1.0], &[1.0]], relu()),
        layer(&[&[1.0, 1.0]], relu()),
    ]);
    let input = row(&[10.0]);
    let outputs = net.forward(&input);
    assert_eq!(outputs, rows(&[&[10.0, 10.0], &[20.0]]));
    let (deltas, gradients) = net.backward(&outputs, &input, &row(&[0.0]));
    assert_eq!(deltas, rows(&[&[20.0, 20.0], &[20.0]]));
    assert_eq!(gradients[1], rows(&[&[200.0, 200.0]]));
    assert_eq!(gradients[0], rows(&[&[5.0], &[5.0]]));
}

#[test]
fn backward_leaves_the_network_as_it_was() {
    let mut net = small_network();
    let input = row(&[1.0, 0.5]);
    let outputs = net.forward(&input);
    let _ = net.backward(&outputs, &input, &row(&[1.0, 0.0]));
    assert_eq!(net.layers[0].weights, rows(&[&[0.5, -0.25], &[0.75, 0.5]]));
    assert_eq!(net.layers[1].weights, rows(&[&[1.0, -1.0], &[0.5, 0.25]]));
    assert_eq!(net.forward(&input), outputs);
}

#[test]
fn network_is_well_formed_only_if_neighbours_fit() {
    assert!(small_network().is_well_formed());
    assert!(network(vec![]).is_well_formed());
    let unfit = network(vec![layer(&[&[1.0, 2.0]], relu()), layer(&[&[1.0, 2.0]], relu())]);
    assert!(!unfit.is_well_formed());
    let ragged = network(vec![layer(&[&[1.0, 2.0], &[3.0]], relu())]);
    assert!(!ragged.is_well_formed());
}

#[test]
fn input_of_the_wrong_width_is_a_shape_error() {
    let net = small_network();
    let target = row(&[1.0, 0.0]);
    assert_eq!(
        net.check_example(0, &row(&[1.0, 0.5, 0.25]), &target),
        Err(ShapeError::InputWidth { example: 0, expected: 2, found: 3 })
    );
    assert_eq!(
        net.check_example(0, &row(&[1.0]), &target),
        Err(ShapeError::InputWidth { example: 0, expected: 2, found: 1 })
    );
    assert_eq!(
        net.check_example(4, &row(&[]), &target),
        Err(ShapeError::InputWidth { example: 4, expected: 2, found: 0 })
    );
    assert_eq!(net.check_example(0, &row(&[1.0, 0.5]), &target), Ok(()));
}

#[test]
fn forward_pass_on_input_of_the_wrong_width_fails_with_a_shape_error() {
    let net = small_network();
    assert_eq!(
        net.checked_forward(&row(&[1.0, 0.5, 0.25])),
        Err(ShapeError::InputWidth { example: 0, expected: 2, found: 3 })
    );
    assert_eq!(
        net.checked_forward(&row(&[1.0])),
        Err(ShapeError::InputWidth { example: 0, expected: 2, found: 1 })
    );
    let input = row(&[1.0, 0.5]);
    assert_eq!(net.checked_forward(&input), Ok(net.forward(&input)));
}

#[test]
fn forward_pass_through_layers_that_do_not_fit_fails_with_a_shape_error() {
    let unfit = network(vec![layer(&[&[1.0, 2.0]], relu()), layer(&[&[1.0, 2.0]], relu())]);
    assert_eq!(unfit.checked_forward(&row(&[1.0, 0.5])), Err(ShapeError::Network));
    let none = network(vec![]);
    assert_eq!(none.checked_forward(&row(&[1.0, 0.5])), Ok(vec![]));
}

#[test]
fn target_of_the_wrong_width_is_a_shape_error() {
    let net = network(vec![layer(&[&[1.0, 2.0], &[3.0, 4.0], &[5.0, 6.0]], softmax())]);
    assert_eq!(
        net.check_example(7, &row(&[1.0, 0.5]), &row(&[1.0, 0.0])),
        Err(ShapeError::TargetWidth { example: 7, expected: 3, found: 2 })
    );
    // The input is looked at first.
    assert_eq!(
        net.check_example(7, &row(&[1.0]), &row(&[1.0, 0.0])),
        Err(ShapeError::InputWidth { example: 7, expected: 2, found: 1 })
    );
}

#[test]
fn network_that_cannot_run_is_a_shape_error() {
    let input = row(&[1.0, 0.5]);
    let target = row(&[1.0, 0.0]);
    assert_eq!(network(vec![]).check_example(0, &input, &target), Err(ShapeError::Network));
    let unfit = network(vec![layer(&[&[1.0, 2.0]], relu()), layer(&[&[1.0, 2.0]], relu())]);
    assert_eq!(unfit.check_example(0, &input, &target), Err(ShapeError::Network));
    assert_eq!(unfit.check_examples(&vec![input], &vec![target]), Err(ShapeError::Network));
}

#[test]
fn examples_are_checked_in_order() {
    let net = small_network();
    let good = row(&[1.0, 0.5]);
    let target = row(&[1.0, 0.0]);
    assert_eq!(net.check_examples(&vec![], &vec![]), Ok(()));
    assert_eq!(net.check_examples(&vec![good.clone(); 3], &vec![target.clone(); 3]), Ok(()));
    assert_eq!(
        net.check_examples(&vec![good.clone(); 3], &vec![target.clone(); 2]),
        Err(ShapeError::ExampleCount { inputs: 3, targets: 2 })
    );
    let inputs = vec![good.clone(), row(&[1.0]), row(&[])];
    let targets = vec![row(&[1.0]), target.clone(), target.clone()];
    assert_eq!(
        net.check_examples(&inputs, &targets),
        Err(ShapeError::TargetWidth { example: 0, expected: 2, found: 1 })
    );
    let targets = vec![target.clone(); 3];
    assert_eq!(
        net.check_examples(&inputs, &targets),
        Err(ShapeError::InputWidth { example: 1, expected: 2, found: 1 })
    );
}

#[test]
fn argmax_is_the_index_of_the_largest_entry() {
    assert_eq!(argmax(&row(&[0.1, 0.7, 0.2])), 1);
    assert_eq!(argmax(&row(&[3.0])), 0);
    assert_eq!(argmax(&row(&[-1.0, -2.0, -3.0])), 0);
    assert_eq!(argmax(&row(&[0.0, 0.0, 1.0])), 2);
}

#[test]
fn argmax_of_equal_entries_is_the_last_of_them() {
    assert_eq!(argmax(&row(&[1.0, 1.0])), 1);
    assert_eq!(argmax(&row(&[2.0, 5.0, 5.0, 1.0])), 2);
    assert_eq!(argmax(&row(&[0.0, 0.0, 0.0])), 2);
}

#[test]
fn optimize_moves_each_parameter_against_its_slope() {
    let mut net = small_network();
    net.layers[0].biases = row(&[1.0, 2.0]);
    let mut optimizer = SimpleOptimizer::new(net, R(0.5));
    let deltas = rows(&[&[2.0, -4.0], &[0.0, 8.0]]);
    let gradients = vec![rows(&[&[1.0, 2.0], &[-1.0, -2.0]]), rows(&[&[4.0, 0.0], &[0.5, -0.5]])];
    optimizer.optimize(&deltas, &gradients);
    let net = optimizer.mlp();
    assert_eq!(net.layers[0].weights, rows(&[&[0.0, -1.25], &[1.25, 1.5]]));
    assert_eq!(net.layers[0].biases, row(&[0.0, 4.0]));
    assert_eq!(net.layers[1].weights, rows(&[&[-1.0, -1.0], &[0.25, 0.5]]));
    assert_eq!(net.layers[1].biases, row(&[0.0, -4.0]));
    assert_eq!(optimizer.learning_rate(), R(0.5));
}

#[test]
fn one_training_step_gives_the_same_weights_every_time() {
    let mut optimizer = SimpleOptimizer::new(small_network(), R(0.1));
    optimizer.train_step(&row(&[1.0, 0.5]), &row(&[1.0, 0.0]));
    let net = optimizer.mlp();
    assert!(close_rows(
        &net.layers[0].weights,
        &[&[0.491471997507492, -0.254264001246254], &[0.7171056008156299, 0.48355280040781495]]
    ));
    assert!(close(&net.layers[0].biases, &[-0.008528002492508008, -0.03289439918437005]));
    assert!(close_rows(
        &net.layers[1].weights,
        &[&[1.007157599484529, -0.980913068041256], &[0.479288799161561, 0.1947701310974959]]
    ));
    assert!(close(&net.layers[1].biases, &[0.01908693195874403, -0.05522986890250408]));

    let mut again = SimpleOptimizer::new(small_network(), R(0.1));
    again.train_step(&row(&[1.0, 0.5]), &row(&[1.0, 0.0]));
    for k in 0..2 {
        assert_eq!(again.mlp().layers[k].weights, net.layers[k].weights);
        assert_eq!(again.mlp().layers[k].biases, net.layers[k].biases);
    }
}

#[test]
fn training_through_train_is_training_step_by_step() {
    let inputs = vec![row(&[1.0, 0.5]), row(&[0.25, 0.75])];
    let targets = vec![row(&[1.0, 0.0]), row(&[0.0, 1.0])];
    let mut whole = SimpleOptimizer::new(small_network(), R(0.1));
    let scores = whole.train(&inputs, &targets, &inputs, &targets, 2);
    assert_eq!(scores.len(), 2);
    let mut stepwise = SimpleOptimizer::new(small_network(), R(0.1));
    for _ in 0..2 {
        for (x, t) in inputs.iter().zip(targets.iter()) {
            stepwise.train_step(x, t);
        }
    }
    for k in 0..2 {
        assert_eq!(whole.mlp().layers[k].weights, stepwise.mlp().layers[k].weights);
        assert_eq!(whole.mlp().layers[k].biases, stepwise.mlp().layers[k].biases);
    }
    assert_eq!(whole.learning_rate(), stepwise.learning_rate());
    assert_eq!(scores[1], whole.test(&inputs, &targets));
}

#[test]
fn learning_rate_decays_after_every_example() {
    let mut optimizer = SimpleOptimizer::new(small_network(), R(0.1));
    optimizer.train_step(&row(&[1.0, 0.5]), &row(&[1.0, 0.0]));
    assert_eq!(optimizer.learning_rate(), R(0.1 * 0.98));
    optimizer.train_step(&row(&[1.0, 0.5]), &row(&[1.0, 0.0]));
    assert_eq!(optimizer.learning_rate(), R(0.1 * 0.98 * 0.98));
    let inputs = vec![row(&[1.0, 0.5]); 3];
    let targets = vec![row(&[1.0, 0.0]); 3];
    let mut optimizer = SimpleOptimizer::new(small_network(), R(1.0));
    let _ = optimizer.train(&inputs, &targets, &inputs, &targets, 2);
    // Six examples in all: the decay is not started afresh with an epoch.
    assert_eq!(optimizer.learning_rate(), R(0.98 * 0.98 * 0.98 * 0.98 * 0.98 * 0.98));
}

#[test]
fn training_for_no_epochs_changes_nothing() {
    let inputs = vec![row(&[1.0, 0.5])];
    let targets = vec![row(&[1.0, 0.0])];
    let mut optimizer = SimpleOptimizer::new(small_network(), R(0.1));
    let scores = optimizer.train(&inputs, &targets, &inputs, &targets, 0);
    assert_eq!(scores, Vec::<usize>::new());
    assert_eq!(optimizer.learning_rate(), R(0.1));
    assert_eq!(optimizer.mlp().layers[0].weights, rows(&[&[0.5, -0.25], &[0.75, 0.5]]));
}

#[test]
fn test_counts_the_examples_classified_as_their_targets() {
    // The identity with a rectifier: the class is the index of the largest input.
    let net = network(vec![layer(&[&[1.0, 0.0], &[0.0, 1.0]], relu())]);
    let optimizer = SimpleOptimizer::new(net, R(0.1));
    let inputs = rows(&[&[0.9, 0.1], &[0.2, 0.8], &[0.6, 0.4], &[0.3, 0.7]]);
    let targets = rows(&[&[1.0, 0.0], &[1.0, 0.0], &[0.0, 1.0], &[0.0, 1.0]]);
    assert_eq!(optimizer.test(&inputs, &targets), 2);
    assert_eq!(optimizer.test(&vec![], &vec![]), 0);
}

#[test]
fn test_on_the_networks_own_outputs_is_all_correct() {
    let optimizer = SimpleOptimizer::new(small_network(), R(0.1));
    let inputs = points(3, 50);
    let targets: Vec<Vec<R>> =
        inputs.iter().map(|x| optimizer.mlp().forward(x).pop().unwrap()).collect();
    assert_eq!(optimizer.test(&inputs, &targets), 50);
}

#[test]
fn separable_classes_are_learnt_within_five_epochs() {
    // The starting weights put every point on the wrong side.
    let net = network(vec![layer(&[&[-0.2, 0.2], &[0.2, -0.2]], softmax())]);
    let inputs = points(1, 200);
    let targets: Vec<Vec<R>> = inputs.iter().map(side).collect();
    let held_inputs = points(7, 100);
    let held_targets: Vec<Vec<R>> = held_inputs.iter().map(side).collect();
    let mut optimizer = SimpleOptimizer::new(net, R(1.0));
    assert_eq!(optimizer.mlp().check_examples(&inputs, &targets), Ok(()));
    assert_eq!(optimizer.test(&held_inputs, &held_targets), 0);
    let scores = optimizer.train(&inputs, &targets, &held_inputs, &held_targets, 5);
    assert_eq!(scores.len(), 5);
    assert!(scores[4] >= 95);
    assert_eq!(optimizer.test(&held_inputs, &held_targets), scores[4]);
}

#[test]
fn one_hot_marks_the_class() {
    assert_eq!(one_hot::<R>(3, 5), row(&[0.0, 0.0, 0.0, 1.0, 0.0]));
    assert_eq!(one_hot::<R>(0, 2), row(&[1.0, 0.0]));
    assert_eq!(one_hot::<R>(5, 5), row(&[0.0, 0.0, 0.0, 0.0, 0.0]));
    assert_eq!(one_hot::<R>(0, 0), row(&[]));
}

#[test]
fn scale_down_divides_each_entry() {
    assert_eq!(scale_down(&row(&[0.0, 51.0, 255.0]), 255), row(&[0.0, 0.2, 1.0]));
    assert_eq!(scale_down(&row(&[1.0, 3.0]), 4), row(&[0.25, 0.75]));
}

#[test]
fn digit_is_encoded_with_ten_classes_and_pixels_in_the_unit_interval() {
    let (features, target) = encode_digit(7, &row(&[0.0, 255.0, 127.5]));
    assert_eq!(features, row(&[0.0, 1.0, 0.5]));
    assert_eq!(target, row(&[0.0, 0.0, 0.0, 0.0, 0.0, 0.0, 0.0, 1.0, 0.0, 0.0]));
}

fn text(chars: Vec<char>) -> String {
    chars.into_iter().collect()
}

#[test]
fn numbers_are_written_in_decimal() {
    assert_eq!(text(decimal_digits(0)), "0");
    assert_eq!(text(decimal_digits(7)), "7");
    assert_eq!(text(decimal_digits(10)), "10");
    assert_eq!(text(decimal_digits(1234567890)), "1234567890");
    assert_eq!(text(decimal_digits(usize::MAX)), usize::MAX.to_string());
}

#[test]
fn progress_line_names_the_epoch_and_fills_the_bar_from_the_left() {
    assert_eq!(BAR_LENGTH, 50);
    assert_eq!(text(progress_bar(1, 0)), format!("\rEpoch 1 [{}] ", " ".repeat(50)));
    assert_eq!(text(progress_bar(3, 20)), format!("\rEpoch 3 [{}{}] ", "=".repeat(20), " ".repeat(30)));
    assert_eq!(text(progress_bar(12, 50)), format!("\rEpoch 12 [{}] ", "=".repeat(50)));
}

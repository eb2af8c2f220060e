use rand::distributions::{Distribution, Uniform};
use rust_mlp::activation::{max_entry, normalize, sum_entries, Activation, ActivationFunction, ReLU, Softmax};
use rust_mlp::scalar::Scalar;

#[derive(Clone, Copy, Debug, PartialEq)]
struct R(f64);

impl Scalar for R {
    fn from_usize_spec(n: usize) -> Self {
        R(n as f64)
    }
    fn min_value_spec() -> Self {
        R(f64::MIN)
    }
    fn add_spec(self, rhs: Self) -> Self {
        R(self.0 + rhs.0)
    }
    fn sub_spec(self, rhs: Self) -> Self {
        R(self.0 - rhs.0)
    }
    fn mul_spec(self, rhs: Self) -> Self {
        R(self.0 * rhs.0)
    }
    fn div_spec(self, rhs: Self) -> Self {
        R(self.0 / rhs.0)
    }
    fn neg_spec(self) -> Self {
        R(-self.0)
    }
    fn abs_spec(self) -> Self {
        R(self.0.abs())
    }
    fn sqrt_spec(self) -> Self {
        R(self.0.sqrt())
    }
    fn gt_spec(self, rhs: Self) -> bool {
        self.0 > rhs.0
    }
    fn from_usize(n: usize) -> Self {
        R(n as f64)
    }
    fn min_value() -> Self {
        R(f64::MIN)
    }
    fn add(self, rhs: Self) -> Self {
        R(self.0 + rhs.0)
    }
    fn sub(self, rhs: Self) -> Self {
        R(self.0 - rhs.0)
    }
    fn mul(self, rhs: Self) -> Self {
        R(self.0 * rhs.0)
    }
    fn div(self, rhs: Self) -> Self {
        R(self.0 / rhs.0)
    }
    fn neg(self) -> Self {
        R(-self.0)
    }
    fn abs(self) -> Self {
        R(self.0.abs())
    }
    fn sqrt(self) -> Self {
        R(self.0.sqrt())
    }
    fn gt(self, rhs: Self) -> bool {
        self.0 > rhs.0
    }
    fn exp(self) -> Self {
        R(self.0.exp())
    }
    fn ln(self) -> Self {
        R(self.0.ln())
    }
    fn sample_unit() -> Self {
        R(Uniform::new(0.0, 1.0).sample(&mut rand::thread_rng()))
    }
}

fn row(values: &[f64]) -> Vec<R> {
    values.iter().map(|x| R(*x)).collect()
}

fn rows(values: &[&[f64]]) -> Vec<Vec<R>> {
    values.iter().map(|r| row(r)).collect()
}

fn close(a: &[R], b: &[f64]) -> bool {
    a.len() == b.len() && a.iter().zip(b.iter()).all(|(x, y)| (x.0 - y).abs() < 1e-12)
}

#[test]
fn relu_keeps_what_is_positive_and_zeroes_the_rest() {
    let relu = ReLU::<R>::new();
    assert_eq!(relu.activate(R(2.5)), R(2.5));
    assert_eq!(relu.activate(R(-1.5)), R(0.0));
    assert_eq!(relu.activate(R(0.0)), R(0.0));
    assert_eq!(relu.activate(R(f64::NEG_INFINITY)), R(0.0));
}

#[test]
fn relu_is_never_negative() {
    let relu = ReLU::<R>::new();
    for x in [-1.0e300, -3.0, -1e-300, -0.0, 0.0, 1e-300, 0.5, 7.0, 1.0e300] {
        assert!(relu.activate(R(x)).0 >= 0.0);
    }
}

#[test]
fn relu_derivative_is_zero_or_one() {
    let relu = ReLU::<R>::new();
    assert_eq!(relu.derivative(R(3.0)), R(1.0));
    assert_eq!(relu.derivative(R(1e-300)), R(1.0));
    assert_eq!(relu.derivative(R(-3.0)), R(0.0));
}

#[test]
fn relu_derivative_at_zero_is_zero() {
    let relu = ReLU::<R>::new();
    assert_eq!(relu.derivative(R(0.0)), R(0.0));
    assert_eq!(relu.derivative(R(-0.0)), R(0.0));
}

#[test]
fn relu_applies_to_each_entry_of_a_layer() {
    let relu = ReLU::<R>::new();
    assert_eq!(relu.activate_layer(&row(&[-1.0, 0.0, 3.0])), row(&[0.0, 0.0, 3.0]));
    assert_eq!(relu.activate_layer(&row(&[])), row(&[]));
}

#[test]
fn relu_applies_to_each_row_of_a_batch() {
    let relu = ReLU::<R>::new();
    let batch = rows(&[&[-1.0, 2.0], &[3.0, -4.0], &[]]);
    assert_eq!(relu.activate_batch(batch), rows(&[&[0.0, 2.0], &[3.0, 0.0], &[]]));
}

#[test]
fn largest_entry_of_a_vector() {
    assert_eq!(max_entry(&row(&[1.0, 5.0, 3.0])), R(5.0));
    assert_eq!(max_entry(&row(&[-7.0])), R(-7.0));
    assert_eq!(max_entry(&row(&[])), R(f64::MIN));
    assert_eq!(max_entry(&row(&[f64::NEG_INFINITY])), R(f64::MIN));
}

#[test]
fn sum_of_a_vector_adds_from_the_first_entry_upwards() {
    assert_eq!(sum_entries(&row(&[1.0, 2.0, 3.5])), R(6.5));
    assert_eq!(sum_entries(&row(&[])), R(0.0));
    assert_eq!(sum_entries(&row(&[1.0e16, 1.0, -1.0e16])), R(0.0));
}

#[test]
fn normalize_divides_by_the_sum() {
    assert_eq!(normalize(&row(&[1.0, 1.0, 2.0])), row(&[0.25, 0.25, 0.5]));
    assert_eq!(normalize(&row(&[])), row(&[]));
}

#[test]
fn softmax_of_equal_entries_is_uniform() {
    let softmax = Softmax::<R>::new();
    assert_eq!(softmax.activate_layer(&row(&[0.0, 0.0])), row(&[0.5, 0.5]));
    assert_eq!(softmax.activate_layer(&row(&[3.0, 3.0, 3.0, 3.0])), row(&[0.25, 0.25, 0.25, 0.25]));
    assert_eq!(softmax.activate_layer(&row(&[-2.5])), row(&[1.0]));
}

#[test]
fn softmax_is_the_normalized_exponential() {
    let softmax = Softmax::<R>::new();
    let out = softmax.activate_layer(&row(&[-0.625, 0.4375]));
    assert!(close(&out, &[0.25683199138751883, 0.7431680086124811]));
    let out = softmax.activate_layer(&row(&[1.0, 2.0, 3.0]));
    let e = [(-2.0f64).exp(), (-1.0f64).exp(), 1.0];
    let s = e[0] + e[1] + e[2];
    assert!(close(&out, &[e[0] / s, e[1] / s, e[2] / s]));
}

#[test]
fn softmax_entries_are_not_negative_and_add_up_to_one() {
    let softmax = Softmax::<R>::new();
    for input in [vec![0.3], vec![1.0, 2.0, 3.0], vec![-50.0, 0.0, 50.0], vec![1e3, -1e3, 7.0, 7.5]] {
        let out = softmax.activate_layer(&row(&input));
        assert_eq!(out.len(), input.len());
        assert!(out.iter().all(|x| x.0 >= 0.0));
        let total: f64 = out.iter().map(|x| x.0).sum();
        assert!((total - 1.0).abs() < 1e-12);
    }
}

#[test]
fn softmax_does_not_change_when_a_constant_is_added() {
    let softmax = Softmax::<R>::new();
    let base = softmax.activate_layer(&row(&[0.5, -1.25, 2.0]));
    for shift in [1.0, -3.0, 100.0, 1024.0] {
        let moved = softmax.activate_layer(&row(&[0.5 + shift, -1.25 + shift, 2.0 + shift]));
        for (a, b) in base.iter().zip(moved.iter()) {
            assert!((a.0 - b.0).abs() < 1e-12);
        }
    }
}

#[test]
fn softmax_of_large_entries_does_not_overflow() {
    let softmax = Softmax::<R>::new();
    assert_eq!(softmax.activate_layer(&row(&[1000.0, 1000.0])), row(&[0.5, 0.5]));
    let out = softmax.activate_layer(&row(&[1.0e308, 0.0]));
    assert_eq!(out, row(&[1.0, 0.0]));
}

#[test]
fn softmax_on_a_single_scalar_hands_it_back() {
    let softmax = Softmax::<R>::new();
    assert_eq!(softmax.activate(R(-3.5)), R(-3.5));
    assert_eq!(softmax.derivative(R(0.25)), R(0.25));
}

#[test]
fn softmax_applies_to_each_row_of_a_batch() {
    let softmax = Softmax::<R>::new();
    let out = softmax.activate_batch(rows(&[&[1.0, 1.0], &[5.0]]));
    assert_eq!(out, rows(&[&[0.5, 0.5], &[1.0]]));
}

#[test]
fn activation_dispatches_to_its_variant() {
    let relu = Activation::ReLU(ReLU::<R>::new());
    let softmax = Activation::Softmax(Softmax::<R>::new());
    assert_eq!(relu.activate(R(-2.0)), R(0.0));
    assert_eq!(relu.derivative(R(2.0)), R(1.0));
    assert_eq!(relu.activate_layer(&row(&[-2.0, 2.0])), row(&[0.0, 2.0]));
    assert_eq!(softmax.activate(R(-2.0)), R(-2.0));
    assert_eq!(softmax.derivative(R(2.0)), R(2.0));
    assert_eq!(softmax.activate_layer(&row(&[2.0, 2.0])), row(&[0.5, 0.5]));
    assert_eq!(softmax.activate_batch(rows(&[&[2.0, 2.0]])), rows(&[&[0.5, 0.5]]));
}

struct Halve;

impl ActivationFunction<R> for Halve {
    fn activate_spec(&self, x: R) -> R {
        R(x.0 / 2.0)
    }
    fn derivative_spec(&self, _x: R) -> R {
        R(0.5)
    }
    fn activates_layer(&self, input: vstd::seq::Seq<R>, output: vstd::seq::Seq<R>) -> bool {
        let _ = (input, output);
        true
    }
    fn activate_layer(&self, input: &Vec<R>) -> Vec<R> {
        input.iter().map(|x| self.activate(*x)).collect()
    }
    fn activate(&self, x: R) -> R {
        R(x.0 / 2.0)
    }
    fn derivative(&self, _x: R) -> R {
        R(0.5)
    }
}

#[test]
fn activation_of_the_callers_own_is_called_through() {
    let halve = Activation::Custom(Box::new(Halve));
    assert_eq!(halve.activate(R(3.0)), R(1.5));
    assert_eq!(halve.derivative(R(3.0)), R(0.5));
    assert_eq!(halve.activate_layer(&row(&[2.0, 4.0])), row(&[1.0, 2.0]));
    assert_eq!(halve.activate_batch(rows(&[&[2.0], &[4.0, 8.0]])), rows(&[&[1.0], &[2.0, 4.0]]));
}

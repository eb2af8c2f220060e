use rand::distributions::{Distribution, Uniform};
use rust_mlp::gemm::{copy_matrix, dot_product, matrix_matrix_mul, matrix_transpose, matrix_vector_mul};
use rust_mlp::scalar::{make_ratio, Scalar};

#[derive(Clone, Copy, Debug, PartialEq)]
struct R(f64);

impl Scalar for R {
    fn from_usize_spec(n: usize) -> Self {
        R(n as f64)
    }
    fn min_value_spec() -> Self {
        R(f64::MIN)
    }
    fn add_spec(self, rhs: Self) -> Self {
        R(self.0 + rhs.0)
    }
    fn sub_spec(self, rhs: Self) -> Self {
        R(self.0 - rhs.0)
    }
    fn mul_spec(self, rhs: Self) -> Self {
        R(self.0 * rhs.0)
    }
    fn div_spec(self, rhs: Self) -> Self {
        R(self.0 / rhs.0)
    }
    fn neg_spec(self) -> Self {
        R(-self.0)
    }
    fn abs_spec(self) -> Self {
        R(self.0.abs())
    }
    fn sqrt_spec(self) -> Self {
        R(self.0.sqrt())
    }
    fn gt_spec(self, rhs: Self) -> bool {
        self.0 > rhs.0
    }
    fn from_usize(n: usize) -> Self {
        R(n as f64)
    }
    fn min_value() -> Self {
        R(f64::MIN)
    }
    fn add(self, rhs: Self) -> Self {
        R(self.0 + rhs.0)
    }
    fn sub(self, rhs: Self) -> Self {
        R(self.0 - rhs.0)
    }
    fn mul(self, rhs: Self) -> Self {
        R(self.0 * rhs.0)
    }
    fn div(self, rhs: Self) -> Self {
        R(self.0 / rhs.0)
    }
    fn neg(self) -> Self {
        R(-self.0)
    }
    fn abs(self) -> Self {
        R(self.0.abs())
    }
    fn sqrt(self) -> Self {
        R(self.0.sqrt())
    }
    fn gt(self, rhs: Self) -> bool {
        self.0 > rhs.0
    }
    fn exp(self) -> Self {
        R(self.0.exp())
    }
    fn ln(self) -> Self {
        R(self.0.ln())
    }
    fn sample_unit() -> Self {
        R(Uniform::new(0.0, 1.0).sample(&mut rand::thread_rng()))
    }
}

fn row(values: &[f64]) -> Vec<R> {
    values.iter().map(|x| R(*x)).collect()
}

fn rows(values: &[&[f64]]) -> Vec<Vec<R>> {
    values.iter().map(|r| row(r)).collect()
}

#[test]
fn dot_product_adds_the_products() {
    assert_eq!(dot_product(&row(&[1.0, 2.0, 3.0]), &row(&[4.0, 5.0, 6.0])), R(32.0));
    assert_eq!(dot_product(&row(&[]), &row(&[])), R(0.0));
}

#[test]
fn dot_product_adds_from_the_first_entry_upwards() {
    // In this order the one is lost against the large term before that term is
    // taken away again; any other order of the three terms keeps it.
    let a = row(&[1.0e16, 1.0, -1.0e16]);
    let ones = row(&[1.0, 1.0, 1.0]);
    assert_eq!(dot_product(&a, &ones), R(0.0));
}

#[test]
fn matrix_vector_product_is_row_by_row_dot_product() {
    let m = rows(&[&[1.0, 2.0, 3.0], &[4.0, 5.0, 6.0]]);
    let v = row(&[1.0, 0.5, -1.0]);
    assert_eq!(matrix_vector_mul(&m, &v), row(&[-1.0, 0.5]));
}

#[test]
fn matrix_vector_product_of_no_rows_is_empty() {
    let m: Vec<Vec<R>> = Vec::new();
    assert_eq!(matrix_vector_mul(&m, &row(&[1.0, 2.0])), row(&[]));
}

#[test]
fn matrix_vector_product_has_one_entry_for_each_row() {
    let m = rows(&[&[1.0], &[2.0], &[3.0]]);
    assert_eq!(matrix_vector_mul(&m, &row(&[2.0])), row(&[2.0, 4.0, 6.0]));
}

#[test]
fn matrix_matrix_product_dots_rows_with_rows() {
    // The second operand holds one example in each row: the result is a times
    // the transpose of b, here 2 by 3 from a 2 by 2 and a 3 by 2 matrix.
    let a = rows(&[&[1.0, 2.0], &[3.0, 4.0]]);
    let b = rows(&[&[1.0, 0.0], &[0.0, 1.0], &[1.0, 1.0]]);
    assert_eq!(matrix_matrix_mul(&a, &b), rows(&[&[1.0, 2.0, 3.0], &[3.0, 4.0, 7.0]]));
}

#[test]
fn matrix_matrix_product_is_not_the_conventional_product() {
    let a = rows(&[&[1.0, 2.0], &[3.0, 4.0]]);
    let b = rows(&[&[5.0, 6.0], &[7.0, 8.0]]);
    // The conventional product would be [[19, 22], [43, 50]].
    assert_eq!(matrix_matrix_mul(&a, &b), rows(&[&[17.0, 23.0], &[39.0, 53.0]]));
}

#[test]
fn matrix_matrix_product_by_no_examples_has_empty_rows() {
    let a = rows(&[&[1.0, 2.0], &[3.0, 4.0]]);
    let b: Vec<Vec<R>> = Vec::new();
    assert_eq!(matrix_matrix_mul(&a, &b), rows(&[&[], &[]]));
}

#[test]
fn transpose_swaps_rows_and_columns() {
    let m = vec![vec![1.0f64, 2.0, 3.0], vec![4.0, 5.0, 6.0]];
    assert_eq!(matrix_transpose(&m), vec![vec![1.0, 4.0], vec![2.0, 5.0], vec![3.0, 6.0]]);
}

#[test]
fn transpose_twice_is_the_matrix() {
    let m = vec![vec![1.0f64, 2.0, 3.0], vec![4.0, 5.0, 6.0]];
    assert_eq!(matrix_transpose(&matrix_transpose(&m)), m);
    let column = vec![vec![7u8], vec![8], vec![9]];
    assert_eq!(matrix_transpose(&column), vec![vec![7u8, 8, 9]]);
    assert_eq!(matrix_transpose(&matrix_transpose(&column)), column);
}

#[test]
fn transpose_of_rows_without_entries_has_no_rows() {
    let m: Vec<Vec<u8>> = vec![vec![], vec![]];
    assert_eq!(matrix_transpose(&m), Vec::<Vec<u8>>::new());
}

#[test]
fn copy_of_a_matrix_is_equal_to_it() {
    let m = vec![vec![1u8, 2], vec![], vec![3]];
    assert_eq!(copy_matrix(&m), m);
}

#[test]
fn ratio_divides_the_nearest_scalars() {
    assert_eq!(make_ratio::<R>(1, 4), R(0.25));
    assert_eq!(make_ratio::<R>(98, 100), R(0.98));
    assert_eq!(make_ratio::<R>(1, 100000), R(1e-5));
}

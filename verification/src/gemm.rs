//! Dense vector and matrix arithmetic.

use vstd::prelude::*;
use crate::scalar::{Scalar, zero};

verus! {

/// A matrix as a sequence of rows.
pub open spec fn entries<T>(m: Seq<Vec<T>>) -> Seq<Seq<T>> {
    Seq::new(m.len(), |i: int| m[i]@)
}

/// Appending a row to a matrix appends its entries.
pub proof fn lemma_entries_push<T>(m: Seq<Vec<T>>, row: Vec<T>)
    ensures
        entries(m.push(row)) == entries(m).push(row@),
{
    assert(entries(m.push(row)) =~= entries(m).push(row@));
}

/// Every row of `m` has `cols` entries.
pub open spec fn is_rectangular<T>(m: Seq<Seq<T>>, cols: nat) -> bool {
    forall|i: int| 0 <= i < m.len() ==> (#[trigger] m[i]).len() == cols
}

/// The sum of the products `a[j] * b[j]`, added up from `j = 0` upwards,
/// starting from zero.
pub open spec fn dot<T: Scalar>(a: Seq<T>, b: Seq<T>) -> T
    decreases a.len(),
{
    if a.len() == 0 {
        zero()
    } else {
        dot(a.drop_last(), b.drop_last()).add_spec(a.last().mul_spec(b.last()))
    }
}

/// The product of `m` and the column vector `v`.
pub open spec fn mat_vec<T: Scalar>(m: Seq<Seq<T>>, v: Seq<T>) -> Seq<T> {
    Seq::new(m.len(), |i: int| dot(m[i], v))
}

/// The matrix whose entry `(i, k)` is the dot product of row `i` of `a` with
/// row `k` of `b`: the product of `a` with the transpose of `b`.
pub open spec fn mat_mat<T: Scalar>(a: Seq<Seq<T>>, b: Seq<Seq<T>>) -> Seq<Seq<T>> {
    Seq::new(a.len(), |i: int| Seq::new(b.len(), |k: int| dot(a[i], b[k])))
}

/// The transpose of a non-empty rectangular matrix.
pub open spec fn transpose<T>(m: Seq<Seq<T>>) -> Seq<Seq<T>> {
    Seq::new(m[0].len(), |i: int| Seq::new(m.len(), |j: int| m[j][i]))
}

/// Transposing twice gives the matrix back, for every rectangular matrix with
/// at least one row and one column.
pub proof fn lemma_transpose_involution<T>(m: Seq<Seq<T>>)
    requires
        m.len() > 0,
        m[0].len() > 0,
        is_rectangular(m, m[0].len()),
    ensures
        transpose(transpose(m)) == m,
{
    let t = transpose(m);
    let tt = transpose(t);
    assert(t.len() == m[0].len());
    assert(t[0].len() == m.len());
    assert(tt.len() == m.len());
    assert forall|j: int| 0 <= j < m.len() implies #[trigger] tt[j] == m[j] by {
        assert(tt[j].len() == m[j].len());
        assert forall|i: int| 0 <= i < m[j].len() implies tt[j][i] == m[j][i] by {
            assert(t[i][j] == m[j][i]);
        }
        assert(tt[j] =~= m[j]);
    }
    assert(tt =~= m);
}

/// Entry `i` of a matrix-vector product is the sum over `j` of
/// `m[i][j] * v[j]`.
pub proof fn lemma_mat_vec_entry<T: Scalar>(m: Seq<Seq<T>>, v: Seq<T>, i: int)
    requires
        0 <= i < m.len(),
    ensures
        mat_vec(m, v).len() == m.len(),
        mat_vec(m, v)[i] == dot(m[i], v),
{
}

/// The dot product of two vectors of one length.
pub fn dot_product<T: Scalar>(a: &Vec<T>, b: &Vec<T>) -> (sum: T)
    requires
        a.len() == b.len(),
    ensures
        sum == dot(a@, b@),
{
    let mut sum = T::from_usize(0);
    let mut j: usize = 0;
    while j < a.len()
        invariant
            j <= a.len(),
            a.len() == b.len(),
            sum == dot(a@.take(j as int), b@.take(j as int)),
        decreases a.len() - j,
    {
        proof {
            assert(a@.take(j + 1).drop_last() =~= a@.take(j as int));
            assert(b@.take(j + 1).drop_last() =~= b@.take(j as int));
        }
        sum = sum.add(a[j].mul(b[j]));
        j += 1;
    }
    proof {
        assert(a@.take(a.len() as int) =~= a@);
        assert(b@.take(b.len() as int) =~= b@);
    }
    sum
}

/// Multiplies a matrix by a column vector.
pub fn matrix_vector_mul<T: Scalar>(matrix: &Vec<Vec<T>>, vector: &Vec<T>) -> (product: Vec<T>)
    requires
        is_rectangular(entries(matrix@), vector@.len()),
    ensures
        product@ == mat_vec(entries(matrix@), vector@),
{
    let mut product: Vec<T> = Vec::with_capacity(matrix.len());
    let mut i: usize = 0;
    while i < matrix.len()
        invariant
            i <= matrix.len(),
            is_rectangular(entries(matrix@), vector@.len()),
            product@ == mat_vec(entries(matrix@), vector@).take(i as int),
        decreases matrix.len() - i,
    {
        assert(entries(matrix@)[i as int] == matrix@[i as int]@);
        let entry = dot_product(&matrix[i], vector);
        product.push(entry);
        i += 1;
        assert(product@ =~= mat_vec(entries(matrix@), vector@).take(i as int));
    }
    assert(product@ =~= mat_vec(entries(matrix@), vector@));
    product
}

/// Multiplies a matrix by the transpose of another: entry `(i, k)` of the
/// result is the dot product of row `i` of `a` with row `k` of `b`.
pub fn matrix_matrix_mul<T: Scalar>(a: &Vec<Vec<T>>, b: &Vec<Vec<T>>) -> (product: Vec<Vec<T>>)
    requires
        forall|i: int, k: int|
            0 <= i < a.len() && 0 <= k < b.len() ==> (#[trigger] a@[i]).len() == (#[trigger] b@[k]).len(),
    ensures
        entries(product@) == mat_mat(entries(a@), entries(b@)),
{
    let mut product: Vec<Vec<T>> = Vec::with_capacity(a.len());
    let mut i: usize = 0;
    while i < a.len()
        invariant
            i <= a.len(),
            forall|i: int, k: int|
                0 <= i < a.len() && 0 <= k < b.len() ==> (#[trigger] a@[i]).len() == (#[trigger] b@[k]).len(),
            entries(product@) == mat_mat(entries(a@), entries(b@)).take(i as int),
        decreases a.len() - i,
    {
        let ghost want = mat_mat(entries(a@), entries(b@))[i as int];
        let mut row: Vec<T> = Vec::with_capacity(b.len());
        let mut k: usize = 0;
        while k < b.len()
            invariant
                i < a.len(),
                k <= b.len(),
                forall|i: int, k: int|
                    0 <= i < a.len() && 0 <= k < b.len() ==> (#[trigger] a@[i]).len() == (
                    #[trigger] b@[k]).len(),
                want == mat_mat(entries(a@), entries(b@))[i as int],
                row@ == want.take(k as int),
            decreases b.len() - k,
        {
            let entry = dot_product(&a[i], &b[k]);
            row.push(entry);
            k += 1;
            assert(row@ =~= want.take(k as int));
        }
        assert(row@ =~= want);
        proof {
            lemma_entries_push(product@, row);
        }
        product.push(row);
        i += 1;
        assert(entries(product@) =~= mat_mat(entries(a@), entries(b@)).take(i as int));
    }
    assert(entries(product@) =~= mat_mat(entries(a@), entries(b@)));
    product
}

/// Copies a matrix.
pub fn copy_matrix<T: Copy>(matrix: &Vec<Vec<T>>) -> (copy: Vec<Vec<T>>)
    ensures
        entries(copy@) == entries(matrix@),
{
    let mut copy: Vec<Vec<T>> = Vec::with_capacity(matrix.len());
    let mut i: usize = 0;
    while i < matrix.len()
        invariant
            i <= matrix.len(),
            entries(copy@) == entries(matrix@).take(i as int),
        decreases matrix.len() - i,
    {
        let mut row: Vec<T> = Vec::with_capacity(matrix[i].len());
        let mut j: usize = 0;
        while j < matrix[i].len()
            invariant
                i < matrix.len(),
                j <= matrix@[i as int].len(),
                row@ == matrix@[i as int]@.take(j as int),
            decreases matrix@[i as int].len() - j,
        {
            row.push(matrix[i][j]);
            j += 1;
            assert(row@ =~= matrix@[i as int]@.take(j as int));
        }
        assert(row@ =~= matrix@[i as int]@);
        proof {
            lemma_entries_push(copy@, row);
        }
        copy.push(row);
        i += 1;
        assert(entries(copy@) =~= entries(matrix@).take(i as int));
    }
    assert(entries(copy@) =~= entries(matrix@));
    copy
}

/// Transposes a rectangular matrix with at least one row.
pub fn matrix_transpose<T: Copy>(matrix: &Vec<Vec<T>>) -> (transposed: Vec<Vec<T>>)
    requires
        matrix.len() > 0,
        is_rectangular(entries(matrix@), matrix@[0].len() as nat),
    ensures
        entries(transposed@) == transpose(entries(matrix@)),
{
    let n_rows = matrix.len();
    let n_cols = matrix[0].len();
    let ghost want = transpose(entries(matrix@));
    let mut transposed: Vec<Vec<T>> = Vec::with_capacity(n_cols);
    let mut i: usize = 0;
    while i < n_cols
        invariant
            i <= n_cols,
            n_rows == matrix.len(),
            n_rows > 0,
            n_cols == matrix@[0].len(),
            is_rectangular(entries(matrix@), n_cols as nat),
            want == transpose(entries(matrix@)),
            entries(transposed@) == want.take(i as int),
        decreases n_cols - i,
    {
        let mut row: Vec<T> = Vec::with_capacity(n_rows);
        let mut j: usize = 0;
        while j < n_rows
            invariant
                i < n_cols,
                j <= n_rows,
                n_rows == matrix.len(),
                n_cols == matrix@[0].len(),
                is_rectangular(entries(matrix@), n_cols as nat),
                want == transpose(entries(matrix@)),
                row@ == want[i as int].take(j as int),
            decreases n_rows - j,
        {
            assert(entries(matrix@)[j as int].len() == n_cols);
            row.push(matrix[j][i]);
            j += 1;
            assert(row@ =~= want[i as int].take(j as int));
        }
        assert(row@ =~= want[i as int]);
        proof {
            lemma_entries_push(transposed@, row);
        }
        transposed.push(row);
        i += 1;
        assert(entries(transposed@) =~= want.take(i as int));
    }
    assert(entries(transposed@) =~= want);
    transposed
}

} // verus!

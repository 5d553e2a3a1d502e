use crate::error::MatrixError;
use crate::formula::Formula;
use crate::matrix::{lemma_cell, Matrix};
use crate::scalar::Scalar;
use crate::tuple::Tuple;
use vstd::prelude::*;

verus! {

/// The sum, from left to right, of the first `count` products of an entry of
/// row `row` of the first matrix and the entry of column `col` of the second
/// that stands as far down as the first stands to the right.
pub open spec fn spec_dot(
    a: Seq<Scalar>,
    b: Seq<Scalar>,
    n: nat,
    row: int,
    col: int,
    count: nat,
) -> Formula
    decreases count,
{
    if count <= 1 {
        Formula::spec_product(a[row * n], b[col])
    } else {
        Formula::Sum(
            Box::new(spec_dot(a, b, n, row, col, (count - 1) as nat)),
            Box::new(Formula::spec_product(a[row * n + count - 1], b[(count - 1) * n + col])),
        )
    }
}

/// The entries, row by row, of the product of two matrices of side `n`.
pub open spec fn spec_matrix_product(a: Seq<Scalar>, b: Seq<Scalar>, n: nat) -> Seq<Formula> {
    Seq::new(n * n, |k: int| spec_dot(a, b, n, k / n as int, k % n as int, n))
}

/// One component of the product of a matrix of side 4 and a tuple, taken as a
/// column: the four products of an entry of the row and a component of the
/// tuple, added from left to right.
pub open spec fn spec_tuple_component(m: Seq<Scalar>, t: Tuple, row: int) -> Formula {
    Formula::Sum(
        Box::new(
            Formula::Sum(
                Box::new(
                    Formula::Sum(
                        Box::new(Formula::spec_product(m[4 * row], t.0)),
                        Box::new(Formula::spec_product(m[4 * row + 1], t.1)),
                    ),
                ),
                Box::new(Formula::spec_product(m[4 * row + 2], t.2)),
            ),
        ),
        Box::new(Formula::spec_product(m[4 * row + 3], t.3)),
    )
}

/// The four components of the product of a matrix of side 4 and a tuple.
pub open spec fn spec_tuple_product(m: Seq<Scalar>, t: Tuple) -> Seq<Formula> {
    Seq::new(4, |k: int| spec_tuple_component(m, t, k))
}

/// What a product gives: the entries of a matrix, row by row, or the four
/// components of a tuple.
#[derive(Debug, PartialEq, Eq)]
pub enum Product {
    Matrix(Vec<Formula>),
    Tuple(Vec<Formula>),
}

impl Matrix {
    /// The entry in the given row and column of the product with another
    /// matrix of the same side.
    fn dot(&self, other: &Matrix, row: usize, col: usize) -> (r: Formula)
        requires
            self.spec_size() == other.spec_size(),
            row < self.spec_size(),
            col < self.spec_size(),
        ensures
            r == spec_dot(self@, other@, self.spec_size(), row as int, col as int, self.spec_size()),
    {
        let n: usize = self.size();
        let m: usize = other.size();
        proof {
            lemma_cell(n as int, row as int, 0);
            lemma_cell(n as int, 0, col as int);
        }
        let mut sum = Formula::product(self.at(row, 0), other.at(0, col));
        let mut k: usize = 1;
        while k < n
            invariant
                self.wf(),
                other.wf(),
                n == self.spec_size(),
                n == other.spec_size(),
                2 <= n <= 4,
                row < n,
                col < n,
                1 <= k <= n,
                sum == spec_dot(self@, other@, n as nat, row as int, col as int, k as nat),
            decreases n - k,
        {
            proof {
                lemma_cell(n as int, row as int, k as int);
                lemma_cell(n as int, k as int, col as int);
            }
            sum = Formula::Sum(
                Box::new(sum),
                Box::new(Formula::product(self.at(row, k), other.at(k, col))),
            );
            k += 1;
        }
        sum
    }

    /// The product with another matrix of the same side: the entry in row
    /// `i` and column `j` is the sum over `k` of the entry in row `i` and
    /// column `k` of this matrix times the entry in row `k` and column `j` of
    /// the other.
    pub fn multiply(&self, other: &Matrix) -> (r: Vec<Formula>)
        requires
            self.spec_size() == other.spec_size(),
        ensures
            r@ == spec_matrix_product(self@, other@, self.spec_size()),
    {
        let n: usize = self.size();
        let ghost want = spec_matrix_product(self@, other@, n as nat);
        let mut out: Vec<Formula> = Vec::new();
        let mut i: usize = 0;
        while i < n
            invariant
                self.wf(),
                n == self.spec_size(),
                n == other.spec_size(),
                2 <= n <= 4,
                i <= n,
                want == spec_matrix_product(self@, other@, n as nat),
                out@.len() == i * n,
                forall|k: int| 0 <= k < out@.len() ==> out@[k] == want[k],
            decreases n - i,
        {
            let mut j: usize = 0;
            while j < n
                invariant
                    self.wf(),
                    n == self.spec_size(),
                    n == other.spec_size(),
                    2 <= n <= 4,
                    i < n,
                    j <= n,
                    want == spec_matrix_product(self@, other@, n as nat),
                    out@.len() == i * n + j,
                    forall|k: int| 0 <= k < out@.len() ==> out@[k] == want[k],
                decreases n - j,
            {
                proof {
                    lemma_cell(n as int, i as int, j as int);
                }
                out.push(self.dot(other, i, j));
                j += 1;
            }
            assert((i + 1) * n == i * n + n) by (nonlinear_arith);
            i += 1;
        }
        assert(out@ =~= want);
        out
    }

    /// The product of a matrix of side 4 with a tuple, taken as a column.
    pub fn multiply_tuple(&self, t: Tuple) -> (r: Vec<Formula>)
        requires
            self.spec_size() == 4,
        ensures
            r@ == spec_tuple_product(self@, t),
    {
        let n: usize = self.size();
        let ghost want = spec_tuple_product(self@, t);
        let mut out: Vec<Formula> = Vec::new();
        let mut k: usize = 0;
        while k < 4
            invariant
                self.wf(),
                self.spec_size() == 4,
                k <= 4,
                want == spec_tuple_product(self@, t),
                out@.len() == k,
                forall|i: int| 0 <= i < out@.len() ==> out@[i] == want[i],
            decreases 4 - k,
        {
            let first = Formula::product(self.at(k, 0), t.0);
            let second = Formula::product(self.at(k, 1), t.1);
            let third = Formula::product(self.at(k, 2), t.2);
            let fourth = Formula::product(self.at(k, 3), t.3);
            out.push(
                Formula::Sum(
                    Box::new(
                        Formula::Sum(
                            Box::new(Formula::Sum(Box::new(first), Box::new(second))),
                            Box::new(third),
                        ),
                    ),
                    Box::new(fourth),
                ),
            );
            k += 1;
        }
        assert(out@ =~= want);
        out
    }
}

/// The product of a matrix and a right-hand operand, given what the operand
/// could be read as: the product with a matrix where it is one, else the
/// product with a tuple where it is one, else an error.
pub fn mul(a: &Matrix, as_matrix: Option<Matrix>, as_tuple: Option<Tuple>) -> (r: Result<
    Product,
    MatrixError,
>)
    requires
        as_matrix matches Some(m) ==> m.spec_size() == a.spec_size(),
        as_matrix is None && as_tuple is Some ==> a.spec_size() == 4,
    ensures
        match (as_matrix, as_tuple) {
            (Some(m), _) => r matches Ok(Product::Matrix(v)) && v@ == spec_matrix_product(
                a@,
                m@,
                a.spec_size(),
            ),
            (None, Some(t)) => r matches Ok(Product::Tuple(v)) && v@ == spec_tuple_product(a@, t),
            (None, None) => r == Err::<Product, MatrixError>(MatrixError::InvalidOperation),
        },
{
    match as_matrix {
        Some(m) => Ok(Product::Matrix(a.multiply(&m))),
        None => match as_tuple {
            Some(t) => Ok(Product::Tuple(a.multiply_tuple(t))),
            None => Err(MatrixError::InvalidOperation),
        },
    }
}

} // verus!

use crate::error::MatrixError;
use crate::formula::Formula;
use crate::matrix::{lemma_cell, spec_submatrix, Matrix};
use crate::scalar::Scalar;
use vstd::prelude::*;

verus! {

/// The determinant of the matrix of side `n` with the given entries. For side
/// 2 it is the product of the diagonal minus the product of the other two
/// entries. For a larger side it is the expansion along the first row: the
/// sum, from left to right, of each entry of that row times its cofactor.
pub open spec fn spec_determinant(entries: Seq<Scalar>, n: nat) -> Formula
    decreases n, 3nat, 0nat,
{
    if n <= 2 {
        Formula::Difference(
            Box::new(Formula::spec_product(entries[0], entries[3])),
            Box::new(Formula::spec_product(entries[1], entries[2])),
        )
    } else {
        spec_expansion(entries, n, n)
    }
}

/// The sum of the first `count` terms of the expansion along the first row,
/// added from left to right.
pub open spec fn spec_expansion(entries: Seq<Scalar>, n: nat, count: nat) -> Formula
    decreases n, 2nat, count,
{
    if count <= 1 {
        spec_expansion_term(entries, n, 0)
    } else {
        Formula::Sum(
            Box::new(spec_expansion(entries, n, (count - 1) as nat)),
            Box::new(spec_expansion_term(entries, n, count - 1)),
        )
    }
}

/// One term of the expansion: the entry in column `col` of the first row
/// times its cofactor.
pub open spec fn spec_expansion_term(entries: Seq<Scalar>, n: nat, col: int) -> Formula
    decreases n, 1nat, 1nat,
{
    Formula::Product(
        Box::new(Formula::Value(entries[col])),
        Box::new(spec_cofactor(entries, n, 0, col)),
    )
}

/// The cofactor: the minor itself where the row and the column add up to an
/// even number, the minor negated where they add up to an odd one.
pub open spec fn spec_cofactor(entries: Seq<Scalar>, n: nat, row: int, col: int) -> Formula
    decreases n, 1nat, 0nat,
{
    if (row + col) % 2 == 0 {
        spec_minor(entries, n, row, col)
    } else {
        Formula::Negated(Box::new(spec_minor(entries, n, row, col)))
    }
}

/// The minor: the determinant of what is left when the row and the column
/// are deleted.
pub open spec fn spec_minor(entries: Seq<Scalar>, n: nat, row: int, col: int) -> Formula
    decreases n, 0nat, 0nat,
{
    if n == 0 {
        Formula::Value(Scalar { bits: 0 })
    } else {
        spec_determinant(spec_submatrix(entries, n, row, col), (n - 1) as nat)
    }
}

/// The entries of the inverse, row by row, of the matrix of side `n` with the
/// given entries and the given determinant: the entry in row `j` and column
/// `i` is the cofactor in row `i` and column `j`, divided by the determinant.
pub open spec fn spec_inverse(entries: Seq<Scalar>, n: nat, determinant: Scalar) -> Seq<Formula> {
    Seq::new(
        n * n,
        |k: int|
            Formula::Quotient(
                Box::new(spec_cofactor(entries, n, k % n as int, k / n as int)),
                Box::new(Formula::Value(determinant)),
            ),
    )
}

impl Matrix {
    /// The determinant, by expansion along the first row.
    pub fn determinant(&self) -> (r: Formula)
        ensures
            r == spec_determinant(self@, self.spec_size()),
        decreases self.spec_size(), 3nat,
    {
        let n: usize = self.size();
        if n == 2 {
            proof {
                lemma_cell(2, 0, 0);
                lemma_cell(2, 0, 1);
                lemma_cell(2, 1, 0);
                lemma_cell(2, 1, 1);
            }
            Formula::Difference(
                Box::new(Formula::product(self.at(0, 0), self.at(1, 1))),
                Box::new(Formula::product(self.at(0, 1), self.at(1, 0))),
            )
        } else {
            let mut sum = self.expansion_term(0);
            let mut j: usize = 1;
            while j < n
                invariant
                    self.wf(),
                    n == self.spec_size(),
                    3 <= n <= 4,
                    1 <= j <= n,
                    sum == spec_expansion(self@, n as nat, j as nat),
                decreases n - j,
            {
                sum = Formula::Sum(Box::new(sum), Box::new(self.expansion_term(j)));
                j += 1;
            }
            sum
        }
    }

    /// One term of the expansion along the first row.
    fn expansion_term(&self, col: usize) -> (r: Formula)
        requires
            self.spec_size() >= 3,
            col < self.spec_size(),
        ensures
            r == spec_expansion_term(self@, self.spec_size(), col as int),
        decreases self.spec_size(), 2nat,
    {
        let n: usize = self.size();
        proof {
            lemma_cell(n as int, 0, col as int);
        }
        Formula::Product(Box::new(Formula::Value(self.at(0, col))), Box::new(self.cofactor(0, col)))
    }

    /// The minor of the entry in the given row and column.
    pub fn minor(&self, row: usize, col: usize) -> (r: Formula)
        requires
            self.spec_size() >= 3,
            row < self.spec_size(),
            col < self.spec_size(),
        ensures
            r == spec_minor(self@, self.spec_size(), row as int, col as int),
        decreases self.spec_size(), 0nat,
    {
        self.submatrix(row, col).determinant()
    }

    /// The cofactor of the entry in the given row and column.
    pub fn cofactor(&self, row: usize, col: usize) -> (r: Formula)
        requires
            self.spec_size() >= 3,
            row < self.spec_size(),
            col < self.spec_size(),
        ensures
            r == spec_cofactor(self@, self.spec_size(), row as int, col as int),
        decreases self.spec_size(), 1nat,
    {
        let minor = self.minor(row, col);
        if row % 2 == col % 2 {
            minor
        } else {
            Formula::Negated(Box::new(minor))
        }
    }

    /// The entries of the inverse, row by row, given the determinant. There
    /// is no inverse where the determinant is a zero; it is held against zero
    /// exactly, with no tolerance.
    pub fn inverse(&self, determinant: Scalar) -> (r: Result<Vec<Formula>, MatrixError>)
        requires
            self.spec_size() >= 3 || determinant.spec_is_zero(),
        ensures
            determinant.spec_is_zero() ==> r == Err::<Vec<Formula>, MatrixError>(
                MatrixError::NotInvertible,
            ),
            !determinant.spec_is_zero() ==> r is Ok && r->Ok_0@ == spec_inverse(
                self@,
                self.spec_size(),
                determinant,
            ),
    {
        if determinant.is_zero() {
            return Err(MatrixError::NotInvertible);
        }
        let n: usize = self.size();
        let ghost want = spec_inverse(self@, n as nat, determinant);
        let mut out: Vec<Formula> = Vec::new();
        let mut j: usize = 0;
        while j < n
            invariant
                self.wf(),
                n == self.spec_size(),
                3 <= n <= 4,
                j <= n,
                want == spec_inverse(self@, n as nat, determinant),
                out@.len() == j * n,
                forall|k: int| 0 <= k < out@.len() ==> out@[k] == want[k],
            decreases n - j,
        {
            let mut i: usize = 0;
            while i < n
                invariant
                    self.wf(),
                    n == self.spec_size(),
                    3 <= n <= 4,
                    j < n,
                    i <= n,
                    want == spec_inverse(self@, n as nat, determinant),
                    out@.len() == j * n + i,
                    forall|k: int| 0 <= k < out@.len() ==> out@[k] == want[k],
                decreases n - i,
            {
                proof {
                    lemma_cell(n as int, j as int, i as int);
                }
                out.push(
                    Formula::Quotient(
                        Box::new(self.cofactor(i, j)),
                        Box::new(Formula::Value(determinant)),
                    ),
                );
                i += 1;
            }
            assert((j + 1) * n == j * n + n) by (nonlinear_arith);
            j += 1;
        }
        assert(out@ =~= want);
        Ok(out)
    }
}

} // verus!

use crate::error::MatrixError;
use crate::scalar::Scalar;
use vstd::arithmetic::div_mod::{lemma_fundamental_div_mod, lemma_fundamental_div_mod_converse};
use vstd::prelude::*;

verus! {

/// The side of the square matrix that `count` scalars fill, where there is
/// one: 4 scalars make a matrix of side 2, 9 of side 3, 16 of side 4.
pub open spec fn spec_side(count: int) -> Option<nat> {
    if count == 16 {
        Some(4nat)
    } else if count == 9 {
        Some(3nat)
    } else if count == 4 {
        Some(2nat)
    } else {
        None
    }
}

/// The one rule by which every way of building a matrix finds its side.
pub fn decode_size(count: usize) -> (r: Result<usize, MatrixError>)
    ensures
        match spec_side(count as int) {
            Some(n) => r == Ok::<usize, MatrixError>(n as usize),
            None => r == Err::<usize, MatrixError>(MatrixError::InvalidMatrix),
        },
{
    if count == 16 {
        Ok(4)
    } else if count == 9 {
        Ok(3)
    } else if count == 4 {
        Ok(2)
    } else {
        Err(MatrixError::InvalidMatrix)
    }
}

/// The entries of the transpose of the matrix of side `n` with the given
/// entries: what stands in row `i` and column `j` stood in row `j` and column
/// `i`.
pub open spec fn spec_transposed(entries: Seq<Scalar>, n: nat) -> Seq<Scalar> {
    Seq::new(n * n, |k: int| entries[(k % n as int) * n + k / n as int])
}

/// The index that the `i`-th of the remaining rows, or columns, had before
/// the one numbered `removed` was deleted.
pub open spec fn spec_skip(i: int, removed: int) -> int {
    if i < removed {
        i
    } else {
        i + 1
    }
}

/// The entries of the matrix of side `n - 1` that is left of the matrix of
/// side `n` with the given entries when one row and one column are deleted.
pub open spec fn spec_submatrix(entries: Seq<Scalar>, n: nat, row: int, col: int) -> Seq<Scalar> {
    Seq::new(
        ((n - 1) * (n - 1)) as nat,
        |k: int| entries[spec_skip(k / (n - 1), row) * n + spec_skip(k % (n - 1), col)],
    )
}

/// In a square of side `n` stored row by row, the cell in row `i` and column
/// `j` has the index `i * n + j`, and the index gives both back.
pub proof fn lemma_cell(n: int, i: int, j: int)
    requires
        0 <= i < n,
        0 <= j < n,
    ensures
        0 <= i * n + j < n * n,
        (i * n + j) / n == i,
        (i * n + j) % n == j,
{
    lemma_fundamental_div_mod_converse(i * n + j, n, i, j);
    assert(0 <= i * n + j < n * n) by (nonlinear_arith)
        requires
            0 <= i < n,
            0 <= j < n,
    ;
}

/// Every index below `n * n` is that of one cell of the square of side `n`.
pub proof fn lemma_index(n: int, k: int)
    requires
        0 < n,
        0 <= k < n * n,
    ensures
        0 <= k / n < n,
        0 <= k % n < n,
        k == (k / n) * n + k % n,
{
    lemma_fundamental_div_mod(k, n);
    assert(0 <= k / n < n) by (nonlinear_arith)
        requires
            0 <= k < n * n,
            n > 0,
            k == n * (k / n) + k % n,
            0 <= k % n < n,
    ;
    assert(n * (k / n) == (k / n) * n) by (nonlinear_arith);
}

/// A square matrix of side 2, 3 or 4, its entries stored row by row.
#[derive(Debug, PartialEq, Eq)]
pub struct Matrix {
    data: Vec<Scalar>,
    size: usize,
}

impl View for Matrix {
    type V = Seq<Scalar>;

    /// The entries, row by row.
    closed spec fn view(&self) -> Seq<Scalar> {
        self.data@
    }
}

impl Matrix {
    /// The side of the matrix.
    pub closed spec fn spec_size(&self) -> nat {
        self.size as nat
    }

    /// What holds of every matrix: it has as many entries as its side asks
    /// for, and its side is 2, 3 or 4.
    #[verifier::type_invariant]
    pub open spec fn wf(&self) -> bool {
        spec_side(self@.len() as int) == Some(self.spec_size())
    }

    /// The entry in the given row and column, both counted from zero.
    pub open spec fn spec_at(&self, row: int, col: int) -> Scalar {
        self@[row * self.spec_size() + col]
    }

    /// The matrix of the given side whose entries are all positive zero.
    pub fn new(size: usize) -> (r: Matrix)
        requires
            2 <= size <= 4,
        ensures
            r.wf(),
            r.spec_size() == size,
            r@ == Seq::new((size * size) as nat, |k: int| Scalar { bits: 0 }),
    {
        assert(size * size == if size == 2 {
            4int
        } else if size == 3 {
            9int
        } else {
            16int
        }) by (nonlinear_arith)
            requires
                2 <= size <= 4,
        ;
        let count: usize = size * size;
        let mut data: Vec<Scalar> = Vec::new();
        let mut k: usize = 0;
        while k < count
            invariant
                k <= count,
                data@.len() == k,
                forall|i: int| 0 <= i < k ==> data@[i] == (Scalar { bits: 0 }),
            decreases count - k,
        {
            data.push(Scalar::zero());
            k += 1;
        }
        assert(data@ =~= Seq::new((size * size) as nat, |k: int| Scalar { bits: 0 }));
        Matrix { data, size }
    }

    /// Builds a matrix from its entries, given row by row. The side follows
    /// from their number.
    pub fn from_scalars(data: Vec<Scalar>) -> (r: Result<Matrix, MatrixError>)
        ensures
            match spec_side(data@.len() as int) {
                Some(n) => r is Ok && r->Ok_0.wf() && r->Ok_0.spec_size() == n && r->Ok_0@
                    == data@,
                None => r == Err::<Matrix, MatrixError>(MatrixError::InvalidMatrix),
            },
    {
        match decode_size(data.len()) {
            Ok(size) => Ok(Matrix { data, size }),
            Err(e) => Err(e),
        }
    }

    /// The side of the matrix.
    pub fn size(&self) -> (r: usize)
        ensures
            r == self.spec_size(),
            2 <= r <= 4,
            self.wf(),
    {
        proof {
            use_type_invariant(self);
        }
        self.size
    }

    /// The entry in the given row and column.
    pub fn at(&self, row: usize, col: usize) -> (r: Scalar)
        requires
            row < self.spec_size(),
            col < self.spec_size(),
        ensures
            r == self.spec_at(row as int, col as int),
    {
        proof {
            use_type_invariant(self);
        }
        let n: usize = self.size;
        assert(row * n + col < n * n) by (nonlinear_arith)
            requires
                row < n,
                col < n,
        ;
        self.data[row * n + col]
    }

    /// Replaces the entry in the given row and column.
    pub fn set(&mut self, row: usize, col: usize, value: Scalar)
        requires
            row < old(self).spec_size(),
            col < old(self).spec_size(),
        ensures
            final(self).wf(),
            final(self).spec_size() == old(self).spec_size(),
            final(self)@ == old(self)@.update(row * old(self).spec_size() + col, value),
    {
        proof {
            use_type_invariant(&*self);
        }
        let n: usize = self.size;
        assert(row * n + col < n * n) by (nonlinear_arith)
            requires
                row < n,
                col < n,
        ;
        self.data[row * n + col] = value;
    }

    /// All the entries, row by row.
    pub fn values(&self) -> (r: Vec<Scalar>)
        ensures
            r@ == self@,
    {
        let mut out: Vec<Scalar> = Vec::new();
        let mut k: usize = 0;
        while k < self.data.len()
            invariant
                k <= self.data@.len(),
                out@ == self.data@.subrange(0, k as int),
            decreases self.data@.len() - k,
        {
            out.push(self.data[k]);
            assert(out@ =~= self.data@.subrange(0, k + 1));
            k += 1;
        }
        assert(out@ =~= self.data@);
        out
    }

    /// The matrix whose rows are the columns of this one.
    pub fn transpose(&self) -> (r: Matrix)
        ensures
            r.wf(),
            r.spec_size() == self.spec_size(),
            r@ == spec_transposed(self@, self.spec_size()),
            forall|i: int, j: int|
                0 <= i < self.spec_size() && 0 <= j < self.spec_size() ==> #[trigger] r.spec_at(
                    i,
                    j,
                ) == self.spec_at(j, i),
    {
        proof {
            use_type_invariant(self);
        }
        let n: usize = self.size;
        let ghost want = spec_transposed(self@, n as nat);
        let mut data: Vec<Scalar> = Vec::new();
        let mut i: usize = 0;
        while i < n
            invariant
                self.wf(),
                n == self.size,
                2 <= n <= 4,
                i <= n,
                want == spec_transposed(self@, n as nat),
                data@.len() == i * n,
                forall|k: int| 0 <= k < data@.len() ==> data@[k] == want[k],
            decreases n - i,
        {
            let mut j: usize = 0;
            while j < n
                invariant
                    self.wf(),
                    n == self.size,
                    2 <= n <= 4,
                    i < n,
                    j <= n,
                    want == spec_transposed(self@, n as nat),
                    data@.len() == i * n + j,
                    forall|k: int| 0 <= k < data@.len() ==> data@[k] == want[k],
                decreases n - j,
            {
                proof {
                    lemma_cell(n as int, i as int, j as int);
                    lemma_cell(n as int, j as int, i as int);
                }
                data.push(self.data[j * n + i]);
                j += 1;
            }
            assert((i + 1) * n == i * n + n) by (nonlinear_arith);
            i += 1;
        }
        assert(n * n == self@.len()) by (nonlinear_arith)
            requires
                (n == 2 && self@.len() == 4) || (n == 3 && self@.len() == 9) || (n == 4
                    && self@.len() == 16),
        ;
        assert(data@ =~= want);
        let r = Matrix { data, size: n };
        assert forall|i: int, j: int| 0 <= i < n && 0 <= j < n implies #[trigger] r.spec_at(i, j)
            == self.spec_at(j, i) by {
            lemma_cell(n as int, i, j);
            lemma_cell(n as int, j, i);
        }
        r
    }

    /// The matrix that is left when one row and one column are deleted; the
    /// rows and columns that remain keep their order.
    pub fn submatrix(&self, row: usize, col: usize) -> (r: Matrix)
        requires
            self.spec_size() >= 3,
            row < self.spec_size(),
            col < self.spec_size(),
        ensures
            r.wf(),
            r.spec_size() == self.spec_size() - 1,
            r@ == spec_submatrix(self@, self.spec_size(), row as int, col as int),
            forall|i: int, j: int|
                0 <= i < r.spec_size() && 0 <= j < r.spec_size() ==> #[trigger] r.spec_at(i, j)
                    == self.spec_at(spec_skip(i, row as int), spec_skip(j, col as int)),
    {
        proof {
            use_type_invariant(self);
        }
        let n: usize = self.size;
        let m: usize = n - 1;
        let ghost want = spec_submatrix(self@, n as nat, row as int, col as int);
        let mut data: Vec<Scalar> = Vec::new();
        let mut i: usize = 0;
        while i < m
            invariant
                self.wf(),
                n == self.size,
                3 <= n <= 4,
                m == n - 1,
                row < n,
                col < n,
                i <= m,
                want == spec_submatrix(self@, n as nat, row as int, col as int),
                data@.len() == i * m,
                forall|k: int| 0 <= k < data@.len() ==> data@[k] == want[k],
            decreases m - i,
        {
            let from_row: usize = if i < row {
                i
            } else {
                i + 1
            };
            let mut j: usize = 0;
            while j < m
                invariant
                    self.wf(),
                    n == self.size,
                    3 <= n <= 4,
                    m == n - 1,
                    row < n,
                    col < n,
                    i < m,
                    j <= m,
                    from_row == spec_skip(i as int, row as int),
                    want == spec_submatrix(self@, n as nat, row as int, col as int),
                    data@.len() == i * m + j,
                    forall|k: int| 0 <= k < data@.len() ==> data@[k] == want[k],
                decreases m - j,
            {
                let from_col: usize = if j < col {
                    j
                } else {
                    j + 1
                };
                proof {
                    lemma_cell(m as int, i as int, j as int);
                    lemma_cell(n as int, from_row as int, from_col as int);
                }
                data.push(self.data[from_row * n + from_col]);
                j += 1;
            }
            assert((i + 1) * m == i * m + m) by (nonlinear_arith);
            i += 1;
        }
        assert(m * m == (n - 1) * (n - 1));
        assert(m * m == if m == 2 {
            4int
        } else {
            9int
        }) by (nonlinear_arith)
            requires
                2 <= m <= 3,
        ;
        assert(data@ =~= want);
        let r = Matrix { data, size: m };
        assert forall|i: int, j: int| 0 <= i < m && 0 <= j < m implies #[trigger] r.spec_at(i, j)
            == self.spec_at(spec_skip(i, row as int), spec_skip(j, col as int)) by {
            lemma_cell(m as int, i, j);
        }
        r
    }
}

/// Transposing a matrix twice gives the matrix back, entry for entry and bit
/// for bit.
pub proof fn lemma_transpose_twice(m: Matrix)
    requires
        m.wf(),
    ensures
        spec_transposed(spec_transposed(m@, m.spec_size()), m.spec_size()) == m@,
{
    let n = m.spec_size() as int;
    let once = spec_transposed(m@, m.spec_size());
    let twice = spec_transposed(once, m.spec_size());
    assert(m@.len() == n * n) by (nonlinear_arith)
        requires
            (n == 2 && m@.len() == 4) || (n == 3 && m@.len() == 9) || (n == 4 && m@.len() == 16),
    ;
    assert forall|k: int| 0 <= k < n * n implies twice[k] == m@[k] by {
        lemma_index(n, k);
        lemma_cell(n, k % n, k / n);
    }
    assert(twice =~= m@);
}

} // verus!

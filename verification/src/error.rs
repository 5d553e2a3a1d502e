use vstd::prelude::*;

verus! {

/// The ways in which an operation of this library can fail.
#[derive(Clone, Copy, Debug, PartialEq, Eq, Structural)]
pub enum MatrixError {
    /// A matrix was to be built from a number of scalars other than 4, 9 or 16.
    InvalidMatrix,
    /// The inverse of a matrix whose determinant is zero was asked for.
    NotInvertible,
    /// The right-hand operand of a product was neither a matrix nor a tuple.
    InvalidOperation,
}

impl MatrixError {
    /// The lower-case name under which the error is reported to a host.
    pub fn name(&self) -> (r: &'static str)
        ensures
            r@ == self.spec_name(),
    {
        match self {
            MatrixError::InvalidMatrix => "invalid_matrix",
            MatrixError::NotInvertible => "not_invertable",
            MatrixError::InvalidOperation => "invalid_operation",
        }
    }

    pub open spec fn spec_name(&self) -> Seq<char> {
        match self {
            MatrixError::InvalidMatrix => "invalid_matrix"@,
            MatrixError::NotInvertible => "not_invertable"@,
            MatrixError::InvalidOperation => "invalid_operation"@,
        }
    }
}

} // verus!

use crate::scalar::Scalar;
use vstd::prelude::*;

verus! {

/// What to compute from scalars, and in which order: the library says it, and
/// the caller, who has the arithmetic of the scalars, computes it. The order
/// counts, for sums and products of binary32 numbers are rounded.
#[derive(Debug, PartialEq, Eq)]
pub enum Formula {
    /// A scalar that is given.
    Value(Scalar),
    /// The value of the formula with the opposite sign.
    Negated(Box<Formula>),
    /// The first value plus the second.
    Sum(Box<Formula>, Box<Formula>),
    /// The first value minus the second.
    Difference(Box<Formula>, Box<Formula>),
    /// The first value times the second.
    Product(Box<Formula>, Box<Formula>),
    /// The first value divided by the second.
    Quotient(Box<Formula>, Box<Formula>),
}

impl Formula {
    /// The product of two given scalars.
    pub open spec fn spec_product(a: Scalar, b: Scalar) -> Formula {
        Formula::Product(Box::new(Formula::Value(a)), Box::new(Formula::Value(b)))
    }

    /// The product of two given scalars.
    pub fn product(a: Scalar, b: Scalar) -> (r: Formula)
        ensures
            r == Formula::spec_product(a, b),
    {
        Formula::Product(Box::new(Formula::Value(a)), Box::new(Formula::Value(b)))
    }
}

} // verus!

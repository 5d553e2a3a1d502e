use crate::formula::Formula;
use crate::matrix::Matrix;
use crate::scalar::Scalar;
use vstd::prelude::*;

verus! {

/// The differences of the entries of two matrices, pair by pair in the order
/// of the entries, as far as both have entries.
pub open spec fn spec_differences(a: Seq<Scalar>, b: Seq<Scalar>) -> Seq<Formula> {
    Seq::new(
        if a.len() <= b.len() {
            a.len()
        } else {
            b.len()
        },
        |k: int|
            Formula::Difference(Box::new(Formula::Value(a[k])), Box::new(Formula::Value(b[k]))),
    )
}

/// True when every one of the given differences is within the tolerance.
pub open spec fn spec_all_within_tolerance(differences: Seq<Scalar>) -> bool {
    forall|i: int| 0 <= i < differences.len() ==> (#[trigger] differences[i]).spec_within_tolerance()
}

impl Matrix {
    /// The differences that approximate equality with another matrix is
    /// decided by.
    pub fn differences(&self, other: &Matrix) -> (r: Vec<Formula>)
        ensures
            r@ == spec_differences(self@, other@),
    {
        let mine = self.values();
        let theirs = other.values();
        let ghost want = spec_differences(self@, other@);
        let mut out: Vec<Formula> = Vec::new();
        let mut k: usize = 0;
        while k < mine.len() && k < theirs.len()
            invariant
                mine@ == self@,
                theirs@ == other@,
                k <= mine@.len(),
                k <= theirs@.len(),
                want == spec_differences(self@, other@),
                out@.len() == k,
                forall|i: int| 0 <= i < k ==> out@[i] == want[i],
            decreases mine@.len() - k,
        {
            out.push(
                Formula::Difference(
                    Box::new(Formula::Value(mine[k])),
                    Box::new(Formula::Value(theirs[k])),
                ),
            );
            k += 1;
        }
        assert(out@ =~= want);
        out
    }
}

/// Whether two matrices are approximately equal, given the values of the
/// differences of their entries: they are when no difference is a NaN or an
/// infinity and none is larger than the tolerance.
pub fn approx_eq(differences: &Vec<Scalar>) -> (r: bool)
    ensures
        r == spec_all_within_tolerance(differences@),
{
    let mut i: usize = 0;
    while i < differences.len()
        invariant
            i <= differences@.len(),
            forall|k: int| 0 <= k < i ==> (#[trigger] differences@[k]).spec_within_tolerance(),
        decreases differences@.len() - i,
    {
        if !differences[i].within_tolerance() {
            return false;
        }
        i += 1;
    }
    true
}

} // verus!

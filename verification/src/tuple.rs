use crate::scalar::Scalar;
use vstd::prelude::*;

verus! {

/// Four scalars in order: a point, a vector or a colour.
#[derive(Clone, Copy, Debug, PartialEq, Eq, Structural)]
pub struct Tuple(pub Scalar, pub Scalar, pub Scalar, pub Scalar);

impl Tuple {
    /// The four components in order.
    pub open spec fn spec_components(self) -> Seq<Scalar> {
        seq![self.0, self.1, self.2, self.3]
    }

    /// The tuple that the first four of the given scalars make.
    pub fn decode(parts: &Vec<Scalar>) -> (r: Tuple)
        requires
            parts@.len() >= 4,
        ensures
            r == Tuple(parts@[0], parts@[1], parts@[2], parts@[3]),
    {
        Tuple(parts[0], parts[1], parts[2], parts[3])
    }

    /// The four components in order.
    pub fn encode(&self) -> (r: Vec<Scalar>)
        ensures
            r@ == self.spec_components(),
    {
        let mut out: Vec<Scalar> = Vec::new();
        out.push(self.0);
        out.push(self.1);
        out.push(self.2);
        out.push(self.3);
        assert(out@ =~= self.spec_components());
        out
    }
}

} // verus!

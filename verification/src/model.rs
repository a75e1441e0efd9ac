//! What a stepper asks of the system it integrates.
use vstd::prelude::*;
use crate::scalar::{Scalar, Vector};

verus! {

/// A vector field produced a component that is not an ordinary number.
#[derive(Debug, Clone, Copy, PartialEq, Eq, Structural)]
pub struct NonFinite;

/// Whether every component of `x` is an ordinary number.
pub open spec fn all_finite<S: Scalar>(x: Seq<S>) -> bool {
    forall|n: int| 0 <= n < x.len() ==> (#[trigger] x[n]).is_finite_spec()
}

/// An autonomous system of ordinary differential equations `x' = f(x)` over
/// the scalars `S`.
pub trait Explicit<S: Scalar> {
    /// The number of components of a state.
    spec fn size(&self) -> nat;

    /// The vector field `f`.
    spec fn field(&self, x: Vector<S>) -> Vector<S>;

    fn model_size(&self) -> (n: usize)
        ensures
            n == self.size(),
    ;

    /// Overwrites the state `x` with `f(x)`. Fails, leaving `x` with
    /// unspecified contents of the same length, exactly when some component
    /// of `f(x)` is not an ordinary number.
    fn rhs(&self, x: &mut Vec<S>) -> (r: Result<(), NonFinite>)
        requires
            old(x)@.len() == self.size(),
        ensures
            final(x)@.len() == old(x)@.len(),
            r is Ok <==> all_finite(self.field(old(x)@)),
            r is Ok ==> final(x)@ == self.field(old(x)@),
    ;
}

/// Succeeds exactly when every component of `x` is an ordinary number.
pub fn check_finite<S: Scalar>(x: &Vec<S>) -> (r: Result<(), NonFinite>)
    ensures
        r is Ok <==> all_finite(x@),
{
    let len = x.len();
    let mut n: usize = 0;
    while n < len
        invariant
            len == x@.len(),
            n <= len,
            forall|m: int| 0 <= m < n ==> (#[trigger] x@[m]).is_finite_spec(),
        decreases len - n,
    {
        if !x[n].is_finite() {
            return Err(NonFinite);
        }
        n += 1;
    }
    Ok(())
}

} // verus!

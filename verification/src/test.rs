//! The harmonic oscillator `x'' = -x`, a system whose solutions are known.
use vstd::prelude::*;
use crate::implicit::Jacobian;
use crate::model::{Explicit, NonFinite, check_finite};
use crate::scalar::{Scalar, rows};

verus! {

/// The harmonic oscillator with the state `(x, u)`: position and velocity.
#[derive(Debug, Clone, Copy)]
pub struct Test;

impl Default for Test {
    fn default() -> (r: Self)
        ensures
            r == Test,
    {
        Self
    }
}

impl<S: Scalar> Explicit<S> for Test {
    open spec fn size(&self) -> nat {
        2
    }

    /// `f(x, u) = (u, -x)`.
    open spec fn field(&self, x: Seq<S>) -> Seq<S> {
        seq![x[1], x[0].neg_spec()]
    }

    fn model_size(&self) -> (n: usize) {
        2
    }

    fn rhs(&self, xs: &mut Vec<S>) -> (r: Result<(), NonFinite>) {
        let x = xs[0];
        let u = xs[1];
        xs[0] = u;
        xs[1] = x.neg();
        proof {
            assert(xs@ =~= seq![old(xs)@[1], old(xs)@[0].neg_spec()]);
        }
        check_finite(xs)
    }
}

impl<S: Scalar> Jacobian<S> for Test {
    /// The constant matrix with the rows `(0, 1)` and `(-1, 0)`.
    open spec fn derivative(&self, x: Seq<S>) -> Seq<Seq<S>> {
        seq![seq![S::zero_spec(), S::one_spec()], seq![S::one_spec().neg_spec(), S::zero_spec()]]
    }

    fn jacobian(&self, xs: &Vec<S>, js: &mut Vec<Vec<S>>) {
        js[0][0] = S::zero();
        js[0][1] = S::one();
        js[1][0] = S::one().neg();
        js[1][1] = S::zero();
        proof {
            let d = seq![
                seq![S::zero_spec(), S::one_spec()],
                seq![S::one_spec().neg_spec(), S::zero_spec()],
            ];
            assert(rows(js@)[0] =~= d[0]);
            assert(rows(js@)[1] =~= d[1]);
            assert(rows(js@) =~= d);
        }
    }
}

} // verus!

//! Implicit time stepping for ordinary differential equations: the
//! three-stage Gauss-Legendre collocation method of order six, whose stage
//! equations are solved by Newton-Raphson iteration.
//!
//! The stepper [`implicit::RKGL36`] is written against capabilities: the
//! numbers of [`scalar`], and a system that gives its vector field
//! ([`model::Explicit`]) and the derivative of it ([`implicit::Jacobian`]).
//! Two systems come with it: the two-body problem of [`Kepler`] and the
//! harmonic oscillator of [`test::Test`].
use vstd::prelude::*;
use crate::implicit::Jacobian;
use crate::model::{Explicit, NonFinite, check_finite};
use crate::scalar::{Real, Scalar, rows};
use crate::tableau::{ratio, ratio_spec};

pub mod implicit;
pub mod model;
pub mod scalar;
pub mod stage;
pub mod tableau;
pub mod test;

verus! {

/// The planar two-body problem in the reduced form `q'' = -q / |q|³`, with
/// the state `(x, y, v, u)`: the position `(x, y)` and the velocity `(v, u)`.
#[derive(Debug, Clone, Copy)]
pub struct Kepler<R> {
    /// The eccentricity of the orbit that is followed.
    pub e: R,
}

impl<R: Real> Default for Kepler<R> {
    /// The orbit of eccentricity `9/10`.
    fn default() -> (r: Self)
        ensures
            r.e == ratio_spec::<R>(9, 10),
    {
        Self { e: ratio::<R>(9, 10) }
    }
}

impl<R> Kepler<R> {
    pub fn new(e: R) -> (r: Self)
        ensures
            r.e == e,
    {
        Self { e }
    }
}

/// The distance `√(x·x + y·y)` of the position `(x, y)` from the centre.
pub open spec fn radius<S: Scalar>(x: S, y: S) -> S {
    x.mul_spec(x).add_spec(y.mul_spec(y)).sqrt_spec()
}

/// The derivative of the acceleration along one axis by the position on the
/// same axis, `(3·q² - r²) / r⁵`.
pub open spec fn pull_along<S: Scalar>(q: S, r: S) -> S {
    q.powi_spec(2).mul_real_spec(S::Real::from_u64_spec(3)).sub_spec(r.powi_spec(2)).div_spec(
        r.powi_spec(5),
    )
}

/// The derivative of the acceleration along one axis by the position on the
/// other, `3·x·y / r⁵`.
pub open spec fn pull_across<S: Scalar>(x: S, y: S, r: S) -> S {
    x.mul_real_spec(S::Real::from_u64_spec(3)).mul_spec(y).div_spec(r.powi_spec(5))
}

impl<S: Scalar> Explicit<S> for Kepler<S::Real> {
    open spec fn size(&self) -> nat {
        4
    }

    /// `f(x, y, v, u) = (v, u, -x / r³, -y / r³)`.
    open spec fn field(&self, x: Seq<S>) -> Seq<S> {
        let r = radius(x[0], x[1]);
        seq![
            x[2],
            x[3],
            x[0].neg_spec().div_spec(r.powi_spec(3)),
            x[1].neg_spec().div_spec(r.powi_spec(3)),
        ]
    }

    fn model_size(&self) -> (n: usize) {
        4
    }

    fn rhs(&self, xs: &mut Vec<S>) -> (r: Result<(), NonFinite>) {
        let x = xs[0];
        let y = xs[1];
        let v = xs[2];
        let u = xs[3];
        let r = x.mul(x).add(y.mul(y)).sqrt();
        xs[0] = v;
        xs[1] = u;
        xs[2] = x.neg().div(r.powi(3));
        xs[3] = y.neg().div(r.powi(3));
        proof {
            let old_x = old(xs)@;
            let rr = radius(old_x[0], old_x[1]);
            assert(xs@ =~= seq![
                old_x[2],
                old_x[3],
                old_x[0].neg_spec().div_spec(rr.powi_spec(3)),
                old_x[1].neg_spec().div_spec(rr.powi_spec(3)),
            ]);
        }
        check_finite(xs)
    }
}

impl<S: Scalar> Jacobian<S> for Kepler<S::Real> {
    /// The velocity rows are constant; the acceleration rows hold the
    /// derivatives of `-q / |q|³` by the position.
    open spec fn derivative(&self, x: Seq<S>) -> Seq<Seq<S>> {
        let r = radius(x[0], x[1]);
        let o = S::zero_spec();
        let i = S::one_spec();
        seq![
            seq![o, o, i, o],
            seq![o, o, o, i],
            seq![pull_along(x[0], r), pull_across(x[0], x[1], r), o, o],
            seq![pull_across(x[0], x[1], r), pull_along(x[1], r), o, o],
        ]
    }

    fn jacobian(&self, xs: &Vec<S>, js: &mut Vec<Vec<S>>) {
        let x = xs[0];
        let y = xs[1];
        let r = x.mul(x).add(y.mul(y)).sqrt();
        let three = S::Real::from_u64(3);
        js[0][0] = S::zero();
        js[0][1] = S::zero();
        js[0][2] = S::one();
        js[0][3] = S::zero();
        js[1][0] = S::zero();
        js[1][1] = S::zero();
        js[1][2] = S::zero();
        js[1][3] = S::one();
        js[2][0] = x.powi(2).mul_real(three).sub(r.powi(2)).div(r.powi(5));
        js[2][1] = x.mul_real(three).mul(y).div(r.powi(5));
        js[2][2] = S::zero();
        js[2][3] = S::zero();
        js[3][0] = x.mul_real(three).mul(y).div(r.powi(5));
        js[3][1] = y.powi(2).mul_real(three).sub(r.powi(2)).div(r.powi(5));
        js[3][2] = S::zero();
        js[3][3] = S::zero();
        proof {
            let d = self.derivative(xs@);
            assert(rows(js@)[0] =~= d[0]);
            assert(rows(js@)[1] =~= d[1]);
            assert(rows(js@)[2] =~= d[2]);
            assert(rows(js@)[3] =~= d[3]);
            assert(rows(js@) =~= d);
        }
    }
}

} // verus!

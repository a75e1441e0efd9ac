//! The implicit Gauss-Legendre stepper.
//!
//! One step from the state `x` solves the stage equations
//! `k[i] = f(x + dt · Σ_j a[i][j] · k[j])` for the three stage derivatives
//! `k[i]` by Newton-Raphson iteration, every iteration assembling the full
//! Jacobian anew, and then moves the state to `x + dt · Σ_i b[i] · k[i]`.
use vstd::prelude::*;
use crate::model::{Explicit, all_finite};
use crate::scalar::{LinearSolve, Matrix, Scalar, Vector, rows, shaped};
use crate::stage::{
    assemble, assign, correct, corrected, displace, displaced, fields_finite,
    fill_local_jacobians, fill_residuals, fill_stage_states, is_negligible, lemma_split_index,
    local_jacobians, negated, negated_residuals, negligible, residuals, stacked, stage_states,
    system_matrix, weighted_sum,
};
use crate::tableau::{
    coupling, coupling_matrix, node_vector, nodes, ratio, tolerance, weight_vector, weights,
};

verus! {

/// A system that also knows the derivative of its vector field.
pub trait Jacobian<S: Scalar>: Explicit<S> {
    /// The Jacobian matrix `∂f/∂x` at `x`: entry `[n][m]` is the derivative
    /// of component `n` of `f` by component `m` of the state.
    spec fn derivative(&self, x: Vector<S>) -> Matrix<S>;

    /// Overwrites the square matrix `js` with the Jacobian at `xs`.
    fn jacobian(&self, xs: &Vec<S>, js: &mut Vec<Vec<S>>)
        requires
            xs@.len() == self.size(),
            shaped(old(js)@, self.size() as int, self.size() as int),
        ensures
            shaped(final(js)@, self.size() as int, self.size() as int),
            rows(final(js)@) == self.derivative(xs@),
    ;
}

/// Why a step was not taken.
#[derive(Debug, Clone, Copy, PartialEq, Eq, Structural)]
pub enum StepError {
    /// The vector field was not an ordinary number in some component, at the
    /// state or at a stage state.
    NonFinite,
    /// The linear solver gave no correction for the Newton system, as it
    /// does where the system matrix is singular.
    Singular,
    /// The corrections did not become negligible within the iteration limit.
    NotConverged,
}

/// The iteration limit of a new stepper.
pub const DEFAULT_MAX_ITER: usize = 50;

/// The outcome of one Newton iteration from the stage derivatives `k`: the
/// correction that the linear solver found for the system assembled at `k`.
/// There is none where the vector field is not an ordinary number at a
/// stage state, and none where the solver gives up or answers with a vector
/// that has not one component for each unknown.
pub open spec fn correction<S: LinearSolve, F: Jacobian<S>>(
    f: &F,
    x: Seq<S>,
    k: Seq<Seq<S>>,
    dt: S::Real,
) -> Result<Seq<S>, StepError> {
    let a = coupling::<S::Real>();
    let x_l = stage_states(x, k, a, dt);
    if !fields_finite(f, x_l) {
        Err(StepError::NonFinite)
    } else {
        let g = residuals(f, x_l, k);
        let j = system_matrix(local_jacobians(f, x_l), a, dt, f.size());
        match S::solve_spec(j, negated(g, f.size())) {
            Some(delta) => if delta.len() == 3 * f.size() {
                Ok(delta)
            } else {
                Err(StepError::Singular)
            },
            None => Err(StepError::Singular),
        }
    }
}

/// Newton-Raphson iteration from the stage derivatives `k`, with at most
/// `limit` iterations: the stage derivatives after the first negligible
/// correction, that correction included, or the reason why there are none.
pub open spec fn newton<S: LinearSolve, F: Jacobian<S>>(
    f: &F,
    x: Seq<S>,
    k: Seq<Seq<S>>,
    dt: S::Real,
    limit: nat,
) -> Result<Seq<Seq<S>>, StepError>
    decreases limit,
{
    if limit == 0 {
        Err(StepError::NotConverged)
    } else {
        match correction(f, x, k, dt) {
            Err(e) => Err(e),
            Ok(delta) => {
                let next = corrected(k, delta, f.size());
                if negligible(delta, tolerance::<S::Real>()) {
                    Ok(next)
                } else {
                    newton(f, x, next, dt, (limit - 1) as nat)
                }
            },
        }
    }
}

/// One step of the method from the state `x`: the new state, or the reason
/// why the step fails. The iteration starts from `f(x)` in all three stages.
pub open spec fn step<S: LinearSolve, F: Jacobian<S>>(
    f: &F,
    x: Seq<S>,
    dt: S::Real,
    limit: nat,
) -> Result<Seq<S>, StepError> {
    let k0 = f.field(x);
    if !all_finite(k0) {
        Err(StepError::NonFinite)
    } else {
        match newton(f, x, seq![k0, k0, k0], dt, limit) {
            Ok(k) => Ok(displaced(x, k, weights::<S::Real>(), dt)),
            Err(e) => Err(e),
        }
    }
}

/// An iteration that ends before its limit ends in the same way under every
/// greater limit: with the same stage derivatives, or with the same failure.
pub proof fn lemma_newton_limit<S: LinearSolve, F: Jacobian<S>>(
    f: &F,
    x: Seq<S>,
    k: Seq<Seq<S>>,
    dt: S::Real,
    limit: nat,
    more: nat,
)
    requires
        limit <= more,
        newton(f, x, k, dt, limit) != Err::<Seq<Seq<S>>, StepError>(StepError::NotConverged),
    ensures
        newton(f, x, k, dt, more) == newton(f, x, k, dt, limit),
    decreases limit,
{
    if limit > 0 {
        match correction(f, x, k, dt) {
            Err(_) => {},
            Ok(delta) => {
                if !negligible(delta, tolerance::<S::Real>()) {
                    lemma_newton_limit(
                        f,
                        x,
                        corrected(k, delta, f.size()),
                        dt,
                        (limit - 1) as nat,
                        (more - 1) as nat,
                    );
                }
            },
        }
    }
}

/// A step that does not fail for want of iterations is the same step under
/// every greater iteration limit.
pub proof fn lemma_step_limit<S: LinearSolve, F: Jacobian<S>>(
    f: &F,
    x: Seq<S>,
    dt: S::Real,
    limit: nat,
    more: nat,
)
    requires
        limit <= more,
        step(f, x, dt, limit) != Err::<Seq<S>, StepError>(StepError::NotConverged),
    ensures
        step(f, x, dt, more) == step(f, x, dt, limit),
{
    let k0 = f.field(x);
    if all_finite(k0) {
        lemma_newton_limit(f, x, seq![k0, k0, k0], dt, limit, more);
    }
}

/// The vector of `n` zeros.
pub open spec fn zero_vector<S: Scalar>(n: nat) -> Seq<S> {
    Seq::new(n, |m: int| S::zero_spec())
}

/// Zero vanishes under every scaling, adding zero changes nothing, and zero
/// less zero is zero. Exact arithmetic has these laws; this library asks
/// them of no number type, and states them where a result rests on them.
pub open spec fn zero_is_neutral<S: Scalar>() -> bool {
    &&& forall|r: S::Real| #[trigger] S::zero_spec().mul_real_spec(r) == S::zero_spec()
    &&& forall|s: S| #[trigger] s.add_spec(S::zero_spec()) == s
    &&& S::zero_spec().sub_spec(S::zero_spec()) == S::zero_spec()
}

/// Where the solver answers a system whose right-hand side is zero, negated,
/// in every component, its answer is zero in every component.
pub open spec fn solver_keeps_rest<S: LinearSolve>() -> bool {
    forall|a: Seq<Seq<S>>, b: Seq<S>|
        (forall|u: int| 0 <= u < b.len() ==> b[u] == S::zero_spec().neg_spec()) ==> (
        #[trigger] S::solve_spec(a, b) matches Some(d) ==> forall|u: int|
            0 <= u < d.len() ==> d[u] == S::zero_spec())
}

/// With all stage derivatives zero at a state where the vector field
/// vanishes, the iteration either fails or ends with all stage derivatives
/// zero.
pub proof fn lemma_newton_at_rest<S: LinearSolve, F: Jacobian<S>>(
    f: &F,
    x: Seq<S>,
    dt: S::Real,
    limit: nat,
)
    requires
        x.len() == f.size(),
        f.field(x) == zero_vector::<S>(f.size()),
        zero_is_neutral::<S>(),
        solver_keeps_rest::<S>(),
    ensures
        ({
            let z = zero_vector::<S>(f.size());
            newton(f, x, seq![z, z, z], dt, limit) matches Ok(k) ==> k == seq![z, z, z]
        }),
    decreases limit,
{
    let n = f.size();
    let z = zero_vector::<S>(n);
    let k = seq![z, z, z];
    let a = coupling::<S::Real>();
    let x_l = stage_states(x, k, a, dt);
    if limit > 0 {
        assert forall|i: int| 0 <= i < 3 implies #[trigger] x_l[i] == x by {
            assert forall|m: int| 0 <= m < x.len() implies x_l[i][m] == x[m] by {
                assert(k[0][m] == S::zero_spec());
                assert(k[1][m] == S::zero_spec());
                assert(k[2][m] == S::zero_spec());
                assert(x_l[i][m] == weighted_sum(
                    x[m],
                    S::zero_spec(),
                    S::zero_spec(),
                    S::zero_spec(),
                    a[i],
                    dt,
                ));
            }
            assert(x_l[i] =~= x);
        }
        let g = residuals(f, x_l, k);
        let b = negated(g, n);
        assert forall|u: int| 0 <= u < b.len() implies b[u] == S::zero_spec().neg_spec() by {
            lemma_split_index(u, n as int);
            let i = u / (n as int);
            let m = u % (n as int);
            assert(g[i][m] == k[i][m].sub_spec(f.field(x_l[i])[m]));
            assert(k[i][m] == S::zero_spec());
            assert(f.field(x_l[i])[m] == S::zero_spec());
        }
        match correction(f, x, k, dt) {
            Err(_) => {},
            Ok(delta) => {
                let j = system_matrix(local_jacobians(f, x_l), a, dt, n);
                assert(S::solve_spec(j, b) == Some(delta));
                let next = corrected(k, delta, n);
                assert forall|i: int| 0 <= i < 3 implies #[trigger] next[i] == z by {
                    assert forall|p: int| 0 <= p < n implies next[i][p] == z[p] by {
                        assert(0 <= i * n + p < 3 * n) by (nonlinear_arith)
                            requires
                                0 <= i < 3,
                                0 <= p < n,
                        ;
                        assert(k[i][p] == S::zero_spec());
                        assert(delta[i * n + p] == S::zero_spec());
                    }
                    assert(next[i] =~= z);
                }
                assert(next =~= k);
                if !negligible(delta, tolerance::<S::Real>()) {
                    lemma_newton_at_rest(f, x, dt, (limit - 1) as nat);
                }
            },
        }
    }
}

/// A state at rest stays at rest. Where the vector field vanishes at `x`,
/// zero is neutral in the arithmetic of the scalars and the solver answers a
/// vanishing right-hand side with a vanishing correction, a step that
/// succeeds returns `x` itself. (A step that fails leaves the state as it
/// was, whatever the state.)
pub proof fn lemma_rest_is_kept<S: LinearSolve, F: Jacobian<S>>(
    f: &F,
    x: Seq<S>,
    dt: S::Real,
    limit: nat,
)
    requires
        x.len() == f.size(),
        f.field(x) == zero_vector::<S>(f.size()),
        zero_is_neutral::<S>(),
        solver_keeps_rest::<S>(),
    ensures
        step(f, x, dt, limit) is Ok ==> step(f, x, dt, limit) == Ok::<Seq<S>, StepError>(x),
{
    let z = zero_vector::<S>(f.size());
    let k = seq![z, z, z];
    let w = weights::<S::Real>();
    lemma_newton_at_rest(f, x, dt, limit);
    if step(f, x, dt, limit) is Ok {
        let y = displaced(x, k, w, dt);
        assert forall|m: int| 0 <= m < x.len() implies y[m] == x[m] by {
            assert(k[0][m] == S::zero_spec());
            assert(k[1][m] == S::zero_spec());
            assert(k[2][m] == S::zero_spec());
            assert(y[m] == weighted_sum(
                x[m],
                S::zero_spec(),
                S::zero_spec(),
                S::zero_spec(),
                w,
                dt,
            ));
        }
        assert(y =~= x);
    }
}

/// A vector of `len` zeros.
pub fn zeros<S: Scalar>(len: usize) -> (v: Vec<S>)
    ensures
        v@.len() == len,
        forall|n: int| 0 <= n < len ==> v@[n] == S::zero_spec(),
{
    let mut v: Vec<S> = Vec::with_capacity(len);
    let mut n: usize = 0;
    while n < len
        invariant
            n <= len,
            v@.len() == n,
            forall|m: int| 0 <= m < n ==> v@[m] == S::zero_spec(),
        decreases len - n,
    {
        v.push(S::zero());
        n += 1;
    }
    v
}

/// A matrix of `r` rows and `c` columns of zeros.
pub fn zero_matrix<S: Scalar>(r: usize, c: usize) -> (m: Vec<Vec<S>>)
    ensures
        shaped(m@, r as int, c as int),
        forall|i: int, n: int| 0 <= i < r && 0 <= n < c ==> (#[trigger] m@[i]@[n]) == S::zero_spec(),
{
    let mut m: Vec<Vec<S>> = Vec::with_capacity(r);
    let mut i: usize = 0;
    while i < r
        invariant
            i <= r,
            shaped(m@, i as int, c as int),
            forall|l: int, n: int|
                0 <= l < i && 0 <= n < c ==> (#[trigger] m@[l]@[n]) == S::zero_spec(),
        decreases r - i,
    {
        m.push(zeros::<S>(c));
        i += 1;
    }
    m
}

/// The three-stage Gauss-Legendre stepper of order six for the system `F`.
#[derive(Debug, Clone)]
pub struct RKGL36<S: LinearSolve, F: Jacobian<S>> {
    f: F,
    dt: S::Real,
    epsilon: S::Real,
    max_iter: usize,
    a: Vec<Vec<S::Real>>,
    b: Vec<S::Real>,
    c: Vec<S::Real>,
    x_l: Vec<Vec<S>>,
    k: Vec<Vec<S>>,
    g: Vec<Vec<S>>,
    j_local: Vec<Vec<Vec<S>>>,
    j: Vec<Vec<S>>,
    delta: Vec<S>,
}

impl<S: LinearSolve, F: Jacobian<S>> RKGL36<S, F> {
    /// The system that is integrated.
    pub closed spec fn model(&self) -> F {
        self.f
    }

    /// The step size.
    pub closed spec fn step_size(&self) -> S::Real {
        self.dt
    }

    /// The greatest number of Newton iterations in one step.
    pub closed spec fn limit(&self) -> nat {
        self.max_iter as nat
    }

    /// The tableau is that of the method, the tolerance is `10⁻¹²`, and the
    /// work space has the shape that the system's size asks for.
    pub closed spec fn wf(&self) -> bool {
        let n = self.f.size() as int;
        &&& 3 * n <= usize::MAX
        &&& self.epsilon == tolerance::<S::Real>()
        &&& shaped(self.a@, 3, 3)
        &&& rows(self.a@) == coupling::<S::Real>()
        &&& self.b@ == weights::<S::Real>()
        &&& self.c@ == nodes::<S::Real>()
        &&& shaped(self.x_l@, 3, n)
        &&& shaped(self.k@, 3, n)
        &&& shaped(self.g@, 3, n)
        &&& stacked(self.j_local@, 3, n, n)
        &&& shaped(self.j@, 3 * n, 3 * n)
        &&& self.delta@.len() == 3 * n
    }

    /// A stepper for the system `f` with the step size `dt` and the default
    /// iteration limit.
    pub fn new(f: F, dt: S::Real) -> (s: Self)
        requires
            3 * f.size() <= usize::MAX,
        ensures
            s.wf(),
            s.model() == f,
            s.step_size() == dt,
            s.limit() == DEFAULT_MAX_ITER,
    {
        let epsilon = ratio::<S::Real>(1, 1_000_000_000_000);
        let a = coupling_matrix::<S::Real>();
        let b = weight_vector::<S::Real>();
        let c = node_vector::<S::Real>();
        let dim = f.model_size();
        let n = 3 * dim;
        let x_l = zero_matrix::<S>(3, dim);
        let k = zero_matrix::<S>(3, dim);
        let g = zero_matrix::<S>(3, dim);
        let j_local: Vec<Vec<Vec<S>>> = vec![
            zero_matrix::<S>(dim, dim),
            zero_matrix::<S>(dim, dim),
            zero_matrix::<S>(dim, dim),
        ];
        let j = zero_matrix::<S>(n, n);
        let delta = zeros::<S>(n);
        proof {
            assert(rows(a@).len() == 3);
            assert forall|i: int| 0 <= i < 3 implies (#[trigger] a@[i])@.len() == 3 by {
                assert(rows(a@)[i] == a@[i]@);
            }
        }
        Self { f, dt, epsilon, max_iter: DEFAULT_MAX_ITER, a, b, c, x_l, k, g, j_local, j, delta }
    }

    /// The step size.
    pub fn get_dt(&self) -> (dt: S::Real)
        ensures
            dt == self.step_size(),
    {
        self.dt
    }

    /// Sets the step size of the steps to come.
    pub fn set_dt(&mut self, dt: S::Real)
        ensures
            final(self).step_size() == dt,
            final(self).model() == old(self).model(),
            final(self).limit() == old(self).limit(),
            final(self).wf() == old(self).wf(),
    {
        self.dt = dt;
    }

    /// The greatest number of Newton iterations in one step.
    pub fn get_max_iter(&self) -> (n: usize)
        ensures
            n == self.limit(),
    {
        self.max_iter
    }

    /// Sets the greatest number of Newton iterations in one step.
    pub fn set_max_iter(&mut self, max_iter: usize)
        ensures
            final(self).limit() == max_iter,
            final(self).model() == old(self).model(),
            final(self).step_size() == old(self).step_size(),
            final(self).wf() == old(self).wf(),
    {
        self.max_iter = max_iter;
    }

    /// The system that is integrated.
    pub fn core_ref(&self) -> (f: &F)
        ensures
            *f == self.model(),
    {
        &self.f
    }

    /// The system that is integrated, to be changed in place. The stepper
    /// stays well formed as long as the system keeps its size.
    pub fn core_mut(&mut self) -> (f: &mut F)
        ensures
            *f == old(self).model(),
            final(self).model() == *final(f),
            final(self).step_size() == old(self).step_size(),
            final(self).limit() == old(self).limit(),
            old(self).wf() && final(f).size() == old(self).model().size() ==> final(self).wf(),
    {
        &mut self.f
    }

    /// The number of components of a state.
    pub fn model_size(&self) -> (n: usize)
        ensures
            n == self.model().size(),
    {
        self.f.model_size()
    }

    /// Advances the state `x` by one step of the size set, with at most as
    /// many Newton iterations as the limit set: `x` becomes what [`step`]
    /// denotes. Where the step fails, `x` is left as it was and the reason
    /// is returned. The work space is overwritten either way.
    pub fn iterate(&mut self, x: &mut Vec<S>) -> (r: Result<(), StepError>)
        requires
            old(self).wf(),
            old(x)@.len() == old(self).model().size(),
        ensures
            final(self).wf(),
            final(self).model() == old(self).model(),
            final(self).step_size() == old(self).step_size(),
            final(self).limit() == old(self).limit(),
            final(x)@.len() == old(x)@.len(),
            match step(&old(self).model(), old(x)@, old(self).step_size(), old(self).limit()) {
                Ok(y) => r is Ok && final(x)@ == y,
                Err(e) => r == Err::<(), StepError>(e) && final(x)@ == old(x)@,
            },
    {
        let dim = self.f.model_size();
        let ghost k0 = self.f.field(x@);
        let mut i: usize = 0;
        while i < 3
            invariant
                i <= 3,
                self.wf(),
                self.f == old(self).f,
                self.dt == old(self).dt,
                self.max_iter == old(self).max_iter,
                x@ == old(x)@,
                x@.len() == self.f.size(),
                k0 == self.f.field(x@),
                i > 0 ==> all_finite(k0),
                forall|l: int| 0 <= l < i ==> (#[trigger] self.k@[l])@ == k0,
            decreases 3 - i,
        {
            assign(&mut self.k[i], x);
            match self.f.rhs(&mut self.k[i]) {
                Ok(()) => {},
                Err(_) => {
                    return Err(StepError::NonFinite);
                },
            }
            i += 1;
        }
        let ghost start = rows(self.k@);
        proof {
            assert(start =~= seq![k0, k0, k0]);
        }
        let mut iter: usize = 0;
        while iter < self.max_iter
            invariant
                iter <= self.max_iter,
                self.wf(),
                self.f == old(self).f,
                self.dt == old(self).dt,
                self.max_iter == old(self).max_iter,
                dim == self.f.size(),
                x@ == old(x)@,
                x@.len() == self.f.size(),
                k0 == self.f.field(x@),
                all_finite(k0),
                start == seq![k0, k0, k0],
                newton(&self.f, x@, rows(self.k@), self.dt, (self.max_iter - iter) as nat)
                    == newton(&self.f, x@, start, self.dt, self.max_iter as nat),
            decreases self.max_iter - iter,
        {
            let ghost k_now = rows(self.k@);
            fill_stage_states(x, &self.k, &self.a, self.dt, &mut self.x_l);
            match fill_residuals(&self.f, &self.x_l, &self.k, &mut self.g) {
                Ok(()) => {},
                Err(_) => {
                    return Err(StepError::NonFinite);
                },
            }
            fill_local_jacobians(&self.f, &self.x_l, &mut self.j_local);
            assemble(&self.j_local, &self.a, self.dt, dim, &mut self.j);
            let rhs = negated_residuals(&self.g, dim);
            match S::solve(&self.j, &rhs) {
                Some(d) => {
                    if d.len() != 3 * dim {
                        return Err(StepError::Singular);
                    }
                    self.delta = d;
                },
                None => {
                    return Err(StepError::Singular);
                },
            }
            assert(correction(&self.f, x@, k_now, self.dt) == Ok::<Seq<S>, StepError>(self.delta@));
            correct(&mut self.k, &self.delta, dim);
            if is_negligible(&self.delta, self.epsilon) {
                displace(x, &self.k, &self.b, self.dt);
                return Ok(());
            }
            iter += 1;
        }
        Err(StepError::NotConverged)
    }
}

} // verus!

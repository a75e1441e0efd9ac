//! The numbers a stepper computes with.
//!
//! The integrator never looks inside a number. It is written against two
//! capabilities: [`Real`], the ordered quantities that hold step sizes,
//! tableau coefficients and magnitudes, and [`Scalar`], the elements of state
//! vectors and Jacobians. A third capability, [`LinearSolve`], hands a dense
//! linear system to whatever solver belongs to the scalar type.
//!
//! Every method is paired with a specification function of the same
//! name and the suffix `_spec`, and promises only that it returns what that
//! function denotes: that it is a function of its operands. No algebraic law
//! (associativity, a neutral element, exactness) is claimed, so rounding
//! arithmetic is a valid implementation. What the stepper computes is then
//! stated exactly, as an expression in these operations, and holds of an
//! implementation as far as its methods are such functions; nothing here
//! proves that of an implementation written outside verified code.
use vstd::prelude::*;

verus! {

/// Real quantities: step sizes, tableau coefficients, magnitudes, tolerances.
pub trait Real: Copy + Sized {
    /// The real that stands for the non-negative integer `n`.
    spec fn from_u64_spec(n: u64) -> Self;

    spec fn add_spec(self, rhs: Self) -> Self;

    spec fn sub_spec(self, rhs: Self) -> Self;

    spec fn mul_spec(self, rhs: Self) -> Self;

    spec fn div_spec(self, rhs: Self) -> Self;

    /// The square root.
    spec fn sqrt_spec(self) -> Self;

    /// Strictly less than.
    spec fn lt_spec(self, rhs: Self) -> bool;

    fn from_u64(n: u64) -> (r: Self)
        ensures
            r == Self::from_u64_spec(n),
    ;

    fn add(self, rhs: Self) -> (r: Self)
        ensures
            r == self.add_spec(rhs),
    ;

    fn sub(self, rhs: Self) -> (r: Self)
        ensures
            r == self.sub_spec(rhs),
    ;

    fn mul(self, rhs: Self) -> (r: Self)
        ensures
            r == self.mul_spec(rhs),
    ;

    fn div(self, rhs: Self) -> (r: Self)
        ensures
            r == self.div_spec(rhs),
    ;

    fn sqrt(self) -> (r: Self)
        ensures
            r == self.sqrt_spec(),
    ;

    fn lt(self, rhs: Self) -> (r: bool)
        ensures
            r == self.lt_spec(rhs),
    ;
}

/// Elements of state vectors, stage derivatives and Jacobians. A scalar may be
/// real or complex; it is scaled by, and measured in, its [`Real`] type.
pub trait Scalar: Copy + Sized {
    type Real: Real;

    spec fn zero_spec() -> Self;

    spec fn one_spec() -> Self;

    spec fn add_spec(self, rhs: Self) -> Self;

    spec fn sub_spec(self, rhs: Self) -> Self;

    spec fn mul_spec(self, rhs: Self) -> Self;

    spec fn div_spec(self, rhs: Self) -> Self;

    spec fn neg_spec(self) -> Self;

    /// The principal square root.
    spec fn sqrt_spec(self) -> Self;

    /// The value raised to the integer power `n`.
    spec fn powi_spec(self, n: i32) -> Self;

    /// The value scaled by the real factor `r`.
    spec fn mul_real_spec(self, r: Self::Real) -> Self;

    /// The magnitude.
    spec fn abs_spec(self) -> Self::Real;

    /// Whether the value is an ordinary number: neither infinite nor the
    /// outcome of an undefined operation.
    spec fn is_finite_spec(self) -> bool;

    fn zero() -> (r: Self)
        ensures
            r == Self::zero_spec(),
    ;

    fn one() -> (r: Self)
        ensures
            r == Self::one_spec(),
    ;

    fn add(self, rhs: Self) -> (r: Self)
        ensures
            r == self.add_spec(rhs),
    ;

    fn sub(self, rhs: Self) -> (r: Self)
        ensures
            r == self.sub_spec(rhs),
    ;

    fn mul(self, rhs: Self) -> (r: Self)
        ensures
            r == self.mul_spec(rhs),
    ;

    fn div(self, rhs: Self) -> (r: Self)
        ensures
            r == self.div_spec(rhs),
    ;

    fn neg(self) -> (r: Self)
        ensures
            r == self.neg_spec(),
    ;

    fn sqrt(self) -> (r: Self)
        ensures
            r == self.sqrt_spec(),
    ;

    fn powi(self, n: i32) -> (r: Self)
        ensures
            r == self.powi_spec(n),
    ;

    fn mul_real(self, r: Self::Real) -> (s: Self)
        ensures
            s == self.mul_real_spec(r),
    ;

    fn abs(self) -> (r: Self::Real)
        ensures
            r == self.abs_spec(),
    ;

    fn is_finite(self) -> (r: bool)
        ensures
            r == self.is_finite_spec(),
    ;
}

/// A vector as mathematics sees it: the sequence of its components. The
/// specification functions of the capabilities take and return vectors
/// under this name.
pub type Vector<S> = Seq<S>;

/// A matrix as mathematics sees it: the sequence of its rows.
pub type Matrix<S> = Seq<Seq<S>>;

/// The rows of a matrix held as a vector of vectors.
pub open spec fn rows<S>(m: Seq<Vec<S>>) -> Seq<Seq<S>> {
    Seq::new(m.len(), |i: int| m[i]@)
}

/// Whether `m` has `r` rows of `c` entries each.
pub open spec fn shaped<S>(m: Seq<Vec<S>>, r: int, c: int) -> bool {
    &&& m.len() == r
    &&& forall|i: int| 0 <= i < r ==> (#[trigger] m[i])@.len() == c
}

/// Scalars whose dense linear systems can be solved directly.
pub trait LinearSolve: Scalar {
    /// What the solver returns for the system `a · d = b`: `Some(d)` with the
    /// solution it found, or `None` where it gives up, as it does on a
    /// singular matrix.
    spec fn solve_spec(a: Matrix<Self>, b: Vector<Self>) -> Option<Vector<Self>>;

    /// Solves the square system `a · d = b` for `d`. Nothing is promised of
    /// the answer but that it is the one `solve_spec` denotes: a caller that
    /// needs its length tests it.
    fn solve(a: &Vec<Vec<Self>>, b: &Vec<Self>) -> (r: Option<Vec<Self>>)
        requires
            shaped(a@, b@.len() as int, b@.len() as int),
        ensures
            r is Some <==> Self::solve_spec(rows(a@), b@) is Some,
            r is Some ==> Self::solve_spec(rows(a@), b@) == Some(r->0@),
    ;
}

} // verus!

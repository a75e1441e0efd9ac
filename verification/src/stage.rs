//! The coupled stage equations of one step, assembled for Newton's method.
//!
//! With the state `x` before the step (`n` components), the stage derivatives
//! `k` (three rows of `n`), the coupling matrix `a` and the step size `dt`,
//! stage `i` has the state `x + dt · Σ_j a[i][j] · k[j]` and the residual
//! `k[i] - f(stage state i)`. The unknowns are the `3n` entries of `k`, row
//! after row.
use vstd::prelude::*;
use crate::implicit::Jacobian;
use crate::model::{Explicit, NonFinite, all_finite};
use crate::scalar::{Real, Scalar, rows, shaped};

verus! {

/// `x + k0·(w[0]·dt) + k1·(w[1]·dt) + k2·(w[2]·dt)`, summed from the left.
pub open spec fn weighted_sum<S: Scalar>(
    x: S,
    k0: S,
    k1: S,
    k2: S,
    w: Seq<S::Real>,
    dt: S::Real,
) -> S {
    x.add_spec(k0.mul_real_spec(w[0].mul_spec(dt))).add_spec(
        k1.mul_real_spec(w[1].mul_spec(dt)),
    ).add_spec(k2.mul_real_spec(w[2].mul_spec(dt)))
}

/// The state `x` moved along the three rows of `k` with the weights `w`.
pub open spec fn displaced<S: Scalar>(
    x: Seq<S>,
    k: Seq<Seq<S>>,
    w: Seq<S::Real>,
    dt: S::Real,
) -> Seq<S> {
    Seq::new(x.len(), |n: int| weighted_sum(x[n], k[0][n], k[1][n], k[2][n], w, dt))
}

/// The three stage states: row `i` is `x` displaced with row `i` of `a`.
pub open spec fn stage_states<S: Scalar>(
    x: Seq<S>,
    k: Seq<Seq<S>>,
    a: Seq<Seq<S::Real>>,
    dt: S::Real,
) -> Seq<Seq<S>> {
    Seq::new(3, |i: int| displaced(x, k, a[i], dt))
}

/// Whether the vector field is an ordinary number in every component at each
/// of the three stage states.
pub open spec fn fields_finite<S: Scalar, F: Explicit<S>>(f: &F, x_l: Seq<Seq<S>>) -> bool {
    forall|i: int| 0 <= i < 3 ==> all_finite(f.field(#[trigger] x_l[i]))
}

/// The three stage residuals: row `i` is `k[i] - f(x_l[i])`.
pub open spec fn residuals<S: Scalar, F: Explicit<S>>(
    f: &F,
    x_l: Seq<Seq<S>>,
    k: Seq<Seq<S>>,
) -> Seq<Seq<S>> {
    Seq::new(
        3,
        |i: int| Seq::new(f.size(), |n: int| k[i][n].sub_spec(f.field(x_l[i])[n])),
    )
}

/// The Jacobian of the vector field at each of the three stage states.
pub open spec fn local_jacobians<S: Scalar, F: Jacobian<S>>(
    f: &F,
    x_l: Seq<Seq<S>>,
) -> Seq<Seq<Seq<S>>> {
    Seq::new(3, |i: int| f.derivative(x_l[i]))
}

/// The Kronecker delta as a scalar: one where the indices agree, else zero.
pub open spec fn kronecker<S: Scalar>(i: int, j: int) -> S {
    if i == j {
        S::one_spec()
    } else {
        S::zero_spec()
    }
}

/// Entry `[u][v]` of the Jacobian of the residuals by the stage derivatives,
/// for a system of `n` components. With `u = i·n + p` and `v = j·n + q` it is
/// `δ(i,j)·δ(p,q) - j_local[i][p][q]·(a[i][j]·dt)`.
pub open spec fn system_entry<S: Scalar>(
    j_local: Seq<Seq<Seq<S>>>,
    a: Seq<Seq<S::Real>>,
    dt: S::Real,
    n: int,
    u: int,
    v: int,
) -> S {
    let i = u / n;
    let p = u % n;
    let j = v / n;
    let q = v % n;
    kronecker::<S>(i, j).mul_spec(kronecker::<S>(p, q)).sub_spec(
        j_local[i][p][q].mul_real_spec(a[i][j].mul_spec(dt)),
    )
}

/// The `3n × 3n` Jacobian of the residuals by the stage derivatives: a grid
/// of three by three blocks of `n × n`, block `(i, j)` being
/// `δ(i,j)·I - dt·a[i][j]·j_local[i]`.
pub open spec fn system_matrix<S: Scalar>(
    j_local: Seq<Seq<Seq<S>>>,
    a: Seq<Seq<S::Real>>,
    dt: S::Real,
    n: nat,
) -> Seq<Seq<S>> {
    Seq::new(
        3 * n,
        |u: int| Seq::new(3 * n, |v: int| system_entry(j_local, a, dt, n as int, u, v)),
    )
}

/// The right-hand side of the Newton system: the residuals `g`, row after
/// row, each negated.
pub open spec fn negated<S: Scalar>(g: Seq<Seq<S>>, n: nat) -> Seq<S> {
    Seq::new(3 * n, |u: int| g[u / (n as int)][u % (n as int)].neg_spec())
}

/// The stage derivatives after a Newton correction: `k[i][p] + delta[i·n + p]`.
pub open spec fn corrected<S: Scalar>(k: Seq<Seq<S>>, delta: Seq<S>, n: nat) -> Seq<Seq<S>> {
    Seq::new(3, |i: int| Seq::new(n, |p: int| k[i][p].add_spec(delta[i * n + p])))
}

/// Whether every component of the correction is smaller in magnitude than
/// `epsilon`.
pub open spec fn negligible<S: Scalar>(delta: Seq<S>, epsilon: S::Real) -> bool {
    forall|u: int| 0 <= u < delta.len() ==> (#[trigger] delta[u]).abs_spec().lt_spec(epsilon)
}

/// The views of the blocks of a stack of matrices.
pub open spec fn blocks<S>(t: Seq<Vec<Vec<S>>>) -> Seq<Seq<Seq<S>>> {
    Seq::new(t.len(), |i: int| rows(t[i]@))
}

/// Whether `t` is a stack of `d` matrices of `r` rows and `c` columns.
pub open spec fn stacked<S>(t: Seq<Vec<Vec<S>>>, d: int, r: int, c: int) -> bool {
    &&& t.len() == d
    &&& forall|i: int| 0 <= i < d ==> shaped((#[trigger] t[i])@, r, c)
}

/// Copies `src` over `dst`.
pub fn assign<S: Scalar>(dst: &mut Vec<S>, src: &Vec<S>)
    requires
        old(dst)@.len() == src@.len(),
    ensures
        final(dst)@ == src@,
{
    let len = src.len();
    let mut n: usize = 0;
    while n < len
        invariant
            len == src@.len(),
            dst@.len() == len,
            n <= len,
            forall|m: int| 0 <= m < n ==> dst@[m] == src@[m],
        decreases len - n,
    {
        dst[n] = src[n];
        n += 1;
    }
    proof {
        assert(dst@ =~= src@);
    }
}

/// Displaces `x` in place along the rows of `k` with the weights `w`.
pub fn displace<S: Scalar>(x: &mut Vec<S>, k: &Vec<Vec<S>>, w: &Vec<S::Real>, dt: S::Real)
    requires
        shaped(k@, 3, old(x)@.len() as int),
        w@.len() == 3,
    ensures
        final(x)@ == displaced(old(x)@, rows(k@), w@, dt),
{
    let len = x.len();
    let w0 = w[0].mul(dt);
    let w1 = w[1].mul(dt);
    let w2 = w[2].mul(dt);
    let mut n: usize = 0;
    while n < len
        invariant
            shaped(k@, 3, len as int),
            x@.len() == len,
            old(x)@.len() == len,
            n <= len,
            w0 == w@[0].mul_spec(dt),
            w1 == w@[1].mul_spec(dt),
            w2 == w@[2].mul_spec(dt),
            forall|m: int| 0 <= m < n ==> x@[m] == displaced(old(x)@, rows(k@), w@, dt)[m],
            forall|m: int| n <= m < len ==> x@[m] == old(x)@[m],
        decreases len - n,
    {
        let v = x[n].add(k[0][n].mul_real(w0)).add(k[1][n].mul_real(w1)).add(k[2][n].mul_real(w2));
        x[n] = v;
        n += 1;
    }
    proof {
        assert(x@ =~= displaced(old(x)@, rows(k@), w@, dt));
    }
}

/// Fills `x_l` with the three stage states.
pub fn fill_stage_states<S: Scalar>(
    x: &Vec<S>,
    k: &Vec<Vec<S>>,
    a: &Vec<Vec<S::Real>>,
    dt: S::Real,
    x_l: &mut Vec<Vec<S>>,
)
    requires
        shaped(k@, 3, x@.len() as int),
        shaped(a@, 3, 3),
        shaped(old(x_l)@, 3, x@.len() as int),
    ensures
        shaped(final(x_l)@, 3, x@.len() as int),
        rows(final(x_l)@) == stage_states(x@, rows(k@), rows(a@), dt),
{
    let mut i: usize = 0;
    while i < 3
        invariant
            i <= 3,
            shaped(k@, 3, x@.len() as int),
            shaped(a@, 3, 3),
            shaped(x_l@, 3, x@.len() as int),
            forall|l: int| 0 <= l < i ==> (#[trigger] x_l@[l])@ == displaced(x@, rows(k@), a@[l]@, dt),
        decreases 3 - i,
    {
        assign(&mut x_l[i], x);
        displace(&mut x_l[i], k, &a[i], dt);
        i += 1;
    }
    proof {
        assert(rows(x_l@) =~= stage_states(x@, rows(k@), rows(a@), dt));
    }
}

/// Fills `g` with the three stage residuals. Fails exactly when the vector
/// field is not an ordinary number somewhere at a stage state.
pub fn fill_residuals<S: Scalar, F: Explicit<S>>(
    f: &F,
    x_l: &Vec<Vec<S>>,
    k: &Vec<Vec<S>>,
    g: &mut Vec<Vec<S>>,
) -> (r: Result<(), NonFinite>)
    requires
        shaped(x_l@, 3, f.size() as int),
        shaped(k@, 3, f.size() as int),
        shaped(old(g)@, 3, f.size() as int),
    ensures
        shaped(final(g)@, 3, f.size() as int),
        r is Ok <==> fields_finite(f, rows(x_l@)),
        r is Ok ==> rows(final(g)@) == residuals(f, rows(x_l@), rows(k@)),
{
    let dim = f.model_size();
    let mut i: usize = 0;
    while i < 3
        invariant
            i <= 3,
            dim == f.size(),
            shaped(x_l@, 3, dim as int),
            shaped(k@, 3, dim as int),
            shaped(g@, 3, dim as int),
            forall|l: int| 0 <= l < i ==> all_finite(f.field(#[trigger] rows(x_l@)[l])),
            forall|l: int|
                0 <= l < i ==> (#[trigger] g@[l])@ == residuals(f, rows(x_l@), rows(k@))[l],
        decreases 3 - i,
    {
        assign(&mut g[i], &x_l[i]);
        match f.rhs(&mut g[i]) {
            Ok(()) => {},
            Err(e) => {
                proof {
                    assert(rows(x_l@)[i as int] == x_l@[i as int]@);
                    assert(!all_finite(f.field(rows(x_l@)[i as int])));
                }
                return Err(e);
            },
        }
        let ghost fx = g@[i as int]@;
        assert(fx == f.field(rows(x_l@)[i as int]));
        let mut n: usize = 0;
        while n < dim
            invariant
                i < 3,
                n <= dim,
                dim == f.size(),
                shaped(k@, 3, dim as int),
                shaped(g@, 3, dim as int),
                fx == f.field(rows(x_l@)[i as int]),
                forall|l: int|
                    0 <= l < i ==> (#[trigger] g@[l])@ == residuals(f, rows(x_l@), rows(k@))[l],
                forall|m: int| 0 <= m < n ==> g@[i as int]@[m] == k@[i as int]@[m].sub_spec(fx[m]),
                forall|m: int| n <= m < dim ==> g@[i as int]@[m] == fx[m],
            decreases dim - n,
        {
            let v = k[i][n].sub(g[i][n]);
            g[i][n] = v;
            n += 1;
        }
        proof {
            assert(g@[i as int]@ =~= residuals(f, rows(x_l@), rows(k@))[i as int]);
        }
        i += 1;
    }
    proof {
        assert(rows(g@) =~= residuals(f, rows(x_l@), rows(k@)));
    }
    Ok(())
}

/// Fills `j_local` with the Jacobian of the vector field at each stage state.
pub fn fill_local_jacobians<S: Scalar, F: Jacobian<S>>(
    f: &F,
    x_l: &Vec<Vec<S>>,
    j_local: &mut Vec<Vec<Vec<S>>>,
)
    requires
        shaped(x_l@, 3, f.size() as int),
        stacked(old(j_local)@, 3, f.size() as int, f.size() as int),
    ensures
        stacked(final(j_local)@, 3, f.size() as int, f.size() as int),
        blocks(final(j_local)@) == local_jacobians(f, rows(x_l@)),
{
    let mut i: usize = 0;
    while i < 3
        invariant
            i <= 3,
            shaped(x_l@, 3, f.size() as int),
            stacked(j_local@, 3, f.size() as int, f.size() as int),
            forall|l: int|
                0 <= l < i ==> rows((#[trigger] j_local@[l])@) == f.derivative(x_l@[l]@),
        decreases 3 - i,
    {
        f.jacobian(&x_l[i], &mut j_local[i]);
        i += 1;
    }
    proof {
        assert(blocks(j_local@) =~= local_jacobians(f, rows(x_l@)));
    }
}

/// The Kronecker delta as a scalar.
pub fn f_delta<S: Scalar>(i: usize, j: usize) -> (r: S)
    ensures
        r == kronecker::<S>(i as int, j as int),
{
    if i == j {
        S::one()
    } else {
        S::zero()
    }
}

/// For an index `u` into `3·dim` unknowns, the stage `u / dim` is one of the
/// three and the component `u % dim` lies within the state.
pub proof fn lemma_split_index(u: int, dim: int)
    requires
        0 <= u < 3 * dim,
    ensures
        0 <= u / dim < 3,
        0 <= u % dim < dim,
        u == (u / dim) * dim + u % dim,
{
    vstd::arithmetic::div_mod::lemma_fundamental_div_mod(u, dim);
    vstd::arithmetic::div_mod::lemma_mod_bound(u, dim);
    let q = u / dim;
    assert(0 <= q < 3) by (nonlinear_arith)
        requires
            0 <= u < 3 * dim,
            u == dim * q + u % dim,
            0 <= u % dim < dim,
    ;
    assert(dim * q == q * dim) by (nonlinear_arith);
}

/// Component `p` of stage `i` is unknown number `i·dim + p`, and splits back
/// into its stage and its component.
pub proof fn lemma_join_index(i: int, p: int, dim: int)
    requires
        0 <= i < 3,
        0 <= p < dim,
    ensures
        0 <= i * dim + p < 3 * dim,
        (i * dim + p) / dim == i,
        (i * dim + p) % dim == p,
{
    assert(0 <= i * dim + p < 3 * dim) by (nonlinear_arith)
        requires
            0 <= i < 3,
            0 <= p < dim,
    ;
    vstd::arithmetic::div_mod::lemma_fundamental_div_mod_converse(i * dim + p, dim, i, p);
}

/// The system matrix by blocks: the entry that couples component `p` of
/// stage `i` with component `q` of stage `j` is
/// `δ(i,j)·δ(p,q) - j_local[i][p][q]·(a[i][j]·dt)`.
pub proof fn lemma_system_block<S: Scalar>(
    j_local: Seq<Seq<Seq<S>>>,
    a: Seq<Seq<S::Real>>,
    dt: S::Real,
    n: nat,
    i: int,
    p: int,
    j: int,
    q: int,
)
    requires
        0 <= i < 3,
        0 <= j < 3,
        0 <= p < n,
        0 <= q < n,
    ensures
        0 <= i * n + p < 3 * n,
        0 <= j * n + q < 3 * n,
        system_matrix(j_local, a, dt, n)[i * n + p][j * n + q] == kronecker::<S>(i, j).mul_spec(
            kronecker::<S>(p, q),
        ).sub_spec(j_local[i][p][q].mul_real_spec(a[i][j].mul_spec(dt))),
{
    lemma_join_index(i, p, n as int);
    lemma_join_index(j, q, n as int);
}

/// The right-hand side of the Newton system holds the negated residual of
/// component `p` of stage `i` at the place from which the correction of that
/// component is read.
pub proof fn lemma_negated_entry<S: Scalar>(g: Seq<Seq<S>>, n: nat, i: int, p: int)
    requires
        0 <= i < 3,
        0 <= p < n,
    ensures
        0 <= i * n + p < 3 * n,
        negated(g, n)[i * n + p] == g[i][p].neg_spec(),
{
    lemma_join_index(i, p, n as int);
}

/// Assembles in `j` the Jacobian of the residuals by the stage derivatives.
pub fn assemble<S: Scalar>(
    j_local: &Vec<Vec<Vec<S>>>,
    a: &Vec<Vec<S::Real>>,
    dt: S::Real,
    dim: usize,
    j: &mut Vec<Vec<S>>,
)
    requires
        3 * dim <= usize::MAX,
        stacked(j_local@, 3, dim as int, dim as int),
        shaped(a@, 3, 3),
        shaped(old(j)@, 3 * dim, 3 * dim),
    ensures
        shaped(final(j)@, 3 * dim, 3 * dim),
        rows(final(j)@) == system_matrix(blocks(j_local@), rows(a@), dt, dim as nat),
{
    let size = 3 * dim;
    let mut u: usize = 0;
    while u < size
        invariant
            size == 3 * dim,
            u <= size,
            stacked(j_local@, 3, dim as int, dim as int),
            shaped(a@, 3, 3),
            shaped(j@, size as int, size as int),
            forall|s: int|
                0 <= s < u ==> (#[trigger] j@[s])@ == system_matrix(
                    blocks(j_local@),
                    rows(a@),
                    dt,
                    dim as nat,
                )[s],
        decreases size - u,
    {
        let mut v: usize = 0;
        while v < size
            invariant
                size == 3 * dim,
                u < size,
                v <= size,
                stacked(j_local@, 3, dim as int, dim as int),
                shaped(a@, 3, 3),
                shaped(j@, size as int, size as int),
                forall|s: int|
                    0 <= s < u ==> (#[trigger] j@[s])@ == system_matrix(
                        blocks(j_local@),
                        rows(a@),
                        dt,
                        dim as nat,
                    )[s],
                forall|t: int|
                    0 <= t < v ==> j@[u as int]@[t] == system_entry(
                        blocks(j_local@),
                        rows(a@),
                        dt,
                        dim as int,
                        u as int,
                        t,
                    ),
            decreases size - v,
        {
            proof {
                lemma_split_index(u as int, dim as int);
                lemma_split_index(v as int, dim as int);
            }
            let i = u / dim;
            let l = v / dim;
            let m = v % dim;
            let n = u % dim;
            let entry = f_delta::<S>(i, l).mul(f_delta::<S>(n, m)).sub(
                j_local[i][n][m].mul_real(a[i][l].mul(dt)),
            );
            j[u][v] = entry;
            v += 1;
        }
        proof {
            assert(j@[u as int]@ =~= system_matrix(blocks(j_local@), rows(a@), dt, dim as nat)[u as int]);
        }
        u += 1;
    }
    proof {
        assert(rows(j@) =~= system_matrix(blocks(j_local@), rows(a@), dt, dim as nat));
    }
}

/// The right-hand side of the Newton system: the residuals, flattened row
/// after row and negated.
pub fn negated_residuals<S: Scalar>(g: &Vec<Vec<S>>, dim: usize) -> (rhs: Vec<S>)
    requires
        3 * dim <= usize::MAX,
        shaped(g@, 3, dim as int),
    ensures
        rhs@ == negated(rows(g@), dim as nat),
{
    let size = 3 * dim;
    let mut rhs: Vec<S> = Vec::with_capacity(size);
    let mut u: usize = 0;
    while u < size
        invariant
            size == 3 * dim,
            u <= size,
            shaped(g@, 3, dim as int),
            rhs@.len() == u,
            forall|s: int| 0 <= s < u ==> rhs@[s] == negated(rows(g@), dim as nat)[s],
        decreases size - u,
    {
        proof {
            lemma_split_index(u as int, dim as int);
        }
        rhs.push(g[u / dim][u % dim].neg());
        u += 1;
    }
    proof {
        assert(rhs@ =~= negated(rows(g@), dim as nat));
    }
    rhs
}

/// Adds the Newton correction `delta`, read as three rows, to `k`.
pub fn correct<S: Scalar>(k: &mut Vec<Vec<S>>, delta: &Vec<S>, dim: usize)
    requires
        3 * dim <= usize::MAX,
        shaped(old(k)@, 3, dim as int),
        delta@.len() == 3 * dim,
    ensures
        shaped(final(k)@, 3, dim as int),
        rows(final(k)@) == corrected(rows(old(k)@), delta@, dim as nat),
{
    let mut i: usize = 0;
    while i < 3
        invariant
            i <= 3,
            3 * dim <= usize::MAX,
            shaped(k@, 3, dim as int),
            shaped(old(k)@, 3, dim as int),
            delta@.len() == 3 * dim,
            forall|l: int|
                0 <= l < i ==> (#[trigger] k@[l])@ == corrected(
                    rows(old(k)@),
                    delta@,
                    dim as nat,
                )[l],
            forall|l: int| i <= l < 3 ==> (#[trigger] k@[l])@ == old(k)@[l]@,
        decreases 3 - i,
    {
        let mut p: usize = 0;
        while p < dim
            invariant
                i < 3,
                p <= dim,
                3 * dim <= usize::MAX,
                shaped(k@, 3, dim as int),
                shaped(old(k)@, 3, dim as int),
                delta@.len() == 3 * dim,
                forall|l: int|
                    0 <= l < i ==> (#[trigger] k@[l])@ == corrected(
                        rows(old(k)@),
                        delta@,
                        dim as nat,
                    )[l],
                forall|l: int| i < l < 3 ==> (#[trigger] k@[l])@ == old(k)@[l]@,
                forall|q: int|
                    0 <= q < p ==> k@[i as int]@[q] == old(k)@[i as int]@[q].add_spec(
                        delta@[i * dim + q],
                    ),
                forall|q: int| p <= q < dim ==> k@[i as int]@[q] == old(k)@[i as int]@[q],
            decreases dim - p,
        {
            assert(0 <= i * dim && i * dim + p < 3 * dim) by (nonlinear_arith)
                requires
                    i < 3,
                    p < dim,
            ;
            let v = k[i][p].add(delta[i * dim + p]);
            k[i][p] = v;
            p += 1;
        }
        proof {
            assert(k@[i as int]@ =~= corrected(rows(old(k)@), delta@, dim as nat)[i as int]);
        }
        i += 1;
    }
    proof {
        assert(rows(k@) =~= corrected(rows(old(k)@), delta@, dim as nat));
    }
}

/// Whether every component of `delta` is smaller in magnitude than `epsilon`.
pub fn is_negligible<S: Scalar>(delta: &Vec<S>, epsilon: S::Real) -> (r: bool)
    ensures
        r == negligible(delta@, epsilon),
{
    let len = delta.len();
    let mut u: usize = 0;
    while u < len
        invariant
            len == delta@.len(),
            u <= len,
            forall|s: int| 0 <= s < u ==> (#[trigger] delta@[s]).abs_spec().lt_spec(epsilon),
        decreases len - u,
    {
        if !delta[u].abs().lt(epsilon) {
            return false;
        }
        u += 1;
    }
    true
}

} // verus!

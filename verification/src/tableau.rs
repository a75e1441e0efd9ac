//! The Butcher tableau of the three-stage Gauss-Legendre method of order six.
//!
//! The coefficients are irrational. They are not tabulated but computed, in
//! the arithmetic of the real type at hand, from the integers of their closed
//! forms, so that every real type gets its own best values.
use vstd::prelude::*;
use crate::scalar::{Real, rows};

verus! {

/// The number of stages.
pub const STAGES: usize = 3;

/// The fraction `p / q`.
pub open spec fn ratio_spec<R: Real>(p: u64, q: u64) -> R {
    R::from_u64_spec(p).div_spec(R::from_u64_spec(q))
}

/// The quotient `√15 / q`.
pub open spec fn root_spec<R: Real>(q: u64) -> R {
    R::from_u64_spec(15).sqrt_spec().div_spec(R::from_u64_spec(q))
}

/// The coupling matrix `A`, row by row:
///
/// ```text
/// 5/36            2/9 - √15/15    5/36 - √15/30
/// 5/36 + √15/24   2/9             5/36 - √15/24
/// 5/36 + √15/30   2/9 + √15/15    5/36
/// ```
pub open spec fn coupling<R: Real>() -> Seq<Seq<R>> {
    seq![
        seq![
            ratio_spec::<R>(5, 36),
            ratio_spec::<R>(2, 9).sub_spec(root_spec::<R>(15)),
            ratio_spec::<R>(5, 36).sub_spec(root_spec::<R>(30)),
        ],
        seq![
            ratio_spec::<R>(5, 36).add_spec(root_spec::<R>(24)),
            ratio_spec::<R>(2, 9),
            ratio_spec::<R>(5, 36).sub_spec(root_spec::<R>(24)),
        ],
        seq![
            ratio_spec::<R>(5, 36).add_spec(root_spec::<R>(30)),
            ratio_spec::<R>(2, 9).add_spec(root_spec::<R>(15)),
            ratio_spec::<R>(5, 36),
        ],
    ]
}

/// The weights `b = (5/18, 4/9, 5/18)`.
pub open spec fn weights<R: Real>() -> Seq<R> {
    seq![ratio_spec::<R>(5, 18), ratio_spec::<R>(4, 9), ratio_spec::<R>(5, 18)]
}

/// The nodes `c = (1/2 - √15/10, 1/2, 1/2 + √15/10)`.
pub open spec fn nodes<R: Real>() -> Seq<R> {
    seq![
        ratio_spec::<R>(1, 2).sub_spec(root_spec::<R>(10)),
        ratio_spec::<R>(1, 2),
        ratio_spec::<R>(1, 2).add_spec(root_spec::<R>(10)),
    ]
}

/// The bound `10⁻¹²` under which a Newton correction counts as negligible.
pub open spec fn tolerance<R: Real>() -> R {
    ratio_spec::<R>(1, 1_000_000_000_000)
}

pub fn ratio<R: Real>(p: u64, q: u64) -> (r: R)
    ensures
        r == ratio_spec::<R>(p, q),
{
    R::from_u64(p).div(R::from_u64(q))
}

pub fn root<R: Real>(q: u64) -> (r: R)
    ensures
        r == root_spec::<R>(q),
{
    R::from_u64(15).sqrt().div(R::from_u64(q))
}

/// Builds the coupling matrix `A`.
pub fn coupling_matrix<R: Real>() -> (a: Vec<Vec<R>>)
    ensures
        rows(a@) == coupling::<R>(),
{
    let r0: Vec<R> = vec![
        ratio::<R>(5, 36),
        ratio::<R>(2, 9).sub(root::<R>(15)),
        ratio::<R>(5, 36).sub(root::<R>(30)),
    ];
    let r1: Vec<R> = vec![
        ratio::<R>(5, 36).add(root::<R>(24)),
        ratio::<R>(2, 9),
        ratio::<R>(5, 36).sub(root::<R>(24)),
    ];
    let r2: Vec<R> = vec![
        ratio::<R>(5, 36).add(root::<R>(30)),
        ratio::<R>(2, 9).add(root::<R>(15)),
        ratio::<R>(5, 36),
    ];
    let a: Vec<Vec<R>> = vec![r0, r1, r2];
    proof {
        assert(rows(a@)[0] =~= coupling::<R>()[0]);
        assert(rows(a@)[1] =~= coupling::<R>()[1]);
        assert(rows(a@)[2] =~= coupling::<R>()[2]);
        assert(rows(a@) =~= coupling::<R>());
    }
    a
}

/// Builds the weights `b`.
pub fn weight_vector<R: Real>() -> (b: Vec<R>)
    ensures
        b@ == weights::<R>(),
{
    let b: Vec<R> = vec![ratio::<R>(5, 18), ratio::<R>(4, 9), ratio::<R>(5, 18)];
    proof {
        assert(b@ =~= weights::<R>());
    }
    b
}

/// Builds the nodes `c`.
pub fn node_vector<R: Real>() -> (c: Vec<R>)
    ensures
        c@ == nodes::<R>(),
{
    let c: Vec<R> = vec![
        ratio::<R>(1, 2).sub(root::<R>(10)),
        ratio::<R>(1, 2),
        ratio::<R>(1, 2).add(root::<R>(10)),
    ];
    proof {
        assert(c@ =~= nodes::<R>());
    }
    c
}

} // verus!

//! Exact quadratic-root solver for a*x^2 + b*x + c = 0 over the integers,
//! including the degenerate a == 0 cases. Roots are returned in exact
//! symbolic form (n + q*sqrt(d)) / den, so the case analysis, the root count
//! and the root order are all pinned exactly by the contract.
//!
//! The a == 0, c != 0 branch deliberately keeps a non-standard historical
//! formula of this kernel, -b/c (the standard solution of b*x + c = 0 would
//! be -c/b); for a == 0, c == 0 it reports the single root 0 even when
//! b == 0. Downstream consumers depend on both quirks, so they are kept and
//! flagged for the maintainers rather than silently corrected.

use vstd::prelude::*;

use crate::vec3::lemma_mul_bound;

verus! {

/// One real root in exact symbolic form: the value (n + q*sqrt(d)) / den.
/// Rational roots carry q == 0 and d == 0.
#[derive(Copy, Clone, Debug, PartialEq, Eq, Structural)]
pub struct Root {
    pub n: i128,
    pub q: i128,
    pub den: i128,
    pub d: i128,
}

/// The mathematical content of a `Root`, as a quadruple of unbounded
/// integers (n, q, den, d).
pub open spec fn root_model(r: Root) -> (int, int, int, int) {
    (r.n as int, r.q as int, r.den as int, r.d as int)
}

/// Discriminant of a*x^2 + b*x + c.
pub open spec fn disc(a: int, b: int, c: int) -> int {
    b * b - 4 * (a * c)
}

/// The exact root sequence of a*x^2 + b*x + c = 0, as root models, in the
/// order the solver must report them: for a positive discriminant the root
/// with +sqrt(d) comes first.
pub open spec fn quad_roots(a: int, b: int, c: int) -> Seq<(int, int, int, int)> {
    if a == 0 {
        if c == 0 {
            seq![(0int, 0int, 1int, 0int)]
        } else {
            seq![(-b, 0int, c, 0int)]
        }
    } else if disc(a, b, c) == 0 {
        seq![(-b, 0int, 2 * a, 0int)]
    } else if disc(a, b, c) > 0 {
        seq![(-b, 1int, 2 * a, disc(a, b, c)), (-b, -1int, 2 * a, disc(a, b, c))]
    } else {
        Seq::<(int, int, int, int)>::empty()
    }
}

/// Solve a*x^2 + b*x + c = 0 exactly. The result holds 0, 1 or 2 roots,
/// exactly the sequence `quad_roots(a, b, c)`, in that order. The bound on
/// the coefficients only keeps the discriminant inside the machine-integer
/// range.
pub fn resolve_quad(a: i128, b: i128, c: i128) -> (r: Vec<Root>)
    requires
        -1_000_000_000_000_000_000 <= a <= 1_000_000_000_000_000_000,
        -1_000_000_000_000_000_000 <= b <= 1_000_000_000_000_000_000,
        -1_000_000_000_000_000_000 <= c <= 1_000_000_000_000_000_000,
    ensures
        r@.len() == quad_roots(a as int, b as int, c as int).len(),
        forall|i: int| 0 <= i < r@.len()
            ==> root_model(r@[i]) == quad_roots(a as int, b as int, c as int)[i],
{
    proof {
        lemma_mul_bound(b as int, b as int, 1_000_000_000_000_000_000, 1_000_000_000_000_000_000);
        lemma_mul_bound(a as int, c as int, 1_000_000_000_000_000_000, 1_000_000_000_000_000_000);
    }
    let delta: i128 = b * b - 4 * (a * c);
    let mut r: Vec<Root> = Vec::new();
    if a == 0 {
        if c == 0 {
            r.push(Root { n: 0, q: 0, den: 1, d: 0 });
            assert(root_model(r@[0]) == quad_roots(a as int, b as int, c as int)[0]);
            return r;
        }
        r.push(Root { n: -b, q: 0, den: c, d: 0 });
        assert(root_model(r@[0]) == quad_roots(a as int, b as int, c as int)[0]);
        return r;
    }
    if delta == 0 {
        r.push(Root { n: -b, q: 0, den: 2 * a, d: 0 });
        assert(root_model(r@[0]) == quad_roots(a as int, b as int, c as int)[0]);
        return r;
    } else if delta > 0 {
        r.push(Root { n: -b, q: 1, den: 2 * a, d: delta });
        r.push(Root { n: -b, q: -1, den: 2 * a, d: delta });
        assert(root_model(r@[0]) == quad_roots(a as int, b as int, c as int)[0]);
        assert(root_model(r@[1]) == quad_roots(a as int, b as int, c as int)[1]);
        return r;
    }
    r
}

/// Substituting x = (n + q*sqrt(d))/den into a*x^2 + b*x + c and multiplying
/// through by den^2 yields quad_eval_rat + quad_eval_rad * sqrt(d): this is
/// the part free of the radical ...
pub open spec fn quad_eval_rat(a: int, b: int, c: int, n: int, q: int, den: int, d: int) -> int {
    a * (n * n + q * q * d) + b * n * den + c * (den * den)
}

/// ... and this is the coefficient of sqrt(d).
pub open spec fn quad_eval_rad(a: int, b: int, c: int, n: int, q: int, den: int) -> int {
    2 * a * n * q + b * q * den
}

/// A root model is an exact solution of a*x^2 + b*x + c = 0: after clearing
/// the denominator, both the rational part and the radical part of the
/// evaluation vanish.
pub open spec fn solves_quad(a: int, b: int, c: int, r: (int, int, int, int)) -> bool {
    &&& quad_eval_rat(a, b, c, r.0, r.1, r.2, r.3) == 0
    &&& quad_eval_rad(a, b, c, r.0, r.1, r.2) == 0
}

/// Law: every root the solver reports for a genuine quadratic (a != 0), and
/// the root it reports in the doubly degenerate case a == 0, c == 0, solves
/// the equation exactly. The remaining case, a == 0 with c != 0, is excluded:
/// there the solver intentionally keeps the historical formula -b/c, which
/// is not in general a root of b*x + c = 0.
pub proof fn lemma_quad_roots_solve(a: int, b: int, c: int)
    requires
        a != 0 || c == 0,
    ensures
        forall|i: int| 0 <= i < quad_roots(a, b, c).len()
            ==> #[trigger] solves_quad(a, b, c, quad_roots(a, b, c)[i]),
{
    let rs = quad_roots(a, b, c);
    if a == 0 {
        assert(solves_quad(a, b, c, rs[0]));
    } else {
        let dd = disc(a, b, c);
        if dd == 0 {
            assert(a * ((-b) * (-b) + 0 * 0 * 0) + b * (-b) * (2 * a) + c * ((2 * a) * (2 * a))
                == 0) by (nonlinear_arith)
                requires
                    b * b - 4 * (a * c) == 0;
            assert(2 * a * (-b) * 0 + b * 0 * (2 * a) == 0) by (nonlinear_arith);
            assert(solves_quad(a, b, c, rs[0]));
        } else if dd > 0 {
            assert(a * ((-b) * (-b) + 1 * 1 * (b * b - 4 * (a * c))) + b * (-b) * (2 * a) + c * ((2
                * a) * (2 * a)) == 0) by (nonlinear_arith);
            assert(2 * a * (-b) * 1 + b * 1 * (2 * a) == 0) by (nonlinear_arith);
            assert(a * ((-b) * (-b) + (-1) * (-1) * (b * b - 4 * (a * c))) + b * (-b) * (2 * a) + c
                * ((2 * a) * (2 * a)) == 0) by (nonlinear_arith);
            assert(2 * a * (-b) * (-1) + b * (-1) * (2 * a) == 0) by (nonlinear_arith);
            assert(solves_quad(a, b, c, rs[0]));
            assert(solves_quad(a, b, c, rs[1]));
        }
    }
}

} // verus!

//! Plane-to-sphere tangent solver, exact over the integers. The sphere is
//! always centered at the coordinate origin. Given a plane through `origin`
//! spanned by `dir0` and `dir1`, the candidate directions `dir0 + alpha*dir1`
//! tangent to the sphere are the roots `alpha` of a quadratic whose
//! coefficients are exact integer dot products; for each root the tangent
//! point itself is the foot of the perpendicular from the sphere center onto
//! the tangent line.
//!
//! A root is in general (n + q*sqrt(d))/den, so the tangent point is returned
//! in exact homogeneous form: three surd numerators over a common surd
//! denominator `w`, all in the quadratic field generated by sqrt(d).

use vstd::prelude::*;

use crate::quadratic::Root;
use crate::quadratic::disc;
use crate::quadratic::quad_roots;
use crate::quadratic::resolve_quad;
use crate::quadratic::root_model;
use crate::vec3::Vect3;
use crate::vec3::bounded3;
use crate::vec3::boundedt;
use crate::vec3::cross3;
use crate::vec3::dot3;
use crate::vec3::lemma_cross3_bound;
use crate::vec3::lemma_dot3_bound;
use crate::vec3::lemma_mul_bound;
use crate::vec3::model3;
use crate::vec3::scale3;
use crate::vec3::sub3;

verus! {

/// An exact scalar of the form r + s*sqrt(d), for a discriminant d carried
/// by the surrounding value.
#[derive(Copy, Clone, Debug, PartialEq, Eq, Structural)]
pub struct Surd {
    pub r: i128,
    pub s: i128,
}

/// The mathematical content of a surd scalar, as a pair (r, s).
pub open spec fn surd_model(x: Surd) -> (int, int) {
    (x.r as int, x.s as int)
}

/// One tangent point in exact homogeneous form: the point is
/// ((x, y, z) each read as r + s*sqrt(d)) divided by w read the same way.
#[derive(Copy, Clone, Debug, PartialEq, Eq, Structural)]
pub struct TangentPoint {
    pub x: Surd,
    pub y: Surd,
    pub z: Surd,
    pub w: Surd,
    pub d: i128,
}

/// Product of two surds over sqrt(d): (x0 + x1*sqrt(d)) * (y0 + y1*sqrt(d)).
pub open spec fn s_mul(x: (int, int), y: (int, int), d: int) -> (int, int) {
    (x.0 * y.0 + (x.1 * y.1) * d, x.0 * y.1 + x.1 * y.0)
}

/// Product of a surd and a plain integer.
pub open spec fn s_mul_int(x: (int, int), k: int) -> (int, int) {
    (x.0 * k, x.1 * k)
}

/// Sum of two surds over the same radical.
pub open spec fn s_add(x: (int, int), y: (int, int)) -> (int, int) {
    (x.0 + y.0, x.1 + y.1)
}

/// Difference of two surds over the same radical.
pub open spec fn s_sub(x: (int, int), y: (int, int)) -> (int, int) {
    (x.0 - y.0, x.1 - y.1)
}

/// The tangent direction for the root alpha = (n + q*sqrt(d))/den, scaled by
/// den to clear the denominator: den*u0 + (n + q*sqrt(d))*u1. First
/// component ...
pub open spec fn dv_x(u0: (int, int, int), u1: (int, int, int), n: int, q: int, den: int) -> (int, int) {
    (den * u0.0 + n * u1.0, q * u1.0)
}

/// ... second component ...
pub open spec fn dv_y(u0: (int, int, int), u1: (int, int, int), n: int, q: int, den: int) -> (int, int) {
    (den * u0.1 + n * u1.1, q * u1.1)
}

/// ... third component.
pub open spec fn dv_z(u0: (int, int, int), u1: (int, int, int), n: int, q: int, den: int) -> (int, int) {
    (den * u0.2 + n * u1.2, q * u1.2)
}

/// Dot product of the scaled tangent direction with the plane origin.
pub open spec fn s1_of(o: (int, int, int), u0: (int, int, int), u1: (int, int, int), n: int, q: int, den: int) -> (int, int) {
    s_add(
        s_add(s_mul_int(dv_x(u0, u1, n, q, den), o.0), s_mul_int(dv_y(u0, u1, n, q, den), o.1)),
        s_mul_int(dv_z(u0, u1, n, q, den), o.2),
    )
}

/// Dot product of the scaled tangent direction with itself; this is also the
/// homogeneous denominator of the tangent point.
pub open spec fn s2_of(u0: (int, int, int), u1: (int, int, int), n: int, q: int, den: int, d: int) -> (int, int) {
    s_add(
        s_add(
            s_mul(dv_x(u0, u1, n, q, den), dv_x(u0, u1, n, q, den), d),
            s_mul(dv_y(u0, u1, n, q, den), dv_y(u0, u1, n, q, den), d),
        ),
        s_mul(dv_z(u0, u1, n, q, den), dv_z(u0, u1, n, q, den), d),
    )
}

/// Homogeneous numerator of the tangent point, first coordinate: with
/// w = s2_of and s1 = s1_of, the point is (w*o - s1*dv) / w, the foot of the
/// perpendicular from the sphere center onto the tangent line.
pub open spec fn ph_x(o: (int, int, int), u0: (int, int, int), u1: (int, int, int), n: int, q: int, den: int, d: int) -> (int, int) {
    s_sub(
        s_mul_int(s2_of(u0, u1, n, q, den, d), o.0),
        s_mul(s1_of(o, u0, u1, n, q, den), dv_x(u0, u1, n, q, den), d),
    )
}

/// Homogeneous numerator of the tangent point, second coordinate.
pub open spec fn ph_y(o: (int, int, int), u0: (int, int, int), u1: (int, int, int), n: int, q: int, den: int, d: int) -> (int, int) {
    s_sub(
        s_mul_int(s2_of(u0, u1, n, q, den, d), o.1),
        s_mul(s1_of(o, u0, u1, n, q, den), dv_y(u0, u1, n, q, den), d),
    )
}

/// Homogeneous numerator of the tangent point, third coordinate.
pub open spec fn ph_z(o: (int, int, int), u0: (int, int, int), u1: (int, int, int), n: int, q: int, den: int, d: int) -> (int, int) {
    s_sub(
        s_mul_int(s2_of(u0, u1, n, q, den, d), o.2),
        s_mul(s1_of(o, u0, u1, n, q, den), dv_z(u0, u1, n, q, den), d),
    )
}

/// The tangent point `p` is exactly the homogeneous foot of the perpendicular
/// for the root model `rt` = (n, q, den, d) in the frame (o, u0, u1).
pub open spec fn tp_matches(p: TangentPoint, o: (int, int, int), u0: (int, int, int), u1: (int, int, int), rt: (int, int, int, int)) -> bool {
    &&& surd_model(p.x) == ph_x(o, u0, u1, rt.0, rt.1, rt.2, rt.3)
    &&& surd_model(p.y) == ph_y(o, u0, u1, rt.0, rt.1, rt.2, rt.3)
    &&& surd_model(p.z) == ph_z(o, u0, u1, rt.0, rt.1, rt.2, rt.3)
    &&& surd_model(p.w) == s2_of(u0, u1, rt.0, rt.1, rt.2, rt.3)
    &&& p.d == rt.3
}

/// Exact surd product. The ghost bounds only serve the overflow proof.
fn s_mul_e(x: Surd, y: Surd, d: i128, Ghost(bx): Ghost<(int, int)>, Ghost(by): Ghost<(int, int)>, Ghost(bd): Ghost<int>) -> (r: Surd)
    requires
        -bx.0 <= x.r <= bx.0,
        -bx.1 <= x.s <= bx.1,
        -by.0 <= y.r <= by.0,
        -by.1 <= y.s <= by.1,
        0 <= d <= bd,
        bx.1 * by.1 <= i128::MAX as int,
        bx.0 * by.0 + (bx.1 * by.1) * bd <= i128::MAX as int,
        bx.0 * by.1 + bx.1 * by.0 <= i128::MAX as int,
    ensures
        surd_model(r) == s_mul(surd_model(x), surd_model(y), d as int),
        -(bx.0 * by.0 + (bx.1 * by.1) * bd) <= r.r <= bx.0 * by.0 + (bx.1 * by.1) * bd,
        -(bx.0 * by.1 + bx.1 * by.0) <= r.s <= bx.0 * by.1 + bx.1 * by.0,
{
    proof {
        lemma_mul_bound(x.r as int, y.r as int, bx.0, by.0);
        lemma_mul_bound(x.s as int, y.s as int, bx.1, by.1);
        lemma_mul_bound(x.s as int * y.s as int, d as int, bx.1 * by.1, bd);
        lemma_mul_bound(x.r as int, y.s as int, bx.0, by.1);
        lemma_mul_bound(x.s as int, y.r as int, bx.1, by.0);
    }
    Surd { r: x.r * y.r + (x.s * y.s) * d, s: x.r * y.s + x.s * y.r }
}

/// Exact product of a surd and a plain integer.
fn s_mul_int_e(x: Surd, k: i128, Ghost(bx): Ghost<(int, int)>, Ghost(bk): Ghost<int>) -> (r: Surd)
    requires
        -bx.0 <= x.r <= bx.0,
        -bx.1 <= x.s <= bx.1,
        -bk <= k <= bk,
        bx.0 * bk <= i128::MAX as int,
        bx.1 * bk <= i128::MAX as int,
    ensures
        surd_model(r) == s_mul_int(surd_model(x), k as int),
        -(bx.0 * bk) <= r.r <= bx.0 * bk,
        -(bx.1 * bk) <= r.s <= bx.1 * bk,
{
    proof {
        lemma_mul_bound(x.r as int, k as int, bx.0, bk);
        lemma_mul_bound(x.s as int, k as int, bx.1, bk);
    }
    Surd { r: x.r * k, s: x.s * k }
}

/// Exact surd sum.
fn s_add_e(x: Surd, y: Surd) -> (r: Surd)
    requires
        i128::MIN as int <= x.r + y.r <= i128::MAX as int,
        i128::MIN as int <= x.s + y.s <= i128::MAX as int,
    ensures
        surd_model(r) == s_add(surd_model(x), surd_model(y)),
{
    Surd { r: x.r + y.r, s: x.s + y.s }
}

/// Exact surd difference.
fn s_sub_e(x: Surd, y: Surd) -> (r: Surd)
    requires
        i128::MIN as int <= x.r - y.r <= i128::MAX as int,
        i128::MIN as int <= x.s - y.s <= i128::MAX as int,
    ensures
        surd_model(r) == s_sub(surd_model(x), surd_model(y)),
{
    Surd { r: x.r - y.r, s: x.s - y.s }
}

/// Map one solved root to its exact tangent point: the foot of the
/// perpendicular from the sphere center onto the line through `o` with
/// direction u0 + alpha*u1, in homogeneous surd form. The bounds on the
/// inputs only keep the machine arithmetic in range.
pub fn tangent_point(o: &Vect3, u0: &Vect3, u1: &Vect3, root: &Root) -> (p: TangentPoint)
    requires
        bounded3(*o, 10_000),
        bounded3(*u0, 10_000),
        bounded3(*u1, 10_000),
        -100_000_000_000 <= root.n <= 100_000_000_000,
        -1 <= root.q <= 1,
        -200_000_000_000 <= root.den <= 200_000_000_000,
        0 <= root.d <= 50_000_000_000_000_000_000_000,
    ensures
        tp_matches(p, model3(*o), model3(*u0), model3(*u1), root_model(*root)),
{
    let n = root.n;
    let q = root.q;
    let den = root.den;
    let d = root.d;
    proof {
        lemma_mul_bound(den as int, u0.x as int, 200_000_000_000, 10_000);
        lemma_mul_bound(den as int, u0.y as int, 200_000_000_000, 10_000);
        lemma_mul_bound(den as int, u0.z as int, 200_000_000_000, 10_000);
        lemma_mul_bound(n as int, u1.x as int, 100_000_000_000, 10_000);
        lemma_mul_bound(n as int, u1.y as int, 100_000_000_000, 10_000);
        lemma_mul_bound(n as int, u1.z as int, 100_000_000_000, 10_000);
        lemma_mul_bound(q as int, u1.x as int, 1, 10_000);
        lemma_mul_bound(q as int, u1.y as int, 1, 10_000);
        lemma_mul_bound(q as int, u1.z as int, 1, 10_000);
    }
    let dvx = Surd { r: den * u0.x + n * u1.x, s: q * u1.x };
    let dvy = Surd { r: den * u0.y + n * u1.y, s: q * u1.y };
    let dvz = Surd { r: den * u0.z + n * u1.z, s: q * u1.z };
    let ghost bdv: (int, int) = (3_000_000_000_000_000int, 10_000int);
    let s1 = s_add_e(
        s_add_e(
            s_mul_int_e(dvx, o.x, Ghost(bdv), Ghost(10_000int)),
            s_mul_int_e(dvy, o.y, Ghost(bdv), Ghost(10_000int)),
        ),
        s_mul_int_e(dvz, o.z, Ghost(bdv), Ghost(10_000int)),
    );
    let ghost bd: int = 50_000_000_000_000_000_000_000int;
    let s2 = s_add_e(
        s_add_e(
            s_mul_e(dvx, dvx, d, Ghost(bdv), Ghost(bdv), Ghost(bd)),
            s_mul_e(dvy, dvy, d, Ghost(bdv), Ghost(bdv), Ghost(bd)),
        ),
        s_mul_e(dvz, dvz, d, Ghost(bdv), Ghost(bdv), Ghost(bd)),
    );
    let ghost bs1: (int, int) = (90_000_000_000_000_000_000int, 300_000_000int);
    let ghost bs2: (int, int) = (
        42_000_000_000_000_000_000_000_000_000_000int,
        180_000_000_000_000_000_000int,
    );
    let px = s_sub_e(
        s_mul_int_e(s2, o.x, Ghost(bs2), Ghost(10_000int)),
        s_mul_e(s1, dvx, d, Ghost(bs1), Ghost(bdv), Ghost(bd)),
    );
    let py = s_sub_e(
        s_mul_int_e(s2, o.y, Ghost(bs2), Ghost(10_000int)),
        s_mul_e(s1, dvy, d, Ghost(bs1), Ghost(bdv), Ghost(bd)),
    );
    let pz = s_sub_e(
        s_mul_int_e(s2, o.z, Ghost(bs2), Ghost(10_000int)),
        s_mul_e(s1, dvz, d, Ghost(bs1), Ghost(bdv), Ghost(bd)),
    );
    TangentPoint { x: px, y: py, z: pz, w: s2, d }
}

/// Leading coefficient of the tangency quadratic in alpha: the line through
/// `o` with direction u0 + alpha*u1 touches the sphere of radius `r` exactly
/// when coeff_a*alpha^2 + coeff_b*alpha + coeff_c = 0.
pub open spec fn coeff_a(o: (int, int, int), u0: (int, int, int), u1: (int, int, int), r: int) -> int {
    dot3(u1, o) * dot3(u1, o) - dot3(u1, u1) * (dot3(o, o) - r * r)
}

/// Linear coefficient of the tangency quadratic.
pub open spec fn coeff_b(o: (int, int, int), u0: (int, int, int), u1: (int, int, int), r: int) -> int {
    2 * (dot3(u1, o) * dot3(u0, o)) - 2 * (dot3(u0, u1) * (dot3(o, o) - r * r))
}

/// Constant coefficient of the tangency quadratic.
pub open spec fn coeff_c(o: (int, int, int), u0: (int, int, int), u1: (int, int, int), r: int) -> int {
    dot3(u0, o) * dot3(u0, o) - (dot3(o, o) - r * r) * dot3(u0, u0)
}

/// The root models of the tangency quadratic for the frame (o, u0, u1) and
/// radius r, in solver order.
pub open spec fn sphere_roots(o: (int, int, int), u0: (int, int, int), u1: (int, int, int), r: int) -> Seq<(int, int, int, int)> {
    quad_roots(coeff_a(o, u0, u1, r), coeff_b(o, u0, u1, r), coeff_c(o, u0, u1, r))
}

/// Tangents of the plane through `origin` spanned by `dir0` and `dir1` with
/// the sphere of radius `radius` centered at the coordinate origin, for an
/// already aligned frame: one exact tangent point per root of the tangency
/// quadratic, in solver order. The result holds 0, 1 or 2 points; its
/// cardinality tells whether the plane misses, grazes or crosses the
/// sphere's reach. The bounds in the precondition only keep the machine
/// arithmetic in range.
pub fn tangents_sphere(origin: &Vect3, dir0: &Vect3, dir1: &Vect3, radius: i128) -> (res: Vec<TangentPoint>)
    requires
        bounded3(*origin, 10_000),
        bounded3(*dir0, 10_000),
        bounded3(*dir1, 10_000),
        -10_000 <= radius <= 10_000,
        -100_000_000_000 <= coeff_a(model3(*origin), model3(*dir0), model3(*dir1), radius as int) <= 100_000_000_000,
        -100_000_000_000 <= coeff_b(model3(*origin), model3(*dir0), model3(*dir1), radius as int) <= 100_000_000_000,
        -100_000_000_000 <= coeff_c(model3(*origin), model3(*dir0), model3(*dir1), radius as int) <= 100_000_000_000,
    ensures
        res@.len() == sphere_roots(model3(*origin), model3(*dir0), model3(*dir1), radius as int).len(),
        forall|i: int| 0 <= i < res@.len() ==> tp_matches(
            res@[i],
            model3(*origin),
            model3(*dir0),
            model3(*dir1),
            sphere_roots(model3(*origin), model3(*dir0), model3(*dir1), radius as int)[i],
        ),
{
    let o2 = origin.dot(origin);
    let d1o = dir1.dot(origin);
    let d11 = dir1.dot(dir1);
    let d00 = dir0.dot(dir0);
    let d01 = dir0.dot(dir1);
    let d0o = dir0.dot(origin);
    proof {
        lemma_dot3_bound(model3(*origin), model3(*origin), 10_000, 10_000);
        lemma_dot3_bound(model3(*dir1), model3(*origin), 10_000, 10_000);
        lemma_dot3_bound(model3(*dir1), model3(*dir1), 10_000, 10_000);
        lemma_dot3_bound(model3(*dir0), model3(*dir0), 10_000, 10_000);
        lemma_dot3_bound(model3(*dir0), model3(*dir1), 10_000, 10_000);
        lemma_dot3_bound(model3(*dir0), model3(*origin), 10_000, 10_000);
        lemma_mul_bound(radius as int, radius as int, 10_000, 10_000);
    }
    let m = o2 - radius * radius;
    proof {
        lemma_mul_bound(d1o as int, d1o as int, 300_000_000, 300_000_000);
        lemma_mul_bound(d11 as int, m as int, 300_000_000, 400_000_000);
        lemma_mul_bound(d1o as int, d0o as int, 300_000_000, 300_000_000);
        lemma_mul_bound(d01 as int, m as int, 300_000_000, 400_000_000);
        lemma_mul_bound(d0o as int, d0o as int, 300_000_000, 300_000_000);
        lemma_mul_bound(m as int, d00 as int, 400_000_000, 300_000_000);
    }
    let qa = d1o * d1o - d11 * m;
    let qb = 2 * (d1o * d0o) - 2 * (d01 * m);
    let qc = d0o * d0o - m * d00;
    assert(qa == coeff_a(model3(*origin), model3(*dir0), model3(*dir1), radius as int));
    assert(qb == coeff_b(model3(*origin), model3(*dir0), model3(*dir1), radius as int));
    assert(qc == coeff_c(model3(*origin), model3(*dir0), model3(*dir1), radius as int));
    let roots = resolve_quad(qa, qb, qc);
    proof {
        lemma_mul_bound(qb as int, qb as int, 100_000_000_000, 100_000_000_000);
        lemma_mul_bound(qa as int, qc as int, 100_000_000_000, 100_000_000_000);
    }
    let mut res: Vec<TangentPoint> = Vec::new();
    let mut i: usize = 0;
    while i < roots.len()
        invariant
            bounded3(*origin, 10_000),
            bounded3(*dir0, 10_000),
            bounded3(*dir1, 10_000),
            -100_000_000_000 <= coeff_a(model3(*origin), model3(*dir0), model3(*dir1), radius as int) <= 100_000_000_000,
            -100_000_000_000 <= coeff_b(model3(*origin), model3(*dir0), model3(*dir1), radius as int) <= 100_000_000_000,
            -100_000_000_000 <= coeff_c(model3(*origin), model3(*dir0), model3(*dir1), radius as int) <= 100_000_000_000,
            -50_000_000_000_000_000_000_000 <= disc(
                coeff_a(model3(*origin), model3(*dir0), model3(*dir1), radius as int),
                coeff_b(model3(*origin), model3(*dir0), model3(*dir1), radius as int),
                coeff_c(model3(*origin), model3(*dir0), model3(*dir1), radius as int),
            ) <= 50_000_000_000_000_000_000_000,
            roots@.len() == sphere_roots(model3(*origin), model3(*dir0), model3(*dir1), radius as int).len(),
            forall|j: int| 0 <= j < roots@.len() ==> root_model(roots@[j]) == sphere_roots(
                model3(*origin),
                model3(*dir0),
                model3(*dir1),
                radius as int,
            )[j],
            i <= roots@.len(),
            res@.len() == i,
            forall|j: int| 0 <= j < i ==> tp_matches(
                res@[j],
                model3(*origin),
                model3(*dir0),
                model3(*dir1),
                sphere_roots(model3(*origin), model3(*dir0), model3(*dir1), radius as int)[j],
            ),
        decreases roots@.len() - i,
    {
        let rt = roots[i];
        proof {
            assert(root_model(roots@[i as int]) == sphere_roots(
                model3(*origin),
                model3(*dir0),
                model3(*dir1),
                radius as int,
            )[i as int]);
        }
        let p = tangent_point(origin, dir0, dir1, &rt);
        res.push(p);
        i = i + 1;
    }
    res
}

/// The plane normal: dir0 x dir1.
pub open spec fn spec_normal(d0: (int, int, int), d1: (int, int, int)) -> (int, int, int) {
    cross3(d0, d1)
}

/// The direction from the plane origin to the foot of the perpendicular from
/// the sphere center onto the plane, scaled by the factor n.n to stay
/// integral: (n.o)*n - (n.n)*o.
pub open spec fn spec_closest_dir(o: (int, int, int), d0: (int, int, int), d1: (int, int, int)) -> (int, int, int) {
    sub3(
        scale3(dot3(spec_normal(d0, d1), o), spec_normal(d0, d1)),
        scale3(dot3(spec_normal(d0, d1), spec_normal(d0, d1)), o),
    )
}

/// First aligned direction: the closest-approach direction, or dir0
/// unchanged when the plane passes through the sphere center (a defensive
/// fallback, deliberately not a true orthonormal axis in that case).
pub open spec fn spec_u0(o: (int, int, int), d0: (int, int, int), d1: (int, int, int)) -> (int, int, int) {
    if spec_closest_dir(o, d0, d1) == (0int, 0int, 0int) {
        d0
    } else {
        spec_closest_dir(o, d0, d1)
    }
}

/// Second aligned direction, orthogonal to the first within the plane:
/// n x u0.
pub open spec fn spec_u1(o: (int, int, int), d0: (int, int, int), d1: (int, int, int)) -> (int, int, int) {
    cross3(spec_normal(d0, d1), spec_u0(o, d0, d1))
}

/// Tangents of an arbitrary plane with the sphere of radius `radius`
/// centered at the coordinate origin. The raw spanning directions are first
/// replaced by the aligned frame (spec_u0, spec_u1), whose first axis points
/// toward the sphere's closest approach, and the tangent search then runs in
/// that frame: the result is exactly `tangents_sphere` on the aligned frame.
/// The bounds in the precondition (including the ones on the aligned frame
/// itself) only keep the machine arithmetic in range.
pub fn tangents_sphere_full(origin: &Vect3, dir0: &Vect3, dir1: &Vect3, radius: i128) -> (res: Vec<TangentPoint>)
    requires
        bounded3(*origin, 10_000),
        bounded3(*dir0, 10_000),
        bounded3(*dir1, 10_000),
        -10_000 <= radius <= 10_000,
        boundedt(spec_u0(model3(*origin), model3(*dir0), model3(*dir1)), 10_000),
        boundedt(spec_u1(model3(*origin), model3(*dir0), model3(*dir1)), 10_000),
        -100_000_000_000 <= coeff_a(
            model3(*origin),
            spec_u0(model3(*origin), model3(*dir0), model3(*dir1)),
            spec_u1(model3(*origin), model3(*dir0), model3(*dir1)),
            radius as int,
        ) <= 100_000_000_000,
        -100_000_000_000 <= coeff_b(
            model3(*origin),
            spec_u0(model3(*origin), model3(*dir0), model3(*dir1)),
            spec_u1(model3(*origin), model3(*dir0), model3(*dir1)),
            radius as int,
        ) <= 100_000_000_000,
        -100_000_000_000 <= coeff_c(
            model3(*origin),
            spec_u0(model3(*origin), model3(*dir0), model3(*dir1)),
            spec_u1(model3(*origin), model3(*dir0), model3(*dir1)),
            radius as int,
        ) <= 100_000_000_000,
    ensures
        res@.len() == sphere_roots(
            model3(*origin),
            spec_u0(model3(*origin), model3(*dir0), model3(*dir1)),
            spec_u1(model3(*origin), model3(*dir0), model3(*dir1)),
            radius as int,
        ).len(),
        forall|i: int| 0 <= i < res@.len() ==> tp_matches(
            res@[i],
            model3(*origin),
            spec_u0(model3(*origin), model3(*dir0), model3(*dir1)),
            spec_u1(model3(*origin), model3(*dir0), model3(*dir1)),
            sphere_roots(
                model3(*origin),
                spec_u0(model3(*origin), model3(*dir0), model3(*dir1)),
                spec_u1(model3(*origin), model3(*dir0), model3(*dir1)),
                radius as int,
            )[i],
        ),
{
    let n = dir0.cross(dir1);
    proof {
        lemma_cross3_bound(model3(*dir0), model3(*dir1), 10_000, 10_000);
    }
    let no = n.dot(origin);
    let nn = n.dot(&n);
    proof {
        lemma_dot3_bound(model3(n), model3(*origin), 200_000_000, 10_000);
        lemma_dot3_bound(model3(n), model3(n), 200_000_000, 200_000_000);
        lemma_mul_bound(no as int, n.x as int, 6_000_000_000_000, 200_000_000);
        lemma_mul_bound(no as int, n.y as int, 6_000_000_000_000, 200_000_000);
        lemma_mul_bound(no as int, n.z as int, 6_000_000_000_000, 200_000_000);
        lemma_mul_bound(nn as int, origin.x as int, 120_000_000_000_000_000, 10_000);
        lemma_mul_bound(nn as int, origin.y as int, 120_000_000_000_000_000, 10_000);
        lemma_mul_bound(nn as int, origin.z as int, 120_000_000_000_000_000, 10_000);
    }
    let v = n.scale(no).sub(&origin.scale(nn));
    let vz = v.x == 0 && v.y == 0 && v.z == 0;
    let u0 = if vz {
        *dir0
    } else {
        v
    };
    assert(model3(u0) == spec_u0(model3(*origin), model3(*dir0), model3(*dir1)));
    let u1 = n.cross(&u0);
    assert(model3(u1) == spec_u1(model3(*origin), model3(*dir0), model3(*dir1)));
    tangents_sphere(origin, &u0, &u1, radius)
}

} // verus!

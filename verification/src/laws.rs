//! The general properties the kernel promises, stated and proved over the
//! exact models: the aligned frame is orthogonal, every tangent point lies
//! in its plane, every tangent point lies on the sphere, and the tangent
//! computation is a pure function of its inputs.

use vstd::prelude::*;

use crate::tangent::TangentPoint;
use crate::tangent::ph_x;
use crate::tangent::ph_y;
use crate::tangent::ph_z;
use crate::tangent::s1_of;
use crate::tangent::s2_of;
use crate::tangent::s_add;
use crate::tangent::s_mul;
use crate::tangent::s_mul_int;
use crate::tangent::s_sub;
use crate::tangent::spec_closest_dir;
use crate::tangent::spec_normal;
use crate::tangent::spec_u0;
use crate::tangent::spec_u1;
use crate::tangent::sphere_roots;
use crate::tangent::tp_matches;
use crate::tangent::coeff_a;
use crate::tangent::coeff_b;
use crate::tangent::coeff_c;
use crate::vec3::add3;
use crate::vec3::cross3;
use crate::vec3::dot3;
use crate::vec3::scale3;
use crate::vec3::sub3;

verus! {

/// Scalar core of `lemma_cross_orthogonal`: orthogonality to the first
/// factor ...
proof fn lemma_cross_scalar_first(a0: int, a1: int, a2: int, b0: int, b1: int, b2: int) by (nonlinear_arith)
    ensures
        (a1 * b2 - a2 * b1) * a0 + (a2 * b0 - a0 * b2) * a1 + (a0 * b1 - a1 * b0) * a2 == 0,
{
}

/// ... to the second factor ...
proof fn lemma_cross_scalar_second(a0: int, a1: int, a2: int, b0: int, b1: int, b2: int) by (nonlinear_arith)
    ensures
        (a1 * b2 - a2 * b1) * b0 + (a2 * b0 - a0 * b2) * b1 + (a0 * b1 - a1 * b0) * b2 == 0,
{
}

/// ... and the same two facts with the dot product taken the other way round.
proof fn lemma_cross_scalar_first_flip(a0: int, a1: int, a2: int, b0: int, b1: int, b2: int) by (nonlinear_arith)
    ensures
        a0 * (a1 * b2 - a2 * b1) + a1 * (a2 * b0 - a0 * b2) + a2 * (a0 * b1 - a1 * b0) == 0,
{
}

proof fn lemma_cross_scalar_second_flip(a0: int, a1: int, a2: int, b0: int, b1: int, b2: int) by (nonlinear_arith)
    ensures
        b0 * (a1 * b2 - a2 * b1) + b1 * (a2 * b0 - a0 * b2) + b2 * (a0 * b1 - a1 * b0) == 0,
{
}

/// A cross product is orthogonal to both of its factors.
pub proof fn lemma_cross_orthogonal(a: (int, int, int), b: (int, int, int))
    ensures
        dot3(cross3(a, b), a) == 0,
        dot3(cross3(a, b), b) == 0,
        dot3(a, cross3(a, b)) == 0,
        dot3(b, cross3(a, b)) == 0,
{
    lemma_cross_scalar_first(a.0, a.1, a.2, b.0, b.1, b.2);
    lemma_cross_scalar_second(a.0, a.1, a.2, b.0, b.1, b.2);
    lemma_cross_scalar_first_flip(a.0, a.1, a.2, b.0, b.1, b.2);
    lemma_cross_scalar_second_flip(a.0, a.1, a.2, b.0, b.1, b.2);
}

/// The foot-of-perpendicular direction (n.o)*n - (n.n)*o is orthogonal to n.
proof fn lemma_foot_perp(o: (int, int, int), n: (int, int, int))
    ensures
        dot3(sub3(scale3(dot3(n, o), n), scale3(dot3(n, n), o)), n) == 0,
{
    let k1 = dot3(n, o);
    let k2 = dot3(n, n);
    assert((k1 * n.0 - k2 * o.0) * n.0 == k1 * (n.0 * n.0) - k2 * (n.0 * o.0)) by (nonlinear_arith);
    assert((k1 * n.1 - k2 * o.1) * n.1 == k1 * (n.1 * n.1) - k2 * (n.1 * o.1)) by (nonlinear_arith);
    assert((k1 * n.2 - k2 * o.2) * n.2 == k1 * (n.2 * n.2) - k2 * (n.2 * o.2)) by (nonlinear_arith);
    assert(k1 * (n.0 * n.0) + k1 * (n.1 * n.1) + k1 * (n.2 * n.2) == k1 * (n.0 * n.0 + n.1 * n.1
        + n.2 * n.2)) by (nonlinear_arith);
    assert(k2 * (n.0 * o.0) + k2 * (n.1 * o.1) + k2 * (n.2 * o.2) == k2 * (n.0 * o.0 + n.1 * o.1
        + n.2 * o.2)) by (nonlinear_arith);
    assert(k1 * k2 - k2 * k1 == 0) by (nonlinear_arith);
}

/// Law: the aligned frame is genuinely aligned. The closest-approach
/// direction lies in the plane (it is orthogonal to the plane normal), the
/// first aligned axis does too (also in the degenerate fallback, where it is
/// dir0 itself), and the second aligned axis is orthogonal both to the
/// normal and to the first axis.
pub proof fn lemma_aligned_frame_orthogonal(o: (int, int, int), d0: (int, int, int), d1: (int, int, int))
    ensures
        dot3(spec_closest_dir(o, d0, d1), spec_normal(d0, d1)) == 0,
        dot3(spec_u0(o, d0, d1), spec_normal(d0, d1)) == 0,
        dot3(spec_u1(o, d0, d1), spec_normal(d0, d1)) == 0,
        dot3(spec_u1(o, d0, d1), spec_u0(o, d0, d1)) == 0,
{
    let n = spec_normal(d0, d1);
    lemma_foot_perp(o, n);
    lemma_cross_orthogonal(d0, d1);
    if spec_closest_dir(o, d0, d1) == (0int, 0int, 0int) {
        assert(dot3(spec_u0(o, d0, d1), n) == 0);
    }
    lemma_cross_orthogonal(n, spec_u0(o, d0, d1));
}

/// Scalar core of `lemma_dv_decompose`: the part free of the radical ...
proof fn lemma_dv_decompose_scalar_rat(s0: int, t0: int, ux: int, vx: int, n: int, q: int, den: int, d: int)
    ensures
        s0 * (den * ux + n * vx) + (t0 * (q * vx)) * d == (s0 * den) * ux + (s0 * n + (t0 * q) * d)
            * vx,
{
    assert(s0 * (den * ux + n * vx) == (s0 * den) * ux + (s0 * n) * vx) by (nonlinear_arith);
    assert((t0 * (q * vx)) * d == ((t0 * q) * d) * vx) by (nonlinear_arith);
    assert((s0 * n + (t0 * q) * d) * vx == (s0 * n) * vx + ((t0 * q) * d) * vx) by (nonlinear_arith);
}

/// ... and the coefficient of the radical.
proof fn lemma_dv_decompose_scalar_rad(s0: int, t0: int, ux: int, vx: int, n: int, q: int, den: int)
    ensures
        s0 * (q * vx) + t0 * (den * ux + n * vx) == (t0 * den) * ux + (s0 * q + t0 * n) * vx,
{
    assert(s0 * (q * vx) == (s0 * q) * vx) by (nonlinear_arith);
    assert(t0 * (den * ux + n * vx) == (t0 * den) * ux + (t0 * n) * vx) by (nonlinear_arith);
    assert((s0 * q + t0 * n) * vx == (s0 * q) * vx + (t0 * n) * vx) by (nonlinear_arith);
}

/// One distributive step: multiplying a surd by a component of the scaled
/// tangent direction den*u + (n + q*sqrt(d))*v splits into a u-part and a
/// v-part.
proof fn lemma_dv_decompose(s: (int, int), ux: int, vx: int, n: int, q: int, den: int, d: int)
    ensures
        s_mul(s, (den * ux + n * vx, q * vx), d) == s_add(
            s_mul_int(s_mul_int(s, den), ux),
            s_mul_int(s_mul(s, (n, q), d), vx),
        ),
{
    lemma_dv_decompose_scalar_rat(s.0, s.1, ux, vx, n, q, den, d);
    lemma_dv_decompose_scalar_rad(s.0, s.1, ux, vx, n, q, den);
}

/// Law: every tangent point lies in its plane. Scaled by its homogeneous
/// denominator w = s2, the point decomposes over the frame as
/// w*o - (c0*u0 + c1*u1) with the surd coefficients c0 = s1*den and
/// c1 = s1*(n + q*sqrt(d)): the tangent point is the plane origin plus an
/// exact in-plane displacement.
pub proof fn lemma_tangent_point_in_plane(o: (int, int, int), u0: (int, int, int), u1: (int, int, int), n: int, q: int, den: int, d: int)
    ensures
        ph_x(o, u0, u1, n, q, den, d) == s_sub(
            s_mul_int(s2_of(u0, u1, n, q, den, d), o.0),
            s_add(
                s_mul_int(s_mul_int(s1_of(o, u0, u1, n, q, den), den), u0.0),
                s_mul_int(s_mul(s1_of(o, u0, u1, n, q, den), (n, q), d), u1.0),
            ),
        ),
        ph_y(o, u0, u1, n, q, den, d) == s_sub(
            s_mul_int(s2_of(u0, u1, n, q, den, d), o.1),
            s_add(
                s_mul_int(s_mul_int(s1_of(o, u0, u1, n, q, den), den), u0.1),
                s_mul_int(s_mul(s1_of(o, u0, u1, n, q, den), (n, q), d), u1.1),
            ),
        ),
        ph_z(o, u0, u1, n, q, den, d) == s_sub(
            s_mul_int(s2_of(u0, u1, n, q, den, d), o.2),
            s_add(
                s_mul_int(s_mul_int(s1_of(o, u0, u1, n, q, den), den), u0.2),
                s_mul_int(s_mul(s1_of(o, u0, u1, n, q, den), (n, q), d), u1.2),
            ),
        ),
{
    let s1 = s1_of(o, u0, u1, n, q, den);
    lemma_dv_decompose(s1, u0.0, u1.0, n, q, den, d);
    lemma_dv_decompose(s1, u0.1, u1.1, n, q, den, d);
    lemma_dv_decompose(s1, u0.2, u1.2, n, q, den, d);
}

/// Law: the tangency quadratic is the right quadratic. For any integer
/// alpha, with dv = u0 + alpha*u1 the candidate direction, the quadratic's
/// value at alpha equals (dv.o)^2 - (dv.dv)*(o.o - r^2): so alpha is a root
/// exactly when the line through o with direction dv has distance r from the
/// sphere center, i.e. is tangent to the sphere.
pub proof fn lemma_tangency_condition(o: (int, int, int), u0: (int, int, int), u1: (int, int, int), r: int, alpha: int)
    ensures
        coeff_a(o, u0, u1, r) * (alpha * alpha) + coeff_b(o, u0, u1, r) * alpha + coeff_c(o, u0, u1, r)
            == dot3(add3(u0, scale3(alpha, u1)), o) * dot3(add3(u0, scale3(alpha, u1)), o) - dot3(
            add3(u0, scale3(alpha, u1)),
            add3(u0, scale3(alpha, u1)),
        ) * (dot3(o, o) - r * r),
{
    let p = dot3(u0, o);
    let q1 = dot3(u1, o);
    let e = dot3(u0, u0);
    let f = dot3(u1, u1);
    let g = dot3(u0, u1);
    let m = dot3(o, o) - r * r;
    let dv = add3(u0, scale3(alpha, u1));
    assert((u0.0 + alpha * u1.0) * o.0 == u0.0 * o.0 + alpha * (u1.0 * o.0)) by (nonlinear_arith);
    assert((u0.1 + alpha * u1.1) * o.1 == u0.1 * o.1 + alpha * (u1.1 * o.1)) by (nonlinear_arith);
    assert((u0.2 + alpha * u1.2) * o.2 == u0.2 * o.2 + alpha * (u1.2 * o.2)) by (nonlinear_arith);
    assert(alpha * (u1.0 * o.0) + alpha * (u1.1 * o.1) + alpha * (u1.2 * o.2) == alpha * (u1.0
        * o.0 + u1.1 * o.1 + u1.2 * o.2)) by (nonlinear_arith);
    assert(dot3(dv, o) == p + alpha * q1);
    assert((u0.0 + alpha * u1.0) * (u0.0 + alpha * u1.0) == u0.0 * u0.0 + 2 * (alpha * (u0.0
        * u1.0)) + (alpha * alpha) * (u1.0 * u1.0)) by (nonlinear_arith);
    assert((u0.1 + alpha * u1.1) * (u0.1 + alpha * u1.1) == u0.1 * u0.1 + 2 * (alpha * (u0.1
        * u1.1)) + (alpha * alpha) * (u1.1 * u1.1)) by (nonlinear_arith);
    assert((u0.2 + alpha * u1.2) * (u0.2 + alpha * u1.2) == u0.2 * u0.2 + 2 * (alpha * (u0.2
        * u1.2)) + (alpha * alpha) * (u1.2 * u1.2)) by (nonlinear_arith);
    assert(2 * (alpha * (u0.0 * u1.0)) + 2 * (alpha * (u0.1 * u1.1)) + 2 * (alpha * (u0.2 * u1.2))
        == 2 * (alpha * (u0.0 * u1.0 + u0.1 * u1.1 + u0.2 * u1.2))) by (nonlinear_arith);
    assert((alpha * alpha) * (u1.0 * u1.0) + (alpha * alpha) * (u1.1 * u1.1) + (alpha * alpha) * (
    u1.2 * u1.2) == (alpha * alpha) * (u1.0 * u1.0 + u1.1 * u1.1 + u1.2 * u1.2)) by (nonlinear_arith);
    assert(dot3(dv, dv) == e + 2 * (alpha * g) + (alpha * alpha) * f);
    assert((p + alpha * q1) * (p + alpha * q1) == p * p + 2 * (alpha * (q1 * p)) + (alpha * alpha)
        * (q1 * q1)) by (nonlinear_arith);
    assert((e + 2 * (alpha * g) + (alpha * alpha) * f) * m == e * m + 2 * (alpha * (g * m)) + (
    alpha * alpha) * (f * m)) by (nonlinear_arith);
    assert((alpha * alpha) * (q1 * q1) - (alpha * alpha) * (f * m) == (q1 * q1 - f * m) * (alpha
        * alpha)) by (nonlinear_arith);
    assert(2 * (alpha * (q1 * p)) - 2 * (alpha * (g * m)) == (2 * (q1 * p) - 2 * (g * m)) * alpha)
        by (nonlinear_arith);
    assert(e * m == m * e) by (nonlinear_arith);
}

/// The square of a difference.
proof fn lemma_sq_diff(x: int, y: int) by (nonlinear_arith)
    ensures
        (x - y) * (x - y) == x * x - 2 * (x * y) + y * y,
{
}

/// The square of a product of two factors.
proof fn lemma_pair_sq(k: int, a: int) by (nonlinear_arith)
    ensures
        (k * a) * (k * a) == (k * k) * (a * a),
{
}

/// Regrouping a product of two products.
proof fn lemma_pair_mix(k2: int, oi: int, k1: int, di: int) by (nonlinear_arith)
    ensures
        (k2 * oi) * (k1 * di) == (k2 * k1) * (di * oi),
{
}

/// Square of one homogeneous point component, over free scalars.
proof fn lemma_ph_sq_scalar(k1: int, k2: int, oi: int, di: int)
    ensures
        (k2 * oi - k1 * di) * (k2 * oi - k1 * di) == (k2 * k2) * (oi * oi) - 2 * ((k2 * k1) * (di
            * oi)) + (k1 * k1) * (di * di),
{
    lemma_sq_diff(k2 * oi, k1 * di);
    lemma_pair_sq(k2, oi);
    lemma_pair_sq(k1, di);
    lemma_pair_mix(k2, oi, k1, di);
}

/// A common factor distributes over a three-term sum.
proof fn lemma_sum_factor3(c: int, x0: int, x1: int, x2: int) by (nonlinear_arith)
    ensures
        c * x0 + c * x1 + c * x2 == c * (x0 + x1 + x2),
{
}

/// Regrouping of triple products.
proof fn lemma_mul_regroup(k1: int, k2: int) by (nonlinear_arith)
    ensures
        (k2 * k1) * k1 == k2 * (k1 * k1),
        (k1 * k1) * k2 == k2 * (k1 * k1),
{
}

proof fn lemma_mul_regroup3(k2: int, m: int) by (nonlinear_arith)
    ensures
        k2 * (k2 * m) == (k2 * k2) * m,
{
}

/// A common factor distributes over a difference.
proof fn lemma_mul_dist_sub(c: int, x: int, y: int) by (nonlinear_arith)
    ensures
        c * x - c * y == c * (x - y),
{
}

/// Multiplication commutes.
proof fn lemma_mul_comm(x: int, y: int) by (nonlinear_arith)
    ensures
        x * y == y * x,
{
}

/// Law: on every root of the tangency quadratic the reported point lies
/// exactly on the sphere. For an integer root alpha, with dv = u0 + alpha*u1
/// and the homogeneous foot point P = (dv.dv)*o - (dv.o)*dv (the point the
/// pipeline reports, before dividing by its weight w = dv.dv), the squared
/// length of P is exactly r^2 * w^2: dividing by w puts the point at
/// distance exactly r from the sphere center.
pub proof fn lemma_tangent_point_on_sphere(o: (int, int, int), u0: (int, int, int), u1: (int, int, int), r: int, alpha: int)
    requires
        coeff_a(o, u0, u1, r) * (alpha * alpha) + coeff_b(o, u0, u1, r) * alpha + coeff_c(o, u0, u1, r) == 0,
    ensures
        dot3(
            sub3(
                scale3(dot3(add3(u0, scale3(alpha, u1)), add3(u0, scale3(alpha, u1))), o),
                scale3(dot3(add3(u0, scale3(alpha, u1)), o), add3(u0, scale3(alpha, u1))),
            ),
            sub3(
                scale3(dot3(add3(u0, scale3(alpha, u1)), add3(u0, scale3(alpha, u1))), o),
                scale3(dot3(add3(u0, scale3(alpha, u1)), o), add3(u0, scale3(alpha, u1))),
            ),
        ) == (r * r) * (dot3(add3(u0, scale3(alpha, u1)), add3(u0, scale3(alpha, u1))) * dot3(
            add3(u0, scale3(alpha, u1)),
            add3(u0, scale3(alpha, u1)),
        )),
{
    let dv = add3(u0, scale3(alpha, u1));
    let k1 = dot3(dv, o);
    let k2 = dot3(dv, dv);
    let oo = dot3(o, o);
    let m = oo - r * r;
    let ph = sub3(scale3(k2, o), scale3(k1, dv));
    lemma_ph_sq_scalar(k1, k2, o.0, dv.0);
    lemma_ph_sq_scalar(k1, k2, o.1, dv.1);
    lemma_ph_sq_scalar(k1, k2, o.2, dv.2);
    lemma_sum_factor3(k2 * k2, o.0 * o.0, o.1 * o.1, o.2 * o.2);
    lemma_sum_factor3(k2 * k1, dv.0 * o.0, dv.1 * o.1, dv.2 * o.2);
    lemma_sum_factor3(k1 * k1, dv.0 * dv.0, dv.1 * dv.1, dv.2 * dv.2);
    assert(dot3(ph, ph) == (k2 * k2) * oo - 2 * ((k2 * k1) * k1) + (k1 * k1) * k2);
    lemma_tangency_condition(o, u0, u1, r, alpha);
    assert(k1 * k1 - k2 * m == 0);
    lemma_mul_regroup(k1, k2);
    lemma_mul_regroup3(k2, m);
    assert(dot3(ph, ph) == (k2 * k2) * oo - (k2 * k2) * m);
    lemma_mul_dist_sub(k2 * k2, oo, m);
    lemma_mul_comm(k2 * k2, r * r);
}

/// Law: the tangent computation is a pure function of its inputs. Any two
/// result sequences that satisfy the tangent contract for the same frame and
/// radius are equal, element by element.
pub proof fn lemma_tangents_deterministic(r1: Seq<TangentPoint>, r2: Seq<TangentPoint>, o: (int, int, int), u0: (int, int, int), u1: (int, int, int), rad: int)
    requires
        r1.len() == sphere_roots(o, u0, u1, rad).len(),
        r2.len() == sphere_roots(o, u0, u1, rad).len(),
        forall|i: int| 0 <= i < r1.len() ==> tp_matches(r1[i], o, u0, u1, sphere_roots(o, u0, u1, rad)[i]),
        forall|i: int| 0 <= i < r2.len() ==> tp_matches(r2[i], o, u0, u1, sphere_roots(o, u0, u1, rad)[i]),
    ensures
        r1 == r2,
{
    assert forall|i: int| 0 <= i < r1.len() implies r1[i] == r2[i] by {
        assert(tp_matches(r1[i], o, u0, u1, sphere_roots(o, u0, u1, rad)[i]));
        assert(tp_matches(r2[i], o, u0, u1, sphere_roots(o, u0, u1, rad)[i]));
        assert(r1[i].x == r2[i].x);
        assert(r1[i].y == r2[i].y);
        assert(r1[i].z == r2[i].z);
        assert(r1[i].w == r2[i].w);
    }
    assert(r1 =~= r2);
}

} // verus!
